//! Speaking to the hosts of executable plugins.

use crate::collections::ascending;
use crate::plugins::contract::{
    capabilities_used, capability_name, contains_glob_meta, contributed_paths,
    contributions_fault, has_glob, identifier_fault, is_plain_text, list_contributed_paths,
    name_of_capability, only_diagnostics, pattern_fault, reference_fault, validate_identifier,
    validate_reference_name, validate_version, validate_workspace_pattern, version_fault,
    FieldFault, FieldFaultModel, PluginCapability, PluginContributions, PluginContributionsModel, PluginDiagnostic,
    PluginDiagnosticModel, PluginDiagnosticSeverity, PluginValidationError,
    PluginValidationErrorModel,
};
use crate::text::{
    byte_len, byte_length, concat2, concat3, concat4, concat5, concat7, contains_char,
    contains_control, decimal, digits, same,
};
use crate::values::{push_item, Ordered, Value};
use vstd::prelude::*;

verus! {

/// The version of the protocol.
pub const EXECUTABLE_PLUGIN_PROTOCOL_VERSION: u32 = 1;

/// How many arguments a host may have.
pub const MAX_ARGUMENTS: usize = 64;

/// How many bytes an argument of a host may have.
pub const MAX_ARGUMENT_BYTES: usize = 4_096;

/// How long a host may take.
pub const MAX_TIMEOUT_MILLISECONDS: u64 = 300_000;

/// The smallest limit on a response.
pub const MIN_RESPONSE_BYTES: u64 = 1_024;

/// The largest limit on a response.
pub const MAX_RESPONSE_BYTES: u64 = 16_777_216;

/// How many facts of a kind a host is told.
pub const MAX_HOST_FACTS: usize = 4_096;

/// How a plugin host is run.
#[derive(Debug, PartialEq, Eq)]
pub struct ExecutablePluginConfig {
    pub id: String,
    pub version: String,
    pub executable: String,
    pub arguments: Vec<String>,
    pub trusted: bool,
    pub timeout_milliseconds: u64,
    pub max_response_bytes: u64,
}

/// What a [`ExecutablePluginConfig`] holds.
pub struct ExecutablePluginConfigModel {
    pub id: Seq<char>,
    pub version: Seq<char>,
    pub executable: Seq<char>,
    pub arguments: Seq<Seq<char>>,
    pub trusted: bool,
    pub timeout_milliseconds: u64,
    pub max_response_bytes: u64,
}

impl DeepView for ExecutablePluginConfig {
    type V = ExecutablePluginConfigModel;

    open spec fn deep_view(&self) -> ExecutablePluginConfigModel {
        ExecutablePluginConfigModel {
            id: self.id.deep_view(),
            version: self.version.deep_view(),
            executable: self.executable.deep_view(),
            arguments: self.arguments.deep_view(),
            trusted: self.trusted.deep_view(),
            timeout_milliseconds: self.timeout_milliseconds.deep_view(),
            max_response_bytes: self.max_response_bytes.deep_view(),
        }
    }
}

impl Value for ExecutablePluginConfig {
    fn replicate(&self) -> (r: Self) {
        ExecutablePluginConfig {
            id: self.id.replicate(),
            version: self.version.replicate(),
            executable: self.executable.replicate(),
            arguments: self.arguments.replicate(),
            trusted: self.trusted.replicate(),
            timeout_milliseconds: self.timeout_milliseconds.replicate(),
            max_response_bytes: self.max_response_bytes.replicate(),
        }
    }

    fn same_value(&self, other: &Self) -> (r: bool) {
        self.id.same_value(&other.id)
            && self.version.same_value(&other.version)
            && self.executable.same_value(&other.executable)
            && self.arguments.same_value(&other.arguments)
            && self.trusted.same_value(&other.trusted)
            && self.timeout_milliseconds.same_value(&other.timeout_milliseconds)
            && self.max_response_bytes.same_value(&other.max_response_bytes)
    }
}

/// The module system of a package.
#[derive(Debug, Clone, Copy, PartialEq, Eq, Structural)]
pub enum HostPackageType {
    Module,
    CommonJs,
}

impl DeepView for HostPackageType {
    type V = HostPackageType;

    open spec fn deep_view(&self) -> HostPackageType {
        *self
    }
}

impl Value for HostPackageType {
    fn replicate(&self) -> (r: Self) {
        *self
    }

    fn same_value(&self, other: &Self) -> (r: bool) {
        *self == *other
    }
}

impl HostPackageType {
    /// The place of the variant in the order of the type.
    pub open spec fn place(self) -> nat {
        match self {
            HostPackageType::Module => 0,
            HostPackageType::CommonJs => 1,
        }
    }

    fn place_of(&self) -> (r: u8)
        ensures
            r == self.place(),
    {
        match self {
            HostPackageType::Module => 0,
            HostPackageType::CommonJs => 1,
        }
    }
}

impl Ordered for HostPackageType {
    open spec fn before(a: HostPackageType, b: HostPackageType) -> bool {
        a.place() < b.place()
    }

    fn is_before(&self, other: &Self) -> (r: bool) {
        assert(Self::before(*self, *other) == (self.place() < other.place()));
        self.place_of() < other.place_of()
    }

    proof fn before_irreflexive(a: HostPackageType) {
    }

    proof fn before_transitive(a: HostPackageType, b: HostPackageType, c: HostPackageType) {
    }

    proof fn before_total(a: HostPackageType, b: HostPackageType) {
    }
}

/// How a package is declared.
#[derive(Debug, Clone, Copy, PartialEq, Eq, Structural)]
pub enum HostPackageKind {
    Dependency,
    Development,
    Peer,
    Optional,
}

impl DeepView for HostPackageKind {
    type V = HostPackageKind;

    open spec fn deep_view(&self) -> HostPackageKind {
        *self
    }
}

impl Value for HostPackageKind {
    fn replicate(&self) -> (r: Self) {
        *self
    }

    fn same_value(&self, other: &Self) -> (r: bool) {
        *self == *other
    }
}

impl HostPackageKind {
    /// The place of the variant in the order of the type.
    pub open spec fn place(self) -> nat {
        match self {
            HostPackageKind::Dependency => 0,
            HostPackageKind::Development => 1,
            HostPackageKind::Peer => 2,
            HostPackageKind::Optional => 3,
        }
    }

    fn place_of(&self) -> (r: u8)
        ensures
            r == self.place(),
    {
        match self {
            HostPackageKind::Dependency => 0,
            HostPackageKind::Development => 1,
            HostPackageKind::Peer => 2,
            HostPackageKind::Optional => 3,
        }
    }
}

impl Ordered for HostPackageKind {
    open spec fn before(a: HostPackageKind, b: HostPackageKind) -> bool {
        a.place() < b.place()
    }

    fn is_before(&self, other: &Self) -> (r: bool) {
        assert(Self::before(*self, *other) == (self.place() < other.place()));
        self.place_of() < other.place_of()
    }

    proof fn before_irreflexive(a: HostPackageKind) {
    }

    proof fn before_transitive(a: HostPackageKind, b: HostPackageKind, c: HostPackageKind) {
    }

    proof fn before_total(a: HostPackageKind, b: HostPackageKind) {
    }
}

/// A package that is declared.
#[derive(Debug, PartialEq, Eq)]
pub struct HostPackageFact {
    pub name: String,
    pub version: Option<String>,
    pub kind: HostPackageKind,
}

/// What a [`HostPackageFact`] holds.
pub struct HostPackageFactModel {
    pub name: Seq<char>,
    pub version: Option<Seq<char>>,
    pub kind: HostPackageKind,
}

impl DeepView for HostPackageFact {
    type V = HostPackageFactModel;

    open spec fn deep_view(&self) -> HostPackageFactModel {
        HostPackageFactModel {
            name: self.name.deep_view(),
            version: self.version.deep_view(),
            kind: self.kind.deep_view(),
        }
    }
}

impl Value for HostPackageFact {
    fn replicate(&self) -> (r: Self) {
        HostPackageFact {
            name: self.name.replicate(),
            version: self.version.replicate(),
            kind: self.kind.replicate(),
        }
    }

    fn same_value(&self, other: &Self) -> (r: bool) {
        self.name.same_value(&other.name)
            && self.version.same_value(&other.version)
            && self.kind.same_value(&other.kind)
    }
}

impl Ordered for HostPackageFact {
    open spec fn before(a: HostPackageFactModel, b: HostPackageFactModel) -> bool {
        <String as Ordered>::before(a.name, b.name) || (a.name == b.name && (<Option<String> as Ordered>::before(a.version, b.version) || (a.version == b.version && (<HostPackageKind as Ordered>::before(a.kind, b.kind)))))
    }

    fn is_before(&self, other: &Self) -> (r: bool) {
        assert(Self::before(self.deep_view(), other.deep_view()) == (<String as Ordered>::before(self.deep_view().name, other.deep_view().name) || (self.deep_view().name == other.deep_view().name && (<Option<String> as Ordered>::before(self.deep_view().version, other.deep_view().version) || (self.deep_view().version == other.deep_view().version && (<HostPackageKind as Ordered>::before(self.deep_view().kind, other.deep_view().kind)))))));
        if self.name.is_before(&other.name) {
            return true;
        }
        if !self.name.same_value(&other.name) {
            return false;
        }
        if self.version.is_before(&other.version) {
            return true;
        }
        if !self.version.same_value(&other.version) {
            return false;
        }
        self.kind.is_before(&other.kind)
    }

    proof fn before_irreflexive(a: HostPackageFactModel) {
        <String as Ordered>::before_irreflexive(a.name);
        <Option<String> as Ordered>::before_irreflexive(a.version);
        <HostPackageKind as Ordered>::before_irreflexive(a.kind);
    }

    proof fn before_transitive(
        a: HostPackageFactModel,
        b: HostPackageFactModel,
        c: HostPackageFactModel,
    ) {
        if <String as Ordered>::before(a.name, b.name) && <String as Ordered>::before(b.name, c.name) {
            <String as Ordered>::before_transitive(a.name, b.name, c.name);
        }
        if <Option<String> as Ordered>::before(a.version, b.version) && <Option<String> as Ordered>::before(b.version, c.version) {
            <Option<String> as Ordered>::before_transitive(a.version, b.version, c.version);
        }
        if <HostPackageKind as Ordered>::before(a.kind, b.kind) && <HostPackageKind as Ordered>::before(b.kind, c.kind) {
            <HostPackageKind as Ordered>::before_transitive(a.kind, b.kind, c.kind);
        }
    }

    proof fn before_total(a: HostPackageFactModel, b: HostPackageFactModel) {
        <String as Ordered>::before_total(a.name, b.name);
        <Option<String> as Ordered>::before_total(a.version, b.version);
        <HostPackageKind as Ordered>::before_total(a.kind, b.kind);
    }
}

/// What a host is told of a manifest.
#[derive(Debug, PartialEq, Eq)]
pub struct HostManifestFacts {
    pub path: String,
    pub name: Option<String>,
    pub private: Option<bool>,
    pub package_type: Option<HostPackageType>,
    pub packages: Vec<HostPackageFact>,
}

/// What a [`HostManifestFacts`] holds.
pub struct HostManifestFactsModel {
    pub path: Seq<char>,
    pub name: Option<Seq<char>>,
    pub private: Option<bool>,
    pub package_type: Option<HostPackageType>,
    pub packages: Seq<HostPackageFactModel>,
}

impl DeepView for HostManifestFacts {
    type V = HostManifestFactsModel;

    open spec fn deep_view(&self) -> HostManifestFactsModel {
        HostManifestFactsModel {
            path: self.path.deep_view(),
            name: self.name.deep_view(),
            private: self.private.deep_view(),
            package_type: self.package_type.deep_view(),
            packages: self.packages.deep_view(),
        }
    }
}

impl Value for HostManifestFacts {
    fn replicate(&self) -> (r: Self) {
        HostManifestFacts {
            path: self.path.replicate(),
            name: self.name.replicate(),
            private: self.private.replicate(),
            package_type: self.package_type.replicate(),
            packages: self.packages.replicate(),
        }
    }

    fn same_value(&self, other: &Self) -> (r: bool) {
        self.path.same_value(&other.path)
            && self.name.same_value(&other.name)
            && self.private.same_value(&other.private)
            && self.package_type.same_value(&other.package_type)
            && self.packages.same_value(&other.packages)
    }
}

/// The language of a configuration file.
#[derive(Debug, Clone, Copy, PartialEq, Eq, Structural)]
pub enum HostConfigFormat {
    Json,
    JavaScript,
    TypeScript,
    Unknown,
}

impl DeepView for HostConfigFormat {
    type V = HostConfigFormat;

    open spec fn deep_view(&self) -> HostConfigFormat {
        *self
    }
}

impl Value for HostConfigFormat {
    fn replicate(&self) -> (r: Self) {
        *self
    }

    fn same_value(&self, other: &Self) -> (r: bool) {
        *self == *other
    }
}

impl HostConfigFormat {
    /// The place of the variant in the order of the type.
    pub open spec fn place(self) -> nat {
        match self {
            HostConfigFormat::Json => 0,
            HostConfigFormat::JavaScript => 1,
            HostConfigFormat::TypeScript => 2,
            HostConfigFormat::Unknown => 3,
        }
    }

    fn place_of(&self) -> (r: u8)
        ensures
            r == self.place(),
    {
        match self {
            HostConfigFormat::Json => 0,
            HostConfigFormat::JavaScript => 1,
            HostConfigFormat::TypeScript => 2,
            HostConfigFormat::Unknown => 3,
        }
    }
}

impl Ordered for HostConfigFormat {
    open spec fn before(a: HostConfigFormat, b: HostConfigFormat) -> bool {
        a.place() < b.place()
    }

    fn is_before(&self, other: &Self) -> (r: bool) {
        assert(Self::before(*self, *other) == (self.place() < other.place()));
        self.place_of() < other.place_of()
    }

    proof fn before_irreflexive(a: HostConfigFormat) {
    }

    proof fn before_transitive(a: HostConfigFormat, b: HostConfigFormat, c: HostConfigFormat) {
    }

    proof fn before_total(a: HostConfigFormat, b: HostConfigFormat) {
    }
}

/// What a host is told of a configuration file.
#[derive(Debug, PartialEq, Eq)]
pub struct HostConfigFact {
    pub path: String,
    pub format: HostConfigFormat,
    pub referenced_packages: Vec<String>,
}

/// What a [`HostConfigFact`] holds.
pub struct HostConfigFactModel {
    pub path: Seq<char>,
    pub format: HostConfigFormat,
    pub referenced_packages: Seq<Seq<char>>,
}

impl DeepView for HostConfigFact {
    type V = HostConfigFactModel;

    open spec fn deep_view(&self) -> HostConfigFactModel {
        HostConfigFactModel {
            path: self.path.deep_view(),
            format: self.format.deep_view(),
            referenced_packages: self.referenced_packages.deep_view(),
        }
    }
}

impl Value for HostConfigFact {
    fn replicate(&self) -> (r: Self) {
        HostConfigFact {
            path: self.path.replicate(),
            format: self.format.replicate(),
            referenced_packages: self.referenced_packages.replicate(),
        }
    }

    fn same_value(&self, other: &Self) -> (r: bool) {
        self.path.same_value(&other.path)
            && self.format.same_value(&other.format)
            && self.referenced_packages.same_value(&other.referenced_packages)
    }
}

impl Ordered for HostConfigFact {
    open spec fn before(a: HostConfigFactModel, b: HostConfigFactModel) -> bool {
        <String as Ordered>::before(a.path, b.path) || (a.path == b.path && (<HostConfigFormat as Ordered>::before(a.format, b.format) || (a.format == b.format && (<Vec<String> as Ordered>::before(a.referenced_packages, b.referenced_packages)))))
    }

    fn is_before(&self, other: &Self) -> (r: bool) {
        assert(Self::before(self.deep_view(), other.deep_view()) == (<String as Ordered>::before(self.deep_view().path, other.deep_view().path) || (self.deep_view().path == other.deep_view().path && (<HostConfigFormat as Ordered>::before(self.deep_view().format, other.deep_view().format) || (self.deep_view().format == other.deep_view().format && (<Vec<String> as Ordered>::before(self.deep_view().referenced_packages, other.deep_view().referenced_packages)))))));
        if self.path.is_before(&other.path) {
            return true;
        }
        if !self.path.same_value(&other.path) {
            return false;
        }
        if self.format.is_before(&other.format) {
            return true;
        }
        if !self.format.same_value(&other.format) {
            return false;
        }
        self.referenced_packages.is_before(&other.referenced_packages)
    }

    proof fn before_irreflexive(a: HostConfigFactModel) {
        <String as Ordered>::before_irreflexive(a.path);
        <HostConfigFormat as Ordered>::before_irreflexive(a.format);
        <Vec<String> as Ordered>::before_irreflexive(a.referenced_packages);
    }

    proof fn before_transitive(
        a: HostConfigFactModel,
        b: HostConfigFactModel,
        c: HostConfigFactModel,
    ) {
        if <String as Ordered>::before(a.path, b.path) && <String as Ordered>::before(b.path, c.path) {
            <String as Ordered>::before_transitive(a.path, b.path, c.path);
        }
        if <HostConfigFormat as Ordered>::before(a.format, b.format) && <HostConfigFormat as Ordered>::before(b.format, c.format) {
            <HostConfigFormat as Ordered>::before_transitive(a.format, b.format, c.format);
        }
        if <Vec<String> as Ordered>::before(a.referenced_packages, b.referenced_packages) && <Vec<String> as Ordered>::before(b.referenced_packages, c.referenced_packages) {
            <Vec<String> as Ordered>::before_transitive(
                a.referenced_packages,
                b.referenced_packages,
                c.referenced_packages,
            );
        }
    }

    proof fn before_total(a: HostConfigFactModel, b: HostConfigFactModel) {
        <String as Ordered>::before_total(a.path, b.path);
        <HostConfigFormat as Ordered>::before_total(a.format, b.format);
        <Vec<String> as Ordered>::before_total(a.referenced_packages, b.referenced_packages);
    }
}

/// What a host is asked.
#[derive(Debug, PartialEq, Eq)]
pub struct HostRequest {
    pub protocol_version: u32,
    pub request_id: String,
    pub plugin_id: String,
    pub plugin_version: String,
    pub workspace_root: String,
    pub target_profile: String,
    pub manifest: Option<HostManifestFacts>,
    pub config_files: Vec<HostConfigFact>,
    pub capabilities: Vec<PluginCapability>,
}

/// What a [`HostRequest`] holds.
pub struct HostRequestModel {
    pub protocol_version: u32,
    pub request_id: Seq<char>,
    pub plugin_id: Seq<char>,
    pub plugin_version: Seq<char>,
    pub workspace_root: Seq<char>,
    pub target_profile: Seq<char>,
    pub manifest: Option<HostManifestFactsModel>,
    pub config_files: Seq<HostConfigFactModel>,
    pub capabilities: Seq<PluginCapability>,
}

impl DeepView for HostRequest {
    type V = HostRequestModel;

    open spec fn deep_view(&self) -> HostRequestModel {
        HostRequestModel {
            protocol_version: self.protocol_version.deep_view(),
            request_id: self.request_id.deep_view(),
            plugin_id: self.plugin_id.deep_view(),
            plugin_version: self.plugin_version.deep_view(),
            workspace_root: self.workspace_root.deep_view(),
            target_profile: self.target_profile.deep_view(),
            manifest: self.manifest.deep_view(),
            config_files: self.config_files.deep_view(),
            capabilities: self.capabilities.deep_view(),
        }
    }
}

impl Value for HostRequest {
    fn replicate(&self) -> (r: Self) {
        HostRequest {
            protocol_version: self.protocol_version.replicate(),
            request_id: self.request_id.replicate(),
            plugin_id: self.plugin_id.replicate(),
            plugin_version: self.plugin_version.replicate(),
            workspace_root: self.workspace_root.replicate(),
            target_profile: self.target_profile.replicate(),
            manifest: self.manifest.replicate(),
            config_files: self.config_files.replicate(),
            capabilities: self.capabilities.replicate(),
        }
    }

    fn same_value(&self, other: &Self) -> (r: bool) {
        self.protocol_version.same_value(&other.protocol_version)
            && self.request_id.same_value(&other.request_id)
            && self.plugin_id.same_value(&other.plugin_id)
            && self.plugin_version.same_value(&other.plugin_version)
            && self.workspace_root.same_value(&other.workspace_root)
            && self.target_profile.same_value(&other.target_profile)
            && self.manifest.same_value(&other.manifest)
            && self.config_files.same_value(&other.config_files)
            && self.capabilities.same_value(&other.capabilities)
    }
}

/// Whether a host could do its work.
#[derive(Debug, Clone, Copy, PartialEq, Eq, Structural)]
pub enum HostResponseStatus {
    Complete,
    Incomplete,
    Failed,
}

impl DeepView for HostResponseStatus {
    type V = HostResponseStatus;

    open spec fn deep_view(&self) -> HostResponseStatus {
        *self
    }
}

impl Value for HostResponseStatus {
    fn replicate(&self) -> (r: Self) {
        *self
    }

    fn same_value(&self, other: &Self) -> (r: bool) {
        *self == *other
    }
}

/// The name of a status.
pub open spec fn response_status_name(value: HostResponseStatus) -> Seq<char> {
    match value {
        HostResponseStatus::Complete => "Complete"@,
        HostResponseStatus::Incomplete => "Incomplete"@,
        HostResponseStatus::Failed => "Failed"@,
    }
}

/// The name of a status.
pub fn name_of_response_status(value: HostResponseStatus) -> (r: &'static str)
    ensures
        r@ == response_status_name(value),
{
    match value {
        HostResponseStatus::Complete => "Complete",
        HostResponseStatus::Incomplete => "Incomplete",
        HostResponseStatus::Failed => "Failed",
    }
}

/// What a host answers.
#[derive(Debug, PartialEq, Eq)]
pub struct HostResponse {
    pub protocol_version: u32,
    pub request_id: String,
    pub plugin_id: String,
    pub plugin_version: String,
    pub status: HostResponseStatus,
    pub contributions: PluginContributions,
}

/// What a [`HostResponse`] holds.
pub struct HostResponseModel {
    pub protocol_version: u32,
    pub request_id: Seq<char>,
    pub plugin_id: Seq<char>,
    pub plugin_version: Seq<char>,
    pub status: HostResponseStatus,
    pub contributions: PluginContributionsModel,
}

impl DeepView for HostResponse {
    type V = HostResponseModel;

    open spec fn deep_view(&self) -> HostResponseModel {
        HostResponseModel {
            protocol_version: self.protocol_version.deep_view(),
            request_id: self.request_id.deep_view(),
            plugin_id: self.plugin_id.deep_view(),
            plugin_version: self.plugin_version.deep_view(),
            status: self.status.deep_view(),
            contributions: self.contributions.deep_view(),
        }
    }
}

impl Value for HostResponse {
    fn replicate(&self) -> (r: Self) {
        HostResponse {
            protocol_version: self.protocol_version.replicate(),
            request_id: self.request_id.replicate(),
            plugin_id: self.plugin_id.replicate(),
            plugin_version: self.plugin_version.replicate(),
            status: self.status.replicate(),
            contributions: self.contributions.replicate(),
        }
    }

    fn same_value(&self, other: &Self) -> (r: bool) {
        self.protocol_version.same_value(&other.protocol_version)
            && self.request_id.same_value(&other.request_id)
            && self.plugin_id.same_value(&other.plugin_id)
            && self.plugin_version.same_value(&other.plugin_version)
            && self.status.same_value(&other.status)
            && self.contributions.same_value(&other.contributions)
    }
}

/// How a host fails.
#[derive(Debug, Clone, Copy, PartialEq, Eq, Structural)]
pub enum HostFailureKind {
    Spawn,
    Timeout,
    Crash,
    InvalidResponse,
    OversizedResponse,
}

impl DeepView for HostFailureKind {
    type V = HostFailureKind;

    open spec fn deep_view(&self) -> HostFailureKind {
        *self
    }
}

impl Value for HostFailureKind {
    fn replicate(&self) -> (r: Self) {
        *self
    }

    fn same_value(&self, other: &Self) -> (r: bool) {
        *self == *other
    }
}

/// A number outside its range.
#[derive(Debug, Clone, Copy, PartialEq, Eq, Structural)]
pub struct OutOfRange {
    pub value: u64,
    pub minimum: u64,
    pub maximum: u64,
}

impl DeepView for OutOfRange {
    type V = OutOfRange;

    open spec fn deep_view(&self) -> OutOfRange {
        *self
    }
}

impl Value for OutOfRange {
    fn replicate(&self) -> (r: Self) {
        *self
    }

    fn same_value(&self, other: &Self) -> (r: bool) {
        *self == *other
    }
}

/// A version that is not the expected one.
#[derive(Debug, Clone, Copy, PartialEq, Eq, Structural)]
pub struct VersionMismatch {
    pub expected: u32,
    pub actual: u32,
}

impl DeepView for VersionMismatch {
    type V = VersionMismatch;

    open spec fn deep_view(&self) -> VersionMismatch {
        *self
    }
}

impl Value for VersionMismatch {
    fn replicate(&self) -> (r: Self) {
        *self
    }

    fn same_value(&self, other: &Self) -> (r: bool) {
        *self == *other
    }
}

/// More of something than allowed.
#[derive(Debug, PartialEq, Eq)]
pub struct TooMany {
    pub field: &'static str,
    pub maximum: usize,
}

/// What a [`TooMany`] holds.
pub struct TooManyModel {
    pub field: Seq<char>,
    pub maximum: usize,
}

impl DeepView for TooMany {
    type V = TooManyModel;

    open spec fn deep_view(&self) -> TooManyModel {
        TooManyModel {
            field: self.field.deep_view(),
            maximum: self.maximum.deep_view(),
        }
    }
}

impl Value for TooMany {
    fn replicate(&self) -> (r: Self) {
        TooMany {
            field: self.field.replicate(),
            maximum: self.maximum.replicate(),
        }
    }

    fn same_value(&self, other: &Self) -> (r: bool) {
        self.field.same_value(&other.field)
            && self.maximum.same_value(&other.maximum)
    }
}

/// An answer to another question.
#[derive(Debug, PartialEq, Eq)]
pub struct IdentityMismatch {
    pub field: &'static str,
    pub expected: String,
    pub actual: String,
}

/// What a [`IdentityMismatch`] holds.
pub struct IdentityMismatchModel {
    pub field: Seq<char>,
    pub expected: Seq<char>,
    pub actual: Seq<char>,
}

impl DeepView for IdentityMismatch {
    type V = IdentityMismatchModel;

    open spec fn deep_view(&self) -> IdentityMismatchModel {
        IdentityMismatchModel {
            field: self.field.deep_view(),
            expected: self.expected.deep_view(),
            actual: self.actual.deep_view(),
        }
    }
}

impl Value for IdentityMismatch {
    fn replicate(&self) -> (r: Self) {
        IdentityMismatch {
            field: self.field.replicate(),
            expected: self.expected.replicate(),
            actual: self.actual.replicate(),
        }
    }

    fn same_value(&self, other: &Self) -> (r: bool) {
        self.field.same_value(&other.field)
            && self.expected.same_value(&other.expected)
            && self.actual.same_value(&other.actual)
    }
}

/// Why a question to a host or its answer is refused.
#[derive(Debug, PartialEq, Eq)]
pub enum HostValidationError {
    Plugin(PluginValidationError),
    UntrustedPlugin(String),
    ExecutableIsNotFile(String),
    TooManyArguments(usize),
    InvalidArgument(usize),
    InvalidTimeout(OutOfRange),
    InvalidResponseLimit(OutOfRange),
    ProtocolVersion(VersionMismatch),
    InvalidWorkspaceRoot(String),
    MissingCapabilities,
    ConcretePathContainsGlob(FieldFault),
    NonCanonicalOrder(&'static str),
    TooManyFacts(TooMany),
    ResponseIdentity(IdentityMismatch),
    UnnegotiatedCapability(PluginCapability),
    FailedResponseContributedFacts(HostResponseStatus),
    FailedResponseWithoutBlocker(HostResponseStatus),
}

/// What a [`HostValidationError`] holds.
pub enum HostValidationErrorModel {
    Plugin(PluginValidationErrorModel),
    UntrustedPlugin(Seq<char>),
    ExecutableIsNotFile(Seq<char>),
    TooManyArguments(usize),
    InvalidArgument(usize),
    InvalidTimeout(OutOfRange),
    InvalidResponseLimit(OutOfRange),
    ProtocolVersion(VersionMismatch),
    InvalidWorkspaceRoot(Seq<char>),
    MissingCapabilities,
    ConcretePathContainsGlob(FieldFaultModel),
    NonCanonicalOrder(Seq<char>),
    TooManyFacts(TooManyModel),
    ResponseIdentity(IdentityMismatchModel),
    UnnegotiatedCapability(PluginCapability),
    FailedResponseContributedFacts(HostResponseStatus),
    FailedResponseWithoutBlocker(HostResponseStatus),
}

impl DeepView for HostValidationError {
    type V = HostValidationErrorModel;

    open spec fn deep_view(&self) -> HostValidationErrorModel {
        match self {
            HostValidationError::Plugin(x) => HostValidationErrorModel::Plugin(x.deep_view()),
            HostValidationError::UntrustedPlugin(x) => HostValidationErrorModel::UntrustedPlugin(x.deep_view()),
            HostValidationError::ExecutableIsNotFile(x) => HostValidationErrorModel::ExecutableIsNotFile(x.deep_view()),
            HostValidationError::TooManyArguments(x) => HostValidationErrorModel::TooManyArguments(x.deep_view()),
            HostValidationError::InvalidArgument(x) => HostValidationErrorModel::InvalidArgument(x.deep_view()),
            HostValidationError::InvalidTimeout(x) => HostValidationErrorModel::InvalidTimeout(x.deep_view()),
            HostValidationError::InvalidResponseLimit(x) => HostValidationErrorModel::InvalidResponseLimit(x.deep_view()),
            HostValidationError::ProtocolVersion(x) => HostValidationErrorModel::ProtocolVersion(x.deep_view()),
            HostValidationError::InvalidWorkspaceRoot(x) => HostValidationErrorModel::InvalidWorkspaceRoot(x.deep_view()),
            HostValidationError::MissingCapabilities => HostValidationErrorModel::MissingCapabilities,
            HostValidationError::ConcretePathContainsGlob(x) => HostValidationErrorModel::ConcretePathContainsGlob(x.deep_view()),
            HostValidationError::NonCanonicalOrder(x) => HostValidationErrorModel::NonCanonicalOrder(x.deep_view()),
            HostValidationError::TooManyFacts(x) => HostValidationErrorModel::TooManyFacts(x.deep_view()),
            HostValidationError::ResponseIdentity(x) => HostValidationErrorModel::ResponseIdentity(x.deep_view()),
            HostValidationError::UnnegotiatedCapability(x) => HostValidationErrorModel::UnnegotiatedCapability(x.deep_view()),
            HostValidationError::FailedResponseContributedFacts(x) => HostValidationErrorModel::FailedResponseContributedFacts(x.deep_view()),
            HostValidationError::FailedResponseWithoutBlocker(x) => HostValidationErrorModel::FailedResponseWithoutBlocker(x.deep_view()),
        }
    }
}

impl Value for HostValidationError {
    fn replicate(&self) -> (r: Self) {
        match self {
            HostValidationError::Plugin(x) => HostValidationError::Plugin(x.replicate()),
            HostValidationError::UntrustedPlugin(x) => HostValidationError::UntrustedPlugin(x.replicate()),
            HostValidationError::ExecutableIsNotFile(x) => HostValidationError::ExecutableIsNotFile(x.replicate()),
            HostValidationError::TooManyArguments(x) => HostValidationError::TooManyArguments(x.replicate()),
            HostValidationError::InvalidArgument(x) => HostValidationError::InvalidArgument(x.replicate()),
            HostValidationError::InvalidTimeout(x) => HostValidationError::InvalidTimeout(x.replicate()),
            HostValidationError::InvalidResponseLimit(x) => HostValidationError::InvalidResponseLimit(x.replicate()),
            HostValidationError::ProtocolVersion(x) => HostValidationError::ProtocolVersion(x.replicate()),
            HostValidationError::InvalidWorkspaceRoot(x) => HostValidationError::InvalidWorkspaceRoot(x.replicate()),
            HostValidationError::MissingCapabilities => HostValidationError::MissingCapabilities,
            HostValidationError::ConcretePathContainsGlob(x) => HostValidationError::ConcretePathContainsGlob(x.replicate()),
            HostValidationError::NonCanonicalOrder(x) => HostValidationError::NonCanonicalOrder(x.replicate()),
            HostValidationError::TooManyFacts(x) => HostValidationError::TooManyFacts(x.replicate()),
            HostValidationError::ResponseIdentity(x) => HostValidationError::ResponseIdentity(x.replicate()),
            HostValidationError::UnnegotiatedCapability(x) => HostValidationError::UnnegotiatedCapability(x.replicate()),
            HostValidationError::FailedResponseContributedFacts(x) => HostValidationError::FailedResponseContributedFacts(x.replicate()),
            HostValidationError::FailedResponseWithoutBlocker(x) => HostValidationError::FailedResponseWithoutBlocker(x.replicate()),
        }
    }

    fn same_value(&self, other: &Self) -> (r: bool) {
        match (self, other) {
            (HostValidationError::Plugin(x), HostValidationError::Plugin(y)) => x.same_value(y),
            (HostValidationError::UntrustedPlugin(x), HostValidationError::UntrustedPlugin(y)) => x.same_value(y),
            (HostValidationError::ExecutableIsNotFile(x), HostValidationError::ExecutableIsNotFile(y)) => x.same_value(y),
            (HostValidationError::TooManyArguments(x), HostValidationError::TooManyArguments(y)) => x.same_value(y),
            (HostValidationError::InvalidArgument(x), HostValidationError::InvalidArgument(y)) => x.same_value(y),
            (HostValidationError::InvalidTimeout(x), HostValidationError::InvalidTimeout(y)) => x.same_value(y),
            (HostValidationError::InvalidResponseLimit(x), HostValidationError::InvalidResponseLimit(y)) => x.same_value(y),
            (HostValidationError::ProtocolVersion(x), HostValidationError::ProtocolVersion(y)) => x.same_value(y),
            (HostValidationError::InvalidWorkspaceRoot(x), HostValidationError::InvalidWorkspaceRoot(y)) => x.same_value(y),
            (HostValidationError::MissingCapabilities, HostValidationError::MissingCapabilities) => true,
            (HostValidationError::ConcretePathContainsGlob(x), HostValidationError::ConcretePathContainsGlob(y)) => x.same_value(y),
            (HostValidationError::NonCanonicalOrder(x), HostValidationError::NonCanonicalOrder(y)) => x.same_value(y),
            (HostValidationError::TooManyFacts(x), HostValidationError::TooManyFacts(y)) => x.same_value(y),
            (HostValidationError::ResponseIdentity(x), HostValidationError::ResponseIdentity(y)) => x.same_value(y),
            (HostValidationError::UnnegotiatedCapability(x), HostValidationError::UnnegotiatedCapability(y)) => x.same_value(y),
            (HostValidationError::FailedResponseContributedFacts(x), HostValidationError::FailedResponseContributedFacts(y)) => x.same_value(y),
            (HostValidationError::FailedResponseWithoutBlocker(x), HostValidationError::FailedResponseWithoutBlocker(y)) => x.same_value(y),
            _ => false,
        }
    }
}

impl HostValidationErrorModel {
    /// The error in words.
    pub open spec fn text(self) -> Seq<char> {
        match self {
            HostValidationErrorModel::Plugin(x) => x.text(),
            HostValidationErrorModel::UntrustedPlugin(x) => "executable plugin `"@ + x + "` requires explicit trust"@,
            HostValidationErrorModel::ExecutableIsNotFile(x) => "executable plugin path `"@ + x + "` is not a regular file"@,
            HostValidationErrorModel::TooManyArguments(x) => "executable plugin has more than "@ + digits(x as nat)
                + " arguments"@,
            HostValidationErrorModel::InvalidArgument(x) => "executable plugin argument "@ + digits(x as nat)
                + " is invalid"@,
            HostValidationErrorModel::InvalidTimeout(x) => "plugin timeout "@ + digits(x.value as nat)
                + "ms is outside 1..="@ + digits(x.maximum as nat) + "ms"@,
            HostValidationErrorModel::InvalidResponseLimit(x) => "plugin response limit "@ + digits(x.value as nat)
                + " is outside "@ + digits(x.minimum as nat) + "..="@ + digits(x.maximum as nat)
                + " bytes"@,
            HostValidationErrorModel::ProtocolVersion(x) => "unsupported executable-plugin protocol "@ + digits(x.actual as nat)
                + "; expected "@ + digits(x.expected as nat),
            HostValidationErrorModel::InvalidWorkspaceRoot(x) => "host request workspace root must be `.`, not `"@ + x + "`"@,
            HostValidationErrorModel::MissingCapabilities => "host request must negotiate at least one capability"@,
            HostValidationErrorModel::ConcretePathContainsGlob(x) => "`"@ + x.field
                + "` must be a concrete path, not glob `"@ + x.value + "`"@,
            HostValidationErrorModel::NonCanonicalOrder(x) => "`"@ + x
                + "` must be sorted and contain no duplicates"@,
            HostValidationErrorModel::TooManyFacts(x) => "`"@ + x.field + "` contains more than "@ + digits(
                x.maximum as nat,
            ) + " facts"@,
            HostValidationErrorModel::ResponseIdentity(x) => "response "@ + x.field + " `"@ + x.actual
                + "` does not match request value `"@ + x.expected + "`"@,
            HostValidationErrorModel::UnnegotiatedCapability(x) => "plugin response used capability `"@ + capability_name(x)
                + "` that the host did not negotiate"@,
            HostValidationErrorModel::FailedResponseContributedFacts(x) => response_status_name(x)
                + " plugin response must contain no contributions except diagnostics"@,
            HostValidationErrorModel::FailedResponseWithoutBlocker(x) => response_status_name(x)
                + " plugin response requires a blocking diagnostic"@,
        }
    }
}

impl HostValidationError {
    /// The error in words.
    #[must_use]
    pub fn message(&self) -> (r: String)
        ensures
            r@ == self.deep_view().text(),
    {
        match self {
            HostValidationError::Plugin(x) => x.message(),
            HostValidationError::UntrustedPlugin(x) => concat3("executable plugin `", x, "` requires explicit trust"),
            HostValidationError::ExecutableIsNotFile(x) => concat3(
                "executable plugin path `",
                x,
                "` is not a regular file",
            ),
            HostValidationError::TooManyArguments(x) => concat3(
                "executable plugin has more than ",
                &decimal(*x as u64),
                " arguments",
            ),
            HostValidationError::InvalidArgument(x) => concat3(
                "executable plugin argument ",
                &decimal(*x as u64),
                " is invalid",
            ),
            HostValidationError::InvalidTimeout(x) => concat5(
                "plugin timeout ",
                &decimal(x.value),
                "ms is outside 1..=",
                &decimal(x.maximum),
                "ms",
            ),
            HostValidationError::InvalidResponseLimit(x) => concat7(
                "plugin response limit ",
                &decimal(x.value),
                " is outside ",
                &decimal(x.minimum),
                "..=",
                &decimal(x.maximum),
                " bytes",
            ),
            HostValidationError::ProtocolVersion(x) => concat4(
                "unsupported executable-plugin protocol ",
                &decimal(x.actual as u64),
                "; expected ",
                &decimal(x.expected as u64),
            ),
            HostValidationError::InvalidWorkspaceRoot(x) => concat3(
                "host request workspace root must be `.`, not `",
                x,
                "`",
            ),
            HostValidationError::MissingCapabilities => "host request must negotiate at least one capability".to_string(),
            HostValidationError::ConcretePathContainsGlob(x) => concat5(
                "`",
                x.field,
                "` must be a concrete path, not glob `",
                &x.value,
                "`",
            ),
            HostValidationError::NonCanonicalOrder(x) => concat3(
                "`",
                x,
                "` must be sorted and contain no duplicates",
            ),
            HostValidationError::TooManyFacts(x) => concat5(
                "`",
                x.field,
                "` contains more than ",
                &decimal(x.maximum as u64),
                " facts",
            ),
            HostValidationError::ResponseIdentity(x) => concat7(
                "response ",
                x.field,
                " `",
                &x.actual,
                "` does not match request value `",
                &x.expected,
                "`",
            ),
            HostValidationError::UnnegotiatedCapability(x) => concat3(
                "plugin response used capability `",
                name_of_capability(*x),
                "` that the host did not negotiate",
            ),
            HostValidationError::FailedResponseContributedFacts(x) => concat2(
                name_of_response_status(*x),
                " plugin response must contain no contributions except diagnostics",
            ),
            HostValidationError::FailedResponseWithoutBlocker(x) => concat2(
                name_of_response_status(*x),
                " plugin response requires a blocking diagnostic",
            ),
        }
    }
}

/// The first of two faults.
pub open spec fn earlier(
    first: Option<HostValidationErrorModel>,
    second: Option<HostValidationErrorModel>,
) -> Option<HostValidationErrorModel> {
    if first is Some {
        first
    } else {
        second
    }
}

/// A fault of the contract of plugins.
pub open spec fn of_plugin(fault: Option<PluginValidationErrorModel>) -> Option<
    HostValidationErrorModel,
> {
    match fault {
        Some(error) => Some(HostValidationErrorModel::Plugin(error)),
        None => None,
    }
}

fn from_plugin(fault: Option<PluginValidationError>) -> (r: Option<HostValidationError>)
    ensures
        r.deep_view() == of_plugin(fault.deep_view()),
{
    match fault {
        Some(error) => Some(HostValidationError::Plugin(error)),
        None => None,
    }
}

/// Why the version of the protocol is refused.
pub open spec fn protocol_fault(actual: u32) -> Option<HostValidationErrorModel> {
    if actual == EXECUTABLE_PLUGIN_PROTOCOL_VERSION {
        None
    } else {
        Some(
            HostValidationErrorModel::ProtocolVersion(
                VersionMismatch { expected: EXECUTABLE_PLUGIN_PROTOCOL_VERSION, actual },
            ),
        )
    }
}

fn check_protocol(actual: u32) -> (r: Option<HostValidationError>)
    ensures
        r.deep_view() == protocol_fault(actual),
{
    if actual == EXECUTABLE_PLUGIN_PROTOCOL_VERSION {
        None
    } else {
        Some(
            HostValidationError::ProtocolVersion(
                VersionMismatch { expected: EXECUTABLE_PLUGIN_PROTOCOL_VERSION, actual },
            ),
        )
    }
}

/// Why a list that has to be in order is refused.
pub open spec fn order_fault<T: Ordered>(field: Seq<char>, values: Seq<T::V>) -> Option<
    HostValidationErrorModel,
> {
    if ascending::<T>(values) {
        None
    } else {
        Some(HostValidationErrorModel::NonCanonicalOrder(field))
    }
}

/// Refuses a list that is not in order or holds something twice.
pub fn validate_sorted_unique<T: Ordered>(field: &'static str, values: &Vec<T>) -> (r: Option<
    HostValidationError,
>)
    ensures
        r.deep_view() == order_fault::<T>(field@, values.deep_view()),
{
    let ghost model = values.deep_view();
    let n: usize = values.len();
    let mut i: usize = 1;
    while i < n
        invariant
            n == values@.len(),
            1 <= i,
            i <= n || n == 0,
            model == values.deep_view(),
            forall|a: int, b: int|
                0 <= a < b < i && b < n ==> T::before(#[trigger] model[a], #[trigger] model[b]),
        decreases n - i,
    {
        assert(model[i - 1] == values@[i - 1].deep_view());
        assert(model[i as int] == values@[i as int].deep_view());
        if !values[i - 1].is_before(&values[i]) {
            return Some(HostValidationError::NonCanonicalOrder(field));
        }
        proof {
            assert forall|a: int, b: int| 0 <= a < b < i + 1 && b < n implies T::before(
                #[trigger] model[a],
                #[trigger] model[b],
            ) by {
                if b == i && a < i - 1 {
                    T::before_transitive(model[a], model[i - 1], model[i as int]);
                }
            }
        }
        i = i + 1;
    }
    None
}

/// Why a list that has to be short is refused.
pub open spec fn count_fault(field: Seq<char>, count: nat) -> Option<HostValidationErrorModel> {
    if count > MAX_HOST_FACTS {
        Some(
            HostValidationErrorModel::TooManyFacts(
                TooManyModel { field, maximum: MAX_HOST_FACTS },
            ),
        )
    } else {
        None
    }
}

fn check_count(field: &'static str, count: usize) -> (r: Option<HostValidationError>)
    ensures
        r.deep_view() == count_fault(field@, count as nat),
{
    if count > MAX_HOST_FACTS {
        Some(HostValidationError::TooManyFacts(TooMany { field, maximum: MAX_HOST_FACTS }))
    } else {
        None
    }
}

/// Why a text is refused.
pub open spec fn text_fault(field: Seq<char>, value: Seq<char>) -> Option<
    HostValidationErrorModel,
> {
    if is_plain_text(value) {
        None
    } else {
        Some(
            HostValidationErrorModel::Plugin(PluginValidationErrorModel::InvalidText(field)),
        )
    }
}

fn check_text(field: &'static str, value: &str) -> (r: Option<HostValidationError>)
    ensures
        r.deep_view() == text_fault(field@, value@),
{
    let bytes: usize = byte_len(value);
    if bytes == 0 || bytes > 1_024 || contains_control(value) {
        Some(HostValidationError::Plugin(PluginValidationError::InvalidText(field)))
    } else {
        None
    }
}

/// Why a path in a question is refused.
pub open spec fn path_fault(field: Seq<char>, path: Seq<char>) -> Option<
    HostValidationErrorModel,
> {
    earlier(
        of_plugin(pattern_fault(path)),
        if has_glob(path) {
            Some(
                HostValidationErrorModel::ConcretePathContainsGlob(
                    FieldFaultModel { field, value: path },
                ),
            )
        } else {
            None
        },
    )
}

fn check_path(field: &'static str, path: &str) -> (r: Option<HostValidationError>)
    ensures
        r.deep_view() == path_fault(field@, path@),
{
    let fault: Option<HostValidationError> = from_plugin(validate_workspace_pattern(path));
    if fault.is_some() {
        return fault;
    }
    if contains_glob_meta(path) {
        Some(
            HostValidationError::ConcretePathContainsGlob(
                FieldFault { field, value: path.to_string() },
            ),
        )
    } else {
        None
    }
}

/// Why a package in a question is refused.
pub open spec fn package_fault(package: HostPackageFactModel) -> Option<
    HostValidationErrorModel,
> {
    earlier(
        of_plugin(reference_fault("hostRequest.manifest.packages.name"@, package.name)),
        match package.version {
            Some(version) => text_fault("hostRequest.manifest.packages.version"@, version),
            None => None,
        },
    )
}

fn check_package(package: &HostPackageFact) -> (r: Option<HostValidationError>)
    ensures
        r.deep_view() == package_fault(package.deep_view()),
{
    let fault: Option<HostValidationError> = from_plugin(
        validate_reference_name("hostRequest.manifest.packages.name", &package.name),
    );
    if fault.is_some() {
        return fault;
    }
    match &package.version {
        Some(version) => check_text("hostRequest.manifest.packages.version", version),
        None => None,
    }
}

/// Why some packages in a question are refused: the first that is.
pub open spec fn packages_fault(
    items: Seq<HostPackageFactModel>,
) -> Option<HostValidationErrorModel>
    decreases items.len(),
{
    if items.len() == 0 {
        None
    } else {
        let rest = packages_fault(items.drop_last());
        let last = items.last();
        earlier(rest, package_fault(last))
    }
}

fn check_packages(items: &Vec<HostPackageFact>) -> (r: Option<HostValidationError>)
    ensures
        r.deep_view() == packages_fault(items.deep_view()),
{
    let mut fault: Option<HostValidationError> = None;
    let ghost model = items.deep_view();
    let mut i: usize = 0;
    while i < items.len()
        invariant
            i <= items.len(),
            model == items.deep_view(),
            fault.deep_view() == packages_fault(model.take(i as int)),
        decreases items.len() - i,
    {
        proof {
            assert(model.take(i + 1).drop_last() =~= model.take(i as int));
            assert(model.take(i + 1).last() == items@[i as int].deep_view());
        }
        let missing: bool = fault.is_none();
        if missing {
            fault = check_package(&items[i]);
        }
        i = i + 1;
    }
    assert(model.take(i as int) =~= model);
    fault
}

/// Why some packages of a configuration file are refused: the first that is.
pub open spec fn references_fault(items: Seq<Seq<char>>) -> Option<HostValidationErrorModel>
    decreases items.len(),
{
    if items.len() == 0 {
        None
    } else {
        let rest = references_fault(items.drop_last());
        let last = items.last();
        earlier(rest, of_plugin(
                reference_fault("hostRequest.configFiles.referencedPackages"@, last),
            ))
    }
}

fn check_references(items: &Vec<String>) -> (r: Option<HostValidationError>)
    ensures
        r.deep_view() == references_fault(items.deep_view()),
{
    let mut fault: Option<HostValidationError> = None;
    let ghost model = items.deep_view();
    let mut i: usize = 0;
    while i < items.len()
        invariant
            i <= items.len(),
            model == items.deep_view(),
            fault.deep_view() == references_fault(model.take(i as int)),
        decreases items.len() - i,
    {
        proof {
            assert(model.take(i + 1).drop_last() =~= model.take(i as int));
            assert(model.take(i + 1).last() == items@[i as int].deep_view());
        }
        let missing: bool = fault.is_none();
        if missing {
            fault = from_plugin(
                validate_reference_name("hostRequest.configFiles.referencedPackages", &items[i]),
            );
        }
        i = i + 1;
    }
    assert(model.take(i as int) =~= model);
    fault
}

/// Why what a host is told of a manifest is refused.
pub open spec fn manifest_fault(
    manifest: HostManifestFactsModel,
) -> Option<HostValidationErrorModel> {
    earlier(path_fault("hostRequest.manifest.path"@, manifest.path), earlier(match manifest.name { Some(name) => of_plugin(reference_fault("hostRequest.manifest.name"@, name)), None => None }, earlier(order_fault::<HostPackageFact>("hostRequest.manifest.packages"@, manifest.packages), earlier(count_fault("hostRequest.manifest.packages"@, manifest.packages.len()), packages_fault(manifest.packages)))))
}

fn check_manifest(manifest: &HostManifestFacts) -> (r: Option<HostValidationError>)
    ensures
        r.deep_view() == manifest_fault(manifest.deep_view()),
{
    let fault: Option<HostValidationError> = check_path("hostRequest.manifest.path", &manifest.path);
    if fault.is_some() {
        return fault;
    }
    let fault: Option<HostValidationError> = match &manifest.name { Some(name) => from_plugin(validate_reference_name("hostRequest.manifest.name", name)), None => None };
    if fault.is_some() {
        return fault;
    }
    let fault: Option<HostValidationError> = validate_sorted_unique("hostRequest.manifest.packages", &manifest.packages);
    if fault.is_some() {
        return fault;
    }
    let fault: Option<HostValidationError> = check_count("hostRequest.manifest.packages", manifest.packages.len());
    if fault.is_some() {
        return fault;
    }
    check_packages(&manifest.packages)
}

/// Why what a host is told of a configuration file is refused.
pub open spec fn config_fault(config: HostConfigFactModel) -> Option<HostValidationErrorModel> {
    earlier(path_fault("hostRequest.configFiles.path"@, config.path), earlier(order_fault::<String>("hostRequest.configFiles.referencedPackages"@, config.referenced_packages), earlier(count_fault("hostRequest.configFiles.referencedPackages"@, config.referenced_packages.len()), references_fault(config.referenced_packages))))
}

fn check_config(config: &HostConfigFact) -> (r: Option<HostValidationError>)
    ensures
        r.deep_view() == config_fault(config.deep_view()),
{
    let fault: Option<HostValidationError> = check_path("hostRequest.configFiles.path", &config.path);
    if fault.is_some() {
        return fault;
    }
    let fault: Option<HostValidationError> = validate_sorted_unique("hostRequest.configFiles.referencedPackages", &config.referenced_packages);
    if fault.is_some() {
        return fault;
    }
    let fault: Option<HostValidationError> = check_count("hostRequest.configFiles.referencedPackages", config.referenced_packages.len());
    if fault.is_some() {
        return fault;
    }
    check_references(&config.referenced_packages)
}

/// Why some configuration files in a question are refused: the first that is.
pub open spec fn configs_fault(items: Seq<HostConfigFactModel>) -> Option<HostValidationErrorModel>
    decreases items.len(),
{
    if items.len() == 0 {
        None
    } else {
        let rest = configs_fault(items.drop_last());
        let last = items.last();
        earlier(rest, config_fault(last))
    }
}

fn check_configs(items: &Vec<HostConfigFact>) -> (r: Option<HostValidationError>)
    ensures
        r.deep_view() == configs_fault(items.deep_view()),
{
    let mut fault: Option<HostValidationError> = None;
    let ghost model = items.deep_view();
    let mut i: usize = 0;
    while i < items.len()
        invariant
            i <= items.len(),
            model == items.deep_view(),
            fault.deep_view() == configs_fault(model.take(i as int)),
        decreases items.len() - i,
    {
        proof {
            assert(model.take(i + 1).drop_last() =~= model.take(i as int));
            assert(model.take(i + 1).last() == items@[i as int].deep_view());
        }
        let missing: bool = fault.is_none();
        if missing {
            fault = check_config(&items[i]);
        }
        i = i + 1;
    }
    assert(model.take(i as int) =~= model);
    fault
}

/// Why a question to a host is refused: the first fault in the order of the checks.
pub open spec fn request_fault(request: HostRequestModel) -> Option<HostValidationErrorModel> {
    earlier(protocol_fault(request.protocol_version), earlier(of_plugin(identifier_fault("hostRequest.requestId"@, request.request_id)), earlier(of_plugin(identifier_fault("hostRequest.pluginId"@, request.plugin_id)), earlier(of_plugin(version_fault(request.plugin_version)), earlier(if request.workspace_root == "."@ { None } else { Some(HostValidationErrorModel::InvalidWorkspaceRoot(request.workspace_root)) }, earlier(of_plugin(identifier_fault("hostRequest.targetProfile"@, request.target_profile)), earlier(order_fault::<PluginCapability>("hostRequest.capabilities"@, request.capabilities), earlier(if request.capabilities.len() == 0 { Some(HostValidationErrorModel::MissingCapabilities) } else { None }, earlier(match request.manifest { Some(manifest) => manifest_fault(manifest), None => None }, earlier(count_fault("hostRequest.configFiles"@, request.config_files.len()), earlier(order_fault::<HostConfigFact>("hostRequest.configFiles"@, request.config_files), configs_fault(request.config_files))))))))))))
}

fn check_request(request: &HostRequest) -> (r: Option<HostValidationError>)
    ensures
        r.deep_view() == request_fault(request.deep_view()),
{
    let fault: Option<HostValidationError> = check_protocol(request.protocol_version);
    if fault.is_some() {
        return fault;
    }
    let fault: Option<HostValidationError> = from_plugin(validate_identifier("hostRequest.requestId", &request.request_id));
    if fault.is_some() {
        return fault;
    }
    let fault: Option<HostValidationError> = from_plugin(validate_identifier("hostRequest.pluginId", &request.plugin_id));
    if fault.is_some() {
        return fault;
    }
    let fault: Option<HostValidationError> = from_plugin(validate_version(&request.plugin_version));
    if fault.is_some() {
        return fault;
    }
    let fault: Option<HostValidationError> = if same(&request.workspace_root, ".") { None } else { Some(HostValidationError::InvalidWorkspaceRoot(request.workspace_root.replicate())) };
    if fault.is_some() {
        return fault;
    }
    let fault: Option<HostValidationError> = from_plugin(validate_identifier("hostRequest.targetProfile", &request.target_profile));
    if fault.is_some() {
        return fault;
    }
    let fault: Option<HostValidationError> = validate_sorted_unique("hostRequest.capabilities", &request.capabilities);
    if fault.is_some() {
        return fault;
    }
    let fault: Option<HostValidationError> = if request.capabilities.len() == 0 { Some(HostValidationError::MissingCapabilities) } else { None };
    if fault.is_some() {
        return fault;
    }
    let fault: Option<HostValidationError> = match &request.manifest { Some(manifest) => check_manifest(manifest), None => None };
    if fault.is_some() {
        return fault;
    }
    let fault: Option<HostValidationError> = check_count("hostRequest.configFiles", request.config_files.len());
    if fault.is_some() {
        return fault;
    }
    let fault: Option<HostValidationError> = validate_sorted_unique("hostRequest.configFiles", &request.config_files);
    if fault.is_some() {
        return fault;
    }
    check_configs(&request.config_files)
}

/// Validates a question before it goes to a host.
pub fn validate_host_request(request: &HostRequest) -> (r: Result<(), HostValidationError>)
    ensures
        match r {
            Ok(_) => request_fault(request.deep_view()) is None,
            Err(error) => request_fault(request.deep_view()) == Some(error.deep_view()),
        },
{
    match check_request(request) {
        Some(error) => Err(error),
        None => Ok(()),
    }
}

/// Why an answer does not belong to a question.
pub open spec fn identity_fault(
    field: Seq<char>,
    expected: Seq<char>,
    actual: Seq<char>,
) -> Option<HostValidationErrorModel> {
    if actual == expected {
        None
    } else {
        Some(
            HostValidationErrorModel::ResponseIdentity(
                IdentityMismatchModel { field, expected, actual },
            ),
        )
    }
}

fn check_identity(field: &'static str, expected: &str, actual: &str) -> (r: Option<
    HostValidationError,
>)
    ensures
        r.deep_view() == identity_fault(field@, expected@, actual@),
{
    if same(actual, expected) {
        None
    } else {
        Some(
            HostValidationError::ResponseIdentity(
                IdentityMismatch {
                    field,
                    expected: expected.to_string(),
                    actual: actual.to_string(),
                },
            ),
        )
    }
}

/// Why the kinds of contribution of an answer are refused: the first that was not asked
/// for.
pub open spec fn capability_fault(
    used: Seq<PluginCapability>,
    negotiated: Seq<PluginCapability>,
) -> Option<HostValidationErrorModel>
    decreases used.len(),
{
    if used.len() == 0 {
        None
    } else {
        earlier(
            capability_fault(used.drop_last(), negotiated),
            if negotiated.contains(used.last()) {
                None
            } else {
                Some(HostValidationErrorModel::UnnegotiatedCapability(used.last()))
            },
        )
    }
}

fn has_capability(capabilities: &Vec<PluginCapability>, wanted: PluginCapability) -> (r: bool)
    ensures
        r == capabilities@.contains(wanted),
{
    let mut i: usize = 0;
    while i < capabilities.len()
        invariant
            i <= capabilities.len(),
            forall|k: int| 0 <= k < i ==> #[trigger] capabilities@[k] != wanted,
        decreases capabilities.len() - i,
    {
        if capabilities[i] == wanted {
            return true;
        }
        i = i + 1;
    }
    false
}

fn check_capabilities(
    used: &Vec<PluginCapability>,
    negotiated: &Vec<PluginCapability>,
) -> (r: Option<HostValidationError>)
    ensures
        r.deep_view() == capability_fault(used@, negotiated@),
{
    let mut fault: Option<HostValidationError> = None;
    let mut i: usize = 0;
    while i < used.len()
        invariant
            i <= used.len(),
            fault.deep_view() == capability_fault(used@.take(i as int), negotiated@),
        decreases used.len() - i,
    {
        proof {
            assert(used@.take(i + 1).drop_last() =~= used@.take(i as int));
        }
        let missing: bool = fault.is_none();
        if missing && !has_capability(negotiated, used[i]) {
            fault = Some(HostValidationError::UnnegotiatedCapability(used[i]));
        }
        i = i + 1;
    }
    assert(used@.take(i as int) =~= used@);
    fault
}

/// Whether a diagnostic among them blocks conclusions.
pub open spec fn has_blocking(diagnostics: Seq<PluginDiagnosticModel>) -> bool {
    exists|i: int| 0 <= i < diagnostics.len() && (#[trigger] diagnostics[i]).blocks_reachability
}

fn any_blocking(diagnostics: &Vec<PluginDiagnostic>) -> (r: bool)
    ensures
        r == has_blocking(diagnostics.deep_view()),
{
    let ghost model = diagnostics.deep_view();
    let mut i: usize = 0;
    while i < diagnostics.len()
        invariant
            i <= diagnostics.len(),
            model == diagnostics.deep_view(),
            forall|k: int| 0 <= k < i ==> !(#[trigger] model[k]).blocks_reachability,
        decreases diagnostics.len() - i,
    {
        assert(model[i as int] == diagnostics@[i as int].deep_view());
        if diagnostics[i].blocks_reachability {
            return true;
        }
        i = i + 1;
    }
    false
}

/// Why the status of an answer is refused: one that is not complete has to contribute
/// nothing but diagnostics, and one of them has to block conclusions.
pub open spec fn status_fault(response: HostResponseModel) -> Option<HostValidationErrorModel> {
    if response.status == HostResponseStatus::Complete {
        None
    } else if !only_diagnostics(response.contributions) {
        Some(HostValidationErrorModel::FailedResponseContributedFacts(response.status))
    } else if !has_blocking(response.contributions.diagnostics) {
        Some(HostValidationErrorModel::FailedResponseWithoutBlocker(response.status))
    } else {
        None
    }
}

fn check_status(response: &HostResponse) -> (r: Option<HostValidationError>)
    ensures
        r.deep_view() == status_fault(response.deep_view()),
{
    if response.status == HostResponseStatus::Complete {
        None
    } else if !response.contributions.is_empty_except_diagnostics() {
        Some(HostValidationError::FailedResponseContributedFacts(response.status))
    } else if !any_blocking(&response.contributions.diagnostics) {
        Some(HostValidationError::FailedResponseWithoutBlocker(response.status))
    } else {
        None
    }
}

/// The paths among some patterns.
pub open spec fn without_globs(items: Seq<Seq<char>>) -> Seq<Seq<char>>
    decreases items.len(),
{
    if items.len() == 0 {
        Seq::empty()
    } else {
        let rest = without_globs(items.drop_last());
        let last = items.last();
        if has_glob(last) { rest } else { rest.push(last) }
    }
}

/// The paths in an answer that have to be looked up: the patterns that are paths.
pub open spec fn literal_paths(contributions: PluginContributionsModel) -> Seq<Seq<char>> {
    without_globs(contributed_paths(contributions))
}

/// The paths in an answer that have to be looked up: the patterns that are paths.
#[must_use]
pub fn list_literal_paths(contributions: &PluginContributions) -> (r: Vec<String>)
    ensures
        r.deep_view() == literal_paths(contributions.deep_view()),
{
    let all: Vec<String> = list_contributed_paths(contributions);
    let mut out: Vec<String> = Vec::new();
    let ghost model = all.deep_view();
    let mut i: usize = 0;
    while i < all.len()
        invariant
            i <= all.len(),
            model == all.deep_view(),
            out.deep_view() =~= without_globs(model.take(i as int)),
        decreases all.len() - i,
    {
        proof {
            assert(model.take(i + 1).drop_last() =~= model.take(i as int));
            assert(model.take(i + 1).last() == all@[i as int].deep_view());
        }
        if !contains_glob_meta(&all[i]) {
            push_item(&mut out, all[i].replicate());
        }
        i = i + 1;
    }
    assert(model.take(i as int) =~= model);
    out
}

/// Why the paths of an answer are refused: the first that does not lead into the workspace.
pub open spec fn first_escape(
    items: Seq<Seq<char>>,
    contained: Seq<bool>,
) -> Option<HostValidationErrorModel>
    decreases items.len(),
{
    if items.len() == 0 {
        None
    } else {
        let rest = first_escape(items.drop_last(), contained);
        let last = items.last();
        if rest is Some || contained[items.len() - 1] {
            rest
        } else {
            Some(
                HostValidationErrorModel::Plugin(PluginValidationErrorModel::EscapingPath(last)),
            )
        }
    }
}

fn check_paths(paths: &Vec<String>, contained: &Vec<bool>) -> (r: Option<HostValidationError>)
    requires
        contained@.len() == paths@.len(),
    ensures
        r.deep_view() == first_escape(paths.deep_view(), contained@),
{
    let mut fault: Option<HostValidationError> = None;
    let ghost model = paths.deep_view();
    let mut i: usize = 0;
    while i < paths.len()
        invariant
            i <= paths.len(),
            model == paths.deep_view(),
            contained@.len() == paths@.len(),
            fault.deep_view() == first_escape(model.take(i as int), contained@),
        decreases paths.len() - i,
    {
        proof {
            assert(model.take(i + 1).drop_last() =~= model.take(i as int));
            assert(model.take(i + 1).last() == paths@[i as int].deep_view());
        }
        let missing: bool = fault.is_none();
        if missing && !contained[i] {
            fault = Some(
                HostValidationError::Plugin(PluginValidationError::EscapingPath(paths[i].replicate())),
            );
        }
        i = i + 1;
    }
    assert(model.take(i as int) =~= model);
    fault
}

/// Why an answer of a host is refused: the first fault in the order of the checks.
pub open spec fn response_fault(
    request: HostRequestModel,
    response: HostResponseModel,
    contained: Seq<bool>,
) -> Option<HostValidationErrorModel> {
    earlier(request_fault(request), earlier(protocol_fault(response.protocol_version), earlier(identity_fault("requestId"@, request.request_id, response.request_id), earlier(identity_fault("pluginId"@, request.plugin_id, response.plugin_id), earlier(of_plugin(version_fault(response.plugin_version)), earlier(identity_fault("pluginVersion"@, request.plugin_version, response.plugin_version), earlier(of_plugin(contributions_fault(response.contributions)), earlier(capability_fault(capabilities_used(response.contributions), request.capabilities), earlier(status_fault(response), first_escape(literal_paths(response.contributions), contained))))))))))
}

fn check_response(
    request: &HostRequest,
    response: &HostResponse,
    contained: &Vec<bool>,
) -> (r: Option<HostValidationError>)
    requires
        contained@.len() == literal_paths(response.contributions.deep_view()).len(),
    ensures
        r.deep_view() == response_fault(request.deep_view(), response.deep_view(), contained@),
{
    assert(request.capabilities.deep_view() =~= request.capabilities@);
    let fault: Option<HostValidationError> = check_request(request);
    if fault.is_some() {
        return fault;
    }
    let fault: Option<HostValidationError> = check_protocol(response.protocol_version);
    if fault.is_some() {
        return fault;
    }
    let fault: Option<HostValidationError> = check_identity("requestId", &request.request_id, &response.request_id);
    if fault.is_some() {
        return fault;
    }
    let fault: Option<HostValidationError> = check_identity("pluginId", &request.plugin_id, &response.plugin_id);
    if fault.is_some() {
        return fault;
    }
    let fault: Option<HostValidationError> = from_plugin(validate_version(&response.plugin_version));
    if fault.is_some() {
        return fault;
    }
    let fault: Option<HostValidationError> = check_identity("pluginVersion", &request.plugin_version, &response.plugin_version);
    if fault.is_some() {
        return fault;
    }
    let fault: Option<HostValidationError> = from_plugin(response.contributions.validate());
    if fault.is_some() {
        return fault;
    }
    let fault: Option<HostValidationError> = check_capabilities(
        &response.contributions.used_capabilities(),
        &request.capabilities,
    );
    if fault.is_some() {
        return fault;
    }
    let fault: Option<HostValidationError> = check_status(response);
    if fault.is_some() {
        return fault;
    }
    let paths: Vec<String> = list_literal_paths(&response.contributions);
    assert(paths.deep_view().len() == paths@.len());
    check_paths(&paths, contained)
}

/// Validates an answer of a host before anything of it is used. `contained` tells of each
/// path in the answer, in the order of `list_literal_paths`, whether it leads to something
/// inside the workspace.
pub fn validate_host_response(
    request: &HostRequest,
    response: &HostResponse,
    contained: &Vec<bool>,
) -> (r: Result<(), HostValidationError>)
    requires
        contained@.len() == literal_paths(response.contributions.deep_view()).len(),
    ensures
        match r {
            Ok(_) => response_fault(request.deep_view(), response.deep_view(), contained@) is None,
            Err(error) => response_fault(request.deep_view(), response.deep_view(), contained@) == Some(error.deep_view()),
        },
{
    match check_response(request, response, contained) {
        Some(error) => Err(error),
        None => Ok(()),
    }
}

/// What is said of a host that failed.
pub open spec fn failure_of(kind: HostFailureKind) -> PluginDiagnosticModel {
    PluginDiagnosticModel {
        path: None,
        code: match kind {
            HostFailureKind::Spawn => "plugin_host_spawn_failure"@,
            HostFailureKind::Timeout => "plugin_host_timeout"@,
            HostFailureKind::Crash => "plugin_host_crash"@,
            HostFailureKind::InvalidResponse => "plugin_host_invalid_response"@,
            HostFailureKind::OversizedResponse => "plugin_host_oversized_response"@,
        },
        severity: PluginDiagnosticSeverity::Error,
        message: match kind {
            HostFailureKind::Spawn => "Executable plugin host could not be started"@,
            HostFailureKind::Timeout => {
                "Executable plugin host exceeded its configured time limit"@
            },
            HostFailureKind::Crash => "Executable plugin host exited without a complete response"@,
            HostFailureKind::InvalidResponse => {
                "Executable plugin host returned an invalid or incompatible response"@
            },
            HostFailureKind::OversizedResponse => {
                "Executable plugin host exceeded its configured response limit"@
            },
        },
        blocks_reachability: true,
    }
}

/// What is said of a host that failed. It always blocks conclusions.
#[must_use]
pub fn host_failure_diagnostic(kind: HostFailureKind) -> (r: PluginDiagnostic)
    ensures
        r.deep_view() == failure_of(kind),
        r.blocks_reachability,
{
    let (code, message): (&'static str, &'static str) = match kind {
        HostFailureKind::Spawn => (
            "plugin_host_spawn_failure",
            "Executable plugin host could not be started",
        ),
        HostFailureKind::Timeout => (
            "plugin_host_timeout",
            "Executable plugin host exceeded its configured time limit",
        ),
        HostFailureKind::Crash => (
            "plugin_host_crash",
            "Executable plugin host exited without a complete response",
        ),
        HostFailureKind::InvalidResponse => (
            "plugin_host_invalid_response",
            "Executable plugin host returned an invalid or incompatible response",
        ),
        HostFailureKind::OversizedResponse => (
            "plugin_host_oversized_response",
            "Executable plugin host exceeded its configured response limit",
        ),
    };
    PluginDiagnostic {
        path: None,
        code: code.to_string(),
        severity: PluginDiagnosticSeverity::Error,
        message: message.to_string(),
        blocks_reachability: true,
    }
}

/// Whether an argument can be handed to a host.
pub open spec fn is_argument(argument: Seq<char>) -> bool {
    byte_length(argument) <= MAX_ARGUMENT_BYTES && !argument.contains('\0')
}

/// Why some arguments are refused: the first that is.
pub open spec fn first_bad_argument(items: Seq<Seq<char>>) -> Option<HostValidationErrorModel>
    decreases items.len(),
{
    if items.len() == 0 {
        None
    } else {
        let rest = first_bad_argument(items.drop_last());
        let last = items.last();
        if rest is Some || is_argument(last) {
            rest
        } else {
            Some(HostValidationErrorModel::InvalidArgument((items.len() - 1) as usize))
        }
    }
}

/// Why the arguments of a host are refused.
pub open spec fn arguments_fault(arguments: Seq<Seq<char>>) -> Option<HostValidationErrorModel> {
    if arguments.len() > MAX_ARGUMENTS {
        Some(HostValidationErrorModel::TooManyArguments(MAX_ARGUMENTS))
    } else {
        first_bad_argument(arguments)
    }
}

fn check_arguments(arguments: &Vec<String>) -> (r: Option<HostValidationError>)
    ensures
        r.deep_view() == arguments_fault(arguments.deep_view()),
{
    if arguments.len() > MAX_ARGUMENTS {
        return Some(HostValidationError::TooManyArguments(MAX_ARGUMENTS));
    }
    let mut fault: Option<HostValidationError> = None;
    let ghost model = arguments.deep_view();
    let mut i: usize = 0;
    while i < arguments.len()
        invariant
            i <= arguments.len(),
            model == arguments.deep_view(),
            fault.deep_view() == first_bad_argument(model.take(i as int)),
        decreases arguments.len() - i,
    {
        proof {
            assert(model.take(i + 1).drop_last() =~= model.take(i as int));
            assert(model.take(i + 1).last() == arguments@[i as int].deep_view());
        }
        let missing: bool = fault.is_none();
        if missing && (byte_len(&arguments[i]) > MAX_ARGUMENT_BYTES || contains_char(
            &arguments[i],
            '\0',
        )) {
            fault = Some(HostValidationError::InvalidArgument(i));
        }
        i = i + 1;
    }
    assert(model.take(i as int) =~= model);
    fault
}

/// Why the configuration of a host is refused. `contained` tells whether the executable
/// leads into the workspace, and `is_file` whether it is a file.
pub open spec fn configuration_fault(
    config: ExecutablePluginConfigModel,
    contained: bool,
    is_file: bool,
) -> Option<HostValidationErrorModel> {
    if identifier_fault("executablePlugin.id"@, config.id) is Some {
        of_plugin(identifier_fault("executablePlugin.id"@, config.id))
    } else if version_fault(config.version) is Some {
        of_plugin(version_fault(config.version))
    } else if !config.trusted {
        Some(HostValidationErrorModel::UntrustedPlugin(config.id))
    } else if !contained {
        Some(
            HostValidationErrorModel::Plugin(
                PluginValidationErrorModel::EscapingPath(config.executable),
            ),
        )
    } else if !is_file {
        Some(HostValidationErrorModel::ExecutableIsNotFile(config.executable))
    } else if arguments_fault(config.arguments) is Some {
        arguments_fault(config.arguments)
    } else if !(1 <= config.timeout_milliseconds <= MAX_TIMEOUT_MILLISECONDS) {
        Some(
            HostValidationErrorModel::InvalidTimeout(
                OutOfRange {
                    value: config.timeout_milliseconds,
                    minimum: 1,
                    maximum: MAX_TIMEOUT_MILLISECONDS,
                },
            ),
        )
    } else if !(MIN_RESPONSE_BYTES <= config.max_response_bytes <= MAX_RESPONSE_BYTES) {
        Some(
            HostValidationErrorModel::InvalidResponseLimit(
                OutOfRange {
                    value: config.max_response_bytes,
                    minimum: MIN_RESPONSE_BYTES,
                    maximum: MAX_RESPONSE_BYTES,
                },
            ),
        )
    } else {
        None
    }
}

impl ExecutablePluginConfig {
    /// Validates trust, the place of the executable, and the limits. `contained` tells
    /// whether the executable leads into the workspace, and `is_file` whether it is a file.
    pub fn validate(&self, contained: bool, is_file: bool) -> (r: Result<(), HostValidationError>)
        ensures
            match r {
                Ok(_) => configuration_fault(self.deep_view(), contained, is_file) is None,
                Err(error) => configuration_fault(self.deep_view(), contained, is_file) == Some(
                    error.deep_view(),
                ),
            },
    {
        match from_plugin(validate_identifier("executablePlugin.id", &self.id)) {
            Some(error) => {
                return Err(error);
            },
            None => {},
        }
        match from_plugin(validate_version(&self.version)) {
            Some(error) => {
                return Err(error);
            },
            None => {},
        }
        if !self.trusted {
            return Err(HostValidationError::UntrustedPlugin(self.id.replicate()));
        }
        if !contained {
            return Err(
                HostValidationError::Plugin(
                    PluginValidationError::EscapingPath(self.executable.replicate()),
                ),
            );
        }
        if !is_file {
            return Err(HostValidationError::ExecutableIsNotFile(self.executable.replicate()));
        }
        match check_arguments(&self.arguments) {
            Some(error) => {
                return Err(error);
            },
            None => {},
        }
        if self.timeout_milliseconds < 1 || self.timeout_milliseconds > MAX_TIMEOUT_MILLISECONDS {
            return Err(
                HostValidationError::InvalidTimeout(
                    OutOfRange {
                        value: self.timeout_milliseconds,
                        minimum: 1,
                        maximum: MAX_TIMEOUT_MILLISECONDS,
                    },
                ),
            );
        }
        if self.max_response_bytes < MIN_RESPONSE_BYTES || self.max_response_bytes
            > MAX_RESPONSE_BYTES {
            return Err(
                HostValidationError::InvalidResponseLimit(
                    OutOfRange {
                        value: self.max_response_bytes,
                        minimum: MIN_RESPONSE_BYTES,
                        maximum: MAX_RESPONSE_BYTES,
                    },
                ),
            );
        }
        Ok(())
    }
}

/// An answer that is taken uses only what was asked for, belongs to its question, and
/// blocks conclusions wherever it is not complete.
pub proof fn taken_responses_fail_closed(
    request: HostRequestModel,
    response: HostResponseModel,
    contained: Seq<bool>,
)
    requires
        response_fault(request, response, contained) is None,
    ensures
        response.request_id == request.request_id,
        response.plugin_id == request.plugin_id,
        response.plugin_version == request.plugin_version,
        forall|i: int|
            0 <= i < capabilities_used(response.contributions).len()
                ==> request.capabilities.contains(
                #[trigger] capabilities_used(response.contributions)[i],
            ),
        response.status != HostResponseStatus::Complete ==> only_diagnostics(
            response.contributions,
        ) && has_blocking(response.contributions.diagnostics),
{
    no_capability_fault(capabilities_used(response.contributions), request.capabilities);
}

proof fn no_capability_fault(used: Seq<PluginCapability>, negotiated: Seq<PluginCapability>)
    requires
        capability_fault(used, negotiated) is None,
    ensures
        forall|i: int| 0 <= i < used.len() ==> negotiated.contains(#[trigger] used[i]),
    decreases used.len(),
{
    if used.len() > 0 {
        no_capability_fault(used.drop_last(), negotiated);
        assert forall|i: int| 0 <= i < used.len() implies negotiated.contains(
            #[trigger] used[i],
        ) by {
            if i < used.len() - 1 {
                assert(used.drop_last()[i] == used[i]);
            }
        }
    }
}

/// A plugin without explicit trust is never run.
pub proof fn untrusted_plugins_are_refused(
    config: ExecutablePluginConfigModel,
    contained: bool,
    is_file: bool,
)
    requires
        !config.trusted,
    ensures
        configuration_fault(config, contained, is_file) is Some,
{
}

} // verus!
