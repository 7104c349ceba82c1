//! Why a scan cannot be made.

use crate::text::{concat2, concat3, concat4, concat7, decimal, digits};
use crate::values::Value;
use vstd::prelude::*;

verus! {

/// A path with what went wrong there.
#[derive(Debug, PartialEq, Eq)]
pub struct PathFailure {
    pub path: String,
    pub reason: String,
}

/// What a [`PathFailure`] holds.
pub struct PathFailureModel {
    pub path: Seq<char>,
    pub reason: Seq<char>,
}

impl DeepView for PathFailure {
    type V = PathFailureModel;

    open spec fn deep_view(&self) -> PathFailureModel {
        PathFailureModel {
            path: self.path.deep_view(),
            reason: self.reason.deep_view(),
        }
    }
}

impl Value for PathFailure {
    fn replicate(&self) -> (r: Self) {
        PathFailure {
            path: self.path.replicate(),
            reason: self.reason.replicate(),
        }
    }

    fn same_value(&self, other: &Self) -> (r: bool) {
        self.path.same_value(&other.path)
            && self.reason.same_value(&other.reason)
    }
}

/// A file that is larger than allowed.
#[derive(Debug, PartialEq, Eq)]
pub struct SizeExceeded {
    pub path: String,
    pub bytes: u64,
    pub limit: u64,
}

/// What a [`SizeExceeded`] holds.
pub struct SizeExceededModel {
    pub path: Seq<char>,
    pub bytes: u64,
    pub limit: u64,
}

impl DeepView for SizeExceeded {
    type V = SizeExceededModel;

    open spec fn deep_view(&self) -> SizeExceededModel {
        SizeExceededModel {
            path: self.path.deep_view(),
            bytes: self.bytes.deep_view(),
            limit: self.limit.deep_view(),
        }
    }
}

impl Value for SizeExceeded {
    fn replicate(&self) -> (r: Self) {
        SizeExceeded {
            path: self.path.replicate(),
            bytes: self.bytes.replicate(),
            limit: self.limit.replicate(),
        }
    }

    fn same_value(&self, other: &Self) -> (r: bool) {
        self.path.same_value(&other.path)
            && self.bytes.same_value(&other.bytes)
            && self.limit.same_value(&other.limit)
    }
}

/// More files than allowed.
#[derive(Debug, Clone, Copy, PartialEq, Eq, Structural)]
pub struct CountExceeded {
    pub files: usize,
    pub limit: usize,
}

impl DeepView for CountExceeded {
    type V = CountExceeded;

    open spec fn deep_view(&self) -> CountExceeded {
        *self
    }
}

impl Value for CountExceeded {
    fn replicate(&self) -> (r: Self) {
        *self
    }

    fn same_value(&self, other: &Self) -> (r: bool) {
        *self == *other
    }
}

/// Why a scan cannot be made.
#[derive(Debug, PartialEq, Eq)]
pub enum ScanError {
    Root(PathFailure),
    RootIsNotDirectory(String),
    SourcePath(PathFailure),
    SourceOutsideRoot(String),
    NonUtf8SourcePath(String),
    DuplicateSource(String),
    DuplicateDisplayPath(String),
    ReadSource(PathFailure),
    SourceFileTooLarge(SizeExceeded),
    EntryNotSupplied(String),
    DuplicateEntry(String),
    EmptyEntries,
    EmptyFileUniverse,
    FileUniverseTooLarge(CountExceeded),
    ReadPackageManifest(PathFailure),
    ParsePackageManifest(PathFailure),
    Cache(String),
    CacheIdentity(PathFailure),
    ParserWorkerPanicked(String),
    MissingParsedFact(String),
}

/// What a [`ScanError`] holds.
pub enum ScanErrorModel {
    Root(PathFailureModel),
    RootIsNotDirectory(Seq<char>),
    SourcePath(PathFailureModel),
    SourceOutsideRoot(Seq<char>),
    NonUtf8SourcePath(Seq<char>),
    DuplicateSource(Seq<char>),
    DuplicateDisplayPath(Seq<char>),
    ReadSource(PathFailureModel),
    SourceFileTooLarge(SizeExceededModel),
    EntryNotSupplied(Seq<char>),
    DuplicateEntry(Seq<char>),
    EmptyEntries,
    EmptyFileUniverse,
    FileUniverseTooLarge(CountExceeded),
    ReadPackageManifest(PathFailureModel),
    ParsePackageManifest(PathFailureModel),
    Cache(Seq<char>),
    CacheIdentity(PathFailureModel),
    ParserWorkerPanicked(Seq<char>),
    MissingParsedFact(Seq<char>),
}

impl DeepView for ScanError {
    type V = ScanErrorModel;

    open spec fn deep_view(&self) -> ScanErrorModel {
        match self {
            ScanError::Root(x) => ScanErrorModel::Root(x.deep_view()),
            ScanError::RootIsNotDirectory(x) => ScanErrorModel::RootIsNotDirectory(x.deep_view()),
            ScanError::SourcePath(x) => ScanErrorModel::SourcePath(x.deep_view()),
            ScanError::SourceOutsideRoot(x) => ScanErrorModel::SourceOutsideRoot(x.deep_view()),
            ScanError::NonUtf8SourcePath(x) => ScanErrorModel::NonUtf8SourcePath(x.deep_view()),
            ScanError::DuplicateSource(x) => ScanErrorModel::DuplicateSource(x.deep_view()),
            ScanError::DuplicateDisplayPath(x) => ScanErrorModel::DuplicateDisplayPath(x.deep_view()),
            ScanError::ReadSource(x) => ScanErrorModel::ReadSource(x.deep_view()),
            ScanError::SourceFileTooLarge(x) => ScanErrorModel::SourceFileTooLarge(x.deep_view()),
            ScanError::EntryNotSupplied(x) => ScanErrorModel::EntryNotSupplied(x.deep_view()),
            ScanError::DuplicateEntry(x) => ScanErrorModel::DuplicateEntry(x.deep_view()),
            ScanError::EmptyEntries => ScanErrorModel::EmptyEntries,
            ScanError::EmptyFileUniverse => ScanErrorModel::EmptyFileUniverse,
            ScanError::FileUniverseTooLarge(x) => ScanErrorModel::FileUniverseTooLarge(x.deep_view()),
            ScanError::ReadPackageManifest(x) => ScanErrorModel::ReadPackageManifest(x.deep_view()),
            ScanError::ParsePackageManifest(x) => ScanErrorModel::ParsePackageManifest(x.deep_view()),
            ScanError::Cache(x) => ScanErrorModel::Cache(x.deep_view()),
            ScanError::CacheIdentity(x) => ScanErrorModel::CacheIdentity(x.deep_view()),
            ScanError::ParserWorkerPanicked(x) => ScanErrorModel::ParserWorkerPanicked(x.deep_view()),
            ScanError::MissingParsedFact(x) => ScanErrorModel::MissingParsedFact(x.deep_view()),
        }
    }
}

impl Value for ScanError {
    fn replicate(&self) -> (r: Self) {
        match self {
            ScanError::Root(x) => ScanError::Root(x.replicate()),
            ScanError::RootIsNotDirectory(x) => ScanError::RootIsNotDirectory(x.replicate()),
            ScanError::SourcePath(x) => ScanError::SourcePath(x.replicate()),
            ScanError::SourceOutsideRoot(x) => ScanError::SourceOutsideRoot(x.replicate()),
            ScanError::NonUtf8SourcePath(x) => ScanError::NonUtf8SourcePath(x.replicate()),
            ScanError::DuplicateSource(x) => ScanError::DuplicateSource(x.replicate()),
            ScanError::DuplicateDisplayPath(x) => ScanError::DuplicateDisplayPath(x.replicate()),
            ScanError::ReadSource(x) => ScanError::ReadSource(x.replicate()),
            ScanError::SourceFileTooLarge(x) => ScanError::SourceFileTooLarge(x.replicate()),
            ScanError::EntryNotSupplied(x) => ScanError::EntryNotSupplied(x.replicate()),
            ScanError::DuplicateEntry(x) => ScanError::DuplicateEntry(x.replicate()),
            ScanError::EmptyEntries => ScanError::EmptyEntries,
            ScanError::EmptyFileUniverse => ScanError::EmptyFileUniverse,
            ScanError::FileUniverseTooLarge(x) => ScanError::FileUniverseTooLarge(x.replicate()),
            ScanError::ReadPackageManifest(x) => ScanError::ReadPackageManifest(x.replicate()),
            ScanError::ParsePackageManifest(x) => ScanError::ParsePackageManifest(x.replicate()),
            ScanError::Cache(x) => ScanError::Cache(x.replicate()),
            ScanError::CacheIdentity(x) => ScanError::CacheIdentity(x.replicate()),
            ScanError::ParserWorkerPanicked(x) => ScanError::ParserWorkerPanicked(x.replicate()),
            ScanError::MissingParsedFact(x) => ScanError::MissingParsedFact(x.replicate()),
        }
    }

    fn same_value(&self, other: &Self) -> (r: bool) {
        match (self, other) {
            (ScanError::Root(x), ScanError::Root(y)) => x.same_value(y),
            (ScanError::RootIsNotDirectory(x), ScanError::RootIsNotDirectory(y)) => x.same_value(y),
            (ScanError::SourcePath(x), ScanError::SourcePath(y)) => x.same_value(y),
            (ScanError::SourceOutsideRoot(x), ScanError::SourceOutsideRoot(y)) => x.same_value(y),
            (ScanError::NonUtf8SourcePath(x), ScanError::NonUtf8SourcePath(y)) => x.same_value(y),
            (ScanError::DuplicateSource(x), ScanError::DuplicateSource(y)) => x.same_value(y),
            (ScanError::DuplicateDisplayPath(x), ScanError::DuplicateDisplayPath(y)) => x.same_value(y),
            (ScanError::ReadSource(x), ScanError::ReadSource(y)) => x.same_value(y),
            (ScanError::SourceFileTooLarge(x), ScanError::SourceFileTooLarge(y)) => x.same_value(y),
            (ScanError::EntryNotSupplied(x), ScanError::EntryNotSupplied(y)) => x.same_value(y),
            (ScanError::DuplicateEntry(x), ScanError::DuplicateEntry(y)) => x.same_value(y),
            (ScanError::EmptyEntries, ScanError::EmptyEntries) => true,
            (ScanError::EmptyFileUniverse, ScanError::EmptyFileUniverse) => true,
            (ScanError::FileUniverseTooLarge(x), ScanError::FileUniverseTooLarge(y)) => x.same_value(y),
            (ScanError::ReadPackageManifest(x), ScanError::ReadPackageManifest(y)) => x.same_value(y),
            (ScanError::ParsePackageManifest(x), ScanError::ParsePackageManifest(y)) => x.same_value(y),
            (ScanError::Cache(x), ScanError::Cache(y)) => x.same_value(y),
            (ScanError::CacheIdentity(x), ScanError::CacheIdentity(y)) => x.same_value(y),
            (ScanError::ParserWorkerPanicked(x), ScanError::ParserWorkerPanicked(y)) => x.same_value(y),
            (ScanError::MissingParsedFact(x), ScanError::MissingParsedFact(y)) => x.same_value(y),
            _ => false,
        }
    }
}

impl ScanErrorModel {
    /// The error in words.
    pub open spec fn text(self) -> Seq<char> {
        match self {
            ScanErrorModel::Root(x) => "cannot resolve project root `"@ + x.path + "`: "@ + x.reason,
            ScanErrorModel::RootIsNotDirectory(x) => "project root `"@ + x + "` is not a directory"@,
            ScanErrorModel::SourcePath(x) => "cannot resolve source file `"@ + x.path + "`: "@ + x.reason,
            ScanErrorModel::SourceOutsideRoot(x) => "source file `"@ + x + "` is outside the physical project root"@,
            ScanErrorModel::NonUtf8SourcePath(x) => "source file path `"@ + x + "` is not valid UTF-8 and cannot be represented safely"@,
            ScanErrorModel::DuplicateSource(x) => "source file `"@ + x + "` was supplied more than once"@,
            ScanErrorModel::DuplicateDisplayPath(x) => "source files collapse to the same displayed path `"@ + x + "`"@,
            ScanErrorModel::ReadSource(x) => "cannot read source file `"@ + x.path + "` as UTF-8: "@ + x.reason,
            ScanErrorModel::SourceFileTooLarge(x) => "source file `"@ + x.path + "` is "@ + digits(x.bytes as nat)
                + " bytes, exceeding the configured per-file limit of "@ + digits(x.limit as nat)
                + " bytes"@,
            ScanErrorModel::EntryNotSupplied(x) => "entry `"@ + x + "` is not present in the supplied file universe"@,
            ScanErrorModel::DuplicateEntry(x) => "an entry was supplied more than once: `"@ + x + "`"@,
            ScanErrorModel::EmptyEntries => "at least one entry file must be supplied"@,
            ScanErrorModel::EmptyFileUniverse => "at least one source file must be supplied"@,
            ScanErrorModel::FileUniverseTooLarge(x) => "the supplied file universe contains "@ + digits(x.files as nat)
                + " files, exceeding the configured limit of "@ + digits(x.limit as nat),
            ScanErrorModel::ReadPackageManifest(x) => "cannot read package manifest `"@ + x.path + "`: "@ + x.reason,
            ScanErrorModel::ParsePackageManifest(x) => "invalid package manifest `"@ + x.path + "`: "@ + x.reason,
            ScanErrorModel::Cache(x) => x,
            ScanErrorModel::CacheIdentity(x) => "cannot create fact-cache identity for `"@ + x.path + "`: "@ + x.reason,
            ScanErrorModel::ParserWorkerPanicked(x) => "parser worker panicked while analyzing `"@ + x + "`"@,
            ScanErrorModel::MissingParsedFact(x) => "parser worker returned no facts for `"@ + x + "`"@,
        }
    }
}

impl ScanError {
    /// The error in words.
    #[must_use]
    pub fn message(&self) -> (r: String)
        ensures
            r@ == self.deep_view().text(),
    {
        match self {
            ScanError::Root(x) => concat4("cannot resolve project root `", &x.path, "`: ", &x.reason),
            ScanError::RootIsNotDirectory(x) => concat3("project root `", x, "` is not a directory"),
            ScanError::SourcePath(x) => concat4("cannot resolve source file `", &x.path, "`: ", &x.reason),
            ScanError::SourceOutsideRoot(x) => concat3("source file `", x, "` is outside the physical project root"),
            ScanError::NonUtf8SourcePath(x) => concat3("source file path `", x, "` is not valid UTF-8 and cannot be represented safely"),
            ScanError::DuplicateSource(x) => concat3("source file `", x, "` was supplied more than once"),
            ScanError::DuplicateDisplayPath(x) => concat3("source files collapse to the same displayed path `", x, "`"),
            ScanError::ReadSource(x) => concat4("cannot read source file `", &x.path, "` as UTF-8: ", &x.reason),
            ScanError::SourceFileTooLarge(x) => concat7(
                "source file `",
                &x.path,
                "` is ",
                &decimal(x.bytes),
                " bytes, exceeding the configured per-file limit of ",
                &decimal(x.limit),
                " bytes",
            ),
            ScanError::EntryNotSupplied(x) => concat3("entry `", x, "` is not present in the supplied file universe"),
            ScanError::DuplicateEntry(x) => concat3("an entry was supplied more than once: `", x, "`"),
            ScanError::EmptyEntries => "at least one entry file must be supplied".to_string(),
            ScanError::EmptyFileUniverse => "at least one source file must be supplied".to_string(),
            ScanError::FileUniverseTooLarge(x) => concat4(
                "the supplied file universe contains ",
                &decimal(x.files as u64),
                " files, exceeding the configured limit of ",
                &decimal(x.limit as u64),
            ),
            ScanError::ReadPackageManifest(x) => concat4("cannot read package manifest `", &x.path, "`: ", &x.reason),
            ScanError::ParsePackageManifest(x) => concat4("invalid package manifest `", &x.path, "`: ", &x.reason),
            ScanError::Cache(x) => x.replicate(),
            ScanError::CacheIdentity(x) => concat4("cannot create fact-cache identity for `", &x.path, "`: ", &x.reason),
            ScanError::ParserWorkerPanicked(x) => concat3("parser worker panicked while analyzing `", x, "`"),
            ScanError::MissingParsedFact(x) => concat3("parser worker returned no facts for `", x, "`"),
        }
    }
}

/// A plugin that could not be loaded.
#[derive(Debug, PartialEq, Eq)]
pub struct PluginFailure {
    pub plugin: String,
    pub message: String,
}

/// What a [`PluginFailure`] holds.
pub struct PluginFailureModel {
    pub plugin: Seq<char>,
    pub message: Seq<char>,
}

impl DeepView for PluginFailure {
    type V = PluginFailureModel;

    open spec fn deep_view(&self) -> PluginFailureModel {
        PluginFailureModel {
            plugin: self.plugin.deep_view(),
            message: self.message.deep_view(),
        }
    }
}

impl Value for PluginFailure {
    fn replicate(&self) -> (r: Self) {
        PluginFailure {
            plugin: self.plugin.replicate(),
            message: self.message.replicate(),
        }
    }

    fn same_value(&self, other: &Self) -> (r: bool) {
        self.plugin.same_value(&other.plugin)
            && self.message.same_value(&other.message)
    }
}

/// Why a project cannot be scanned.
#[derive(Debug, PartialEq, Eq)]
pub enum ProjectScanError {
    Workspace(String),
    Configuration(String),
    Manifest(String),
    Discovery(String),
    Plugin(String),
    Scan(ScanError),
    SerializeConfiguration(String),
    UnknownWorkspace(String),
    NoEntryRoots,
    NoSourceFiles,
    UnknownTargetProfile(String),
    TargetProfileCycle(String),
    ConfiguredPlugin(PluginFailure),
}

/// What a [`ProjectScanError`] holds.
pub enum ProjectScanErrorModel {
    Workspace(Seq<char>),
    Configuration(Seq<char>),
    Manifest(Seq<char>),
    Discovery(Seq<char>),
    Plugin(Seq<char>),
    Scan(ScanErrorModel),
    SerializeConfiguration(Seq<char>),
    UnknownWorkspace(Seq<char>),
    NoEntryRoots,
    NoSourceFiles,
    UnknownTargetProfile(Seq<char>),
    TargetProfileCycle(Seq<char>),
    ConfiguredPlugin(PluginFailureModel),
}

impl DeepView for ProjectScanError {
    type V = ProjectScanErrorModel;

    open spec fn deep_view(&self) -> ProjectScanErrorModel {
        match self {
            ProjectScanError::Workspace(x) => ProjectScanErrorModel::Workspace(x.deep_view()),
            ProjectScanError::Configuration(x) => ProjectScanErrorModel::Configuration(x.deep_view()),
            ProjectScanError::Manifest(x) => ProjectScanErrorModel::Manifest(x.deep_view()),
            ProjectScanError::Discovery(x) => ProjectScanErrorModel::Discovery(x.deep_view()),
            ProjectScanError::Plugin(x) => ProjectScanErrorModel::Plugin(x.deep_view()),
            ProjectScanError::Scan(x) => ProjectScanErrorModel::Scan(x.deep_view()),
            ProjectScanError::SerializeConfiguration(x) => ProjectScanErrorModel::SerializeConfiguration(x.deep_view()),
            ProjectScanError::UnknownWorkspace(x) => ProjectScanErrorModel::UnknownWorkspace(x.deep_view()),
            ProjectScanError::NoEntryRoots => ProjectScanErrorModel::NoEntryRoots,
            ProjectScanError::NoSourceFiles => ProjectScanErrorModel::NoSourceFiles,
            ProjectScanError::UnknownTargetProfile(x) => ProjectScanErrorModel::UnknownTargetProfile(x.deep_view()),
            ProjectScanError::TargetProfileCycle(x) => ProjectScanErrorModel::TargetProfileCycle(x.deep_view()),
            ProjectScanError::ConfiguredPlugin(x) => ProjectScanErrorModel::ConfiguredPlugin(x.deep_view()),
        }
    }
}

impl Value for ProjectScanError {
    fn replicate(&self) -> (r: Self) {
        match self {
            ProjectScanError::Workspace(x) => ProjectScanError::Workspace(x.replicate()),
            ProjectScanError::Configuration(x) => ProjectScanError::Configuration(x.replicate()),
            ProjectScanError::Manifest(x) => ProjectScanError::Manifest(x.replicate()),
            ProjectScanError::Discovery(x) => ProjectScanError::Discovery(x.replicate()),
            ProjectScanError::Plugin(x) => ProjectScanError::Plugin(x.replicate()),
            ProjectScanError::Scan(x) => ProjectScanError::Scan(x.replicate()),
            ProjectScanError::SerializeConfiguration(x) => ProjectScanError::SerializeConfiguration(x.replicate()),
            ProjectScanError::UnknownWorkspace(x) => ProjectScanError::UnknownWorkspace(x.replicate()),
            ProjectScanError::NoEntryRoots => ProjectScanError::NoEntryRoots,
            ProjectScanError::NoSourceFiles => ProjectScanError::NoSourceFiles,
            ProjectScanError::UnknownTargetProfile(x) => ProjectScanError::UnknownTargetProfile(x.replicate()),
            ProjectScanError::TargetProfileCycle(x) => ProjectScanError::TargetProfileCycle(x.replicate()),
            ProjectScanError::ConfiguredPlugin(x) => ProjectScanError::ConfiguredPlugin(x.replicate()),
        }
    }

    fn same_value(&self, other: &Self) -> (r: bool) {
        match (self, other) {
            (ProjectScanError::Workspace(x), ProjectScanError::Workspace(y)) => x.same_value(y),
            (ProjectScanError::Configuration(x), ProjectScanError::Configuration(y)) => x.same_value(y),
            (ProjectScanError::Manifest(x), ProjectScanError::Manifest(y)) => x.same_value(y),
            (ProjectScanError::Discovery(x), ProjectScanError::Discovery(y)) => x.same_value(y),
            (ProjectScanError::Plugin(x), ProjectScanError::Plugin(y)) => x.same_value(y),
            (ProjectScanError::Scan(x), ProjectScanError::Scan(y)) => x.same_value(y),
            (ProjectScanError::SerializeConfiguration(x), ProjectScanError::SerializeConfiguration(y)) => x.same_value(y),
            (ProjectScanError::UnknownWorkspace(x), ProjectScanError::UnknownWorkspace(y)) => x.same_value(y),
            (ProjectScanError::NoEntryRoots, ProjectScanError::NoEntryRoots) => true,
            (ProjectScanError::NoSourceFiles, ProjectScanError::NoSourceFiles) => true,
            (ProjectScanError::UnknownTargetProfile(x), ProjectScanError::UnknownTargetProfile(y)) => x.same_value(y),
            (ProjectScanError::TargetProfileCycle(x), ProjectScanError::TargetProfileCycle(y)) => x.same_value(y),
            (ProjectScanError::ConfiguredPlugin(x), ProjectScanError::ConfiguredPlugin(y)) => x.same_value(y),
            _ => false,
        }
    }
}

impl ProjectScanErrorModel {
    /// The error in words.
    pub open spec fn text(self) -> Seq<char> {
        match self {
            ProjectScanErrorModel::Workspace(x) => x,
            ProjectScanErrorModel::Configuration(x) => x,
            ProjectScanErrorModel::Manifest(x) => x,
            ProjectScanErrorModel::Discovery(x) => x,
            ProjectScanErrorModel::Plugin(x) => x,
            ProjectScanErrorModel::Scan(x) => x.text(),
            ProjectScanErrorModel::SerializeConfiguration(x) => "cannot normalize effective configuration for the fact cache: "@ + x,
            ProjectScanErrorModel::UnknownWorkspace(x) => "workspace `"@ + x + "` is not declared by the controlling package"@,
            ProjectScanErrorModel::NoEntryRoots => "project discovery found source files but no supported entry root"@,
            ProjectScanErrorModel::NoSourceFiles => "project discovery found no supported JavaScript or TypeScript source files"@,
            ProjectScanErrorModel::UnknownTargetProfile(x) => "target profile `"@ + x + "` is neither built in nor defined by effective configuration"@,
            ProjectScanErrorModel::TargetProfileCycle(x) => "target profile inheritance contains a cycle at `"@ + x + "`"@,
            ProjectScanErrorModel::ConfiguredPlugin(x) => "configured plugin `"@ + x.plugin + "` could not be loaded: "@ + x.message,
        }
    }
}

impl ProjectScanError {
    /// The error in words.
    #[must_use]
    pub fn message(&self) -> (r: String)
        ensures
            r@ == self.deep_view().text(),
    {
        match self {
            ProjectScanError::Workspace(x) => x.replicate(),
            ProjectScanError::Configuration(x) => x.replicate(),
            ProjectScanError::Manifest(x) => x.replicate(),
            ProjectScanError::Discovery(x) => x.replicate(),
            ProjectScanError::Plugin(x) => x.replicate(),
            ProjectScanError::Scan(x) => x.message(),
            ProjectScanError::SerializeConfiguration(x) => concat2("cannot normalize effective configuration for the fact cache: ", x),
            ProjectScanError::UnknownWorkspace(x) => concat3("workspace `", x, "` is not declared by the controlling package"),
            ProjectScanError::NoEntryRoots => "project discovery found source files but no supported entry root".to_string(),
            ProjectScanError::NoSourceFiles => "project discovery found no supported JavaScript or TypeScript source files".to_string(),
            ProjectScanError::UnknownTargetProfile(x) => concat3("target profile `", x, "` is neither built in nor defined by effective configuration"),
            ProjectScanError::TargetProfileCycle(x) => concat3("target profile inheritance contains a cycle at `", x, "`"),
            ProjectScanError::ConfiguredPlugin(x) => concat4("configured plugin `", &x.plugin, "` could not be loaded: ", &x.message),
        }
    }
}

} // verus!
