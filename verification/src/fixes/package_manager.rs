//! Removing direct dependencies with the package manager of the project.

use crate::cache::key::ContentDigest;
use crate::collections::{sort_by, sorted_by, Ranking};
use crate::fixes::plan::{is_showable, manifest_path, showable, ProjectPath};
use crate::text::{byte_len, byte_length, chars_of, contains, occurs, same, starts_with};
use crate::values::{push_item, text_before, text_is_before, Ordered, Value};
use vstd::prelude::*;

verus! {

/// A supported package manager.
#[derive(Debug, Clone, Copy, PartialEq, Eq, Structural)]
pub enum PackageManager {
    Npm,
    Pnpm,
    Yarn,
    Bun,
}

impl DeepView for PackageManager {
    type V = PackageManager;

    open spec fn deep_view(&self) -> PackageManager {
        *self
    }
}

impl Value for PackageManager {
    fn replicate(&self) -> (r: Self) {
        *self
    }

    fn same_value(&self, other: &Self) -> (r: bool) {
        *self == *other
    }
}

/// The program of a package manager.
pub open spec fn program_of(manager: PackageManager) -> Seq<char> {
    match manager {
        PackageManager::Npm => "npm"@,
        PackageManager::Pnpm => "pnpm"@,
        PackageManager::Yarn => "yarn"@,
        PackageManager::Bun => "bun"@,
    }
}

/// The verb by which a package manager removes dependencies.
pub open spec fn removal_verb(manager: PackageManager) -> Seq<char> {
    match manager {
        PackageManager::Npm => "uninstall"@,
        _ => "remove"@,
    }
}

impl PackageManager {
    /// The program of the package manager.
    #[must_use]
    pub fn executable(self) -> (r: &'static str)
        ensures
            r@ == program_of(self),
    {
        match self {
            PackageManager::Npm => "npm",
            PackageManager::Pnpm => "pnpm",
            PackageManager::Yarn => "yarn",
            PackageManager::Bun => "bun",
        }
    }

    /// The verb by which the package manager removes dependencies.
    #[must_use]
    pub fn remove_subcommand(self) -> (r: &'static str)
        ensures
            r@ == removal_verb(self),
    {
        match self {
            PackageManager::Npm => "uninstall",
            PackageManager::Pnpm | PackageManager::Yarn | PackageManager::Bun => "remove",
        }
    }
}

/// How a dependency is declared.
#[derive(Debug, Clone, Copy, PartialEq, Eq, Structural)]
pub enum DependencyKind {
    Production,
    Development,
    Optional,
    Peer,
}

impl DeepView for DependencyKind {
    type V = DependencyKind;

    open spec fn deep_view(&self) -> DependencyKind {
        *self
    }
}

impl Value for DependencyKind {
    fn replicate(&self) -> (r: Self) {
        *self
    }

    fn same_value(&self, other: &Self) -> (r: bool) {
        *self == *other
    }
}

/// A direct dependency.
#[derive(Debug, PartialEq, Eq)]
pub struct DirectDependency {
    pub name: String,
    pub kind: DependencyKind,
}

/// What a [`DirectDependency`] holds.
pub struct DirectDependencyModel {
    pub name: Seq<char>,
    pub kind: DependencyKind,
}

impl DeepView for DirectDependency {
    type V = DirectDependencyModel;

    open spec fn deep_view(&self) -> DirectDependencyModel {
        DirectDependencyModel {
            name: self.name.deep_view(),
            kind: self.kind.deep_view(),
        }
    }
}

impl Value for DirectDependency {
    fn replicate(&self) -> (r: Self) {
        DirectDependency {
            name: self.name.replicate(),
            kind: self.kind.replicate(),
        }
    }

    fn same_value(&self, other: &Self) -> (r: bool) {
        self.name.same_value(&other.name)
            && self.kind.same_value(&other.kind)
    }
}

/// The characters of an npm package name.
pub open spec fn package_name_char(c: char) -> bool {
    ('a' <= c && c <= 'z') || ('0' <= c && c <= '9') || c == '@' || c == '/' || c == '-' || c == '_'
        || c == '.'
}

/// Whether a text is an npm package name that cannot be taken for an option or a path.
pub open spec fn safe_package_name(name: Seq<char>) -> bool {
    &&& name.len() > 0
    &&& byte_length(name) <= 214
    &&& !"-"@.is_prefix_of(name)
    &&& !occurs(name, ".."@)
    &&& forall|i: int| 0 <= i < name.len() ==> package_name_char(#[trigger] name[i])
}

fn valid_package_name(name: &str) -> (r: bool)
    ensures
        r == safe_package_name(name@),
{
    if name.is_empty() || byte_len(name) > 214 || starts_with(name, "-") || contains(name, "..") {
        return false;
    }
    let chars = chars_of(name);
    let mut i: usize = 0;
    while i < chars.len()
        invariant
            i <= chars.len(),
            chars@ == name@,
            forall|j: int| 0 <= j < i ==> package_name_char(#[trigger] chars@[j]),
        decreases chars.len() - i,
    {
        let c = chars[i];
        if !(('a' <= c && c <= 'z') || ('0' <= c && c <= '9') || c == '@' || c == '/' || c == '-' || c
            == '_' || c == '.') {
            assert(!package_name_char(chars@[i as int]));
            return false;
        }
        i = i + 1;
    }
    true
}

/// The message about an unsafe package name.
pub open spec fn unsafe_name() -> Seq<char> {
    "dependency name is not a safe npm package name"@
}

/// The message about a reason that cannot be shown.
pub open spec fn unsafe_reason() -> Seq<char> {
    "fix reason must be nonempty, bounded, and safe to display"@
}

impl DirectDependency {
    /// Creates a direct dependency selected for removal.
    ///
    /// # Errors
    ///
    /// Returns an error when the name could be interpreted as an option or invalid package name.
    pub fn new(name: &str, kind: DependencyKind) -> (r: Result<Self, &'static str>)
        ensures
            match r {
                Ok(d) => safe_package_name(name@) && d.deep_view() == (DirectDependencyModel {
                    name: name@,
                    kind,
                }),
                Err(message) => !safe_package_name(name@) && message@ == unsafe_name(),
            },
    {
        if !valid_package_name(name) {
            return Err("dependency name is not a safe npm package name");
        }
        Ok(DirectDependency { name: name.to_owned(), kind })
    }
}

/// The removal of one dependency.
#[derive(Debug, PartialEq, Eq)]
pub struct DependencyRemoval {
    pub dependency: DirectDependency,
    pub reason: String,
}

/// What a [`DependencyRemoval`] holds.
pub struct DependencyRemovalModel {
    pub dependency: DirectDependencyModel,
    pub reason: Seq<char>,
}

impl DeepView for DependencyRemoval {
    type V = DependencyRemovalModel;

    open spec fn deep_view(&self) -> DependencyRemovalModel {
        DependencyRemovalModel {
            dependency: self.dependency.deep_view(),
            reason: self.reason.deep_view(),
        }
    }
}

impl Value for DependencyRemoval {
    fn replicate(&self) -> (r: Self) {
        DependencyRemoval {
            dependency: self.dependency.replicate(),
            reason: self.reason.replicate(),
        }
    }

    fn same_value(&self, other: &Self) -> (r: bool) {
        self.dependency.same_value(&other.dependency)
            && self.reason.same_value(&other.reason)
    }
}

/// Why a removal is refused, if so.
pub open spec fn removal_error(removal: DependencyRemovalModel) -> Option<Seq<char>> {
    if !safe_package_name(removal.dependency.name) {
        Some(unsafe_name())
    } else if !showable(removal.reason) {
        Some(unsafe_reason())
    } else {
        None
    }
}

impl DependencyRemoval {
    /// Describes one dependency change and the evidence-backed reason shown in previews.
    ///
    /// # Errors
    ///
    /// Returns an error when the reason is empty, unbounded, or unsafe to display.
    pub fn new(dependency: DirectDependency, reason: &str) -> (r: Result<Self, &'static str>)
        ensures
            ({
                let removal = DependencyRemovalModel {
                    dependency: dependency.deep_view(),
                    reason: reason@,
                };
                match r {
                    Ok(made) => removal_error(removal) is None && made.deep_view() == removal,
                    Err(message) => removal_error(removal) == Some(message@),
                }
            }),
    {
        let removal = DependencyRemoval { dependency, reason: reason.to_owned() };
        match removal.validate() {
            Ok(_) => Ok(removal),
            Err(message) => Err(message),
        }
    }

    fn validate(&self) -> (r: Result<(), &'static str>)
        ensures
            match r {
                Ok(_) => removal_error(self.deep_view()) is None,
                Err(message) => removal_error(self.deep_view()) == Some(message@),
            },
    {
        if !valid_package_name(&self.dependency.name) {
            return Err("dependency name is not a safe npm package name");
        }
        if !is_showable(&self.reason) {
            return Err("fix reason must be nonempty, bounded, and safe to display");
        }
        Ok(())
    }
}

/// Removals are ordered by the name of the dependency.
pub struct ByName;

impl Ranking<DependencyRemoval> for ByName {
    type Key = String;

    open spec fn key(a: DependencyRemovalModel) -> Seq<char> {
        a.dependency.name
    }

    fn ranks_before(a: &DependencyRemoval, b: &DependencyRemoval) -> (r: bool) {
        text_is_before(&a.dependency.name, &b.dependency.name)
    }
}

/// One invocation of a package manager.
#[derive(Debug, PartialEq, Eq)]
pub struct PackageManagerCommand {
    pub manager: PackageManager,
    pub working_directory: ProjectPath,
    pub manifest_path: ProjectPath,
    pub analyzed_manifest_content: ContentDigest,
    pub removals: Vec<DependencyRemoval>,
    pub program: String,
    pub arguments: Vec<String>,
}

/// What a [`PackageManagerCommand`] holds.
pub struct PackageManagerCommandModel {
    pub manager: PackageManager,
    pub working_directory: Seq<char>,
    pub manifest_path: Seq<char>,
    pub analyzed_manifest_content: ContentDigest,
    pub removals: Seq<DependencyRemovalModel>,
    pub program: Seq<char>,
    pub arguments: Seq<Seq<char>>,
}

impl DeepView for PackageManagerCommand {
    type V = PackageManagerCommandModel;

    open spec fn deep_view(&self) -> PackageManagerCommandModel {
        PackageManagerCommandModel {
            manager: self.manager.deep_view(),
            working_directory: self.working_directory.deep_view(),
            manifest_path: self.manifest_path.deep_view(),
            analyzed_manifest_content: self.analyzed_manifest_content.deep_view(),
            removals: self.removals.deep_view(),
            program: self.program.deep_view(),
            arguments: self.arguments.deep_view(),
        }
    }
}

impl Value for PackageManagerCommand {
    fn replicate(&self) -> (r: Self) {
        PackageManagerCommand {
            manager: self.manager.replicate(),
            working_directory: self.working_directory.replicate(),
            manifest_path: self.manifest_path.replicate(),
            analyzed_manifest_content: self.analyzed_manifest_content.replicate(),
            removals: self.removals.replicate(),
            program: self.program.replicate(),
            arguments: self.arguments.replicate(),
        }
    }

    fn same_value(&self, other: &Self) -> (r: bool) {
        self.manager.same_value(&other.manager)
            && self.working_directory.same_value(&other.working_directory)
            && self.manifest_path.same_value(&other.manifest_path)
            && self.analyzed_manifest_content.same_value(&other.analyzed_manifest_content)
            && self.removals.same_value(&other.removals)
            && self.program.same_value(&other.program)
            && self.arguments.same_value(&other.arguments)
    }
}

/// The names of the removed dependencies.
pub open spec fn removed_names(removals: Seq<DependencyRemovalModel>) -> Seq<Seq<char>> {
    removals.map_values(|r: DependencyRemovalModel| r.dependency.name)
}

/// The arguments that remove these dependencies.
pub open spec fn removal_arguments(
    manager: PackageManager,
    removals: Seq<DependencyRemovalModel>,
) -> Seq<Seq<char>> {
    seq![removal_verb(manager)] + removed_names(removals)
}

fn arguments_for(manager: PackageManager, removals: &Vec<DependencyRemoval>) -> (r: Vec<String>)
    ensures
        r.deep_view() == removal_arguments(manager, removals.deep_view()),
{
    let ghost names = removed_names(removals.deep_view());
    let mut arguments: Vec<String> = Vec::new();
    arguments.push(manager.remove_subcommand().to_owned());
    let mut i: usize = 0;
    assert(arguments.deep_view() =~= seq![removal_verb(manager)] + names.take(0));
    while i < removals.len()
        invariant
            i <= removals.len(),
            names == removed_names(removals.deep_view()),
            arguments.deep_view() == seq![removal_verb(manager)] + names.take(i as int),
        decreases removals.len() - i,
    {
        push_item(&mut arguments, removals[i].dependency.name.clone());
        i = i + 1;
        assert(arguments.deep_view() =~= seq![removal_verb(manager)] + names.take(i as int));
    }
    assert(names.take(i as int) =~= names);
    arguments
}

/// Whether two neighbours have the same name.
pub open spec fn repeats_name(removals: Seq<DependencyRemovalModel>) -> bool {
    exists|i: int, j: int|
        0 <= i < j < removals.len() && j == i + 1 && (#[trigger] removals[i]).dependency.name == (
        #[trigger] removals[j]).dependency.name
}

/// Whether each name comes before the next.
pub open spec fn names_ascend(removals: Seq<DependencyRemovalModel>) -> bool {
    forall|i: int, j: int|
        0 <= i < j < removals.len() && j == i + 1 ==> text_before(
            (#[trigger] removals[i]).dependency.name,
            (#[trigger] removals[j]).dependency.name,
        )
}

/// The first error among removals, if there is one.
pub open spec fn first_removal_error(removals: Seq<DependencyRemovalModel>) -> Option<Seq<char>>
    decreases removals.len(),
{
    if removals.len() == 0 {
        None
    } else {
        match first_removal_error(removals.drop_last()) {
            Some(message) => Some(message),
            None => removal_error(removals.last()),
        }
    }
}

/// Why a command is refused, if so.
pub open spec fn command_error(c: PackageManagerCommandModel) -> Option<Seq<char>> {
    if c.removals.len() == 0 {
        Some("package-manager removal must contain at least one dependency"@)
    } else if first_removal_error(c.removals) is Some {
        first_removal_error(c.removals)
    } else if !names_ascend(c.removals) {
        Some("package-manager dependencies must be unique and sorted"@)
    } else if c.manifest_path != manifest_path(c.working_directory) {
        Some("package-manager command does not target its exact workspace manifest"@)
    } else if c.program != program_of(c.manager) || c.arguments != removal_arguments(
        c.manager,
        c.removals,
    ) {
        Some("package-manager command does not match its typed removal operation"@)
    } else {
        None
    }
}

/// The command that removes these dependencies.
pub open spec fn removal_command(
    manager: PackageManager,
    working_directory: Seq<char>,
    analyzed_manifest_content: ContentDigest,
    removals: Seq<DependencyRemovalModel>,
) -> PackageManagerCommandModel {
    let ordered = sorted_by::<DependencyRemoval, ByName>(removals);
    PackageManagerCommandModel {
        manager,
        working_directory,
        manifest_path: manifest_path(working_directory),
        analyzed_manifest_content,
        removals: ordered,
        program: program_of(manager),
        arguments: removal_arguments(manager, ordered),
    }
}

/// Why dependencies cannot be removed together, if so.
pub open spec fn grouping_error(removals: Seq<DependencyRemovalModel>) -> Option<Seq<char>> {
    let ordered = sorted_by::<DependencyRemoval, ByName>(removals);
    if removals.len() == 0 {
        Some("package-manager removal must contain at least one dependency"@)
    } else if repeats_name(ordered) {
        Some("package-manager removal contains a duplicate dependency"@)
    } else {
        first_removal_error(ordered)
    }
}

fn first_error(removals: &Vec<DependencyRemoval>) -> (r: Option<&'static str>)
    ensures
        match r {
            Some(message) => first_removal_error(removals.deep_view()) == Some(message@),
            None => first_removal_error(removals.deep_view()) is None,
        },
{
    let ghost model = removals.deep_view();
    let mut i: usize = 0;
    while i < removals.len()
        invariant
            i <= removals.len(),
            model == removals.deep_view(),
            first_removal_error(model.take(i as int)) is None,
        decreases removals.len() - i,
    {
        assert(model.take(i + 1).drop_last() =~= model.take(i as int));
        assert(model.take(i + 1).last() == removals@[i as int].deep_view());
        if let Err(message) = removals[i].validate() {
            proof {
                error_stays(model, (i + 1) as nat);
            }
            return Some(message);
        }
        i = i + 1;
    }
    assert(model.take(i as int) =~= model);
    None
}

proof fn error_stays(removals: Seq<DependencyRemovalModel>, n: nat)
    requires
        n <= removals.len(),
        first_removal_error(removals.take(n as int)) is Some,
    ensures
        first_removal_error(removals) == first_removal_error(removals.take(n as int)),
    decreases removals.len() - n,
{
    if n < removals.len() {
        assert(removals.take(n as int + 1).drop_last() =~= removals.take(n as int));
        error_stays(removals, n + 1);
    } else {
        assert(removals.take(n as int) =~= removals);
    }
}

impl PackageManagerCommand {
    /// Builds one package-manager invocation for all selected removals in a workspace.
    ///
    /// # Errors
    ///
    /// Returns an error for an empty or duplicate removal set.
    pub fn remove_direct_dependencies(
        manager: PackageManager,
        working_directory: ProjectPath,
        analyzed_manifest_content: ContentDigest,
        removals: Vec<DependencyRemoval>,
    ) -> (r: Result<Self, &'static str>)
        ensures
            match r {
                Ok(command) => grouping_error(removals.deep_view()) is None && command.deep_view()
                    == removal_command(
                    manager,
                    working_directory.deep_view(),
                    analyzed_manifest_content,
                    removals.deep_view(),
                ),
                Err(message) => grouping_error(removals.deep_view()) == Some(message@),
            },
    {
        let ghost given = removals.deep_view();
        let mut ordered = removals;
        sort_by::<DependencyRemoval, ByName>(&mut ordered);
        let ghost model = ordered.deep_view();
        proof {
            crate::collections::sorted_by_len::<DependencyRemoval, ByName>(given);
        }
        if ordered.len() == 0 {
            return Err("package-manager removal must contain at least one dependency");
        }
        let mut i: usize = 1;
        while i < ordered.len()
            invariant
                1 <= i <= ordered.len(),
                model == ordered.deep_view(),
                model == sorted_by::<DependencyRemoval, ByName>(given),
                given == removals.deep_view(),
                given.len() > 0,
                forall|j: int, k: int|
                    0 <= j < k < i && k == j + 1 ==> (#[trigger] model[j]).dependency.name != (
                    #[trigger] model[k]).dependency.name,
            decreases ordered.len() - i,
        {
            assert(model[i - 1] == ordered@[i - 1].deep_view());
            assert(model[i as int] == ordered@[i as int].deep_view());
            if same(&ordered[i - 1].dependency.name, &ordered[i].dependency.name) {
                return Err("package-manager removal contains a duplicate dependency");
            }
            i = i + 1;
        }
        let arguments = arguments_for(manager, &ordered);
        if let Some(message) = first_error(&ordered) {
            return Err(message);
        }
        let manifest_path = working_directory.package_manifest();
        Ok(
            PackageManagerCommand {
                manager,
                working_directory,
                manifest_path,
                analyzed_manifest_content,
                removals: ordered,
                program: manager.executable().to_owned(),
                arguments,
            },
        )
    }

    /// Builds a package-manager invocation for one selected dependency.
    ///
    /// # Errors
    ///
    /// Returns an error when the reason is invalid.
    pub fn remove_direct_dependency(
        manager: PackageManager,
        working_directory: ProjectPath,
        analyzed_manifest_content: ContentDigest,
        dependency: DirectDependency,
        reason: &str,
    ) -> (r: Result<Self, &'static str>)
        ensures
            ({
                let removal = DependencyRemovalModel {
                    dependency: dependency.deep_view(),
                    reason: reason@,
                };
                match r {
                    Ok(command) => removal_error(removal) is None && command.deep_view()
                        == removal_command(
                        manager,
                        working_directory.deep_view(),
                        analyzed_manifest_content,
                        seq![removal],
                    ),
                    Err(message) => removal_error(removal) == Some(message@),
                }
            }),
    {
        let ghost removal = DependencyRemovalModel {
            dependency: dependency.deep_view(),
            reason: reason@,
        };
        match DependencyRemoval::new(dependency, reason) {
            Err(message) => Err(message),
            Ok(made) => {
                let mut removals: Vec<DependencyRemoval> = Vec::new();
                removals.push(made);
                assert(removals.deep_view() =~= seq![removal]);
                proof {
                    single_removal(removal);
                }
                Self::remove_direct_dependencies(
                    manager,
                    working_directory,
                    analyzed_manifest_content,
                    removals,
                )
            },
        }
    }

    /// The command line that is shown to the user.
    #[must_use]
    pub fn display_command(&self) -> (r: String)
        ensures
            r@ == command_line(self.deep_view()),
    {
        let ghost arguments = self.arguments.deep_view();
        let mut command = self.program.clone();
        let mut i: usize = 0;
        while i < self.arguments.len()
            invariant
                i <= self.arguments.len(),
                arguments == self.arguments.deep_view(),
                command@ == spaced(self.program@, arguments.take(i as int)),
            decreases self.arguments.len() - i,
        {
            assert(arguments.take(i + 1).drop_last() =~= arguments.take(i as int));
            assert(arguments.take(i + 1).last() == self.arguments@[i as int]@);
            command.push(' ');
            command.append(&self.arguments[i]);
            i = i + 1;
        }
        assert(arguments.take(i as int) =~= arguments);
        command
    }

    /// Checks that the command is exactly what its typed operation says.
    pub fn validate(&self) -> (r: Result<(), &'static str>)
        ensures
            match r {
                Ok(_) => command_error(self.deep_view()) is None,
                Err(message) => command_error(self.deep_view()) == Some(message@),
            },
    {
        let ghost model = self.removals.deep_view();
        if self.removals.len() == 0 {
            return Err("package-manager removal must contain at least one dependency");
        }
        if let Some(message) = first_error(&self.removals) {
            return Err(message);
        }
        let mut i: usize = 1;
        while i < self.removals.len()
            invariant
                1 <= i <= self.removals.len(),
                model == self.removals.deep_view(),
                first_removal_error(model) is None,
                forall|j: int, k: int|
                    0 <= j < k < i && k == j + 1 ==> text_before(
                        (#[trigger] model[j]).dependency.name,
                        (#[trigger] model[k]).dependency.name,
                    ),
            decreases self.removals.len() - i,
        {
            assert(model[i - 1] == self.removals@[i - 1].deep_view());
            assert(model[i as int] == self.removals@[i as int].deep_view());
            if !text_is_before(
                &self.removals[i - 1].dependency.name,
                &self.removals[i].dependency.name,
            ) {
                return Err("package-manager dependencies must be unique and sorted");
            }
            i = i + 1;
        }
        if !self.manifest_path.same_value(&self.working_directory.package_manifest()) {
            return Err("package-manager command does not target its exact workspace manifest");
        }
        let expected = arguments_for(self.manager, &self.removals);
        if !same(&self.program, self.manager.executable()) || !self.arguments.same_value(&expected) {
            return Err("package-manager command does not match its typed removal operation");
        }
        Ok(())
    }
}

/// A program with its arguments, separated by spaces.
pub open spec fn spaced(program: Seq<char>, arguments: Seq<Seq<char>>) -> Seq<char>
    decreases arguments.len(),
{
    if arguments.len() == 0 {
        program
    } else {
        spaced(program, arguments.drop_last()).push(' ') + arguments.last()
    }
}

/// The command line of a command.
pub open spec fn command_line(c: PackageManagerCommandModel) -> Seq<char> {
    spaced(c.program, c.arguments)
}

proof fn single_removal(removal: DependencyRemovalModel)
    ensures
        grouping_error(seq![removal]) == removal_error(removal),
{
    let one = seq![removal];
    assert(one.drop_last() =~= Seq::empty());
    assert(sorted_by::<DependencyRemoval, ByName>(one.drop_last()) =~= Seq::empty());
    let ordered = sorted_by::<DependencyRemoval, ByName>(one);
    assert(ordered =~= one);
    assert(first_removal_error(one.drop_last()) is None);
}

/// Every command that is built passes its own validation.
pub proof fn built_commands_are_valid(
    manager: PackageManager,
    working_directory: Seq<char>,
    content: ContentDigest,
    removals: Seq<DependencyRemovalModel>,
)
    requires
        grouping_error(removals) is None,
    ensures
        command_error(removal_command(manager, working_directory, content, removals)) is None,
{
    let ordered = sorted_by::<DependencyRemoval, ByName>(removals);
    crate::collections::sorted_by_len::<DependencyRemoval, ByName>(removals);
    crate::collections::sorted_by_in_order::<DependencyRemoval, ByName>(removals);
    assert forall|i: int, j: int| 0 <= i < j < ordered.len() && j == i + 1 implies text_before(
        (#[trigger] ordered[i]).dependency.name,
        (#[trigger] ordered[j]).dependency.name,
    ) by {
        let a = ordered[i].dependency.name;
        let b = ordered[j].dependency.name;
        assert(!<String as Ordered>::before(
            <ByName as Ranking<DependencyRemoval>>::key(ordered[j]),
            <ByName as Ranking<DependencyRemoval>>::key(ordered[i]),
        ));
        crate::values::text_before_total(a, b);
    }
}

/// The order in which removals are selected does not matter for which dependencies go.
pub proof fn commands_remove_what_was_selected(
    manager: PackageManager,
    working_directory: Seq<char>,
    content: ContentDigest,
    removals: Seq<DependencyRemovalModel>,
)
    ensures
        removal_command(manager, working_directory, content, removals).removals.to_multiset()
            == removals.to_multiset(),
{
    crate::collections::sorted_by_keeps_items::<DependencyRemoval, ByName>(removals);
}

} // verus!
