//! The command composer: from the configuration and the metadata of a
//! project to the ordered pipeline of cargo invocations.

use crate::cli::Cli;
use crate::command::{Command, CommandView, Commands};
use crate::text::{join, join_with, text_opt};
use vstd::prelude::*;

verus! {

/// One package of a project, as the metadata provider describes it.
#[derive(Debug)]
pub struct Package {
    /// The name of the package.
    pub name: String,
    /// The names of the features that the package declares.
    pub features: Vec<String>,
}

/// The mathematical value of a [`Package`].
pub struct PackageView {
    pub name: Seq<char>,
    pub features: Seq<Seq<char>>,
}

impl View for Package {
    type V = PackageView;

    open spec fn view(&self) -> PackageView {
        PackageView { name: self.name@, features: self.features.deep_view() }
    }
}

/// What the metadata provider reports of a project. It is read once and
/// never changed.
#[derive(Debug)]
pub struct Metadata {
    /// The packages of the project.
    pub packages: Vec<Package>,
    /// The identifiers of the members of the workspace.
    pub workspace_members: Vec<String>,
}

/// The mathematical value of a [`Metadata`].
pub struct MetadataView {
    pub packages: Seq<PackageView>,
    pub workspace_members: Seq<Seq<char>>,
}

impl MetadataView {
    /// Whether any package declares at least one feature.
    pub open spec fn has_features(self) -> bool {
        exists|i: int| 0 <= i < self.packages.len() && #[trigger] self.packages[i].features.len() > 0
    }

    /// Whether the project is a workspace of more than one package.
    pub open spec fn has_workspace(self) -> bool {
        self.workspace_members.len() > 1
    }
}

impl View for Metadata {
    type V = MetadataView;

    open spec fn view(&self) -> MetadataView {
        MetadataView {
            packages: self.packages@.map_values(|package: Package| package@),
            workspace_members: self.workspace_members.deep_view(),
        }
    }
}

impl Metadata {
    /// Whether any package declares at least one feature.
    pub fn has_features(&self) -> (found: bool)
        ensures
            found == self@.has_features(),
    {
        let mut i: usize = 0;
        while i < self.packages.len()
            invariant
                i <= self.packages.len(),
                forall|j: int| 0 <= j < i ==> (#[trigger] self@.packages[j]).features.len() == 0,
            decreases self.packages.len() - i,
        {
            if self.packages[i].features.len() > 0 {
                assert(self@.packages[i as int].features.len() > 0);
                return true;
            }
            i += 1;
        }
        false
    }

    /// Whether the project is a workspace of more than one package.
    pub fn has_workspace(&self) -> (multi: bool)
        ensures
            multi == self@.has_workspace(),
    {
        self.workspace_members.len() > 1
    }
}

/// Why a run could not be configured. Both are fatal and come before any
/// stage runs.
#[derive(Debug)]
pub enum ConfigError {
    /// Neither a project path was given nor is the current directory known.
    WorkingDir,
    /// The metadata query on the project at `path` failed for the reason
    /// `cause`.
    Metadata { path: String, cause: String },
}

/// The mathematical value of a [`ConfigError`].
pub enum ConfigErrorView {
    WorkingDir,
    Metadata { path: Seq<char>, cause: Seq<char> },
}

impl ConfigErrorView {
    /// The message of the error. That of a failed metadata query names the
    /// project and ends with the cause.
    pub open spec fn message(self) -> Seq<char> {
        match self {
            ConfigErrorView::WorkingDir => "failed to determine working directory"@,
            ConfigErrorView::Metadata { path, cause } => {
                "failed to parse metadata of the project at "@ + path + ": "@ + cause
            },
        }
    }
}

impl View for ConfigError {
    type V = ConfigErrorView;

    open spec fn view(&self) -> ConfigErrorView {
        match self {
            ConfigError::WorkingDir => ConfigErrorView::WorkingDir,
            ConfigError::Metadata { path, cause } => ConfigErrorView::Metadata {
                path: path@,
                cause: cause@,
            },
        }
    }
}

impl ConfigError {
    /// The message of the error.
    pub fn to_string(&self) -> (message: String)
        ensures
            message@ == self@.message(),
    {
        match self {
            ConfigError::WorkingDir => String::from_str("failed to determine working directory"),
            ConfigError::Metadata { path, cause } => {
                let mut message = String::from_str("failed to parse metadata of the project at ");
                message.append(path.as_str());
                message.append(": ");
                message.append(cause.as_str());
                message
            },
        }
    }
}

/// The composer of one run: the configuration together with the metadata
/// of the project.
#[derive(Debug)]
pub struct Cargo {
    metadata: Metadata,
    working_dir: String,
    clean: bool,
    tests: bool,
    lints: bool,
    package: Option<String>,
    no_default_features: bool,
    features: Vec<String>,
}

/// The mathematical value of a [`Cargo`].
pub struct CargoView {
    pub metadata: MetadataView,
    pub working_dir: Seq<char>,
    /// The pipeline starts with `cargo clean`.
    pub clean: bool,
    /// The pipeline has a test stage.
    pub tests: bool,
    /// Linting is relaxed.
    pub lints: bool,
    /// The package that the pipeline is restricted to.
    pub package: Option<Seq<char>>,
    pub no_default_features: bool,
    /// The features to enable, by name.
    pub features: Seq<Seq<char>>,
}

/// The invocation of `cargo` in `dir` with the arguments `args`.
pub open spec fn cargo_command(dir: Seq<char>, args: Seq<Seq<char>>) -> CommandView {
    CommandView { program: "cargo"@, current_dir: dir, args }
}

impl CargoView {
    /// The argument that restricts a stage to the configured package, with
    /// the package after it; nothing without a package filter.
    pub open spec fn package_args(self) -> Seq<Seq<char>> {
        match self.package {
            Some(package) => seq!["--package"@, package],
            None => Seq::empty(),
        }
    }

    /// The feature selection of a stage, by precedence: default features
    /// disabled; else the named features, joined by commas; else all
    /// features if any package declares one; else nothing.
    pub open spec fn feature_args(self) -> Seq<Seq<char>> {
        if self.no_default_features {
            seq!["--no-default-features"@]
        } else if self.features.len() > 0 {
            seq!["--features"@, join(self.features, ","@)]
        } else if self.metadata.has_features() {
            seq!["--all-features"@]
        } else {
            Seq::empty()
        }
    }

    /// The argument that widens a stage to the whole workspace: present
    /// exactly when there is no package filter and the project is a
    /// workspace of more than one package.
    pub open spec fn workspace_args(self) -> Seq<Seq<char>> {
        if self.package is None && self.metadata.has_workspace() {
            seq!["--workspace"@]
        } else {
            Seq::empty()
        }
    }

    /// The arguments of the stage `verb`: the verb, then scope and feature
    /// selection.
    pub open spec fn stage_args(self, verb: Seq<char>) -> Seq<Seq<char>> {
        seq![verb] + self.package_args() + self.feature_args() + self.workspace_args()
    }

    /// The scope of the format check: the configured package, or all
    /// packages where there is no package filter.
    pub open spec fn fmt_scope_args(self) -> Seq<Seq<char>> {
        if self.package is Some {
            self.package_args()
        } else {
            seq!["--all"@]
        }
    }

    /// The arguments of the format check: the verb, the scope, and after
    /// `--` the argument that makes it check only and change no file. It
    /// never selects features.
    pub open spec fn fmt_args(self) -> Seq<Seq<char>> {
        seq!["fmt"@] + self.fmt_scope_args() + seq!["--"@, "--check"@]
    }

    /// The arguments that allow the stricter lint groups: present exactly
    /// when linting is relaxed.
    pub open spec fn leniency_args(self) -> Seq<Seq<char>> {
        if self.lints {
            seq![
                "-A"@,
                "clippy::pedantic"@,
                "-A"@,
                "clippy::restriction"@,
                "-A"@,
                "clippy::cargo"@,
            ]
        } else {
            Seq::empty()
        }
    }

    /// The arguments of the lint stage: those of a stage, then `--tests`
    /// if the pipeline has a test stage, then after `--` the leniency
    /// arguments and last the arguments that turn warnings into failures.
    pub open spec fn clippy_args(self) -> Seq<Seq<char>> {
        self.stage_args("clippy"@) + (if self.tests {
            seq!["--tests"@]
        } else {
            Seq::empty()
        }) + seq!["--"@] + self.leniency_args() + seq!["-D"@, "warnings"@]
    }

    /// The stage `verb` as an invocation.
    pub open spec fn stage(self, verb: Seq<char>) -> CommandView {
        cargo_command(self.working_dir, self.stage_args(verb))
    }

    /// The pipeline: clean if requested, check, build, test unless
    /// disabled, format check, lint. Linting applies to every scope, so
    /// the pipeline always ends with it.
    pub open spec fn pipeline(self) -> Seq<CommandView> {
        (if self.clean {
            seq![cargo_command(self.working_dir, seq!["clean"@])]
        } else {
            Seq::empty()
        }) + seq![self.stage("check"@), self.stage("build"@)] + (if self.tests {
            seq![self.stage("test"@)]
        } else {
            Seq::empty()
        }) + seq![
            cargo_command(self.working_dir, self.fmt_args()),
            cargo_command(self.working_dir, self.clippy_args()),
        ]
    }
}

/// Whether `args` holds `flag` somewhere.
pub open spec fn carries(args: Seq<Seq<char>>, flag: Seq<char>) -> bool {
    exists|i: int| 0 <= i < args.len() && #[trigger] args[i] == flag
}

/// Whether `args` names `package` as the single package to work on.
pub open spec fn carries_package(args: Seq<Seq<char>>, package: Seq<char>) -> bool {
    exists|i: int|
        0 <= i && i + 1 < args.len() && #[trigger] args[i] == "--package"@ && args[i + 1]
            == package
}

/// Whether `arg` is one of the three arguments that select features.
pub open spec fn is_feature_flag(arg: Seq<char>) -> bool {
    arg == "--no-default-features"@ || arg == "--features"@ || arg == "--all-features"@
}

/// Whether at most one position of `args` holds a feature-selecting
/// argument.
pub open spec fn at_most_one_feature_flag(args: Seq<Seq<char>>) -> bool {
    forall|i: int, j: int|
        0 <= i < j < args.len() ==> !(is_feature_flag(#[trigger] args[i]) && is_feature_flag(
            #[trigger] args[j],
        ))
}

/// Whether no position of `args` holds a feature-selecting argument.
pub open spec fn no_feature_flag(args: Seq<Seq<char>>) -> bool {
    forall|i: int| 0 <= i < args.len() ==> !is_feature_flag(#[trigger] args[i])
}

impl CargoView {
    /// The argument lists of the stages that scope and feature selection
    /// apply to: check, build, test and lint.
    pub open spec fn scoped_stages(self) -> Seq<Seq<Seq<char>>> {
        seq![
            self.stage_args("check"@),
            self.stage_args("build"@),
            self.stage_args("test"@),
            self.clippy_args(),
        ]
    }

    /// Whether the list of named features is written: the default
    /// features are not disabled and a feature is named.
    pub open spec fn names_features(self) -> bool {
        !self.no_default_features && self.features.len() > 0
    }

    /// The texts that come from the user and stand among the arguments as
    /// they are: the package if there is a package filter, and the list of
    /// named features where it is written.
    pub open spec fn user_args(self) -> Seq<Seq<char>> {
        (match self.package {
            Some(package) => seq![package],
            None => Seq::empty(),
        }) + (if self.names_features() {
            seq![join(self.features, ","@)]
        } else {
            Seq::empty()
        })
    }
}

/// The lengths of the fixed texts among the arguments. No two texts of
/// different length are equal.
proof fn lemma_fixed_texts()
    ensures
        "check"@.len() == 5,
        "build"@.len() == 5,
        "test"@.len() == 4,
        "clippy"@.len() == 6,
        "--package"@.len() == 9,
        "--workspace"@.len() == 11,
        "--no-default-features"@.len() == 21,
        "--features"@.len() == 10,
        "--all-features"@.len() == 14,
        "--tests"@.len() == 7,
        "--"@.len() == 2,
        "-A"@.len() == 2,
        "-D"@.len() == 2,
        "warnings"@.len() == 8,
        "clippy::pedantic"@.len() == 16,
        "clippy::restriction"@.len() == 19,
        "clippy::cargo"@.len() == 13,
        "fmt"@.len() == 3,
        "--all"@.len() == 5,
        "--check"@.len() == 7,
{
    reveal_strlit("fmt");
    reveal_strlit("--all");
    reveal_strlit("--check");
    reveal_strlit("check");
    reveal_strlit("build");
    reveal_strlit("test");
    reveal_strlit("clippy");
    reveal_strlit("--package");
    reveal_strlit("--workspace");
    reveal_strlit("--no-default-features");
    reveal_strlit("--features");
    reveal_strlit("--all-features");
    reveal_strlit("--tests");
    reveal_strlit("--");
    reveal_strlit("-A");
    reveal_strlit("-D");
    reveal_strlit("warnings");
    reveal_strlit("clippy::pedantic");
    reveal_strlit("clippy::restriction");
    reveal_strlit("clippy::cargo");
}

/// With a package filter, each of the stages check, build, test and lint
/// names that package as its scope and does not carry the workspace-wide
/// scope. The texts that the user supplies stand among the arguments as
/// they are, so the law speaks of the configurations in which none of them
/// is itself `--workspace`.
pub proof fn lemma_package_filter_scopes_every_stage(cargo: CargoView, k: int)
    requires
        cargo.package is Some,
        !carries(cargo.user_args(), "--workspace"@),
        0 <= k < cargo.scoped_stages().len(),
    ensures
        carries_package(cargo.scoped_stages()[k], cargo.package->0),
        !carries(cargo.scoped_stages()[k], "--workspace"@),
{
    lemma_fixed_texts();
    let args = cargo.scoped_stages()[k];
    let user = cargo.user_args();
    assert(user[0] == cargo.package->0);
    assert(args[1] == "--package"@ && args[2] == cargo.package->0);
    if cargo.names_features() {
        assert(user[1] == join(cargo.features, ","@));
    }
    assert forall|i: int| 0 <= i < args.len() implies #[trigger] args[i] != "--workspace"@ by {
        if args[i] == "--workspace"@ {
            assert(args[i] == user[0] || (cargo.names_features() && args[i] == user[1]));
        }
    }
}

/// The format check follows the scope rule and never the feature rule.
/// With a package filter it names that package as its scope and does not
/// carry `--all`; without one it carries `--all`. Either way it ends with
/// `--` and `--check` and selects no features. The package stands among
/// the arguments as it is, so the law speaks of the configurations in
/// which it is not itself `--all` or a feature-selecting argument.
pub proof fn lemma_format_check_follows_scope(cargo: CargoView)
    requires
        cargo.package matches Some(package) ==> package != "--all"@ && !is_feature_flag(package),
    ensures
        cargo.package matches Some(package) ==> carries_package(cargo.fmt_args(), package)
            && !carries(cargo.fmt_args(), "--all"@),
        cargo.package is None ==> cargo.fmt_args() == seq!["fmt"@, "--all"@, "--"@, "--check"@],
        no_feature_flag(cargo.fmt_args()),
        cargo.fmt_args().len() >= 2,
        cargo.fmt_args()[cargo.fmt_args().len() - 2] == "--"@,
        cargo.fmt_args().last() == "--check"@,
{
    lemma_fixed_texts();
    let args = cargo.fmt_args();
    match cargo.package {
        Some(package) => {
            assert(args =~= seq!["fmt"@, "--package"@, package, "--"@, "--check"@]);
            assert(args[1] == "--package"@ && args[2] == package);
        },
        None => {
            assert(args =~= seq!["fmt"@, "--all"@, "--"@, "--check"@]);
        },
    }
}

/// At most one of the three feature-selecting arguments stands in each of
/// the stages check, build, test and lint. The texts that the user supplies
/// stand among the arguments as they are, so the law speaks of the
/// configurations in which none of them is itself such an argument.
pub proof fn lemma_feature_selection_is_exclusive(cargo: CargoView, k: int)
    requires
        no_feature_flag(cargo.user_args()),
        0 <= k < cargo.scoped_stages().len(),
    ensures
        at_most_one_feature_flag(cargo.scoped_stages()[k]),
{
    lemma_fixed_texts();
    let args = cargo.scoped_stages()[k];
    let user = cargo.user_args();
    if cargo.package is Some {
        assert(!is_feature_flag(user[0]));
    }
    if cargo.names_features() {
        assert(!is_feature_flag(user[user.len() - 1]));
    }
    let head = 1 + cargo.package_args().len();
    assert forall|i: int| 0 <= i < args.len() && is_feature_flag(#[trigger] args[i]) implies i
        == head by {}
}

/// Where no package declares a feature and the user neither disables the
/// default features nor names any feature, no feature-selecting argument
/// stands in any of the stages check, build, test and lint.
pub proof fn lemma_no_features_no_selection(cargo: CargoView, k: int)
    requires
        !cargo.metadata.has_features(),
        !cargo.no_default_features,
        cargo.features.len() == 0,
        no_feature_flag(cargo.user_args()),
        0 <= k < cargo.scoped_stages().len(),
    ensures
        cargo.feature_args() == Seq::<Seq<char>>::empty(),
        no_feature_flag(cargo.scoped_stages()[k]),
{
    lemma_fixed_texts();
    let args = cargo.scoped_stages()[k];
    let user = cargo.user_args();
    if cargo.package is Some {
        assert(!is_feature_flag(user[0]));
    }
}

impl View for Cargo {
    type V = CargoView;

    closed spec fn view(&self) -> CargoView {
        CargoView {
            metadata: self.metadata@,
            working_dir: self.working_dir@,
            clean: self.clean,
            tests: self.tests,
            lints: self.lints,
            package: text_opt(self.package),
            no_default_features: self.no_default_features,
            features: self.features.deep_view(),
        }
    }
}

impl Cargo {
    /// The composer for the configuration `cli` of a project in
    /// `working_dir`. `metadata` is the answer of the metadata provider for
    /// that directory: the metadata, or the cause of its failure, which
    /// becomes a configuration error.
    pub fn new(cli: Cli, working_dir: String, metadata: Result<Metadata, String>) -> (cargo:
        Result<Cargo, ConfigError>)
        ensures
            match metadata {
                Ok(metadata) => cargo matches Ok(c) && c@ == (CargoView {
                    metadata: metadata@,
                    working_dir: working_dir@,
                    clean: cli.clean,
                    tests: !cli.no_tests,
                    lints: cli.lints,
                    package: text_opt(cli.package),
                    no_default_features: cli.no_default_features,
                    features: cli.features.deep_view(),
                }),
                Err(cause) => cargo matches Err(e) && e@ == (ConfigErrorView::Metadata {
                    path: working_dir@,
                    cause: cause@,
                }),
            },
    {
        match metadata {
            Ok(metadata) => Ok(
                Cargo {
                    metadata,
                    working_dir,
                    clean: cli.clean,
                    tests: !cli.no_tests,
                    lints: cli.lints,
                    package: cli.package,
                    no_default_features: cli.no_default_features,
                    features: cli.features,
                },
            ),
            Err(cause) => Err(ConfigError::Metadata { path: working_dir, cause }),
        }
    }

    /// Appends the package filter, if there is one.
    fn add_package(&self, command: &mut Command)
        ensures
            final(command)@.program == old(command)@.program,
            final(command)@.current_dir == old(command)@.current_dir,
            final(command)@.args == old(command)@.args + self@.package_args(),
    {
        match &self.package {
            Some(package) => {
                command.arg("--package");
                command.arg(package.as_str());
                assert(command@.args =~= old(command)@.args + self@.package_args());
            },
            None => {
                assert(command@.args =~= old(command)@.args + self@.package_args());
            },
        }
    }

    /// Appends the feature selection.
    fn add_features(&self, command: &mut Command)
        ensures
            final(command)@.program == old(command)@.program,
            final(command)@.current_dir == old(command)@.current_dir,
            final(command)@.args == old(command)@.args + self@.feature_args(),
    {
        if self.no_default_features {
            command.arg("--no-default-features");
        } else if self.features.len() > 0 {
            let list = join_with(&self.features, ",");
            command.arg("--features");
            command.arg(list.as_str());
        } else if self.has_features() {
            command.arg("--all-features");
        }
        assert(command@.args =~= old(command)@.args + self@.feature_args());
    }

    /// Appends the workspace scope, if it applies.
    fn add_workspace(&self, command: &mut Command)
        ensures
            final(command)@.program == old(command)@.program,
            final(command)@.current_dir == old(command)@.current_dir,
            final(command)@.args == old(command)@.args + self@.workspace_args(),
    {
        if self.package.is_none() && self.has_workspace() {
            command.arg("--workspace");
        }
        assert(command@.args =~= old(command)@.args + self@.workspace_args());
    }

    /// The stage `verb` with scope and feature selection.
    fn stage(&self, verb: &str) -> (command: Command)
        ensures
            command@ == self@.stage(verb@),
    {
        let mut command = Command::new(self.working_dir.as_str());
        command.arg(verb);
        self.add_package(&mut command);
        self.add_features(&mut command);
        self.add_workspace(&mut command);
        assert(command@.args =~= self@.stage_args(verb@));
        command
    }

    /// The static check of the project.
    pub fn check(&self) -> (command: Command)
        ensures
            command@ == self@.stage("check"@),
    {
        self.stage("check")
    }

    /// The build of the project.
    pub fn build(&self) -> (command: Command)
        ensures
            command@ == self@.stage("build"@),
    {
        self.stage("build")
    }

    /// The tests of the project.
    pub fn test(&self) -> (command: Command)
        ensures
            command@ == self@.stage("test"@),
    {
        self.stage("test")
    }

    /// The format check.
    pub fn fmt(&self) -> (command: Command)
        ensures
            command@ == cargo_command(self@.working_dir, self@.fmt_args()),
    {
        let mut command = Command::new(self.working_dir.as_str());
        command.arg("fmt");
        if self.package.is_some() {
            self.add_package(&mut command);
        } else {
            command.arg("--all");
        }
        command.args(&["--", "--check"]);
        assert(command@.args =~= self@.fmt_args());
        command
    }

    /// The lint stage.
    pub fn clippy(&self) -> (command: Command)
        ensures
            command@ == cargo_command(self@.working_dir, self@.clippy_args()),
    {
        let mut command = self.stage("clippy");
        if self.tests {
            command.arg("--tests");
        }
        command.arg("--");
        if self.lints {
            command.args(&["-A", "clippy::pedantic"]);
            command.args(&["-A", "clippy::restriction"]);
            command.args(&["-A", "clippy::cargo"]);
        }
        command.args(&["-D", "warnings"]);
        assert(command@.args =~= self@.clippy_args());
        command
    }

    /// The removal of the build outputs.
    pub fn clean(&self) -> (command: Command)
        ensures
            command@ == cargo_command(self@.working_dir, seq!["clean"@]),
    {
        let mut command = Command::new(self.working_dir.as_str());
        command.arg("clean");
        assert(command@.args =~= seq!["clean"@]);
        command
    }

    /// The pipeline of this run, in its fixed order.
    pub fn commands(&self) -> (commands: Commands)
        ensures
            commands@ == self@.pipeline(),
    {
        let mut commands = Commands::new();
        if self.clean {
            commands.push(self.clean());
        }
        commands.push(self.check());
        commands.push(self.build());
        if self.tests {
            commands.push(self.test());
        }
        commands.push(self.fmt());
        commands.push(self.clippy());
        assert(commands@ =~= self@.pipeline());
        commands
    }

    /// Whether any package declares at least one feature.
    pub fn has_features(&self) -> (found: bool)
        ensures
            found == self@.metadata.has_features(),
    {
        self.metadata.has_features()
    }

    /// Whether the project is a workspace of more than one package.
    pub fn has_workspace(&self) -> (multi: bool)
        ensures
            multi == self@.metadata.has_workspace(),
    {
        self.metadata.has_workspace()
    }

    /// The directory of the project.
    pub fn working_dir(&self) -> (dir: &str)
        ensures
            dir@ == self@.working_dir,
    {
        self.working_dir.as_str()
    }
}

} // verus!
