//! The configuration of one run, as the option-parsing layer hands it over.

use crate::cargo::{ConfigError, ConfigErrorView};
use crate::generate::Generate;
use crate::text::text_opt;
use vstd::prelude::*;

verus! {

/// The configuration of one run.
#[derive(Debug)]
pub struct Cli {
    /// The path of the project; the current directory when absent.
    pub path: Option<String>,
    /// Puts `cargo clean` in front of the pipeline.
    pub clean: bool,
    /// Relaxes linting: the stricter lint groups are allowed.
    pub lints: bool,
    /// Leaves the test stage out.
    pub no_tests: bool,
    /// Restricts the pipeline to this package.
    pub package: Option<String>,
    /// Disables the default features.
    pub no_default_features: bool,
    /// The features to enable, by name.
    pub features: Vec<String>,
    /// The mode to run in; the pipeline itself when absent.
    pub subcommand: Option<SubCommand>,
}

/// The modes besides running the pipeline.
#[derive(Debug)]
pub enum SubCommand {
    /// Render the pipeline as a workflow document.
    Generate(Generate),
}

/// The directory a run works in: `path` when it is given, else
/// `current_dir`, else none.
pub open spec fn chosen_dir(path: Option<Seq<char>>, current_dir: Option<Seq<char>>) -> Option<
    Seq<char>,
> {
    match path {
        Some(path) => Some(path),
        None => current_dir,
    }
}

impl Cli {
    /// The directory this run works in. `current_dir` is the current
    /// directory of the process, if it could be determined. The run has no
    /// working directory exactly when neither a path was configured nor
    /// the current directory is known.
    pub fn working_dir(&self, current_dir: Option<String>) -> (dir: Result<String, ConfigError>)
        ensures
            match chosen_dir(text_opt(self.path), text_opt(current_dir)) {
                Some(chosen) => dir matches Ok(d) && d@ == chosen,
                None => dir matches Err(e) && e@ == ConfigErrorView::WorkingDir,
            },
    {
        match &self.path {
            Some(path) => Ok(path.clone()),
            None => match current_dir {
                Some(dir) => Ok(dir),
                None => Err(ConfigError::WorkingDir),
            },
        }
    }
}

} // verus!
