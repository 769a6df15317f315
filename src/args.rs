//! Command-line options and the mode of a run that they select.
use vstd::prelude::*;

verus! {

/// Whether two path texts name the same path, component by component.
pub uninterp spec fn same_path(a: Seq<char>, b: Seq<char>) -> bool;

/// Relies on std::path::Path's `==`, which compares the paths' components,
/// so that repeated separators, a trailing separator and inner `.`
/// components make no difference.
#[verifier::external_body]
fn paths_equal(a: &str, b: &str) -> (r: bool)
    ensures
        r == same_path(a@, b@),
{
    std::path::Path::new(a) == std::path::Path::new(b)
}

/// The sub-commands.
#[derive(Clone, Debug)]
pub enum SubCommand {
    /// Preview the policy for `path`, reading its file names from `input`
    /// where one is given.
    Simulate { path: String, input: Option<String> },
}

/// The command-line options.
#[derive(Clone, Debug)]
pub struct Args {
    pub config: Option<String>,
    pub command: Option<SubCommand>,
    pub dry_run: bool,
}

impl Args {
    pub open spec fn config_file_spec(&self) -> Seq<char> {
        match self.config {
            Some(c) => c@,
            None => "config.toml"@,
        }
    }

    /// The configuration file to read: the one named, else `config.toml`.
    pub fn config_file(&self) -> (r: String)
        ensures
            r@ == self.config_file_spec(),
    {
        match &self.config {
            Some(c) => c.clone(),
            None => String::from_str("config.toml"),
        }
    }
}

/// How a run treats the files that the policy drops.
#[derive(Clone, Debug)]
pub enum ExecutionContext {
    /// Delete them.
    Default,
    /// Only report the split.
    DryRun,
    /// Only report the split, for one path, with names read from a list
    /// where one is given.
    Simulate { path: String, input: Option<String> },
}

/// Where a run takes the file names of a path from.
#[derive(Debug)]
pub enum FileSource {
    /// The directory's own listing.
    Directory,
    /// The lines of this file.
    InputFile(String),
    /// Nowhere: the path is treated as empty.
    Nothing,
}

impl ExecutionContext {
    /// The mode the options select: a simulation wins over a dry run.
    pub fn new(args: Args) -> (r: ExecutionContext)
        ensures
            match args.command {
                Some(SubCommand::Simulate { path, input }) => r == (ExecutionContext::Simulate { path, input }),
                None => if args.dry_run { r is DryRun } else { r is Default },
            },
    {
        match args.command {
            Some(SubCommand::Simulate { path, input }) => ExecutionContext::Simulate { path, input },
            None => if args.dry_run {
                ExecutionContext::DryRun
            } else {
                ExecutionContext::Default
            },
        }
    }

    /// Where the file names of `path` come from: a simulation with an input
    /// list reads that list for its own path (compared by components) and
    /// sees no files elsewhere;
    /// every other run lists the directory.
    pub fn file_source(&self, path: &String) -> (r: FileSource)
        ensures
            match self {
                ExecutionContext::Simulate { path: target, input: Some(input) } =>
                    if same_path(path@, target@) {
                        r matches FileSource::InputFile(f) && f@ == input@
                    } else {
                        r is Nothing
                    },
                _ => r is Directory,
            },
    {
        match self {
            ExecutionContext::Simulate { path: target, input: Some(input) } => {
                if paths_equal(path.as_str(), target.as_str()) {
                    FileSource::InputFile(input.clone())
                } else {
                    FileSource::Nothing
                }
            },
            _ => FileSource::Directory,
        }
    }

    /// Whether dropped files are deleted rather than reported.
    pub fn deletes_files(&self) -> (r: bool)
        ensures
            r == self is Default,
    {
        match self {
            ExecutionContext::Default => true,
            _ => false,
        }
    }
}

} // verus!
