//! The configuration: a default policy and the paths to prune.
use vstd::prelude::*;

use crate::pattern::RetentionFilePattern;
use crate::policy::RetentionPolicy;

verus! {

/// One directory to prune, the template its file names follow, and an
/// optional policy of its own.
#[derive(Clone, Debug)]
pub struct RetentionPath {
    pub path: String,
    pub file_pattern: RetentionFilePattern,
    pub retention: Option<RetentionPolicy>,
}

impl RetentionPath {
    /// The path's own policy where it has one, else `default`.
    pub fn policy(&self, default: RetentionPolicy) -> (r: RetentionPolicy)
        ensures
            r == (match self.retention {
                Some(p) => p,
                None => default,
            }),
    {
        match self.retention {
            Some(p) => p,
            None => default,
        }
    }
}

/// The default policy and the paths to prune.
#[derive(Clone, Debug)]
pub struct Config {
    pub retention: RetentionPolicy,
    pub paths: Vec<RetentionPath>,
}

impl Config {
    /// The policy that applies to the `i`-th path.
    pub fn policy_for(&self, i: usize) -> (r: RetentionPolicy)
        requires
            i < self.paths@.len(),
        ensures
            r == (match self.paths@[i as int].retention {
                Some(p) => p,
                None => self.retention,
            }),
    {
        self.paths[i].policy(self.retention)
    }
}

} // verus!
