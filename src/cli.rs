//! The hook's command line, and the choice of where the specification is read from.
use vstd::prelude::*;
use crate::runtime_spec::HookError;

verus! {

/// Command-line options: an optional specification file and a verbosity count.
pub struct CLI {
    pub spec_file: Option<String>,
    pub verbose: u8,
}

/// Where the specification is read from.
#[derive(Debug, PartialEq, Eq)]
pub enum SpecSource {
    /// Standard input; `ignored_file` is set when a file was named as well.
    Stdin { ignored_file: bool },
    /// The named file.
    File(String),
}

/// Running the hook from its command line.
pub trait CLIExt {
    /// Where the specification comes from, given whether standard input
    /// carries one.
    spec fn source_of(&self, spec_from_stdin: bool) -> Result<SpecSource, HookError>;

    /// Decides where the specification is read from: standard input when it
    /// carries one, else the named file, else a configuration error.
    fn run(self, spec_from_stdin: bool) -> (r: Result<SpecSource, HookError>)
        ensures
            r == self.source_of(spec_from_stdin),
    ;
}

impl CLIExt for CLI {
    open spec fn source_of(&self, spec_from_stdin: bool) -> Result<SpecSource, HookError> {
        if spec_from_stdin {
            Ok(SpecSource::Stdin { ignored_file: self.spec_file is Some })
        } else {
            match self.spec_file {
                Some(p) => Ok(SpecSource::File(p)),
                None => Err(HookError::NoSpecSource),
            }
        }
    }

    fn run(self, spec_from_stdin: bool) -> (r: Result<SpecSource, HookError>) {
        if spec_from_stdin {
            Ok(SpecSource::Stdin { ignored_file: self.spec_file.is_some() })
        } else {
            match self.spec_file {
                Some(p) => Ok(SpecSource::File(p)),
                None => Err(HookError::NoSpecSource),
            }
        }
    }
}

} // verus!
