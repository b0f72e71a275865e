use vstd::prelude::*;

use crate::router::{parse_index, spec_parse_index};

verus! {

/// The command line of the server: the port to listen on and the library root.
#[derive(Debug)]
pub struct Args {
    pub port: u16,
    pub path: Vec<u8>,
}

/// One item of the command line, as the option parser reads it.
#[derive(Debug)]
pub enum ArgEvent {
    /// A positional argument.
    Value(Vec<u8>),
    /// `-h` or `--help`.
    Help,
    /// Any other option.
    Unexpected,
}

/// Why a command line is refused.
#[derive(Debug, Clone, Copy, PartialEq, Eq, Structural)]
pub enum ArgError {
    /// The port is not a decimal number below 65536.
    InvalidPort,
    /// An argument past the path, or an unknown option.
    Unexpected,
    /// No port was given.
    MissingPort,
}

/// What to do after an item of the command line.
#[derive(Debug, Clone, Copy, PartialEq, Eq, Structural)]
pub enum Step {
    Continue,
    /// Print the usage and stop.
    Help,
    Fail(ArgError),
}

/// The port named by a command-line value, if it is one.
pub open spec fn spec_parse_port(v: Seq<u8>) -> Option<u16> {
    match spec_parse_index(v) {
        Some(n) => if n <= 65535 {
            Some(n as u16)
        } else {
            None
        },
        None => None,
    }
}

pub fn parse_port(v: &[u8]) -> (r: Option<u16>)
    ensures
        r == spec_parse_port(v@),
{
    match parse_index(v) {
        Some(n) => if n <= 65535 {
            Some(n as u16)
        } else {
            None
        },
        None => None,
    }
}

/// The command line read so far.
#[derive(Debug)]
pub struct ArgsParser {
    pub port: Option<u16>,
    pub path: Option<Vec<u8>>,
}

impl ArgsParser {
    pub fn new() -> (r: ArgsParser)
        ensures
            r.port is None,
            r.path is None,
    {
        ArgsParser { port: None, path: None }
    }

    /// Takes one item: the first value is the port, the second the path; a
    /// third value or an unknown option is refused, and help stops the reading.
    pub fn step(&mut self, ev: ArgEvent) -> (r: Step)
        ensures
            match ev {
                ArgEvent::Help => r == Step::Help && final(self).port == old(self).port
                    && final(self).path == old(self).path,
                ArgEvent::Unexpected => r == Step::Fail(ArgError::Unexpected),
                ArgEvent::Value(v) => match old(self).port {
                    None => match spec_parse_port(v@) {
                        Some(p) => r == Step::Continue && final(self).port == Some(p)
                            && final(self).path == old(self).path,
                        None => r == Step::Fail(ArgError::InvalidPort),
                    },
                    Some(_) => match old(self).path {
                        None => r == Step::Continue && final(self).port == old(self).port
                            && (final(self).path matches Some(q) && q@ == v@),
                        Some(_) => r == Step::Fail(ArgError::Unexpected),
                    },
                },
            },
    {
        match ev {
            ArgEvent::Help => Step::Help,
            ArgEvent::Unexpected => Step::Fail(ArgError::Unexpected),
            ArgEvent::Value(v) => {
                if self.port.is_none() {
                    match parse_port(v.as_slice()) {
                        Some(p) => {
                            self.port = Some(p);
                            Step::Continue
                        },
                        None => Step::Fail(ArgError::InvalidPort),
                    }
                } else if self.path.is_none() {
                    self.path = Some(v);
                    Step::Continue
                } else {
                    Step::Fail(ArgError::Unexpected)
                }
            },
        }
    }

    /// Ends the reading: the port is required, also on an empty command line,
    /// and the path defaults to `.`.
    pub fn finish(self) -> (r: Result<Args, ArgError>)
        ensures
            self.port is None ==> r == Err::<Args, ArgError>(ArgError::MissingPort),
            self.port is Some ==> (r matches Ok(a) && Some(a.port) == self.port
                && (match self.path {
                Some(p) => a.path@ == p@,
                None => a.path@ == seq![46u8],
            })),
    {
        let ArgsParser { port, path } = self;
        match port {
            None => Err(ArgError::MissingPort),
            Some(port) => {
                let path = match path {
                    Some(p) => p,
                    None => {
                        let mut d: Vec<u8> = Vec::new();
                        d.push(46);
                        assert(d@ =~= seq![46u8]);
                        d
                    },
                };
                Ok(Args { port, path })
            },
        }
    }
}

} // verus!
