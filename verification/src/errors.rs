//! Usage errors of the command grammar: a missing required operand or an
//! unrecognized marker token. Each error names the token at fault and can
//! render the diagnostic line that the program prints for it.

use vstd::prelude::*;

use crate::entry::{clone_entry, Entry};

verus! {

/// Which way the command line was malformed.
#[derive(Clone, Copy, Debug, PartialEq, Eq, Structural)]
pub enum ErrorKind {
    /// A marker token that needs one following operand stood last.
    MissingArgument,
    /// A marker token that no command recognizes.
    UnrecognizedOption,
}

/// The mathematical model of a usage error.
#[verifier::ext_equal]
pub struct ErrorV {
    pub kind: ErrorKind,
    pub token: Seq<u8>,
}

/// A usage error: the kind of fault and the token that caused it.
#[derive(Debug)]
pub struct Error {
    pub kind: ErrorKind,
    pub token: Entry,
}

impl View for Error {
    type V = ErrorV;

    open spec fn view(&self) -> ErrorV {
        ErrorV { kind: self.kind, token: self.token@ }
    }
}

/// The diagnostic line for an error: a fixed prefix naming the fault, then
/// the token in quotes.
pub open spec fn message_of(e: ErrorV) -> Seq<u8> {
    match e.kind {
        ErrorKind::MissingArgument => missing_argument_prefix() + e.token + seq![39],
        ErrorKind::UnrecognizedOption => unrecognized_option_prefix() + e.token + seq![39],
    }
}

/// The text `option requires an argument: '`.
pub open spec fn missing_argument_prefix() -> Seq<u8> {
    seq![111, 112, 116, 105, 111, 110, 32, 114, 101, 113, 117, 105, 114, 101, 115,
        32, 97, 110, 32, 97, 114, 103, 117, 109, 101, 110, 116, 58, 32, 39]
}

/// The text `unrecognized option: '`.
pub open spec fn unrecognized_option_prefix() -> Seq<u8> {
    seq![117, 110, 114, 101, 99, 111, 103, 110, 105, 122, 101, 100, 32, 111, 112,
        116, 105, 111, 110, 58, 32, 39]
}

/// The error for a marker token whose required operand is absent.
pub fn missing_argument_error(option: &Entry) -> (r: Error)
    ensures
        r@ == (ErrorV { kind: ErrorKind::MissingArgument, token: option@ }),
{
    Error { kind: ErrorKind::MissingArgument, token: clone_entry(option) }
}

/// The error for a marker token that no command recognizes.
pub fn unrecognized_option_error(option: &Entry) -> (r: Error)
    ensures
        r@ == (ErrorV { kind: ErrorKind::UnrecognizedOption, token: option@ }),
{
    Error { kind: ErrorKind::UnrecognizedOption, token: clone_entry(option) }
}

impl Error {
    /// Renders the diagnostic line for this error.
    pub fn message(&self) -> (r: Vec<u8>)
        ensures
            r@ == message_of(self@),
    {
        let mut m: Vec<u8> = Vec::new();
        match self.kind {
            ErrorKind::MissingArgument => {
                m.push(111);
                m.push(112);
                m.push(116);
                m.push(105);
                m.push(111);
                m.push(110);
                m.push(32);
                m.push(114);
                m.push(101);
                m.push(113);
                m.push(117);
                m.push(105);
                m.push(114);
                m.push(101);
                m.push(115);
                m.push(32);
                m.push(97);
                m.push(110);
                m.push(32);
                m.push(97);
                m.push(114);
                m.push(103);
                m.push(117);
                m.push(109);
                m.push(101);
                m.push(110);
                m.push(116);
                m.push(58);
                m.push(32);
                m.push(39);
                proof {
                    assert(m@ =~= missing_argument_prefix());
                }
            },
            ErrorKind::UnrecognizedOption => {
                m.push(117);
                m.push(110);
                m.push(114);
                m.push(101);
                m.push(99);
                m.push(111);
                m.push(103);
                m.push(110);
                m.push(105);
                m.push(122);
                m.push(101);
                m.push(100);
                m.push(32);
                m.push(111);
                m.push(112);
                m.push(116);
                m.push(105);
                m.push(111);
                m.push(110);
                m.push(58);
                m.push(32);
                m.push(39);
                proof {
                    assert(m@ =~= unrecognized_option_prefix());
                }
            },
        }
        let ghost prefix = m@;
        let mut i: usize = 0;
        while i < self.token.len()
            invariant
                i <= self.token@.len(),
                m@ == prefix + self.token@.take(i as int),
            decreases self.token@.len() - i,
        {
            m.push(self.token[i]);
            proof {
                assert(m@ =~= prefix + self.token@.take(i as int + 1));
            }
            i += 1;
        }
        m.push(39);
        proof {
            assert(self.token@.take(self.token@.len() as int) =~= self.token@);
            assert(m@ =~= message_of(self@));
        }
        m
    }
}

} // verus!
