//! The pieces of argument handling with observable contracts: the usage text
//! and the rule that some marker tokens require one following operand.

use vstd::prelude::*;

use crate::entry::Entry;
use crate::errors::{missing_argument_error, Error, ErrorKind, ErrorV};

verus! {

/// The text `Usage:`.
pub open spec fn usage_head() -> Seq<u8> {
    seq![85, 115, 97, 103, 101, 58]
}

/// The text ` [-l|-p]`.
pub open spec fn usage_tail_short() -> Seq<u8> {
    seq![32, 91, 45, 108, 124, 45, 112, 93]
}

/// The text ` [-P|-b] DIRS...+`.
pub open spec fn usage_tail_long() -> Seq<u8> {
    seq![32, 91, 45, 80, 124, 45, 98, 93, 32, 68, 73, 82, 83, 46, 46, 46, 43]
}

/// The usage text, one line per element: a heading, then the two command
/// synopses, each naming the program as `arg0`.
pub open spec fn usage_lines(arg0: Seq<u8>) -> Seq<Seq<u8>> {
    seq![
        usage_head(),
        seq![32u8, 32u8] + arg0 + usage_tail_short(),
        seq![32u8, 32u8] + arg0 + usage_tail_long(),
    ]
}

/// Builds the usage text for the given program name, one entry per line.
pub fn usage(arg0: &Entry) -> (r: Vec<Entry>)
    ensures
        crate::entry::entries_view(r@) == usage_lines(arg0@),
{
    let mut head: Vec<u8> = Vec::new();
    head.push(85);
    head.push(115);
    head.push(97);
    head.push(103);
    head.push(101);
    head.push(58);
    proof {
        assert(head@ =~= usage_head());
    }

    let mut short_line: Vec<u8> = Vec::new();
    short_line.push(32);
    short_line.push(32);
    append_bytes(&mut short_line, arg0);
    short_line.push(32);
    short_line.push(91);
    short_line.push(45);
    short_line.push(108);
    short_line.push(124);
    short_line.push(45);
    short_line.push(112);
    short_line.push(93);
    proof {
        assert(short_line@ =~= seq![32u8, 32u8] + arg0@ + usage_tail_short());
    }

    let mut long_line: Vec<u8> = Vec::new();
    long_line.push(32);
    long_line.push(32);
    append_bytes(&mut long_line, arg0);
    long_line.push(32);
    long_line.push(91);
    long_line.push(45);
    long_line.push(80);
    long_line.push(124);
    long_line.push(45);
    long_line.push(98);
    long_line.push(93);
    long_line.push(32);
    long_line.push(68);
    long_line.push(73);
    long_line.push(82);
    long_line.push(83);
    long_line.push(46);
    long_line.push(46);
    long_line.push(46);
    long_line.push(43);
    proof {
        assert(long_line@ =~= seq![32u8, 32u8] + arg0@ + usage_tail_long());
    }

    let mut r: Vec<Entry> = Vec::new();
    r.push(head);
    r.push(short_line);
    r.push(long_line);
    proof {
        assert(crate::entry::entries_view(r@) =~= usage_lines(arg0@));
    }
    r
}

/// Appends the bytes of `src` to `dst`.
fn append_bytes(dst: &mut Vec<u8>, src: &Entry)
    ensures
        final(dst)@ == old(dst)@ + src@,
{
    let mut i: usize = 0;
    while i < src.len()
        invariant
            i <= src@.len(),
            dst@ == old(dst)@ + src@.take(i as int),
        decreases src@.len() - i,
    {
        dst.push(src[i]);
        proof {
            assert(dst@ =~= old(dst)@ + src@.take(i as int + 1));
        }
        i += 1;
    }
    proof {
        assert(src@.take(src@.len() as int) =~= src@);
    }
}

/// Demands the operand that must follow `option`: hands it through when it
/// is there and reports the missing-argument error when it is not.
pub fn req_param<T>(option: &Entry, maybe: Option<T>) -> (r: Result<T, Error>)
    ensures
        maybe matches Some(v) ==> (r matches Ok(rv) && rv == v),
        maybe is None ==> (r matches Err(e) && e@ == (ErrorV {
            kind: ErrorKind::MissingArgument,
            token: option@,
        })),
{
    match maybe {
        Some(v) => Ok(v),
        None => Err(missing_argument_error(option)),
    }
}

} // verus!
