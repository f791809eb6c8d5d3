//! The basic data model: an entry is an opaque byte-string record, a stack is
//! an ordered sequence of entries, front first.

use vstd::prelude::*;

verus! {

/// One stack element: an opaque text record, stored byte for byte.
pub type Entry = Vec<u8>;

/// The line-feed byte, which terminates each stored entry.
pub const NL: u8 = 10;

/// The carriage-return byte; a trailing one is stripped when a line is read.
pub const CR: u8 = 13;

/// An entry is storable only when it contains no line-terminator byte:
/// the line-based layout cannot represent one that does.
pub open spec fn entry_ok(e: Seq<u8>) -> bool {
    forall|i: int| 0 <= i < e.len() ==> e[i] != NL && e[i] != CR
}

/// Every entry of the stack is storable.
pub open spec fn entries_ok(s: Seq<Seq<u8>>) -> bool {
    forall|i: int| 0 <= i < s.len() ==> entry_ok(#[trigger] s[i])
}

/// The mathematical model of a list of entries: the sequence of their views.
pub open spec fn entries_view(s: Seq<Entry>) -> Seq<Seq<u8>> {
    Seq::new(s.len(), |i: int| s[i]@)
}

/// Copies one entry.
pub fn clone_entry(e: &Entry) -> (r: Entry)
    ensures
        r@ == e@,
{
    let r = e.clone();
    proof {
        assert(r@ =~= e@);
    }
    r
}

/// Copies a list of entries.
pub fn clone_entries(es: &Vec<Entry>) -> (r: Vec<Entry>)
    ensures
        entries_view(r@) == entries_view(es@),
{
    let mut r: Vec<Entry> = Vec::new();
    let mut i: usize = 0;
    while i < es.len()
        invariant
            i <= es.len(),
            r@.len() == i,
            forall|k: int| 0 <= k < i ==> r@[k]@ == es@[k]@,
        decreases es.len() - i,
    {
        let e = clone_entry(&es[i]);
        r.push(e);
        i += 1;
    }
    proof {
        assert(entries_view(r@) =~= entries_view(es@));
    }
    r
}

} // verus!
