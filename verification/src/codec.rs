//! The on-disk layout of the stack: one entry per line, each followed by a
//! single line-feed byte. Decoding splits the file at line feeds and strips a
//! trailing carriage return from each line, so an entry free of
//! line-terminator bytes round-trips exactly.

use vstd::prelude::*;

use crate::entry::{entries_ok, entries_view, entry_ok, Entry, CR, NL};

verus! {

/// The encoded form of a list of entries: each entry followed by one
/// line-feed byte, in order.
pub open spec fn encode(entries: Seq<Seq<u8>>) -> Seq<u8>
    decreases entries.len(),
{
    if entries.len() == 0 {
        Seq::empty()
    } else {
        entries[0] + seq![NL] + encode(entries.skip(1))
    }
}

/// A line with a trailing carriage return stripped, as a line-based reader
/// strips it; any other line is unchanged.
pub open spec fn strip_cr(line: Seq<u8>) -> Seq<u8> {
    if line.len() > 0 && line[line.len() - 1] == CR {
        line.drop_last()
    } else {
        line
    }
}

/// The length of the first line of `bytes`: the index of the first line-feed
/// byte, or the whole length when there is none.
pub open spec fn first_line_len(bytes: Seq<u8>) -> nat
    decreases bytes.len(),
{
    if bytes.len() == 0 {
        0
    } else if bytes[0] == NL {
        0
    } else {
        1 + first_line_len(bytes.skip(1))
    }
}

/// The decoded form of a byte string: the sequence of its lines, each with
/// its line feed removed and a trailing carriage return stripped. A final
/// line feed closes the last line rather than opening an empty one.
pub open spec fn decode(bytes: Seq<u8>) -> Seq<Seq<u8>>
    decreases bytes.len(),
{
    if bytes.len() == 0 {
        Seq::empty()
    } else {
        let n = first_line_len(bytes);
        if n >= bytes.len() {
            seq![strip_cr(bytes)]
        } else {
            seq![strip_cr(bytes.take(n as int))] + decode(bytes.skip(n as int + 1))
        }
    }
}

/// The first line of a byte string that starts with a line-terminator-free
/// prefix followed by a line feed is exactly that prefix.
proof fn lemma_first_line_of_prefix(e: Seq<u8>, rest: Seq<u8>)
    requires
        forall|i: int| 0 <= i < e.len() ==> e[i] != NL,
    ensures
        first_line_len(e + seq![NL] + rest) == e.len(),
    decreases e.len(),
{
    let s = e + seq![NL] + rest;
    if e.len() == 0 {
        assert(s[0] == NL);
    } else {
        assert(s[0] == e[0]);
        assert(s.skip(1) =~= e.skip(1) + seq![NL] + rest);
        lemma_first_line_of_prefix(e.skip(1), rest);
    }
}

/// Round-trip law: a list of entries none of which contains a
/// line-terminator byte decodes from its encoding unchanged.
pub proof fn lemma_round_trip(entries: Seq<Seq<u8>>)
    requires
        entries_ok(entries),
    ensures
        decode(encode(entries)) == entries,
    decreases entries.len(),
{
    if entries.len() == 0 {
        assert(decode(encode(entries)) =~~= entries);
    } else {
        let e0 = entries[0];
        let rest = encode(entries.skip(1));
        let s = encode(entries);
        assert(entry_ok(e0));
        lemma_first_line_of_prefix(e0, rest);
        let n = first_line_len(s);
        assert(n == e0.len());
        assert(n < s.len());
        assert(s.take(n as int) =~= e0);
        assert(strip_cr(e0) =~= e0);
        assert(s.skip(n as int + 1) =~= rest);
        assert(entries_ok(entries.skip(1)));
        lemma_round_trip(entries.skip(1));
        assert(decode(s) =~~= entries);
    }
}

/// Serializes a list of entries into the byte layout of the storage file.
pub fn encode_entries(entries: &Vec<Entry>) -> (r: Vec<u8>)
    ensures
        r@ == encode(entries_view(entries@)),
{
    let mut out: Vec<u8> = Vec::new();
    let mut i: usize = 0;
    while i < entries.len()
        invariant
            i <= entries.len(),
            out@ == encode(entries_view(entries@).take(i as int)),
        decreases entries.len() - i,
    {
        let e = &entries[i];
        let mut j: usize = 0;
        while j < e.len()
            invariant
                j <= e.len(),
                i < entries.len(),
                e@ == entries@[i as int]@,
                out@ == encode(entries_view(entries@).take(i as int)) + e@.take(j as int),
            decreases e.len() - j,
        {
            out.push(e[j]);
            proof {
                assert(out@ =~= encode(entries_view(entries@).take(i as int)) + e@.take(
                    j as int + 1,
                ));
            }
            j += 1;
        }
        out.push(NL);
        proof {
            lemma_encode_take_step(entries_view(entries@), i as int);
            assert(e@.take(e@.len() as int) =~= e@);
            assert(out@ =~= encode(entries_view(entries@).take(i as int + 1)));
        }
        i += 1;
    }
    proof {
        assert(entries_view(entries@).take(entries@.len() as int) =~= entries_view(entries@));
    }
    out
}

/// Encoding one more entry appends that entry and a line feed.
proof fn lemma_encode_take_step(s: Seq<Seq<u8>>, i: int)
    requires
        0 <= i < s.len(),
    ensures
        encode(s.take(i + 1)) == encode(s.take(i)) + s[i] + seq![NL],
{
    assert(s.take(i + 1) =~= s.take(i) + seq![s[i]]);
    lemma_encode_concat(s.take(i), seq![s[i]]);
    let single = seq![s[i]];
    assert(single.skip(1) =~= Seq::<Seq<u8>>::empty());
    assert(encode(single.skip(1)) == Seq::<u8>::empty());
    assert(encode(single) == single[0] + seq![NL] + encode(single.skip(1)));
    assert(encode(single) =~= s[i] + seq![NL]);
    assert(encode(s.take(i)) + encode(single) =~= encode(s.take(i)) + s[i] + seq![NL]);
}

/// Encoding distributes over concatenation of entry lists.
proof fn lemma_encode_concat(a: Seq<Seq<u8>>, b: Seq<Seq<u8>>)
    ensures
        encode(a + b) == encode(a) + encode(b),
    decreases a.len(),
{
    if a.len() == 0 {
        assert(a + b =~= b);
        assert(encode(a) + encode(b) =~= encode(b));
    } else {
        assert((a + b).skip(1) =~= a.skip(1) + b);
        lemma_encode_concat(a.skip(1), b);
        assert((a + b)[0] == a[0]);
        assert(encode(a + b) =~= encode(a) + encode(b));
    }
}

/// Parses the byte contents of the storage file into its list of entries.
pub fn decode_lines(bytes: &Vec<u8>) -> (r: Vec<Entry>)
    ensures
        entries_view(r@) == decode(bytes@),
{
    let mut out: Vec<Entry> = Vec::new();
    let mut pos: usize = 0;
    proof {
        assert(bytes@.skip(0) =~= bytes@);
        assert(entries_view(out@) =~= Seq::<Seq<u8>>::empty());
        assert(entries_view(out@) + decode(bytes@.skip(0)) =~= decode(bytes@));
    }
    while pos < bytes.len()
        invariant
            pos <= bytes.len(),
            entries_view(out@) + decode(bytes@.skip(pos as int)) =~= decode(bytes@),
        decreases bytes.len() - pos,
    {
        let ghost prev_pos = pos as int;
        let mut j: usize = pos;
        while j < bytes.len() && bytes[j] != NL
            invariant
                pos <= j <= bytes.len(),
                forall|k: int| pos <= k < j ==> bytes@[k] != NL,
            decreases bytes.len() - j,
        {
            j += 1;
        }
        let mut end: usize = j;
        if end > pos && bytes[end - 1] == CR {
            end -= 1;
        }
        let mut line: Vec<u8> = Vec::new();
        let mut k: usize = pos;
        while k < end
            invariant
                pos <= k <= end <= bytes.len(),
                line@ == bytes@.subrange(pos as int, k as int),
            decreases end - k,
        {
            line.push(bytes[k]);
            proof {
                assert(line@ =~= bytes@.subrange(pos as int, k as int + 1));
            }
            k += 1;
        }
        proof {
            lemma_decode_split(bytes@, pos as int, j as int);
            assert(line@ =~= strip_cr(bytes@.subrange(pos as int, j as int)));
        }
        out.push(line);
        if j < bytes.len() {
            pos = j + 1;
        } else {
            pos = j;
        }
        proof {
            assert(entries_view(out@) =~= entries_view(out@.drop_last()) + seq![
                strip_cr(bytes@.subrange(prev_pos, j as int)),
            ]);
            assert(entries_view(out@) + decode(bytes@.skip(pos as int)) =~= decode(bytes@));
        }
    }
    proof {
        assert(bytes@.skip(bytes@.len() as int) =~= Seq::<u8>::empty());
        assert(entries_view(out@) + decode(bytes@.skip(pos as int)) =~= entries_view(out@));
        assert(entries_view(out@) =~= decode(bytes@));
    }
    out
}

/// Splitting off the first line: when no line feed stands in `[pos, j)` and
/// `j` is the end of the bytes or a line feed, the suffix from `pos` decodes
/// to that line followed by the decoding of what comes after it.
proof fn lemma_decode_split(bytes: Seq<u8>, pos: int, j: int)
    requires
        0 <= pos <= j <= bytes.len(),
        pos < bytes.len(),
        forall|k: int| pos <= k < j ==> bytes[k] != NL,
        j < bytes.len() ==> bytes[j] == NL,
    ensures
        j < bytes.len() ==> decode(bytes.skip(pos)) == seq![
            strip_cr(bytes.subrange(pos, j)),
        ] + decode(bytes.skip(j + 1)),
        j == bytes.len() ==> decode(bytes.skip(pos)) == seq![strip_cr(bytes.subrange(pos, j))],
{
    let s = bytes.skip(pos);
    assert(s.len() == bytes.len() - pos > 0);
    let n = first_line_len(s);
    lemma_line_len_determined(s, j - pos);
    assert(n == j - pos);
    if j < bytes.len() {
        assert(n < s.len());
        assert(s.take(n as int) =~= bytes.subrange(pos, j));
        assert(s.skip(n as int + 1) =~= bytes.skip(j + 1));
    } else {
        assert(n == s.len());
        assert(s =~= bytes.subrange(pos, j));
    }
}

/// The first line of a byte string ends exactly at its first line feed.
proof fn lemma_line_len_determined(s: Seq<u8>, m: int)
    requires
        0 <= m <= s.len(),
        forall|k: int| 0 <= k < m ==> s[k] != NL,
        m < s.len() ==> s[m] == NL,
    ensures
        first_line_len(s) == m,
    decreases m,
{
    if m == 0 {
    } else {
        assert(s[0] != NL);
        assert forall|k: int| 0 <= k < m - 1 implies s.skip(1)[k] != NL by {
            assert(s.skip(1)[k] == s[k + 1]);
        }
        lemma_line_len_determined(s.skip(1), m - 1);
    }
}

} // verus!
