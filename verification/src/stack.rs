//! Operations on the stack itself: peek at the front, peek at everything,
//! take the front off, clear, and push new entries in front of or behind the
//! existing entries.

use vstd::prelude::*;

use crate::entry::{clone_entries, clone_entry, entries_view, Entry};

verus! {

/// The stack after new values are pushed in front: the values, in the order
/// given, ahead of the prior contents.
pub open spec fn push_front_spec(stack: Seq<Seq<u8>>, vals: Seq<Seq<u8>>) -> Seq<Seq<u8>> {
    vals + stack
}

/// The stack after new values are buried at the back: the prior contents
/// followed by the values, in the order given.
pub open spec fn push_back_spec(stack: Seq<Seq<u8>>, vals: Seq<Seq<u8>>) -> Seq<Seq<u8>> {
    stack + vals
}

/// Reports the front entry without changing anything; `None` on an empty
/// stack.
pub fn look(stack: &Vec<Entry>) -> (r: Option<Entry>)
    ensures
        stack@.len() == 0 ==> r is None,
        stack@.len() > 0 ==> (r matches Some(e) && e@ == entries_view(stack@)[0]),
{
    if stack.len() > 0 {
        Some(clone_entry(&stack[0]))
    } else {
        None
    }
}

/// Reports every entry, front to back, without changing anything.
pub fn look_all(stack: &Vec<Entry>) -> (r: Vec<Entry>)
    ensures
        entries_view(r@) == entries_view(stack@),
{
    clone_entries(stack)
}

/// Removes and returns the front entry; an empty stack is left unchanged and
/// reported as `None`.
pub fn take(stack: &mut Vec<Entry>) -> (r: Option<Entry>)
    ensures
        old(stack)@.len() == 0 ==> r is None && final(stack)@ == old(stack)@,
        old(stack)@.len() > 0 ==> (r matches Some(e) && e@ == entries_view(old(stack)@)[0]
            && entries_view(final(stack)@) == entries_view(old(stack)@).skip(1)),
{
    if stack.len() > 0 {
        let e = stack.remove(0);
        proof {
            assert(final(stack)@ =~= old(stack)@.skip(1));
            assert(entries_view(final(stack)@) =~= entries_view(old(stack)@).skip(1));
        }
        Some(e)
    } else {
        None
    }
}

/// An empty stack, the state that the clear operation persists.
pub fn clear() -> (r: Vec<Entry>)
    ensures
        entries_view(r@) == Seq::<Seq<u8>>::empty(),
{
    let r: Vec<Entry> = Vec::new();
    proof {
        assert(entries_view(r@) =~= Seq::<Seq<u8>>::empty());
    }
    r
}

/// Pushes new entries in front of or, when `back` holds, behind the stack.
pub fn put_append(stack: Vec<Entry>, new: Vec<Entry>, back: bool) -> (r: Vec<Entry>)
    ensures
        back ==> entries_view(r@) == push_back_spec(entries_view(stack@), entries_view(new@)),
        !back ==> entries_view(r@) == push_front_spec(entries_view(stack@), entries_view(new@)),
{
    let ghost old_stack = stack@;
    let ghost old_new = new@;
    let mut stack = stack;
    let mut new = new;
    if back {
        stack.append(&mut new);
        proof {
            assert(entries_view(stack@) =~= entries_view(old_stack) + entries_view(old_new));
        }
        stack
    } else {
        new.append(&mut stack);
        proof {
            assert(entries_view(new@) =~= entries_view(old_new) + entries_view(old_stack));
        }
        new
    }
}

/// Pushes new entries in front of the stack, first value frontmost.
pub fn push(stack: Vec<Entry>, new: Vec<Entry>) -> (r: Vec<Entry>)
    ensures
        entries_view(r@) == push_front_spec(entries_view(stack@), entries_view(new@)),
{
    put_append(stack, new, false)
}

/// Buries new entries behind the stack, in the order given.
pub fn bury(stack: Vec<Entry>, new: Vec<Entry>) -> (r: Vec<Entry>)
    ensures
        entries_view(r@) == push_back_spec(entries_view(stack@), entries_view(new@)),
{
    put_append(stack, new, true)
}

/// Pushes one externally supplied value, the current working directory, in
/// front of the stack.
pub fn push_cwd(stack: Vec<Entry>, cwd: &Entry) -> (r: Vec<Entry>)
    ensures
        entries_view(r@) == push_front_spec(entries_view(stack@), seq![cwd@]),
{
    let mut vals: Vec<Entry> = Vec::new();
    vals.push(clone_entry(cwd));
    proof {
        assert(entries_view(vals@) =~= seq![cwd@]);
    }
    push(stack, vals)
}

} // verus!
