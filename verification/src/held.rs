//! The multiset of currently-held pitch classes.
//!
//! Each currently-sounding note contributes one entry, its MIDI note number
//! reduced modulo 12. Duplicate pitch classes from different octaves are kept
//! as separate entries, so releasing one note never erases another note's
//! contribution.

use vstd::prelude::*;

verus! {

/// Index of the first occurrence of `pc` in `s`, meaningful only when
/// `s.contains(pc)`.
pub open spec fn first_index(s: Seq<u8>, pc: u8) -> int
    decreases s.len(),
{
    if s.len() == 0 {
        0
    } else if s[0] == pc {
        0
    } else {
        1 + first_index(s.drop_first(), pc)
    }
}

/// The result of removing one occurrence of `pc` from `s` by overwriting the
/// first occurrence with the last element and dropping the last element; `s`
/// itself when `pc` is absent.
pub open spec fn swap_remove_first(s: Seq<u8>, pc: u8) -> Seq<u8> {
    if s.contains(pc) {
        s.update(first_index(s, pc), s.last()).drop_last()
    } else {
        s
    }
}

/// When `pc` occurs in `s`, `first_index` names a valid position holding it.
pub proof fn lemma_first_index_in_range(s: Seq<u8>, pc: u8)
    requires
        s.contains(pc),
    ensures
        0 <= first_index(s, pc) < s.len(),
        s[first_index(s, pc)] == pc,
    decreases s.len(),
{
    if s[0] != pc {
        let t = s.drop_first();
        let i = choose|i: int| 0 <= i < s.len() && s[i] == pc;
        assert(t[i - 1] == pc);
        assert(t.contains(pc));
        lemma_first_index_in_range(t, pc);
    }
}

/// The first occurrence found by a left-to-right scan is `first_index`.
proof fn lemma_first_index_of_scan(s: Seq<u8>, pc: u8, i: int)
    requires
        0 <= i < s.len(),
        s[i] == pc,
        forall|j: int| 0 <= j < i ==> s[j] != pc,
    ensures
        s.contains(pc),
        first_index(s, pc) == i,
    decreases i,
{
    assert(s.contains(pc));
    if i > 0 {
        let t = s.drop_first();
        assert(t[i - 1] == pc);
        assert(forall|j: int| 0 <= j < i - 1 ==> t[j] == s[j + 1] && t[j] != pc);
        lemma_first_index_of_scan(t, pc, i - 1);
    }
}

/// The currently-held pitch classes, in insertion order.
pub struct HeldKeys {
    collection: Vec<u8>,
}

impl View for HeldKeys {
    type V = Seq<u8>;

    closed spec fn view(&self) -> Seq<u8> {
        self.collection@
    }
}

impl HeldKeys {
    /// Every entry is a pitch class, a value in [0, 11].
    pub open spec fn wf(&self) -> bool {
        forall|i: int| 0 <= i < self@.len() ==> self@[i] < 12
    }

    /// An empty set: no notes are held at start.
    pub fn new() -> (hk: HeldKeys)
        ensures
            hk@ =~= Seq::<u8>::empty(),
            hk.wf(),
    {
        HeldKeys { collection: Vec::new() }
    }

    /// Appends one entry for a newly-sounding note.
    pub fn add_note(&mut self, pc: u8)
        requires
            pc < 12,
        ensures
            final(self)@ == old(self)@.push(pc),
            old(self).wf() ==> final(self).wf(),
    {
        self.collection.push(pc);
        proof {
            if old(self).wf() {
                assert forall|i: int| 0 <= i < self@.len() implies self@[i] < 12 by {
                    if i < old(self)@.len() {
                        assert(self@[i] == old(self)@[i]);
                    } else {
                        assert(self@[i] == pc);
                    }
                }
            }
        }
    }

    /// Removes the first matching entry by swapping in the last element, or
    /// leaves the set unchanged when `pc` is absent.
    pub fn remove_note(&mut self, pc: u8)
        ensures
            final(self)@ == swap_remove_first(old(self)@, pc),
            !old(self)@.contains(pc) ==> final(self)@ == old(self)@,
            old(self)@.contains(pc) ==> final(self)@.len() == old(self)@.len() - 1,
            old(self).wf() ==> final(self).wf(),
    {
        let ghost s = self.collection@;
        let mut i: usize = 0;
        while i < self.collection.len()
            invariant
                i <= self.collection.len(),
                s == old(self)@,
                self.collection@ == s,
                forall|j: int| 0 <= j < i ==> s[j] != pc,
            decreases self.collection.len() - i,
        {
            if self.collection[i] == pc {
                proof {
                    lemma_first_index_of_scan(s, pc, i as int);
                }
                self.collection.swap_remove(i);
                return;
            }
            i += 1;
        }
        assert(!s.contains(pc));
    }

    /// The current contents, as a fresh vector that encoding can consume
    /// without touching the live set.
    pub fn snapshot(&self) -> (r: Vec<u8>)
        ensures
            r@ == self@,
    {
        let mut out: Vec<u8> = Vec::new();
        let mut i: usize = 0;
        while i < self.collection.len()
            invariant
                i <= self.collection.len(),
                out@ =~= self.collection@.take(i as int),
            decreases self.collection.len() - i,
        {
            out.push(self.collection[i]);
            i += 1;
        }
        assert(out@ =~= self@);
        out
    }

    /// The number of held entries.
    pub fn len(&self) -> (n: usize)
        ensures
            n == self@.len(),
    {
        self.collection.len()
    }
}

} // verus!
