//! A set of MIDI data bytes with constant-time membership and no allocation.

use vstd::prelude::*;

verus! {

/// A set of note numbers, one flag for each value a byte can take.
#[derive(Clone, Copy, Debug)]
pub struct NoteSet {
    held: [bool; 256],
}

impl View for NoteSet {
    type V = Set<u8>;

    closed spec fn view(&self) -> Set<u8> {
        Set::new(|n: u8| self.held@[n as int])
    }
}

impl NoteSet {
    pub fn new() -> (s: NoteSet)
        ensures
            s@ == Set::<u8>::empty(),
    {
        let s = NoteSet { held: [false; 256] };
        assert(s@ =~= Set::<u8>::empty());
        s
    }

    pub fn insert(&mut self, note: u8)
        ensures
            final(self)@ == old(self)@.insert(note),
    {
        self.held[note as usize] = true;
        assert(self@ =~= old(self)@.insert(note));
    }

    pub fn remove(&mut self, note: u8)
        ensures
            final(self)@ == old(self)@.remove(note),
    {
        self.held[note as usize] = false;
        assert(self@ =~= old(self)@.remove(note));
    }

    pub fn contains(&self, note: u8) -> (b: bool)
        ensures
            b == self@.contains(note),
    {
        self.held[note as usize]
    }

    pub fn is_empty(&self) -> (b: bool)
        ensures
            b == (self@ == Set::<u8>::empty()),
    {
        let mut i: usize = 0;
        while i < 256
            invariant
                i <= 256,
                forall|n: u8| (n as int) < i ==> !self@.contains(n),
            decreases 256 - i,
        {
            if self.held[i] {
                assert(self@.contains(i as u8));
                return false;
            }
            i = i + 1;
        }
        assert(self@ =~= Set::<u8>::empty());
        true
    }

    pub fn clear(&mut self)
        ensures
            final(self)@ == Set::<u8>::empty(),
    {
        self.held = [false; 256];
        assert(self@ =~= Set::<u8>::empty());
    }
}

} // verus!
