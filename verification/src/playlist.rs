//! The playlist cursor: the ordered list of module file names, optionally
//! shuffled once at startup, with the index of the entry to load next.
//!
//! The cursor only hands out names; opening, reading and decoding a file is
//! the caller's business, and a failed load is handled by simply asking for
//! the next name.  Running past the end is the normal end-of-session
//! signal, not an error.

use vstd::prelude::*;
use rand::seq::SliceRandom;

verus! {

/// Shuffle the list in place.
///
/// Relies on rand's `SliceRandom::shuffle` (with the generator from
/// `rand::rng`), which permutes the slice in place by swaps: the entries
/// are reordered, none is added, dropped or changed.
#[verifier::external_body]
fn shuffle_strings(v: &mut Vec<String>)
    ensures
        final(v)@.len() == old(v)@.len(),
        final(v)@.map_values(|s: String| s@).to_multiset() == old(v)@.map_values(
            |s: String| s@,
        ).to_multiset(),
{
    v.as_mut_slice().shuffle(&mut rand::rng());
}

/// The ordered playlist and the index of the entry to hand out next.
pub struct PlaylistCursor {
    /// The file names, in play order.
    pub names: Vec<String>,
    /// The next entry to hand out; at or past the length, the playlist is
    /// exhausted.
    pub index: usize,
}

impl PlaylistCursor {
    /// A cursor over the given names, shuffled once if requested.  Shuffled
    /// or not, the entries are the same ones.
    pub fn new(names: Vec<String>, shuffle: bool) -> (c: Self)
        ensures
            c.index == 0,
            c.names@.len() == names@.len(),
            !shuffle ==> c.names@ == names@,
            c.names@.map_values(|s: String| s@).to_multiset() == names@.map_values(
                |s: String| s@,
            ).to_multiset(),
    {
        let mut names = names;
        if shuffle {
            shuffle_strings(&mut names);
        }
        PlaylistCursor { names, index: 0 }
    }

    /// Hand out the next entry and move past it, or report exhaustion.  The
    /// index never moves backwards and the list never changes.
    pub fn advance(&mut self) -> (r: Option<String>)
        ensures
            final(self).names@ == old(self).names@,
            old(self).index < old(self).names@.len() ==> {
                &&& final(self).index == old(self).index + 1
                &&& r matches Some(name) && name@ == old(self).names@[old(self).index as int]@
            },
            old(self).index >= old(self).names@.len() ==> final(self).index == old(self).index
                && r is None,
    {
        if self.index < self.names.len() {
            let name = self.names[self.index].clone();
            self.index = self.index + 1;
            Some(name)
        } else {
            None
        }
    }

    /// How many entries the playlist holds.
    pub fn len(&self) -> (n: usize)
        ensures
            n == self.names@.len(),
    {
        self.names.len()
    }

    /// The index of the entry `advance` would hand out next.
    pub fn position(&self) -> (i: usize)
        ensures
            i == self.index,
    {
        self.index
    }

    /// Whether every entry has been handed out.
    pub fn exhausted(&self) -> (b: bool)
        ensures
            b == (self.index >= self.names@.len()),
    {
        self.index >= self.names.len()
    }
}

} // verus!
