//! An ordered table of named string values.  It stands in for both the
//! task-file variable mapping and a snapshot of the process environment:
//! the caller takes the snapshot, the library only looks names up in it.
//! Lookup returns the value of the first entry whose name matches; a table
//! loaded from a mapping holds each name once, so first-match lookup agrees
//! with mapping lookup.
use vstd::prelude::*;
use crate::text::str_eq;

verus! {

/// The first value bound to `name` in an ordered association list.
pub open spec fn assoc_lookup<V>(pairs: Seq<(String, V)>, name: Seq<char>) -> Option<V>
    decreases pairs.len(),
{
    if pairs.len() == 0 {
        None
    } else if pairs[0].0@ == name {
        Some(pairs[0].1)
    } else {
        assoc_lookup(pairs.drop_first(), name)
    }
}

/// An ordered table of named string values.
pub struct Vars {
    pub pairs: Vec<(String, String)>,
}

impl Vars {
    /// A table with no entries.
    pub fn new() -> (r: Vars)
        ensures
            r.pairs@.len() == 0,
    {
        Vars { pairs: Vec::new() }
    }

    /// Appends a binding of `name` to `value`.
    pub fn add(&mut self, name: String, value: String)
        ensures
            final(self).pairs@ == old(self).pairs@.push((name, value)),
    {
        self.pairs.push((name, value));
    }

    /// The value of `name` in this table, if any.
    pub open spec fn lookup(self, name: Seq<char>) -> Option<Seq<char>> {
        match assoc_lookup(self.pairs@, name) {
            Some(v) => Some(v@),
            None => None,
        }
    }

    /// Looks `name` up, returning the value of the first matching entry.
    pub fn get(&self, name: &str) -> (r: Option<&String>)
        ensures
            match r {
                Some(v) => self.lookup(name@) == Some(v@),
                None => self.lookup(name@) is None,
            },
    {
        let n = self.pairs.len();
        let mut i: usize = 0;
        proof {
            assert(self.pairs@.skip(0) =~= self.pairs@);
        }
        while i < n
            invariant
                n == self.pairs@.len(),
                i <= n,
                assoc_lookup(self.pairs@, name@) == assoc_lookup(
                    self.pairs@.skip(i as int),
                    name@,
                ),
            decreases n - i,
        {
            let pair = &self.pairs[i];
            if str_eq(pair.0.as_str(), name) {
                proof {
                    assert(self.pairs@.skip(i as int)[0] == self.pairs@[i as int]);
                }
                return Some(&self.pairs[i].1);
            }
            proof {
                assert(self.pairs@.skip(i as int)[0] == self.pairs@[i as int]);
                assert(self.pairs@.skip(i as int).drop_first() =~= self.pairs@.skip(i + 1));
            }
            i = i + 1;
        }
        proof {
            assert(self.pairs@.skip(n as int).len() == 0);
        }
        None
    }
}

} // verus!
