//! An insertion-ordered string-to-string mapping.  A later entry for the
//! same key shadows an earlier one.  It serves as the variable-binding
//! scope, and as the file-content and command-output snapshots handed to
//! the evaluator.

use crate::text::str_eq;
use vstd::prelude::*;

verus! {

/// The mapping that a pair list denotes: a later pair for the same key
/// shadows an earlier one.
pub open spec fn map_of(ps: Seq<(String, String)>) -> Map<Seq<char>, Seq<char>>
    decreases ps.len(),
{
    if ps.len() == 0 {
        Map::empty()
    } else {
        map_of(ps.drop_last()).insert(ps.last().0@, ps.last().1@)
    }
}

pub struct StrMap {
    pub pairs: Vec<(String, String)>,
}

impl StrMap {
    pub open spec fn as_map(self) -> Map<Seq<char>, Seq<char>> {
        map_of(self.pairs@)
    }

    pub fn new() -> (r: StrMap)
        ensures
            r.as_map() == Map::<Seq<char>, Seq<char>>::empty(),
    {
        StrMap { pairs: Vec::new() }
    }

    /// Declares `name = value`: inserts the binding, shadowing any earlier
    /// binding of the same name.
    pub fn set(&mut self, name: String, value: String)
        ensures
            final(self).as_map() == old(self).as_map().insert(name@, value@),
    {
        let ghost gname = name@;
        let ghost gvalue = value@;
        self.pairs.push((name, value));
        proof {
            assert(self.pairs@.drop_last() =~= old(self).pairs@);
            assert(self.pairs@.last().0@ == gname && self.pairs@.last().1@ == gvalue);
        }
    }

    /// The value bound to `name`, if any; the most recent binding wins.
    pub fn get<'a>(&'a self, name: &str) -> (r: Option<&'a String>)
        ensures
            match r {
                Some(v) => self.as_map().contains_key(name@) && v@ == self.as_map()[name@],
                None => !self.as_map().contains_key(name@),
            },
    {
        proof {
            assert(self.pairs@.take(self.pairs@.len() as int) =~= self.pairs@);
        }
        Self::get_in(&self.pairs, name, self.pairs.len())
    }

    fn get_in<'a>(pairs: &'a Vec<(String, String)>, name: &str, n: usize) -> (r: Option<
        &'a String,
    >)
        requires
            n <= pairs@.len(),
        ensures
            match r {
                Some(v) => map_of(pairs@.take(n as int)).contains_key(name@) && v@ == map_of(
                    pairs@.take(n as int),
                )[name@],
                None => !map_of(pairs@.take(n as int)).contains_key(name@),
            },
        decreases n,
    {
        if n == 0 {
            None
        } else {
            proof {
                assert(pairs@.take(n as int).drop_last() =~= pairs@.take(n as int - 1));
                assert(pairs@.take(n as int).last() == pairs@[n as int - 1]);
            }
            let p = &pairs[n - 1];
            if str_eq(p.0.as_str(), name) {
                Some(&p.1)
            } else {
                Self::get_in(pairs, name, n - 1)
            }
        }
    }

    /// An independent copy, for crossing an inclusion boundary: later
    /// changes to either copy are invisible to the other.
    pub fn fork(&self) -> (r: StrMap)
        ensures
            r.as_map() == self.as_map(),
    {
        let mut v: Vec<(String, String)> = Vec::new();
        let mut i: usize = 0;
        while i < self.pairs.len()
            invariant
                i <= self.pairs@.len(),
                v@ == self.pairs@.take(i as int),
            decreases self.pairs@.len() - i,
        {
            let p = &self.pairs[i];
            let name = p.0.clone();
            let value = p.1.clone();
            v.push((name, value));
            proof {
                assert(v@ =~= self.pairs@.take(i as int + 1));
            }
            i = i + 1;
        }
        proof {
            assert(self.pairs@.take(self.pairs@.len() as int) =~= self.pairs@);
        }
        StrMap { pairs: v }
    }
}

} // verus!
