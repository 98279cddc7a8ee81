//! Argument bindings of one macro activation: a mapping from declared
//! argument name to the already-lowered output item the caller supplied.
//! Created fresh per invocation and dropped when the activation completes.

use vstd::prelude::*;

use crate::items::{Asm, AsmV};

verus! {

/// The model of a binding list: a later entry for the same name shadows an
/// earlier one.
pub open spec fn bindings_map(entries: Seq<(String, Asm)>) -> Map<Seq<char>, AsmV>
    decreases entries.len(),
{
    if entries.len() == 0 {
        Map::empty()
    } else {
        bindings_map(entries.drop_last()).insert(entries.last().0@, entries.last().1@)
    }
}

pub struct Bindings {
    entries: Vec<(String, Asm)>,
}

impl View for Bindings {
    type V = Map<Seq<char>, AsmV>;

    closed spec fn view(&self) -> Map<Seq<char>, AsmV> {
        bindings_map(self.entries@)
    }
}

impl Bindings {
    /// An empty binding set.
    pub fn new() -> (r: Bindings)
        ensures
            r@ == Map::<Seq<char>, AsmV>::empty(),
    {
        Bindings { entries: Vec::new() }
    }

    /// Binds one argument name to an already-lowered value.
    pub fn bind(&mut self, name: String, value: Asm)
        ensures
            final(self)@ == old(self)@.insert(name@, value@),
    {
        self.entries.push((name, value));
        proof {
            assert(self.entries@.drop_last() =~= old(self).entries@);
        }
    }

    /// Looks the name up; the bound item is returned by value, as a copy.
    pub fn get(&self, name: &String) -> (r: Option<Asm>)
        ensures
            match r {
                Some(a) => self@.contains_key(name@) && self@[name@] == a@,
                None => !self@.contains_key(name@),
            },
    {
        proof {
            assert(self.entries@.take(self.entries@.len() as int) =~= self.entries@);
        }
        let mut j: usize = self.entries.len();
        while j > 0
            invariant
                j <= self.entries.len(),
                self@.contains_key(name@) == bindings_map(
                    self.entries@.take(j as int),
                ).contains_key(name@),
                self@.contains_key(name@) ==> self@[name@] == bindings_map(
                    self.entries@.take(j as int),
                )[name@],
            decreases j,
        {
            proof {
                assert(self.entries@.take(j as int).drop_last() =~= self.entries@.take(
                    j as int - 1,
                ));
                assert(self.entries@.take(j as int).last() == self.entries@[j as int - 1]);
            }
            if self.entries[j - 1].0 == *name {
                return Some(self.entries[j - 1].1);
            }
            j = j - 1;
        }
        proof {
            assert(self.entries@.take(0).len() == 0);
        }
        None
    }
}

} // verus!
