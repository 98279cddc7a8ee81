//! The global definition table: definition name to definition.  Read-only
//! during generation; owned by the caller and borrowed for the whole pass.

use vstd::prelude::*;

use crate::ast::Definition;

verus! {

/// The model of the table: a later entry for the same name shadows an
/// earlier one.
pub open spec fn defs_map(entries: Seq<(String, Definition)>) -> Map<Seq<char>, Definition>
    decreases entries.len(),
{
    if entries.len() == 0 {
        Map::empty()
    } else {
        defs_map(entries.drop_last()).insert(entries.last().0@, entries.last().1)
    }
}

pub struct Definitions {
    entries: Vec<(String, Definition)>,
}

impl View for Definitions {
    type V = Map<Seq<char>, Definition>;

    closed spec fn view(&self) -> Map<Seq<char>, Definition> {
        defs_map(self.entries@)
    }
}

impl Definitions {
    /// An empty table.
    pub fn new() -> (r: Definitions)
        ensures
            r@ == Map::<Seq<char>, Definition>::empty(),
    {
        Definitions { entries: Vec::new() }
    }

    /// Adds a definition under the given name.
    pub fn insert(&mut self, name: String, def: Definition)
        ensures
            final(self)@ == old(self)@.insert(name@, def),
    {
        self.entries.push((name, def));
        proof {
            assert(self.entries@.drop_last() =~= old(self).entries@);
        }
    }

    /// Looks a definition up by name.
    pub fn get(&self, name: &String) -> (r: Option<&Definition>)
        ensures
            match r {
                Some(d) => self@.contains_key(name@) && *d == self@[name@],
                None => !self@.contains_key(name@),
            },
    {
        proof {
            assert(self.entries@.take(self.entries@.len() as int) =~= self.entries@);
        }
        let mut j: usize = self.entries.len();
        while j > 0
            invariant
                j <= self.entries.len(),
                self@.contains_key(name@) == defs_map(
                    self.entries@.take(j as int),
                ).contains_key(name@),
                self@.contains_key(name@) ==> self@[name@] == defs_map(
                    self.entries@.take(j as int),
                )[name@],
            decreases j,
        {
            proof {
                assert(self.entries@.take(j as int).drop_last() =~= self.entries@.take(
                    j as int - 1,
                ));
                assert(self.entries@.take(j as int).last() == self.entries@[j as int - 1]);
            }
            if self.entries[j - 1].0 == *name {
                return Some(&self.entries[j - 1].1);
            }
            j = j - 1;
        }
        proof {
            assert(self.entries@.take(0).len() == 0);
        }
        None
    }
}

} // verus!
