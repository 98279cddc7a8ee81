//! The lexically scoped label stack: a stack of namespaces.  Entering a
//! context pushes a fresh namespace; lookup resolves innermost first, so a
//! namespace inherits the visibility of all enclosing ones; leaving a context
//! pops the innermost namespace, and a label defined only in it becomes
//! unreachable afterward.

use vstd::prelude::*;

verus! {

/// Innermost-first resolution over a stack of namespaces.
pub open spec fn lookup_scopes(scopes: Seq<Map<Seq<char>, nat>>, name: Seq<char>) -> Option<nat>
    decreases scopes.len(),
{
    if scopes.len() == 0 {
        None
    } else if scopes.last().contains_key(name) {
        Some(scopes.last()[name])
    } else {
        lookup_scopes(scopes.drop_last(), name)
    }
}

/// The model of one namespace: the entries of the scope, a later entry for
/// the same name shadowing an earlier one.
pub open spec fn scope_map(entries: Seq<(String, usize)>) -> Map<Seq<char>, nat>
    decreases entries.len(),
{
    if entries.len() == 0 {
        Map::empty()
    } else {
        scope_map(entries.drop_last()).insert(entries.last().0@, entries.last().1 as nat)
    }
}

pub struct LabelStack {
    scopes: Vec<Vec<(String, usize)>>,
}

impl View for LabelStack {
    type V = Seq<Map<Seq<char>, nat>>;

    closed spec fn view(&self) -> Seq<Map<Seq<char>, nat>> {
        Seq::new(self.scopes@.len(), |i: int| scope_map(self.scopes@[i]@))
    }
}

/// Scans one scope for the last entry of the given name.
fn scope_get(entries: &Vec<(String, usize)>, name: &String) -> (r: Option<usize>)
    ensures
        match r {
            Some(v) => scope_map(entries@).contains_key(name@) && scope_map(entries@)[name@]
                == v as nat,
            None => !scope_map(entries@).contains_key(name@),
        },
{
    proof {
        assert(entries@.take(entries@.len() as int) =~= entries@);
    }
    let mut j: usize = entries.len();
    while j > 0
        invariant
            j <= entries.len(),
            scope_map(entries@).contains_key(name@) == scope_map(
                entries@.take(j as int),
            ).contains_key(name@),
            scope_map(entries@).contains_key(name@) ==> scope_map(entries@)[name@] == scope_map(
                entries@.take(j as int),
            )[name@],
        decreases j,
    {
        proof {
            assert(entries@.take(j as int).drop_last() =~= entries@.take(j as int - 1));
            assert(entries@.take(j as int).last() == entries@[j as int - 1]);
        }
        if entries[j - 1].0 == *name {
            return Some(entries[j - 1].1);
        }
        j = j - 1;
    }
    proof {
        assert(entries@.take(0).len() == 0);
    }
    None
}

impl LabelStack {
    /// An empty stack, with no namespace entered yet.
    pub fn new() -> (r: LabelStack)
        ensures
            r@ == Seq::<Map<Seq<char>, nat>>::empty(),
    {
        let r = LabelStack { scopes: Vec::new() };
        proof {
            assert(r@ =~= Seq::<Map<Seq<char>, nat>>::empty());
        }
        r
    }

    /// Pushes a fresh, empty namespace.
    pub fn enter_context(&mut self)
        ensures
            final(self)@ == old(self)@.push(Map::<Seq<char>, nat>::empty()),
    {
        self.scopes.push(Vec::new());
        proof {
            assert(self.scopes@.drop_last() =~= old(self).scopes@);
            assert(self@ =~= old(self)@.push(Map::<Seq<char>, nat>::empty()));
        }
    }

    /// Pops the innermost namespace.
    pub fn leave_context(&mut self)
        requires
            old(self)@.len() > 0,
        ensures
            final(self)@ == old(self)@.drop_last(),
    {
        let _ = self.scopes.pop();
        proof {
            assert(self@ =~= old(self)@.drop_last());
        }
    }

    /// Registers a label in the innermost namespace; a later registration of
    /// the same name shadows an earlier one in the same namespace.
    pub fn push(&mut self, name: String, mark: usize)
        requires
            old(self)@.len() > 0,
        ensures
            final(self)@ == old(self)@.update(
                old(self)@.len() - 1,
                old(self)@.last().insert(name@, mark as nat),
            ),
    {
        let mut scope = self.scopes.pop().unwrap();
        scope.push((name, mark));
        self.scopes.push(scope);
        proof {
            let inner = old(self).scopes@.last()@;
            assert(inner.push((name, mark)).drop_last() =~= inner);
            assert(self@ =~= old(self)@.update(
                old(self)@.len() - 1,
                old(self)@.last().insert(name@, mark as nat),
            ));
        }
    }

    /// Resolves a label name, innermost namespace first.
    pub fn get(&self, name: &String) -> (r: Option<usize>)
        ensures
            match r {
                Some(m) => lookup_scopes(self@, name@) == Some(m as nat),
                None => lookup_scopes(self@, name@) is None,
            },
    {
        proof {
            assert(self@.take(self@.len() as int) =~= self@);
        }
        let mut k: usize = self.scopes.len();
        while k > 0
            invariant
                k <= self.scopes.len(),
                lookup_scopes(self@, name@) == lookup_scopes(self@.take(k as int), name@),
            decreases k,
        {
            proof {
                assert(self@.take(k as int).drop_last() =~= self@.take(k as int - 1));
                assert(self@.take(k as int).last() == scope_map(self.scopes@[k as int - 1]@));
            }
            let found = scope_get(&self.scopes[k - 1], name);
            if let Some(v) = found {
                return Some(v);
            }
            k = k - 1;
        }
        proof {
            assert(self@.take(0).len() == 0);
        }
        None
    }
}

} // verus!
