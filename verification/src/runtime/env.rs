use vstd::prelude::*;
use crate::identifier::{Identifier, ids_view};
use crate::value::{ValueMap, SValue, LambdaBinding, smap_combine, smap_override, smap_replace, smap_extract, smap_sorted};
use crate::strings::seq_lt;

verus! {

/// The bindings of names to values that an expression is evaluated in.
#[derive(Debug)]
pub struct Environment {
    pub bindings: ValueMap,
}

impl View for Environment {
    type V = Seq<(Seq<char>, SValue)>;

    open spec fn view(&self) -> Seq<(Seq<char>, SValue)> {
        self.bindings@
    }
}

impl Environment {
    /// The environment that binds nothing.
    pub fn new() -> (r: Environment)
        ensures
            r@ == Seq::<(Seq<char>, SValue)>::empty(),
            smap_sorted(r@),
    {
        Environment { bindings: ValueMap::new() }
    }

    /// Removes every binding.
    pub fn clear(&mut self)
        ensures
            final(self)@ == Seq::<(Seq<char>, SValue)>::empty(),
            smap_sorted(final(self)@),
    {
        self.bindings.clear();
    }

    /// The bound names, in increasing order.
    pub fn identifiers(&self) -> (r: Vec<Identifier>)
        ensures
            r.len() == self@.len(),
            forall|i: int| 0 <= i < r.len() ==> r[i]@ == #[trigger] self@[i].0,
            smap_sorted(self@),
            forall|i: int, j: int| 0 <= i < j < r.len() ==> seq_lt(#[trigger] r[i]@, #[trigger] r[j]@),
    {
        let keys = self.bindings.keys();
        let mut r: Vec<Identifier> = Vec::new();
        let mut i: usize = 0;
        while i < keys.len()
            invariant
                i <= keys.len(),
                keys.len() == self@.len(),
                forall|j: int| 0 <= j < keys.len() ==> keys[j]@ == #[trigger] self@[j].0,
                r.len() == i,
                forall|j: int| 0 <= j < i ==> r[j]@ == #[trigger] self@[j].0,
            decreases keys.len() - i,
        {
            r.push(Identifier { name: keys[i].clone() });
            i += 1;
        }
        assert forall|i: int, j: int| 0 <= i < j < r.len() implies seq_lt(#[trigger] r[i]@, #[trigger] r[j]@) by {
            assert(r[i]@ == self@[i].0 && r[j]@ == self@[j].0);
        }
        r
    }

    /// This environment with the bindings of `other` added, unless `other`
    /// binds a name that this environment binds to a different value.
    pub fn combine(&self, other: &Environment) -> (r: Option<Environment>)
        ensures
            match r {
                Some(e) => smap_combine(self@, other@) == Some(e@) && smap_sorted(e@),
                None => smap_combine(self@, other@).is_none(),
            },
    {
        match self.bindings.combine(&other.bindings) {
            Some(bindings) => Some(Environment { bindings }),
            None => None,
        }
    }

    /// This environment with the bindings of `other` added, the bindings of
    /// `other` winning.
    pub fn combine_with_override(&self, other: &Environment) -> (r: Environment)
        ensures
            r@ == smap_override(self@, other@),
            smap_sorted(r@),
    {
        Environment { bindings: self.bindings.combine_with_override(&other.bindings) }
    }

    /// Rebinds each name of `entries` that this environment binds already.
    pub fn replace(&mut self, entries: &ValueMap)
        ensures
            final(self)@ == smap_replace(old(self)@, entries@),
            smap_sorted(final(self)@),
    {
        self.bindings.replace(entries);
    }

    /// The bindings of the given names, if this environment binds them all.
    pub fn extract(&self, identifiers: &Vec<Identifier>) -> (r: Option<Environment>)
        ensures
            match r {
                Some(e) => smap_extract(self@, ids_view(identifiers), Seq::empty(), Seq::empty()) == Ok::<_, Seq<char>>(e@) && smap_sorted(e@),
                None => smap_extract(self@, ids_view(identifiers), Seq::empty(), Seq::empty()).is_err(),
            },
    {
        let none: Vec<Identifier> = Vec::new();
        assert(ids_view(&none) =~= Seq::<Seq<char>>::empty());
        match self.bindings.extract_except(identifiers, &none) {
            Ok(bindings) => Some(Environment { bindings }),
            Err(_) => None,
        }
    }

    /// The bindings of the names in `identifiers` that are not in
    /// `exceptions`, or the first such name that is not bound.
    pub fn extract_except(&self, identifiers: &Vec<Identifier>, exceptions: &Vec<Identifier>) -> (r: Result<Environment, Identifier>)
        ensures
            match r {
                Ok(e) => smap_extract(self@, ids_view(identifiers), ids_view(exceptions), Seq::empty()) == Ok::<_, Seq<char>>(e@) && smap_sorted(e@),
                Err(id) => smap_extract(self@, ids_view(identifiers), ids_view(exceptions), Seq::empty()) == Err::<Seq<(Seq<char>, SValue)>, _>(id@),
            },
    {
        match self.bindings.extract_except(identifiers, exceptions) {
            Ok(bindings) => Ok(Environment { bindings }),
            Err(id) => Err(id),
        }
    }

    /// A copy of this environment that owns all of its bindings.
    pub fn deep_clone(&self) -> (r: Environment)
        ensures
            r@ == self@,
            smap_sorted(r@),
    {
        Environment { bindings: self.bindings.deep_clone() }
    }
}

impl Default for Environment {
    fn default() -> (r: Environment)
        ensures
            r@ == Seq::<(Seq<char>, SValue)>::empty(),
    {
        Environment::new()
    }
}

impl LambdaBinding {
    /// Removes every captured binding.
    pub fn clear(&mut self)
        ensures
            final(self)@ == Seq::<(Seq<char>, SValue)>::empty(),
    {
        self.bindings.clear();
    }

    /// The captured names, in order.
    pub fn identifiers(&self) -> (r: Vec<Identifier>)
        ensures
            r.len() == self@.len(),
            forall|i: int| 0 <= i < r.len() ==> r[i]@ == #[trigger] self@[i].0,
    {
        let env = Environment { bindings: self.bindings.deep_clone() };
        env.identifiers()
    }

    /// These bindings with those of `other` added, unless `other` binds a
    /// name that these bind to a different value.
    pub fn combine(&self, other: &LambdaBinding) -> (r: Option<LambdaBinding>)
        ensures
            match r {
                Some(b) => smap_combine(self@, other@) == Some(b@),
                None => smap_combine(self@, other@).is_none(),
            },
    {
        match self.bindings.combine(&other.bindings) {
            Some(bindings) => Some(LambdaBinding { bindings }),
            None => None,
        }
    }

    /// Rebinds each name of `entries` that is captured already.
    pub fn replace(&mut self, entries: &ValueMap)
        ensures
            final(self)@ == smap_replace(old(self)@, entries@),
    {
        self.bindings.replace(entries);
    }

    /// Captures from `env` the names in `identifiers` that are not in
    /// `exceptions`; fails with the first such name that `env` does not bind.
    pub fn try_from_env(env: &Environment, identifiers: &Vec<Identifier>, exceptions: &Vec<Identifier>) -> (r: Result<LambdaBinding, Identifier>)
        ensures
            match r {
                Ok(b) => smap_extract(env@, ids_view(identifiers), ids_view(exceptions), Seq::empty()) == Ok::<_, Seq<char>>(b@),
                Err(id) => smap_extract(env@, ids_view(identifiers), ids_view(exceptions), Seq::empty()) == Err::<Seq<(Seq<char>, SValue)>, _>(id@),
            },
    {
        match env.bindings.extract_except(identifiers, exceptions) {
            Ok(bindings) => Ok(LambdaBinding { bindings }),
            Err(id) => Err(id),
        }
    }

    /// The environment that binds what these bindings capture.
    pub fn to_env(&self) -> (r: Environment)
        ensures
            r@ == self@,
    {
        Environment { bindings: self.bindings.deep_clone() }
    }
}


impl Default for LambdaBinding {
    /// A binding that captures nothing.
    fn default() -> (r: LambdaBinding)
        ensures
            r@ == Seq::<(Seq<char>, SValue)>::empty(),
    {
        LambdaBinding::new()
    }
}

} // verus!
