use vstd::prelude::*;

verus! {

/// A name bound in an environment or referenced in an expression.
#[derive(Debug)]
pub struct Identifier {
    pub name: String,
}

impl View for Identifier {
    type V = Seq<char>;

    open spec fn view(&self) -> Seq<char> {
        self.name@
    }
}

impl Identifier {
    /// An identifier with the given name.
    pub fn new(name: &str) -> (r: Identifier)
        ensures
            r@ == name@,
    {
        Identifier { name: name.to_string() }
    }

    /// An identifier that takes ownership of the given name.
    pub fn new_owned(name: String) -> (r: Identifier)
        ensures
            r@ == name@,
    {
        Identifier { name }
    }

    /// A copy of this identifier that owns its name.
    pub fn deep_clone(&self) -> (r: Identifier)
        ensures
            r@ == self@,
    {
        Identifier { name: self.name.clone() }
    }
}

/// The names of a list of identifiers, in order.
pub open spec fn ids_view(v: &Vec<Identifier>) -> Seq<Seq<char>> {
    Seq::new(v.len() as nat, |i: int| v[i]@)
}

/// Whether a name occurs in a list of identifiers.
pub fn ids_contain(v: &Vec<Identifier>, name: &str) -> (r: bool)
    ensures
        r == ids_view(v).contains(name@),
{
    let mut i: usize = 0;
    while i < v.len()
        invariant
            i <= v.len(),
            forall|j: int| 0 <= j < i ==> v[j]@ != name@,
        decreases v.len() - i,
    {
        if crate::strings::str_eq(v[i].name.as_str(), name) {
            assert(ids_view(v)[i as int] == name@);
            return true;
        }
        i += 1;
    }
    assert(!ids_view(v).contains(name@)) by {
        if ids_view(v).contains(name@) {
            let j = choose|j: int| 0 <= j < ids_view(v).len() && ids_view(v)[j] == name@;
            assert(v[j]@ == name@);
        }
    }
    false
}

} // verus!
