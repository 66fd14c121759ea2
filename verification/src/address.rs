use vstd::prelude::*;

verus! {

/// The identity of a principal: a creator, a payer, a subscriber, the platform
/// or a token. Two addresses name the same principal exactly when their texts
/// are equal.
#[derive(Debug, Eq)]
pub struct Address {
    id: String,
}

impl View for Address {
    type V = Seq<char>;

    closed spec fn view(&self) -> Seq<char> {
        self.id@
    }
}

impl Address {
    /// The address written as `id`.
    pub fn new(id: String) -> (a: Address)
        ensures
            a@ == id@,
    {
        Address { id }
    }

    /// The text of the address.
    pub fn as_str(&self) -> (s: &str)
        ensures
            s@ == self@,
    {
        self.id.as_str()
    }
}

impl Clone for Address {
    fn clone(&self) -> (a: Address)
        ensures
            a == *self,
    {
        Address { id: self.id.clone() }
    }
}

impl PartialEq for Address {
    fn eq(&self, other: &Address) -> (r: bool) {
        self.id == other.id
    }
}

impl vstd::std_specs::cmp::PartialEqSpecImpl for Address {
    open spec fn obeys_eq_spec() -> bool {
        true
    }

    open spec fn eq_spec(&self, other: &Address) -> bool {
        self@ == other@
    }
}

} // verus!
