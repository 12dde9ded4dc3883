use crate::marker::IdKind;
use vstd::prelude::*;

verus! {

/// A Discord snowflake identifier tagged with the kind of object it names.
#[derive(Clone, Copy, Debug, PartialEq, Eq, Hash, PartialOrd, Ord, Structural)]
pub struct Id<M> {
    value: u64,
    kind: M,
}

impl<M> View for Id<M> {
    type V = u64;

    closed spec fn view(&self) -> u64 {
        self.value
    }
}

impl<M: IdKind> Id<M> {
    /// Builds an id from a non-zero snowflake value.
    pub fn new(value: u64) -> (r: Self)
        requires
            value != 0,
        ensures
            r@ == value,
    {
        Id { value, kind: M::tag() }
    }

    /// Builds an id, or `None` when the value is zero (no snowflake is zero).
    pub fn new_checked(value: u64) -> (r: Option<Self>)
        ensures
            value == 0 ==> r is None,
            value != 0 ==> (r matches Some(id) && id@ == value),
    {
        if value == 0 {
            None
        } else {
            Some(Id { value, kind: M::tag() })
        }
    }
}

impl<M> Id<M> {
    /// The raw snowflake value.
    pub fn get(&self) -> (r: u64)
        ensures
            r == self@,
    {
        self.value
    }
}

/// Two ids of one kind are the same id exactly when their snowflakes agree.
pub proof fn lemma_id_view_injective<M: IdKind>(a: Id<M>, b: Id<M>)
    ensures
        a@ == b@ <==> a == b,
{
    M::lemma_single_value(a.kind, b.kind);
}

} // verus!
