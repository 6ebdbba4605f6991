use vstd::prelude::*;

use crate::account::AccountId;

verus! {

/// A value with a mathematical model that exec code can compare and copy.
///
/// Ledger maps are keyed and valued by such types; their contents are stated
/// over the models, so that two keys are the same key exactly when their
/// models are equal.
pub trait Modeled: Sized {
    type Model;

    spec fn model(&self) -> Self::Model;

    fn model_eq(&self, other: &Self) -> (r: bool)
        ensures
            r == (self.model() == other.model()),
    ;

    fn duplicate(&self) -> (r: Self)
        ensures
            r.model() == self.model(),
    ;
}

impl Modeled for u8 {
    type Model = u8;

    open spec fn model(&self) -> u8 {
        *self
    }

    fn model_eq(&self, other: &u8) -> (r: bool) {
        *self == *other
    }

    fn duplicate(&self) -> (r: u8) {
        *self
    }
}

impl Modeled for u128 {
    type Model = u128;

    open spec fn model(&self) -> u128 {
        *self
    }

    fn model_eq(&self, other: &u128) -> (r: bool) {
        *self == *other
    }

    fn duplicate(&self) -> (r: u128) {
        *self
    }
}

impl Modeled for () {
    type Model = ();

    open spec fn model(&self) -> () {
        ()
    }

    fn model_eq(&self, other: &()) -> (r: bool) {
        true
    }

    fn duplicate(&self) -> (r: ()) {
        ()
    }
}

impl Modeled for AccountId {
    type Model = AccountId;

    open spec fn model(&self) -> AccountId {
        *self
    }

    fn model_eq(&self, other: &AccountId) -> (r: bool) {
        *self == *other
    }

    fn duplicate(&self) -> (r: AccountId) {
        *self
    }
}

impl<A: Modeled> Modeled for Option<A> {
    type Model = Option<A::Model>;

    open spec fn model(&self) -> Option<A::Model> {
        match self {
            Some(a) => Some(a.model()),
            None => None,
        }
    }

    fn model_eq(&self, other: &Option<A>) -> (r: bool) {
        match (self, other) {
            (Some(a), Some(b)) => a.model_eq(b),
            (None, None) => true,
            _ => false,
        }
    }

    fn duplicate(&self) -> (r: Option<A>) {
        match self {
            Some(a) => Some(a.duplicate()),
            None => None,
        }
    }
}

impl<A: Modeled, B: Modeled> Modeled for (A, B) {
    type Model = (A::Model, B::Model);

    open spec fn model(&self) -> (A::Model, B::Model) {
        (self.0.model(), self.1.model())
    }

    fn model_eq(&self, other: &(A, B)) -> (r: bool) {
        self.0.model_eq(&other.0) && self.1.model_eq(&other.1)
    }

    fn duplicate(&self) -> (r: (A, B)) {
        (self.0.duplicate(), self.1.duplicate())
    }
}

impl<A: Modeled, B: Modeled, C: Modeled> Modeled for (A, B, C) {
    type Model = (A::Model, B::Model, C::Model);

    open spec fn model(&self) -> (A::Model, B::Model, C::Model) {
        (self.0.model(), self.1.model(), self.2.model())
    }

    fn model_eq(&self, other: &(A, B, C)) -> (r: bool) {
        self.0.model_eq(&other.0) && self.1.model_eq(&other.1) && self.2.model_eq(&other.2)
    }

    fn duplicate(&self) -> (r: (A, B, C)) {
        (self.0.duplicate(), self.1.duplicate(), self.2.duplicate())
    }
}

/// The models of a sequence of values, element by element.
pub open spec fn models<A: Modeled>(s: Seq<A>) -> Seq<A::Model> {
    s.map_values(|a: A| a.model())
}

/// A byte is its own model, so a byte string is too.
pub proof fn lemma_byte_models(s: Seq<u8>)
    ensures
        models(s) == s,
{
    assert(models(s) =~= s);
}

impl<A: Modeled> Modeled for Vec<A> {
    type Model = Seq<A::Model>;

    open spec fn model(&self) -> Seq<A::Model> {
        models(self@)
    }

    fn model_eq(&self, other: &Vec<A>) -> (r: bool) {
        if self.len() != other.len() {
            assert(self.model().len() != other.model().len());
            return false;
        }
        let mut i: usize = 0;
        while i < self.len()
            invariant
                self.len() == other.len(),
                0 <= i <= self.len(),
                forall|j: int| 0 <= j < i ==> self@[j].model() == other@[j].model(),
            decreases self.len() - i,
        {
            if !self[i].model_eq(&other[i]) {
                assert(self.model()[i as int] != other.model()[i as int]);
                return false;
            }
            i += 1;
        }
        assert(self.model() =~= other.model());
        true
    }

    fn duplicate(&self) -> (r: Vec<A>) {
        let mut out: Vec<A> = Vec::new();
        let mut i: usize = 0;
        while i < self.len()
            invariant
                0 <= i <= self.len(),
                out.len() == i,
                forall|j: int| 0 <= j < i ==> out@[j].model() == self@[j].model(),
            decreases self.len() - i,
        {
            out.push(self[i].duplicate());
            i += 1;
        }
        assert(out.model() =~= self.model());
        out
    }
}

} // verus!
