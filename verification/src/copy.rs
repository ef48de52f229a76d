//! Copying and comparing values by what they say.
use crate::json::{Json, JsonModel};
use vstd::prelude::*;

verus! {

/// Values that can be copied.
pub trait Dup: DeepView + Sized {
    /// A copy that says the same.
    fn dup(&self) -> (r: Self)
        ensures
            r.deep_view() == self.deep_view(),
    ;
}

/// Values that can be compared.
pub trait Same: DeepView {
    /// What a value is compared by.
    spec fn plain_of(value: Self::V) -> Self::V;

    /// Whether both are equal.
    fn same(&self, other: &Self) -> (r: bool)
        ensures
            r == (Self::plain_of(self.deep_view()) == Self::plain_of(other.deep_view())),
    ;
}

impl Dup for String {
    fn dup(&self) -> (r: Self) {
        self.clone()
    }
}

impl Dup for u32 {
    fn dup(&self) -> (r: Self) {
        *self
    }
}

impl Dup for u64 {
    fn dup(&self) -> (r: Self) {
        *self
    }
}

impl Dup for Json {
    fn dup(&self) -> (r: Self) {
        Json::dup(self)
    }
}

impl<T: Dup> Dup for Option<T> {
    fn dup(&self) -> (r: Self) {
        match self {
            Some(t) => Some(t.dup()),
            None => None,
        }
    }
}

impl<T: Dup> Dup for Vec<T> {
    fn dup(&self) -> (r: Self) {
        let mut out: Vec<T> = Vec::new();
        let mut i: usize = 0;
        while i < self.len()
            invariant
                i == out@.len(),
                i <= self@.len(),
                forall|j: int|
                    0 <= j < i ==> (#[trigger] out@[j]).deep_view() == self@[j].deep_view(),
            decreases self@.len() - i,
        {
            out.push(self[i].dup());
            i += 1;
        }
        assert(out.deep_view() =~= self.deep_view());
        out
    }
}

impl Same for String {
    open spec fn plain_of(value: Seq<char>) -> Seq<char> {
        value
    }

    fn same(&self, other: &Self) -> (r: bool) {
        *self == *other
    }
}

impl Same for Json {
    open spec fn plain_of(value: JsonModel) -> JsonModel {
        value.plain()
    }

    fn same(&self, other: &Self) -> (r: bool) {
        Json::same(self, other)
    }
}

impl<T: Same> Same for Vec<T> {
    open spec fn plain_of(value: Seq<T::V>) -> Seq<T::V> {
        Seq::new(value.len(), |i: int| T::plain_of(value[i]))
    }

    fn same(&self, other: &Self) -> (r: bool) {
        let ghost x = Self::plain_of(self.deep_view());
        let ghost y = Self::plain_of(other.deep_view());
        if self.len() != other.len() {
            assert(x.len() != y.len());
            return false;
        }
        let mut i: usize = 0;
        while i < self.len()
            invariant
                i <= self@.len(),
                self@.len() == other@.len(),
                x == Self::plain_of(self.deep_view()),
                y == Self::plain_of(other.deep_view()),
                forall|j: int| 0 <= j < i ==> #[trigger] x[j] == y[j],
            decreases self@.len() - i,
        {
            assert(x[i as int] == T::plain_of(self@[i as int].deep_view()));
            assert(y[i as int] == T::plain_of(other@[i as int].deep_view()));
            if !self[i].same(&other[i]) {
                return false;
            }
            i += 1;
        }
        assert(x =~= y);
        true
    }
}

} // verus!
