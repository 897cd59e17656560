//! Copying and comparing values by what they hold.

use vstd::prelude::*;

verus! {

/// A value that can be duplicated and compared through its deep view.
pub trait Content: DeepView + Sized {
    /// A second value with the same content.
    fn duplicate(&self) -> (copy: Self)
        ensures
            copy.deep_view() == self.deep_view(),
    ;

    /// Whether both values hold the same content.
    fn same_as(&self, other: &Self) -> (same: bool)
        ensures
            same == (self.deep_view() == other.deep_view()),
    ;
}

impl Content for u8 {
    fn duplicate(&self) -> (copy: Self) {
        *self
    }

    fn same_as(&self, other: &Self) -> (same: bool) {
        *self == *other
    }
}

impl Content for char {
    fn duplicate(&self) -> (copy: Self) {
        *self
    }

    fn same_as(&self, other: &Self) -> (same: bool) {
        *self == *other
    }
}

impl Content for String {
    fn duplicate(&self) -> (copy: Self) {
        self.clone()
    }

    fn same_as(&self, other: &Self) -> (same: bool) {
        *self == *other
    }
}

impl<A: Content, B: Content> Content for (A, B) {
    fn duplicate(&self) -> (copy: Self) {
        (self.0.duplicate(), self.1.duplicate())
    }

    fn same_as(&self, other: &Self) -> (same: bool) {
        self.0.same_as(&other.0) && self.1.same_as(&other.1)
    }
}

impl<T: Content> Content for Option<T> {
    fn duplicate(&self) -> (copy: Self) {
        match self {
            Some(value) => Some(value.duplicate()),
            None => None,
        }
    }

    fn same_as(&self, other: &Self) -> (same: bool) {
        match (self, other) {
            (Some(left), Some(right)) => left.same_as(right),
            (None, None) => true,
            _ => false,
        }
    }
}

impl<T: Content> Content for Vec<T> {
    fn duplicate(&self) -> (copy: Self) {
        let mut copy: Vec<T> = Vec::new();
        let mut index: usize = 0;
        while index < self.len()
            invariant
                index <= self.len(),
                copy@.len() == index,
                forall|i: int| 0 <= i < index ==> #[trigger] copy@[i].deep_view() == self@[i].deep_view(),
            decreases self.len() - index,
        {
            copy.push(self[index].duplicate());
            index += 1;
        }
        assert(copy.deep_view() =~= self.deep_view());
        copy
    }

    fn same_as(&self, other: &Self) -> (same: bool) {
        if self.len() != other.len() {
            assert(self.deep_view().len() != other.deep_view().len());
            return false;
        }
        let mut index: usize = 0;
        while index < self.len()
            invariant
                index <= self.len(),
                self.len() == other.len(),
                forall|i: int|
                    0 <= i < index ==> #[trigger] self@[i].deep_view() == other@[i].deep_view(),
            decreases self.len() - index,
        {
            if !self[index].same_as(&other[index]) {
                assert(self.deep_view()[index as int] != other.deep_view()[index as int]);
                return false;
            }
            index += 1;
        }
        assert(self.deep_view() =~= other.deep_view());
        true
    }
}

} // verus!
