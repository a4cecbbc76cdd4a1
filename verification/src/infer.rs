//! A value together with how confidently it was inferred.

use vstd::prelude::*;

verus! {

/// Two different values were inferred at the same confidence.
#[derive(Debug)]
pub struct InferConflict;

/// A value with various levels of inference.
#[derive(Clone, Copy, Debug, PartialEq, Eq, Structural)]
pub enum Infer<T> {
    /// No value.
    Unset,
    Default(T),
    Calculated(T),
    Direct(T),
}

/// The confidence of an inferred value, higher is more confident.
pub open spec fn confidence<T>(i: Infer<T>) -> int {
    match i {
        Infer::Unset => 0,
        Infer::Default(_) => 1,
        Infer::Calculated(_) => 2,
        Infer::Direct(_) => 3,
    }
}

/// The value, if any.
pub open spec fn infer_value<T>(i: Infer<T>) -> Option<T> {
    match i {
        Infer::Unset => None,
        Infer::Default(v) | Infer::Calculated(v) | Infer::Direct(v) => Some(v),
    }
}

/// What setting `value` on `cur` gives: the new value, and whether it was
/// accepted.
pub open spec fn spec_set<T>(cur: Infer<T>, value: Infer<T>) -> (Infer<T>, bool) {
    if confidence(value) > confidence(cur) {
        (value, true)
    } else if confidence(value) < confidence(cur) {
        (cur, true)
    } else {
        (cur, value is Unset || infer_value(cur) == infer_value(value))
    }
}

/// Values that can be inferred: copied, and compared exactly.
pub trait InferValue: Copy {
    /// Whether two values are equal.
    fn same_value(&self, other: &Self) -> (r: bool)
        ensures
            r == (*self == *other),
    ;
}

impl InferValue for usize {
    fn same_value(&self, other: &Self) -> (r: bool) {
        *self == *other
    }
}

impl<T: InferValue> Infer<T> {
    /// Whether there is no value.
    pub fn is_none(&self) -> (r: bool)
        ensures
            r == (*self is Unset),
    {
        matches!(self, Infer::Unset)
    }

    /// Any value, whatever its confidence.
    pub fn some(self) -> (r: Option<T>)
        ensures
            r == infer_value(self),
    {
        match self {
            Infer::Unset => None,
            Infer::Default(v) | Infer::Calculated(v) | Infer::Direct(v) => Some(v),
        }
    }

    /// `Direct` or `Unset` from an option.
    pub fn direct(some: Option<T>) -> (r: Self)
        ensures
            r == match some {
                Some(v) => Infer::Direct(v),
                None => Infer::<T>::Unset,
            },
    {
        match some {
            None => Infer::Unset,
            Some(v) => Infer::Direct(v),
        }
    }

    /// Conditionally replaces the value: a value at a higher confidence replaces
    /// it, one at a lower confidence is ignored, the same value at the same
    /// confidence is ignored, and a different value at the same confidence is a
    /// conflict, which leaves the value unchanged.
    pub fn set(&mut self, value: Infer<T>) -> (r: Result<(), InferConflict>)
        ensures
            confidence(value) > confidence(*old(self)) ==> r is Ok && *final(self) == value,
            confidence(value) < confidence(*old(self)) ==> r is Ok && *final(self) == *old(self),
            confidence(value) == confidence(*old(self)) ==> *final(self) == *old(self),
            r is Ok <==> (confidence(value) != confidence(*old(self)) || value is Unset
                || infer_value(*old(self)) == infer_value(value)),
            (*final(self), r is Ok) == spec_set(*old(self), value),
    {
        match (*self, value) {
            (_, Infer::Unset) => Ok(()),
            (Infer::Direct(_), Infer::Calculated(_)) | (Infer::Direct(_), Infer::Default(_)) | (
                Infer::Calculated(_),
                Infer::Default(_),
            ) => Ok(()),
            (Infer::Unset, v) | (Infer::Default(_), v @ Infer::Direct(_)) | (
                Infer::Default(_),
                v @ Infer::Calculated(_),
            ) | (Infer::Calculated(_), v @ Infer::Direct(_)) => {
                *self = v;
                Ok(())
            },
            (Infer::Default(left), Infer::Default(right)) | (
                Infer::Calculated(left),
                Infer::Calculated(right),
            ) | (Infer::Direct(left), Infer::Direct(right)) => {
                if left.same_value(&right) {
                    Ok(())
                } else {
                    Err(InferConflict)
                }
            },
        }
    }

    /// Applies `f` to the value, keeping its confidence.
    pub fn map<U, F: FnOnce(T) -> U>(self, f: F) -> (r: Infer<U>)
        requires
            infer_value(self) matches Some(v) ==> f.requires((v,)),
        ensures
            confidence(r) == confidence(self),
            infer_value(self) matches Some(v) ==> infer_value(r) matches Some(u) && f.ensures((v,), u),
    {
        match self {
            Infer::Unset => Infer::Unset,
            Infer::Default(x) => Infer::Default(f(x)),
            Infer::Calculated(x) => Infer::Calculated(f(x)),
            Infer::Direct(x) => Infer::Direct(f(x)),
        }
    }

    /// Replaces no value with `Default(d)`.
    pub fn or_default(self, d: T) -> (r: Self)
        ensures
            r == match self {
                Infer::Unset => Infer::Default(d),
                other => other,
            },
    {
        match self {
            Infer::Unset => Infer::Default(d),
            other => other,
        }
    }
}

} // verus!
