//! An option type that always carries a payload, so that it has a fixed layout.
use vstd::prelude::*;

verus! {

/// A value that may be absent. The flag says whether the payload is meaningful;
/// when it is not, the payload is the type's default value.
pub struct DOption<T>(pub bool, pub T) where T: Default;

impl<T> DOption<T> where T: Default {
    /// A present value.
    pub fn some(item: T) -> (r: DOption<T>)
        ensures
            r.0,
            r.1 == item,
    {
        DOption(true, item)
    }

    /// An absent value.
    pub fn none() -> (r: DOption<T>)
        ensures
            !r.0,
    {
        DOption(false, T::default())
    }

    /// The payload when present, `default` otherwise.
    pub fn unwrap_or_default(self, default: T) -> (r: T)
        ensures
            self.0 ==> r == self.1,
            !self.0 ==> r == default,
    {
        match self {
            DOption(true, item) => item,
            DOption(false, _) => default,
        }
    }
}

} // verus!
