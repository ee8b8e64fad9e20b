use vstd::prelude::*;

verus! {

/// A handle created on the caller's behalf, such as the far end of a pipe,
/// which can be taken out at most once.
pub struct PipeSlot<T> {
    held: Option<T>,
}

impl<T> PipeSlot<T> {
    /// What the slot holds.
    pub closed spec fn held(&self) -> Option<T> {
        self.held
    }

    /// A slot holding `h`, or nothing.
    pub fn new(h: Option<T>) -> (r: Self)
        ensures
            r.held() == h,
    {
        PipeSlot { held: h }
    }

    /// Takes the handle out. The slot is empty afterwards, so a second call
    /// gives nothing.
    pub fn take(&mut self) -> (r: Option<T>)
        ensures
            r == old(self).held(),
            final(self).held() is None,
    {
        let r = match self.held.take() {
            Some(h) => Some(h),
            None => None,
        };
        r
    }
}

} // verus!
