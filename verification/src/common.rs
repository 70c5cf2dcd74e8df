use vstd::prelude::*;

verus! {

/// Something that takes values handed to it, such as a callback.
pub trait Consumer<T> {
    /// Whether `value` may be handed to this consumer.
    spec fn accepts(&self, value: T) -> bool;

    /// What holds once `value` has been handed to this consumer.
    spec fn accepted(&self, value: T) -> bool;

    /// Hands `value` to the consumer.
    fn accept(&self, value: T)
        requires
            self.accepts(value),
        ensures
            self.accepted(value),
    ;
}

/// A closure consumes a value by being called with it once.
impl<T, F: Fn(T)> Consumer<T> for F {
    open spec fn accepts(&self, value: T) -> bool {
        call_requires(*self, (value,))
    }

    open spec fn accepted(&self, value: T) -> bool {
        call_ensures(*self, (value,), ())
    }

    fn accept(&self, value: T) {
        self(value)
    }
}

} // verus!
