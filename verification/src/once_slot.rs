use vstd::prelude::*;

verus! {

/// A slot that is filled once: the first value that is set stays, and every
/// later one is handed back.
#[derive(Debug, Clone)]
pub struct OnceSlot<T> {
    value: Option<T>,
}

impl<T> View for OnceSlot<T> {
    type V = Option<T>;

    /// The value, once one is set.
    closed spec fn view(&self) -> Option<T> {
        self.value
    }
}

impl<T> Default for OnceSlot<T> {
    fn default() -> (slot: OnceSlot<T>)
        ensures
            slot@ is None,
    {
        OnceSlot { value: None }
    }
}

impl<T> OnceSlot<T> {
    /// An empty slot.
    pub fn new() -> (slot: OnceSlot<T>)
        ensures
            slot@ is None,
    {
        OnceSlot { value: None }
    }

    /// Sets the value of an empty slot. A slot that is set keeps its value
    /// and hands the new one back.
    pub fn set(&mut self, value: T) -> (result: Result<(), T>)
        ensures
            match result {
                Ok(()) => old(self)@ is None && final(self)@ == Some(value),
                Err(refused) => old(self)@ is Some && *final(self) == *old(self) && refused
                    == value,
            },
    {
        if self.value.is_some() {
            Err(value)
        } else {
            self.value = Some(value);
            Ok(())
        }
    }

    /// The value, once one is set.
    pub fn get(&self) -> (value: Option<&T>)
        ensures
            match value {
                Some(value) => self@ == Some(*value),
                None => self@ is None,
            },
    {
        self.value.as_ref()
    }

    /// Whether a value is set.
    pub fn is_set(&self) -> (set: bool)
        ensures
            set == self@ is Some,
    {
        self.value.is_some()
    }
}

} // verus!
