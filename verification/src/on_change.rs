use vstd::prelude::*;

verus! {

/// The state of a change handler: the last value set, and whether its system has been
/// initialized. The system itself is run by the caller, with the value handed out by
/// [`try_call`](OnChange::try_call). The state has one owner, so there is no copy of it
/// that could fall out of step.
#[derive(Debug, PartialEq, Eq)]
pub struct OnChange {
    value: String,
    has_initialized: bool,
}

/// What a call of the change handler's system needs: whether the system must first be
/// initialized, and the value to run it with.
#[derive(Debug, Clone, PartialEq, Eq)]
pub struct OnChangeCall {
    /// Whether the handler is invoked: always, since nothing else holds its state.
    pub invoked: bool,
    pub initialize: bool,
    pub value: String,
}

impl OnChange {
    /// The last value set.
    pub closed spec fn value_view(self) -> Seq<char> {
        self.value@
    }

    /// Whether the system has been initialized.
    pub closed spec fn initialized_view(self) -> bool {
        self.has_initialized
    }

    /// A handler with an empty value, not yet initialized.
    pub fn new() -> (r: Self)
        ensures
            r.value_view() == Seq::<char>::empty(),
            !r.initialized_view(),
    {
        OnChange { value: String::new(), has_initialized: false }
    }

    /// Sets the value handed to the next call.
    pub fn set_value(&mut self, value: String)
        ensures
            final(self).value_view() == value@,
            final(self).initialized_view() == old(self).initialized_view(),
    {
        self.value = value;
    }

    /// Prepares a call of the handler's system: the system is initialized on the first call
    /// only, and runs with a copy of the current value.
    pub fn try_call(&mut self) -> (r: OnChangeCall)
        ensures
            r.invoked,
            r.initialize == !old(self).initialized_view(),
            r.value@ == old(self).value_view(),
            final(self).initialized_view(),
            final(self).value_view() == old(self).value_view(),
    {
        let initialize = !self.has_initialized;
        self.has_initialized = true;
        OnChangeCall { invoked: true, initialize, value: self.value.clone() }
    }
}

} // verus!
