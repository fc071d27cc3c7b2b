//! Console variables: the engine-independent state of one variable.
//!
//! The host engine owns the real variable storage; this models what the
//! editor reads of it — the name and default value as byte strings, whether
//! the variable is currently registered, and whether its value is non-zero.

use vstd::prelude::*;

verus! {

/// A byte string that can be handed to the engine: non-empty, ends with the
/// terminator byte, and holds no interior terminator.
pub open spec fn c_string_wf(b: Seq<u8>) -> bool {
    &&& b.len() >= 1
    &&& b[b.len() - 1] == 0
    &&& forall|i: int| 0 <= i < b.len() - 1 ==> b[i] != 0
}

/// Checks [`c_string_wf`] on a byte string.
pub fn is_valid_c_string(b: &Vec<u8>) -> (r: bool)
    ensures
        r == c_string_wf(b@),
{
    let n = b.len();
    if n == 0 {
        return false;
    }
    if b[n - 1] != 0 {
        return false;
    }
    let mut i: usize = 0;
    while i < n - 1
        invariant
            n == b@.len(),
            n >= 1,
            i <= n - 1,
            forall|j: int| 0 <= j < i ==> b@[j] != 0,
            b@[n - 1] == 0,
        decreases n - 1 - i,
    {
        if b[i] == 0 {
            return false;
        }
        i = i + 1;
    }
    true
}

/// Console variable.
#[derive(Debug, Clone, PartialEq)]
pub struct CVar {
    /// Storage for the name, terminator included.
    pub name: Vec<u8>,
    /// Storage for the default value, terminator included.
    pub default_value: Vec<u8>,
    /// Whether the variable is currently registered in the engine.
    pub registered: bool,
    /// Whether the engine last held a non-zero value for it.
    pub nonzero: bool,
}

impl CVar {
    /// Creates a new, unregistered variable.
    pub fn new(name: Vec<u8>, default_value: Vec<u8>) -> (r: CVar)
        ensures
            r.name@ == name@,
            r.default_value@ == default_value@,
            !r.registered,
            !r.nonzero,
    {
        CVar { name, default_value, registered: false, nonzero: false }
    }

    /// Returns `true` if the variable is currently registered in the engine.
    pub fn is_registered(&self) -> (r: bool)
        ensures
            r == self.registered,
    {
        self.registered
    }

    /// Returns the `bool` value of the variable: whether its engine value is
    /// non-zero. Only a registered variable has one.
    pub fn as_bool(&self) -> (r: bool)
        requires
            self.registered,
        ensures
            r == self.nonzero,
    {
        self.nonzero
    }

    /// Marks the variable as registered, as the engine does when it accepts
    /// it. Its name and default value must be engine-safe byte strings.
    pub fn register(&mut self)
        requires
            !old(self).registered,
            c_string_wf(old(self).name@),
            c_string_wf(old(self).default_value@),
        ensures
            *final(self) == (CVar { registered: true, ..*old(self) }),
    {
        self.registered = true;
    }

    /// Marks the variable as not registered, once the engine holds no
    /// reference to it.
    pub fn mark_as_not_registered(&mut self)
        ensures
            *final(self) == (CVar { registered: false, ..*old(self) }),
    {
        self.registered = false;
    }

    /// Records the engine's current value for a registered variable.
    pub fn set_nonzero(&mut self, nonzero: bool)
        requires
            old(self).registered,
        ensures
            *final(self) == (CVar { nonzero, ..*old(self) }),
    {
        self.nonzero = nonzero;
    }
}

/// The console-variable module itself.
pub struct CVars;

impl CVars {
    /// The module's display name.
    pub fn name(&self) -> (r: &'static str)
        ensures
            r@ == "Console variables"@,
    {
        "Console variables"
    }

    /// Whether the module can work: every engine entry point it relies on
    /// was found.
    pub fn is_enabled(
        &self,
        memory_init: bool,
        host_shutdown: bool,
        register_variable: bool,
        z_free: bool,
        cvar_vars: bool,
    ) -> (r: bool)
        ensures
            r == (memory_init && host_shutdown && register_variable && z_free && cvar_vars),
    {
        memory_init && host_shutdown && register_variable && z_free && cvar_vars
    }
}

} // verus!
