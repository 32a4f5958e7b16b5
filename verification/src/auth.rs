//! Generic authentication / binding flow for backends that require pairing.
//!
//! A caller loops: `authenticate(AuthInput::NoInput)`, acts on the returned
//! [`AuthState`], then calls `authenticate(...)` again until `Authed`.

use vstd::prelude::*;
use vstd::std_specs::convert::IntoSpec;

verus! {

/// The result of one step of a backend's auth/binding flow.
#[derive(Debug, Clone, PartialEq, Eq)]
pub enum AuthState {
    /// Fully authenticated and ready; the credential (if any) is saved.
    Authed,
    /// A physical confirmation is required on the device, then retry.
    PendingApproval {
        /// Human-readable instruction, e.g. "press & hold the power button".
        message: String,
    },
    /// A PIN/code is required; retry with [`AuthInput::Pin`].
    PinCode {
        /// Human-readable prompt.
        message: String,
    },
}

impl AuthState {
    /// A pending-approval state with the given instruction.
    pub fn approval<M: Into<String>>(message: M) -> (r: AuthState)
        ensures
            r is PendingApproval,
            M::obeys_into_spec() ==> r == (AuthState::PendingApproval {
                message: message.into_spec(),
            }),
            call_ensures(M::into, (message,), r->PendingApproval_message),
    {
        AuthState::PendingApproval { message: message.into() }
    }

    /// A pin-required state with the given prompt.
    pub fn pin<M: Into<String>>(message: M) -> (r: AuthState)
        ensures
            r is PinCode,
            M::obeys_into_spec() ==> r == (AuthState::PinCode { message: message.into_spec() }),
            call_ensures(M::into, (message,), r->PinCode_message),
    {
        AuthState::PinCode { message: message.into() }
    }

    /// Whether the flow is complete.
    pub fn is_authed(&self) -> (r: bool)
        ensures
            r == (*self is Authed),
    {
        match self {
            AuthState::Authed => true,
            _ => false,
        }
    }
}

/// Input provided to continue an auth flow.
#[derive(Debug, Clone, Default)]
pub enum AuthInput {
    /// Initial attempt, or a retry after completing a physical approval.
    #[default]
    NoInput,
    /// A PIN/code entered by the user.
    Pin(String),
}

impl AuthInput {
    /// The PIN string, if this is [`AuthInput::Pin`].
    pub fn pin(&self) -> (r: Option<&str>)
        ensures
            match self {
                AuthInput::Pin(p) => r is Some && r.unwrap()@ == p@,
                AuthInput::NoInput => r is None,
            },
    {
        match self {
            AuthInput::Pin(p) => Some(p.as_str()),
            AuthInput::NoInput => None,
        }
    }
}


/// `From<&str> for String`: the new string holds the same characters.
pub assume_specification<'a>[<String as std::convert::From<&'a str>>::from](s: &str) -> (r: String)
    ensures
        r@ == s@,
;

/// The reflexive `From<X> for X`: returns its argument unchanged.
pub assume_specification<X>[<X as std::convert::From<X>>::from](x: X) -> (r: X)
    ensures
        r == x,
;

} // verus!
