//! Upstream provider wire formats.
use vstd::prelude::*;

verus! {

/// The wire format an upstream provider speaks.
#[derive(Clone, Copy, Debug, PartialEq, Eq, Structural)]
pub enum ProviderType {
    Responses,
    ChatCompletion,
    Messages,
    Gemini,
    Grok,
    Group,
}

/// What a request body's members unknown to the unified request get:
/// refused, dropped, or carried through.
#[derive(Clone, Copy, Debug, PartialEq, Eq, Structural)]
pub enum UnknownFieldPolicy {
    Reject,
    Ignore,
    Preserve,
}

} // verus!
