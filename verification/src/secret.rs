//! The shared pairing secret and the pairing details handed to the host.

use vstd::prelude::*;
use crate::pin::{pin_from_millis, pin_of, pin_text, pin_to_string};

verus! {

/// The port on which the control channel listens.
pub const PORT: u16 = 8765;

/// The failure of a pairing request: no reachable local address was found.
pub struct AddressResolutionError {
    /// What the address lookup reported.
    pub detail: String,
}

/// The text of the pairing details for an address and a secret.
pub open spec fn details_text(address: Seq<char>, secret: Seq<char>) -> Seq<char> {
    "{\"ip\": \""@ + address + "\", \"port\": 8765, \"token\": \""@ + secret + "\"}"@
}

/// The text shown to the user when the address lookup failed with `detail`.
pub open spec fn failure_text(detail: Seq<char>) -> Seq<char> {
    "Failed to get local IP: "@ + detail
}

impl AddressResolutionError {
    /// The message shown to the user.
    pub fn message(&self) -> (text: String)
        ensures
            text@ == failure_text(self.detail@),
    {
        let mut text = String::from_str("Failed to get local IP: ");
        text.append(self.detail.as_str());
        text
    }
}

/// Whether the secret `secret` accepts the claim `claimed`: the two are equal
/// and not empty.
pub open spec fn accepted(secret: Seq<char>, claimed: Seq<char>) -> bool {
    secret.len() > 0 && claimed == secret
}

/// The current pairing secret. It starts empty, and an empty secret accepts
/// no claim; each regeneration replaces it.
pub struct SharedSecret {
    code: String,
}

impl View for SharedSecret {
    type V = Seq<char>;

    closed spec fn view(&self) -> Seq<char> {
        self.code@
    }
}

impl SharedSecret {
    /// The secret of a process that has not paired yet.
    pub fn new() -> (secret: Self)
        ensures
            secret@ == Seq::<char>::empty(),
    {
        SharedSecret { code: String::new() }
    }

    /// Whether `claimed` equals the current secret. The empty secret accepts
    /// nothing.
    pub fn accepts(&self, claimed: &str) -> (ok: bool)
        ensures
            ok == accepted(self@, claimed@),
    {
        let claimed_owned = claimed.to_owned();
        !self.code.as_str().is_empty() && claimed_owned == self.code
    }

    /// The current secret as text.
    pub fn current(&self) -> (code: &str)
        ensures
            code@ == self@,
    {
        self.code.as_str()
    }

    /// Replaces the secret by the pairing code of the clock reading
    /// `now_millis` and returns that code.
    pub fn regenerate(&mut self, now_millis: u128) -> (pin: u32)
        ensures
            pin as nat == pin_of(now_millis as nat),
            final(self)@ == pin_text(pin as nat),
    {
        let pin = pin_from_millis(now_millis);
        self.code = pin_to_string(pin);
        pin
    }

    /// Replaces the secret for a host at `address` and returns the pairing
    /// details as text.
    pub fn pair(&mut self, address: &str, now_millis: u128) -> (details: String)
        ensures
            final(self)@ == pin_text(pin_of(now_millis as nat)),
            details@ == details_text(address@, final(self)@),
    {
        let _pin: u32 = self.regenerate(now_millis);
        let mut details = String::from_str("{\"ip\": \"");
        details.append(address);
        details.append("\", \"port\": 8765, \"token\": \"");
        details.append(self.code.as_str());
        details.append("\"}");
        details
    }
}

} // verus!
