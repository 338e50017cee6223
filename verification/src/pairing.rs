//! The pairing request: find the host's address, read the clock, replace the
//! shared secret and report the details.

use vstd::prelude::*;
use crate::pin::{pin_of, pin_text};
use crate::secret::{details_text, failure_text, AddressResolutionError, SharedSecret};

verus! {

/// `local_ip_address::Error`, carried as an opaque value.
#[verifier::external_type_specification]
#[verifier::external_body]
pub struct ExLookupError(local_ip_address::Error);

/// `std::time::SystemTime`, carried as an opaque value.
#[verifier::external_type_specification]
#[verifier::external_body]
pub struct ExSystemTime(std::time::SystemTime);

/// `local_ip_address::local_ip`, with the address it found written as text.
/// Nothing is claimed of the outcome: it depends on the machine's network
/// interfaces.
#[verifier::external_body]
fn lookup_local_address() -> (found: Result<String, local_ip_address::Error>) {
    match local_ip_address::local_ip() {
        Ok(ip) => Ok(ip.to_string()),
        Err(e) => Err(e),
    }
}

/// The `Display` text of a `local_ip_address::Error`. Nothing is claimed of
/// the text.
#[verifier::external_body]
fn describe_lookup_error(e: &local_ip_address::Error) -> (detail: String) {
    e.to_string()
}

/// `std::time::SystemTime::now`. Nothing is claimed of the reading.
#[verifier::external_body]
fn clock_now() -> (now: std::time::SystemTime) {
    std::time::SystemTime::now()
}

/// `std::time::SystemTime::duration_since` with `UNIX_EPOCH`: the time since
/// the epoch, or `None` where the reading lies before it. Nothing is claimed
/// of the duration.
#[verifier::external_body]
fn since_epoch(t: &std::time::SystemTime) -> (elapsed: Option<core::time::Duration>) {
    match t.duration_since(std::time::UNIX_EPOCH) {
        Ok(d) => Some(d),
        Err(_) => None,
    }
}

/// `core::time::Duration::as_millis`. Nothing is claimed of the number.
#[verifier::external_body]
fn whole_millis(d: &core::time::Duration) -> (millis: u128) {
    d.as_millis()
}

/// The clock in milliseconds since the epoch; 0 for a clock set before it.
fn unix_millis() -> (millis: u128) {
    let now = clock_now();
    match since_epoch(&now) {
        Some(elapsed) => whole_millis(&elapsed),
        None => 0,
    }
}

/// Handles a pairing request. Where no local address is found, the secret
/// stays as it was and the failure message comes back. Otherwise the secret
/// is replaced by the pairing code of some clock reading, and the details
/// returned carry the address found and that secret.
pub fn get_connection_details(state: &mut SharedSecret) -> (response: Result<String, String>)
    ensures
        match response {
            Ok(details) => exists|address: Seq<char>, now: nat|
                final(state)@ == pin_text(pin_of(now)) && details@ == details_text(
                    address,
                    final(state)@,
                ),
            Err(message) => final(state)@ == old(state)@ && exists|detail: Seq<char>|
                message@ == failure_text(detail),
        },
{
    match lookup_local_address() {
        Ok(address) => {
            let now: u128 = unix_millis();
            let details = state.pair(address.as_str(), now);
            assert(final(state)@ == pin_text(pin_of(now as nat)) && details@ == details_text(
                address@,
                final(state)@,
            ));
            Ok(details)
        },
        Err(e) => {
            let failure = AddressResolutionError { detail: describe_lookup_error(&e) };
            let message = failure.message();
            assert(message@ == failure_text(failure.detail@));
            Err(message)
        },
    }
}

} // verus!
