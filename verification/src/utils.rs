//! Trusted boundary to the helpers the task runner takes from outside: the
//! system clock, a human-readable local timestamp, and the opaque encryption
//! of the conversion payload.

use vstd::prelude::*;
use rsa::pkcs8::DecodePublicKey;
use base64::Engine;

verus! {

/// Milliseconds since the Unix epoch, by the system clock.
///
/// Relies on `std::time::SystemTime::now`: the value depends on the wall
/// clock at the instant of the call, so nothing is promised of it. A clock
/// set before the epoch is reported as zero.
#[verifier::external_body]
fn epoch_millis() -> u128 {
    match std::time::SystemTime::now().duration_since(std::time::UNIX_EPOCH) {
        Ok(d) => d.as_millis(),
        Err(_) => 0,
    }
}

/// The system clock's reading, in milliseconds since the Unix epoch,
/// narrowed to the `i64` every timestamp of the rules is carried in. The
/// clock's value is not pinned, so nothing is promised of the result.
pub fn get_current_timestamp() -> i64 {
    let ms = epoch_millis();
    ms as i64
}

/// The local date and time, formatted `YYYY-MM-DD HH:MM:SS`.
///
/// Relies on chrono's `Local::now` and its `%F %T` formatting: the value
/// depends on the wall clock and the machine's time zone, so nothing is
/// promised of it.
#[verifier::external_body]
pub fn now() -> String {
    chrono::Local::now().format("%F %T").to_string()
}

/// Encrypts a conversion payload for the remote service.
///
/// Relies on rsa's `RsaPublicKey::encrypt` with OAEP over SHA-256 under the
/// service's fixed 2048-bit public key, on randomness from
/// `rand::thread_rng`, and on base64's `STANDARD` engine for the final
/// encoding. The padding draws fresh randomness, so two calls on one input
/// differ and nothing is promised of the result. A 2048-bit OAEP/SHA-256
/// message is limited to 190 bytes; the precondition keeps the input inside
/// that, so the call cannot fail.
#[verifier::external_body]
pub fn rsa_encrypt(t: &str) -> String
    requires
        t.is_ascii(),
        t@.len() <= 190,
{
    let pem = "-----BEGIN PUBLIC KEY-----\nMIIBIjANBgkqhkiG9w0BAQEFAAOCAQ8AMIIBCgKCAQEAwmkourU0WsNzc0mcb6a7\nxRBgN4FaA7ak/82zeIMBQf0/uTY42p3uW5IgSx56DpnuGnrFAYLDDDu96lhRNpNK\nr6uaIBuhX7tg+4m26KDAEDHyTWgXEsZkClTeAl15gP0NoKXYGCr+rGBe2uvjFVJU\nML+J9kPIVnJ99jxJ8EWiRJ9L/qhr5C04Z1QhNnF3fiaaeXlGgQLwwbSIKnc3ypuw\nE/0zrAGJ+1WiidCbQqqclGglpcSFWtF8znte+H/jlk1+0rypil4AkNPdN+mbAb8w\nHkQhWA50hXFxmCnIJjw10YfZAFkMzaFKNVZpOmnTvZrmlQShsOLUci8q45kN1jsU\npQIDAQAB\n-----END PUBLIC KEY-----";
    let public_key = rsa::RsaPublicKey::from_public_key_pem(pem).unwrap();
    let mut rng = rand::thread_rng();
    let padding = rsa::Oaep::new::<sha2::Sha256>();
    let encrypted = public_key.encrypt(&mut rng, padding, t.as_bytes()).unwrap();
    base64::engine::general_purpose::STANDARD.encode(&encrypted)
}

} // verus!
