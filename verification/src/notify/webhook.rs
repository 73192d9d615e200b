//! Webhook notifications signed with HMAC-SHA256.
//!
//! The payload is built and posted by the application; the library decides
//! the signature header value.

use crate::auth::service::{encode, spec_hex};
use crate::error::AppError;
use crate::text::utf8_bytes;
use hmac::Mac;
use vstd::prelude::*;

verus! {

/// The HMAC-SHA256 tag of a message under a key.
pub uninterp spec fn hmac_sha256_tag(key: Seq<u8>, message: Seq<u8>) -> Seq<u8>;

/// HMAC-SHA256 of `message` under `key`.
///
/// Wraps `Hmac::<Sha256>::new_from_slice(key)`, `update(message)` and
/// `finalize()`; the tag is named by `hmac_sha256_tag`. HMAC takes keys of
/// any length (a longer one is hashed first), so `new_from_slice` never
/// fails for this digest and the result is always `Ok`.
#[verifier::external_body]
fn hmac_sha256(key: &[u8], message: &[u8]) -> (res: Result<Vec<u8>, String>)
    ensures
        res is Ok,
        match res {
            Ok(t) => t@ == hmac_sha256_tag(key@, message@),
            Err(_) => false,
        },
{
    let mut mac = hmac::Hmac::<sha2::Sha256>::new_from_slice(key).map_err(|e| e.to_string())?;
    mac.update(message);
    Ok(mac.finalize().into_bytes().to_vec())
}

/// Webhook notifier: posts to a URL, signing each payload with a secret.
pub struct WebhookNotifier {
    pub url: String,
    pub secret: String,
}

impl WebhookNotifier {
    /// Create a notifier for a URL and signing secret.
    pub fn new(url: String, secret: String) -> (res: Self)
        ensures
            res.url == url,
            res.secret == secret,
    {
        WebhookNotifier { url, secret }
    }

    /// The signature header value of a payload: the lowercase hex of its
    /// HMAC-SHA256 tag under the notifier's secret. It is always produced.
    pub fn signature(&self, payload: &str) -> (res: Result<String, AppError>)
        ensures
            res matches Ok(s) && s@ == spec_hex(
                hmac_sha256_tag(utf8_bytes(self.secret@), utf8_bytes(payload@)),
            ),
    {
        match hmac_sha256(self.secret.as_str().as_bytes(), payload.as_bytes()) {
            Ok(tag) => Ok(encode(tag.as_slice())),
            Err(m) => {
                let mut msg = String::from_str("hmac init: ");
                msg.append(m.as_str());
                Err(AppError::Internal(msg))
            },
        }
    }
}

/// No-op notifier, used when no webhooks are configured.
pub struct NoopNotifier;

/// Notification event types.
#[derive(Debug, Clone, Copy, PartialEq, Eq, Structural)]
pub enum NotifyEvent {
    HealthReport,
    ConflictDetected,
    ProposalReady,
}

impl NotifyEvent {
    /// The wire name of the event.
    pub open spec fn spec_name(self) -> Seq<char> {
        match self {
            NotifyEvent::HealthReport => "health_report"@,
            NotifyEvent::ConflictDetected => "conflict_detected"@,
            NotifyEvent::ProposalReady => "proposal_ready"@,
        }
    }

    /// The wire name of the event.
    pub fn as_str(&self) -> (res: &'static str)
        ensures
            res@ == self.spec_name(),
    {
        match self {
            NotifyEvent::HealthReport => "health_report",
            NotifyEvent::ConflictDetected => "conflict_detected",
            NotifyEvent::ProposalReady => "proposal_ready",
        }
    }
}

} // verus!
