//! Best-effort outbound notification of a confirmed hit: a fixed endpoint
//! keyed by a caller-supplied token, and a form-encoded payload identifying
//! the reporting host. Building the request is verified here; actually
//! sending it, and ignoring any send failure, is the caller's business and
//! never affects verification or recording.

use vstd::prelude::*;
use vstd::string::*;

verus! {

/// The percent-plus escaping of one string as the form encoder writes a
/// value: a function of the string alone.
pub uninterp spec fn form_escaped(s: Seq<char>) -> Seq<char>;

/// Relies on serde_urlencoded::to_string serializing the two string pairs
/// ("text", title) and ("desp", body): it writes the two pairs in order,
/// key, equals sign, escaped value, joined by an ampersand, and the escaping
/// of a value depends on that string alone. On pairs of strings the
/// serializer cannot fail — its error paths exist only for non-string pair
/// types — so a value is always returned.
#[verifier::external_body]
fn urlencode_message(title: &str, body: &str) -> (r: Option<String>)
    ensures
        r is Some,
        r matches Some(s) ==> s@ == "text="@ + form_escaped(title@) + "&desp="@ + form_escaped(
            body@,
        ),
{
    match serde_urlencoded::to_string([("text", title), ("desp", body)]) {
        Ok(s) => Some(s),
        Err(_) => None,
    }
}

/// An outbound notification, ready to send: the endpoint URL and the
/// form-encoded request body.
pub struct Notification {
    pub url: String,
    pub body: String,
}

/// The host-identifying line carried by a notification.
pub fn host_id_string(host_name: &str, ip: &str) -> (r: String)
    ensures
        r@ == "Host: "@ + host_name@ + " IP: "@ + ip@,
{
    let mut s = "Host: ".to_owned();
    s.append(host_name);
    s.append(" IP: ");
    s.append(ip);
    s
}

/// The endpoint URL for a notification token.
pub fn notification_url(key: &str) -> (r: String)
    ensures
        r@ == "https://sctapi.ftqq.com/"@ + key@ + ".send"@,
{
    let mut s = "https://sctapi.ftqq.com/".to_owned();
    s.append(key);
    s.append(".send");
    s
}

/// Builds the notification for a confirmed hit: the endpoint for `key` and
/// the encoded minimal host-identifying payload. The encoder cannot decline
/// a pair of strings, so a notification is always returned.
pub fn build_notification(key: &str, host_id: &str) -> (r: Option<Notification>)
    ensures
        r is Some,
        r matches Some(n) ==> n.url@ == "https://sctapi.ftqq.com/"@ + key@ + ".send"@ && n.body@
            == "text="@ + form_escaped("Confirmed hit"@) + "&desp="@ + form_escaped(
            "Reported by "@ + host_id@,
        ),
{
    let mut message = "Reported by ".to_owned();
    message.append(host_id);
    match urlencode_message("Confirmed hit", message.as_str()) {
        Some(body) => Some(Notification { url: notification_url(key), body }),
        None => None,
    }
}

} // verus!
