//! The cross-origin headers that every reply carries.

use crate::text::{contains, occurs_at, occurs_in, same_text, starts_with, text_of};
use vstd::prelude::*;

verus! {

/// Value of the header that lists the allowed methods.
pub open spec fn allowed_methods() -> Seq<char> {
    "GET, POST, PUT, DELETE, OPTIONS"@
}

/// Value of the header that lists the allowed request headers.
pub open spec fn allowed_headers() -> Seq<char> {
    "Origin, X-Requested-With, Content-Type, Accept, Authorization"@
}

/// Value of the header that allows credentials.
pub open spec fn allowed_credentials() -> Seq<char> {
    "true"@
}

/// The cross-origin headers of one reply. `allow_origin` is the origin that
/// is allowed to read the reply, where there is one.
#[derive(Clone, Debug)]
pub struct CorsHeaders {
    pub allow_origin: Option<String>,
    pub allow_methods: String,
    pub allow_headers: String,
    pub allow_credentials: String,
}

/// What the stage does with a request.
#[derive(Clone, Debug)]
pub struct CorsPlan {
    /// Whether the stage answers itself, with an empty reply, and the next
    /// stage never sees the request. Otherwise the next stage's reply goes
    /// out.
    pub answer_now: bool,
    /// The headers to set on the reply that goes out; `None` where the
    /// service's gateway is not configured and no header is set.
    pub headers: Option<CorsHeaders>,
}

/// Whether a character may stand in a header's value: a tab, or anything
/// from the space on but the delete character.
pub open spec fn is_header_char(c: char) -> bool {
    let u = c as u32;
    u == 0x09 || (u >= 0x20 && u != 0x7f)
}

/// Whether `text` can be sent as a header's value.
pub open spec fn is_header_text(text: Seq<char>) -> bool {
    forall|i: int| 0 <= i < text.len() ==> is_header_char(#[trigger] text[i])
}

/// Whether the gateway setting names a development host.
pub open spec fn is_development(gateway: Seq<char>) -> bool {
    occurs_in(gateway, "localhost"@)
}

/// Whether `origin` may read replies of a service whose gateway is
/// `gateway`: in development any origin on the local host, else the gateway
/// alone.
pub open spec fn origin_approved(gateway: Seq<char>, origin: Seq<char>) -> bool {
    if is_development(gateway) {
        occurs_at(origin, "http://localhost:"@, 0)
    } else {
        origin == gateway
    }
}

/// The origin that the reply allows, if any.
pub open spec fn allowed_origin(gateway: Seq<char>, origin: Option<Seq<char>>) -> Option<
    Seq<char>,
> {
    match origin {
        Some(o) => if origin_approved(gateway, o) && is_header_text(o) {
            Some(o)
        } else {
            None
        },
        None => None,
    }
}

/// Whether `headers` are the headers for a request from `origin` to a
/// service whose gateway is `gateway`.
pub open spec fn are_cors_headers(
    headers: CorsHeaders,
    gateway: Seq<char>,
    origin: Option<Seq<char>>,
) -> bool {
    &&& match headers.allow_origin {
        Some(o) => Some(o@),
        None => None,
    } == allowed_origin(gateway, origin)
    &&& headers.allow_methods@ == allowed_methods()
    &&& headers.allow_headers@ == allowed_headers()
    &&& headers.allow_credentials@ == allowed_credentials()
}

/// `http::HeaderValue::from_str`, asked only whether it accepts `text`: it
/// does where every byte of the text is a tab or is at least 32 and not 127.
/// The bytes of a character beyond ASCII are all above 127.
#[verifier::external_body]
fn header_value_accepts(text: &str) -> (accepted: bool)
    ensures
        accepted == is_header_text(text@),
{
    axum::http::HeaderValue::from_str(text).is_ok()
}

/// The cross-origin headers for a reply: `vite_gateway` is the service's
/// gateway setting, if it has one, and `request_origin` the request's origin
/// header, if it has one that reads as text. Without the setting no header
/// is set at all.
pub fn add_cors_headers(vite_gateway: Option<&str>, request_origin: Option<&str>) -> (headers:
    Option<CorsHeaders>)
    ensures
        headers is Some <==> vite_gateway is Some,
        headers is Some ==> are_cors_headers(
            headers->0,
            vite_gateway->0@,
            text_of(request_origin),
        ),
{
    let gateway = match vite_gateway {
        Some(g) => g,
        None => {
            return None;
        },
    };
    let development = contains(gateway, "localhost");
    let mut allow_origin: Option<String> = None;
    if let Some(origin) = request_origin {
        let approved = if development {
            starts_with(origin, "http://localhost:")
        } else {
            same_text(origin, gateway)
        };
        if approved && header_value_accepts(origin) {
            allow_origin = Some(origin.to_owned());
        }
    }
    Some(
        CorsHeaders {
            allow_origin,
            allow_methods: "GET, POST, PUT, DELETE, OPTIONS".to_owned(),
            allow_headers: "Origin, X-Requested-With, Content-Type, Accept, Authorization".to_owned(),
            allow_credentials: "true".to_owned(),
        },
    )
}

/// The cross-origin stage: a preflight request, one whose method is
/// `OPTIONS`, is answered at once; any other goes on to the next stage.
/// Either reply carries the headers of `add_cors_headers`.
pub fn cors_middleware(method: &str, vite_gateway: Option<&str>, request_origin: Option<&str>) -> (plan:
    CorsPlan)
    ensures
        plan.answer_now == (method@ == "OPTIONS"@),
        plan.headers is Some <==> vite_gateway is Some,
        plan.headers is Some ==> are_cors_headers(
            plan.headers->0,
            vite_gateway->0@,
            text_of(request_origin),
        ),
{
    CorsPlan {
        answer_now: same_text(method, "OPTIONS"),
        headers: add_cors_headers(vite_gateway, request_origin),
    }
}

} // verus!
