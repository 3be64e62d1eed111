//! The decisions of the admin dashboard: which pages need a session, what
//! the forms accept, and what a payload download serves.
use vstd::prelude::*;
use vstd::utf8::encode_utf8;

use crate::auth::AuthState;
use crate::json::JsonValue;
use crate::records::RequestDetail;
use crate::text::{append_str, str_eq, trim_seq, trim_str};

verus! {

/// A refused form: the HTTP status and the JSON text of the reply.
#[derive(Debug, Clone, PartialEq, Eq)]
pub struct FormRejection {
    pub status: u16,
    pub json: String,
}

impl FormRejection {
    /// The rejection with the given status and JSON text.
    pub open spec fn is(self, status: u16, json: Seq<char>) -> bool {
        self.status == status && self.json@ == json
    }
}

/// Whether a page of the single-page dashboard needs an admin session:
/// every page but `/setup` and `/login` does.
pub fn page_needs_admin(path: &str) -> (r: bool)
    ensures
        r == (path@ != "/setup"@ && path@ != "/login"@),
{
    !str_eq(path, "/setup") && !str_eq(path, "/login")
}

/// The admin state reported to the dashboard; a state that could not be
/// established reads as unauthenticated.
pub open spec fn auth_status_name(state: Option<AuthState>) -> Seq<char> {
    match state {
        Some(AuthState::NeedsSetup) => "needs_setup"@,
        Some(AuthState::Authenticated) => "authenticated"@,
        _ => "unauthenticated"@,
    }
}

/// The dashboard is told "authenticated" exactly for a request that holds a
/// valid admin session, the one state the dashboard lets through without a
/// redirect; the three states are reported apart, and a state that could
/// not be established is reported as a request without a session.
pub proof fn auth_status_tells_states_apart(state: AuthState)
    ensures
        auth_status_name(Some(state)) == "authenticated"@ <==> state == AuthState::Authenticated,
        auth_status_name(Some(AuthState::NeedsSetup)) != auth_status_name(
            Some(AuthState::Unauthenticated),
        ),
        auth_status_name(None) == auth_status_name(Some(AuthState::Unauthenticated)),
{
    reveal_strlit("authenticated");
    reveal_strlit("unauthenticated");
    reveal_strlit("needs_setup");
    assert("unauthenticated"@ != "authenticated"@) by {
        assert("unauthenticated"@.len() != "authenticated"@.len());
    }
    assert("needs_setup"@ != "authenticated"@) by {
        assert("needs_setup"@.len() != "authenticated"@.len());
    }
    assert("needs_setup"@ != "unauthenticated"@) by {
        assert("needs_setup"@.len() != "unauthenticated"@.len());
    }
}

/// The reply of the auth status endpoint: `{"status": <state>}`.
pub fn auth_status_body(state: Option<AuthState>) -> (r: JsonValue)
    ensures
        r matches JsonValue::Object(m) && m@.len() == 1 && m@[0].0@ == "status"@ && (
        m@[0].1 matches JsonValue::String(s) && s@ == auth_status_name(state)),
{
    let status = match state {
        Some(AuthState::NeedsSetup) => "needs_setup",
        Some(AuthState::Authenticated) => "authenticated",
        _ => "unauthenticated",
    };
    let mut m: Vec<(String, JsonValue)> = Vec::new();
    m.push(("status".to_owned(), JsonValue::String(status.to_owned())));
    JsonValue::Object(m)
}

/// The shortest admin password, in bytes.
pub const MIN_PASSWORD_BYTES: usize = 8;

/// Checks the first-run setup form: its token must be the setup token the
/// server printed, and its password at least eight bytes long.
pub fn check_setup_form(setup_token: Option<&str>, token: &str, password: &str) -> (r: Result<
    (),
    FormRejection,
>)
    ensures
        !(setup_token matches Some(t) && t@ == token@) ==> (r matches Err(e) && e.is(
            401,
            "\"Invalid setup token\""@,
        )),
        (setup_token matches Some(t) && t@ == token@) && encode_utf8(password@).len()
            < MIN_PASSWORD_BYTES ==> (r matches Err(e) && e.is(
            400,
            "\"Password must be at least 8 characters\""@,
        )),
        (setup_token matches Some(t) && t@ == token@) && encode_utf8(password@).len()
            >= MIN_PASSWORD_BYTES ==> r is Ok,
{
    let token_matches = match setup_token {
        Some(t) => str_eq(t, token),
        None => false,
    };
    if !token_matches {
        return Err(FormRejection { status: 401, json: "\"Invalid setup token\"".to_owned() });
    }
    if password.as_bytes().len() < MIN_PASSWORD_BYTES {
        return Err(
            FormRejection {
                status: 400,
                json: "\"Password must be at least 8 characters\"".to_owned(),
            },
        );
    }
    Ok(())
}

/// The rejection of a wrong admin password.
pub fn invalid_password() -> (r: FormRejection)
    ensures
        r.is(401, "\"Invalid password\""@),
{
    FormRejection { status: 401, json: "\"Invalid password\"".to_owned() }
}

/// Checks the label of a new proxy API key: the label, trimmed, must not be
/// empty; it is stored trimmed.
pub fn check_key_label(label: &str) -> (r: Result<String, FormRejection>)
    ensures
        trim_seq(label@).len() == 0 ==> (r matches Err(e) && e.is(400, "\"Label is required\""@)),
        trim_seq(label@).len() > 0 ==> (r matches Ok(l) && l@ == trim_seq(label@)),
{
    let trimmed = trim_str(label);
    if trimmed.unicode_len() == 0 {
        return Err(FormRejection { status: 400, json: "\"Label is required\"".to_owned() });
    }
    Ok(trimmed)
}

/// Checks the form that stores an upstream secret: the name, trimmed, and
/// the value must not be empty; the name is stored trimmed.
pub fn check_secret_form(name: &str, value: &str) -> (r: Result<String, FormRejection>)
    ensures
        (trim_seq(name@).len() == 0 || value@.len() == 0) ==> (r matches Err(e) && e.is(
            400,
            "\"Name and value are required\""@,
        )),
        (trim_seq(name@).len() > 0 && value@.len() > 0) ==> (r matches Ok(n) && n@ == trim_seq(
            name@,
        )),
{
    let trimmed = trim_str(name);
    if trimmed.unicode_len() == 0 || value.unicode_len() == 0 {
        return Err(
            FormRejection { status: 400, json: "\"Name and value are required\"".to_owned() },
        );
    }
    Ok(trimmed)
}

/// The stored path of the payload a download asks for: the request or the
/// response payload, as the kind names; nothing for another kind or when
/// none was stored.
pub fn payload_path_for<'a>(detail: &'a RequestDetail, kind: &str) -> (r: Option<&'a String>)
    ensures
        kind@ == "request"@ ==> r == match detail.request_payload_path {
            Some(p) => Some(&p),
            None => None::<&String>,
        },
        kind@ == "response"@ ==> r == match detail.response_payload_path {
            Some(p) => Some(&p),
            None => None::<&String>,
        },
        kind@ != "request"@ && kind@ != "response"@ ==> r is None,
{
    proof {
        reveal_strlit("request");
        reveal_strlit("response");
        assert("response"@[2] != "request"@[2]);
    }
    if str_eq(kind, "request") {
        match &detail.request_payload_path {
            Some(p) => Some(p),
            None => None,
        }
    } else if str_eq(kind, "response") {
        match &detail.response_payload_path {
            Some(p) => Some(p),
            None => None,
        }
    } else {
        None
    }
}

/// The `Content-Disposition` of a downloaded payload.
pub open spec fn download_disposition(id: Seq<char>, kind: Seq<char>) -> Seq<char> {
    "attachment; filename=\""@ + id + "_"@ + kind + ".json\""@
}

/// The `Content-Disposition` of a downloaded payload:
/// `attachment; filename="<id>_<kind>.json"`.
pub fn content_disposition(id: &str, kind: &str) -> (r: String)
    ensures
        r@ == download_disposition(id@, kind@),
{
    let mut r = String::new();
    append_str(&mut r, "attachment; filename=\"");
    append_str(&mut r, id);
    append_str(&mut r, "_");
    append_str(&mut r, kind);
    append_str(&mut r, ".json\"");
    assert(r@ =~= download_disposition(id@, kind@));
    r
}

} // verus!
