//! Answers of the panel's interface.
use vstd::prelude::*;
use crate::json;
use crate::json::{Fields, Json};
use crate::text;

verus! {

/// An error as the panel shows it.
#[derive(Debug, Clone)]
pub struct ApiError {
    pub message: String,
    /// What OBS or another program said.
    pub detail: Option<String>,
}

/// What an error says.
#[verifier::ext_equal]
pub struct ErrorV {
    pub message: Seq<char>,
    pub detail: Option<Seq<char>>,
}

impl View for ApiError {
    type V = ErrorV;

    open spec fn view(&self) -> ErrorV {
        ErrorV { message: self.message@, detail: text::opt_view(self.detail) }
    }
}

impl ApiError {
    /// An error without further detail.
    pub fn new(m: &str) -> (r: ApiError)
        ensures
            r@ == (ErrorV { message: m@, detail: None }),
    {
        ApiError { message: m.to_owned(), detail: None }
    }

    /// An error with what another program said about it.
    pub fn detail(m: &str, d: &str) -> (r: ApiError)
        ensures
            r@ == (ErrorV { message: m@, detail: Some(d@) }),
    {
        ApiError { message: m.to_owned(), detail: Some(d.to_owned()) }
    }
}

/// A request that is refused: the HTTP status, and what the panel is told.
#[derive(Debug, Clone)]
pub struct Refusal {
    pub status: u16,
    pub error: ApiError,
}

/// Why a request is refused.
#[verifier::ext_equal]
pub struct RefusalV {
    pub status: u16,
    pub error: ErrorV,
}

impl View for Refusal {
    type V = RefusalV;

    open spec fn view(&self) -> RefusalV {
        RefusalV { status: self.status, error: self.error@ }
    }
}

/// The request itself is wrong.
pub open spec fn bad_request(message: Seq<char>) -> RefusalV {
    RefusalV { status: 400, error: ErrorV { message, detail: None } }
}

/// Another program failed.
pub open spec fn failure(message: Seq<char>, detail: Seq<char>) -> RefusalV {
    RefusalV { status: 500, error: ErrorV { message, detail: Some(detail) } }
}

/// The request itself is wrong.
pub fn bad(message: &str) -> (r: Refusal)
    ensures
        r@ == bad_request(message@),
{
    Refusal { status: 400, error: ApiError::new(message) }
}

/// Another program failed.
pub fn err(message: &str, detail: &str) -> (r: Refusal)
    ensures
        r@ == failure(message@, detail@),
{
    Refusal { status: 500, error: ApiError::detail(message, detail) }
}

/// The body of an answer that refuses.
pub open spec fn error_body(e: ErrorV) -> json::JsonV {
    json::JsonV::Object(
        map![
            "error"@ => json::JsonV::Object(
                match e.detail {
                    Some(d) => map![
                        "message"@ => json::JsonV::Str(e.message),
                        "detail"@ => json::JsonV::Str(d),
                    ],
                    None => map!["message"@ => json::JsonV::Str(e.message)],
                },
            ),
        ],
    )
}

impl Refusal {
    /// The body of the answer.
    pub fn body(&self) -> (r: Json)
        ensures
            r@ == error_body(self@.error),
    {
        let fields = Fields::new().put("message", Json::text(self.error.message.as_str()));
        let fields = match &self.error.detail {
            Some(d) => fields.put("detail", Json::text(d.as_str())),
            None => fields,
        };
        Fields::new().put("error", fields.json()).json()
    }
}

/// What an answer is: a value, or why it is refused.
pub open spec fn answer_view(r: Result<Json, Refusal>) -> Result<json::JsonV, RefusalV> {
    match r {
        Ok(j) => Ok(j@),
        Err(e) => Err(e@),
    }
}


// ---------------------------------------------------------------------------------------------
// Laws
// ---------------------------------------------------------------------------------------------

/// A wrong request is answered with 400 and what is wrong; the failure of another program with 500,
/// what failed, and what that program said.
pub proof fn law_refusals_tell_what_happened(message: Seq<char>, detail: Seq<char>)
    ensures
        bad_request(message).status == 400,
        bad_request(message).error.message == message,
        bad_request(message).error.detail is None,
        failure(message, detail).status == 500,
        failure(message, detail).error.message == message,
        failure(message, detail).error.detail == Some(detail),
{
}

/// The body of a refusal holds the message and the detail as they are, and no detail where there is
/// none.
pub proof fn law_the_body_holds_the_error(e: ErrorV)
    ensures
        error_body(e).field("error"@) matches Some(inner) && inner.text_at("message"@) == Some(
            e.message,
        ) && inner.text_at("detail"@) == e.detail && (inner.field("detail"@) is None
            <==> e.detail is None),
{
    reveal_strlit("message");
    reveal_strlit("detail");
    assert("message"@.len() == 7);
    assert("detail"@.len() == 6);
}

} // verus!
