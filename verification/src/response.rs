//! What the host's answer to an upload means.

use vstd::prelude::*;

verus! {

/// The ways in which an upload can fail.
#[derive(Debug, Clone, Copy, PartialEq, Eq, Structural)]
pub enum FailedCases {
    /// The host holds a file of that name already.
    Conflict,
    /// The host found the request wanting.
    ValidationFailed,
    /// The host stored the file and named no URL for it.
    CreatedButUrlNotFound,
    /// Any other answer.
    NotCoveredCase,
}

/// The status of an answer that reports the file as stored.
pub const CREATED: u16 = 201;

/// The status of an answer that reports a file of that name.
pub const CONFLICT: u16 = 409;

/// The status of an answer that rejects the request.
pub const UNPROCESSABLE_ENTITY: u16 = 422;

impl FailedCases {
    /// The words in which the failure is reported.
    pub open spec fn message_spec(&self) -> Seq<char> {
        match self {
            FailedCases::Conflict => "409: Conflict"@,
            FailedCases::ValidationFailed => "422: ValidationFailed"@,
            FailedCases::CreatedButUrlNotFound => "The picture is uploaded but no URL is returned."@,
            FailedCases::NotCoveredCase => "This error is not covered by pup"@,
        }
    }

    /// The words in which the failure is reported.
    pub fn message(&self) -> (text: &'static str)
        ensures
            text@ == self.message_spec(),
    {
        match self {
            FailedCases::Conflict => "409: Conflict",
            FailedCases::ValidationFailed => "422: ValidationFailed",
            FailedCases::CreatedButUrlNotFound => "The picture is uploaded but no URL is returned.",
            FailedCases::NotCoveredCase => "This error is not covered by pup",
        }
    }
}

/// What `serde_json` reads in a body: nothing where the body is no JSON
/// text; else the text that stands under the key `outer` and, in what is
/// found there, under the key `inner`, if a text stands there.
pub uninterp spec fn json_text_at(body: Seq<char>, outer: Seq<char>, inner: Seq<char>) -> Option<
    Option<Seq<char>>,
>;

/// What the body of an answer holds as the hosted URL: the text under
/// `content`, `html_url`.
pub open spec fn json_html_url(body: Seq<char>) -> Option<Option<Seq<char>>> {
    json_text_at(body, "content"@, "html_url"@)
}

/// The text of an optional string.
pub open spec fn text_of(s: Option<String>) -> Option<Seq<char>> {
    match s {
        Some(t) => Some(t@),
        None => None,
    }
}

/// What an answer with the given status means, `html_url` being the URL that
/// its body names.
pub open spec fn response_outcome(status: u16, html_url: Option<Seq<char>>) -> Result<
    Seq<char>,
    FailedCases,
> {
    if status == CREATED {
        match html_url {
            Some(url) => Ok(url),
            None => Err(FailedCases::CreatedButUrlNotFound),
        }
    } else if status == CONFLICT {
        Err(FailedCases::Conflict)
    } else if status == UNPROCESSABLE_ENTITY {
        Err(FailedCases::ValidationFailed)
    } else {
        Err(FailedCases::NotCoveredCase)
    }
}

/// An executable outcome says the same as a specified one.
pub open spec fn outcome_is(r: Result<String, FailedCases>, o: Result<Seq<char>, FailedCases>) -> bool {
    match r {
        Ok(url) => o == Ok::<Seq<char>, FailedCases>(url@),
        Err(e) => o == Err::<Seq<char>, FailedCases>(e),
    }
}

/// The URL that the body of a `CREATED` answer names; bodies of other answers are not read.
pub open spec fn named_url(status: u16, body: Seq<char>) -> Option<Seq<char>> {
    if status == CREATED && json_html_url(body) is Some {
        json_html_url(body)->Some_0
    } else {
        None
    }
}

/// `serde_json::from_str` into a `serde_json::Value`, then the value's index
/// operator with the key `outer` and, on what that gives, with the key
/// `inner`. Trusted: the result is `None` where the body does not parse, and
/// else holds the string found under those two keys, if a string is there;
/// all of it by name.
#[verifier::external_body]
fn text_member(body: &str, outer: &str, inner: &str) -> (field: Option<Option<String>>)
    ensures
        match field {
            Some(found) => json_text_at(body@, outer@, inner@) == Some(text_of(found)),
            None => json_text_at(body@, outer@, inner@) is None,
        },
{
    match serde_json::from_str::<serde_json::Value>(body) {
        Ok(val) => match &val[outer][inner] {
            serde_json::Value::String(text) => Some(Some(text.clone())),
            _ => Some(None),
        },
        Err(_) => None,
    }
}

/// What an answer means, given its status and the URL that its body names.
pub fn url_of_response(status: u16, html_url: Option<String>) -> (r: Result<String, FailedCases>)
    ensures
        outcome_is(r, response_outcome(status, text_of(html_url))),
{
    if status == CREATED {
        match html_url {
            Some(url) => Ok(url),
            None => Err(FailedCases::CreatedButUrlNotFound),
        }
    } else if status == CONFLICT {
        Err(FailedCases::Conflict)
    } else if status == UNPROCESSABLE_ENTITY {
        Err(FailedCases::ValidationFailed)
    } else {
        Err(FailedCases::NotCoveredCase)
    }
}

/// The hosted URL in an answer, or why there is none. The body of a
/// `CREATED` answer has to be JSON text.
pub fn get_url(status: u16, body: &str) -> (r: Result<String, FailedCases>)
    requires
        status == CREATED ==> json_html_url(body@) is Some,
    ensures
        outcome_is(r, response_outcome(status, named_url(status, body@))),
{
    if status == CREATED {
        match text_member(body, "content", "html_url") {
            Some(found) => url_of_response(status, found),
            None => Err(FailedCases::CreatedButUrlNotFound),
        }
    } else {
        url_of_response(status, None)
    }
}

/// As `get_url`, for any body: `None` where a `CREATED` answer's body is no JSON text.
pub fn try_get_url(status: u16, body: &str) -> (r: Option<Result<String, FailedCases>>)
    ensures
        r is None <==> status == CREATED && json_html_url(body@) is None,
        r matches Some(outcome) ==> outcome_is(
            outcome,
            response_outcome(status, named_url(status, body@)),
        ),
{
    if status == CREATED && text_member(body, "content", "html_url").is_none() {
        None
    } else {
        Some(get_url(status, body))
    }
}

} // verus!
