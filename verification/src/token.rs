//! What a token operation asks for, and the token as it was typed.

use vstd::prelude::*;
use vstd::string::StringSliceAdditionalSpecFns;
use vstd::utf8::*;

verus! {

/// What the caller has to do for a token operation.
#[derive(Debug, Copy, Clone, Eq, PartialEq, Structural)]
pub enum TokenStep {
    /// Refuse: a token is stored already.
    AlreadySet,
    /// Refuse: no token is stored yet.
    NotSetYet,
    /// Ask for a first token and store it.
    AskAndStore,
    /// Ask for a new token and store it.
    AskAndReplace,
    /// Remove the stored token.
    Remove,
}

impl TokenStep {
    /// The words of a refusal; empty for a step that is carried out.
    pub open spec fn refusal_spec(&self) -> Seq<char> {
        match self {
            TokenStep::AlreadySet => "The TOKEN has already been set"@,
            TokenStep::NotSetYet
                => "No TOKEN has been set before, use `pup --set-token` to set it first."@,
            _ => ""@,
        }
    }

    /// The words of a refusal; empty for a step that is carried out.
    pub fn refusal(&self) -> (text: &'static str)
        ensures
            text@ == self.refusal_spec(),
    {
        match self {
            TokenStep::AlreadySet => "The TOKEN has already been set",
            TokenStep::NotSetYet
                => "No TOKEN has been set before, use `pup --set-token` to set it first.",
            _ => "",
        }
    }

    /// The words that ask for the token; empty for a step that asks nothing.
    pub open spec fn prompt_spec(&self) -> Seq<char> {
        match self {
            TokenStep::AskAndStore => "Please input the TOKEN: "@,
            TokenStep::AskAndReplace => "Please input the new TOKEN: "@,
            _ => ""@,
        }
    }

    /// The words that ask for the token; empty for a step that asks nothing.
    pub fn prompt(&self) -> (text: &'static str)
        ensures
            text@ == self.prompt_spec(),
    {
        match self {
            TokenStep::AskAndStore => "Please input the TOKEN: ",
            TokenStep::AskAndReplace => "Please input the new TOKEN: ",
            _ => "",
        }
    }
}

/// Setting a token: refused where one is stored, else asked for and stored.
pub fn set_token(token_stored: bool) -> (step: TokenStep)
    ensures
        step == if token_stored {
            TokenStep::AlreadySet
        } else {
            TokenStep::AskAndStore
        },
{
    if token_stored {
        TokenStep::AlreadySet
    } else {
        TokenStep::AskAndStore
    }
}

/// Updating the token: refused where none is stored, else asked for and stored.
pub fn update_token(token_stored: bool) -> (step: TokenStep)
    ensures
        step == if token_stored {
            TokenStep::AskAndReplace
        } else {
            TokenStep::NotSetYet
        },
{
    if token_stored {
        TokenStep::AskAndReplace
    } else {
        TokenStep::NotSetYet
    }
}

/// Deleting the token needs no look at what is stored.
pub fn delete_token() -> (step: TokenStep)
    ensures
        step == TokenStep::Remove,
{
    TokenStep::Remove
}

/// `String::truncate` of std: keeps the first `new_len` bytes of the text.
/// It panics unless `new_len` lies on a character boundary, which
/// `requires` demands.
#[verifier::external_body]
fn truncate(text: &mut String, new_len: usize)
    requires
        new_len <= encode_utf8(old(text)@).len(),
        is_char_boundary(encode_utf8(old(text)@), new_len as int),
    ensures
        encode_utf8(final(text)@) == encode_utf8(old(text)@).subrange(0, new_len as int),
{
    text.truncate(new_len);
}

/// The typed line can lose its last byte: it is not empty, and its last
/// character takes one byte.
pub open spec fn ends_in_one_byte(line: Seq<char>) -> bool {
    let s = encode_utf8(line);
    s.len() > 0 && is_char_boundary(s, s.len() - 1)
}

/// Takes the last byte, the line's end, off a typed token.
pub fn trim_line_end(new_token: &mut String)
    requires
        ends_in_one_byte(old(new_token)@),
    ensures
        encode_utf8(final(new_token)@) == encode_utf8(old(new_token)@).drop_last(),
{
    let len = new_token.as_str().as_bytes().len();
    truncate(new_token, len - 1);
}

/// Whether a typed line can lose its last byte.
pub fn can_trim_line_end(new_token: &String) -> (ok: bool)
    ensures
        ok == ends_in_one_byte(new_token@),
{
    let text = new_token.as_str();
    let len = text.as_bytes().len();
    len > 0 && text.is_char_boundary(len - 1)
}

} // verus!
