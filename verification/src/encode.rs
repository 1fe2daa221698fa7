//! The base64 form in which a file's contents travel.

use vstd::prelude::*;

verus! {

/// The padded base64 text of `input` in the standard alphabet, as
/// `base64::engine::general_purpose::STANDARD` writes it.
pub uninterp spec fn base64_standard(input: Seq<u8>) -> Seq<u8>;

/// The length of the padded base64 text of `n` bytes: four bytes for every
/// three, and four more for a rest.
pub open spec fn encoded_len(n: nat) -> nat {
    n / 3 * 4 + if n % 3 > 0 {
        4nat
    } else {
        0nat
    }
}

/// Room for the padded base64 text of `n` bytes, as the buffer is sized.
pub open spec fn buffer_len(n: nat) -> nat {
    n * 4 / 3 + 4
}

/// Contents of `n` bytes are short enough for the buffer's size to be computed.
pub open spec fn encodable(n: nat) -> bool {
    n * 4 <= usize::MAX
}

/// `base64::Engine::encode_slice` on the engine
/// `base64::engine::general_purpose::STANDARD`. Trusted: where the buffer
/// holds `encoded_len` bytes or more, that many are written to its front,
/// and they are the base64 text of the input, by name; where it is smaller,
/// the call fails. The call panics where `encoded_len` does not fit the
/// machine, which `requires` leaves out.
#[verifier::external_body]
fn encode_slice(input: &[u8], output: &mut Vec<u8>) -> (written: Option<usize>)
    requires
        encoded_len(input@.len()) <= usize::MAX,
    ensures
        final(output)@.len() == old(output)@.len(),
        match written {
            Some(n) => {
                &&& n == encoded_len(input@.len())
                &&& n <= old(output)@.len()
                &&& final(output)@.subrange(0, n as int) == base64_standard(input@)
            },
            None => old(output)@.len() < encoded_len(input@.len()),
        },
{
    base64::Engine::encode_slice(
        &base64::engine::general_purpose::STANDARD,
        input,
        output.as_mut_slice(),
    ).ok()
}

/// The buffer is never too small.
pub proof fn lemma_buffer_holds_text(n: nat)
    ensures
        encoded_len(n) <= buffer_len(n),
{
    assert(n / 3 * 4 + 4 <= n * 4 / 3 + 4) by (nonlinear_arith);
}

/// Encodes the contents of a file.
pub fn encode(contents: &[u8]) -> (encoded: Vec<u8>)
    requires
        encodable(contents@.len()),
    ensures
        encoded@ == base64_standard(contents@),
        encoded@.len() == encoded_len(contents@.len()),
{
    proof {
        lemma_buffer_holds_text(contents@.len());
    }
    let mut encoded_contents: Vec<u8> = Vec::new();
    encoded_contents.resize(contents.len() * 4 / 3 + 4, 0);
    match encode_slice(contents, &mut encoded_contents) {
        Some(n_bytes) => {
            encoded_contents.truncate(n_bytes);
        },
        None => {
            assert(false);
        },
    }
    encoded_contents
}

} // verus!
