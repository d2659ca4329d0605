use vstd::prelude::*;
use vstd::utf8::*;
use vstd::string::*;

use crate::format::{degraded_text, message_text, outcome_text};

verus! {

/// The text carried by a foreign input: none for an absent (null) input or for
/// bytes that are not UTF-8, else the characters they encode.
pub open spec fn decoded_message(input: Option<Seq<u8>>) -> Option<Seq<char>> {
    match input {
        Some(b) => if valid_utf8(b) {
            Some(decode_utf8(b))
        } else {
            None
        },
        None => None,
    }
}

/// The view of a foreign input: its bytes, or none for a null input.
pub open spec fn input_view(input: Option<&[u8]>) -> Option<Seq<u8>> {
    match input {
        Some(b) => Some(b@),
        None => None,
    }
}

/// The zero-terminated buffer handed back for a reply text, or none where the
/// text's encoding itself holds a zero byte.
pub open spec fn reply_buffer(text: Seq<char>) -> Option<Seq<u8>> {
    if encode_utf8(text).contains(0u8) {
        None
    } else {
        Some(encode_utf8(text).push(0u8))
    }
}

/// Relies on `std::str::from_utf8`: it succeeds exactly on valid UTF-8, and the
/// string it returns is made of the same bytes.
#[verifier::external_body]
fn str_from_utf8(bytes: &[u8]) -> (r: Option<&str>)
    ensures
        match r {
            Some(s) => s.spec_bytes() == bytes@,
            None => !valid_utf8(bytes@),
        },
{
    std::str::from_utf8(bytes).ok()
}

/// Decodes the bytes before the terminator of a foreign input; `None` stands
/// for a null input.
pub fn decode_message(input: Option<&[u8]>) -> (r: Option<String>)
    ensures
        match r {
            Some(s) => decoded_message(input_view(input)) == Some(s@),
            None => decoded_message(input_view(input)) is None,
        },
{
    broadcast use encode_utf8_decode_utf8, encode_utf8_valid_utf8;

    match input {
        None => None,
        Some(bytes) => match str_from_utf8(bytes) {
            Some(s) => Some(s.to_owned()),
            None => None,
        },
    }
}

/// Encodes a reply as a zero-terminated buffer; `None` where the reply holds
/// a zero byte and so cannot be terminated unambiguously.
pub fn encode_reply(text: &str) -> (r: Option<Vec<u8>>)
    ensures
        match r {
            Some(v) => reply_buffer(text@) == Some(v@),
            None => reply_buffer(text@) is None,
        },
{
    let bytes = text.as_bytes();
    let ghost enc = encode_utf8(text@);
    let mut out: Vec<u8> = Vec::new();
    let mut i: usize = 0;
    while i < bytes.len()
        invariant
            enc == encode_utf8(text@),
            bytes@ == enc,
            0 <= i <= bytes@.len(),
            out@ == enc.subrange(0, i as int),
            !enc.subrange(0, i as int).contains(0u8),
        decreases bytes@.len() - i,
    {
        let b = bytes[i];
        if b == 0 {
            assert(enc[i as int] == 0u8);
            assert(enc.contains(0u8));
            return None;
        }
        out.push(b);
        i = i + 1;
        assert(out@ == enc.subrange(0, i as int));
        assert(!enc.subrange(0, i as int).contains(0u8)) by {
            assert forall|j: int| 0 <= j < i implies enc.subrange(0, i as int)[j] != 0u8 by {
                if j < i - 1 {
                    assert(enc.subrange(0, i as int)[j] == enc.subrange(0, i - 1)[j]);
                }
            }
        }
    }
    assert(enc.subrange(0, i as int) == enc);
    out.push(0u8);
    Some(out)
}

/// What the boundary hands back for a foreign input, given how storing the
/// decoded message went: none for an absent or non-UTF-8 input, else the
/// terminated buffer of the reply, if it has one.
pub open spec fn boundary_reply(input: Option<Seq<u8>>, stored: Result<(), Seq<char>>) -> Option<
    Seq<u8>,
> {
    match decoded_message(input) {
        Some(message) => reply_buffer(outcome_text(message, stored)),
        None => None,
    }
}

/// Encoding a concatenation gives the concatenation of the encodings.
pub proof fn lemma_encode_utf8_concat(a: Seq<char>, b: Seq<char>)
    ensures
        encode_utf8(a + b) == encode_utf8(a) + encode_utf8(b),
    decreases a.len(),
{
    if a.len() == 0 {
        assert(a + b == b);
        assert(encode_utf8(a) + encode_utf8(b) == encode_utf8(b));
    } else {
        assert((a + b)[0] == a[0]);
        assert((a + b).drop_first() == a.drop_first() + b);
        lemma_encode_utf8_concat(a.drop_first(), b);
        assert(encode_utf8(a + b) == encode_scalar(a[0] as u32) + encode_utf8(a.drop_first() + b));
        assert(encode_utf8(a) == encode_scalar(a[0] as u32) + encode_utf8(a.drop_first()));
        assert(encode_utf8(a + b) == encode_utf8(a) + encode_utf8(b));
    }
}

/// A byte occurs in a concatenation exactly when it occurs in one of the parts.
pub proof fn lemma_contains_concat(a: Seq<u8>, b: Seq<u8>, x: u8)
    ensures
        (a + b).contains(x) <==> a.contains(x) || b.contains(x),
{
    if (a + b).contains(x) {
        let i = choose|i: int| 0 <= i < (a + b).len() && (a + b)[i] == x;
        if i < a.len() {
            assert(a[i] == x);
        } else {
            assert(b[i - a.len()] == x);
        }
    }
    if a.contains(x) {
        let i = choose|i: int| 0 <= i < a.len() && a[i] == x;
        assert((a + b)[i] == x);
    }
    if b.contains(x) {
        let i = choose|i: int| 0 <= i < b.len() && b[i] == x;
        assert((a + b)[i + a.len()] == x);
    }
}

/// Printable ASCII text encodes without a zero byte.
proof fn lemma_ascii_encoding_has_no_zero(chars: Seq<char>)
    requires
        forall|i: int| 0 <= i < chars.len() ==> '\u{1}' <= #[trigger] chars[i] <= '\u{7f}',
    ensures
        !encode_utf8(chars).contains(0u8),
{
    assert(is_ascii_chars(chars));
    is_ascii_chars_encode_utf8(chars);
    assert forall|i: int| 0 <= i < encode_utf8(chars).len() implies encode_utf8(chars)[i] != 0u8 by {
        assert(chars[i] as u8 == encode_utf8(chars)[i]);
    }
}

/// The fixed parts of every reply encode without a zero byte.
proof fn lemma_reply_literals_have_no_zero()
    ensures
        !encode_utf8("Message received: ["@).contains(0u8),
        !encode_utf8("]"@).contains(0u8),
        !encode_utf8(" (DB Error: "@).contains(0u8),
        !encode_utf8(")"@).contains(0u8),
{
    reveal_strlit("Message received: [");
    reveal_strlit("]");
    reveal_strlit(" (DB Error: ");
    reveal_strlit(")");
    lemma_ascii_encoding_has_no_zero("Message received: ["@);
    lemma_ascii_encoding_has_no_zero("]"@);
    lemma_ascii_encoding_has_no_zero(" (DB Error: "@);
    lemma_ascii_encoding_has_no_zero(")"@);
}

/// The encoding of a reply: the input's own bytes, framed by the fixed text.
proof fn lemma_reply_encoding(input: Seq<u8>, stored: Result<(), Seq<char>>)
    requires
        valid_utf8(input),
    ensures
        encode_utf8(outcome_text(decode_utf8(input), stored)) == match stored {
            Ok(_) => encode_utf8("Message received: ["@) + input + encode_utf8("]"@),
            Err(cause) => encode_utf8("Message received: ["@) + input + encode_utf8("]"@)
                + encode_utf8(" (DB Error: "@) + encode_utf8(cause) + encode_utf8(")"@),
        },
{
    let m = decode_utf8(input);
    decode_utf8_encode_utf8(input);
    lemma_encode_utf8_concat("Message received: ["@, m);
    lemma_encode_utf8_concat("Message received: ["@ + m, "]"@);
    if let Err(cause) = stored {
        let t = message_text(m);
        lemma_encode_utf8_concat(t, " (DB Error: "@);
        lemma_encode_utf8_concat(t + " (DB Error: "@, cause);
        lemma_encode_utf8_concat(t + " (DB Error: "@ + cause, ")"@);
        assert(degraded_text(m, cause) == t + " (DB Error: "@ + cause + ")"@);
    }
}

/// The boundary hands back no buffer exactly when the input is absent, is not
/// UTF-8, or its reply cannot be terminated, which is when the input holds a
/// zero byte or the store's error text does.
pub proof fn lemma_no_reply_iff(input: Option<Seq<u8>>, stored: Result<(), Seq<char>>)
    ensures
        boundary_reply(input, stored) is None <==> {
            ||| input is None
            ||| !valid_utf8(input->0)
            ||| input->0.contains(0u8)
            ||| (stored is Err && encode_utf8(stored->Err_0).contains(0u8))
        },
{
    if let Some(b) = input {
        if valid_utf8(b) {
            lemma_reply_encoding(b, stored);
            lemma_reply_literals_have_no_zero();
            let pre = encode_utf8("Message received: ["@);
            let close = encode_utf8("]"@);
            lemma_contains_concat(pre, b, 0u8);
            lemma_contains_concat(pre + b, close, 0u8);
            if let Err(cause) = stored {
                let mid = encode_utf8(" (DB Error: "@);
                let c = encode_utf8(cause);
                lemma_contains_concat(pre + b + close, mid, 0u8);
                lemma_contains_concat(pre + b + close + mid, c, 0u8);
                lemma_contains_concat(pre + b + close + mid + c, encode_utf8(")"@), 0u8);
            }
        }
    }
}

/// For valid input text (UTF-8 without a zero byte), once the message is
/// stored the boundary hands back a terminated buffer, and decoding it up to
/// the terminator gives exactly the plain formatter's reply.
pub proof fn lemma_reply_round_trip(input: Seq<u8>)
    requires
        valid_utf8(input),
        !input.contains(0u8),
    ensures
        boundary_reply(Some(input), Ok(())) is Some,
        ({
            let buf = boundary_reply(Some(input), Ok(()))->0;
            &&& buf.len() > 0
            &&& buf.last() == 0u8
            &&& valid_utf8(buf.drop_last())
            &&& decode_utf8(buf.drop_last()) == message_text(decode_utf8(input))
        }),
{
    broadcast use encode_utf8_decode_utf8, encode_utf8_valid_utf8;

    lemma_no_reply_iff(Some(input), Ok(()));
    let t = message_text(decode_utf8(input));
    assert(encode_utf8(t).push(0u8).drop_last() == encode_utf8(t));
}

} // verus!
