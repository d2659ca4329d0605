use vstd::prelude::*;
use vstd::string::*;

verus! {

/// The reply for a received message: `Message received: [<message>]`.
pub open spec fn message_text(message: Seq<char>) -> Seq<char> {
    "Message received: ["@ + message + "]"@
}

/// Formats a received message without touching any store.
pub fn format_message(input: &str) -> (r: String)
    ensures
        r@ == message_text(input@),
{
    let mut r = String::from_str("Message received: [");
    r.append(input);
    r.append("]");
    r
}

/// The reply when storing the message failed with `cause`: the plain reply
/// followed by ` (DB Error: <cause>)`.
pub open spec fn degraded_text(message: Seq<char>, cause: Seq<char>) -> Seq<char> {
    message_text(message) + " (DB Error: "@ + cause + ")"@
}

/// The reply text for a message, given whether storing it succeeded.
pub open spec fn outcome_text(message: Seq<char>, stored: Result<(), Seq<char>>) -> Seq<char> {
    match stored {
        Ok(_) => message_text(message),
        Err(cause) => degraded_text(message, cause),
    }
}

/// The view of a storage outcome: success, or the text of the store's error.
pub open spec fn stored_view(stored: Result<(), String>) -> Result<(), Seq<char>> {
    match stored {
        Ok(_) => Ok(()),
        Err(e) => Err(e@),
    }
}

/// What formatting a message produced once the store was tried.
pub enum FormatOutcome {
    /// The message was stored; `text` is the plain reply.
    Stored { text: String },
    /// Storing failed with `cause`; `text` still carries the message and the cause.
    Degraded { text: String, cause: String },
}

impl FormatOutcome {
    pub open spec fn text_view(&self) -> Seq<char> {
        match self {
            FormatOutcome::Stored { text } => text@,
            FormatOutcome::Degraded { text, .. } => text@,
        }
    }

    /// The reply text, whichever way storing went.
    pub fn into_text(self) -> (r: String)
        ensures
            r@ == self.text_view(),
    {
        match self {
            FormatOutcome::Stored { text } => text,
            FormatOutcome::Degraded { text, .. } => text,
        }
    }
}

/// Formats a received message after an attempt to store it.
///
/// A storage failure never fails the call: it is folded into the reply text.
pub fn format_message_logged(input: &str, stored: Result<(), String>) -> (r: FormatOutcome)
    ensures
        r.text_view() == outcome_text(input@, stored_view(stored)),
        match stored {
            Ok(_) => r is Stored,
            Err(e) => r is Degraded && r->cause@ == e@,
        },
{
    let text = format_message(input);
    match stored {
        Ok(_) => FormatOutcome::Stored { text },
        Err(cause) => {
            let mut text = text;
            text.append(" (DB Error: ");
            text.append(cause.as_str());
            text.append(")");
            FormatOutcome::Degraded { text, cause }
        },
    }
}

/// After a storage failure the reply still holds the message, right after the
/// opening bracket, and the error marker with the cause after the closing one.
pub proof fn lemma_degraded_reply_keeps_input(message: Seq<char>, cause: Seq<char>)
    ensures
        ({
            let t = degraded_text(message, cause);
            let p = "Message received: ["@.len() as int;
            let q = p + message.len() + 1;
            let marker = " (DB Error: "@;
            &&& t.subrange(p, p + message.len()) == message
            &&& t.subrange(q, q + marker.len()) == marker
            &&& t.subrange(q + marker.len(), q + marker.len() + cause.len()) == cause
        }),
{
    let t = degraded_text(message, cause);
    let pre = "Message received: ["@;
    let p = pre.len() as int;
    let q = p + message.len() + 1;
    let marker = " (DB Error: "@;
    assert(t == pre + message + "]"@ + marker + cause + ")"@);
    reveal_strlit("]");
    assert(t.subrange(p, p + message.len()) =~= message);
    assert(t.subrange(q, q + marker.len()) =~= marker);
    assert(t.subrange(q + marker.len(), q + marker.len() + cause.len()) =~= cause);
}

} // verus!
