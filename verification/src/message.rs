//! What the mail provider hands out: message references, result pages, raw
//! messages, and the fields read from a parsed message.

use vstd::prelude::*;
use crate::text::opt_text;

verus! {

/// A reference to one message of a mailbox.
#[derive(Debug)]
pub struct GmailMessage {
    pub id: String,
    pub thread_id: String,
}

/// The mathematical form of a `GmailMessage`.
pub struct MessageRef {
    pub id: Seq<char>,
    pub thread_id: Seq<char>,
}

impl View for GmailMessage {
    type V = MessageRef;

    open spec fn view(&self) -> MessageRef {
        MessageRef { id: self.id@, thread_id: self.thread_id@ }
    }
}

impl Clone for GmailMessage {
    fn clone(&self) -> (copy: GmailMessage)
        ensures
            copy == *self,
    {
        GmailMessage { id: self.id.clone(), thread_id: self.thread_id.clone() }
    }
}

/// One page of a search: the references on it, and the cursor of the next
/// page where there is one.
#[derive(Debug, Clone)]
pub struct GmailMessagesResponse {
    pub messages: Option<Vec<GmailMessage>>,
    pub next_page_token: Option<String>,
    pub result_size_estimate: Option<u64>,
}

/// A message as the provider sends it: its id and its bytes in the URL-safe
/// base64 alphabet, unpadded.
#[derive(Debug, Clone)]
pub struct RawGmailMessage {
    pub id: String,
    pub raw: String,
}

/// The address at which the provider searches a mailbox.
pub const MESSAGES_URL: &'static str = "https://gmail.googleapis.com/gmail/v1/users/me/messages";

/// The address of the raw form of the message `id`.
pub open spec fn raw_message_address(id: Seq<char>) -> Seq<char> {
    MESSAGES_URL@ + "/"@ + id + "?format=raw"@
}

/// Writes the address at which the raw form of the message `id` is fetched.
pub fn raw_message_url(id: &str) -> (url: String)
    ensures
        url@ == raw_message_address(id@),
{
    let mut url: String = String::from_str(MESSAGES_URL);
    url.append("/");
    url.append(id);
    url.append("?format=raw");
    url
}

/// The fields of a message that the pipeline reads.
#[derive(Debug, Clone)]
pub struct ParsedEmailContent {
    pub subject: Option<String>,
    pub from_name: Option<String>,
    pub from_addr: Option<String>,
    pub text: Option<String>,
    pub html: Option<String>,
    /// Seconds since the Unix epoch at which the message was sent.
    pub timestamp: Option<i64>,
}

/// The mathematical form of a `ParsedEmailContent`.
pub struct MailFields {
    pub subject: Option<Seq<char>>,
    pub from_name: Option<Seq<char>>,
    pub from_addr: Option<Seq<char>>,
    pub text: Option<Seq<char>>,
    pub html: Option<Seq<char>>,
    pub timestamp: Option<i64>,
}

impl View for ParsedEmailContent {
    type V = MailFields;

    open spec fn view(&self) -> MailFields {
        MailFields {
            subject: opt_text(self.subject),
            from_name: opt_text(self.from_name),
            from_addr: opt_text(self.from_addr),
            text: opt_text(self.text),
            html: opt_text(self.html),
            timestamp: self.timestamp,
        }
    }
}

} // verus!
