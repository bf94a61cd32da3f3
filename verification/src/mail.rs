//! Reading a raw message: transport decoding, then MIME parsing.

use vstd::prelude::*;
use vstd::utf8::encode_utf8;
use crate::message::{MailFields, ParsedEmailContent};
use crate::transport::{base64url_decoding, decode_base64url};

verus! {

/// Why the content of a message could not be read.
#[derive(Debug, Clone, Copy, PartialEq, Eq, Structural)]
pub enum ContentError {
    /// The transport encoding is broken.
    Transport,
    /// The bytes are no message: there is not one header in them.
    NotAMessage,
}

/// What the mail parser reads from the bytes `raw`: the fields of the
/// message, or nothing where it finds no message in them.
pub uninterp spec fn parsed_mail(raw: Seq<u8>) -> Option<MailFields>;

/// What `extract_email_content` makes of a raw message in transport encoding.
pub open spec fn content_of(raw: Seq<char>) -> Result<MailFields, ContentError> {
    match base64url_decoding(encode_utf8(raw)) {
        None => Err(ContentError::Transport),
        Some(bytes) => match parsed_mail(bytes) {
            None => Err(ContentError::NotAMessage),
            Some(fields) => Ok(fields),
        },
    }
}

/// Parses `raw` with `mail_parser::MessageParser::default().parse`, which
/// gives nothing when it finds no header, and reads from the message its
/// subject, the name and the address of the first sender, the first text
/// body, the first HTML body, and the date as seconds since the Unix epoch.
#[verifier::external_body]
fn parse_mail(raw: &Vec<u8>) -> (r: Option<ParsedEmailContent>)
    ensures
        match r {
            Some(content) => parsed_mail(raw@) == Some(content@),
            None => parsed_mail(raw@).is_none(),
        },
{
    let parsed = mail_parser::MessageParser::default().parse(raw)?;
    let sender = parsed.from().and_then(|list| list.first());
    Some(ParsedEmailContent {
        subject: parsed.subject().map(|s| s.to_string()),
        from_name: sender.and_then(|a| a.name()).map(|s| s.to_string()),
        from_addr: sender.and_then(|a| a.address()).map(|s| s.to_string()),
        text: parsed.body_text(0).map(|s| s.to_string()),
        html: parsed.body_html(0).map(|s| s.to_string()),
        timestamp: parsed.date().map(|d| d.to_timestamp()),
    })
}

/// Reads the fields of a message from its bytes.
pub fn parse_message(raw: &Vec<u8>) -> (r: Result<ParsedEmailContent, ContentError>)
    ensures
        match r {
            Ok(content) => parsed_mail(raw@) == Some(content@),
            Err(e) => e == ContentError::NotAMessage && parsed_mail(raw@).is_none(),
        },
{
    match parse_mail(raw) {
        Some(content) => Ok(content),
        None => Err(ContentError::NotAMessage),
    }
}

/// Reads the fields of a message from its transport encoding: URL-safe
/// base64 without padding around the bytes of the message.
pub fn extract_email_content(raw: &str) -> (r: Result<ParsedEmailContent, ContentError>)
    ensures
        match r {
            Ok(content) => content_of(raw@) == Ok::<MailFields, ContentError>(content@),
            Err(e) => content_of(raw@) == Err::<MailFields, ContentError>(e),
        },
{
    match decode_base64url(raw) {
        Err(_) => Err(ContentError::Transport),
        Ok(bytes) => parse_message(&bytes),
    }
}

} // verus!
