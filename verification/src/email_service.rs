//! The work on one message: reading it, filtering it by its subject, asking
//! the model about it, and stamping what the model returns.

use vstd::prelude::*;
use crate::mail::{content_of, extract_email_content, ContentError};
use crate::markup::{document_tree, html_to_text, visible_text};
use crate::message::{MailFields, ParsedEmailContent, RawGmailMessage};
use crate::receipt::{
    all_stamped, build_prompt, is_stamped, prompt_text, stamp_receipts, ExtractionRequest,
    Receipt, ReceiptRecord,
};
use crate::relevance::{
    build_keyword_regex, keyword_pattern, regex_search, relevance, FilterError, KeywordRegex,
};
use crate::text::views;

verus! {

/// Why a message yields no receipt without the model being asked.
#[derive(Debug, Clone, Copy, PartialEq, Eq, Structural)]
pub enum SkipReason {
    /// The message could not be fetched.
    NotFetched,
    /// The message could not be read.
    Unreadable(ContentError),
    /// The message has no subject.
    NoSubject,
    /// The filter could not be applied.
    FilterBroken,
    /// The subject does not speak of a payment.
    Irrelevant,
    /// The message does not name its sender.
    NoSender,
    /// The message has no HTML body.
    NoBody,
    /// The message has no date.
    NoDate,
}

/// A message that passed the filter: what is needed to ask the model about
/// it and to stamp its receipts.
#[derive(Debug)]
pub struct Extraction {
    pub request: ExtractionRequest,
    pub issuer: String,
    pub timestamp: i64,
}

/// What is done with one message.
#[derive(Debug)]
pub enum MessageStep {
    /// The message yields no receipt.
    Skip(SkipReason),
    /// The model is asked.
    Extract(Extraction),
}

/// The mathematical form of an `Extraction`.
pub struct ExtractionPlan {
    pub model: Seq<char>,
    pub prompt: Seq<char>,
    pub issuer: Seq<char>,
    pub timestamp: i64,
}

/// The mathematical form of a `MessageStep`.
pub enum MessagePlan {
    Skip(SkipReason),
    Extract(ExtractionPlan),
}

impl View for Extraction {
    type V = ExtractionPlan;

    open spec fn view(&self) -> ExtractionPlan {
        ExtractionPlan {
            model: self.request.model@,
            prompt: self.request.prompt@,
            issuer: self.issuer@,
            timestamp: self.timestamp,
        }
    }
}

impl View for MessageStep {
    type V = MessagePlan;

    open spec fn view(&self) -> MessagePlan {
        match self {
            MessageStep::Skip(reason) => MessagePlan::Skip(*reason),
            MessageStep::Extract(extraction) => MessagePlan::Extract(extraction@),
        }
    }
}

/// Of a message with a subject, what the model is asked about: the issuer,
/// the HTML body and the date.
pub struct Selected {
    pub issuer: Seq<char>,
    pub html: Seq<char>,
    pub timestamp: i64,
}

/// Whether a message goes to the model, given its fields and what the filter
/// said of its subject. It goes where the filter matched and the sender's
/// name, the HTML body and the date are all there.
pub open spec fn selection(fields: MailFields, relevant: Result<bool, FilterError>) -> Result<
    Selected,
    SkipReason,
> {
    match relevant {
        Err(_) => Err(SkipReason::FilterBroken),
        Ok(false) => Err(SkipReason::Irrelevant),
        Ok(true) => if fields.from_name.is_none() {
            Err(SkipReason::NoSender)
        } else if fields.html.is_none() {
            Err(SkipReason::NoBody)
        } else if fields.timestamp.is_none() {
            Err(SkipReason::NoDate)
        } else {
            Ok(
                Selected {
                    issuer: fields.from_name.unwrap(),
                    html: fields.html.unwrap(),
                    timestamp: fields.timestamp.unwrap(),
                },
            )
        },
    }
}

/// What is done with a message whose transport encoding is `raw`, by a
/// service with the filter `pattern` and the model `model`.
pub open spec fn message_plan(pattern: Seq<char>, model: Seq<char>, raw: Seq<char>) -> MessagePlan {
    match content_of(raw) {
        Err(e) => MessagePlan::Skip(SkipReason::Unreadable(e)),
        Ok(fields) => match fields.subject {
            None => MessagePlan::Skip(SkipReason::NoSubject),
            Some(subject) => match selection(fields, relevance(regex_search(pattern, subject))) {
                Err(reason) => MessagePlan::Skip(reason),
                Ok(selected) => MessagePlan::Extract(
                    ExtractionPlan {
                        model,
                        prompt: prompt_text(
                            selected.issuer,
                            visible_text(document_tree(selected.html)),
                        ),
                        issuer: selected.issuer,
                        timestamp: selected.timestamp,
                    },
                ),
            },
        },
    }
}

/// The receipts of a message: none where it was skipped or the model gave no
/// usable answer, else the model's drafts, stamped.
pub open spec fn message_receipts(
    owner: Seq<char>,
    msg_id: Seq<char>,
    plan: MessagePlan,
    answer: Option<Seq<ReceiptRecord>>,
) -> Seq<ReceiptRecord> {
    match (plan, answer) {
        (MessagePlan::Extract(x), Some(drafts)) => all_stamped(
            drafts,
            msg_id,
            x.issuer,
            owner,
            x.timestamp,
        ),
        _ => Seq::empty(),
    }
}

/// Every receipt of a message says where it comes from: it names the
/// message and the owner it was asked for, an issuer and a time.
pub proof fn lemma_receipts_are_stamped(
    owner: Seq<char>,
    msg_id: Seq<char>,
    plan: MessagePlan,
    answer: Option<Seq<ReceiptRecord>>,
)
    ensures
        forall|k: int|
            0 <= k < message_receipts(owner, msg_id, plan, answer).len() ==> {
                let r = #[trigger] message_receipts(owner, msg_id, plan, answer)[k];
                &&& is_stamped(r)
                &&& r.msg_id == Some(msg_id)
                &&& r.owner == Some(owner)
            },
{
}

/// The part of the email service that decides: the name of the model, and
/// the filter on subject lines.
#[derive(Debug)]
pub struct EmailService {
    pub model_name: String,
    pub subject_filter: KeywordRegex,
}

impl EmailService {
    /// A service that asks the model `model_name` about the messages whose
    /// subject holds one of `keywords` as a whole word.
    pub fn new(model_name: String, keywords: &Vec<String>) -> (service: EmailService)
        ensures
            service.model_name@ == model_name@,
            service.subject_filter@ == keyword_pattern(views(keywords@)),
    {
        EmailService { model_name, subject_filter: build_keyword_regex(keywords) }
    }

    /// Decides whether a message with a subject goes to the model, from its
    /// fields and from what the filter said of its subject.
    pub fn select(content: &ParsedEmailContent, relevant: Result<bool, FilterError>) -> (r: Result<
        (String, String, i64),
        SkipReason,
    >)
        ensures
            match r {
                Ok(found) => selection(content@, relevant) == Ok::<Selected, SkipReason>(
                    Selected { issuer: found.0@, html: found.1@, timestamp: found.2 },
                ),
                Err(reason) => selection(content@, relevant) == Err::<Selected, SkipReason>(
                    reason,
                ),
            },
    {
        match relevant {
            Err(_) => Err(SkipReason::FilterBroken),
            Ok(false) => Err(SkipReason::Irrelevant),
            Ok(true) => match &content.from_name {
                None => Err(SkipReason::NoSender),
                Some(issuer) => match &content.html {
                    None => Err(SkipReason::NoBody),
                    Some(html) => match content.timestamp {
                        None => Err(SkipReason::NoDate),
                        Some(timestamp) => Ok((issuer.clone(), html.clone(), timestamp)),
                    },
                },
            },
        }
    }

    /// Takes a fetched message as far as the model: reads it, applies the
    /// filter to its subject and, where it passes, writes the request.
    pub fn single_process(&self, fetched: Option<&RawGmailMessage>) -> (step: MessageStep)
        ensures
            step@ == match fetched {
                None => MessagePlan::Skip(SkipReason::NotFetched),
                Some(message) => message_plan(
                    self.subject_filter@,
                    self.model_name@,
                    message.raw@,
                ),
            },
    {
        let message: &RawGmailMessage = match fetched {
            None => {
                return MessageStep::Skip(SkipReason::NotFetched);
            },
            Some(message) => message,
        };
        let content: ParsedEmailContent = match extract_email_content(message.raw.as_str()) {
            Err(e) => {
                return MessageStep::Skip(SkipReason::Unreadable(e));
            },
            Ok(content) => content,
        };
        let relevant: Result<bool, FilterError> = match &content.subject {
            None => {
                return MessageStep::Skip(SkipReason::NoSubject);
            },
            Some(subject) => self.subject_filter.is_match(subject.as_str()),
        };
        match EmailService::select(&content, relevant) {
            Err(reason) => MessageStep::Skip(reason),
            Ok((issuer, html, timestamp)) => {
                let text: String = html_to_text(html.as_str());
                let prompt: String = build_prompt(issuer.as_str(), text.as_str());
                MessageStep::Extract(
                    Extraction {
                        request: ExtractionRequest { model: self.model_name.clone(), prompt },
                        issuer,
                        timestamp,
                    },
                )
            },
        }
    }

    /// The receipts of a message of `owner`, from what was decided of it and
    /// what the model answered. `answer` is nothing where the model was not
    /// asked, did not answer, or answered what is no list of transactions.
    pub fn finish_message(
        owner: &str,
        msg_id: &str,
        step: &MessageStep,
        answer: Option<Vec<Receipt>>,
    ) -> (receipts: Vec<Receipt>)
        ensures
            views(receipts@) == message_receipts(
                owner@,
                msg_id@,
                step@,
                match answer {
                    Some(drafts) => Some(views(drafts@)),
                    None => None,
                },
            ),
    {
        match (step, answer) {
            (MessageStep::Extract(x), Some(drafts)) => stamp_receipts(
                drafts,
                msg_id,
                x.issuer.as_str(),
                owner,
                x.timestamp,
            ),
            _ => {
                let none: Vec<Receipt> = Vec::new();
                proof {
                    assert(views(none@) == Seq::<ReceiptRecord>::empty());
                }
                none
            },
        }
    }
}

} // verus!
