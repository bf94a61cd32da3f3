//! Receipts: the records that the pipeline extracts, the prompt that asks
//! the model for them, and the stamping of what the model returns.

use vstd::prelude::*;
use crate::text::{copy_opt_text, copy_texts, opt_text, views};

verus! {

/// An amount of money, held as the bit pattern of the IEEE 754 binary64
/// number that the model returned. The pipeline carries it and never
/// computes with it.
#[derive(Debug, Clone, Copy, PartialEq, Eq, Structural)]
pub struct Amount {
    pub bits: u64,
}

/// One transaction read from a message.
#[derive(Debug)]
pub struct Receipt {
    /// The id of the message that the receipt was read from.
    pub msg_id: Option<String>,
    /// The email address of the user whose mailbox held the message.
    pub owner: Option<String>,
    /// The display name of the sender.
    pub issuer: Option<String>,
    pub merchant: Option<String>,
    pub amount: Option<Amount>,
    pub currency: Option<String>,
    pub categories: Option<Vec<String>>,
    /// Seconds since the Unix epoch at which the message was sent.
    pub timestamp: Option<i64>,
}

/// A batch of receipts.
#[derive(Debug)]
pub struct ReceiptList {
    pub transactions: Vec<Receipt>,
}

/// The mathematical form of an optional list of strings.
pub open spec fn opt_texts(list: Option<Vec<String>>) -> Option<Seq<Seq<char>>> {
    match list {
        Some(l) => Some(views(l@)),
        None => None,
    }
}

/// The mathematical form of a `Receipt`.
pub struct ReceiptRecord {
    pub msg_id: Option<Seq<char>>,
    pub owner: Option<Seq<char>>,
    pub issuer: Option<Seq<char>>,
    pub merchant: Option<Seq<char>>,
    pub amount: Option<Amount>,
    pub currency: Option<Seq<char>>,
    pub categories: Option<Seq<Seq<char>>>,
    pub timestamp: Option<i64>,
}

impl View for Receipt {
    type V = ReceiptRecord;

    open spec fn view(&self) -> ReceiptRecord {
        ReceiptRecord {
            msg_id: opt_text(self.msg_id),
            owner: opt_text(self.owner),
            issuer: opt_text(self.issuer),
            merchant: opt_text(self.merchant),
            amount: self.amount,
            currency: opt_text(self.currency),
            categories: opt_texts(self.categories),
            timestamp: self.timestamp,
        }
    }
}

impl View for ReceiptList {
    type V = Seq<ReceiptRecord>;

    open spec fn view(&self) -> Seq<ReceiptRecord> {
        views(self.transactions@)
    }
}

impl Clone for Receipt {
    fn clone(&self) -> (copy: Receipt)
        ensures
            copy@ == self@,
    {
        Receipt {
            msg_id: copy_opt_text(&self.msg_id),
            owner: copy_opt_text(&self.owner),
            issuer: copy_opt_text(&self.issuer),
            merchant: copy_opt_text(&self.merchant),
            amount: self.amount,
            currency: copy_opt_text(&self.currency),
            categories: copy_categories(&self.categories),
            timestamp: self.timestamp,
        }
    }
}

/// A copy of an optional list of categories.
pub fn copy_categories(list: &Option<Vec<String>>) -> (copy: Option<Vec<String>>)
    ensures
        opt_texts(copy) == opt_texts(*list),
{
    match list {
        Some(l) => Some(copy_texts(l)),
        None => None,
    }
}

/// Whether a receipt says where it comes from: its message, its owner, its
/// issuer and its time are all there.
pub open spec fn is_stamped(r: ReceiptRecord) -> bool {
    r.msg_id.is_some() && r.owner.is_some() && r.issuer.is_some() && r.timestamp.is_some()
}

/// `draft` with its origin set: message, issuer, owner and time. What the
/// model said of merchant, amount, currency and categories stays.
pub open spec fn stamped(
    draft: ReceiptRecord,
    msg_id: Seq<char>,
    issuer: Seq<char>,
    owner: Seq<char>,
    timestamp: i64,
) -> ReceiptRecord {
    ReceiptRecord {
        msg_id: Some(msg_id),
        owner: Some(owner),
        issuer: Some(issuer),
        merchant: draft.merchant,
        amount: draft.amount,
        currency: draft.currency,
        categories: draft.categories,
        timestamp: Some(timestamp),
    }
}

/// Every draft of `drafts` with its origin set, in order.
pub open spec fn all_stamped(
    drafts: Seq<ReceiptRecord>,
    msg_id: Seq<char>,
    issuer: Seq<char>,
    owner: Seq<char>,
    timestamp: i64,
) -> Seq<ReceiptRecord> {
    drafts.map_values(|d: ReceiptRecord| stamped(d, msg_id, issuer, owner, timestamp))
}

/// Sets the origin of every draft: the message it was read from, the issuer,
/// the owner and the time.
pub fn stamp_receipts(
    drafts: Vec<Receipt>,
    msg_id: &str,
    issuer: &str,
    owner: &str,
    timestamp: i64,
) -> (receipts: Vec<Receipt>)
    ensures
        views(receipts@) == all_stamped(views(drafts@), msg_id@, issuer@, owner@, timestamp),
{
    let mut receipts: Vec<Receipt> = Vec::new();
    let mut i: usize = 0;
    while i < drafts.len()
        invariant
            i <= drafts.len(),
            views(receipts@) == all_stamped(
                views(drafts@).take(i as int),
                msg_id@,
                issuer@,
                owner@,
                timestamp,
            ),
        decreases drafts.len() - i,
    {
        let draft: &Receipt = &drafts[i];
        let receipt = Receipt {
            msg_id: Some(String::from_str(msg_id)),
            owner: Some(String::from_str(owner)),
            issuer: Some(String::from_str(issuer)),
            merchant: copy_opt_text(&draft.merchant),
            amount: draft.amount,
            currency: copy_opt_text(&draft.currency),
            categories: copy_categories(&draft.categories),
            timestamp: Some(timestamp),
        };
        proof {
            let done = views(drafts@).take(i as int);
            assert(views(drafts@).take(i + 1) == done.push(drafts@[i as int]@));
            assert(views(receipts@.push(receipt)) == views(receipts@).push(receipt@));
            assert(all_stamped(done.push(drafts@[i as int]@), msg_id@, issuer@, owner@, timestamp)
                == all_stamped(done, msg_id@, issuer@, owner@, timestamp).push(
                stamped(drafts@[i as int]@, msg_id@, issuer@, owner@, timestamp),
            ));
        }
        receipts.push(receipt);
        i += 1;
    }
    proof {
        assert(views(drafts@).take(drafts.len() as int) == views(drafts@));
    }
    receipts
}

/// Every receipt that `stamp_receipts` hands out says where it comes from.
pub proof fn lemma_all_stamped_is_stamped(
    drafts: Seq<ReceiptRecord>,
    msg_id: Seq<char>,
    issuer: Seq<char>,
    owner: Seq<char>,
    timestamp: i64,
)
    ensures
        forall|k: int|
            0 <= k < drafts.len() ==> is_stamped(
                #[trigger] all_stamped(drafts, msg_id, issuer, owner, timestamp)[k],
            ),
        all_stamped(drafts, msg_id, issuer, owner, timestamp).len() == drafts.len(),
{
}

/// The month after the month `month` of the year `year`, as year and month.
pub open spec fn month_after(year: int, month: int) -> (int, int) {
    if month == 12 {
        (year + 1, 1)
    } else {
        (year, month + 1)
    }
}

/// The month that follows a month, for the end of the span of time in which
/// the receipts of that month lie.
pub fn next_month(year: i32, month: u32) -> (next: (i32, u32))
    requires
        1 <= month <= 12,
        year < i32::MAX,
    ensures
        (next.0 as int, next.1 as int) == month_after(year as int, month as int),
{
    if month == 12 {
        (year + 1, 1)
    } else {
        (year, month + 1)
    }
}

/// The request that asks the model for the transactions of one message.
#[derive(Debug)]
pub struct ExtractionRequest {
    pub model: String,
    pub prompt: String,
}

/// The prompt for a message of `issuer` whose text is `text`.
pub open spec fn prompt_text(issuer: Seq<char>, text: Seq<char>) -> Seq<char> {
    "Issuer is "@ + issuer + ". Identify the transactions in this text \n "@ + text
        + " \n and Return ONLY valid JSON for the schema: { 'transactions': [ {'merchant': '...', 'amount': 0.0, 'currency': '...'} ] }"@
}

/// Writes the prompt for a message of `issuer` whose text is `text`.
pub fn build_prompt(issuer: &str, text: &str) -> (prompt: String)
    ensures
        prompt@ == prompt_text(issuer@, text@),
{
    let mut prompt: String = String::from_str("Issuer is ");
    prompt.append(issuer);
    prompt.append(". Identify the transactions in this text \n ");
    prompt.append(text);
    prompt.append(
        " \n and Return ONLY valid JSON for the schema: { 'transactions': [ {'merchant': '...', 'amount': 0.0, 'currency': '...'} ] }",
    );
    prompt
}

} // verus!
