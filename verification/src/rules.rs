//! Rules that tell by sender and subject which issuer a message is from.

use vstd::prelude::*;
use crate::relevance::{regex_search, relevance, FilterError, KeywordRegex};
use crate::text::{chars_of, views};

verus! {

/// How the amounts of an issuer are to be read.
#[derive(Debug)]
pub struct Normalize {
    /// Whether a currency may be given by its symbol.
    pub currency_from_symbol: bool,
    pub decimal_heuristics: Option<String>,
    pub tz: Option<String>,
}

/// The rule of one issuer.
#[derive(Debug)]
pub struct CompiledRule {
    pub id: String,
    /// The rule applies to senders that hold one of these texts.
    pub from_contains: Vec<String>,
    /// Where there is one, the rule applies to subjects in which it matches.
    pub subject_re: Option<KeywordRegex>,
    pub patterns: Vec<KeywordRegex>,
    pub norm: Normalize,
}

/// Whether `needle` stands somewhere in `hay`.
pub open spec fn occurs_in(needle: Seq<char>, hay: Seq<char>) -> bool {
    exists|i: int| occurs_at(needle, hay, i)
}

/// Whether `needle` stands in `hay` at place `i`.
pub open spec fn occurs_at(needle: Seq<char>, hay: Seq<char>, i: int) -> bool {
    0 <= i && i + needle.len() <= hay.len() && hay.subrange(i, i + needle.len()) == needle
}

/// Whether one of `needles` stands somewhere in `hay`.
pub open spec fn any_occurs_in(needles: Seq<Seq<char>>, hay: Seq<char>) -> bool {
    exists|k: int| 0 <= k < needles.len() && occurs_in(#[trigger] needles[k], hay)
}

/// Whether a rule for senders holding one of `from_contains` and subjects
/// matching `subject_re` applies to a message from `from` with the subject
/// `subject`. A sender that fits no text settles it; else the subject
/// decides, and every subject fits where the rule has no pattern.
pub open spec fn applies_to(
    from_contains: Seq<Seq<char>>,
    subject_re: Option<Seq<char>>,
    from: Seq<char>,
    subject: Seq<char>,
) -> Result<bool, FilterError> {
    if !any_occurs_in(from_contains, from) {
        Ok(false)
    } else {
        match subject_re {
            None => Ok(true),
            Some(pattern) => relevance(regex_search(pattern, subject)),
        }
    }
}

/// Whether `needle` stands in `hay` at place `at`.
pub fn matches_at(needle: &Vec<char>, hay: &Vec<char>, at: usize) -> (found: bool)
    requires
        at + needle.len() <= hay.len(),
    ensures
        found == occurs_at(needle@, hay@, at as int),
{
    let mut j: usize = 0;
    while j < needle.len()
        invariant
            j <= needle.len(),
            at + needle.len() <= hay.len(),
            forall|k: int| 0 <= k < j ==> hay@[at + k] == needle@[k],
        decreases needle.len() - j,
    {
        if hay[at + j] != needle[j] {
            proof {
                assert(hay@.subrange(at as int, at + needle.len())[j as int] != needle@[j as int]);
            }
            return false;
        }
        j += 1;
    }
    proof {
        assert(hay@.subrange(at as int, at + needle.len()) == needle@);
    }
    true
}

/// Whether `needle` stands somewhere in `hay`.
pub fn contains_text(hay: &Vec<char>, needle: &Vec<char>) -> (found: bool)
    ensures
        found == occurs_in(needle@, hay@),
{
    if needle.len() > hay.len() {
        return false;
    }
    let last: usize = hay.len() - needle.len();
    let mut i: usize = 0;
    while i < last
        invariant
            i <= last,
            last == hay.len() - needle.len(),
            forall|k: int| 0 <= k < i ==> !occurs_at(needle@, hay@, k),
        decreases last - i,
    {
        if matches_at(needle, hay, i) {
            return true;
        }
        i += 1;
    }
    matches_at(needle, hay, last)
}

/// Whether `rule` applies to a message from `from` with the subject
/// `subject`.
pub fn applies(rule: &CompiledRule, from: &str, subject: &str) -> (r: Result<bool, FilterError>)
    ensures
        r == applies_to(
            views(rule.from_contains@),
            match rule.subject_re {
                Some(re) => Some(re@),
                None => None,
            },
            from@,
            subject@,
        ),
{
    let sender: Vec<char> = chars_of(from);
    let mut from_ok: bool = false;
    let mut i: usize = 0;
    while i < rule.from_contains.len() && !from_ok
        invariant
            i <= rule.from_contains.len(),
            sender@ == from@,
            from_ok ==> any_occurs_in(views(rule.from_contains@), from@),
            !from_ok ==> forall|k: int|
                0 <= k < i ==> !occurs_in(#[trigger] views(rule.from_contains@)[k], from@),
        decreases rule.from_contains.len() - i,
    {
        let needle: Vec<char> = chars_of(rule.from_contains[i].as_str());
        if contains_text(&sender, &needle) {
            proof {
                assert(occurs_in(views(rule.from_contains@)[i as int], from@));
            }
            from_ok = true;
        }
        i += 1;
    }
    if !from_ok {
        return Ok(false);
    }
    match &rule.subject_re {
        None => Ok(true),
        Some(re) => re.is_match(subject),
    }
}

} // verus!
