//! The relevance filter: one case-insensitive, word-bounded regular
//! expression over a set of keywords, matched against a subject line.

use vstd::prelude::*;
use crate::text::{join_strings, joined, views};

verus! {

/// An outside type: why a pattern is no regular expression.
#[verifier::external_type_specification]
#[verifier::external_body]
pub struct ExRegexError(regex::Error);

/// Whether `c` has a meaning of its own in a regular expression.
pub open spec fn is_meta_character(c: char) -> bool {
    ||| c == '\\'
    ||| c == '.'
    ||| c == '+'
    ||| c == '*'
    ||| c == '?'
    ||| c == '('
    ||| c == ')'
    ||| c == '|'
    ||| c == '['
    ||| c == ']'
    ||| c == '{'
    ||| c == '}'
    ||| c == '^'
    ||| c == '$'
    ||| c == '#'
    ||| c == '&'
    ||| c == '-'
    ||| c == '~'
}

/// `c` as a literal of a regular expression: behind a backslash where it is
/// a meta character, else alone.
pub open spec fn escaped_char(c: char) -> Seq<char> {
    if is_meta_character(c) {
        seq!['\\', c]
    } else {
        seq![c]
    }
}

/// `text` as a literal of a regular expression.
pub open spec fn escaped(text: Seq<char>) -> Seq<char> {
    text.map_values(|c: char| escaped_char(c)).flatten()
}

/// The pattern that finds any of `words` as a whole word, whatever the case.
pub open spec fn keyword_pattern(words: Seq<Seq<char>>) -> Seq<char> {
    "(?i)\\b(?:"@ + joined(words.map_values(|w: Seq<char>| escaped(w)), "|"@) + ")\\b"@
}

/// What the regular-expression engine says of `pattern` and `text`: whether
/// the pattern matches somewhere in the text, or nothing where the pattern
/// does not compile.
pub uninterp spec fn regex_search(pattern: Seq<char>, text: Seq<char>) -> Option<bool>;

/// `regex::escape`: every meta character of `text` gets a backslash in front
/// of it, and nothing else changes.
#[verifier::external_body]
fn regex_escape(text: &str) -> (out: String)
    ensures
        out@ == escaped(text@),
{
    regex::escape(text)
}

/// Compiles `pattern` with `regex::Regex::new` and asks `Regex::is_match`
/// whether it matches somewhere in `text`. The error is the compiler's.
#[verifier::external_body]
fn regex_is_match(pattern: &str, text: &str) -> (r: Result<bool, regex::Error>)
    ensures
        match r {
            Ok(found) => regex_search(pattern@, text@) == Some(found),
            Err(_) => regex_search(pattern@, text@).is_none(),
        },
{
    regex::Regex::new(pattern).map(|re| re.is_match(text))
}

/// The filter could not be applied.
#[derive(Debug, Clone, Copy, PartialEq, Eq, Structural)]
pub enum FilterError {
    /// The pattern of the filter is no regular expression.
    InvalidPattern,
}

/// A keyword filter, held as the pattern of its regular expression.
#[derive(Debug, Clone)]
pub struct KeywordRegex {
    pub pattern: String,
}

impl View for KeywordRegex {
    type V = Seq<char>;

    open spec fn view(&self) -> Seq<char> {
        self.pattern@
    }
}

/// What a search says of relevance: a subject is relevant where the pattern
/// matches in it.
pub open spec fn relevance(found: Option<bool>) -> Result<bool, FilterError> {
    match found {
        Some(b) => Ok(b),
        None => Err(FilterError::InvalidPattern),
    }
}

/// Builds the filter that finds any of `words` as a whole word, whatever the
/// case.
pub fn build_keyword_regex(words: &Vec<String>) -> (filter: KeywordRegex)
    ensures
        filter@ == keyword_pattern(views(words@)),
{
    let mut quoted: Vec<String> = Vec::new();
    let mut i: usize = 0;
    while i < words.len()
        invariant
            i <= words.len(),
            views(quoted@) == views(words@).take(i as int).map_values(|w: Seq<char>| escaped(w)),
        decreases words.len() - i,
    {
        let q: String = regex_escape(words[i].as_str());
        proof {
            let done = views(words@).take(i as int);
            assert(views(words@).take(i + 1) == done.push(words@[i as int]@));
            assert(views(quoted@.push(q)) == views(quoted@).push(q@));
            assert(done.push(words@[i as int]@).map_values(|w: Seq<char>| escaped(w))
                == done.map_values(|w: Seq<char>| escaped(w)).push(escaped(words@[i as int]@)));
        }
        quoted.push(q);
        i += 1;
    }
    proof {
        assert(views(words@).take(words.len() as int) == views(words@));
    }
    let body: String = join_strings(&quoted, "|");
    let mut pattern: String = String::from_str("(?i)\\b(?:");
    pattern.append(body.as_str());
    pattern.append(")\\b");
    KeywordRegex { pattern }
}

/// The keywords that mark a subject line as one of a receipt, where no other
/// set is configured.
pub fn default_keywords() -> (words: Vec<String>)
    ensures
        views(words@) == seq!["transaction"@, "spent"@, "payment"@],
{
    let mut words: Vec<String> = Vec::new();
    words.push(String::from_str("transaction"));
    words.push(String::from_str("spent"));
    words.push(String::from_str("payment"));
    proof {
        assert(views(words@) == seq!["transaction"@, "spent"@, "payment"@]);
    }
    words
}

impl KeywordRegex {
    /// Whether `subject` is relevant: whether the pattern matches somewhere
    /// in it. An error where the pattern does not compile.
    pub fn is_match(&self, subject: &str) -> (r: Result<bool, FilterError>)
        ensures
            r == relevance(regex_search(self@, subject@)),
    {
        match regex_is_match(self.pattern.as_str(), subject) {
            Ok(found) => Ok(found),
            Err(_) => Err(FilterError::InvalidPattern),
        }
    }
}

} // verus!
