//! Amounts and currencies as they are written in messages.

use vstd::prelude::*;
use vstd::utf8::encode_utf8;
use crate::text::{chars_of, same_text, string_of, trim, trimmed};

verus! {

/// `s` without the character `c`.
pub open spec fn without(s: Seq<char>, c: char) -> Seq<char> {
    s.filter(|x: char| x != c)
}

/// The place of the last `c` in `s`, or -1 where there is none.
pub open spec fn last_index_of(s: Seq<char>, c: char) -> int
    decreases s.len(),
{
    if s.len() == 0 {
        -1
    } else if s.last() == c {
        s.len() - 1
    } else {
        last_index_of(s.drop_last(), c)
    }
}

/// Whether the comma is the decimal mark of `s`: it is where `s` has a comma
/// and either no dot, or its last dot before its last comma.
pub open spec fn comma_is_decimal(s: Seq<char>) -> bool {
    last_index_of(s, ',') >= 0 && last_index_of(s, ',') > last_index_of(s, '.')
}

/// The amount `raw` with a dot as its decimal mark and no other separator:
/// white space around it and spaces inside it go; where the comma is the
/// decimal mark, dots go and commas become dots; else commas go.
pub open spec fn canonical_amount(raw: Seq<char>) -> Seq<char> {
    let s = without(trimmed(raw), ' ');
    if comma_is_decimal(s) {
        without(s, '.').map_values(
            |x: char|
                if x == ',' {
                    '.'
                } else {
                    x
                },
        )
    } else {
        without(s, ',')
    }
}

/// `without` with one more character at the end.
pub proof fn lemma_without_push(s: Seq<char>, last: char, c: char)
    ensures
        without(s.push(last), c) == if last != c {
            without(s, c).push(last)
        } else {
            without(s, c)
        },
{
    reveal(Seq::filter);
    assert(s.push(last).drop_last() =~= s);
}

/// A copy of `chars` without the character `c`.
pub fn remove_char(chars: &Vec<char>, c: char) -> (out: Vec<char>)
    ensures
        out@ == without(chars@, c),
{
    let mut out: Vec<char> = Vec::new();
    let mut i: usize = 0;
    proof {
        reveal(Seq::filter);
        assert(without(chars@.take(0), c) == Seq::<char>::empty());
    }
    while i < chars.len()
        invariant
            i <= chars.len(),
            out@ == without(chars@.take(i as int), c),
        decreases chars.len() - i,
    {
        proof {
            assert(chars@.take(i + 1) == chars@.take(i as int).push(chars@[i as int]));
            lemma_without_push(chars@.take(i as int), chars@[i as int], c);
        }
        if chars[i] != c {
            out.push(chars[i]);
        }
        i += 1;
    }
    proof {
        assert(chars@.take(chars.len() as int) == chars@);
    }
    out
}

/// The place of the last `c` in `chars`, if there is one.
pub fn find_last(chars: &Vec<char>, c: char) -> (place: Option<usize>)
    ensures
        match place {
            Some(i) => last_index_of(chars@, c) == i && i < chars.len(),
            None => last_index_of(chars@, c) == -1,
        },
{
    let mut i: usize = chars.len();
    proof {
        assert(chars@.take(chars.len() as int) == chars@);
    }
    while i > 0
        invariant
            i <= chars.len(),
            last_index_of(chars@, c) == last_index_of(chars@.take(i as int), c),
        decreases i,
    {
        i -= 1;
        proof {
            assert(chars@.take(i + 1).drop_last() == chars@.take(i as int));
        }
        if chars[i] == c {
            return Some(i);
        }
    }
    None
}

/// Writes an amount with a dot as its decimal mark and no other separator.
pub fn canonicalize_amount(amount_raw: &str) -> (out: String)
    ensures
        out@ == canonical_amount(amount_raw@),
{
    let given: Vec<char> = chars_of(amount_raw);
    let s: Vec<char> = remove_char(&trim(&given), ' ');
    let comma: Option<usize> = find_last(&s, ',');
    let dot: Option<usize> = find_last(&s, '.');
    let dec_is_comma: bool = match (comma, dot) {
        (Some(c), Some(d)) => c > d,
        (Some(_), None) => true,
        _ => false,
    };
    if dec_is_comma {
        let mut digits: Vec<char> = remove_char(&s, '.');
        let ghost before = digits@;
        let mut i: usize = 0;
        while i < digits.len()
            invariant
                i <= digits.len() == before.len(),
                forall|k: int|
                    0 <= k < i ==> digits@[k] == if before[k] == ',' {
                        '.'
                    } else {
                        before[k]
                    },
                forall|k: int| i <= k < before.len() ==> digits@[k] == before[k],
            decreases digits.len() - i,
        {
            if digits[i] == ',' {
                digits.set(i, '.');
            }
            i += 1;
        }
        proof {
            assert(digits@ == before.map_values(
                |x: char|
                    if x == ',' {
                        '.'
                    } else {
                        x
                    },
            ));
        }
        string_of(&digits)
    } else {
        string_of(&remove_char(&s, ','))
    }
}

/// What `str::to_uppercase` makes of `text`.
pub uninterp spec fn uppercase_of(text: Seq<char>) -> Seq<char>;

/// `str::to_uppercase`: the upper-case equivalent of `text`, as Unicode
/// defines it.
#[verifier::external_body]
fn to_uppercase(text: &str) -> (out: String)
    ensures
        out@ == uppercase_of(text@),
{
    text.to_uppercase()
}

/// The code that stands for the currency symbol `symbol`.
pub open spec fn symbol_code(symbol: Seq<char>) -> Seq<char> {
    if symbol == "\u{20ac}"@ {
        "EUR"@
    } else if symbol == "$"@ {
        "USD"@
    } else if symbol == "\u{a3}"@ {
        "GBP"@
    } else if symbol == "\u{a5}"@ {
        "JPY"@
    } else if symbol == "S$"@ {
        "SGD"@
    } else {
        "UNKNOWN"@
    }
}

/// The currency that `cur` names. A text of three bytes, white space around
/// it aside, is taken as a code and put in upper case. Anything else is
/// taken as a symbol, where symbols are allowed, and is nothing where they
/// are not.
pub open spec fn currency_of(cur: Seq<char>, allow_symbol: bool) -> Option<Seq<char>> {
    let c = trimmed(cur);
    if encode_utf8(c).len() == 3 {
        Some(uppercase_of(c))
    } else if !allow_symbol {
        None
    } else {
        Some(symbol_code(c))
    }
}

/// Reads a currency from a code or a symbol.
pub fn map_currency(cur: &str, allow_symbol: bool) -> (code: Option<String>)
    ensures
        match code {
            Some(code) => currency_of(cur@, allow_symbol) == Some(code@),
            None => currency_of(cur@, allow_symbol).is_none(),
        },
{
    let trimmed_text: String = string_of(&trim(&chars_of(cur)));
    let c: &str = trimmed_text.as_str();
    if c.as_bytes().len() == 3 {
        return Some(to_uppercase(c));
    }
    if !allow_symbol {
        return None;
    }
    let code: &str = if same_text(c, "\u{20ac}") {
        "EUR"
    } else if same_text(c, "$") {
        "USD"
    } else if same_text(c, "\u{a3}") {
        "GBP"
    } else if same_text(c, "\u{a5}") {
        "JPY"
    } else if same_text(c, "S$") {
        "SGD"
    } else {
        "UNKNOWN"
    };
    Some(String::from_str(code))
}

} // verus!
