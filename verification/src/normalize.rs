//! Tidying of rendered text: special spaces, runs of blanks, runs of line
//! breaks, and the trimming of lines.

use vstd::prelude::*;
use crate::text::{
    append_chars, is_white_space, joined, lemma_joined_push, split, trim, trim_end, trim_start,
    trimmed,
};

verus! {

/// The no-break space.
pub const NO_BREAK_SPACE: char = '\u{a0}';

/// The zero-width space.
pub const ZERO_WIDTH_SPACE: char = '\u{200b}';

/// A space or a tab.
pub open spec fn is_blank(c: char) -> bool {
    c == ' ' || c == '\t'
}

/// A line feed.
pub open spec fn is_line_feed(c: char) -> bool {
    c == '\n'
}

/// `s` with every zero-width space removed and every no-break space turned
/// into an ordinary space.
pub open spec fn plain_spaces(s: Seq<char>) -> Seq<char> {
    s.filter(|c: char| c != ZERO_WIDTH_SPACE).map_values(
        |c: char|
            if c == NO_BREAK_SPACE {
                ' '
            } else {
                c
            },
    )
}

/// `s` with every maximal run of characters of `class` replaced by one
/// `mark`. All other characters stay as they are.
pub open spec fn squeezed(s: Seq<char>, class: spec_fn(char) -> bool, mark: char) -> Seq<char>
    decreases s.len(),
{
    if s.len() == 0 {
        s
    } else {
        let head = squeezed(s.drop_last(), class, mark);
        if !class(s.last()) {
            head.push(s.last())
        } else if s.len() >= 2 && class(s[s.len() - 2]) {
            head
        } else {
            head.push(mark)
        }
    }
}

/// The pieces of `s` between its line feeds, in order. There is always at
/// least one piece; a piece may be empty.
pub open spec fn split_lines(s: Seq<char>) -> Seq<Seq<char>> {
    split(s, '\n')
}

/// The trimmed forms of `lines`, without those that are empty.
pub open spec fn kept_lines(lines: Seq<Seq<char>>) -> Seq<Seq<char>> {
    lines.map_values(|l: Seq<char>| trimmed(l)).filter(|l: Seq<char>| l.len() > 0)
}

/// The lines of `s`, each trimmed, the empty ones dropped, joined by single
/// line feeds.
pub open spec fn tidy_lines(s: Seq<char>) -> Seq<char> {
    joined(kept_lines(split_lines(s)), seq!['\n'])
}

/// The whole tidying: special spaces, then runs of blanks, then runs of line
/// feeds, then the lines themselves.
pub open spec fn normalized(s: Seq<char>) -> Seq<char> {
    tidy_lines(
        squeezed(
            squeezed(plain_spaces(s), |c: char| is_blank(c), ' '),
            |c: char| is_line_feed(c),
            '\n',
        ),
    )
}

/// Removes zero-width spaces and turns no-break spaces into spaces.
pub fn replace_special_spaces(chars: &Vec<char>) -> (out: Vec<char>)
    ensures
        out@ == plain_spaces(chars@),
{
    let mut out: Vec<char> = Vec::new();
    let mut i: usize = 0;
    while i < chars.len()
        invariant
            i <= chars.len(),
            out@ == plain_spaces(chars@.take(i as int)),
        decreases chars.len() - i,
    {
        let c: char = chars[i];
        proof {
            let seen = chars@.take(i as int);
            assert(chars@.take(i + 1) == seen.push(c));
            Seq::lemma_filter_push(seen, c, |c: char| c != ZERO_WIDTH_SPACE);
        }
        if c == NO_BREAK_SPACE {
            out.push(' ');
        } else if c != ZERO_WIDTH_SPACE {
            out.push(c);
        }
        i += 1;
    }
    proof {
        assert(chars@.take(chars.len() as int) == chars@);
    }
    out
}

/// Replaces every run of spaces and tabs by one space.
pub fn collapse_blanks(chars: &Vec<char>) -> (out: Vec<char>)
    ensures
        out@ == squeezed(chars@, |c: char| is_blank(c), ' '),
{
    let ghost class = |c: char| is_blank(c);
    let mut out: Vec<char> = Vec::new();
    let mut in_run: bool = false;
    let mut i: usize = 0;
    while i < chars.len()
        invariant
            i <= chars.len(),
            class == (|c: char| is_blank(c)),
            out@ == squeezed(chars@.take(i as int), class, ' '),
            in_run == (i > 0 && is_blank(chars@[i - 1])),
        decreases chars.len() - i,
    {
        let c: char = chars[i];
        proof {
            assert(chars@.take(i + 1).drop_last() == chars@.take(i as int));
        }
        if c == ' ' || c == '\t' {
            if !in_run {
                out.push(' ');
            }
            in_run = true;
        } else {
            out.push(c);
            in_run = false;
        }
        i += 1;
    }
    proof {
        assert(chars@.take(chars.len() as int) == chars@);
    }
    out
}

/// Replaces every run of line feeds by one line feed.
pub fn collapse_line_feeds(chars: &Vec<char>) -> (out: Vec<char>)
    ensures
        out@ == squeezed(chars@, |c: char| is_line_feed(c), '\n'),
{
    let ghost class = |c: char| is_line_feed(c);
    let mut out: Vec<char> = Vec::new();
    let mut in_run: bool = false;
    let mut i: usize = 0;
    while i < chars.len()
        invariant
            i <= chars.len(),
            class == (|c: char| is_line_feed(c)),
            out@ == squeezed(chars@.take(i as int), class, '\n'),
            in_run == (i > 0 && is_line_feed(chars@[i - 1])),
        decreases chars.len() - i,
    {
        let c: char = chars[i];
        proof {
            assert(chars@.take(i + 1).drop_last() == chars@.take(i as int));
        }
        if c == '\n' {
            if !in_run {
                out.push('\n');
            }
            in_run = true;
        } else {
            out.push(c);
            in_run = false;
        }
        i += 1;
    }
    proof {
        assert(chars@.take(chars.len() as int) == chars@);
    }
    out
}

/// What `kept_lines` gives when one more line is added at the end.
pub proof fn lemma_kept_lines_push(lines: Seq<Seq<char>>, last: Seq<char>)
    ensures
        kept_lines(lines.push(last)) == if trimmed(last).len() > 0 {
            kept_lines(lines).push(trimmed(last))
        } else {
            kept_lines(lines)
        },
{
    let trims = lines.map_values(|l: Seq<char>| trimmed(l));
    assert(lines.push(last).map_values(|l: Seq<char>| trimmed(l)) == trims.push(trimmed(last)));
    Seq::lemma_filter_push(trims, trimmed(last), |l: Seq<char>| l.len() > 0);
}

/// Appends `line`, trimmed, to `out` as one more line, unless nothing is
/// left of it after trimming.
fn flush_line(out: &mut Vec<char>, line: &Vec<char>, Ghost(done): Ghost<Seq<Seq<char>>>)
    requires
        old(out)@ == joined(kept_lines(done), seq!['\n']),
        forall|k: int| 0 <= k < kept_lines(done).len() ==> kept_lines(done)[k].len() > 0,
    ensures
        final(out)@ == joined(kept_lines(done.push(line@)), seq!['\n']),
        forall|k: int|
            0 <= k < kept_lines(done.push(line@)).len() ==> kept_lines(done.push(line@))[k].len()
                > 0,
{
    let piece: Vec<char> = trim(line);
    proof {
        lemma_kept_lines_push(done, line@);
        lemma_joined_push(kept_lines(done), piece@, seq!['\n']);
        lemma_joined_empty_iff(kept_lines(done), seq!['\n']);
    }
    if piece.len() > 0 {
        if out.len() > 0 {
            out.push('\n');
        }
        append_chars(out, &piece);
    }
}

/// Joined non-empty parts give an empty text only when there are none.
pub proof fn lemma_joined_empty_iff(parts: Seq<Seq<char>>, sep: Seq<char>)
    requires
        forall|k: int| 0 <= k < parts.len() ==> parts[k].len() > 0,
    ensures
        joined(parts, sep).len() == 0 <==> parts.len() == 0,
    decreases parts.len(),
{
    if parts.len() > 1 {
        lemma_joined_empty_iff(parts.drop_last(), sep);
    }
}

/// Trims every line, drops the empty ones and joins the rest by single line
/// feeds.
pub fn trim_lines(chars: &Vec<char>) -> (out: Vec<char>)
    ensures
        out@ == tidy_lines(chars@),
{
    let mut out: Vec<char> = Vec::new();
    let mut line: Vec<char> = Vec::new();
    let ghost mut done: Seq<Seq<char>> = Seq::empty();
    let mut i: usize = 0;
    proof {
        assert(kept_lines(done) == Seq::<Seq<char>>::empty());
    }
    while i < chars.len()
        invariant
            i <= chars.len(),
            split_lines(chars@.take(i as int)) == done.push(line@),
            out@ == joined(kept_lines(done), seq!['\n']),
            forall|k: int| 0 <= k < kept_lines(done).len() ==> kept_lines(done)[k].len() > 0,
        decreases chars.len() - i,
    {
        let c: char = chars[i];
        proof {
            assert(chars@.take(i + 1).drop_last() == chars@.take(i as int));
            assert(done.push(line@).drop_last() == done);
        }
        if c == '\n' {
            flush_line(&mut out, &line, Ghost(done));
            proof {
                done = done.push(line@);
            }
            line = Vec::new();
        } else {
            line.push(c);
        }
        i += 1;
    }
    proof {
        assert(chars@.take(chars.len() as int) == chars@);
    }
    flush_line(&mut out, &line, Ghost(done));
    out
}

/// Squeezing leaves no run behind and loses nothing else: where the mark is
/// of the class itself, no two neighbours of the result are both of the
/// class, every character of the class in it is the mark, and the
/// characters that are not of the class are those of `s`, in order.
pub proof fn lemma_squeezed_has_no_runs(s: Seq<char>, class: spec_fn(char) -> bool, mark: char)
    requires
        class(mark),
    ensures
        forall|k: int|
            0 < k < squeezed(s, class, mark).len() ==> !(class(squeezed(s, class, mark)[k - 1])
                && class(#[trigger] squeezed(s, class, mark)[k])),
        forall|k: int|
            0 <= k < squeezed(s, class, mark).len() && class(
                #[trigger] squeezed(s, class, mark)[k],
            ) ==> squeezed(s, class, mark)[k] == mark,
        squeezed(s, class, mark).filter(|c: char| !class(c)) == s.filter(|c: char| !class(c)),
        s.len() > 0 ==> squeezed(s, class, mark).len() > 0 && class(
            squeezed(s, class, mark).last(),
        ) == class(s.last()),
    decreases s.len(),
{
    let out = squeezed(s, class, mark);
    let other = |c: char| !class(c);
    if s.len() == 0 {
    } else {
        let front = s.drop_last();
        let head = squeezed(front, class, mark);
        lemma_squeezed_has_no_runs(front, class, mark);
        assert(front.push(s.last()) == s);
        Seq::lemma_filter_push(front, s.last(), other);
        if !class(s.last()) {
            Seq::lemma_filter_push(head, s.last(), other);
        } else if s.len() >= 2 && class(s[s.len() - 2]) {
            assert(front.last() == s[s.len() - 2]);
        } else {
            Seq::lemma_filter_push(head, mark, other);
            if front.len() > 0 {
                assert(front.last() == s[s.len() - 2]);
            }
        }
    }
}

/// Whether `line` holds no line feed.
pub open spec fn is_one_line(line: Seq<char>) -> bool {
    forall|k: int| 0 <= k < line.len() ==> line[k] != '\n'
}

/// Whether `line` is not empty and neither begins nor ends with white space.
pub open spec fn is_clean_line(line: Seq<char>) -> bool {
    line.len() > 0 && !is_white_space(line[0]) && !is_white_space(line.last())
}

/// A text without a line feed is one line.
pub proof fn lemma_split_one_line(line: Seq<char>)
    requires
        is_one_line(line),
    ensures
        split_lines(line) == seq![line],
    decreases line.len(),
{
    if line.len() > 0 {
        let shorter = line.drop_last();
        lemma_split_one_line(shorter);
        let head = seq![shorter];
        assert(head.drop_last() =~= Seq::<Seq<char>>::empty());
        assert(head.last() == shorter);
        assert(shorter.push(line.last()) =~= line);
        assert(Seq::<Seq<char>>::empty().push(line) =~= seq![line]);
    } else {
        assert(line =~= Seq::<char>::empty());
    }
}

/// A line feed and one more line at the end of a text add that line to its
/// lines.
pub proof fn lemma_split_after_line_feed(text: Seq<char>, line: Seq<char>)
    requires
        is_one_line(line),
    ensures
        split_lines(text + seq!['\n'] + line) == split_lines(text).push(line),
    decreases line.len(),
{
    let whole = text + seq!['\n'] + line;
    if line.len() == 0 {
        assert(whole.drop_last() == text);
        assert(line == Seq::<char>::empty());
    } else {
        let shorter = line.drop_last();
        lemma_split_after_line_feed(text, shorter);
        assert(whole.drop_last() == text + seq!['\n'] + shorter);
        assert(whole.last() == line.last());
        assert(split_lines(text).push(shorter).drop_last() == split_lines(text));
        assert(shorter.push(line.last()) == line);
    }
}

/// The lines of single lines joined by line feeds are those lines.
pub proof fn lemma_split_joined(lines: Seq<Seq<char>>)
    requires
        lines.len() > 0,
        forall|k: int| 0 <= k < lines.len() ==> is_one_line(#[trigger] lines[k]),
    ensures
        split_lines(joined(lines, seq!['\n'])) == lines,
    decreases lines.len(),
{
    if lines.len() == 1 {
        lemma_split_one_line(lines[0]);
        assert(seq![lines[0]] == lines);
    } else {
        let front = lines.drop_last();
        assert forall|k: int| 0 <= k < front.len() implies is_one_line(#[trigger] front[k]) by {
            assert(front[k] == lines[k]);
        }
        lemma_split_joined(front);
        lemma_split_after_line_feed(joined(front, seq!['\n']), lines.last());
        assert(front.push(lines.last()) == lines);
    }
}

/// Every piece that `split_lines` gives is one line.
pub proof fn lemma_split_gives_single_lines(s: Seq<char>)
    ensures
        split_lines(s).len() > 0,
        forall|k: int| 0 <= k < split_lines(s).len() ==> is_one_line(#[trigger] split_lines(s)[k]),
    decreases s.len(),
{
    if s.len() > 0 {
        lemma_split_gives_single_lines(s.drop_last());
        let head = split_lines(s.drop_last());
        assert forall|k: int| 0 <= k < split_lines(s).len() implies is_one_line(
            #[trigger] split_lines(s)[k],
        ) by {
            if k < head.len() - 1 {
                assert(split_lines(s)[k] == head[k]);
            } else if s.last() == '\n' {
                if k < head.len() {
                    assert(split_lines(s)[k] == head[k]);
                }
            } else {
                assert(is_one_line(head[head.len() - 1]));
            }
        }
    }
}

/// What is left of a line after trimming at the front comes from the line,
/// and does not begin with white space.
pub proof fn lemma_trim_start(line: Seq<char>)
    ensures
        is_one_line(line) ==> is_one_line(trim_start(line)),
        trim_start(line).len() > 0 ==> !is_white_space(trim_start(line)[0]),
    decreases line.len(),
{
    if line.len() > 0 && is_white_space(line[0]) {
        lemma_trim_start(line.drop_first());
        if is_one_line(line) {
            assert forall|k: int| 0 <= k < line.drop_first().len() implies line.drop_first()[k]
                != '\n' by {
                assert(line.drop_first()[k] == line[k + 1]);
            }
        }
    }
}

/// What is left of a line after trimming at the end is the front of the
/// line, and does not end with white space.
pub proof fn lemma_trim_end(line: Seq<char>)
    ensures
        trim_end(line).len() <= line.len(),
        trim_end(line) == line.take(trim_end(line).len() as int),
        trim_end(line).len() > 0 ==> !is_white_space(trim_end(line).last()),
    decreases line.len(),
{
    if line.len() > 0 && is_white_space(line.last()) {
        lemma_trim_end(line.drop_last());
        let n = trim_end(line).len() as int;
        assert(line.drop_last().take(n) == line.take(n));
    } else {
        assert(line.take(line.len() as int) == line);
    }
}

/// A trimmed line is one line where the line was, and is clean unless it is
/// empty.
pub proof fn lemma_trimmed(line: Seq<char>)
    ensures
        is_one_line(line) ==> is_one_line(trimmed(line)),
        trimmed(line).len() > 0 ==> is_clean_line(trimmed(line)),
{
    lemma_trim_start(line);
    lemma_trim_end(trim_start(line));
}

/// The lines that are kept are single lines and clean.
pub proof fn lemma_kept_lines_are_clean(lines: Seq<Seq<char>>)
    requires
        forall|k: int| 0 <= k < lines.len() ==> is_one_line(#[trigger] lines[k]),
    ensures
        forall|k: int|
            0 <= k < kept_lines(lines).len() ==> is_one_line(#[trigger] kept_lines(lines)[k])
                && is_clean_line(kept_lines(lines)[k]),
    decreases lines.len(),
{
    if lines.len() == 0 {
        assert(lines.map_values(|l: Seq<char>| trimmed(l)).len() == 0);
        assert(kept_lines(lines).len() == 0) by {
            reveal(Seq::filter);
        }
    } else {
        let front = lines.drop_last();
        assert forall|k: int| 0 <= k < front.len() implies is_one_line(#[trigger] front[k]) by {
            assert(front[k] == lines[k]);
        }
        lemma_kept_lines_are_clean(front);
        assert(front.push(lines.last()) == lines);
        lemma_kept_lines_push(front, lines.last());
        lemma_trimmed(lines.last());
    }
}

/// Tidied text has no empty line, and none of its lines begins or ends with
/// white space: where the text is not empty, each of its lines is clean.
pub proof fn lemma_tidy_lines_are_clean(s: Seq<char>)
    ensures
        tidy_lines(s).len() > 0 ==> forall|k: int|
            0 <= k < split_lines(tidy_lines(s)).len() ==> is_clean_line(
                #[trigger] split_lines(tidy_lines(s))[k],
            ),
{
    let kept = kept_lines(split_lines(s));
    lemma_split_gives_single_lines(s);
    lemma_kept_lines_are_clean(split_lines(s));
    if kept.len() > 0 {
        lemma_split_joined(kept);
    }
}

/// The same of the whole tidying.
pub proof fn lemma_normalized_lines_are_clean(s: Seq<char>)
    ensures
        normalized(s).len() > 0 ==> forall|k: int|
            0 <= k < split_lines(normalized(s)).len() ==> is_clean_line(
                #[trigger] split_lines(normalized(s))[k],
            ),
{
    lemma_tidy_lines_are_clean(
        squeezed(
            squeezed(plain_spaces(s), |c: char| is_blank(c), ' '),
            |c: char| is_line_feed(c),
            '\n',
        ),
    );
}

/// Tidies rendered text: special spaces, runs of blanks, runs of line feeds,
/// then the lines themselves.
pub fn normalize(chars: &Vec<char>) -> (out: Vec<char>)
    ensures
        out@ == normalized(chars@),
{
    let plain: Vec<char> = replace_special_spaces(chars);
    let spaced: Vec<char> = collapse_blanks(&plain);
    let broken: Vec<char> = collapse_line_feeds(&spaced);
    trim_lines(&broken)
}

} // verus!
