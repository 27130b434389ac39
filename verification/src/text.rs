//! What the library needs of text: trimming, lower case, comparison, and
//! splitting at a separator.

use vstd::prelude::*;
use vstd::string::*;

verus! {

/// Whether a character is white space: one of the 25 characters that
/// Unicode gives the property `White_Space`.
pub open spec fn is_white_space(c: char) -> bool {
    let u = c as u32;
    ||| 0x9 <= u <= 0xD
    ||| u == 0x20
    ||| u == 0x85
    ||| u == 0xA0
    ||| u == 0x1680
    ||| 0x2000 <= u <= 0x200A
    ||| u == 0x2028
    ||| u == 0x2029
    ||| u == 0x202F
    ||| u == 0x205F
    ||| u == 0x3000
}

/// A text without the white space at its start.
pub open spec fn trimmed_start(text: Seq<char>) -> Seq<char>
    decreases text.len(),
{
    if text.len() > 0 && is_white_space(text[0]) {
        trimmed_start(text.skip(1))
    } else {
        text
    }
}

/// A text without the white space at its end.
pub open spec fn trimmed_end(text: Seq<char>) -> Seq<char>
    decreases text.len(),
{
    if text.len() > 0 && is_white_space(text.last()) {
        trimmed_end(text.drop_last())
    } else {
        text
    }
}

/// A text without the white space at its two ends.
pub open spec fn trimmed(text: Seq<char>) -> Seq<char> {
    trimmed_end(trimmed_start(text))
}

/// A text with every upper-case letter replaced by its lower-case form.
pub uninterp spec fn lowercased(text: Seq<char>) -> Seq<char>;

/// A text that starts with `skipped` white space characters and then either
/// ends or goes on with another character is, without the white space at
/// its start, what follows those characters.
pub proof fn lemma_trimmed_start(text: Seq<char>, skipped: int)
    requires
        0 <= skipped <= text.len(),
        forall|j: int| 0 <= j < skipped ==> is_white_space(text[j]),
        skipped < text.len() ==> !is_white_space(text[skipped]),
    ensures
        trimmed_start(text) == text.skip(skipped),
    decreases skipped,
{
    if skipped == 0 {
        assert(text.skip(0) =~= text);
    } else {
        let rest = text.skip(1);
        assert forall|j: int| 0 <= j < skipped - 1 implies is_white_space(rest[j]) by {
            assert(rest[j] == text[j + 1]);
        }
        lemma_trimmed_start(rest, skipped - 1);
        assert(rest.skip(skipped - 1) =~= text.skip(skipped));
    }
}

/// A text whose characters from `kept` on are all white space, and whose
/// character before that, if there is one, is not, is, without the white
/// space at its end, its first `kept` characters.
pub proof fn lemma_trimmed_end(text: Seq<char>, kept: int)
    requires
        0 <= kept <= text.len(),
        forall|j: int| kept <= j < text.len() ==> is_white_space(text[j]),
        kept > 0 ==> !is_white_space(text[kept - 1]),
    ensures
        trimmed_end(text) == text.take(kept),
    decreases text.len() - kept,
{
    if kept == text.len() {
        assert(text.take(kept) =~= text);
    } else {
        let rest = text.drop_last();
        lemma_trimmed_end(rest, kept);
        assert(rest.take(kept) =~= text.take(kept));
    }
}

/// Whether a character is white space.
pub fn is_whitespace(c: char) -> (r: bool)
    ensures
        r == is_white_space(c),
{
    let u: u32 = c as u32;
    (0x9 <= u && u <= 0xD) || u == 0x20 || u == 0x85 || u == 0xA0 || u == 0x1680 || (0x2000 <= u
        && u <= 0x200A) || u == 0x2028 || u == 0x2029 || u == 0x202F || u == 0x205F || u == 0x3000
}

/// The text without the white space at its two ends.
pub fn trim(text: &str) -> (r: &str)
    ensures
        r@ == trimmed(text@),
{
    broadcast use vstd::string::group_string_axioms;

    let len = text.unicode_len();
    let mut start: usize = 0;
    let mut end: usize = 0;
    let mut i: usize = 0;
    for c in it: text.chars()
        invariant
            it.seq() == text@,
            len == text@.len(),
            i == it.index(),
            i <= len,
            start <= end <= i,
            forall|j: int| 0 <= j < start ==> is_white_space(text@[j]),
            forall|j: int| end <= j < i ==> is_white_space(text@[j]),
            end == 0 ==> start == 0,
            end > 0 ==> !is_white_space(text@[start as int]) && !is_white_space(text@[end - 1]),
    {
        assert(c == text@[i as int]);
        if !is_whitespace(c) {
            if end == 0 {
                start = i;
            }
            end = i + 1;
        }
        i = i + 1;
    }
    let kept = text.substring_char(start, end);
    proof {
        if end == 0 {
            lemma_trimmed_start(text@, len as int);
            assert(text@.skip(len as int) =~= Seq::<char>::empty());
            assert(kept@ =~= Seq::<char>::empty());
        } else {
            lemma_trimmed_start(text@, start as int);
            let tail = text@.skip(start as int);
            assert forall|j: int| end - start <= j < tail.len() implies is_white_space(
                tail[j],
            ) by {
                assert(tail[j] == text@[j + start]);
            }
            assert(tail[end - start - 1] == text@[end - 1]);
            lemma_trimmed_end(tail, end - start);
            assert(tail.take(end - start) =~= text@.subrange(start as int, end as int));
        }
    }
    kept
}

/// `str::to_lowercase`: the text in lower case.
#[verifier::external_body]
pub(crate) fn to_lowercase(text: &str) -> (r: String)
    ensures
        r@ == lowercased(text@),
{
    text.to_lowercase()
}

/// Whether two texts are the same.
pub fn same_text(a: &str, b: &str) -> (r: bool)
    ensures
        r == (a@ == b@),
{
    let left = a.to_owned();
    let right = b.to_owned();
    left == right
}

/// The place of the first `separator` in a text; the length of the text
/// where there is none.
pub open spec fn first_separator(text: Seq<char>, separator: char) -> int
    decreases text.len(),
{
    if text.len() == 0 {
        0
    } else if text[0] == separator {
        0
    } else {
        1 + first_separator(text.skip(1), separator)
    }
}

/// The pieces of a text between its separators, in order. A text without a
/// separator is one piece, and so is the empty text; two separators in a row
/// have an empty piece between them.
pub open spec fn split_on(text: Seq<char>, separator: char) -> Seq<Seq<char>>
    decreases text.len(),
    via split_on_decreases
{
    let at = first_separator(text, separator);
    if at >= text.len() {
        seq![text]
    } else {
        seq![text.take(at)] + split_on(text.skip(at + 1), separator)
    }
}

#[via_fn]
proof fn split_on_decreases(text: Seq<char>, separator: char) {
    lemma_first_separator_range(text, separator);
}

/// The first separator lies within the text or at its end.
pub proof fn lemma_first_separator_range(text: Seq<char>, separator: char)
    ensures
        0 <= first_separator(text, separator) <= text.len(),
        first_separator(text, separator) < text.len() ==> text[first_separator(text, separator)]
            == separator,
        forall|j: int| 0 <= j < first_separator(text, separator) ==> text[j] != separator,
    decreases text.len(),
{
    if text.len() > 0 && text[0] != separator {
        lemma_first_separator_range(text.skip(1), separator);
        assert forall|j: int| 0 <= j < first_separator(text, separator) implies text[j]
            != separator by {
            if j > 0 {
                assert(text[j] == text.skip(1)[j - 1]);
            }
        }
    }
}

/// A place with no separator before it, which holds one or is the end of the
/// text, is the place of the first separator.
pub proof fn lemma_first_separator_is(text: Seq<char>, separator: char, at: int)
    requires
        0 <= at <= text.len(),
        forall|j: int| 0 <= j < at ==> text[j] != separator,
        at < text.len() ==> text[at] == separator,
    ensures
        first_separator(text, separator) == at,
{
    lemma_first_separator_range(text, separator);
    let first = first_separator(text, separator);
    if first < at {
        assert(text[first] == separator);
    } else if first > at {
        assert(text[at] != separator);
    }
}

/// A text has at least one piece, and no piece holds a separator.
pub proof fn lemma_split_on_pieces(text: Seq<char>, separator: char)
    ensures
        split_on(text, separator).len() >= 1,
        forall|i: int, j: int|
            0 <= i < split_on(text, separator).len() && 0 <= j < split_on(text, separator)[i].len()
                ==> split_on(text, separator)[i][j] != separator,
    decreases text.len(),
{
    lemma_first_separator_range(text, separator);
    let at = first_separator(text, separator);
    if at < text.len() {
        lemma_split_on_pieces(text.skip(at + 1), separator);
        let rest = split_on(text.skip(at + 1), separator);
        assert forall|i: int, j: int|
            0 <= i < split_on(text, separator).len() && 0 <= j < split_on(
                text,
                separator,
            )[i].len() implies split_on(text, separator)[i][j] != separator by {
            if i > 0 {
                assert(split_on(text, separator)[i] == rest[i - 1]);
            }
        }
    }
}

/// The pieces of a text between its separators, in order.
pub fn split_text(text: &str, separator: char) -> (r: Vec<String>)
    ensures
        r@.len() == split_on(text@, separator).len(),
        forall|i: int| 0 <= i < r@.len() ==> (#[trigger] r@[i])@ == split_on(text@, separator)[i],
{
    broadcast use vstd::string::group_string_axioms;

    let len = text.unicode_len();
    let mut pieces: Vec<String> = Vec::new();
    let ghost mut done: Seq<Seq<char>> = Seq::empty();
    let mut start: usize = 0;
    let mut i: usize = 0;
    proof {
        assert(text@.skip(0) =~= text@);
        assert(done + split_on(text@, separator) =~= split_on(text@, separator));
    }
    for c in it: text.chars()
        invariant
            it.seq() == text@,
            len == text@.len(),
            i == it.index(),
            start <= i <= len,
            forall|j: int| start <= j < i ==> text@[j] != separator,
            pieces@.len() == done.len(),
            forall|k: int| 0 <= k < pieces@.len() ==> (#[trigger] pieces@[k])@ == done[k],
            split_on(text@, separator) == done + split_on(text@.skip(start as int), separator),
    {
        assert(c == text@[i as int]);
        if c == separator {
            let piece = text.substring_char(start, i);
            proof {
                let tail = text@.skip(start as int);
                lemma_first_separator_is(tail, separator, i - start);
                assert(tail.take(i - start) =~= text@.subrange(start as int, i as int));
                assert(tail.skip(i - start + 1) =~= text@.skip(i + 1));
                assert(done + (seq![piece@] + split_on(text@.skip(i + 1), separator)) =~= done.push(
                    piece@,
                ) + split_on(text@.skip(i + 1), separator));
                done = done.push(piece@);
            }
            pieces.push(piece.to_owned());
            start = i + 1;
        }
        i = i + 1;
    }
    let piece = text.substring_char(start, len);
    proof {
        let tail = text@.skip(start as int);
        lemma_first_separator_is(tail, separator, len - start);
        assert(tail =~= text@.subrange(start as int, len as int));
        assert(split_on(tail, separator) == seq![tail]);
        assert(done + seq![tail] =~= done.push(piece@));
        done = done.push(piece@);
    }
    pieces.push(piece.to_owned());
    pieces
}

} // verus!
