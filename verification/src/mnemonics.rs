//! Lists of mnemonics: making them, and how a key file holds them, one to a
//! line.

use crate::ops::Error;
use crate::text::{lemma_first_separator_is, lemma_split_on_pieces, split_on, split_text};
use vstd::prelude::*;
use vstd::string::*;

verus! {

/// The content of a key file: every line followed by a line feed.
pub open spec fn joined(lines: Seq<Seq<char>>) -> Seq<char>
    decreases lines.len(),
{
    if lines.len() == 0 {
        Seq::empty()
    } else {
        lines[0] + seq!['\n'] + joined(lines.skip(1))
    }
}

/// A line without the carriage return at its end, if it has one.
pub open spec fn without_return(line: Seq<char>) -> Seq<char> {
    if line.len() > 0 && line.last() == '\r' {
        line.drop_last()
    } else {
        line
    }
}

/// The lines that the pieces of a text between its line feeds stand for.
/// Every piece but the last was ended by a line feed and is a line, without
/// the carriage return that may precede the line feed. The last piece is a
/// line only if it is not empty.
pub open spec fn lines_of_pieces(pieces: Seq<Seq<char>>) -> Seq<Seq<char>>
    recommends
        pieces.len() >= 1,
{
    let ended = Seq::new((pieces.len() - 1) as nat, |i: int| without_return(pieces[i]));
    if pieces.last().len() == 0 {
        ended
    } else {
        ended.push(pieces.last())
    }
}

/// The lines of a text.
pub open spec fn lines_of(text: Seq<char>) -> Seq<Seq<char>> {
    lines_of_pieces(split_on(text, '\n'))
}

/// Whether a text can be a line of a key file and be read back as it is: it
/// holds no line feed and does not end in a carriage return.
pub open spec fn is_line(text: Seq<char>) -> bool {
    &&& forall|j: int| 0 <= j < text.len() ==> text[j] != '\n'
    &&& !(text.len() > 0 && text.last() == '\r')
}

/// What was written is what is read: the lines of the content made from a
/// list are that list, provided each entry can be a line.
pub proof fn lemma_lines_of_joined(lines: Seq<Seq<char>>)
    requires
        forall|i: int| 0 <= i < lines.len() ==> is_line(#[trigger] lines[i]),
    ensures
        lines_of(joined(lines)) == lines,
    decreases lines.len(),
{
    if lines.len() == 0 {
        let empty = Seq::<char>::empty();
        lemma_first_separator_is(empty, '\n', 0);
        assert(split_on(empty, '\n') == seq![empty]);
        assert(lines_of(empty) =~= lines);
    } else {
        let first = lines[0];
        let rest = lines.skip(1);
        let text = joined(lines);
        assert(is_line(first));
        assert forall|i: int| 0 <= i < rest.len() implies is_line(#[trigger] rest[i]) by {
            assert(rest[i] == lines[i + 1]);
        }
        lemma_lines_of_joined(rest);
        lemma_first_separator_is(text, '\n', first.len() as int);
        assert(text.take(first.len() as int) =~= first);
        assert(text.skip(first.len() as int + 1) =~= joined(rest));
        let tail = split_on(joined(rest), '\n');
        lemma_split_on_pieces(joined(rest), '\n');
        let pieces = split_on(text, '\n');
        assert(pieces == seq![first] + tail);
        assert(pieces.last() == tail.last());
        assert(lines_of_pieces(pieces) =~= seq![first] + lines_of_pieces(tail));
        assert(seq![first] + rest =~= lines);
    }
}

/// Makes `count` mnemonics of `wordslen` words in the language `lang`, one
/// call of `generate` each. The first call that fails ends the work, and its
/// message comes back as the error.
pub fn generate_mnemonic<F: Fn(u8, &str) -> Result<String, String>>(
    count: usize,
    wordslen: u8,
    lang: &str,
    generate: F,
) -> (r: Result<Vec<String>, Error>)
    requires
        call_requires(generate, (wordslen, lang)),
    ensures
        match r {
            Ok(list) => {
                &&& list@.len() == count
                &&& forall|i: int|
                    0 <= i < list@.len() ==> call_ensures(
                        generate,
                        (wordslen, lang),
                        Ok::<String, String>(#[trigger] list@[i]),
                    )
            },
            Err(e) => {
                &&& count > 0
                &&& e matches Error::Other(message) && call_ensures(
                    generate,
                    (wordslen, lang),
                    Err::<String, String>(message),
                )
            },
        },
{
    let mut list: Vec<String> = Vec::new();
    while list.len() < count
        invariant
            list@.len() <= count,
            call_requires(generate, (wordslen, lang)),
            forall|i: int|
                0 <= i < list@.len() ==> call_ensures(
                    generate,
                    (wordslen, lang),
                    Ok::<String, String>(#[trigger] list@[i]),
                ),
        decreases count - list@.len(),
    {
        match generate(wordslen, lang) {
            Ok(mnemonic) => {
                list.push(mnemonic);
            },
            Err(message) => {
                return Err(Error::Other(message));
            },
        }
    }
    Ok(list)
}

/// The content of a key file that holds these mnemonics: each of them
/// followed by a line feed.
pub fn write_mnemonics(mnemonics: &Vec<String>) -> (r: String)
    ensures
        r@ == joined(mnemonics@.map_values(|m: String| m@)),
{
    let ghost lines = mnemonics@.map_values(|m: String| m@);
    let mut content = String::new();
    let mut i: usize = 0;
    proof {
        assert(lines.skip(0) =~= lines);
        assert(content@ + joined(lines) =~= joined(lines));
    }
    while i < mnemonics.len()
        invariant
            i <= mnemonics.len(),
            lines == mnemonics@.map_values(|m: String| m@),
            content@ + joined(lines.skip(i as int)) == joined(lines),
        decreases mnemonics.len() - i,
    {
        proof {
            let rest = lines.skip(i as int);
            assert(rest[0] == mnemonics@[i as int]@);
            assert(rest.skip(1) =~= lines.skip(i + 1));
            reveal_strlit("\n");
            assert("\n"@ =~= seq!['\n']);
            assert(content@ + mnemonics@[i as int]@ + "\n"@ + joined(lines.skip(i + 1)) =~= content@
                + joined(rest));
        }
        content.append(mnemonics[i].as_str());
        content.append("\n");
        i = i + 1;
    }
    proof {
        assert(joined(lines.skip(i as int)) =~= Seq::<char>::empty());
        assert(content@ + Seq::<char>::empty() =~= content@);
    }
    content
}

/// A line without the carriage return at its end, if it has one.
fn strip_return(line: &str) -> (r: &str)
    ensures
        r@ == without_return(line@),
{
    let len = line.unicode_len();
    if len > 0 && line.get_char(len - 1) == '\r' {
        let stripped = line.substring_char(0, len - 1);
        proof {
            assert(stripped@ =~= line@.drop_last());
        }
        stripped
    } else {
        line
    }
}

/// Adds the lines of a key file's content to a list of mnemonics. A line
/// ends with a line feed, before which a carriage return is dropped; text
/// after the last line feed is a line too.
pub fn read_mnemonics(content: &str, mnemonics: Vec<String>) -> (r: Vec<String>)
    ensures
        r@.map_values(|m: String| m@) == mnemonics@.map_values(|m: String| m@) + lines_of(
            content@,
        ),
{
    let pieces = split_text(content, '\n');
    let ghost parts = split_on(content@, '\n');
    let ghost before = mnemonics@.map_values(|m: String| m@);
    let ghost ended = Seq::new((parts.len() - 1) as nat, |i: int| without_return(parts[i]));
    proof {
        lemma_split_on_pieces(content@, '\n');
    }
    let mut list = mnemonics;
    let last = pieces.len() - 1;
    let mut i: usize = 0;
    proof {
        assert(list@.map_values(|m: String| m@) =~= before + ended.take(0));
    }
    while i < last
        invariant
            i <= last,
            last == pieces@.len() - 1,
            pieces@.len() == parts.len(),
            forall|k: int| 0 <= k < pieces@.len() ==> (#[trigger] pieces@[k])@ == parts[k],
            ended == Seq::new((parts.len() - 1) as nat, |i: int| without_return(parts[i])),
            list@.map_values(|m: String| m@) == before + ended.take(i as int),
        decreases last - i,
    {
        let line = strip_return(pieces[i].as_str());
        let ghost old_list = list@;
        list.push(line.to_owned());
        proof {
            assert(list@.map_values(|m: String| m@) =~= old_list.map_values(|m: String| m@).push(
                line@,
            ));
            assert(ended.take(i + 1) =~= ended.take(i as int).push(ended[i as int]));
            assert(before + ended.take(i + 1) =~= (before + ended.take(i as int)).push(line@));
        }
        i = i + 1;
    }
    proof {
        assert(ended.take(i as int) =~= ended);
    }
    if !pieces[last].as_str().is_empty() {
        let ghost old_list = list@;
        list.push(pieces[last].clone());
        proof {
            assert(list@.map_values(|m: String| m@) =~= old_list.map_values(|m: String| m@).push(
                parts.last(),
            ));
            assert(before + ended.push(parts.last()) =~= (before + ended).push(parts.last()));
        }
    }
    list
}

} // verus!
