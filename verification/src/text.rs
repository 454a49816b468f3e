//! Text as sequences of characters.

use vstd::prelude::*;

verus! {

broadcast use vstd::string::group_string_axioms;

/// `String::push`: the character is added behind the last one.
pub assume_specification[ String::push ](string: &mut String, ch: char)
    ensures
        final(string)@ == old(string)@.push(ch),
;

/// The character of a decimal digit.
pub open spec fn digit(value: nat) -> char {
    ('0' as nat + value) as char
}

/// A number in decimal, without leading noughts.
pub open spec fn decimal(value: nat) -> Seq<char>
    decreases value,
{
    if value < 10 {
        seq![digit(value)]
    } else {
        decimal(value / 10).push(digit(value % 10))
    }
}

/// Writes a number in decimal.
pub fn decimal_text(value: u64) -> (text: String)
    ensures
        text@ == decimal(value as nat),
    decreases value,
{
    let mut text = if value < 10 {
        String::new()
    } else {
        decimal_text(value / 10)
    };
    text.push((48 + (value % 10) as u8) as char);
    text
}

/// Tells whether two texts are the same.
pub fn same_text(left: &str, right: &str) -> (answer: bool)
    ensures
        answer == (left@ == right@),
{
    left.to_owned() == right.to_owned()
}

/// Puts one text behind another.
pub fn joined(front: &str, back: &str) -> (text: String)
    ensures
        text@ == front@ + back@,
{
    let mut text = front.to_owned();
    text.append(back);
    text
}

/// Tells whether `text` begins with `prefix`.
pub fn starts_with(text: &str, prefix: &str) -> (answer: bool)
    ensures
        answer == prefix@.is_prefix_of(text@),
{
    let length: usize = prefix.unicode_len();
    if text.unicode_len() < length {
        return false;
    }
    proof {
        assert(prefix@.is_prefix_of(text@) <==> text@.subrange(0, length as int) == prefix@);
    }
    same_text(text.substring_char(0, length), prefix)
}

/// A text of at most `limit` characters as it is; of a longer one the first
/// characters and three dots, which together are `limit` characters where
/// `limit` leaves room for the dots.
pub open spec fn truncated(text: Seq<char>, limit: nat) -> Seq<char> {
    if text.len() <= limit {
        text
    } else if limit < 3 {
        "..."@
    } else {
        text.take(limit - 3) + "..."@
    }
}

/// Shortens a text to `limit` characters.
pub fn truncate(text: &str, limit: usize) -> (short: String)
    ensures
        short@ == truncated(text@, limit as nat),
{
    if text.unicode_len() <= limit {
        text.to_owned()
    } else {
        let kept: usize = if limit < 3 {
            0
        } else {
            limit - 3
        };
        proof {
            assert(text@.subrange(0, 0) + "..."@ =~= "..."@);
        }
        joined(text.substring_char(0, kept), "...")
    }
}

/// A shortened text is no longer than the limit, unless the limit has no room
/// for the three dots.
pub proof fn law_truncated_fits(text: Seq<char>, limit: nat)
    requires
        limit >= 3,
    ensures
        truncated(text, limit).len() <= limit,
{
    reveal_strlit("...");
}

/// How many characters stand before the first line feed, or in all.
pub open spec fn first_line_length(text: Seq<char>) -> nat
    decreases text.len(),
{
    if text.len() == 0 || text[0] == '\n' {
        0
    } else {
        1 + first_line_length(text.drop_first())
    }
}

/// A line without the carriage return before its line feed.
pub open spec fn without_return(line: Seq<char>) -> Seq<char> {
    if line.len() > 0 && line.last() == '\r' {
        line.drop_last()
    } else {
        line
    }
}

/// The lines of a text: each ends at a line feed, or at a carriage return and
/// a line feed; what follows the last line feed is a line if it is not empty.
pub open spec fn lines(text: Seq<char>) -> Seq<Seq<char>>
    decreases text.len(),
{
    let length = first_line_length(text);
    if text.len() == 0 {
        Seq::empty()
    } else if length >= text.len() {
        seq![text]
    } else {
        seq![without_return(text.take(length as int))] + lines(text.skip(length as int + 1))
    }
}

/// The contents of a list of texts.
pub open spec fn views(texts: Seq<String>) -> Seq<Seq<char>> {
    texts.map_values(|text: String| text@)
}

proof fn lemma_first_line(line: Seq<char>, rest: Seq<char>)
    requires
        !line.contains('\n'),
        rest.len() == 0 || rest[0] == '\n',
    ensures
        first_line_length(line + rest) == line.len(),
    decreases line.len(),
{
    let text = line + rest;
    if line.len() > 0 {
        assert(line.contains(line[0]));
        assert(text.drop_first() =~= line.drop_first() + rest);
        assert(!line.drop_first().contains('\n')) by {
            if line.drop_first().contains('\n') {
                let i = choose|i: int| 0 <= i < line.len() - 1 && line.drop_first()[i] == '\n';
                assert(line[i + 1] == '\n');
            }
        }
        lemma_first_line(line.drop_first(), rest);
    } else {
        assert(text =~= rest);
    }
}

/// The first line feed stands where the first line ends.
proof fn lemma_first_line_ends(text: Seq<char>)
    ensures
        first_line_length(text) <= text.len(),
        first_line_length(text) < text.len() ==> text[first_line_length(text) as int] == '\n',
        !text.take(first_line_length(text) as int).contains('\n'),
        text.contains('\n') ==> first_line_length(text) < text.len(),
    decreases text.len(),
{
    if text.len() > 0 && text[0] != '\n' {
        let rest = text.drop_first();
        lemma_first_line_ends(rest);
        let length = first_line_length(text) as int;
        assert forall|i: int| 0 <= i < length implies text.take(length)[i] != '\n' by {
            if i > 0 {
                assert(rest.take(length - 1)[i - 1] == text[i]);
            }
        }
        if text.contains('\n') {
            let i = choose|i: int| 0 <= i < text.len() && text[i] == '\n';
            assert(rest[i - 1] == '\n');
        }
    }
}

/// Complete lines keep to themselves: what is written behind a line feed adds
/// its own lines, and changes none before.
pub proof fn law_lines_are_appended(text: Seq<char>, more: Seq<char>)
    requires
        text.len() > 0 ==> text.last() == '\n',
    ensures
        lines(text + more) == lines(text) + lines(more),
    decreases text.len(),
{
    let whole = text + more;
    if text.len() == 0 {
        assert(whole =~= more);
        assert(lines(text) + lines(more) =~= lines(more));
    } else {
        assert(text.contains(text[text.len() - 1]));
        lemma_first_line_ends(text);
        let length = first_line_length(text) as int;
        let first = text.take(length);
        let rest = text.skip(length + 1);
        assert(whole =~= first + whole.skip(length));
        lemma_first_line(first, whole.skip(length));
        assert(whole.take(length) =~= first);
        assert(whole.skip(length + 1) =~= rest + more);
        law_lines_are_appended(rest, more);
        assert(lines(whole) =~= seq![without_return(first)] + (lines(rest) + lines(more)));
        assert(lines(text) =~= seq![without_return(first)] + lines(rest));
        assert(lines(text) + lines(more) =~= seq![without_return(first)] + (lines(rest) + lines(
            more,
        )));
    }
}

/// A line without a line feed in it, and the line feed behind it, are one line.
pub proof fn law_one_line(line: Seq<char>)
    requires
        !line.contains('\n'),
    ensures
        lines(line.push('\n')) == seq![without_return(line)],
{
    let text = line.push('\n');
    assert(text =~= line + seq!['\n']);
    lemma_first_line(line, seq!['\n']);
    assert(text.take(line.len() as int) =~= line);
    assert(text.skip(line.len() as int + 1) =~= Seq::empty());
    assert(lines(Seq::<char>::empty()) =~= Seq::empty());
    assert(lines(text) =~= seq![without_return(line)]);
}

/// Splits a text into its lines.
pub fn split_lines(text: &str) -> (found: Vec<String>)
    ensures
        views(found@) == lines(text@),
{
    let mut found: Vec<String> = Vec::new();
    let mut current = String::new();
    proof {
        assert(views(found@) + lines(text@) =~= lines(text@));
        assert(current@ + text@.skip(0) =~= text@);
    }
    for ch in it: text.chars()
        invariant
            it.seq() == text@,
            !current@.contains('\n'),
            lines(text@) == views(found@) + lines(current@ + text@.skip(it.index())),
    {
        let ghost rest = text@.skip(it.index());
        let ghost before = current@;
        let ghost earlier = views(found@);
        proof {
            assert(rest.len() > 0 && rest[0] == ch);
            assert(rest.drop_first() =~= text@.skip(it.index() + 1));
        }
        if ch == '\n' {
            let length: usize = current.as_str().unicode_len();
            let line = if length > 0 && current.as_str().get_char(length - 1) == '\r' {
                current.as_str().substring_char(0, length - 1).to_owned()
            } else {
                current
            };
            proof {
                lemma_first_line(before, rest);
                let whole = before + rest;
                assert(whole.take(before.len() as int) =~= before);
                assert(whole.skip(before.len() as int + 1) =~= rest.drop_first());
                assert(line@ =~= without_return(before));
                assert(lines(whole) == seq![line@] + lines(rest.drop_first()));
            }
            found.push(line);
            current = String::new();
            proof {
                assert(views(found@) =~= earlier.push(line@));
                assert(earlier + (seq![line@] + lines(rest.drop_first())) =~= views(found@)
                    + lines(rest.drop_first()));
                assert(current@ + rest.drop_first() =~= rest.drop_first());
            }
        } else {
            current.push(ch);
            proof {
                assert(current@ + rest.drop_first() =~= before + rest);
                assert(!current@.contains('\n')) by {
                    if current@.contains('\n') {
                        let i = choose|i: int| 0 <= i < current@.len() && current@[i] == '\n';
                        assert(before[i] == '\n');
                    }
                }
            }
        }
    }
    proof {
        assert(current@ + text@.skip(text@.len() as int) =~= current@);
        assert(current@ + Seq::empty() =~= current@);
        lemma_first_line(current@, Seq::empty());
    }
    let ghost last = current@;
    let ghost earlier = views(found@);
    if !current.as_str().is_empty() {
        found.push(current);
        proof {
            assert(views(found@) =~= earlier + seq![last]);
        }
    } else {
        proof {
            assert(earlier + Seq::empty() =~= earlier);
        }
    }
    found
}

/// The number that a text of digits writes.
pub open spec fn number_in(digits: Seq<char>) -> int
    decreases digits.len(),
{
    if digits.len() == 0 {
        0
    } else {
        10 * number_in(digits.drop_last()) + (digits.last() as int - 48)
    }
}

/// What is written in decimal reads as the same number; it is made of digits,
/// and begins with a nought only where it is one.
pub proof fn law_decimal_reads_back(value: nat)
    ensures
        number_in(decimal(value)) == value,
        decimal(value).len() >= 1,
        forall|i: int|
            0 <= i < decimal(value).len() ==> 48 <= #[trigger] decimal(value)[i] as int <= 57,
        decimal(value)[0] == '0' ==> value == 0,
    decreases value,
{
    let written = decimal(value);
    if value < 10 {
        assert(written.last() as int == 48 + value);
        assert(written.drop_last() =~= Seq::empty());
        assert(number_in(written.drop_last()) == 0);
    } else {
        law_decimal_reads_back(value / 10);
        assert(written.drop_last() =~= decimal(value / 10));
        assert(written.last() as int == 48 + value % 10);
    }
}

/// A text within the limit is kept. A longer one is cut to exactly the limit: it
/// keeps its beginning, and ends with three dots. A limit without room for the
/// dots leaves the dots alone.
pub proof fn law_truncated_keeps_the_beginning(text: Seq<char>, limit: nat)
    ensures
        text.len() <= limit ==> truncated(text, limit) == text,
        text.len() > limit && limit >= 3 ==> {
            &&& truncated(text, limit).len() == limit
            &&& truncated(text, limit).take(limit - 3) == text.take(limit - 3)
            &&& truncated(text, limit).skip(limit - 3) == seq!['.', '.', '.']
        },
        text.len() > limit && limit < 3 ==> truncated(text, limit) == seq!['.', '.', '.'],
{
    reveal_strlit("...");
    assert("..."@ =~= seq!['.', '.', '.']);
    if text.len() > limit && limit >= 3 {
        assert(truncated(text, limit).take(limit - 3) =~= text.take(limit - 3));
        assert(truncated(text, limit).skip(limit - 3) =~= seq!['.', '.', '.']);
    }
}

/// A line ends at its line feed, which is not part of it, nor is a carriage
/// return right before it. What follows the last line feed is a line as it
/// stands, unless there is nothing.
pub proof fn law_lines_end_at_line_feeds(line: Seq<char>)
    requires
        !line.contains('\n'),
    ensures
        lines(line.push('\r').push('\n')) == seq![line],
        line.len() == 0 || line.last() != '\r' ==> lines(line.push('\n')) == seq![line],
        line.len() > 0 ==> lines(line) == seq![line],
        line.len() == 0 ==> lines(line).len() == 0,
{
    let returned = line.push('\r');
    assert forall|i: int| 0 <= i < returned.len() implies returned[i] != '\n' by {
        if i < line.len() {
            assert(line.contains(line[i]));
        }
    }
    law_one_line(returned);
    assert(returned.drop_last() =~= line);
    law_one_line(line);
    assert(line + Seq::empty() =~= line);
    lemma_first_line(line, Seq::empty());
}

/// No line has a line feed in it.
pub proof fn law_no_line_feed_in_lines(text: Seq<char>, i: int)
    requires
        0 <= i < lines(text).len(),
    ensures
        !lines(text)[i].contains('\n'),
    decreases text.len(),
{
    lemma_first_line_ends(text);
    let length = first_line_length(text) as int;
    if length >= text.len() {
        assert(text.take(length) =~= text);
    } else {
        let first = text.take(length);
        let rest = text.skip(length + 1);
        if i == 0 {
            let line = without_return(first);
            if line.contains('\n') {
                let j = choose|j: int| 0 <= j < line.len() && line[j] == '\n';
                assert(first[j] == '\n');
            }
        } else {
            assert(lines(text)[i] == lines(rest)[i - 1]);
            law_no_line_feed_in_lines(rest, i - 1);
        }
    }
}

/// The view of a list of texts has the characters of each in its place.
pub proof fn law_views_of_texts(texts: Seq<String>, i: int)
    requires
        0 <= i < texts.len(),
    ensures
        views(texts).len() == texts.len(),
        views(texts)[i] == texts[i]@,
{
}

} // verus!
