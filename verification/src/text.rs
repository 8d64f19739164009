//! Text as sequences of characters, and its division into lines.

use vstd::prelude::*;
use vstd::std_specs::iter::IteratorSpec;

verus! {

/// The line feed that ends a line.
pub open spec fn line_feed() -> char {
    '\n'
}

/// The carriage return that may precede a line feed.
pub open spec fn carriage_return() -> char {
    '\r'
}

/// Index of the first element of `items` at or after `from` that satisfies
/// `wanted`, or the length of `items` when there is none.
pub open spec fn first_match<T>(items: Seq<T>, from: int, wanted: spec_fn(T) -> bool) -> int
    decreases items.len() - from,
{
    if from < 0 || from >= items.len() {
        items.len() as int
    } else if wanted(items[from]) {
        from
    } else {
        first_match(items, from + 1, wanted)
    }
}

/// What `first_match` finds lies at or after `from`, satisfies `wanted` when
/// it is an index, and nothing between `from` and it does.
pub proof fn lemma_first_match<T>(items: Seq<T>, from: int, wanted: spec_fn(T) -> bool)
    requires
        0 <= from <= items.len(),
    ensures
        from <= first_match(items, from, wanted) <= items.len(),
        first_match(items, from, wanted) < items.len() ==> wanted(
            items[first_match(items, from, wanted)],
        ),
        forall|k: int| from <= k < first_match(items, from, wanted) ==> !#[trigger] wanted(items[k]),
    decreases items.len() - from,
{
    if from < items.len() && !wanted(items[from]) {
        lemma_first_match(items, from + 1, wanted);
    }
}

/// A scan for `wanted` may begin at any index that no match lies before.
pub proof fn lemma_first_match_skip<T>(
    items: Seq<T>,
    from: int,
    later: int,
    wanted: spec_fn(T) -> bool,
)
    requires
        0 <= from <= later <= items.len(),
        forall|k: int| from <= k < later ==> !#[trigger] wanted(items[k]),
    ensures
        first_match(items, from, wanted) == first_match(items, later, wanted),
    decreases later - from,
{
    if from < later {
        lemma_first_match_skip(items, from + 1, later, wanted);
    }
}

/// A scan for `wanted` ends at the first index that satisfies it.
pub proof fn lemma_first_match_at<T>(items: Seq<T>, from: int, at: int, wanted: spec_fn(T) -> bool)
    requires
        0 <= from <= at < items.len(),
        wanted(items[at]),
        forall|k: int| from <= k < at ==> !#[trigger] wanted(items[k]),
    ensures
        first_match(items, from, wanted) == at,
{
    lemma_first_match_skip(items, from, at, wanted);
}

/// A scan over the items from index `dropped` on finds what a scan over all
/// of them finds, counted from `dropped`.
pub proof fn lemma_first_match_shift<T>(
    items: Seq<T>,
    from: int,
    dropped: int,
    wanted: spec_fn(T) -> bool,
)
    requires
        0 <= dropped <= from,
        dropped <= items.len(),
    ensures
        first_match(items.skip(dropped), from - dropped, wanted) == first_match(items, from, wanted)
            - dropped,
    decreases items.len() - from,
{
    if from < items.len() {
        assert(items.skip(dropped)[from - dropped] == items[from]);
        if !wanted(items[from]) {
            lemma_first_match_shift(items, from + 1, dropped, wanted);
        }
    }
}

/// A match that a scan finds is found as well when more items follow.
pub proof fn lemma_first_match_extended<T>(
    items: Seq<T>,
    more: Seq<T>,
    from: int,
    wanted: spec_fn(T) -> bool,
)
    requires
        0 <= from,
        first_match(items, from, wanted) < items.len(),
    ensures
        first_match(items + more, from, wanted) == first_match(items, from, wanted),
    decreases items.len() - from,
{
    if from < items.len() {
        assert((items + more)[from] == items[from]);
        if !wanted(items[from]) {
            lemma_first_match_extended(items, more, from + 1, wanted);
        }
    }
}

/// Index of the first line feed of `text` at or after `from`, or the length
/// of `text` when there is none.
pub open spec fn next_line_feed(text: Seq<char>, from: int) -> int {
    first_match(text, from, |c: char| c == line_feed())
}

/// A line without the carriage return that stood before its line feed.
pub open spec fn strip_carriage_return(line: Seq<char>) -> Seq<char> {
    if line.len() > 0 && line.last() == carriage_return() {
        line.drop_last()
    } else {
        line
    }
}

/// The lines of `text` from position `from` on.
pub open spec fn lines_from(text: Seq<char>, from: int) -> Seq<Seq<char>>
    decreases text.len() - from,
{
    if from < 0 || from >= text.len() {
        Seq::empty()
    } else {
        let stop = next_line_feed(text, from);
        proof {
            lemma_first_match(text, from, |c: char| c == line_feed());
        }
        if stop < text.len() {
            seq![strip_carriage_return(text.subrange(from, stop))] + lines_from(text, stop + 1)
        } else {
            seq![text.subrange(from, text.len() as int)]
        }
    }
}

/// The lines of a text. A line ends at a line feed; a carriage return
/// directly before that line feed belongs to the line ending. The last line
/// needs no line ending, and a text that ends with one has no empty line
/// after it.
pub open spec fn split_lines(text: Seq<char>) -> Seq<Seq<char>> {
    lines_from(text, 0)
}

/// The lines joined by single line feeds, with none after the last.
pub open spec fn join_lines(lines: Seq<Seq<char>>) -> Seq<char>
    decreases lines.len(),
{
    if lines.len() == 0 {
        Seq::empty()
    } else if lines.len() == 1 {
        lines[0]
    } else {
        join_lines(lines.drop_last()) + seq![line_feed()] + lines.last()
    }
}

/// The character sequences of a sequence of strings.
pub open spec fn strings_view(strings: Seq<String>) -> Seq<Seq<char>> {
    strings.map_values(|text: String| text@)
}

/// The character sequence of a string that may be missing.
pub open spec fn option_text(text: Option<String>) -> Option<Seq<char>> {
    match text {
        Some(text) => Some(text@),
        None => None,
    }
}

/// The character sequences held by a vector of lines.
pub open spec fn lines_view(lines: Seq<Vec<char>>) -> Seq<Seq<char>> {
    lines.map_values(|line: Vec<char>| line@)
}

/// The line holds no line feed.
pub open spec fn is_single_line(line: Seq<char>) -> bool {
    forall|i: int| 0 <= i < line.len() ==> line[i] != line_feed()
}

/// What lines read back as once they were joined: a carriage return at the
/// end of a line but the last is lost with the line ending, and an empty
/// last line is lost altogether.
pub open spec fn reread_lines(lines: Seq<Seq<char>>) -> Seq<Seq<char>> {
    if lines.len() == 0 {
        Seq::empty()
    } else {
        lines.drop_last().map_values(|line: Seq<char>| strip_carriage_return(line)) + (if
            lines.last().len() == 0 {
            Seq::empty()
        } else {
            seq![lines.last()]
        })
    }
}

/// The lines of a text from `from` on are the lines of what is left of the
/// text after any `dropped` characters before `from`.
pub proof fn lemma_lines_from_suffix(text: Seq<char>, from: int, dropped: int)
    requires
        0 <= dropped <= from <= text.len(),
    ensures
        lines_from(text, from) == lines_from(text.skip(dropped), from - dropped),
    decreases text.len() - from,
{
    let wanted = |c: char| c == line_feed();
    let rest = text.skip(dropped);
    if from < text.len() {
        lemma_first_match(text, from, wanted);
        lemma_first_match_shift(text, from, dropped, wanted);
        let stop = next_line_feed(text, from);
        assert(next_line_feed(rest, from - dropped) == stop - dropped);
        assert(text.subrange(from, stop) == rest.subrange(from - dropped, stop - dropped));
        if stop < text.len() {
            lemma_lines_from_suffix(text, stop + 1, dropped);
        } else {
            assert(text.subrange(from, text.len() as int) == rest.subrange(
                from - dropped,
                rest.len() as int,
            ));
        }
    }
}

/// Joined lines begin with the first line and a line feed, where there are
/// two lines or more.
pub proof fn lemma_join_lines_front(lines: Seq<Seq<char>>)
    requires
        lines.len() >= 2,
    ensures
        join_lines(lines) == lines[0] + seq![line_feed()] + join_lines(lines.skip(1)),
    decreases lines.len(),
{
    if lines.len() == 2 {
        assert(lines.drop_last().len() == 1);
        assert(lines.skip(1).len() == 1);
        assert(join_lines(lines.drop_last()) == lines[0]);
        assert(join_lines(lines.skip(1)) == lines[1]);
    } else {
        lemma_join_lines_front(lines.drop_last());
        assert(lines.drop_last().skip(1) == lines.skip(1).drop_last());
        assert(lines.skip(1).last() == lines.last());
        assert(lines.drop_last()[0] == lines[0]);
    }
}

/// Every line of a text holds no line feed.
pub proof fn lemma_lines_are_single(text: Seq<char>, from: int)
    requires
        0 <= from,
    ensures
        forall|i: int|
            0 <= i < lines_from(text, from).len() ==> is_single_line(
                #[trigger] lines_from(text, from)[i],
            ),
    decreases text.len() - from,
{
    let wanted = |c: char| c == line_feed();
    if from < text.len() {
        lemma_first_match(text, from, wanted);
        let stop = next_line_feed(text, from);
        let all = lines_from(text, from);
        assert forall|k: int| from <= k < stop implies text[k] != line_feed() by {
            assert(!wanted(text[k]));
        }
        if stop < text.len() {
            lemma_lines_are_single(text, stop + 1);
            let rest = lines_from(text, stop + 1);
            let line = strip_carriage_return(text.subrange(from, stop));
            assert(is_single_line(line));
            assert(all == seq![line] + rest);
            assert forall|i: int| 0 <= i < all.len() implies is_single_line(#[trigger] all[i]) by {
                if i > 0 {
                    assert(all[i] == rest[i - 1]);
                }
            }
        } else {
            assert(is_single_line(text.subrange(from, text.len() as int)));
        }
    }
}

/// Lines that hold no line feed, joined and split again, read back as
/// `reread_lines` says.
pub proof fn lemma_split_joined_lines(lines: Seq<Seq<char>>)
    requires
        forall|i: int| 0 <= i < lines.len() ==> is_single_line(#[trigger] lines[i]),
    ensures
        split_lines(join_lines(lines)) == reread_lines(lines),
    decreases lines.len(),
{
    let wanted = |c: char| c == line_feed();
    let text = join_lines(lines);
    if lines.len() == 0 {
    } else if lines.len() == 1 {
        let only = lines[0];
        assert(is_single_line(only));
        assert(lines.drop_last().map_values(|line: Seq<char>| strip_carriage_return(line))
            == Seq::<Seq<char>>::empty());
        if only.len() > 0 {
            lemma_first_match(only, 0, wanted);
            if next_line_feed(only, 0) < only.len() {
                assert(wanted(only[next_line_feed(only, 0)]));
            }
            assert(only.subrange(0, only.len() as int) == only);
        }
    } else {
        let head = lines[0];
        let tail = lines.skip(1);
        lemma_join_lines_front(lines);
        assert(is_single_line(head));
        assert(text[head.len() as int] == line_feed());
        assert forall|k: int| 0 <= k < head.len() implies !#[trigger] wanted(text[k]) by {
            assert(text[k] == head[k]);
        }
        lemma_first_match_at(text, 0, head.len() as int, wanted);
        assert(text.subrange(0, head.len() as int) == head);
        let cut = head.len() as int + 1;
        lemma_lines_from_suffix(text, cut, cut);
        assert(text.skip(cut) == join_lines(tail));
        assert forall|i: int| 0 <= i < tail.len() implies is_single_line(#[trigger] tail[i]) by {
            assert(tail[i] == lines[i + 1]);
        }
        lemma_split_joined_lines(tail);
        assert(split_lines(text) == seq![strip_carriage_return(head)] + reread_lines(tail));
        assert(tail.last() == lines.last());
        assert(lines.drop_last().map_values(|line: Seq<char>| strip_carriage_return(line)) == seq![
            strip_carriage_return(head),
        ] + tail.drop_last().map_values(|line: Seq<char>| strip_carriage_return(line)));
    }
}

/// Lines that hold no line feed and end with no carriage return, of which
/// the last is not empty, read back as they are once they were joined.
pub proof fn lemma_plain_lines_read_back(lines: Seq<Seq<char>>)
    requires
        forall|i: int| 0 <= i < lines.len() ==> is_single_line(#[trigger] lines[i]),
        forall|i: int|
            0 <= i < lines.len() ==> strip_carriage_return(#[trigger] lines[i]) == lines[i],
        lines.len() > 0 ==> lines.last().len() > 0,
    ensures
        split_lines(join_lines(lines)) == lines,
{
    lemma_split_joined_lines(lines);
    if lines.len() > 0 {
        assert(reread_lines(lines) == lines);
    }
}

/// `String::push` of the standard library: the character is appended to the
/// end of the string and nothing else changes.
#[verifier::external_body]
pub(crate) fn push_char(s: &mut String, c: char)
    ensures
        final(s)@ == old(s)@.push(c),
{
    s.push(c)
}

/// The character of a decimal digit.
pub open spec fn digit_char(digit: int) -> char {
    if digit == 0 {
        '0'
    } else if digit == 1 {
        '1'
    } else if digit == 2 {
        '2'
    } else if digit == 3 {
        '3'
    } else if digit == 4 {
        '4'
    } else if digit == 5 {
        '5'
    } else if digit == 6 {
        '6'
    } else if digit == 7 {
        '7'
    } else if digit == 8 {
        '8'
    } else {
        '9'
    }
}

/// The number written in decimal digits, without leading zeros.
pub open spec fn decimal(number: nat) -> Seq<char>
    decreases number,
{
    if number < 10 {
        seq![digit_char(number as int)]
    } else {
        decimal(number / 10).push(digit_char((number % 10) as int))
    }
}

/// The character of a decimal digit.
fn digit_of(digit: usize) -> (c: char)
    requires
        digit < 10,
    ensures
        c == digit_char(digit as int),
{
    if digit == 0 {
        '0'
    } else if digit == 1 {
        '1'
    } else if digit == 2 {
        '2'
    } else if digit == 3 {
        '3'
    } else if digit == 4 {
        '4'
    } else if digit == 5 {
        '5'
    } else if digit == 6 {
        '6'
    } else if digit == 7 {
        '7'
    } else if digit == 8 {
        '8'
    } else {
        '9'
    }
}

/// Appends the number in decimal digits.
pub fn push_decimal(text: &mut String, number: usize)
    ensures
        final(text)@ == old(text)@ + decimal(number as nat),
    decreases number,
{
    if number >= 10 {
        push_decimal(text, number / 10);
    }
    push_char(text, digit_of(number % 10));
}

/// The characters of a string, in order.
pub fn chars_of(s: &str) -> (v: Vec<char>)
    ensures
        v@ == s@,
{
    let mut v: Vec<char> = Vec::new();
    let chars = s.chars();
    for c in it: chars
        invariant
            it.seq() == s@,
            v@ == it.seq().take(it.index()),
    {
        v.push(c);
    }
    v
}

/// The string made of the given characters.
pub fn string_of(chars: &Vec<char>) -> (s: String)
    ensures
        s@ == chars@,
{
    let mut s = String::new();
    let mut i: usize = 0;
    while i < chars.len()
        invariant
            i <= chars.len(),
            s@ == chars@.take(i as int),
        decreases chars.len() - i,
    {
        push_char(&mut s, chars[i]);
        i += 1;
    }
    s
}

/// A copy of the characters of `text` from `from` up to, not including, `to`.
pub fn copy_range(text: &Vec<char>, from: usize, to: usize) -> (part: Vec<char>)
    requires
        from <= to <= text.len(),
    ensures
        part@ == text@.subrange(from as int, to as int),
{
    let mut part: Vec<char> = Vec::new();
    let mut i: usize = from;
    while i < to
        invariant
            from <= i <= to <= text.len(),
            part@ == text@.subrange(from as int, i as int),
        decreases to - i,
    {
        part.push(text[i]);
        i += 1;
    }
    part
}

/// Splits a text into its lines.
pub fn split_into_lines(text: &Vec<char>) -> (lines: Vec<Vec<char>>)
    ensures
        lines_view(lines@) == split_lines(text@),
{
    let mut lines: Vec<Vec<char>> = Vec::new();
    let mut from: usize = 0;
    while from < text.len()
        invariant
            from <= text.len(),
            split_lines(text@) == lines_view(lines@) + lines_from(text@, from as int),
        decreases text.len() - from,
    {
        let mut stop: usize = from;
        while stop < text.len() && text[stop] != '\n'
            invariant
                from <= stop <= text.len(),
                next_line_feed(text@, from as int) == next_line_feed(text@, stop as int),
            decreases text.len() - stop,
        {
            stop += 1;
        }
        let ghost before = lines_view(lines@);
        if stop < text.len() {
            let end: usize = if stop > from && text[stop - 1] == '\r' {
                stop - 1
            } else {
                stop
            };
            let line = copy_range(text, from, end);
            assert(line@ == strip_carriage_return(text@.subrange(from as int, stop as int)));
            lines.push(line);
            assert(lines_view(lines@) == before + seq![line@]);
            from = stop + 1;
        } else {
            let line = copy_range(text, from, stop);
            lines.push(line);
            assert(lines_view(lines@) == before + seq![line@]);
            from = stop;
        }
    }
    lines
}

/// Joins the lines from index `from` up to, not including, `to` with single
/// line feeds into one string.
pub fn join_range(lines: &Vec<Vec<char>>, from: usize, to: usize) -> (text: String)
    requires
        from <= to <= lines.len(),
    ensures
        text@ == join_lines(lines_view(lines@).subrange(from as int, to as int)),
{
    let ghost wanted = lines_view(lines@).subrange(from as int, to as int);
    let mut text = String::new();
    let mut i: usize = from;
    while i < to
        invariant
            from <= i <= to <= lines.len(),
            wanted == lines_view(lines@).subrange(from as int, to as int),
            text@ == join_lines(wanted.take(i - from)),
        decreases to - i,
    {
        let ghost done = wanted.take(i - from);
        let ghost next = wanted.take(i - from + 1);
        assert(next.drop_last() == done);
        assert(next.last() == lines@[i as int]@);
        if i > from {
            push_char(&mut text, '\n');
        }
        let line = &lines[i];
        let mut j: usize = 0;
        while j < line.len()
            invariant
                j <= line.len(),
                text@ == (if i > from {
                    join_lines(done) + seq![line_feed()]
                } else {
                    Seq::<char>::empty()
                }) + line@.take(j as int),
            decreases line.len() - j,
        {
            push_char(&mut text, line[j]);
            j += 1;
        }
        assert(line@.take(line.len() as int) == line@);
        i += 1;
    }
    assert(wanted.take(to - from) == wanted);
    text
}

/// Joins lines with single line feeds into one string.
pub fn join_into_string(lines: &Vec<Vec<char>>) -> (text: String)
    ensures
        text@ == join_lines(lines_view(lines@)),
{
    assert(lines_view(lines@).subrange(0, lines.len() as int) == lines_view(lines@));
    join_range(lines, 0, lines.len())
}

/// The character is whitespace: it has the Unicode property White_Space.
pub open spec fn is_whitespace(c: char) -> bool {
    let code = c as u32;
    (0x09 <= code <= 0x0d) || code == 0x20 || code == 0x85 || code == 0xa0 || code == 0x1680 || (
    0x2000 <= code <= 0x200a) || code == 0x2028 || code == 0x2029 || code == 0x202f || code
        == 0x205f || code == 0x3000
}

/// Whether the character is whitespace.
pub fn char_is_whitespace(c: char) -> (white: bool)
    ensures
        white == is_whitespace(c),
{
    let code = c as u32;
    (0x09 <= code && code <= 0x0d) || code == 0x20 || code == 0x85 || code == 0xa0 || code
        == 0x1680 || (0x2000 <= code && code <= 0x200a) || code == 0x2028 || code == 0x2029
        || code == 0x202f || code == 0x205f || code == 0x3000
}

/// The test for a character that is no whitespace.
pub open spec fn not_whitespace() -> spec_fn(char) -> bool {
    |c: char| !is_whitespace(c)
}

/// The text without the whitespace at its end.
pub open spec fn trim_end(text: Seq<char>) -> Seq<char>
    decreases text.len(),
{
    if text.len() > 0 && is_whitespace(text.last()) {
        trim_end(text.drop_last())
    } else {
        text
    }
}

/// The text without the whitespace at its start.
pub open spec fn trim_start(text: Seq<char>) -> Seq<char> {
    text.skip(first_match(text, 0, not_whitespace()))
}

/// The text without the whitespace at its start and at its end.
pub open spec fn trim(text: Seq<char>) -> Seq<char> {
    trim_start(trim_end(text))
}

/// The text without the whitespace at its start and at its end.
pub fn trimmed(text: &str) -> (inner: String)
    ensures
        inner@ == trim(text@),
{
    let chars = chars_of(text);
    let mut end: usize = chars.len();
    assert(chars@.take(end as int) == chars@);
    while end > 0 && char_is_whitespace(chars[end - 1])
        invariant
            end <= chars.len(),
            trim_end(chars@) == trim_end(chars@.take(end as int)),
        decreases end,
    {
        assert(chars@.take(end as int).drop_last() == chars@.take(end - 1));
        end -= 1;
    }
    let ghost kept = chars@.take(end as int);
    assert(trim_end(chars@) == kept);
    let mut start: usize = 0;
    while start < end && char_is_whitespace(chars[start])
        invariant
            start <= end <= chars.len(),
            kept == chars@.take(end as int),
            first_match(kept, 0, not_whitespace()) == first_match(
                kept,
                start as int,
                not_whitespace(),
            ),
        decreases end - start,
    {
        start += 1;
    }
    assert(first_match(kept, 0, not_whitespace()) == start);
    let inner = copy_range(&chars, start, end);
    assert(inner@ == kept.skip(start as int));
    string_of(&inner)
}

/// `String::pop` of the standard library: the last character is removed,
/// and an empty string stays empty.
#[verifier::external_body]
pub(crate) fn pop_char(s: &mut String)
    ensures
        final(s)@ == (if old(s)@.len() > 0 {
            old(s)@.drop_last()
        } else {
            old(s)@
        }),
{
    s.pop();
}

/// The text has nothing but whitespace.
pub open spec fn is_blank(text: Seq<char>) -> bool {
    trim(text).len() == 0
}

/// Whether the text has nothing but whitespace.
pub fn text_is_blank(text: &str) -> (blank: bool)
    ensures
        blank == is_blank(text@),
{
    trimmed(text).as_str().is_empty()
}

/// `needle` stands in `text` at position `at`.
pub open spec fn occurs_at(text: Seq<char>, needle: Seq<char>, at: int) -> bool {
    0 <= at && at + needle.len() <= text.len() && text.subrange(at, at + needle.len()) == needle
}

/// `needle` stands somewhere in `text`.
pub open spec fn contains_text(text: Seq<char>, needle: Seq<char>) -> bool {
    exists|at: int| occurs_at(text, needle, at)
}

/// Whether `needle` stands in `text` at position `at`.
fn chars_occur_at(text: &Vec<char>, needle: &Vec<char>, at: usize) -> (found: bool)
    ensures
        found == occurs_at(text@, needle@, at as int),
{
    if at > text.len() || needle.len() > text.len() - at {
        return false;
    }
    let mut i: usize = 0;
    while i < needle.len()
        invariant
            i <= needle.len(),
            at + needle.len() <= text.len(),
            forall|k: int| 0 <= k < i ==> text@[at + k] == needle@[k],
        decreases needle.len() - i,
    {
        if text[at + i] != needle[i] {
            assert(text@.subrange(at as int, at + needle.len())[i as int] != needle@[i as int]);
            return false;
        }
        i += 1;
    }
    assert(text@.subrange(at as int, at + needle.len()) == needle@);
    true
}

/// Whether the two texts have the same characters.
pub fn texts_equal(first: &str, second: &str) -> (equal: bool)
    ensures
        equal == (first@ == second@),
{
    let first_chars = chars_of(first);
    let second_chars = chars_of(second);
    if first_chars.len() != second_chars.len() {
        return false;
    }
    let found = chars_occur_at(&first_chars, &second_chars, 0);
    assert(first@.subrange(0, first@.len() as int) == first@);
    found
}

/// Whether `text` begins with `prefix`.
pub fn text_starts_with(text: &str, prefix: &str) -> (found: bool)
    ensures
        found == occurs_at(text@, prefix@, 0),
{
    let text_chars = chars_of(text);
    let prefix_chars = chars_of(prefix);
    chars_occur_at(&text_chars, &prefix_chars, 0)
}

/// Whether `needle` stands somewhere in `text`.
pub fn text_contains(text: &str, needle: &str) -> (found: bool)
    ensures
        found == contains_text(text@, needle@),
{
    let text_chars = chars_of(text);
    let needle_chars = chars_of(needle);
    let mut at: usize = 0;
    while at < text_chars.len()
        invariant
            at <= text_chars.len(),
            text_chars@ == text@,
            needle_chars@ == needle@,
            forall|k: int| 0 <= k < at ==> !occurs_at(text@, needle@, k),
        decreases text_chars.len() - at,
    {
        if chars_occur_at(&text_chars, &needle_chars, at) {
            return true;
        }
        at += 1;
    }
    chars_occur_at(&text_chars, &needle_chars, at)
}

} // verus!
