//! What the operations on texts do, told by how texts are put together.
use vstd::prelude::*;

use crate::data::{
    compact, compact_items, compact_members, escaped, escaped_char, quoted, DataView,
};
use crate::message::{millis, session_id};
use crate::text::{
    contains, decimal, ended, is_white_space, joined, lemma_contains_between, lines, lines_from,
    line_end, padded, position, lemma_position_from, occurs_at, lemma_occurs_between, trimmed,
    trimmed_end, trimmed_start, without_trailing,
};

verus! {

/// All characters of a text are white space.
pub open spec fn all_white(s: Seq<char>) -> bool {
    forall|i: int| 0 <= i < s.len() ==> is_white_space(#[trigger] s[i])
}

/// A text that neither starts nor ends with white space.
pub open spec fn is_trim(s: Seq<char>) -> bool {
    s.len() > 0 ==> !is_white_space(s[0]) && !is_white_space(s.last())
}

/// White space is the tab to the carriage return, the blank, the next line, the
/// blanks of other widths, and the separators of lines and paragraphs.
pub proof fn lemma_white_space(c: char)
    ensures
        is_white_space(c) <==> ({
            let n = c as u32;
            n == 9 || n == 10 || n == 11 || n == 12 || n == 13 || n == 32 || n == 0x85 || n == 0xa0
                || n == 0x1680 || 0x2000 <= n <= 0x200a || n == 0x2028 || n == 0x2029 || n
                == 0x202f || n == 0x205f || n == 0x3000
        }),
{
}

proof fn lemma_trim_start(white: Seq<char>, rest: Seq<char>)
    requires
        all_white(white),
        rest.len() > 0 ==> !is_white_space(rest[0]),
    ensures
        trimmed_start(white + rest) == rest,
    decreases white.len(),
{
    if white.len() == 0 {
        assert(white + rest =~= rest);
    } else {
        assert((white + rest).drop_first() =~= white.drop_first() + rest);
        assert(is_white_space(white[0]));
        assert forall|i: int| 0 <= i < white.drop_first().len() implies is_white_space(
            #[trigger] white.drop_first()[i],
        ) by {
            assert(white[i + 1] == white.drop_first()[i]);
        }
        lemma_trim_start(white.drop_first(), rest);
    }
}

proof fn lemma_trim_end(rest: Seq<char>, white: Seq<char>)
    requires
        all_white(white),
        rest.len() > 0 ==> !is_white_space(rest.last()),
    ensures
        trimmed_end(rest + white) == rest,
    decreases white.len(),
{
    if white.len() == 0 {
        assert(rest + white =~= rest);
    } else {
        assert((rest + white).drop_last() =~= rest + white.drop_last());
        assert(is_white_space(white[white.len() - 1]));
        assert forall|i: int| 0 <= i < white.drop_last().len() implies is_white_space(
            #[trigger] white.drop_last()[i],
        ) by {
            assert(white[i] == white.drop_last()[i]);
        }
        lemma_trim_end(rest, white.drop_last());
    }
}

/// Trimming takes the white space at the two ends, all of it and nothing else.
pub proof fn lemma_trims(before: Seq<char>, core: Seq<char>, behind: Seq<char>)
    requires
        all_white(before),
        is_trim(core),
        all_white(behind),
    ensures
        trimmed(before + core + behind) == core,
{
    let rest = core + behind;
    assert(before + core + behind =~= before + rest);
    if core.len() > 0 {
        assert(rest[0] == core[0]);
        lemma_trim_start(before, rest);
        lemma_trim_end(core, behind);
    } else {
        let white = before + behind;
        assert(before + rest =~= white + core);
        assert forall|i: int| 0 <= i < white.len() implies is_white_space(#[trigger] white[i]) by {
            if i < before.len() {
                assert(white[i] == before[i]);
            } else {
                assert(white[i] == behind[i - before.len()]);
            }
        }
        lemma_trim_start(white, core);
    }
}

/// Only the trailing occurrences of a character are taken off, and all of them.
pub proof fn lemma_takes_off_trailing(s: Seq<char>, c: char, n: nat)
    requires
        s.len() > 0 ==> s.last() != c,
    ensures
        without_trailing(s + Seq::new(n, |i: int| c), c) == s,
    decreases n,
{
    let all = s + Seq::new(n, |i: int| c);
    if n == 0 {
        assert(all =~= s);
    } else {
        let fewer = (n - 1) as nat;
        assert(all.drop_last() =~= s + Seq::new(fewer, |i: int| c));
        assert(all.last() == c);
        lemma_takes_off_trailing(s, c, fewer);
    }
}

/// A text is found where it first stands: behind a part before which, and across
/// whose end, it does not stand.
pub proof fn lemma_found_first(s: Seq<char>, t: Seq<char>, at: int)
    ensures
        position(s, t) == Some(at) <==> {
            &&& 0 <= at && at + t.len() <= s.len()
            &&& s == s.take(at) + t + s.skip(at + t.len())
            &&& forall|k: int|
                0 <= k < at ==> #[trigger] s.subrange(k, k + t.len()) != t
        },
        position(s, t) is None <==> forall|a: Seq<char>, b: Seq<char>| s != #[trigger] (a + t + b),
{
    lemma_position_from(s, t, 0);
    lemma_occurs_between(s, t, s);
    lemma_contains_between(s, t);
    crate::text::lemma_position_contains(s, t);
    if position(s, t) == Some(at) {
        assert(occurs_at(s, t, at));
        assert forall|k: int| 0 <= k < at implies #[trigger] s.subrange(k, k + t.len()) != t by {
            assert(!occurs_at(s, t, k));
        }
    }
    if 0 <= at && at + t.len() <= s.len() && s == s.take(at) + t + s.skip(at + t.len()) && (forall|
        k: int,
    |
        0 <= k < at ==> #[trigger] s.subrange(k, k + t.len()) != t) {
        assert(occurs_at(s, t, at));
        let first = position(s, t)->Some_0;
        if first < at {
            assert(s.subrange(first, first + t.len()) != t);
        }
    }
}

// ---------------------------------------------------------------------------
// Lines
// ---------------------------------------------------------------------------
proof fn lemma_lines_from(s: Seq<char>, head: Seq<char>, from: int)
    requires
        0 <= from,
    ensures
        line_end(head + s, head.len() + from) == head.len() + line_end(s, from),
        lines_from(head + s, head.len() + from) == lines_from(s, from),
    decreases s.len() - from,
{
    let whole = head + s;
    let at = head.len() + from;
    if from < s.len() {
        assert(whole[at] == s[from]);
        if s[from] != '\n' {
            lemma_lines_from(s, head, from + 1);
        }
        crate::text::lemma_line_end(s, from);
        let end = line_end(s, from);
        assert(whole.subrange(at, head.len() + end) =~= s.subrange(from, end));
        assert(whole.subrange(at, whole.len() as int) =~= s.subrange(from, s.len() as int));
        if end < s.len() {
            lemma_lines_from(s, head, end + 1);
        }
    }
}

/// A line ends at the first line feed. The line feed does not belong to it, nor
/// does a carriage return right before it; what follows are further lines.
pub proof fn lemma_line_by_line(line: Seq<char>, rest: Seq<char>)
    requires
        !line.contains('\n'),
    ensures
        lines(line.push('\n') + rest) == seq![
            if line.len() > 0 && line.last() == '\r' {
                line.drop_last()
            } else {
                line
            },
        ] + lines(rest),
        line.len() > 0 ==> lines(line) == seq![line],
        lines(Seq::empty()) == Seq::<Seq<char>>::empty(),
{
    let head = line.push('\n');
    let s = head + rest;
    let n = line.len() as int;
    assert(s[n] == '\n');
    assert forall|k: int| 0 <= k < n implies s[k] != '\n' by {
        assert(s[k] == line[k]);
        assert(line.contains(line[k]));
    }
    crate::text::lemma_line_end_at(s, 0, n);
    assert(s.subrange(0, n) =~= line);
    lemma_lines_from(rest, head, 0);
    if n > 0 {
        crate::text::lemma_line_end(line, 0);
        let end = line_end(line, 0);
        if end < n {
            assert(line.contains(line[end]));
        }
        assert(line.subrange(0, n) =~= line);
    }
}

/// Each line is ended by a line feed, and none stands anywhere else.
pub proof fn lemma_ended(listed: Seq<Seq<char>>, line: Seq<char>)
    ensures
        ended(Seq::empty()) == Seq::<char>::empty(),
        ended(listed.push(line)) == ended(listed) + line + seq!['\n'],
{
    assert(listed.push(line).drop_last() =~= listed);
    assert(ended(listed) + line.push('\n') =~= ended(listed) + line + seq!['\n']);
}

/// Parts are joined with the separator between them, and nowhere else.
pub proof fn lemma_joins(first: Seq<Seq<char>>, second: Seq<Seq<char>>, separator: Seq<char>)
    ensures
        joined(Seq::empty(), separator) == Seq::<char>::empty(),
        forall|part: Seq<char>| #[trigger] joined(seq![part], separator) == part,
        first.len() > 0 && second.len() > 0 ==> joined(first + second, separator) == joined(
            first,
            separator,
        ) + separator + joined(second, separator),
    decreases second.len(),
{
    if first.len() > 0 && second.len() > 0 {
        let all = first + second;
        assert(all.drop_last() =~= first + second.drop_last());
        assert(all.last() == second.last());
        if second.len() == 1 {
            assert(all.drop_last() =~= first);
            assert(second[0] == second.last());
        } else {
            lemma_joins(first, second.drop_last(), separator);
            assert(joined(all, separator) =~= joined(first, separator) + separator + joined(
                second,
                separator,
            ));
        }
    }
}

// ---------------------------------------------------------------------------
// Numbers
// ---------------------------------------------------------------------------
/// The number that digits stand for.
pub open spec fn number(digits: Seq<char>) -> int
    decreases digits.len(),
{
    if digits.len() == 0 {
        0
    } else {
        number(digits.drop_last()) * 10 + (digits.last() as u32 - 48)
    }
}

/// The digits of a number stand for that number, the first of them is no zero
/// unless it is the only one, and there are only digits.
pub proof fn lemma_decimal_reads_back(n: nat)
    ensures
        number(decimal(n)) == n,
        decimal(n).len() > 0,
        decimal(n)[0] == '0' ==> n == 0,
        n == 0 ==> decimal(n) == seq!['0'],
        forall|i: int| 0 <= i < decimal(n).len() ==> '0' <= #[trigger] decimal(n)[i] <= '9',
    decreases n,
{
    crate::text::lemma_decimal_digits(n);
    if n < 10 {
        assert(decimal(n).drop_last() =~= Seq::empty());
        assert(number(decimal(n).drop_last()) == 0);
    } else {
        lemma_decimal_reads_back(n / 10);
        assert(decimal(n).drop_last() =~= decimal(n / 10));
        assert(decimal(n).last() as u32 - 48 == n % 10);
        assert(decimal(n)[0] == decimal(n / 10)[0]);
    }
}

/// A text is filled with blanks behind it up to a width, and never cut.
pub proof fn lemma_pads(s: Seq<char>, width: nat)
    ensures
        s.is_prefix_of(padded(s, width)),
        s.len() >= width ==> padded(s, width) == s,
        s.len() < width ==> padded(s, width).len() == width,
        forall|i: int| s.len() <= i < padded(s, width).len() ==> #[trigger] padded(s, width)[i]
            == ' ',
{
    assert(s =~= padded(s, width).take(s.len() as int));
}

/// The id of a session says when it was created.
pub proof fn lemma_session_id_says_time(at: u64)
    ensures
        session_id(at).len() > 5,
        session_id(at).take(5) == "sess-"@,
        number(session_id(at).skip(5)) == at,
{
    reveal_strlit("sess-");
    lemma_decimal_reads_back(at as nat);
    assert(session_id(at).take(5) =~= "sess-"@);
    assert(session_id(at).skip(5) =~= decimal(at as nat));
}

/// A time that fits is taken as it is read off the clock.
pub proof fn lemma_time_is_kept(elapsed: u128)
    ensures
        elapsed <= u64::MAX ==> millis(Some(elapsed)) == elapsed,
        millis(Some(elapsed)) == elapsed % 0x1_0000_0000_0000_0000,
        millis(None) == 0,
{
}

// ---------------------------------------------------------------------------
// JSON
// ---------------------------------------------------------------------------
/// Constants are written by their names, numbers in digits with a sign where
/// they are negative, and texts in quotes.
pub proof fn lemma_compact_scalar(n: u64, i: i64, t: Seq<char>)
    ensures
        compact(DataView::Null) == "null"@,
        compact(DataView::Bool(true)) == "true"@,
        compact(DataView::Bool(false)) == "false"@,
        number(compact(DataView::Unsigned(n))) == n,
        i < 0 ==> compact(DataView::Negative(i))[0] == '-' && number(
            compact(DataView::Negative(i)).skip(1),
        ) == 0 - i,
        compact(DataView::Text(t)) == seq!['"'] + escaped(t) + seq!['"'],
        compact(DataView::Other(t)) == t,
{
    lemma_decimal_reads_back(n as nat);
    if i < 0 {
        lemma_decimal_reads_back((0 - i) as nat);
        assert(compact(DataView::Negative(i)).skip(1) =~= decimal((0 - i) as nat));
    }
}

/// The items of an array are written in order, in brackets, with commas between
/// them.
pub proof fn lemma_compact_array(items: Seq<DataView>, item: DataView)
    ensures
        compact(DataView::Array(Seq::empty())) == seq!['[', ']'],
        compact(DataView::Array(seq![item])) == seq!['['] + compact(item) + seq![']'],
        items.len() > 0 ==> compact(DataView::Array(items.push(item))) == compact(
            DataView::Array(items),
        ).drop_last() + seq![','] + compact(item) + seq![']'],
{
    let none = Seq::<DataView>::empty();
    assert(compact_items(none) =~= Seq::empty());
    assert(compact(DataView::Array(none)) =~= seq!['[', ']']);
    assert(compact_items(seq![item]) =~= seq![compact(item)]);
    assert(compact(DataView::Array(seq![item])) =~= seq!['['] + compact(item) + seq![']']);
    if items.len() > 0 {
        let all = items.push(item);
        let before = compact_items(items);
        assert(compact_items(all) =~= before.push(compact(item)));
        assert(compact_items(all).drop_last() =~= before);
        let head = seq!['['] + joined(before, seq![',']);
        assert(compact(DataView::Array(items)) == head + seq![']']);
        assert((head + seq![']']).drop_last() =~= head);
        assert(compact(DataView::Array(all)) =~= head + seq![','] + compact(item) + seq![']']);
    }
}

/// The members of an object are written in order, in braces, with commas between
/// them: each with its name in quotes, a colon and its value.
pub proof fn lemma_compact_object(
    members: Seq<(Seq<char>, DataView)>,
    name: Seq<char>,
    item: DataView,
)
    ensures
        compact(DataView::Object(Seq::empty())) == seq!['{', '}'],
        compact(DataView::Object(seq![(name, item)])) == seq!['{'] + (seq!['"'] + escaped(name)
            + seq!['"'] + seq![':'] + compact(item)) + seq!['}'],
        members.len() > 0 ==> compact(DataView::Object(members.push((name, item)))) == compact(
            DataView::Object(members),
        ).drop_last() + seq![','] + (seq!['"'] + escaped(name) + seq!['"'] + seq![':'] + compact(
            item,
        )) + seq!['}'],
{
    let empty = Seq::<(Seq<char>, DataView)>::empty();
    assert(compact_members(empty) =~= Seq::empty());
    assert(compact(DataView::Object(empty)) =~= seq!['{', '}']);
    let part = quoted(name) + seq![':'] + compact(item);
    let one = seq![(name, item)];
    assert(compact_members(one) =~= seq![part]);
    if members.len() > 0 {
        let all = members.push((name, item));
        let before = compact_members(members);
        assert(compact_members(all) =~= before.push(part));
        assert(compact_members(all).drop_last() =~= before);
        let head = seq!['{'] + joined(before, seq![',']);
        assert(compact(DataView::Object(members)) == head + seq!['}']);
        assert((head + seq!['}']).drop_last() =~= head);
        assert(compact(DataView::Object(all)) =~= head + seq![','] + part + seq!['}']);
    }
}

/// The number that a digit in base sixteen stands for.
pub open spec fn hex_value(c: char) -> int {
    if '0' <= c <= '9' {
        c as u32 - 48
    } else {
        c as u32 - 87
    }
}

/// The characters of a text are escaped one by one. A quote and a backslash get
/// a backslash before them; a control character is written by its letter, or by
/// its number in four digits; every other character stands for itself.
pub proof fn lemma_escapes(a: Seq<char>, b: Seq<char>, c: char)
    ensures
        escaped(Seq::empty()) == Seq::<char>::empty(),
        escaped(a + b) == escaped(a) + escaped(b),
        escaped(seq![c]) == escaped_char(c),
        escaped_char('"') == seq!['\\', '"'],
        escaped_char('\\') == seq!['\\', '\\'],
        escaped_char('\n') == seq!['\\', 'n'],
        escaped_char('\r') == seq!['\\', 'r'],
        escaped_char('\t') == seq!['\\', 't'],
        escaped_char('\u{8}') == seq!['\\', 'b'],
        escaped_char('\u{c}') == seq!['\\', 'f'],
        c >= ' ' && c != '"' && c != '\\' ==> escaped_char(c) == seq![c],
        c < ' ' && escaped_char(c).len() != 2 ==> {
            &&& escaped_char(c).len() == 6
            &&& escaped_char(c).take(4) == seq!['\\', 'u', '0', '0']
            &&& hex_value(escaped_char(c)[4]) * 16 + hex_value(escaped_char(c)[5]) == c as u32
        },
        c < ' ' && escaped_char(c).len() == 2 ==> c == '\n' || c == '\r' || c == '\t' || c
            == '\u{8}' || c == '\u{c}',
    decreases b.len(),
{
    let one = seq![c];
    assert(one.drop_last() =~= Seq::empty());
    assert(escaped(one.drop_last()) =~= Seq::<char>::empty());
    assert(escaped(one) =~= escaped_char(c));
    if c < ' ' && escaped_char(c).len() != 2 {
        assert(escaped_char(c).take(4) =~= seq!['\\', 'u', '0', '0']);
    }
    if b.len() == 0 {
        assert(a + b =~= a);
        assert(escaped(a) + escaped(b) =~= escaped(a));
    } else {
        assert((a + b).drop_last() =~= a + b.drop_last());
        lemma_escapes(a, b.drop_last(), c);
        assert(escaped(a + b) =~= escaped(a) + escaped(b));
    }
}

} // verus!
