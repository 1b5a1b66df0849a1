//! Text operations on sequences of characters: trimming, searching, splitting
//! into lines, joining, and decimal numbers.
use vstd::prelude::*;

verus! {

/// `String::push` appends one character to the end of the string.
pub assume_specification[ String::push ](s: &mut String, c: char)
    ensures
        final(s)@ == old(s)@.push(c),
;

// ---------------------------------------------------------------------------
// Characters
// ---------------------------------------------------------------------------
/// The characters with the Unicode property `White_Space`.
pub open spec fn is_white_space(c: char) -> bool {
    ||| '\u{9}' <= c <= '\u{d}'
    ||| c == ' '
    ||| c == '\u{85}'
    ||| c == '\u{a0}'
    ||| c == '\u{1680}'
    ||| '\u{2000}' <= c <= '\u{200a}'
    ||| c == '\u{2028}'
    ||| c == '\u{2029}'
    ||| c == '\u{202f}'
    ||| c == '\u{205f}'
    ||| c == '\u{3000}'
}

/// Whether a character is white space.
pub fn is_white(c: char) -> (r: bool)
    ensures
        r == is_white_space(c),
{
    ('\u{9}' <= c && c <= '\u{d}') || c == ' ' || c == '\u{85}' || c == '\u{a0}' || c == '\u{1680}'
        || ('\u{2000}' <= c && c <= '\u{200a}') || c == '\u{2028}' || c == '\u{2029}'
        || c == '\u{202f}' || c == '\u{205f}' || c == '\u{3000}'
}

/// The characters of a text, in order.
pub fn chars_of(s: &str) -> (r: Vec<char>)
    ensures
        r@ == s@,
{
    let mut chars: Vec<char> = Vec::new();
    for c in it: s.chars()
        invariant
            chars@ == s@.take(it.index() as int),
            it.seq() == s@,
    {
        chars.push(c);
        assert(s@.take(it.index() as int).push(c) =~= s@.take(it.index() + 1));
    }
    assert(s@.take(s@.len() as int) =~= s@);
    chars
}

/// The text made of the characters from `from` up to, not including, `to`.
pub fn text_of(chars: &Vec<char>, from: usize, to: usize) -> (r: String)
    requires
        from <= to <= chars@.len(),
    ensures
        r@ == chars@.subrange(from as int, to as int),
{
    let mut text = String::new();
    let mut i: usize = from;
    while i < to
        invariant
            from <= i <= to <= chars@.len(),
            text@ == chars@.subrange(from as int, i as int),
        decreases to - i,
    {
        text.push(chars[i]);
        assert(chars@.subrange(from as int, i as int).push(chars@[i as int]) =~= chars@.subrange(
            from as int,
            i + 1,
        ));
        i = i + 1;
    }
    text
}

/// Whether two texts are the same.
pub fn same_text(a: &str, b: &str) -> (r: bool)
    ensures
        r == (a@ == b@),
{
    let left: String = a.to_owned();
    let right: String = b.to_owned();
    left == right
}

// ---------------------------------------------------------------------------
// Trimming
// ---------------------------------------------------------------------------
/// A text without its leading white space.
pub open spec fn trimmed_start(s: Seq<char>) -> Seq<char>
    decreases s.len(),
{
    if s.len() > 0 && is_white_space(s[0]) {
        trimmed_start(s.drop_first())
    } else {
        s
    }
}

/// A text without its trailing white space.
pub open spec fn trimmed_end(s: Seq<char>) -> Seq<char>
    decreases s.len(),
{
    if s.len() > 0 && is_white_space(s.last()) {
        trimmed_end(s.drop_last())
    } else {
        s
    }
}

/// A text without the white space at its two ends.
pub open spec fn trimmed(s: Seq<char>) -> Seq<char> {
    trimmed_end(trimmed_start(s))
}

proof fn lemma_trimmed_start(s: Seq<char>) -> (from: int)
    ensures
        0 <= from <= s.len(),
        trimmed_start(s) == s.skip(from),
        trimmed_start(s).len() > 0 ==> !is_white_space(trimmed_start(s)[0]),
    decreases s.len(),
{
    if s.len() > 0 && is_white_space(s[0]) {
        let rest = lemma_trimmed_start(s.drop_first());
        assert(s.drop_first().skip(rest) =~= s.skip(rest + 1));
        rest + 1
    } else {
        assert(s.skip(0) =~= s);
        0
    }
}

proof fn lemma_trimmed_end(s: Seq<char>) -> (to: int)
    ensures
        0 <= to <= s.len(),
        trimmed_end(s) == s.take(to),
        trimmed_end(s).len() > 0 ==> !is_white_space(trimmed_end(s).last()),
    decreases s.len(),
{
    if s.len() > 0 && is_white_space(s.last()) {
        let to = lemma_trimmed_end(s.drop_last());
        assert(s.drop_last().take(to) =~= s.take(to));
        to
    } else {
        assert(s.take(s.len() as int) =~= s);
        s.len() as int
    }
}

/// A trimmed text is a part of the text, and to trim it again changes nothing.
pub proof fn lemma_trimmed(s: Seq<char>) -> (part: (int, int))
    ensures
        0 <= part.0 <= part.1 <= s.len(),
        trimmed(s) == s.subrange(part.0, part.1),
        trimmed(trimmed(s)) == trimmed(s),
{
    let from = lemma_trimmed_start(s);
    let rest = trimmed_start(s);
    let to = lemma_trimmed_end(rest);
    assert(rest.take(to) =~= s.subrange(from, from + to));
    if to > 0 {
        assert(trimmed(s)[0] == rest[0]);
    }
    (from, from + to)
}

/// The text without the white space at its two ends.
pub fn trim(s: &str) -> (r: &str)
    ensures
        r@ == trimmed(s@),
{
    let chars = chars_of(s);
    let n: usize = chars.len();
    let mut from: usize = 0;
    assert(s@.subrange(0, n as int) =~= s@);
    while from < n && is_white(chars[from])
        invariant
            from <= n == chars@.len(),
            chars@ == s@,
            trimmed_start(s@.subrange(from as int, n as int)) == trimmed_start(s@),
        decreases n - from,
    {
        assert(s@.subrange(from as int, n as int).drop_first() =~= s@.subrange(
            from + 1,
            n as int,
        ));
        from = from + 1;
    }
    let ghost front = s@.subrange(from as int, n as int);
    assert(front == trimmed_start(s@));
    let mut to: usize = n;
    while from < to && is_white(chars[to - 1])
        invariant
            from <= to <= n == chars@.len(),
            chars@ == s@,
            trimmed_end(s@.subrange(from as int, to as int)) == trimmed_end(front),
        decreases to - from,
    {
        assert(s@.subrange(from as int, to as int).drop_last() =~= s@.subrange(
            from as int,
            to - 1,
        ));
        to = to - 1;
    }
    s.substring_char(from, to)
}

/// A text without the trailing occurrences of one character.
pub open spec fn without_trailing(s: Seq<char>, c: char) -> Seq<char>
    decreases s.len(),
{
    if s.len() > 0 && s.last() == c {
        without_trailing(s.drop_last(), c)
    } else {
        s
    }
}

/// The text without the trailing occurrences of `c`.
pub fn trim_end_matches(s: &str, c: char) -> (r: &str)
    ensures
        r@ == without_trailing(s@, c),
{
    let chars = chars_of(s);
    let mut to: usize = chars.len();
    assert(s@.subrange(0, to as int) =~= s@);
    while 0 < to && chars[to - 1] == c
        invariant
            to <= chars@.len(),
            chars@ == s@,
            without_trailing(s@.subrange(0, to as int), c) == without_trailing(s@, c),
        decreases to,
    {
        assert(s@.subrange(0, to as int).drop_last() =~= s@.subrange(0, to - 1));
        to = to - 1;
    }
    s.substring_char(0, to)
}

// ---------------------------------------------------------------------------
// Searching
// ---------------------------------------------------------------------------
/// `t` stands in `s` at position `i`.
pub open spec fn occurs_at(s: Seq<char>, t: Seq<char>, i: int) -> bool {
    &&& 0 <= i
    &&& i + t.len() <= s.len()
    &&& s.subrange(i, i + t.len()) == t
}

/// `t` stands somewhere in `s`.
pub open spec fn contains(s: Seq<char>, t: Seq<char>) -> bool {
    exists|i: int| #[trigger] occurs_at(s, t, i)
}

/// The first position from `from` on at which `t` stands in `s`.
pub open spec fn position_from(s: Seq<char>, t: Seq<char>, from: int) -> Option<int>
    decreases s.len() - from + 1,
{
    if from < 0 || s.len() < from + t.len() {
        None
    } else if occurs_at(s, t, from) {
        Some(from)
    } else {
        position_from(s, t, from + 1)
    }
}

/// The first position at which `t` stands in `s`.
pub open spec fn position(s: Seq<char>, t: Seq<char>) -> Option<int> {
    position_from(s, t, 0)
}

/// What [`position_from`] finds is the least position at which the text stands.
pub proof fn lemma_position_from(s: Seq<char>, t: Seq<char>, from: int)
    requires
        0 <= from,
    ensures
        position_from(s, t, from) matches Some(i) ==> from <= i && occurs_at(s, t, i),
        position_from(s, t, from) matches Some(i) ==> forall|k: int|
            from <= k < i ==> !#[trigger] occurs_at(s, t, k),
        position_from(s, t, from) is None ==> forall|k: int|
            from <= k ==> !#[trigger] occurs_at(s, t, k),
    decreases s.len() - from + 1,
{
    if s.len() >= from + t.len() && !occurs_at(s, t, from) {
        lemma_position_from(s, t, from + 1);
        assert forall|k: int|
            from <= k && position_from(s, t, from) is None implies !#[trigger] occurs_at(
            s,
            t,
            k,
        ) by {
            if k != from {
                assert(from + 1 <= k);
            }
        }
        assert forall|k: int|
            from <= k && (position_from(s, t, from) matches Some(i) ==> k
                < i) && position_from(s, t, from) is Some implies !#[trigger] occurs_at(
            s,
            t,
            k,
        ) by {
            if k != from {
                assert(from + 1 <= k);
            }
        }
    }
}

/// A text is found exactly where it occurs.
pub proof fn lemma_position_contains(s: Seq<char>, t: Seq<char>)
    ensures
        position(s, t) is Some <==> contains(s, t),
{
    lemma_position_from(s, t, 0);
    if position(s, t) is Some {
        assert(occurs_at(s, t, position(s, t)->0));
    }
}

/// A text stands in another exactly where that is something, the text, and
/// something again.
pub proof fn lemma_contains_between(s: Seq<char>, t: Seq<char>)
    ensures
        contains(s, t) <==> exists|a: Seq<char>, b: Seq<char>| s == #[trigger] (a + t + b),
{
    if contains(s, t) {
        let i = choose|i: int| #[trigger] occurs_at(s, t, i);
        let a = s.take(i);
        let b = s.skip(i + t.len());
        assert(s =~= a + t + b);
    }
    if exists|a: Seq<char>, b: Seq<char>| s == #[trigger] (a + t + b) {
        let (a, b) = choose|a: Seq<char>, b: Seq<char>| s == #[trigger] (a + t + b);
        lemma_occurs_between(a, t, b);
    }
}

/// A text stands where it is put, and where it stands it can be cut out.
pub proof fn lemma_occurs_between(a: Seq<char>, t: Seq<char>, b: Seq<char>)
    ensures
        occurs_at(a + t + b, t, a.len() as int),
        forall|i: int| #[trigger] occurs_at(a, t, i) <==> 0 <= i && i + t.len() <= a.len() && a
            == a.take(i) + t + a.skip(i + t.len()),
{
    assert((a + t + b).subrange(a.len() as int, a.len() as int + t.len()) =~= t);
    assert forall|i: int| #[trigger] occurs_at(a, t, i) <==> 0 <= i && i + t.len() <= a.len() && a
        == a.take(i) + t + a.skip(i + t.len()) by {
        if 0 <= i && i + t.len() <= a.len() {
            if occurs_at(a, t, i) {
                assert(a =~= a.take(i) + t + a.skip(i + t.len()));
            }
            if a == a.take(i) + t + a.skip(i + t.len()) {
                assert(a.subrange(i, i + t.len()) =~= t);
            }
        }
    }
}

/// What does not stand in a text does not stand in a part of it.
pub proof fn lemma_part_contains(s: Seq<char>, t: Seq<char>, from: int, to: int)
    requires
        0 <= from <= to <= s.len(),
        contains(s.subrange(from, to), t),
    ensures
        contains(s, t),
{
    let part = s.subrange(from, to);
    let i = choose|i: int| #[trigger] occurs_at(part, t, i);
    assert(s.subrange(from + i, from + i + t.len()) =~= part.subrange(i, i + t.len()));
    assert(occurs_at(s, t, from + i));
}

/// Whether `needle` stands in `hay` at position `i`.
fn stands_at(hay: &Vec<char>, needle: &Vec<char>, i: usize) -> (r: bool)
    requires
        i + needle@.len() <= hay@.len(),
    ensures
        r == occurs_at(hay@, needle@, i as int),
{
    let n: usize = needle.len();
    let total: usize = hay.len();
    let mut k: usize = 0;
    while k < n
        invariant
            k <= n == needle@.len(),
            i + n <= total == hay@.len(),
            forall|j: int| 0 <= j < k ==> hay@[i + j] == needle@[j],
        decreases n - k,
    {
        if hay[i + k] != needle[k] {
            assert(hay@.subrange(i as int, i + n)[k as int] != needle@[k as int]);
            return false;
        }
        k = k + 1;
    }
    assert(hay@.subrange(i as int, i + n) =~= needle@);
    true
}

/// The first position, counted in characters, at which `needle` stands in `hay`.
pub fn find(hay: &str, needle: &str) -> (r: Option<usize>)
    ensures
        r matches Some(i) ==> position(hay@, needle@) == Some(i as int),
        r is None ==> position(hay@, needle@) is None,
        r matches Some(i) ==> i + needle@.len() <= hay@.len(),
{
    let hay_chars = chars_of(hay);
    let needle_chars = chars_of(needle);
    let n: usize = hay_chars.len();
    let m: usize = needle_chars.len();
    let mut i: usize = 0;
    while m <= n - i
        invariant
            i <= n == hay_chars@.len(),
            m == needle_chars@.len(),
            hay_chars@ == hay@,
            needle_chars@ == needle@,
            position_from(hay@, needle@, i as int) == position(hay@, needle@),
        decreases n - i,
    {
        if stands_at(&hay_chars, &needle_chars, i) {
            return Some(i);
        }
        if i == n {
            assert(position_from(hay@, needle@, i + 1) is None);
            return None;
        }
        i = i + 1;
    }
    None
}

/// Whether `needle` stands somewhere in `hay`.
pub fn has_text(hay: &str, needle: &str) -> (r: bool)
    ensures
        r == contains(hay@, needle@),
{
    proof {
        lemma_position_contains(hay@, needle@);
    }
    find(hay, needle).is_some()
}

// ---------------------------------------------------------------------------
// Lines
// ---------------------------------------------------------------------------
/// The position of the first line feed from `from` on, or the end of the text.
pub open spec fn line_end(s: Seq<char>, from: int) -> int
    decreases s.len() - from,
{
    if from < 0 || from >= s.len() || s[from] == '\n' {
        from
    } else {
        line_end(s, from + 1)
    }
}

/// A line that a line feed ended, without the carriage return before it.
pub open spec fn without_return(s: Seq<char>) -> Seq<char> {
    if s.len() > 0 && s.last() == '\r' {
        s.drop_last()
    } else {
        s
    }
}

/// The lines of a text from position `from` on. A line ends with a line feed,
/// or with a carriage return and a line feed, neither of which belongs to it;
/// the last line need not be ended.
pub open spec fn lines_from(s: Seq<char>, from: int) -> Seq<Seq<char>>
    decreases s.len() - from,
    when 0 <= from
    via lines_from_decreases
{
    if from >= s.len() {
        Seq::empty()
    } else {
        let end = line_end(s, from);
        if end >= s.len() {
            seq![s.subrange(from, s.len() as int)]
        } else {
            seq![without_return(s.subrange(from, end))] + lines_from(s, end + 1)
        }
    }
}

#[via_fn]
proof fn lines_from_decreases(s: Seq<char>, from: int) {
    lemma_line_end(s, from);
}

pub proof fn lemma_line_end(s: Seq<char>, from: int)
    requires
        0 <= from,
    ensures
        from <= line_end(s, from),
        from <= s.len() ==> line_end(s, from) <= s.len(),
        line_end(s, from) < s.len() ==> s[line_end(s, from)] == '\n',
        forall|k: int| from <= k < line_end(s, from) ==> s[k] != '\n',
    decreases s.len() - from,
{
    if from < s.len() && s[from] != '\n' {
        lemma_line_end(s, from + 1);
    }
}

/// The lines of a text.
pub open spec fn lines(s: Seq<char>) -> Seq<Seq<char>> {
    lines_from(s, 0)
}

/// The texts behind a vector of strings.
pub open spec fn texts(v: Seq<String>) -> Seq<Seq<char>> {
    v.map_values(|s: String| s@)
}

/// The lines of the text.
pub fn lines_of(s: &str) -> (r: Vec<String>)
    ensures
        texts(r@) == lines(s@),
{
    let chars = chars_of(s);
    let n: usize = chars.len();
    let mut found: Vec<String> = Vec::new();
    let mut from: usize = 0;
    assert(texts(found@) + lines_from(s@, 0) =~= lines(s@));
    while from < n
        invariant
            from <= n == chars@.len(),
            chars@ == s@,
            texts(found@) + lines_from(s@, from as int) == lines(s@),
        decreases n - from,
    {
        let mut end: usize = from;
        while end < n && chars[end] != '\n'
            invariant
                from <= end <= n == chars@.len(),
                chars@ == s@,
                line_end(s@, end as int) == line_end(s@, from as int),
            decreases n - end,
        {
            end = end + 1;
        }
        proof {
            lemma_line_end(s@, from as int);
        }
        assert(end == line_end(s@, from as int));
        let ghost before = texts(found@);
        if end == n {
            let last = text_of(&chars, from, n);
            found.push(last);
            assert(texts(found@) =~= before.push(last@));
            assert(texts(found@) + lines_from(s@, n as int) =~= before + lines_from(
                s@,
                from as int,
            ));
            from = n;
        } else {
            let stop: usize = if from < end && chars[end - 1] == '\r' { end - 1 } else { end };
            let line = text_of(&chars, from, stop);
            assert(line@ =~= without_return(s@.subrange(from as int, end as int)));
            found.push(line);
            assert(texts(found@) =~= before.push(line@));
            assert(texts(found@) + lines_from(s@, end + 1) =~= before + lines_from(
                s@,
                from as int,
            ));
            from = end + 1;
        }
    }
    assert(lines_from(s@, from as int) =~= Seq::empty());
    assert(texts(found@) =~= texts(found@) + lines_from(s@, from as int));
    found
}

/// Lines, each ended by a line feed.
pub open spec fn ended(lines: Seq<Seq<char>>) -> Seq<char>
    decreases lines.len(),
{
    if lines.len() == 0 {
        Seq::empty()
    } else {
        ended(lines.drop_last()) + lines.last().push('\n')
    }
}

/// A text that can stand in a line by itself.
pub open spec fn one_line(s: Seq<char>) -> bool {
    &&& !s.contains('\n')
    &&& s.len() > 0 ==> s.last() != '\r'
}

/// Two runs of ended lines make one.
pub proof fn lemma_ended_concat(a: Seq<Seq<char>>, b: Seq<Seq<char>>)
    ensures
        ended(a + b) == ended(a) + ended(b),
    decreases b.len(),
{
    if b.len() == 0 {
        assert(a + b =~= a);
        assert(ended(a) + ended(b) =~= ended(a));
    } else {
        assert((a + b).drop_last() =~= a + b.drop_last());
        lemma_ended_concat(a, b.drop_last());
        assert(ended(a + b) =~= ended(a) + ended(b));
    }
}

pub proof fn lemma_line_end_at(s: Seq<char>, from: int, end: int)
    requires
        0 <= from <= end < s.len(),
        s[end] == '\n',
        forall|k: int| from <= k < end ==> s[k] != '\n',
    ensures
        line_end(s, from) == end,
    decreases end - from,
{
    if from < end {
        lemma_line_end_at(s, from + 1, end);
    }
}

proof fn lemma_lines_of_rest(listed: Seq<Seq<char>>, k: int)
    requires
        0 <= k <= listed.len(),
        forall|i: int| 0 <= i < listed.len() ==> one_line(#[trigger] listed[i]),
    ensures
        lines_from(ended(listed), ended(listed.take(k)).len() as int) == listed.skip(k),
    decreases listed.len() - k,
{
    let s = ended(listed);
    lemma_ended_concat(listed.take(k), listed.skip(k));
    assert(listed.take(k) + listed.skip(k) =~= listed);
    let from = ended(listed.take(k)).len() as int;
    if k == listed.len() {
        assert(listed.take(k) =~= listed);
        assert(listed.skip(k) =~= Seq::empty());
    } else {
        let line = listed[k];
        let next = listed.take(k + 1);
        assert(next.drop_last() =~= listed.take(k));
        assert(ended(next) == ended(listed.take(k)) + line.push('\n'));
        lemma_ended_concat(next, listed.skip(k + 1));
        assert(next + listed.skip(k + 1) =~= listed);
        let end = from + line.len();
        assert(s.subrange(from, end) =~= line);
        assert(s[end] == '\n');
        assert forall|j: int| from <= j < end implies s[j] != '\n' by {
            assert(s[j] == line[j - from]);
        }
        lemma_line_end_at(s, from, end);
        assert(one_line(line));
        lemma_lines_of_rest(listed, k + 1);
        assert(seq![line] + listed.skip(k + 1) =~= listed.skip(k));
    }
}

/// The lines of a run of ended lines are these lines.
pub proof fn lemma_lines_of_ended(listed: Seq<Seq<char>>)
    requires
        forall|i: int| 0 <= i < listed.len() ==> one_line(#[trigger] listed[i]),
    ensures
        lines(ended(listed)) == listed,
{
    lemma_lines_of_rest(listed, 0);
    assert(listed.take(0) =~= Seq::empty());
    assert(listed.skip(0) =~= listed);
}

// ---------------------------------------------------------------------------
// Joining
// ---------------------------------------------------------------------------
/// Parts one after another, with `separator` between each two.
pub open spec fn joined(parts: Seq<Seq<char>>, separator: Seq<char>) -> Seq<char>
    decreases parts.len(),
{
    if parts.len() == 0 {
        Seq::empty()
    } else if parts.len() == 1 {
        parts[0]
    } else {
        joined(parts.drop_last(), separator) + separator + parts.last()
    }
}

/// The parts one after another, with `separator` between each two.
pub fn join(parts: &Vec<String>, separator: &str) -> (r: String)
    ensures
        r@ == joined(texts(parts@), separator@),
{
    let mut text = String::new();
    let mut i: usize = 0;
    assert(texts(parts@).take(0) =~= Seq::empty());
    while i < parts.len()
        invariant
            i <= parts@.len(),
            text@ == joined(texts(parts@).take(i as int), separator@),
        decreases parts@.len() - i,
    {
        let ghost done = texts(parts@).take(i + 1);
        assert(done.drop_last() =~= texts(parts@).take(i as int));
        if i > 0 {
            text.append(separator);
        }
        text.append(parts[i].as_str());
        assert(text@ =~= joined(done, separator@));
        i = i + 1;
    }
    assert(texts(parts@).take(i as int) =~= texts(parts@));
    text
}

// ---------------------------------------------------------------------------
// Numbers
// ---------------------------------------------------------------------------
/// The character of a decimal digit.
pub open spec fn digit(d: nat) -> char {
    if d == 0 {
        '0'
    } else if d == 1 {
        '1'
    } else if d == 2 {
        '2'
    } else if d == 3 {
        '3'
    } else if d == 4 {
        '4'
    } else if d == 5 {
        '5'
    } else if d == 6 {
        '6'
    } else if d == 7 {
        '7'
    } else if d == 8 {
        '8'
    } else {
        '9'
    }
}

/// A number in decimal digits, without leading zeros.
pub open spec fn decimal(n: nat) -> Seq<char>
    decreases n,
{
    if n < 10 {
        seq![digit(n)]
    } else {
        decimal(n / 10).push(digit(n % 10))
    }
}

fn digit_char(d: u64) -> (r: char)
    requires
        d < 10,
    ensures
        r == digit(d as nat),
{
    match d {
        0 => '0',
        1 => '1',
        2 => '2',
        3 => '3',
        4 => '4',
        5 => '5',
        6 => '6',
        7 => '7',
        8 => '8',
        _ => '9',
    }
}

/// The number in decimal digits.
pub fn decimal_text(n: u64) -> (r: String)
    ensures
        r@ == decimal(n as nat),
    decreases n,
{
    if n < 10 {
        let mut text = String::new();
        text.push(digit_char(n));
        assert(text@ =~= seq![digit(n as nat)]);
        text
    } else {
        let mut text = decimal_text(n / 10);
        text.push(digit_char(n % 10));
        text
    }
}

/// The decimal digits of a number, and only they, stand in its decimal text.
pub proof fn lemma_decimal_digits(n: nat)
    ensures
        decimal(n).len() >= 1,
        n >= 10 ==> decimal(n).len() >= 2,
        forall|i: int| 0 <= i < decimal(n).len() ==> '0' <= #[trigger] decimal(n)[i] <= '9',
    decreases n,
{
    if n >= 10 {
        lemma_decimal_digits(n / 10);
    }
}

/// Two different numbers have different decimal texts.
pub proof fn lemma_decimal_injective(a: nat, b: nat)
    requires
        decimal(a) == decimal(b),
    ensures
        a == b,
    decreases a,
{
    lemma_decimal_digits(a);
    lemma_decimal_digits(b);
    if a < 10 && b < 10 {
        assert(decimal(a)[0] == digit(a) && decimal(b)[0] == digit(b));
    } else if a >= 10 && b >= 10 {
        assert(decimal(a).last() == digit(a % 10) && decimal(b).last() == digit(b % 10));
        assert(decimal(a).drop_last() =~= decimal(a / 10));
        assert(decimal(b).drop_last() =~= decimal(b / 10));
        lemma_decimal_injective(a / 10, b / 10);
    }
}

// ---------------------------------------------------------------------------
// Columns
// ---------------------------------------------------------------------------
/// A text with blanks behind it up to a width; a longer text stays as it is.
pub open spec fn padded(s: Seq<char>, width: nat) -> Seq<char> {
    if s.len() < width {
        s + Seq::new((width - s.len()) as nat, |i: int| ' ')
    } else {
        s
    }
}

/// The text with blanks behind it up to `width` characters.
pub fn pad_end(s: &str, width: usize) -> (r: String)
    ensures
        r@ == padded(s@, width as nat),
{
    let mut text: String = s.to_owned();
    let mut n: usize = s.unicode_len();
    let ghost blanks = Seq::new((width - s@.len()) as nat, |i: int| ' ');
    assert(s@ =~= s@ + blanks.take(0));
    while n < width
        invariant
            s@.len() <= n,
            s@.len() < width ==> n <= width,
            s@.len() >= width ==> n == s@.len(),
            blanks == Seq::new((width - s@.len()) as nat, |i: int| ' '),
            s@.len() < width ==> text@ == s@ + blanks.take(n - s@.len()),
            s@.len() >= width ==> text@ == s@,
        decreases width - n,
    {
        text.push(' ');
        assert(s@ + blanks.take(n + 1 - s@.len()) =~= (s@ + blanks.take(n - s@.len())).push(' '));
        n = n + 1;
    }
    assert(s@.len() < width ==> blanks.take(n - s@.len()) =~= blanks);
    text
}

} // verus!
