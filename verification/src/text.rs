//! Text primitives over sequences of characters: trimming, ASCII case,
//! word compaction, decimal numerals and UTF-16.

use vstd::prelude::*;

verus! {

/// `String::push` appends one character at the end of the string.
pub assume_specification[ String::push ](s: &mut String, c: char)
    ensures
        final(s)@ == old(s)@.push(c),
;

/// `char::from_u32` gives the character with that code point, and nothing for a
/// number that is no Unicode scalar value.
pub assume_specification[ char::from_u32 ](n: u32) -> (r: Option<char>)
    ensures
        r == if n < 0xd800 || 0xe000 <= n <= 0x10ffff {
            Some(n as char)
        } else {
            None
        },
;

/// The characters that carry the Unicode `White_Space` property.
pub open spec fn white_space(c: char) -> bool {
    let n = c as u32;
    ||| 0x09 <= n <= 0x0d
    ||| n == 0x20
    ||| n == 0x85
    ||| n == 0xa0
    ||| n == 0x1680
    ||| 0x2000 <= n <= 0x200a
    ||| n == 0x2028
    ||| n == 0x2029
    ||| n == 0x202f
    ||| n == 0x205f
    ||| n == 0x3000
}

/// Whether a character counts as white space.
pub fn is_white_space(c: char) -> (r: bool)
    ensures
        r == white_space(c),
{
    let n: u32 = c as u32;
    (0x09 <= n && n <= 0x0d) || n == 0x20 || n == 0x85 || n == 0xa0 || n == 0x1680 || (0x2000 <= n
        && n <= 0x200a) || n == 0x2028 || n == 0x2029 || n == 0x202f || n == 0x205f || n == 0x3000
}

/// The text without its leading white space.
pub open spec fn trim_start(s: Seq<char>) -> Seq<char>
    decreases s.len(),
{
    if s.len() > 0 && white_space(s[0]) {
        trim_start(s.drop_first())
    } else {
        s
    }
}

/// The text without its trailing white space.
pub open spec fn trim_end(s: Seq<char>) -> Seq<char>
    decreases s.len(),
{
    if s.len() > 0 && white_space(s.last()) {
        trim_end(s.drop_last())
    } else {
        s
    }
}

/// The text without white space at either end.
pub open spec fn trimmed(s: Seq<char>) -> Seq<char> {
    trim_end(trim_start(s))
}

/// The characters of a string, in order.
pub fn chars_of(s: &str) -> (r: Vec<char>)
    ensures
        r@ == s@,
{
    let mut out: Vec<char> = Vec::new();
    for c in iter: s.chars()
        invariant
            out@ == iter.seq().take(iter.index()),
            iter.seq() == s@,
    {
        out.push(c);
        assert(out@ == iter.seq().take(iter.index() + 1));
    }
    assert(s@.take(s@.len() as int) == s@);
    out
}

/// The string that holds the given characters.
pub fn string_of(v: &Vec<char>) -> (r: String)
    ensures
        r@ == v@,
{
    let mut out: String = String::new();
    let mut i: usize = 0;
    while i < v.len()
        invariant
            i <= v.len(),
            out@ == v@.take(i as int),
        decreases v.len() - i,
    {
        out.push(v[i]);
        i += 1;
        assert(out@ == v@.take(i as int));
    }
    assert(v@.take(v@.len() as int) == v@);
    out
}

/// Copies the characters from `from` up to `to`.
pub fn slice_chars(v: &Vec<char>, from: usize, to: usize) -> (r: Vec<char>)
    requires
        from <= to <= v.len(),
    ensures
        r@ == v@.subrange(from as int, to as int),
{
    let mut out: Vec<char> = Vec::new();
    let mut i: usize = from;
    while i < to
        invariant
            from <= i <= to <= v.len(),
            out@ == v@.subrange(from as int, i as int),
        decreases to - i,
    {
        out.push(v[i]);
        i += 1;
        assert(out@ == v@.subrange(from as int, i as int));
    }
    out
}

/// Removes white space from both ends of the text.
pub fn trim(v: &Vec<char>) -> (r: Vec<char>)
    ensures
        r@ == trimmed(v@),
{
    let mut from: usize = 0;
    assert(v@.skip(0) == v@);
    while from < v.len() && is_white_space(v[from])
        invariant
            from <= v.len(),
            trim_start(v@) == trim_start(v@.skip(from as int)),
        decreases v.len() - from,
    {
        assert(v@.skip(from as int).drop_first() == v@.skip(from + 1));
        from += 1;
    }
    let ghost rest = v@.skip(from as int);
    assert(trim_start(v@) == rest);
    let mut to: usize = v.len();
    assert(rest == v@.subrange(from as int, to as int));
    while from < to && is_white_space(v[to - 1])
        invariant
            from <= to <= v.len(),
            trim_end(rest) == trim_end(v@.subrange(from as int, to as int)),
        decreases to,
    {
        assert(v@.subrange(from as int, to as int).drop_last() == v@.subrange(
            from as int,
            to - 1,
        ));
        to -= 1;
    }
    slice_chars(v, from, to)
}

/// The ASCII lower-case form of a character; others are kept.
pub open spec fn ascii_lower(c: char) -> char {
    if 'A' <= c && c <= 'Z' {
        (c as u32 + 32) as char
    } else {
        c
    }
}

/// The ASCII upper-case form of a character; others are kept.
pub open spec fn ascii_upper(c: char) -> char {
    if 'a' <= c && c <= 'z' {
        (c as u32 - 32) as char
    } else {
        c
    }
}

/// The text with its ASCII letters in lower case.
pub open spec fn lower(s: Seq<char>) -> Seq<char> {
    s.map_values(|c: char| ascii_lower(c))
}

/// The text with its ASCII letters in upper case.
pub open spec fn upper(s: Seq<char>) -> Seq<char> {
    s.map_values(|c: char| ascii_upper(c))
}

/// Puts the ASCII letters of the text into lower case.
pub fn to_lower(v: &Vec<char>) -> (r: Vec<char>)
    ensures
        r@ == lower(v@),
{
    let mut out: Vec<char> = Vec::new();
    let mut i: usize = 0;
    while i < v.len()
        invariant
            i <= v.len(),
            out@ == lower(v@.take(i as int)),
        decreases v.len() - i,
    {
        let c: char = v[i];
        if 'A' <= c && c <= 'Z' {
            out.push((c as u8 + 32) as char);
        } else {
            out.push(c);
        }
        i += 1;
        assert(out@ =~= lower(v@.take(i as int)));
    }
    assert(v@.take(v@.len() as int) == v@);
    out
}

/// Puts the ASCII letters of the text into upper case.
pub fn to_upper(v: &Vec<char>) -> (r: Vec<char>)
    ensures
        r@ == upper(v@),
{
    let mut out: Vec<char> = Vec::new();
    let mut i: usize = 0;
    while i < v.len()
        invariant
            i <= v.len(),
            out@ == upper(v@.take(i as int)),
        decreases v.len() - i,
    {
        let c: char = v[i];
        if 'a' <= c && c <= 'z' {
            out.push((c as u8 - 32) as char);
        } else {
            out.push(c);
        }
        i += 1;
        assert(out@ =~= upper(v@.take(i as int)));
    }
    assert(v@.take(v@.len() as int) == v@);
    out
}

/// Whether the text equals the given string.
pub fn text_is(v: &Vec<char>, s: &str) -> (r: bool)
    ensures
        r == (v@ == s@),
{
    let other = chars_of(s);
    if v.len() != other.len() {
        return false;
    }
    let mut i: usize = 0;
    while i < v.len()
        invariant
            i <= v.len(),
            v.len() == other.len(),
            other@ == s@,
            v@.take(i as int) == other@.take(i as int),
        decreases v.len() - i,
    {
        if v[i] != other[i] {
            assert(v@[i as int] != s@[i as int]);
            return false;
        }
        i += 1;
        assert(v@.take(i as int) =~= other@.take(i as int));
    }
    assert(v@.take(v@.len() as int) == v@);
    assert(other@.take(other@.len() as int) == other@);
    true
}

/// Whether `part` stands in `s` at position `at`.
pub open spec fn stands_at(s: Seq<char>, part: Seq<char>, at: int) -> bool {
    0 <= at && at + part.len() <= s.len() && s.subrange(at, at + part.len()) == part
}

/// Whether the text begins with `part`.
pub open spec fn begins_with(s: Seq<char>, part: Seq<char>) -> bool {
    stands_at(s, part, 0)
}

/// Whether the text ends with `part`.
pub open spec fn ends_in(s: Seq<char>, part: Seq<char>) -> bool {
    stands_at(s, part, s.len() - part.len())
}

/// Whether `part` stands somewhere in the text.
pub open spec fn has_part(s: Seq<char>, part: Seq<char>) -> bool {
    exists|at: int| #[trigger] stands_at(s, part, at)
}

/// Whether `part` stands in the text at position `at`.
pub fn matches_at(v: &Vec<char>, part: &Vec<char>, at: usize) -> (r: bool)
    ensures
        r == stands_at(v@, part@, at as int),
{
    if at > v.len() || v.len() - at < part.len() {
        return false;
    }
    let mut i: usize = 0;
    while i < part.len()
        invariant
            i <= part.len(),
            at + part.len() <= v.len(),
            forall|j: int| 0 <= j < i ==> v@[at + j] == part@[j],
        decreases part.len() - i,
    {
        if v[at + i] != part[i] {
            assert(v@.subrange(at as int, at + part@.len())[i as int] != part@[i as int]);
            return false;
        }
        i += 1;
    }
    assert(v@.subrange(at as int, at + part@.len()) =~= part@);
    true
}

/// Whether the text begins with the given string.
pub fn starts_with(v: &Vec<char>, part: &str) -> (r: bool)
    ensures
        r == begins_with(v@, part@),
{
    let part = chars_of(part);
    matches_at(v, &part, 0)
}

/// Whether the text ends with the given string.
pub fn ends_with(v: &Vec<char>, part: &str) -> (r: bool)
    ensures
        r == ends_in(v@, part@),
{
    let part = chars_of(part);
    if part.len() > v.len() {
        return false;
    }
    matches_at(v, &part, v.len() - part.len())
}

/// Whether the given string stands somewhere in the text.
pub fn contains(v: &Vec<char>, part: &str) -> (r: bool)
    ensures
        r == has_part(v@, part@),
{
    let wanted = chars_of(part);
    let mut at: usize = 0;
    while at < v.len()
        invariant
            at <= v.len(),
            wanted@ == part@,
            forall|k: int| 0 <= k < at ==> !#[trigger] stands_at(v@, part@, k),
        decreases v.len() - at,
    {
        if matches_at(v, &wanted, at) {
            return true;
        }
        at += 1;
    }
    matches_at(v, &wanted, at)
}

/// The position of the first `c` in the text at or after `from`, if there is one.
pub open spec fn first_from(s: Seq<char>, c: char, from: int) -> Option<int>
    decreases s.len() - from,
{
    if from >= s.len() {
        None
    } else if s[from] == c {
        Some(from)
    } else {
        first_from(s, c, from + 1)
    }
}

/// A position that is found lies in the searched part.
pub proof fn lemma_first_from_in_range(s: Seq<char>, c: char, from: int)
    ensures
        first_from(s, c, from) matches Some(at) ==> from <= at < s.len(),
    decreases s.len() - from,
{
    if from < s.len() && s[from] != c {
        lemma_first_from_in_range(s, c, from + 1);
    }
}

/// Where the line that begins at `from` ends.
pub open spec fn line_end(s: Seq<char>, from: int) -> int {
    match first_from(s, '\n', from) {
        Some(end) => end,
        None => s.len() as int,
    }
}

/// Finds the first `c` at or after `from`.
pub fn find_char(v: &Vec<char>, c: char, from: usize) -> (r: Option<usize>)
    ensures
        match (r, first_from(v@, c, from as int)) {
            (Some(i), Some(j)) => i == j && from <= i < v.len(),
            (None, None) => true,
            _ => false,
        },
{
    let mut i: usize = from;
    while i < v.len()
        invariant
            from <= i,
            first_from(v@, c, from as int) == first_from(v@, c, i as int),
        decreases v.len() - i,
    {
        if v[i] == c {
            return Some(i);
        }
        i += 1;
    }
    None
}

/// The decimal digit for a number below ten.
pub open spec fn digit(n: nat) -> char {
    (48 + n) as char
}

/// The decimal numeral of a number, without leading zeros.
pub open spec fn decimal(n: nat) -> Seq<char>
    decreases n,
{
    if n < 10 {
        seq![digit(n)]
    } else {
        decimal(n / 10).push(digit(n % 10))
    }
}

/// The decimal numeral of a number, filled up with zeros to two places.
pub open spec fn two_places(n: nat) -> Seq<char> {
    if n < 10 {
        seq!['0', digit(n)]
    } else {
        decimal(n)
    }
}

/// Appends the decimal numeral of a number.
pub fn push_decimal(out: &mut String, n: u64)
    ensures
        final(out)@ == old(out)@ + decimal(n as nat),
    decreases n,
{
    if n >= 10 {
        push_decimal(out, n / 10);
    }
    out.push((48 + (n % 10) as u8) as char);
    assert(out@ =~= old(out)@ + decimal(n as nat));
}

/// Appends the decimal numeral of a number, with at least two places.
pub fn push_two_places(out: &mut String, n: u64)
    ensures
        final(out)@ == old(out)@ + two_places(n as nat),
{
    if n < 10 {
        out.push('0');
    }
    push_decimal(out, n);
    assert(out@ =~= old(out)@ + two_places(n as nat));
}

/// The words of a text: its maximal runs of characters that are no white space.
pub open spec fn words(s: Seq<char>) -> Seq<Seq<char>>
    decreases s.len(),
{
    if s.len() == 0 {
        seq![]
    } else {
        let before = words(s.drop_last());
        if white_space(s.last()) {
            before
        } else if s.len() > 1 && !white_space(s[s.len() - 2]) {
            before.drop_last().push(before.last().push(s.last()))
        } else {
            before.push(seq![s.last()])
        }
    }
}

/// The words in order, with one space between neighbours.
pub open spec fn spaced(w: Seq<Seq<char>>) -> Seq<char>
    decreases w.len(),
{
    if w.len() == 0 {
        seq![]
    } else if w.len() == 1 {
        w[0]
    } else {
        spaced(w.drop_last()) + seq![' '] + w.last()
    }
}

proof fn lemma_words_after_text(s: Seq<char>)
    requires
        s.len() > 0,
        !white_space(s.last()),
    ensures
        words(s).len() > 0,
    decreases s.len(),
{
    if s.len() > 1 && !white_space(s[s.len() - 2]) {
        lemma_words_after_text(s.drop_last());
    }
}

proof fn lemma_spaced_longer_word(w: Seq<Seq<char>>, c: char)
    requires
        w.len() > 0,
    ensures
        spaced(w.drop_last().push(w.last().push(c))) == spaced(w).push(c),
{
    let longer = w.drop_last().push(w.last().push(c));
    assert(longer.drop_last() =~= w.drop_last());
    assert(spaced(longer) =~= spaced(w).push(c));
}

proof fn lemma_spaced_new_word(w: Seq<Seq<char>>, c: char)
    ensures
        spaced(w.push(seq![c])) == if w.len() == 0 {
            seq![c]
        } else {
            spaced(w).push(' ').push(c)
        },
{
    let more = w.push(seq![c]);
    assert(more.drop_last() =~= w);
    if w.len() > 0 {
        assert(spaced(more) =~= spaced(w).push(' ').push(c));
    }
}

/// Joins the words of the text with single spaces.
pub fn join_words(v: &Vec<char>) -> (r: Vec<char>)
    ensures
        r@ == spaced(words(v@)),
{
    let mut out: Vec<char> = Vec::new();
    let mut begun: bool = false;
    let mut i: usize = 0;
    while i < v.len()
        invariant
            i <= v.len(),
            out@ == spaced(words(v@.take(i as int))),
            begun == (words(v@.take(i as int)).len() > 0),
        decreases v.len() - i,
    {
        let c: char = v[i];
        let ghost before = v@.take(i as int);
        let ghost after = v@.take(i + 1);
        assert(after.drop_last() =~= before);
        if !is_white_space(c) {
            if i > 0 && !is_white_space(v[i - 1]) {
                proof {
                    lemma_words_after_text(before);
                    lemma_spaced_longer_word(words(before), c);
                }
                out.push(c);
            } else {
                proof {
                    lemma_spaced_new_word(words(before), c);
                }
                if begun {
                    out.push(' ');
                }
                out.push(c);
                begun = true;
            }
        }
        i += 1;
    }
    assert(v@.take(v@.len() as int) == v@);
    out
}

/// The UTF-16 code units of one character.
pub open spec fn utf16_units(c: char) -> Seq<u16> {
    let n = c as u32;
    if n < 0x10000 {
        seq![n as u16]
    } else {
        seq![
            (0xd800 + (n - 0x10000) / 0x400) as u16,
            (0xdc00 + (n - 0x10000) % 0x400) as u16,
        ]
    }
}

/// The UTF-16 code units of a text.
pub open spec fn utf16(s: Seq<char>) -> Seq<u16>
    decreases s.len(),
{
    if s.len() == 0 {
        seq![]
    } else {
        utf16(s.drop_last()) + utf16_units(s.last())
    }
}

/// The UTF-16 form of a string, with a zero unit at its end.
pub fn wide(value: &str) -> (r: Vec<u16>)
    ensures
        r@ == utf16(value@).push(0u16),
{
    let v = chars_of(value);
    let mut out: Vec<u16> = Vec::new();
    let mut i: usize = 0;
    while i < v.len()
        invariant
            i <= v.len(),
            out@ == utf16(v@.take(i as int)),
        decreases v.len() - i,
    {
        let n: u32 = v[i] as u32;
        assert(v@.take(i + 1).drop_last() =~= v@.take(i as int));
        if n < 0x10000 {
            out.push(n as u16);
        } else {
            out.push((0xd800 + (n - 0x10000) / 0x400) as u16);
            out.push((0xdc00 + (n - 0x10000) % 0x400) as u16);
        }
        i += 1;
        assert(out@ =~= utf16(v@.take(i as int)));
    }
    assert(v@.take(v@.len() as int) == v@);
    out.push(0);
    out
}

/// Whether a UTF-16 unit opens a surrogate pair.
pub open spec fn leads_pair(u: u16) -> bool {
    0xd800 <= u < 0xdc00
}

/// Whether a UTF-16 unit closes a surrogate pair.
pub open spec fn ends_pair(u: u16) -> bool {
    0xdc00 <= u < 0xe000
}

/// The text that UTF-16 units stand for; a surrogate without its partner reads as
/// the replacement character.
pub open spec fn utf16_text(s: Seq<u16>) -> Seq<char>
    decreases s.len(),
{
    if s.len() == 0 {
        seq![]
    } else if leads_pair(s[0]) && s.len() > 1 && ends_pair(s[1]) {
        seq![(0x10000 + (s[0] - 0xd800) * 0x400 + (s[1] - 0xdc00)) as char] + utf16_text(s.skip(2))
    } else if leads_pair(s[0]) || ends_pair(s[0]) {
        seq!['\u{fffd}'] + utf16_text(s.skip(1))
    } else {
        seq![s[0] as char] + utf16_text(s.skip(1))
    }
}

/// Reads the first `length` UTF-16 units as text.
pub fn from_utf16_lossy(units: &Vec<u16>, length: usize) -> (r: Vec<char>)
    requires
        length <= units.len(),
    ensures
        r@ == utf16_text(units@.take(length as int)),
{
    let mut out: Vec<char> = Vec::new();
    let mut i: usize = 0;
    let ghost all = units@.take(length as int);
    assert(all.skip(0) == all);
    while i < length
        invariant
            i <= length <= units.len(),
            all == units@.take(length as int),
            out@ + utf16_text(all.skip(i as int)) == utf16_text(all),
        decreases length - i,
    {
        let u: u16 = units[i];
        let ghost rest = all.skip(i as int);
        let ghost before = out@;
        assert(rest.skip(1) == all.skip(i + 1));
        let mut code: u32 = u as u32;
        let mut step: usize = 1;
        if 0xd800 <= u && u < 0xdc00 && i + 1 < length && 0xdc00 <= units[i + 1] && units[i + 1]
            < 0xe000 {
            assert(rest.skip(2) == all.skip(i + 2));
            code = 0x10000 + (u as u32 - 0xd800) * 0x400 + (units[i + 1] as u32 - 0xdc00);
            step = 2;
        }
        let c: char = match char::from_u32(code) {
            Some(c) => c,
            None => '\u{fffd}',
        };
        out.push(c);
        assert(utf16_text(rest) == seq![c] + utf16_text(all.skip(i + step)));
        assert(before + (seq![c] + utf16_text(all.skip(i + step))) =~= out@ + utf16_text(
            all.skip(i + step),
        ));
        i += step;
    }
    assert(all.skip(length as int) =~= seq![]);
    assert(out@ + utf16_text(seq![]) =~= out@);
    out
}

/// Reading back the UTF-16 form of a text gives the text again.
pub proof fn law_utf16_round_trip(s: Seq<char>)
    ensures
        utf16_text(utf16(s)) == s,
    decreases s.len(),
{
    if s.len() > 0 {
        law_utf16_round_trip(s.drop_last());
        lemma_utf16_text_appended(utf16(s.drop_last()), s.last());
        assert(s.drop_last().push(s.last()) =~= s);
    }
}

proof fn lemma_utf16_text_appended(u: Seq<u16>, c: char)
    ensures
        utf16_text(u + utf16_units(c)) == utf16_text(u).push(c),
    decreases u.len(),
{
    let units = utf16_units(c);
    if u.len() == 0 {
        assert(u + units =~= units);
        let n = c as u32;
        let none: Seq<u16> = seq![];
        assert(utf16_text(none) =~= seq![]);
        if n >= 0x10000 {
            assert(units.skip(2) =~= none);
            assert(0x10000 + (units[0] - 0xd800) * 0x400 + (units[1] - 0xdc00) == n);
        } else {
            assert(units.skip(1) =~= none);
        }
        assert(utf16_text(units) =~= seq![c]);
    } else if leads_pair(u[0]) && u.len() > 1 && ends_pair(u[1]) {
        lemma_utf16_text_appended(u.skip(2), c);
        assert((u + units).skip(2) =~= u.skip(2) + units);
        assert(utf16_text(u + units) =~= utf16_text(u).push(c));
    } else {
        lemma_utf16_text_appended(u.skip(1), c);
        assert((u + units).skip(1) =~= u.skip(1) + units);
        assert(!ends_pair(units[0]));
        assert((u + units)[0] == u[0]);
        if u.len() == 1 {
            assert((u + units)[1] == units[0]);
        } else {
            assert((u + units)[1] == u[1]);
        }
        assert(utf16_text(u + units) =~= utf16_text(u).push(c));
    }
}

// ---------------------------------------------------------------------------------
// Laws
// ---------------------------------------------------------------------------------

proof fn lemma_trim_start(s: Seq<char>) -> (from: int)
    ensures
        0 <= from <= s.len(),
        trim_start(s) == s.skip(from),
        forall|i: int| 0 <= i < from ==> white_space(#[trigger] s[i]),
        from < s.len() ==> !white_space(s[from]),
    decreases s.len(),
{
    if s.len() > 0 && white_space(s[0]) {
        let rest = s.drop_first();
        let k = lemma_trim_start(rest);
        assert(rest.skip(k) =~= s.skip(k + 1));
        assert forall|i: int| 0 <= i < k + 1 implies white_space(#[trigger] s[i]) by {
            if i > 0 {
                assert(s[i] == rest[i - 1]);
            }
        }
        k + 1
    } else {
        assert(s.skip(0) =~= s);
        0
    }
}

proof fn lemma_trim_end(s: Seq<char>) -> (to: int)
    ensures
        0 <= to <= s.len(),
        trim_end(s) == s.take(to),
        forall|i: int| to <= i < s.len() ==> white_space(#[trigger] s[i]),
        to > 0 ==> !white_space(s[to - 1]),
    decreases s.len(),
{
    if s.len() > 0 && white_space(s.last()) {
        let rest = s.drop_last();
        let k = lemma_trim_end(rest);
        assert(rest.take(k) =~= s.take(k));
        assert forall|i: int| k <= i < s.len() implies white_space(#[trigger] s[i]) by {
            if i < s.len() - 1 {
                assert(s[i] == rest[i]);
            }
        }
        k
    } else {
        assert(s.take(s.len() as int) =~= s);
        s.len() as int
    }
}

/// Trimming takes away white space only, and all of it at both ends: what is left neither
/// begins nor ends with white space.
pub proof fn law_trimming_leaves_the_inside(s: Seq<char>) -> (r: (int, int))
    ensures
        0 <= r.0 <= r.1 <= s.len(),
        trimmed(s) == s.subrange(r.0, r.1),
        forall|i: int| 0 <= i < r.0 ==> white_space(#[trigger] s[i]),
        forall|i: int| r.1 <= i < s.len() ==> white_space(#[trigger] s[i]),
        r.0 < r.1 ==> !white_space(s[r.0]) && !white_space(s[r.1 - 1]),
{
    let from = lemma_trim_start(s);
    let rest = s.skip(from);
    let k = lemma_trim_end(rest);
    assert(rest.take(k) =~= s.subrange(from, from + k));
    assert forall|i: int| from + k <= i < s.len() implies white_space(#[trigger] s[i]) by {
        assert(s[i] == rest[i - from]);
    }
    if k > 0 {
        assert(s[from + k - 1] == rest[k - 1]);
    }
    (from, from + k)
}

/// Changing the case moves ASCII letters by 32 and keeps every other character and the
/// length.
pub proof fn law_only_ascii_letters_change_case(s: Seq<char>, i: int)
    requires
        0 <= i < s.len(),
    ensures
        lower(s).len() == s.len(),
        upper(s).len() == s.len(),
        65 <= s[i] as u32 <= 90 ==> lower(s)[i] as u32 == s[i] as u32 + 32,
        !(65 <= s[i] as u32 <= 90) ==> lower(s)[i] == s[i],
        97 <= s[i] as u32 <= 122 ==> upper(s)[i] as u32 == s[i] as u32 - 32,
        !(97 <= s[i] as u32 <= 122) ==> upper(s)[i] == s[i],
{
}

/// A text begins with, ends with and holds what it is put together of.
pub proof fn law_parts_of_a_text_are_found(before: Seq<char>, part: Seq<char>, after: Seq<char>)
    ensures
        begins_with(part + after, part),
        ends_in(before + part, part),
        has_part(before + part + after, part),
{
    assert((part + after).subrange(0, part.len() as int) =~= part);
    let head = before + part;
    assert(head.subrange(before.len() as int, head.len() as int) =~= part);
    let all = before + part + after;
    assert(all.subrange(before.len() as int, (before.len() + part.len()) as int) =~= part);
    assert(stands_at(all, part, before.len() as int));
}

/// What a text begins with, ends with or holds is there, character by character.
pub proof fn law_found_parts_are_there(s: Seq<char>, part: Seq<char>)
    ensures
        begins_with(s, part) ==> part.len() <= s.len() && forall|i: int|
            0 <= i < part.len() ==> s[i] == #[trigger] part[i],
        ends_in(s, part) ==> part.len() <= s.len() && forall|i: int|
            0 <= i < part.len() ==> s[s.len() - part.len() + i] == #[trigger] part[i],
        has_part(s, part) ==> exists|before: Seq<char>, after: Seq<char>|
            s == #[trigger] (before + part + after),
{
    if begins_with(s, part) {
        assert forall|i: int| 0 <= i < part.len() implies s[i] == #[trigger] part[i] by {
            assert(s.subrange(0, part.len() as int)[i] == s[i]);
        }
    }
    if ends_in(s, part) {
        let at = s.len() - part.len();
        assert forall|i: int| 0 <= i < part.len() implies s[at + i] == #[trigger] part[i] by {
            assert(s.subrange(at, at + part.len())[i] == s[at + i]);
        }
    }
    if has_part(s, part) {
        let at = choose|at: int| #[trigger] stands_at(s, part, at);
        assert(s =~= s.take(at) + part + s.skip(at + part.len()));
    }
}

/// The first occurrence of a character is an occurrence, with none before it; where none is
/// found there is none.
pub proof fn law_the_first_occurrence_is_found(s: Seq<char>, c: char, from: int)
    requires
        0 <= from,
    ensures
        first_from(s, c, from) matches Some(at) ==> from <= at < s.len() && s[at] == c && forall|
            i: int,
        |
            from <= i < at ==> #[trigger] s[i] != c,
        first_from(s, c, from) is None ==> forall|i: int| from <= i < s.len() ==> #[trigger] s[i] != c,
    decreases s.len() - from,
{
    if from < s.len() && s[from] != c {
        law_the_first_occurrence_is_found(s, c, from + 1);
    }
}

/// An occurrence with none before it is the first one.
pub proof fn lemma_is_first(s: Seq<char>, c: char, from: int, at: int)
    requires
        0 <= from <= at < s.len(),
        s[at] == c,
        forall|i: int| from <= i < at ==> #[trigger] s[i] != c,
    ensures
        first_from(s, c, from) == Some(at),
{
    law_the_first_occurrence_is_found(s, c, from);
}

/// A line ends before its line break, or with the text.
pub proof fn law_lines_end_before_their_break(s: Seq<char>, from: int)
    requires
        0 <= from <= s.len(),
    ensures
        ({
            let end = line_end(s, from);
            &&& from <= end <= s.len()
            &&& forall|i: int| from <= i < end ==> #[trigger] s[i] != '\n'
            &&& end < s.len() ==> s[end] == '\n'
        }),
{
    law_the_first_occurrence_is_found(s, '\n', from);
}

/// The number that a numeral stands for.
pub open spec fn number_of(s: Seq<char>) -> int
    decreases s.len(),
{
    if s.len() == 0 {
        0
    } else {
        10 * number_of(s.drop_last()) + (s.last() as int - 48)
    }
}

/// The numeral of a number is made of digits, stands for the number and has no leading
/// zero.
pub proof fn law_numerals_stand_for_their_number(n: nat)
    ensures
        number_of(decimal(n)) == n,
        decimal(n).len() >= 1,
        forall|i: int|
            0 <= i < decimal(n).len() ==> 48 <= #[trigger] decimal(n)[i] as u32 <= 57,
        decimal(n)[0] == '0' ==> n == 0 && decimal(n).len() == 1,
    decreases n,
{
    let s = decimal(n);
    if n < 10 {
        assert(s.drop_last() =~= seq![]);
        assert(number_of(s.drop_last()) == 0);
    } else {
        law_numerals_stand_for_their_number(n / 10);
        assert(s.drop_last() =~= decimal(n / 10));
        assert forall|i: int| 0 <= i < s.len() implies 48 <= #[trigger] s[i] as u32 <= 57 by {
            if i < s.len() - 1 {
                assert(s[i] == decimal(n / 10)[i]);
            }
        }
        assert(s[0] == decimal(n / 10)[0]);
    }
}

/// A numeral with two places stands for its number, has at least two digits, and more only
/// where the number needs them.
pub proof fn law_numerals_with_two_places(n: nat)
    ensures
        number_of(two_places(n)) == n,
        two_places(n).len() >= 2,
        n < 100 ==> two_places(n).len() == 2,
        n >= 10 ==> two_places(n) == decimal(n),
{
    law_numerals_stand_for_their_number(n);
    if n < 10 {
        let s = two_places(n);
        let zero = s.drop_last();
        assert(zero =~= seq!['0']);
        assert(zero.drop_last() =~= seq![]);
        assert(number_of(zero.drop_last()) == 0);
        assert(number_of(zero) == 0);
    } else {
        law_numerals_stand_for_their_number(n / 10);
        if n < 100 {
            assert(decimal(n / 10).len() == 1);
        }
    }
}

/// White space parts words: those of a text with a space in it are those before the space
/// and those behind it.
pub proof fn law_white_space_parts_words(before: Seq<char>, c: char, after: Seq<char>)
    requires
        white_space(c),
    ensures
        words(before + seq![c] + after) == words(before) + words(after),
    decreases after.len(),
{
    let s = before + seq![c] + after;
    if after.len() == 0 {
        assert(s.drop_last() =~= before);
        assert(words(after) =~= seq![]);
        assert(words(before) + words(after) =~= words(before));
    } else {
        let less = after.drop_last();
        assert(s.drop_last() =~= before + seq![c] + less);
        law_white_space_parts_words(before, c, less);
        let x = after.last();
        if !white_space(x) {
            if less.len() > 0 && !white_space(less.last()) {
                assert(s[s.len() - 2] == less.last());
                lemma_words_after_text(less);
                let both = words(before) + words(less);
                assert(both.drop_last() =~= words(before) + words(less).drop_last());
                assert(both.last() == words(less).last());
            } else {
                if less.len() > 0 {
                    assert(s[s.len() - 2] == less.last());
                } else {
                    assert(s[s.len() - 2] == c);
                }
            }
        }
        assert(words(s) =~= words(before) + words(after));
    }
}

/// A text without white space is one word, and an empty one none.
pub proof fn law_a_text_without_white_space_is_one_word(s: Seq<char>)
    requires
        forall|i: int| 0 <= i < s.len() ==> !white_space(#[trigger] s[i]),
    ensures
        s.len() > 0 ==> words(s) == seq![s],
        s.len() == 0 ==> words(s).len() == 0,
    decreases s.len(),
{
    if s.len() > 0 {
        let less = s.drop_last();
        assert forall|i: int| 0 <= i < less.len() implies !white_space(#[trigger] less[i]) by {
            assert(less[i] == s[i]);
        }
        law_a_text_without_white_space_is_one_word(less);
        assert(less.push(s.last()) =~= s);
        if s.len() == 1 {
            assert(s =~= seq![s.last()]);
            assert(words(s) =~= seq![s]);
        } else {
            assert(!white_space(s[s.len() - 2]));
            assert(words(s) =~= seq![s]);
        }
    }
}

/// Joined words stand in their order with one space between neighbours.
pub proof fn law_joined_words_have_one_space_between(first: Seq<Seq<char>>, then: Seq<Seq<char>>)
    ensures
        first.len() > 0 && then.len() > 0 ==> spaced(first + then) == spaced(first) + seq![' ']
            + spaced(then),
        first.len() == 1 ==> spaced(first) == first[0],
        first.len() == 0 ==> spaced(first).len() == 0,
    decreases then.len(),
{
    if first.len() > 0 && then.len() > 0 {
        let all = first + then;
        let less = then.drop_last();
        assert(all.drop_last() =~= first + less);
        assert(all.last() == then.last());
        if less.len() == 0 {
            assert(first + less =~= first);
        } else {
            law_joined_words_have_one_space_between(first, less);
        }
        assert(spaced(all) =~= spaced(first) + seq![' '] + spaced(then));
    }
}

proof fn lemma_words_are_not_empty(s: Seq<char>)
    ensures
        forall|i: int| 0 <= i < words(s).len() ==> (#[trigger] words(s)[i]).len() > 0,
        words(s).len() > 0 <==> exists|i: int| 0 <= i < s.len() && !white_space(#[trigger] s[i]),
    decreases s.len(),
{
    if s.len() > 0 {
        let less = s.drop_last();
        lemma_words_are_not_empty(less);
        if white_space(s.last()) {
            if words(s).len() > 0 {
                let i = choose|i: int| 0 <= i < less.len() && !white_space(#[trigger] less[i]);
                assert(!white_space(s[i]));
            }
            if exists|i: int| 0 <= i < s.len() && !white_space(#[trigger] s[i]) {
                let i = choose|i: int| 0 <= i < s.len() && !white_space(#[trigger] s[i]);
                assert(!white_space(less[i]));
            }
        } else {
            assert(!white_space(s[s.len() - 1]));
            lemma_words_after_text(s);
        }
    }
}

/// Joining the words of a text leaves nothing exactly where the text is blank.
pub proof fn law_only_blank_texts_have_no_words(s: Seq<char>)
    ensures
        spaced(words(s)).len() > 0 <==> exists|i: int|
            0 <= i < s.len() && !white_space(#[trigger] s[i]),
{
    lemma_words_are_not_empty(s);
    let w = words(s);
    if w.len() == 1 {
        assert(w[0].len() > 0);
    }
}

/// The UTF-16 form of a text is that of its characters in a row: a character of the basic
/// plane is one unit with its code point, any other is a pair of surrogates.
pub proof fn law_utf16_goes_by_characters(s: Seq<char>, t: Seq<char>, c: char)
    ensures
        utf16(s + t) == utf16(s) + utf16(t),
        (c as u32) < 0x1_0000 ==> utf16(seq![c]) == seq![c as u32 as u16],
        c as u32 >= 0x1_0000 ==> {
            let pair = utf16(seq![c]);
            &&& pair.len() == 2
            &&& 0xd800 <= pair[0] < 0xdc00
            &&& 0xdc00 <= pair[1] < 0xe000
            &&& c as u32 == 0x1_0000 + 0x400 * (pair[0] - 0xd800) + (pair[1] - 0xdc00)
        },
    decreases t.len(),
{
    let one = seq![c];
    assert(one.drop_last() =~= seq![]);
    assert(utf16(one.drop_last()) =~= seq![]);
    assert(utf16(one) =~= utf16_units(c));
    if t.len() == 0 {
        assert(s + t =~= s);
        assert(utf16(s) + utf16(t) =~= utf16(s));
    } else {
        law_utf16_goes_by_characters(s, t.drop_last(), c);
        assert((s + t).drop_last() =~= s + t.drop_last());
        assert(utf16(s + t) =~= utf16(s) + utf16(t));
    }
}

/// Reading UTF-16: a pair of surrogates is one character, a surrogate without its partner
/// is replaced, and any other unit is the character with its number.
pub proof fn law_utf16_is_read_unit_by_unit(u: u16, rest: Seq<u16>)
    ensures
        !(0xd800 <= u < 0xe000) ==> utf16_text(seq![u] + rest) == seq![u as char] + utf16_text(
            rest,
        ),
        0xdc00 <= u < 0xe000 ==> utf16_text(seq![u] + rest) == seq!['\u{fffd}'] + utf16_text(rest),
        0xd800 <= u < 0xdc00 && !(rest.len() > 0 && 0xdc00 <= rest[0] < 0xe000) ==> utf16_text(
            seq![u] + rest,
        ) == seq!['\u{fffd}'] + utf16_text(rest),
        0xd800 <= u < 0xdc00 && rest.len() > 0 && 0xdc00 <= rest[0] < 0xe000 ==> utf16_text(
            seq![u] + rest,
        ) == seq![(0x1_0000 + 0x400 * (u - 0xd800) + (rest[0] - 0xdc00)) as char] + utf16_text(
            rest.skip(1),
        ),
        utf16_text(Seq::<u16>::empty()).len() == 0,
{
    let all = seq![u] + rest;
    assert(all.skip(1) =~= rest);
    if rest.len() > 0 {
        assert(all.skip(2) =~= rest.skip(1));
        assert(all[1] == rest[0]);
    }
}

/// A part stands at a position exactly when its characters do, one by one.
pub proof fn law_a_part_stands_where_its_characters_do(s: Seq<char>, part: Seq<char>, at: int)
    ensures
        stands_at(s, part, at) <==> 0 <= at && at + part.len() <= s.len() && forall|i: int|
            0 <= i < part.len() ==> s[at + i] == #[trigger] part[i],
{
    if 0 <= at && at + part.len() <= s.len() {
        let there = s.subrange(at, at + part.len());
        if stands_at(s, part, at) {
            assert forall|i: int| 0 <= i < part.len() implies s[at + i] == #[trigger] part[i] by {
                assert(there[i] == s[at + i]);
            }
        }
        if forall|i: int| 0 <= i < part.len() ==> s[at + i] == #[trigger] part[i] {
            assert(there =~= part);
        }
    }
}

} // verus!
