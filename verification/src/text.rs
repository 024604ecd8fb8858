//! Strings as sequences of characters.
//!
//! Every contract of the library speaks of a `String` or `&str` through its view, a `Seq<char>`.
//! This module holds the few standard-library facts the rest is built on, and the verified
//! character-level routines (search, trimming, decimal text) that the protocol code shares.
use vstd::prelude::*;

verus! {

broadcast use vstd::string::group_string_axioms;

/// Comparing two string slices tells whether they hold the same characters.
pub assume_specification[ <str as PartialEq>::eq ](a: &str, b: &str) -> (r: bool)
    ensures
        r == (a@ == b@),
;

/// `String::push` appends one character at the end.
pub assume_specification[ String::push ](s: &mut String, c: char)
    ensures
        final(s)@ == old(s)@.push(c),
;

/// `String::push_str` appends all characters of the slice at the end.
pub assume_specification[ String::push_str ](s: &mut String, t: &str)
    ensures
        final(s)@ == old(s)@ + t@,
;

/// Whether two strings hold the same characters.
pub fn str_eq(a: &str, b: &str) -> (r: bool)
    ensures
        r == (a@ == b@),
{
    a.eq(b)
}

/// All characters of a string, as a vector.
pub fn chars_of(s: &str) -> (r: Vec<char>)
    ensures
        r@ == s@,
{
    let mut v: Vec<char> = Vec::new();
    for c in it: s.chars()
        invariant
            v@ == it.seq().take(it.index()),
            it.seq() == s@,
    {
        v.push(c);
        assert(it.seq().take(it.index() + 1) == it.seq().take(it.index()).push(c));
    }
    assert(v@ == s@);
    v
}

/// The string made of the characters `v[from..to]`.
pub fn string_of(v: &Vec<char>, from: usize, to: usize) -> (r: String)
    requires
        from <= to <= v@.len(),
    ensures
        r@ == v@.subrange(from as int, to as int),
{
    let mut s = String::new();
    let mut i: usize = from;
    while i < to
        invariant
            from <= i <= to <= v@.len(),
            s@ == v@.subrange(from as int, i as int),
        decreases to - i,
    {
        s.push(v[i]);
        i = i + 1;
        assert(s@ == v@.subrange(from as int, i as int));
    }
    s
}

/// Position of the first `c` among `v[from..to]`, counted from the start of `v`.
pub fn find_char(v: &Vec<char>, from: usize, to: usize, c: char) -> (r: Option<usize>)
    requires
        from <= to <= v@.len(),
    ensures
        match r {
            Some(i) => from <= i < to && v@.subrange(from as int, to as int).index_of_first(c)
                == Some((i - from) as int) && v@[i as int] == c,
            None => v@.subrange(from as int, to as int).index_of_first(c) is None,
        },
{
    let ghost s = v@.subrange(from as int, to as int);
    proof {
        s.index_of_first_ensures(c);
    }
    let mut i: usize = from;
    while i < to
        invariant
            from <= i <= to <= v@.len(),
            s == v@.subrange(from as int, to as int),
            forall|j: int| 0 <= j < i - from ==> s[j] != c,
        decreases to - i,
    {
        assert(s[i - from] == v@[i as int]);
        if v[i] == c {
            proof {
                s.index_of_first_ensures(c);
                assert(s.contains(c));
            }
            return Some(i);
        }
        i = i + 1;
    }
    None
}

/// The upper-case form of an ASCII letter; any other character as it is.
pub open spec fn ascii_upper_char(c: char) -> char {
    if 'a' <= c <= 'z' {
        (c as u8 - 32u8) as char
    } else {
        c
    }
}

/// The lower-case form of an ASCII letter; any other character as it is.
pub open spec fn ascii_lower_char(c: char) -> char {
    if 'A' <= c <= 'Z' {
        (c as u8 + 32u8) as char
    } else {
        c
    }
}

/// Every ASCII letter in upper case.
pub open spec fn ascii_upper(s: Seq<char>) -> Seq<char> {
    s.map_values(|c: char| ascii_upper_char(c))
}

/// Every ASCII letter in lower case.
pub open spec fn ascii_lower(s: Seq<char>) -> Seq<char> {
    s.map_values(|c: char| ascii_lower_char(c))
}

/// Every ASCII letter of `v[from..to]` in upper case.
pub fn to_ascii_upper(v: &Vec<char>, from: usize, to: usize) -> (r: String)
    requires
        from <= to <= v@.len(),
    ensures
        r@ == ascii_upper(v@.subrange(from as int, to as int)),
{
    let mut s = String::new();
    let mut i: usize = from;
    while i < to
        invariant
            from <= i <= to <= v@.len(),
            s@ == ascii_upper(v@.subrange(from as int, i as int)),
        decreases to - i,
    {
        let c = v[i];
        let d = if c >= 'a' && c <= 'z' {
            (c as u8 - 32u8) as char
        } else {
            c
        };
        s.push(d);
        i = i + 1;
        assert(s@ =~= ascii_upper(v@.subrange(from as int, i as int)));
    }
    s
}

/// Every ASCII letter of the string in lower case.
pub fn to_ascii_lower(t: &str) -> (r: String)
    ensures
        r@ == ascii_lower(t@),
{
    let v = chars_of(t);
    let mut s = String::new();
    let mut i: usize = 0;
    while i < v.len()
        invariant
            i <= v@.len(),
            s@ == ascii_lower(v@.take(i as int)),
        decreases v.len() - i,
    {
        let c = v[i];
        let d = if c >= 'A' && c <= 'Z' {
            (c as u8 + 32u8) as char
        } else {
            c
        };
        s.push(d);
        i = i + 1;
        assert(s@ =~= ascii_lower(v@.take(i as int)));
    }
    assert(v@.take(i as int) =~= v@);
    s
}

/// Whether a string begins with the character `c`.
pub open spec fn starts_with(s: Seq<char>, c: char) -> bool {
    s.len() > 0 && s[0] == c
}

/// Length of a string in UTF-8 bytes.
pub fn byte_len(s: &str) -> (n: usize)
    ensures
        n == vstd::utf8::encode_utf8(s@).len(),
{
    s.as_bytes().len()
}

/// The longest prefix of `s` that takes at most `limit` bytes in UTF-8.
pub open spec fn byte_prefix(s: Seq<char>, limit: nat) -> Seq<char>
    decreases s.len(),
{
    if s.len() > 0 && vstd::utf8::encode_utf8(s).len() > limit {
        byte_prefix(s.drop_last(), limit)
    } else {
        s
    }
}

/// The longest prefix of the string that takes at most `limit` bytes.
pub fn to_byte_prefix(s: &str, limit: usize) -> (r: String)
    ensures
        r@ == byte_prefix(s@, limit as nat),
{
    let v = chars_of(s);
    let mut n: usize = v.len();
    let mut cur = string_of(&v, 0, n);
    assert(cur@ =~= s@);
    while n > 0 && byte_len(cur.as_str()) > limit
        invariant
            n <= v@.len(),
            cur@ == v@.subrange(0, n as int),
            byte_prefix(s@, limit as nat) == byte_prefix(cur@, limit as nat),
        decreases n,
    {
        assert(cur@.drop_last() =~= v@.subrange(0, n - 1));
        n = n - 1;
        cur = string_of(&v, 0, n);
    }
    cur
}

/// Whether `s` begins with `p`.
pub open spec fn has_prefix(s: Seq<char>, p: Seq<char>) -> bool {
    p.len() <= s.len() && s.subrange(0, p.len() as int) == p
}

/// What follows the prefix `p` of `s`, if it has it.
pub open spec fn strip_prefix_spec(s: Seq<char>, p: Seq<char>) -> Option<Seq<char>> {
    if has_prefix(s, p) {
        Some(s.subrange(p.len() as int, s.len() as int))
    } else {
        None
    }
}

/// What follows the prefix `p` of `s`, if it has it.
pub fn strip_prefix(s: &str, p: &str) -> (r: Option<String>)
    ensures
        r.deep_view() == strip_prefix_spec(s@, p@),
{
    let v = chars_of(s);
    let w = chars_of(p);
    if w.len() > v.len() {
        return None;
    }
    let head = string_of(&v, 0, w.len());
    if str_eq(head.as_str(), p) {
        Some(string_of(&v, w.len(), v.len()))
    } else {
        None
    }
}

/// Whether `s` begins with `p`.
pub fn starts_with_str(s: &str, p: &str) -> (r: bool)
    ensures
        r == has_prefix(s@, p@),
{
    strip_prefix(s, p).is_some()
}

/// The parts of `s` before and after its first `c`.
pub open spec fn split_once_spec(s: Seq<char>, c: char) -> Option<(Seq<char>, Seq<char>)> {
    match s.index_of_first(c) {
        Some(i) => Some((s.subrange(0, i), s.subrange(i + 1, s.len() as int))),
        None => None,
    }
}

/// The parts of a string before and after its first `c`.
pub fn split_once(s: &str, c: char) -> (r: Option<(String, String)>)
    ensures
        r.deep_view() == split_once_spec(s@, c),
{
    let v = chars_of(s);
    assert(v@.subrange(0, v@.len() as int) =~= s@);
    match find_char(&v, 0, v.len(), c) {
        Some(i) => Some((string_of(&v, 0, i), string_of(&v, i + 1, v.len()))),
        None => None,
    }
}

/// Whether a string begins with the character `c`.
pub fn starts_with_char(s: &str, c: char) -> (r: bool)
    ensures
        r == starts_with(s@, c),
{
    let v = chars_of(s);
    v.len() > 0 && v[0] == c
}

/// The string of an optional one, or a default.
pub open spec fn or_default(o: Option<Seq<char>>, d: Seq<char>) -> Seq<char> {
    match o {
        Some(s) => s,
        None => d,
    }
}

/// Whether all characters are ASCII.
pub open spec fn all_ascii(s: Seq<char>) -> bool {
    forall|i: int| 0 <= i < s.len() ==> (#[trigger] s[i]) as u32 <= 127
}

/// The Unicode lower-case form of a string that is not all ASCII.
pub uninterp spec fn unicode_lowercase(s: Seq<char>) -> Seq<char>;

/// The lower-case form of a string: letter by letter where it is ASCII.
pub open spec fn lowercase(s: Seq<char>) -> Seq<char> {
    if all_ascii(s) {
        ascii_lower(s)
    } else {
        unicode_lowercase(s)
    }
}

/// `str::to_lowercase`: the Unicode lower-case form, which changes the letters alone where the string is
/// ASCII. A function of the characters alone.
#[verifier::external_body]
pub(crate) fn to_lowercase(s: &str) -> (r: String)
    ensures
        r@ == if all_ascii(s@) { ascii_lower(s@) } else { unicode_lowercase(s@) },
{
    s.to_lowercase()
}

/// The Unicode upper-case form of a string that is not all ASCII.
pub uninterp spec fn unicode_uppercase(s: Seq<char>) -> Seq<char>;

/// The upper-case form of a string: letter by letter where it is ASCII.
pub open spec fn uppercase(s: Seq<char>) -> Seq<char> {
    if all_ascii(s) {
        ascii_upper(s)
    } else {
        unicode_uppercase(s)
    }
}

/// `str::to_uppercase`: the Unicode upper-case form, which changes the letters alone where the string is
/// ASCII. A function of the characters alone.
#[verifier::external_body]
pub(crate) fn to_uppercase(s: &str) -> (r: String)
    ensures
        r@ == if all_ascii(s@) { ascii_upper(s@) } else { unicode_uppercase(s@) },
{
    s.to_uppercase()
}

/// A line of text under construction.
pub struct Line {
    text: String,
}

impl View for Line {
    type V = Seq<char>;

    closed spec fn view(&self) -> Seq<char> {
        self.text@
    }
}

impl Line {
    /// A line that begins with `s`.
    pub fn new(s: &str) -> (r: Line)
        ensures
            r@ == s@,
    {
        Line { text: s.to_owned() }
    }

    /// The line with `s` after it.
    pub fn add(self, s: &str) -> (r: Line)
        ensures
            r@ == self@ + s@,
    {
        let mut t = self.text;
        t.push_str(s);
        Line { text: t }
    }

    /// The line with `c` after it.
    pub fn add_char(self, c: char) -> (r: Line)
        ensures
            r@ == self@.push(c),
    {
        let mut t = self.text;
        t.push(c);
        Line { text: t }
    }

    /// The finished line.
    pub fn done(self) -> (r: String)
        ensures
            r@ == self@,
    {
        self.text
    }
}

// ── Decimal text ────────────────────────────────────────────────────

/// The decimal digit of a number below ten.
pub open spec fn digit(d: nat) -> char {
    ('0' as u8 + d) as char
}

/// The decimal text of a number.
pub open spec fn decimal_spec(n: nat) -> Seq<char>
    decreases n,
{
    if n < 10 {
        seq![digit(n)]
    } else {
        decimal_spec(n / 10).push(digit(n % 10))
    }
}

/// The decimal text of a number.
pub fn decimal(n: u128) -> (r: String)
    ensures
        r@ == decimal_spec(n as nat),
    decreases n,
{
    if n < 10 {
        let mut s = String::new();
        s.push((48u8 + n as u8) as char);
        assert(s@ =~= seq![digit(n as nat)]);
        s
    } else {
        let mut s = decimal(n / 10);
        s.push((48u8 + (n % 10) as u8) as char);
        s
    }
}

// ── Joining ─────────────────────────────────────────────────────────

/// The strings of a list with `sep` between them.
pub open spec fn join_spec(v: Seq<Seq<char>>, sep: Seq<char>) -> Seq<char>
    decreases v.len(),
{
    if v.len() == 0 {
        Seq::empty()
    } else if v.len() == 1 {
        v[0]
    } else {
        join_spec(v.drop_last(), sep) + sep + v.last()
    }
}

/// The strings of a list with `sep` between them.
pub fn join(v: &Vec<String>, sep: &str) -> (r: String)
    ensures
        r@ == join_spec(v.deep_view(), sep@),
{
    let ghost all = v.deep_view();
    let mut out = String::new();
    let mut i: usize = 0;
    assert(join_spec(all.take(0), sep@) =~= Seq::<char>::empty());
    while i < v.len()
        invariant
            i <= v.len(),
            all == v.deep_view(),
            out@ == join_spec(all.take(i as int), sep@),
        decreases v.len() - i,
    {
        assert(all.take(i + 1).drop_last() =~= all.take(i as int));
        if i > 0 {
            out.push_str(sep);
        }
        let ghost before = out@;
        out.push_str(v[i].as_str());
        if i == 0 {
            assert(out@ =~= v[0]@);
        }
        i = i + 1;
    }
    assert(all.take(i as int) =~= all);
    out
}

// ── White space ─────────────────────────────────────────────────────

/// Characters with the Unicode property White_Space.
pub open spec fn is_space(c: char) -> bool {
    ||| '\u{9}' <= c <= '\u{d}'
    ||| c == ' '
    ||| c == '\u{85}'
    ||| c == '\u{a0}'
    ||| c == '\u{1680}'
    ||| '\u{2000}' <= c <= '\u{200a}'
    ||| c == '\u{2028}'
    ||| c == '\u{2029}'
    ||| c == '\u{202f}'
    ||| c == '\u{205f}'
    ||| c == '\u{3000}'
}

/// Whether the character has the Unicode property White_Space.
pub fn char_is_space(c: char) -> (b: bool)
    ensures
        b == is_space(c),
{
    (c >= '\u{9}' && c <= '\u{d}') || c == ' ' || c == '\u{85}' || c == '\u{a0}' || c == '\u{1680}'
        || (c >= '\u{2000}' && c <= '\u{200a}') || c == '\u{2028}' || c == '\u{2029}' || c
        == '\u{202f}' || c == '\u{205f}' || c == '\u{3000}'
}

/// `s` without the white space at its end.
pub open spec fn trim_end_spec(s: Seq<char>) -> Seq<char>
    decreases s.len(),
{
    if s.len() > 0 && is_space(s.last()) {
        trim_end_spec(s.drop_last())
    } else {
        s
    }
}

/// `s` without the white space at its start.
pub open spec fn trim_start_spec(s: Seq<char>) -> Seq<char>
    decreases s.len(),
{
    if s.len() > 0 && is_space(s[0]) {
        trim_start_spec(s.skip(1))
    } else {
        s
    }
}

/// `s` without the white space at its ends.
pub open spec fn trim_spec(s: Seq<char>) -> Seq<char> {
    trim_end_spec(trim_start_spec(s))
}

/// The string without the white space at its ends.
pub fn trim(t: &str) -> (r: String)
    ensures
        r@ == trim_spec(t@),
{
    let v = chars_of(t);
    let n: usize = v.len();
    let mut from: usize = 0;
    assert(v@.skip(0) =~= v@);
    while from < n && char_is_space(v[from])
        invariant
            from <= n,
            n == v@.len(),
            trim_start_spec(v@) == trim_start_spec(v@.skip(from as int)),
        decreases n - from,
    {
        assert(v@.skip(from as int)[0] == v@[from as int]);
        assert(v@.skip(from as int).skip(1) =~= v@.skip(from + 1));
        from = from + 1;
    }
    if from < n {
        assert(v@.skip(from as int)[0] == v@[from as int]);
    }
    let ghost mid = v@.skip(from as int);
    assert(trim_start_spec(v@) == mid);
    let mut to: usize = n;
    assert(v@.subrange(from as int, to as int) =~= mid);
    while to > from && char_is_space(v[to - 1])
        invariant
            from <= to <= n,
            n == v@.len(),
            trim_end_spec(mid) == trim_end_spec(v@.subrange(from as int, to as int)),
        decreases to,
    {
        assert(v@.subrange(from as int, to as int).last() == v@[to - 1]);
        assert(v@.subrange(from as int, to as int).drop_last() =~= v@.subrange(
            from as int,
            to - 1,
        ));
        to = to - 1;
    }
    if to > from {
        assert(v@.subrange(from as int, to as int).last() == v@[to - 1]);
    }
    string_of(&v, from, to)
}

// ── Numbers in text ─────────────────────────────────────────────────

/// Whether the character is a decimal digit.
pub open spec fn is_digit(c: char) -> bool {
    '0' <= c <= '9'
}

/// The number that some digits stand for.
pub open spec fn digits_value(s: Seq<char>) -> nat
    decreases s.len(),
{
    if s.len() == 0 {
        0
    } else {
        digits_value(s.drop_last()) * 10 + (s.last() as nat - '0' as nat) as nat
    }
}

/// A number without an optional `+` before it.
pub open spec fn unsigned_part(s: Seq<char>) -> Seq<char> {
    if starts_with(s, '+') {
        s.skip(1)
    } else {
        s
    }
}

/// Whether all characters are decimal digits.
pub open spec fn all_digits(s: Seq<char>) -> bool {
    forall|i: int| 0 <= i < s.len() ==> is_digit(#[trigger] s[i])
}

/// The number up to `max` that a text stands for: digits, at least one, after an optional `+`.
pub open spec fn number_spec(s: Seq<char>, max: nat) -> Option<nat> {
    let d = unsigned_part(s);
    if d.len() > 0 && all_digits(d) && digits_value(d) <= max {
        Some(digits_value(d))
    } else {
        None
    }
}

/// More digits never make a number smaller.
proof fn lemma_digits_grow(s: Seq<char>, n: int)
    requires
        0 <= n <= s.len(),
        all_digits(s),
    ensures
        digits_value(s.take(n)) <= digits_value(s),
    decreases s.len() - n,
{
    if n < s.len() {
        lemma_digits_grow(s, n + 1);
        assert(s.take(n + 1).drop_last() =~= s.take(n));
        assert(is_digit(s[n]));
    } else {
        assert(s.take(n) =~= s);
    }
}

/// The number up to `max` that a text stands for.
pub fn parse_number(t: &str, max: u64) -> (r: Option<u64>)
    ensures
        match r {
            Some(n) => number_spec(t@, max as nat) == Some(n as nat),
            None => number_spec(t@, max as nat) is None,
        },
{
    let v = chars_of(t);
    let n: usize = v.len();
    let from: usize = if n > 0 && v[0] == '+' {
        1
    } else {
        0
    };
    let ghost d = v@.skip(from as int);
    assert(from == 0 ==> d =~= t@);
    assert(from == 1 ==> d =~= t@.skip(1));
    assert(d == unsigned_part(t@));
    if from == n {
        return None;
    }
    let mut acc: u128 = 0;
    let mut i: usize = from;
    assert(d.take(0) =~= Seq::<char>::empty());
    while i < n
        invariant
            from <= i <= n,
            n == v@.len(),
            d == v@.skip(from as int),
            d == unsigned_part(t@),
            d.len() > 0,
            forall|j: int| 0 <= j < i - from ==> is_digit(#[trigger] d[j]),
            acc == digits_value(d.take(i - from)),
            acc <= max,
        decreases n - i,
    {
        let c = v[i];
        assert(d[i - from] == c);
        if c < '0' || c > '9' {
            assert(!is_digit(d[i - from]));
            return None;
        }
        assert(d.take(i - from + 1).drop_last() =~= d.take(i - from));
        acc = acc * 10 + (c as u128 - '0' as u128);
        if acc > max as u128 {
            assert(number_spec(t@, max as nat) is None) by {
                if all_digits(d) {
                    lemma_digits_grow(d, i - from + 1);
                }
            }
            return None;
        }
        i = i + 1;
    }
    assert(d.take(i - from) =~= d);
    Some(acc as u64)
}

// ── Lines ───────────────────────────────────────────────────────────

/// A line without the carriage return before its line feed.
pub open spec fn without_cr(s: Seq<char>) -> Seq<char> {
    if s.len() > 0 && s.last() == '\r' {
        s.drop_last()
    } else {
        s
    }
}

/// The lines of a text; the last line feed is optional.
pub open spec fn lines_spec(s: Seq<char>) -> Seq<Seq<char>>
    decreases s.len(),
{
    if s.len() == 0 {
        Seq::empty()
    } else {
        match s.index_of_first('\n') {
            Some(i) => if 0 <= i < s.len() {
                seq![without_cr(s.subrange(0, i))] + lines_spec(s.subrange(i + 1, s.len() as int))
            } else {
                Seq::empty()
            },
            None => seq![s],
        }
    }
}

/// The lines of a text.
pub fn lines(t: &str) -> (r: Vec<String>)
    ensures
        r.deep_view() == lines_spec(t@),
{
    let v = chars_of(t);
    let n: usize = v.len();
    let mut out: Vec<String> = Vec::new();
    let mut pos: usize = 0;
    assert(v@.subrange(0, n as int) =~= t@);
    assert(out.deep_view() + lines_spec(t@) =~= lines_spec(t@));
    while pos < n
        invariant_except_break
            lines_spec(t@) == out.deep_view() + lines_spec(v@.subrange(pos as int, n as int)),
        invariant
            pos <= n,
            n == v@.len(),
        ensures
            out.deep_view() == lines_spec(t@),
        decreases n - pos,
    {
        let ghost rest = v@.subrange(pos as int, n as int);
        let ghost before = out.deep_view();
        match find_char(&v, pos, n, '\n') {
            Some(i) => {
                let end: usize = if i > pos && v[i - 1] == '\r' {
                    i - 1
                } else {
                    i
                };
                assert(v@.subrange(pos as int, end as int) =~= without_cr(
                    rest.subrange(0, i - pos),
                ));
                assert(v@.subrange(i + 1, n as int) =~= rest.subrange(
                    i - pos + 1,
                    rest.len() as int,
                ));
                out.push(string_of(&v, pos, end));
                pos = i + 1;
                assert(out.deep_view() + lines_spec(v@.subrange(pos as int, n as int)) =~= before
                    + lines_spec(rest));
                if pos == n {
                    assert(v@.subrange(pos as int, n as int).len() == 0);
                    assert(out.deep_view() =~= lines_spec(t@));
                }
            },
            None => {
                out.push(string_of(&v, pos, n));
                assert(out.deep_view() =~= before + lines_spec(rest));
                break;
            },
        }
    }
    out
}

/// `s` without the characters `c` at its end.
pub open spec fn trim_end_char_spec(s: Seq<char>, c: char) -> Seq<char>
    decreases s.len(),
{
    if s.len() > 0 && s.last() == c {
        trim_end_char_spec(s.drop_last(), c)
    } else {
        s
    }
}

/// The string without the characters `c` at its end.
pub fn trim_end_char(t: &str, c: char) -> (r: String)
    ensures
        r@ == trim_end_char_spec(t@, c),
{
    let v = chars_of(t);
    let mut n: usize = v.len();
    assert(v@.subrange(0, n as int) =~= t@);
    while n > 0 && v[n - 1] == c
        invariant
            n <= v@.len(),
            trim_end_char_spec(t@, c) == trim_end_char_spec(v@.subrange(0, n as int), c),
        decreases n,
    {
        assert(v@.subrange(0, n as int).drop_last() =~= v@.subrange(0, n - 1));
        n = n - 1;
    }
    string_of(&v, 0, n)
}

/// Whether a string ends with the character `c`.
pub fn ends_with_char(t: &str, c: char) -> (r: bool)
    ensures
        r == (t@.len() > 0 && t@.last() == c),
{
    let v = chars_of(t);
    v.len() > 0 && v[v.len() - 1] == c
}

/// How many characters come before the first white space.
pub open spec fn word_end(s: Seq<char>) -> nat
    decreases s.len(),
{
    if s.len() == 0 || is_space(s[0]) {
        0
    } else {
        1 + word_end(s.skip(1))
    }
}

/// A word ends within the text, and one that starts is not empty.
pub proof fn lemma_word_end(s: Seq<char>)
    ensures
        word_end(s) <= s.len(),
        s.len() > 0 && !is_space(s[0]) ==> word_end(s) > 0,
    decreases s.len(),
{
    if s.len() > 0 && !is_space(s[0]) {
        lemma_word_end(s.skip(1));
    }
}

/// The words of a text: its longest pieces without white space, in their order.
pub open spec fn words_spec(s: Seq<char>) -> Seq<Seq<char>>
    decreases s.len(),
{
    if s.len() == 0 {
        Seq::empty()
    } else if is_space(s[0]) {
        words_spec(s.skip(1))
    } else {
        proof {
            lemma_word_end(s);
        }
        seq![s.take(word_end(s) as int)] + words_spec(s.skip(word_end(s) as int))
    }
}

/// The words of a text.
pub fn words(t: &str) -> (r: Vec<String>)
    ensures
        r.deep_view() == words_spec(t@),
{
    let v = chars_of(t);
    let ghost s = t@;
    let mut out: Vec<String> = Vec::new();
    let mut i: usize = 0;
    assert(s.skip(0) =~= s);
    assert(out.deep_view() + words_spec(s) =~= words_spec(s));
    while i < v.len()
        invariant
            s == v@,
            i <= v.len(),
            out.deep_view() + words_spec(s.skip(i as int)) == words_spec(s),
        decreases v.len() - i,
    {
        if char_is_space(v[i]) {
            assert(s.skip(i as int).skip(1) =~= s.skip(i + 1));
            i = i + 1;
        } else {
            let start = i;
            let ghost rest = s.skip(start as int);
            let mut j: usize = i;
            while j < v.len() && !char_is_space(v[j])
                invariant
                    s == v@,
                    start <= j <= v.len(),
                    rest == s.skip(start as int),
                    word_end(rest) == (j - start) + word_end(s.skip(j as int)),
                decreases v.len() - j,
            {
                assert(s.skip(j as int).skip(1) =~= s.skip(j + 1));
                j = j + 1;
            }
            assert(word_end(s.skip(j as int)) == 0);
            let w = string_of(&v, start, j);
            let ghost before = out.deep_view();
            out.push(w);
            proof {
                assert(w@ =~= rest.take(j - start));
                assert(rest.skip(j - start) =~= s.skip(j as int));
                assert(out.deep_view() =~= before.push(w@));
                assert(before + (seq![w@] + words_spec(s.skip(j as int))) =~= out.deep_view()
                    + words_spec(s.skip(j as int)));
                lemma_word_end(rest);
            }
            i = j;
        }
    }
    assert(s.skip(i as int).len() == 0);
    assert(out.deep_view() + Seq::<Seq<char>>::empty() =~= out.deep_view());
    out
}

/// The pieces of a text between the separators; one more than there are separators.
pub open spec fn split_spec(s: Seq<char>, c: char) -> Seq<Seq<char>>
    decreases s.len(),
{
    if s.contains(c) {
        let i = s.index_of_first(c)->0;
        proof {
            s.index_of_first_ensures(c);
        }
        seq![s.take(i)] + split_spec(s.skip(i + 1), c)
    } else {
        seq![s]
    }
}

/// The pieces of a text between the separators.
pub fn split(t: &str, c: char) -> (r: Vec<String>)
    ensures
        r.deep_view() == split_spec(t@, c),
{
    let v = chars_of(t);
    let ghost s = t@;
    let mut out: Vec<String> = Vec::new();
    let mut i: usize = 0;
    assert(s.skip(0) =~= s);
    assert(out.deep_view() + split_spec(s, c) =~= split_spec(s, c));
    loop
        invariant_except_break
            s == v@,
            i <= v.len(),
            out.deep_view() + split_spec(s.skip(i as int), c) == split_spec(s, c),
        ensures
            out.deep_view() == split_spec(s, c),
        decreases v.len() - i,
    {
        let ghost rest = s.skip(i as int);
        let ghost before = out.deep_view();
        match find_char(&v, i, v.len(), c) {
            Some(j) => {
                proof {
                    rest.index_of_first_ensures(c);
                    assert(rest[j - i] == c);
                    let k = rest.index_of_first(c)->0;
                    assert(k == j - i) by {
                        assert(s[i + k] == c);
                        assert(forall|x: int| 0 <= x < j - i ==> rest[x] == s[i + x]);
                    }
                }
                let w = string_of(&v, i, j);
                out.push(w);
                proof {
                    assert(w@ =~= rest.take(j - i));
                    assert(rest.skip(j - i + 1) =~= s.skip(j + 1));
                    assert(out.deep_view() =~= before.push(w@));
                    assert(before + (seq![w@] + split_spec(s.skip(j + 1), c)) =~= out.deep_view()
                        + split_spec(s.skip(j + 1), c));
                }
                i = j + 1;
            },
            None => {
                let w = string_of(&v, i, v.len());
                out.push(w);
                proof {
                    assert(rest =~= v@.subrange(i as int, v@.len() as int));
                    rest.index_of_first_ensures(c);
                    assert(w@ =~= rest);
                    assert(out.deep_view() =~= before + seq![w@]);
                }
                break;
            },
        }
    }
    out
}

/// Whether `p` stands in `s` from position `i` on.
pub open spec fn stands_at(s: Seq<char>, p: Seq<char>, i: int) -> bool {
    0 <= i && i + p.len() <= s.len() && s.subrange(i, i + p.len()) == p
}

/// Whether `p` stands somewhere in `s`.
pub open spec fn contains_spec(s: Seq<char>, p: Seq<char>) -> bool {
    exists|i: int| #[trigger] stands_at(s, p, i)
}

/// Whether a text contains another.
pub fn contains_str(t: &str, p: &str) -> (r: bool)
    ensures
        r == contains_spec(t@, p@),
{
    let v = chars_of(t);
    let w = chars_of(p);
    contains_chars(&v, &w)
}

/// Whether some characters stand in others, side by side.
pub fn contains_chars(v: &Vec<char>, w: &Vec<char>) -> (r: bool)
    ensures
        r == contains_spec(v@, w@),
{
    find_chars(v, 0, w).is_some()
}

/// The first position from `from` on where some characters stand in others.
pub fn find_chars(v: &Vec<char>, from: usize, w: &Vec<char>) -> (r: Option<usize>)
    requires
        from <= v.len(),
    ensures
        match r {
            Some(i) => from <= i <= v.len() && stands_at(v@, w@, i as int) && forall|j: int|
                from <= j < i ==> !stands_at(v@, w@, j),
            None => forall|j: int| from <= j ==> !stands_at(v@, w@, j),
        },
{
    let n: usize = v.len();
    let m: usize = w.len();
    let mut i: usize = from;
    while i <= n && m <= n - i
        invariant
            n == v.len(),
            m == w.len(),
            from <= i <= n + 1,
            forall|j: int| from <= j < i ==> !stands_at(v@, w@, j),
        decreases n + 1 - i,
    {
        let mut k: usize = 0;
        while k < m && v[i + k] == w[k]
            invariant
                n == v.len(),
                m == w.len(),
                i + m <= n,
                k <= m,
                forall|x: int| 0 <= x < k ==> v@[i + x] == w@[x],
            decreases m - k,
        {
            k = k + 1;
        }
        if k == m {
            assert(v@.subrange(i as int, i + m) =~= w@);
            return Some(i);
        }
        assert(!stands_at(v@, w@, i as int)) by {
            if stands_at(v@, w@, i as int) {
                assert(v@.subrange(i as int, i + m)[k as int] == w@[k as int]);
            }
        }
        i = i + 1;
    }
    None
}

/// Whether a character is a control code.
pub open spec fn is_control(c: char) -> bool {
    (c as u32) < 0x20 || 0x7f <= (c as u32) < 0xa0
}

/// Whether a character is a control code.
pub fn char_is_control(c: char) -> (b: bool)
    ensures
        b == is_control(c),
{
    let n: u32 = c as u32;
    n < 0x20 || (0x7f <= n && n < 0xa0)
}

/// The whole of a text in ASCII upper case.
pub fn ascii_uppercase(t: &str) -> (r: String)
    ensures
        r@ == ascii_upper(t@),
{
    let v = chars_of(t);
    let r = to_ascii_upper(&v, 0, v.len());
    assert(v@.subrange(0, v@.len() as int) =~= v@);
    r
}

/// The first characters of a text, at most `n`.
pub open spec fn head_spec(s: Seq<char>, n: nat) -> Seq<char> {
    if s.len() <= n {
        s
    } else {
        s.take(n as int)
    }
}

/// The first characters of a text, at most `n`.
pub fn head(t: &str, n: usize) -> (r: String)
    ensures
        r@ == head_spec(t@, n as nat),
{
    let v = chars_of(t);
    let m: usize = if v.len() <= n {
        v.len()
    } else {
        n
    };
    let r = string_of(&v, 0, m);
    assert(r@ =~= head_spec(t@, n as nat));
    r
}

/// A number as decimal text.
pub open spec fn signed_decimal(n: i64) -> Seq<char> {
    if n < 0 {
        "-"@ + decimal_spec((-n) as nat)
    } else {
        decimal_spec(n as nat)
    }
}

/// A number as decimal text.
pub fn to_signed_decimal(n: i64) -> (r: String)
    ensures
        r@ == signed_decimal(n),
{
    if n < 0 {
        let m: i128 = -(n as i128);
        Line::new("-").add(decimal(m as u128).as_str()).done()
    } else {
        decimal(n as u128)
    }
}

/// Whether a text has no character.
pub fn is_empty(t: &str) -> (b: bool)
    ensures
        b == (t@.len() == 0),
{
    let v = chars_of(t);
    v.len() == 0
}

} // verus!
