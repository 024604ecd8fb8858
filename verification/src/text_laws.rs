//! What holds of the operations on texts and lines.
use crate::containers;
use crate::irc;
use crate::irc::MessageView;
use crate::text;
use vstd::prelude::*;

verus! {

broadcast use {vstd::string::group_string_axioms, containers::lemma_map_put_get};

// ── Numbers ─────────────────────────────────────────────────────────

proof fn lemma_digits(n: nat)
    ensures
        text::decimal_spec(n).len() > 0,
        text::all_digits(text::decimal_spec(n)),
        text::digits_value(text::decimal_spec(n)) == n,
    decreases n,
{
    let s = text::decimal_spec(n);
    if n < 10 {
        assert(s[0] as nat == '0' as nat + n);
        reveal_with_fuel(text::digits_value, 2);
    } else {
        lemma_digits(n / 10);
        let t = text::decimal_spec(n / 10);
        assert(s.drop_last() =~= t);
        assert(s.last() as nat == '0' as nat + n % 10);
        assert forall|i: int| 0 <= i < s.len() implies text::is_digit(#[trigger] s[i]) by {
            if i < t.len() {
                assert(s[i] == t[i]);
            }
        }
        assert((n / 10) * 10 + n % 10 == n);
    }
}

/// A number that was written down is read as that number, if it is not too large, and so it is with a
/// plus in front; anything that holds a character which is no digit is no number.
pub proof fn law_numbers_read_back(n: nat, max: nat, s: Seq<char>, i: int)
    ensures
        n <= max ==> text::number_spec(text::decimal_spec(n), max) == Some(n),
        n <= max ==> text::number_spec("+"@ + text::decimal_spec(n), max) == Some(n),
        n > max ==> text::number_spec(text::decimal_spec(n), max) is None,
        1 <= i < s.len() && !('0' <= s[i] <= '9') ==> text::number_spec(s, max) is None,
        s.len() == 0 ==> text::number_spec(s, max) is None,
{
    lemma_digits(n);
    let d = text::decimal_spec(n);
    assert(text::is_digit(d[0]));
    assert(text::unsigned_part(d) == d);
    reveal_strlit("+");
    assert(("+"@ + d).skip(1) =~= d);
    if 1 <= i < s.len() && !('0' <= s[i] <= '9') {
        let u = text::unsigned_part(s);
        if text::starts_with(s, '+') {
            assert(u[i - 1] == s[i]);
            assert(!text::is_digit(u[i - 1]));
        } else {
            assert(!text::is_digit(u[i]));
        }
    }
}

/// A number below zero is written as its amount behind a minus.
pub proof fn law_signs_are_written(n: i64)
    requires
        n > i64::MIN,
    ensures
        n >= 0 ==> text::number_spec(text::signed_decimal(n), i64::MAX as nat) == Some(n as nat),
        n < 0 ==> (text::strip_prefix_spec(text::signed_decimal(n), "-"@) matches Some(d) && text::number_spec(d, i64::MAX as nat)
            == Some((-n) as nat)),
{
    let s = text::signed_decimal(n);
    if n < 0 {
        let d = text::decimal_spec((-n) as nat);
        law_numbers_read_back((-n) as nat, i64::MAX as nat, s, 0);
        assert(s.subrange(0, "-"@.len() as int) =~= "-"@);
        assert(s.subrange("-"@.len() as int, s.len() as int) =~= d);
    } else {
        law_numbers_read_back(n as nat, i64::MAX as nat, s, 0);
    }
}

// ── Parts of a text ─────────────────────────────────────────────────

/// A text begins with what was put in front of it, and without that it is the text.
pub proof fn law_prefixes_are_taken_off(p: Seq<char>, s: Seq<char>, t: Seq<char>)
    ensures
        text::has_prefix(p + s, p),
        text::strip_prefix_spec(p + s, p) == Some(s),
        text::strip_prefix_spec(t, p) is Some <==> text::has_prefix(t, p),
        text::strip_prefix_spec(t, p) matches Some(r) ==> t == p + r,
{
    assert((p + s).subrange(0, p.len() as int) =~= p);
    assert((p + s).subrange(p.len() as int, (p + s).len() as int) =~= s);
    if text::has_prefix(t, p) {
        assert(t =~= p + t.subrange(p.len() as int, t.len() as int));
    }
}

/// A text is parted at the first of a sign; one without the sign is not parted.
pub proof fn law_texts_are_parted_at_the_first_sign(a: Seq<char>, c: char, b: Seq<char>)
    requires
        !a.contains(c),
    ensures
        text::split_once_spec(a + seq![c] + b, c) == Some((a, b)),
        text::split_once_spec(a, c) is None,
{
    let s = a + seq![c] + b;
    assert(s[a.len() as int] == c);
    s.index_of_first_ensures(c);
    a.index_of_first_ensures(c);
    let i = s.index_of_first(c)->0;
    if i < a.len() {
        assert(a[i] == s[i]);
        assert(a.contains(c));
    }
    assert(s.subrange(0, a.len() as int) =~= a);
    assert(s.subrange(a.len() as int + 1, s.len() as int) =~= b);
}

proof fn lemma_join_front(a: Seq<char>, v: Seq<Seq<char>>, sep: Seq<char>)
    requires
        v.len() > 0,
    ensures
        text::join_spec(seq![a] + v, sep) == a + sep + text::join_spec(v, sep),
    decreases v.len(),
{
    let w = seq![a] + v;
    if v.len() == 1 {
        assert(w.drop_last() =~= seq![a]);
        assert(text::join_spec(seq![a], sep) == a);
        assert(text::join_spec(v, sep) == v[0]);
        assert(w.last() == v[0]);
    } else {
        lemma_join_front(a, v.drop_last(), sep);
        assert(w.drop_last() =~= seq![a] + v.drop_last());
        assert(w.last() == v.last());
        assert(a + sep + text::join_spec(v.drop_last(), sep) + sep + v.last() =~= a + sep + (text::join_spec(v.drop_last(), sep) + sep
            + v.last()));
    }
}

/// The parts of a text, put together again with the sign between them, are the text, and no part
/// holds the sign.
pub proof fn law_parts_join_to_the_text(s: Seq<char>, c: char, i: int)
    ensures
        text::split_spec(s, c).len() > 0,
        text::join_spec(text::split_spec(s, c), seq![c]) == s,
        0 <= i < text::split_spec(s, c).len() ==> !text::split_spec(s, c)[i].contains(c),
    decreases s.len(),
{
    if s.contains(c) {
        s.index_of_first_ensures(c);
        let k = s.index_of_first(c)->0;
        let rest = s.skip(k + 1);
        law_parts_join_to_the_text(rest, c, i - 1);
        lemma_join_front(s.take(k), text::split_spec(rest, c), seq![c]);
        assert(s.take(k) + seq![c] + rest =~= s);
        if i == 0 && s.take(k).contains(c) {
            let j = choose|j: int| 0 <= j < s.take(k).len() && s.take(k)[j] == c;
            assert(s[j] == c);
        }
    }
}

/// A text in which another stands is said to hold it, wherever it stands.
pub proof fn law_what_stands_in_a_text_is_found(a: Seq<char>, p: Seq<char>, b: Seq<char>, s: Seq<char>)
    ensures
        text::contains_spec(a + p + b, p),
        text::contains_spec(s, p) ==> p.len() <= s.len(),
{
    let t = a + p + b;
    assert(t.subrange(a.len() as int, a.len() as int + p.len()) =~= p);
    assert(text::stands_at(t, p, a.len() as int));
}

/// Trimming takes the spaces off both ends and nothing else.
pub proof fn law_trimming_takes_off_spaces(a: Seq<char>, s: Seq<char>, b: Seq<char>)
    requires
        forall|i: int| 0 <= i < a.len() ==> text::is_space(#[trigger] a[i]),
        forall|i: int| 0 <= i < b.len() ==> text::is_space(#[trigger] b[i]),
        s.len() > 0,
        !text::is_space(s[0]),
        !text::is_space(s.last()),
    ensures
        text::trim_spec(a + s + b) == s,
{
    lemma_trim_start(a, s + b);
    assert(a + s + b =~= a + (s + b));
    lemma_trim_end(s, b);
}

proof fn lemma_trim_start(a: Seq<char>, s: Seq<char>)
    requires
        forall|i: int| 0 <= i < a.len() ==> text::is_space(#[trigger] a[i]),
        s.len() > 0,
        !text::is_space(s[0]),
    ensures
        text::trim_start_spec(a + s) == s,
    decreases a.len(),
{
    if a.len() == 0 {
        assert(a + s =~= s);
    } else {
        assert((a + s)[0] == a[0]);
        assert((a + s).skip(1) =~= a.skip(1) + s);
        lemma_trim_start(a.skip(1), s);
    }
}

proof fn lemma_trim_end(s: Seq<char>, b: Seq<char>)
    requires
        forall|i: int| 0 <= i < b.len() ==> text::is_space(#[trigger] b[i]),
        s.len() > 0,
        !text::is_space(s.last()),
    ensures
        text::trim_end_spec(s + b) == s,
    decreases b.len(),
{
    if b.len() == 0 {
        assert(s + b =~= s);
    } else {
        assert((s + b).last() == b.last());
        assert((s + b).drop_last() =~= s + b.drop_last());
        lemma_trim_end(s, b.drop_last());
    }
}

/// The words of a text stand between spaces: a word, a space and more words are the word and those.
pub proof fn law_words_stand_between_spaces(w: Seq<char>, space: char, rest: Seq<char>)
    requires
        w.len() > 0,
        forall|i: int| 0 <= i < w.len() ==> !text::is_space(#[trigger] w[i]),
        text::is_space(space),
    ensures
        text::words_spec(w + seq![space] + rest) == seq![w] + text::words_spec(rest),
        text::words_spec(seq![space] + rest) == text::words_spec(rest),
        text::words_spec(w) == seq![w],
{
    let s = w + seq![space] + rest;
    lemma_word_ends(w, seq![space] + rest);
    assert(s =~= w + (seq![space] + rest));
    assert(s[0] == w[0]);
    assert(s.take(w.len() as int) =~= w);
    assert(s.skip(w.len() as int) =~= seq![space] + rest);
    let more = seq![space] + rest;
    assert(more.skip(1) =~= rest);
    assert(more[0] == space);
    assert(text::words_spec(more) == text::words_spec(rest));
    assert(text::words_spec(s) == seq![w] + text::words_spec(more));
    lemma_word_ends(w, Seq::empty());
    assert(w + Seq::empty() =~= w);
    assert(w.take(w.len() as int) =~= w);
    assert(w.skip(w.len() as int) =~= Seq::empty());
    assert(text::words_spec(Seq::empty()).len() == 0);
    assert(text::words_spec(w) == seq![w] + text::words_spec(w.skip(w.len() as int)));
    assert(text::words_spec(w.skip(w.len() as int)) =~= Seq::empty());
    assert(seq![w] + Seq::<Seq<char>>::empty() =~= seq![w]);
}

proof fn lemma_word_ends(w: Seq<char>, rest: Seq<char>)
    requires
        forall|i: int| 0 <= i < w.len() ==> !text::is_space(#[trigger] w[i]),
        rest.len() > 0 ==> text::is_space(rest[0]),
    ensures
        text::word_end(w + rest) == w.len(),
    decreases w.len(),
{
    if w.len() == 0 {
        assert(w + rest =~= rest);
    } else {
        assert((w + rest)[0] == w[0]);
        assert((w + rest).skip(1) =~= w.skip(1) + rest);
        lemma_word_ends(w.skip(1), rest);
    }
}

/// A line, its end and more lines are that line and those; a carriage return before the end does not
/// count.
pub proof fn law_lines_end_with_a_line_feed(l: Seq<char>, rest: Seq<char>)
    requires
        !l.contains('\n'),
        l.len() > 0 ==> l.last() != '\r',
    ensures
        text::lines_spec(l + seq!['\n'] + rest) == seq![l] + text::lines_spec(rest),
        text::lines_spec(l + seq!['\r', '\n'] + rest) == seq![l] + text::lines_spec(rest),
        l.len() > 0 ==> text::lines_spec(l) == seq![l],
{
    law_texts_are_parted_at_the_first_sign(l, '\n', rest);
    let s = l + seq!['\n'] + rest;
    assert(s[l.len() as int] == '\n');
    s.index_of_first_ensures('\n');
    let m = l.push('\r');
    assert(!m.contains('\n')) by {
        if m.contains('\n') {
            let i = choose|i: int| 0 <= i < m.len() && m[i] == '\n';
            assert(i < l.len());
            assert(l[i] == '\n');
        }
    }
    let t = l + seq!['\r', '\n'] + rest;
    assert(t =~= m + seq!['\n'] + rest);
    law_texts_are_parted_at_the_first_sign(m, '\n', rest);
    assert(t[m.len() as int] == '\n');
    t.index_of_first_ensures('\n');
    assert(m.drop_last() =~= l);
    l.index_of_first_ensures('\n');
}

/// The sign at the end of a text is taken off as often as it stands there.
pub proof fn law_signs_at_the_end_are_taken_off(s: Seq<char>, c: char, n: nat)
    requires
        s.len() > 0 ==> s.last() != c,
    ensures
        text::trim_end_char_spec(s + Seq::new(n, |i: int| c), c) == s,
    decreases n,
{
    let t = s + Seq::new(n, |i: int| c);
    if n == 0 {
        assert(t =~= s);
    } else {
        assert(t.drop_last() =~= s + Seq::new((n - 1) as nat, |i: int| c));
        law_signs_at_the_end_are_taken_off(s, c, (n - 1) as nat);
    }
}

/// The head of a text is the text up to a number of characters.
pub proof fn law_heads_are_short(s: Seq<char>, n: nat)
    ensures
        text::head_spec(s, n).len() == (if s.len() < n {
            s.len()
        } else {
            n
        }),
        text::head_spec(s, n).is_prefix_of(s),
{
}

/// A text is cut after as many characters as its bytes allow: what is left fits, and one character
/// more would not.
pub proof fn law_texts_are_cut_at_a_character(s: Seq<char>, limit: nat)
    ensures
        ({
            let r = text::byte_prefix(s, limit);
            &&& r.len() <= s.len() && r == s.take(r.len() as int)
            &&& r.len() > 0 ==> vstd::utf8::encode_utf8(r).len() <= limit
            &&& r.len() < s.len() ==> vstd::utf8::encode_utf8(s.take(r.len() as int + 1)).len() > limit
            &&& vstd::utf8::encode_utf8(s).len() <= limit ==> r == s
        }),
    decreases s.len(),
{
    if s.len() > 0 && vstd::utf8::encode_utf8(s).len() > limit {
        let t = s.drop_last();
        law_texts_are_cut_at_a_character(t, limit);
        let r = text::byte_prefix(t, limit);
        assert(t.take(r.len() as int) =~= s.take(r.len() as int));
        if r.len() < t.len() {
            assert(t.take(r.len() as int + 1) =~= s.take(r.len() as int + 1));
        } else {
            assert(s.take(r.len() as int + 1) =~= s);
        }
    } else {
        assert(s.take(s.len() as int) =~= s);
    }
}

/// The case of ASCII letters is changed letter by letter, and nothing else is.
pub proof fn law_ascii_case_is_changed_by_letter(s: Seq<char>, i: int)
    requires
        0 <= i < s.len(),
    ensures
        text::ascii_lower(s).len() == s.len(),
        text::ascii_upper(s).len() == s.len(),
        'A' <= s[i] <= 'Z' ==> text::ascii_lower(s)[i] as int == s[i] as int + 32,
        !('A' <= s[i] <= 'Z') ==> text::ascii_lower(s)[i] == s[i],
        'a' <= s[i] <= 'z' ==> text::ascii_upper(s)[i] as int == s[i] as int - 32,
        !('a' <= s[i] <= 'z') ==> text::ascii_upper(s)[i] == s[i],
        text::all_ascii(s) ==> text::lowercase(s) == text::ascii_lower(s) && text::uppercase(s) == text::ascii_upper(s),
{
}

/// Texts are joined with the separator between each two.
pub proof fn law_joining_puts_separators_between(v: Seq<Seq<char>>, x: Seq<char>, sep: Seq<char>)
    ensures
        v.len() > 0 ==> text::join_spec(v.push(x), sep) == text::join_spec(v, sep) + sep + x,
        v.len() == 0 ==> text::join_spec(v.push(x), sep) == x,
        text::join_spec(Seq::empty(), sep).len() == 0,
{
    assert(v.push(x).drop_last() =~= v);
}

// ── Lines on the wire ───────────────────────────────────────────────

/// The value of a tag is escaped character by character: five of them by a backslash and a letter or
/// sign, the others not at all.
pub proof fn law_tags_are_escaped_by_character(s: Seq<char>, c: char)
    ensures
        irc::escape_spec(s.push(c)) == irc::escape_spec(s) + (if c == ';' {
            seq!['\\', ':']
        } else if c == ' ' {
            seq!['\\', 's']
        } else if c == '\\' {
            seq!['\\', '\\']
        } else if c == '\r' {
            seq!['\\', 'r']
        } else if c == '\n' {
            seq!['\\', 'n']
        } else {
            seq![c]
        }),
        irc::escape_spec(Seq::empty()).len() == 0,
{
    assert(s.push(c).drop_last() =~= s);
}

/// A line is its tags behind an at sign, its source behind a colon, the command, and the parameters,
/// each behind a space, and ends with the two characters of a line end.
pub proof fn law_lines_are_written_in_order(
    tags: Seq<(Seq<char>, Seq<char>)>,
    source: Seq<char>,
    command: Seq<char>,
    params: Seq<Seq<char>>,
    p: Seq<char>,
    last: Seq<char>,
)
    ensures
        irc::wire(MessageView { tags: Seq::empty(), prefix: None, command, params: Seq::empty() }) == command + seq!['\r', '\n'],
        irc::wire(MessageView { tags: Seq::empty(), prefix: Some(source), command, params }) == seq![':'] + source + seq![' ']
            + irc::wire(MessageView { tags: Seq::empty(), prefix: None, command, params }),
        tags.len() > 0 ==> irc::wire(MessageView { tags, prefix: Some(source), command, params }) == seq!['@'] + irc::tags_text(tags)
            + seq![' '] + irc::wire(MessageView { tags: Seq::empty(), prefix: Some(source), command, params }),
        irc::params_text(seq![p] + params.push(last)) == seq![' '] + p + irc::params_text(params.push(last)),
        last.contains(' ') || last.len() == 0 || last[0] == ':' ==> irc::params_text(seq![last]) == seq![' ', ':'] + last,
        !(last.contains(' ') || last.len() == 0 || last[0] == ':') ==> irc::params_text(seq![last]) == seq![' '] + last,
{
    let bare = MessageView { tags: Seq::empty(), prefix: None, command, params };
    let sent = MessageView { tags: Seq::empty(), prefix: Some(source), command, params };
    assert(irc::wire(sent) =~= seq![':'] + source + seq![' '] + irc::wire(bare));
    let tagged = MessageView { tags, prefix: Some(source), command, params };
    assert(tags.len() > 0 ==> irc::wire(tagged) =~= seq!['@'] + irc::tags_text(tags) + seq![' '] + irc::wire(sent));
    let all = seq![p] + params.push(last);
    assert(all.skip(1) =~= params.push(last));
    let plain = MessageView { tags: Seq::empty(), prefix: None, command, params: Seq::empty() };
    assert(irc::wire(plain) =~= command + seq!['\r', '\n']);
}

/// Tags are written one by one between semicolons, each as its name and, where it has a value, an
/// equals sign and the value, escaped.
pub proof fn law_tags_are_written_in_order(k: Seq<char>, v: Seq<char>, tags: Seq<(Seq<char>, Seq<char>)>)
    ensures
        v.len() > 0 ==> irc::tags_text(seq![(k, v)]) == k + seq!['='] + irc::escape_spec(v),
        v.len() == 0 ==> irc::tags_text(seq![(k, v)]) == k,
        tags.len() > 0 ==> irc::tags_text(seq![(k, v)] + tags) == irc::tags_text(seq![(k, v)]) + seq![';'] + irc::tags_text(tags),
{
    if tags.len() > 0 {
        assert((seq![(k, v)] + tags).skip(1) =~= tags);
    }
}

} // verus!
