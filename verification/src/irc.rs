//! IRC message parsing and formatting.
//!
//! A minimal subset of the RFC 1459 / RFC 2812 message format, with IRCv3 message tags.
use crate::containers;
use crate::containers::{Dup, StrMap};
use crate::text;
use crate::text::{chars_of, find_char, string_of, to_ascii_upper};
use vstd::prelude::*;

verus! {

broadcast use vstd::string::group_string_axioms;

/// The mathematical content of a [`Message`].
pub struct MessageView {
    pub tags: Seq<(Seq<char>, Seq<char>)>,
    pub prefix: Option<Seq<char>>,
    pub command: Seq<char>,
    pub params: Seq<Seq<char>>,
}

/// A parsed IRC message with optional IRCv3 tags.
#[derive(Debug)]
pub struct Message {
    /// IRCv3 message tags (key=value pairs).
    pub tags: StrMap<String>,
    /// Optional message prefix (server or user origin).
    pub prefix: Option<String>,
    /// The IRC command (e.g. "NICK", "PRIVMSG", "001").
    pub command: String,
    /// Command parameters.
    pub params: Vec<String>,
}

impl View for Message {
    type V = MessageView;

    open spec fn view(&self) -> MessageView {
        MessageView {
            tags: self.tags@,
            prefix: self.prefix.deep_view(),
            command: self.command@,
            params: self.params.deep_view(),
        }
    }
}

impl DeepView for Message {
    type V = MessageView;

    open spec fn deep_view(&self) -> MessageView {
        self.view()
    }
}

// ── Tag values ──────────────────────────────────────────────────────

/// What one character of a tag value is written as.
pub open spec fn escape_char(c: char) -> Seq<char> {
    if c == ';' {
        seq!['\\', ':']
    } else if c == ' ' {
        seq!['\\', 's']
    } else if c == '\\' {
        seq!['\\', '\\']
    } else if c == '\r' {
        seq!['\\', 'r']
    } else if c == '\n' {
        seq!['\\', 'n']
    } else {
        seq![c]
    }
}

/// A tag value as it is written on the wire.
pub open spec fn escape_spec(s: Seq<char>) -> Seq<char>
    decreases s.len(),
{
    if s.len() == 0 {
        Seq::empty()
    } else {
        escape_spec(s.drop_last()) + escape_char(s.last())
    }
}

/// What the characters `\c` of a written tag value stand for.
pub open spec fn unescape_pair(c: char) -> Seq<char> {
    if c == ':' {
        seq![';']
    } else if c == 's' {
        seq![' ']
    } else if c == '\\' {
        seq!['\\']
    } else if c == 'r' {
        seq!['\r']
    } else if c == 'n' {
        seq!['\n']
    } else {
        seq!['\\', c]
    }
}

/// The tag value that a written form stands for: the known escapes are replaced, an unknown one
/// and a lone backslash at the end stay as they are.
pub open spec fn unescape_spec(s: Seq<char>) -> Seq<char>
    decreases s.len(),
{
    if s.len() == 0 {
        Seq::empty()
    } else if s[0] != '\\' {
        seq![s[0]] + unescape_spec(s.skip(1))
    } else if s.len() == 1 {
        seq!['\\']
    } else {
        unescape_pair(s[1]) + unescape_spec(s.skip(2))
    }
}

/// Unescape IRCv3 tag values.
pub fn unescape_tag_value(s: &str) -> (r: String)
    ensures
        r@ == unescape_spec(s@),
{
    let v = chars_of(s);
    let mut result = String::new();
    let mut i: usize = 0;
    assert(v@.skip(0) =~= v@);
    while i < v.len()
        invariant
            i <= v@.len(),
            unescape_spec(v@) == result@ + unescape_spec(v@.skip(i as int)),
        decreases v.len() - i,
    {
        let ghost before = result@;
        let ghost rest = v@.skip(i as int);
        assert(rest[0] == v@[i as int]);
        assert(rest.skip(1) =~= v@.skip(i + 1));
        let c = v[i];
        if c == '\\' {
            if i + 1 < v.len() {
                assert(rest[1] == v@[i + 1]);
                assert(rest.skip(2) =~= v@.skip(i + 2));
                let d = v[i + 1];
                if d == ':' {
                    result.push(';');
                } else if d == 's' {
                    result.push(' ');
                } else if d == '\\' {
                    result.push('\\');
                } else if d == 'r' {
                    result.push('\r');
                } else if d == 'n' {
                    result.push('\n');
                } else {
                    result.push('\\');
                    result.push(d);
                }
                assert(result@ =~= before + unescape_pair(d));
                i = i + 2;
            } else {
                result.push('\\');
                assert(unescape_spec(rest) == seq!['\\']);
                assert(v@.skip(i + 1).len() == 0);
                assert(unescape_spec(v@.skip(i + 1)) == Seq::<char>::empty());
                assert(result@ =~= before + seq!['\\']);
                i = i + 1;
            }
        } else {
            result.push(c);
            assert(result@ =~= before + seq![c]);
            i = i + 1;
        }
        assert(unescape_spec(v@) =~= result@ + unescape_spec(v@.skip(i as int)));
    }
    assert(v@.skip(i as int).len() == 0);
    assert(result@ + unescape_spec(v@.skip(i as int)) =~= result@);
    assert(v@ == s@);
    result
}

/// Escape a value for IRCv3 tag encoding.
pub fn escape_tag_value(s: &str) -> (r: String)
    ensures
        r@ == escape_spec(s@),
{
    let v = chars_of(s);
    let mut result = String::new();
    let mut i: usize = 0;
    while i < v.len()
        invariant
            i <= v@.len(),
            result@ == escape_spec(v@.take(i as int)),
        decreases v.len() - i,
    {
        let ghost before = result@;
        let c = v[i];
        if c == ';' {
            result.push('\\');
            result.push(':');
        } else if c == ' ' {
            result.push('\\');
            result.push('s');
        } else if c == '\\' {
            result.push('\\');
            result.push('\\');
        } else if c == '\r' {
            result.push('\\');
            result.push('r');
        } else if c == '\n' {
            result.push('\\');
            result.push('n');
        } else {
            result.push(c);
        }
        assert(result@ =~= before + escape_char(c));
        assert(v@.take(i + 1).drop_last() =~= v@.take(i as int));
        i = i + 1;
    }
    assert(v@.take(i as int) =~= v@);
    result
}

/// Reading back an escaped front character.
proof fn lemma_unescape_front(c: char, rest: Seq<char>)
    ensures
        unescape_spec(escape_char(c) + rest) == seq![c] + unescape_spec(rest),
{
    let t = escape_char(c) + rest;
    if c == ';' || c == ' ' || c == '\\' || c == '\r' || c == '\n' {
        assert(t[0] == '\\');
        assert(t.skip(2) =~= rest);
        assert(unescape_pair(t[1]) =~= seq![c]);
    } else {
        assert(t[0] == c);
        assert(t.skip(1) =~= rest);
    }
}

/// Escaping distributes over concatenation.
proof fn lemma_escape_add(a: Seq<char>, b: Seq<char>)
    ensures
        escape_spec(a + b) == escape_spec(a) + escape_spec(b),
    decreases b.len(),
{
    if b.len() == 0 {
        assert(a + b =~= a);
        assert(escape_spec(a) + escape_spec(b) =~= escape_spec(a));
    } else {
        lemma_escape_add(a, b.drop_last());
        assert((a + b).drop_last() =~= a + b.drop_last());
        assert(escape_spec(a + b) =~= escape_spec(a) + (escape_spec(b.drop_last()) + escape_char(
            b.last(),
        )));
    }
}

/// What is escaped reads back as it was: `unescape(escape(s)) == s` for every `s`.
pub proof fn law_unescape_escape(s: Seq<char>)
    ensures
        unescape_spec(escape_spec(s)) == s,
    decreases s.len(),
{
    if s.len() > 0 {
        let tail = s.skip(1);
        law_unescape_escape(tail);
        assert(s =~= seq![s[0]] + tail);
        lemma_escape_add(seq![s[0]], tail);
        assert(escape_spec(seq![s[0]]) =~= escape_char(s[0])) by {
            let one = seq![s[0]];
            assert(one.drop_last() =~= Seq::<char>::empty());
            assert(escape_spec(one.drop_last()) =~= Seq::<char>::empty());
            assert(one.last() == s[0]);
        }
        lemma_unescape_front(s[0], escape_spec(tail));
    }
}

/// An escaped value holds none of the characters that end a tag, the tags or the line.
pub proof fn law_escape_is_safe(s: Seq<char>)
    ensures
        !escape_spec(s).contains(';'),
        !escape_spec(s).contains(' '),
        !escape_spec(s).contains('\r'),
        !escape_spec(s).contains('\n'),
    decreases s.len(),
{
    if s.len() > 0 {
        law_escape_is_safe(s.drop_last());
        let a = escape_spec(s.drop_last());
        let b = escape_char(s.last());
        assert forall|i: int| 0 <= i < (a + b).len() implies {
            let c = #[trigger] (a + b)[i];
            c != ';' && c != ' ' && c != '\r' && c != '\n'
        } by {
            if i < a.len() {
                assert(a.contains(a[i]));
            } else {
                assert((a + b)[i] == b[i - a.len()]);
            }
        }
    }
}

// ── Parsing ─────────────────────────────────────────────────────────

/// `tags` with one `key=value` or `key` piece taken in; an empty piece says nothing.
pub open spec fn add_tag(
    tags: Seq<(Seq<char>, Seq<char>)>,
    pair: Seq<char>,
) -> Seq<(Seq<char>, Seq<char>)> {
    if pair.len() == 0 {
        tags
    } else {
        match pair.index_of_first('=') {
            Some(e) => containers::map_put(
                tags,
                pair.subrange(0, e),
                unescape_spec(pair.subrange(e + 1, pair.len() as int)),
            ),
            None => containers::map_put(tags, pair, Seq::empty()),
        }
    }
}

/// `tags` with the pieces of `s`, separated by `;`, taken in from left to right.
pub open spec fn add_tags(
    tags: Seq<(Seq<char>, Seq<char>)>,
    s: Seq<char>,
) -> Seq<(Seq<char>, Seq<char>)>
    decreases s.len(),
{
    match s.index_of_first(';') {
        Some(i) => if 0 <= i < s.len() {
            add_tags(add_tag(tags, s.subrange(0, i)), s.subrange(i + 1, s.len() as int))
        } else {
            tags
        },
        None => add_tag(tags, s),
    }
}

/// The tags that a tag string stands for.
pub open spec fn parse_tags_spec(s: Seq<char>) -> Seq<(Seq<char>, Seq<char>)> {
    add_tags(Seq::empty(), s)
}

/// The parameters that the rest of a line after the command stands for: one per word, and all of
/// what follows a word's leading `:` as the last.
pub open spec fn params_spec(s: Seq<char>) -> Seq<Seq<char>>
    decreases s.len(),
{
    if s.len() == 0 {
        Seq::empty()
    } else if s[0] == ':' {
        seq![s.subrange(1, s.len() as int)]
    } else {
        match s.index_of_first(' ') {
            Some(i) => if 0 <= i < s.len() {
                seq![s.subrange(0, i)] + params_spec(s.subrange(i + 1, s.len() as int))
            } else {
                Seq::empty()
            },
            None => seq![s],
        }
    }
}

/// The command and parameters of a line without tags and prefix.
pub open spec fn command_spec(s: Seq<char>) -> (Seq<char>, Seq<Seq<char>>) {
    match s.index_of_first(' ') {
        Some(i) => (
            text::ascii_upper(s.subrange(0, i)),
            params_spec(s.subrange(i + 1, s.len() as int)),
        ),
        None => (text::ascii_upper(s), Seq::empty()),
    }
}

/// A line without the carriage returns and newlines at its end.
pub open spec fn trim_line_end(s: Seq<char>) -> Seq<char>
    decreases s.len(),
{
    if s.len() > 0 && (s.last() == '\r' || s.last() == '\n') {
        trim_line_end(s.drop_last())
    } else {
        s
    }
}

/// The word that follows `mark` at the front of `s`, and what comes after the space that ends it;
/// nothing when `s` begins otherwise, and an error when no space ends the word.
pub open spec fn marked_word(s: Seq<char>, mark: char) -> Option<(Option<Seq<char>>, Seq<char>)> {
    if text::starts_with(s, mark) {
        match s.index_of_first(' ') {
            Some(i) => Some((Some(s.subrange(1, i)), s.subrange(i + 1, s.len() as int))),
            None => None,
        }
    } else {
        Some((None, s))
    }
}

/// The message that a line stands for: optional `@tags`, optional `:prefix`, command, parameters.
/// There is none on an empty line and where tags or a prefix are not followed by anything.
pub open spec fn parse_spec(line: Seq<char>) -> Option<MessageView> {
    let s = trim_line_end(line);
    if s.len() == 0 {
        None
    } else {
        match marked_word(s, '@') {
            None => None,
            Some((tag_str, s1)) => match marked_word(s1, ':') {
                None => None,
                Some((prefix, s2)) => Some(
                    MessageView {
                        tags: match tag_str {
                            Some(t) => parse_tags_spec(t),
                            None => Seq::empty(),
                        },
                        prefix,
                        command: command_spec(s2).0,
                        params: command_spec(s2).1,
                    },
                ),
            },
        }
    }
}

/// Takes the tag piece `v[from..to]` into `tags`.
fn parse_tag(v: &Vec<char>, from: usize, to: usize, tags: &mut StrMap<String>)
    requires
        from <= to <= v@.len(),
    ensures
        final(tags)@ == add_tag(old(tags)@, v@.subrange(from as int, to as int)),
        old(tags).wf() ==> final(tags).wf(),
{
    let ghost pair = v@.subrange(from as int, to as int);
    if from < to {
        match find_char(v, from, to, '=') {
            Some(e) => {
                let key = string_of(v, from, e);
                let raw = string_of(v, e + 1, to);
                assert(key@ =~= pair.subrange(0, e - from));
                assert(raw@ =~= pair.subrange(e - from + 1, pair.len() as int));
                tags.insert(key, unescape_tag_value(raw.as_str()));
            },
            None => {
                tags.insert(string_of(v, from, to), String::new());
            },
        }
    }
}

/// Parse the IRCv3 tag string `v[from..to]`: `key=value;key2=value2`.
fn parse_tags_at(v: &Vec<char>, from: usize, to: usize) -> (tags: StrMap<String>)
    requires
        from <= to <= v@.len(),
    ensures
        tags@ == parse_tags_spec(v@.subrange(from as int, to as int)),
        tags.wf(),
{
    let mut tags: StrMap<String> = StrMap::new();
    let mut pos: usize = from;
    let ghost goal = parse_tags_spec(v@.subrange(from as int, to as int));
    loop
        invariant_except_break
            goal == add_tags(tags@, v@.subrange(pos as int, to as int)),
        invariant
            from <= pos <= to <= v@.len(),
            tags.wf(),
        ensures
            tags@ == goal,
            tags.wf(),
        decreases to - pos,
    {
        let ghost rest = v@.subrange(pos as int, to as int);
        match find_char(v, pos, to, ';') {
            Some(i) => {
                assert(v@.subrange(pos as int, i as int) =~= rest.subrange(0, i - pos));
                assert(v@.subrange(i + 1, to as int) =~= rest.subrange(
                    i - pos + 1,
                    rest.len() as int,
                ));
                parse_tag(v, pos, i, &mut tags);
                pos = i + 1;
            },
            None => {
                parse_tag(v, pos, to, &mut tags);
                break;
            },
        }
    }
    tags
}

/// Parse IRCv3 tag string: `key=value;key2=value2`
pub fn parse_tags(tag_str: &str) -> (tags: StrMap<String>)
    ensures
        tags@ == parse_tags_spec(tag_str@),
        tags.wf(),
{
    let v = chars_of(tag_str);
    assert(v@.subrange(0, v@.len() as int) =~= tag_str@);
    parse_tags_at(&v, 0, v.len())
}

/// The parameters in `v[from..to]`.
fn parse_params(v: &Vec<char>, from: usize, to: usize) -> (params: Vec<String>)
    requires
        from <= to <= v@.len(),
    ensures
        params.deep_view() == params_spec(v@.subrange(from as int, to as int)),
{
    let mut params: Vec<String> = Vec::new();
    let mut pos: usize = from;
    let ghost goal = params_spec(v@.subrange(from as int, to as int));
    assert(params.deep_view() + goal =~= goal);
    while pos < to
        invariant_except_break
            goal == params.deep_view() + params_spec(v@.subrange(pos as int, to as int)),
        invariant
            from <= pos <= to <= v@.len(),
        ensures
            params.deep_view() == goal,
        decreases to - pos,
    {
        let ghost rest = v@.subrange(pos as int, to as int);
        let ghost before = params.deep_view();
        assert(rest[0] == v@[pos as int]);
        if v[pos] == ':' {
            params.push(string_of(v, pos + 1, to));
            assert(v@.subrange(pos + 1, to as int) =~= rest.subrange(1, rest.len() as int));
            assert(params.deep_view() =~= before + params_spec(rest));
            break;
        }
        match find_char(v, pos, to, ' ') {
            Some(i) => {
                params.push(string_of(v, pos, i));
                assert(v@.subrange(pos as int, i as int) =~= rest.subrange(0, i - pos));
                assert(v@.subrange(i + 1, to as int) =~= rest.subrange(
                    i - pos + 1,
                    rest.len() as int,
                ));
                pos = i + 1;
                assert(params.deep_view() + params_spec(v@.subrange(pos as int, to as int))
                    =~= before + params_spec(rest));
            },
            None => {
                params.push(string_of(v, pos, to));
                assert(params.deep_view() =~= before + params_spec(rest));
                break;
            },
        }
        if pos >= to {
            assert(v@.subrange(pos as int, to as int).len() == 0);
            assert(params.deep_view() =~= goal);
        }
    }
    params
}

/// Length of the line in `v` without the carriage returns and newlines at its end.
fn line_len(v: &Vec<char>) -> (n: usize)
    ensures
        n <= v@.len(),
        trim_line_end(v@) == v@.subrange(0, n as int),
{
    let mut n: usize = v.len();
    assert(v@.subrange(0, n as int) =~= v@);
    while n > 0 && (v[n - 1] == '\r' || v[n - 1] == '\n')
        invariant
            n <= v@.len(),
            trim_line_end(v@) == trim_line_end(v@.subrange(0, n as int)),
        decreases n,
    {
        assert(v@.subrange(0, n as int).drop_last() =~= v@.subrange(0, n - 1));
        n = n - 1;
    }
    n
}

impl Message {
    /// Parse a raw IRC line into a Message, including optional tags.
    pub fn parse(line: &str) -> (r: Option<Message>)
        ensures
            r.deep_view() == parse_spec(line@),
            r matches Some(m) ==> m.tags.wf(),
    {
        let v = chars_of(line);
        let n: usize = line_len(&v);
        let ghost s = v@.subrange(0, n as int);
        if n == 0 {
            return None;
        }
        let mut pos: usize = 0;
        assert(s[0] == v@[0]);
        let tags = if v[0] == '@' {
            match find_char(&v, 0, n, ' ') {
                Some(end) => {
                    pos = end + 1;
                    assert(v@.subrange(1, end as int) =~= s.subrange(1, end as int));
                    assert(v@.subrange(end + 1, n as int) =~= s.subrange(end + 1, s.len() as int));
                    parse_tags_at(&v, 1, end)
                },
                None => {
                    return None;
                },
            }
        } else {
            StrMap::new()
        };
        let ghost s1 = v@.subrange(pos as int, n as int);
        assert(pos == 0 ==> s1 == s);
        let mut prefix: Option<String> = None;
        if pos < n {
            assert(s1[0] == v@[pos as int]);
            if v[pos] == ':' {
                match find_char(&v, pos, n, ' ') {
                    Some(end) => {
                        assert(v@.subrange(pos + 1, end as int) =~= s1.subrange(1, end - pos));
                        assert(v@.subrange(end + 1, n as int) =~= s1.subrange(
                            end - pos + 1,
                            s1.len() as int,
                        ));
                        prefix = Some(string_of(&v, pos + 1, end));
                        pos = end + 1;
                    },
                    None => {
                        return None;
                    },
                }
            }
        }
        let ghost s2 = v@.subrange(pos as int, n as int);
        match find_char(&v, pos, n, ' ') {
            Some(space) => {
                assert(v@.subrange(pos as int, space as int) =~= s2.subrange(0, space - pos));
                assert(v@.subrange(space + 1, n as int) =~= s2.subrange(
                    space - pos + 1,
                    s2.len() as int,
                ));
                Some(
                    Message {
                        tags,
                        prefix,
                        command: to_ascii_upper(&v, pos, space),
                        params: parse_params(&v, space + 1, n),
                    },
                )
            },
            None => {
                let params: Vec<String> = Vec::new();
                assert(params.deep_view() =~= Seq::<Seq<char>>::empty());
                Some(Message { tags, prefix, command: to_ascii_upper(&v, pos, n), params })
            },
        }
    }

    /// Create a new message with no prefix.
    pub fn new(command: &str, params: Vec<&str>) -> (m: Message)
        ensures
            m@ == plain_msg(command@, params.deep_view()),
            m.tags.wf(),
    {
        Message {
            tags: StrMap::new(),
            prefix: None,
            command: command.to_owned(),
            params: own_list(params),
        }
    }

    /// Create a new message with a server prefix.
    pub fn from_server(server: &str, command: &str, params: Vec<&str>) -> (m: Message)
        ensures
            m@ == server_msg(server@, command@, params.deep_view()),
            m.tags.wf(),
    {
        Message {
            tags: StrMap::new(),
            prefix: Some(server.to_owned()),
            command: command.to_owned(),
            params: own_list(params),
        }
    }
}

/// A message without tags and prefix.
pub open spec fn plain_msg(command: Seq<char>, params: Seq<Seq<char>>) -> MessageView {
    MessageView { tags: Seq::empty(), prefix: None, command, params }
}

/// The message that the server `server` sends: no tags, its name as the prefix.
pub open spec fn server_msg(
    server: Seq<char>,
    command: Seq<char>,
    params: Seq<Seq<char>>,
) -> MessageView {
    MessageView { tags: Seq::empty(), prefix: Some(server), command, params }
}

/// Owned copies of a list of string slices.
fn own_list(v: Vec<&str>) -> (r: Vec<String>)
    ensures
        r.deep_view() == v.deep_view(),
{
    let mut out: Vec<String> = Vec::new();
    let mut i: usize = 0;
    while i < v.len()
        invariant
            i <= v.len(),
            out.deep_view() == v.deep_view().take(i as int),
        decreases v.len() - i,
    {
        let ghost prev = out.deep_view();
        out.push(v[i].to_owned());
        assert(out.deep_view() =~= prev.push(v[i as int]@));
        i = i + 1;
        assert(out.deep_view() =~= v.deep_view().take(i as int));
    }
    assert(v.deep_view().take(i as int) =~= v.deep_view());
    out
}

// ── Formatting ──────────────────────────────────────────────────────

/// One tag as it is written.
pub open spec fn tag_text(t: (Seq<char>, Seq<char>)) -> Seq<char> {
    if t.1.len() == 0 {
        t.0
    } else {
        t.0 + seq!['='] + escape_spec(t.1)
    }
}

/// The tags of a message as they are written, separated by `;`.
pub open spec fn tags_text(tags: Seq<(Seq<char>, Seq<char>)>) -> Seq<char>
    decreases tags.len(),
{
    if tags.len() == 0 {
        Seq::empty()
    } else if tags.len() == 1 {
        tag_text(tags[0])
    } else {
        tag_text(tags[0]) + seq![';'] + tags_text(tags.skip(1))
    }
}

/// Whether a last parameter needs the leading `:`.
pub open spec fn needs_colon(p: Seq<char>) -> bool {
    p.contains(' ') || text::starts_with(p, ':') || p.len() == 0
}

/// One parameter as it is written, with the space before it.
pub open spec fn param_text(p: Seq<char>, last: bool) -> Seq<char> {
    if last && needs_colon(p) {
        seq![' ', ':'] + p
    } else {
        seq![' '] + p
    }
}

/// The parameters as they are written.
pub open spec fn params_text(params: Seq<Seq<char>>) -> Seq<char>
    decreases params.len(),
{
    if params.len() == 0 {
        Seq::empty()
    } else if params.len() == 1 {
        param_text(params[0], true)
    } else {
        param_text(params[0], false) + params_text(params.skip(1))
    }
}

/// The line a message is written as, without the line end.
pub open spec fn render(m: MessageView) -> Seq<char> {
    (if m.tags.len() == 0 {
        Seq::empty()
    } else {
        seq!['@'] + tags_text(m.tags) + seq![' ']
    }) + (match m.prefix {
        Some(p) => seq![':'] + p + seq![' '],
        None => Seq::empty(),
    }) + m.command + params_text(m.params)
}

/// The line a message is sent as.
pub open spec fn wire(m: MessageView) -> Seq<char> {
    render(m) + seq!['\r', '\n']
}

/// Whether the characters of `s` hold a space.
fn has_space(s: &str) -> (r: bool)
    ensures
        r == s@.contains(' '),
{
    let v = chars_of(s);
    proof {
        v@.index_of_first_ensures(' ');
        assert(v@.subrange(0, v@.len() as int) =~= v@);
    }
    find_char(&v, 0, v.len(), ' ').is_some()
}

/// Whether `s` begins with a colon.
fn starts_with_colon(s: &str) -> (r: bool)
    ensures
        r == text::starts_with(s@, ':'),
{
    let v = chars_of(s);
    v.len() > 0 && v[0] == ':'
}

impl Message {
    /// The line of this message, without the line end.
    pub fn to_string(&self) -> (r: String)
        ensures
            r@ == render(self@),
    {
        let mut out = String::new();
        if !self.tags.is_empty() {
            out.push('@');
            let mut i: usize = 0;
            let n: usize = self.tags.len();
            let ghost tags = self.tags@;
            assert(tags.skip(0) =~= tags);
            assert(seq!['@'] + tags_text(tags) =~= out@ + tags_text(tags.skip(0)));
            while i < n
                invariant
                    i <= n,
                    n == tags.len(),
                    n > 0,
                    tags == self.tags@,
                    i < n ==> seq!['@'] + tags_text(tags) == out@ + tags_text(tags.skip(i as int)),
                    i == n ==> seq!['@'] + tags_text(tags) == out@,
                decreases n - i,
            {
                let ghost before = out@;
                let ghost rest = tags.skip(i as int);
                assert(rest[0] == tags[i as int]);
                let key = self.tags.key_at(i);
                let value = self.tags.value_at(i);
                out.push_str(key.as_str());
                if !value.as_str().is_empty() {
                    out.push('=');
                    out.push_str(escape_tag_value(value.as_str()).as_str());
                }
                assert(out@ =~= before + tag_text(rest[0]));
                if i + 1 < n {
                    out.push(';');
                    assert(rest.skip(1) =~= tags.skip(i + 1));
                    assert(out@ + tags_text(tags.skip(i + 1)) =~= before + tags_text(rest));
                } else {
                    assert(rest.len() == 1);
                }
                i = i + 1;
            }
            out.push(' ');
            assert(out@ =~= seq!['@'] + tags_text(tags) + seq![' ']);
        }
        let ghost head = out@;
        if let Some(prefix) = &self.prefix {
            out.push(':');
            out.push_str(prefix.as_str());
            out.push(' ');
            assert(out@ =~= head + (seq![':'] + prefix@ + seq![' ']));
        } else {
            assert(head + Seq::<char>::empty() =~= head);
        }
        out.push_str(self.command.as_str());
        let ghost base = out@;
        let ghost ps = self.params.deep_view();
        let n: usize = self.params.len();
        let mut i: usize = 0;
        assert(ps.skip(0) =~= ps);
        while i < n
            invariant
                i <= n,
                n == ps.len(),
                ps == self.params.deep_view(),
                n == self.params@.len(),
                base + params_text(ps) == out@ + params_text(ps.skip(i as int)),
            decreases n - i,
        {
            let ghost before = out@;
            let ghost rest = ps.skip(i as int);
            let param = &self.params[i];
            assert(rest[0] == param@);
            if i + 1 == n && (has_space(param.as_str()) || starts_with_colon(param.as_str())
                || param.as_str().is_empty()) {
                out.push(' ');
                out.push(':');
                out.push_str(param.as_str());
            } else {
                out.push(' ');
                out.push_str(param.as_str());
            }
            assert(out@ =~= before + param_text(param@, i + 1 == n));
            assert(rest.skip(1) =~= ps.skip(i + 1));
            i = i + 1;
            assert(before + params_text(rest) =~= out@ + params_text(ps.skip(i as int)));
        }
        assert(ps.skip(i as int).len() == 0);
        assert(out@ + params_text(ps.skip(i as int)) =~= out@);
        out
    }

    /// The line of this message with the line end, as it is sent.
    pub fn to_wire(&self) -> (r: String)
        ensures
            r@ == wire(self@),
    {
        let mut out = self.to_string();
        out.push('\r');
        out.push('\n');
        assert(out@ =~= wire(self@));
        out
    }
}

impl Dup for Message {
    fn dup(&self) -> (r: Message) {
        Message {
            tags: self.tags.dup(),
            prefix: self.prefix.dup(),
            command: self.command.clone(),
            params: self.params.dup(),
        }
    }
}

// ── Reading back what was written ───────────────────────────────────

/// A tag that reads back: its key holds none of the separators, and something is written for it.
pub open spec fn tag_ok(t: (Seq<char>, Seq<char>)) -> bool {
    &&& !t.0.contains(';')
    &&& !t.0.contains('=')
    &&& !t.0.contains(' ')
    &&& t.0.len() > 0 || t.1.len() > 0
}

/// A message whose line reads back as the same message.
pub open spec fn reads_back(m: MessageView) -> bool {
    &&& containers::map_distinct(m.tags)
    &&& forall|i: int| 0 <= i < m.tags.len() ==> tag_ok(#[trigger] m.tags[i])
    &&& m.prefix matches Some(p) ==> !p.contains(' ')
    &&& !m.command.contains(' ')
    &&& text::ascii_upper(m.command) == m.command
    &&& m.prefix is None ==> !text::starts_with(m.command, ':')
    &&& m.prefix is None && m.tags.len() == 0 ==> !text::starts_with(m.command, '@')
    &&& forall|i: int|
        0 <= i < m.params.len() - 1 ==> !(#[trigger] m.params[i]).contains(' ')
            && !text::starts_with(m.params[i], ':')
    &&& render(m).len() > 0
    &&& render(m).last() != '\r'
    &&& render(m).last() != '\n'
}

/// The first `c` after a part without it.
proof fn lemma_first_after(a: Seq<char>, b: Seq<char>, c: char)
    requires
        !a.contains(c),
        text::starts_with(b, c),
    ensures
        (a + b).index_of_first(c) == Some(a.len() as int),
{
    let s = a + b;
    s.index_of_first_ensures(c);
    assert(s[a.len() as int] == c);
    assert(s.contains(c));
    let i = s.index_of_first(c)->0;
    if i < a.len() {
        assert(a[i] == s[i]);
        assert(a.contains(c));
    }
}

/// There is no first `c` where there is none.
proof fn lemma_first_none(a: Seq<char>, c: char)
    requires
        !a.contains(c),
    ensures
        a.index_of_first(c) is None,
{
    a.index_of_first_ensures(c);
}

/// Parameters read back.
proof fn lemma_params_read_back(ps: Seq<Seq<char>>)
    requires
        ps.len() > 0,
        forall|i: int|
            0 <= i < ps.len() - 1 ==> !(#[trigger] ps[i]).contains(' ') && !text::starts_with(
                ps[i],
                ':',
            ),
    ensures
        params_text(ps).len() > 0,
        params_text(ps)[0] == ' ',
        params_spec(params_text(ps).skip(1)) == ps,
    decreases ps.len(),
{
    let t = params_text(ps);
    let p = ps[0];
    let body = t.skip(1);
    if ps.len() == 1 {
        if needs_colon(p) {
            assert(body =~= seq![':'] + p);
            assert(body.subrange(1, body.len() as int) =~= p);
        } else {
            assert(body =~= p);
            lemma_first_none(p, ' ');
        }
        assert(params_spec(body) =~= ps);
    } else {
        let rest = ps.skip(1);
        assert forall|i: int| 0 <= i < rest.len() - 1 implies !(#[trigger] rest[i]).contains(' ')
            && !text::starts_with(rest[i], ':') by {
            assert(rest[i] == ps[i + 1]);
        }
        lemma_params_read_back(rest);
        let r = params_text(rest);
        assert(t =~= seq![' '] + (p + r));
        assert(body =~= p + r);
        assert(!ps[0].contains(' '));
        lemma_first_after(p, r, ' ');
        assert(body[0] != ':') by {
            if p.len() > 0 {
                assert(body[0] == p[0]);
            } else {
                assert(body[0] == r[0]);
            }
        }
        assert(body.subrange(0, p.len() as int) =~= p);
        assert(body.subrange(p.len() as int + 1, body.len() as int) =~= r.skip(1));
        assert(params_spec(body) =~= seq![p] + rest);
        assert(seq![p] + rest =~= ps);
    }
}

/// One tag reads back.
proof fn lemma_tag_read_back(acc: Seq<(Seq<char>, Seq<char>)>, t: (Seq<char>, Seq<char>))
    requires
        tag_ok(t),
        forall|i: int| 0 <= i < acc.len() ==> (#[trigger] acc[i]).0 != t.0,
    ensures
        add_tag(acc, tag_text(t)) == acc.push(t),
        tag_text(t).len() > 0,
        !tag_text(t).contains(';'),
        !tag_text(t).contains(' '),
{
    let s = tag_text(t);
    law_escape_is_safe(t.1);
    containers::lemma_map_find_none(acc, t.0);
    let e = escape_spec(t.1);
    if t.1.len() == 0 {
        lemma_first_none(t.0, '=');
        assert(t.1 =~= Seq::<char>::empty());
    } else {
        let tail = seq!['='] + e;
        assert(s =~= t.0 + tail);
        lemma_first_after(t.0, tail, '=');
        assert(s.subrange(0, t.0.len() as int) =~= t.0);
        assert(s.subrange(t.0.len() as int + 1, s.len() as int) =~= e);
        law_unescape_escape(t.1);
        assert forall|i: int| 0 <= i < s.len() implies s[i] != ';' && s[i] != ' ' by {
            if i < t.0.len() {
                assert(t.0.contains(s[i]));
            } else if i > t.0.len() {
                assert(e.contains(e[i - t.0.len() - 1]));
            }
        }
    }
}

/// Tags read back.
proof fn lemma_tags_read_back(
    acc: Seq<(Seq<char>, Seq<char>)>,
    tags: Seq<(Seq<char>, Seq<char>)>,
)
    requires
        tags.len() > 0,
        containers::map_distinct(acc + tags),
        forall|i: int| 0 <= i < tags.len() ==> tag_ok(#[trigger] tags[i]),
    ensures
        add_tags(acc, tags_text(tags)) == acc + tags,
        !tags_text(tags).contains(' '),
    decreases tags.len(),
{
    let t = tags[0];
    let all = acc + tags;
    assert(tag_ok(t));
    assert forall|i: int| 0 <= i < acc.len() implies (#[trigger] acc[i]).0 != t.0 by {
        assert(all[i] == acc[i]);
        assert(all[acc.len() as int] == t);
    }
    lemma_tag_read_back(acc, t);
    let s = tags_text(tags);
    let piece = tag_text(t);
    if tags.len() == 1 {
        lemma_first_none(piece, ';');
        assert(acc.push(t) =~= acc + tags);
    } else {
        let rest = tags.skip(1);
        let acc2 = acc.push(t);
        assert(acc2 + rest =~= acc + tags);
        assert forall|i: int| 0 <= i < rest.len() implies tag_ok(#[trigger] rest[i]) by {
            assert(rest[i] == tags[i + 1]);
        }
        lemma_tags_read_back(acc2, rest);
        let r = tags_text(rest);
        let tail = seq![';'] + r;
        assert(s =~= piece + tail);
        lemma_first_after(piece, tail, ';');
        assert(s.subrange(0, piece.len() as int) =~= piece);
        assert(s.subrange(piece.len() as int + 1, s.len() as int) =~= r);
        assert forall|i: int| 0 <= i < s.len() implies s[i] != ' ' by {
            if i < piece.len() {
                assert(piece.contains(piece[i]));
            } else if i > piece.len() {
                assert(r.contains(r[i - piece.len() - 1]));
            }
        }
    }
}

/// A marked word reads back.
proof fn lemma_marked_word(mark: char, word: Seq<char>, rest: Seq<char>)
    requires
        mark != ' ',
        !word.contains(' '),
    ensures
        marked_word(seq![mark] + word + seq![' '] + rest, mark) == Some((Some(word), rest)),
{
    let s = seq![mark] + word + seq![' '] + rest;
    let a = seq![mark] + word;
    let b = seq![' '] + rest;
    assert(s =~= a + b);
    assert forall|i: int| 0 <= i < a.len() implies a[i] != ' ' by {
        if i > 0 {
            assert(word.contains(word[i - 1]));
        }
    }
    lemma_first_after(a, b, ' ');
    assert(s.subrange(1, a.len() as int) =~= word);
    assert(s.subrange(a.len() as int + 1, s.len() as int) =~= rest);
}

/// A message that can be told apart on the wire survives being written and read:
/// `parse(to_string(m)) == m`.
pub proof fn law_parse_render(m: MessageView)
    requires
        reads_back(m),
    ensures
        parse_spec(render(m)) == Some(m),
{
    let s = render(m);
    assert(trim_line_end(s) == s);
    let tail = m.command + params_text(m.params);
    let mid = match m.prefix {
        Some(p) => seq![':'] + p + seq![' '] + tail,
        None => tail,
    };
    // the command and the parameters
    assert(command_spec(tail) == (m.command, m.params)) by {
        if m.params.len() == 0 {
            assert(params_text(m.params) =~= Seq::<char>::empty());
            assert(tail =~= m.command);
            lemma_first_none(m.command, ' ');
            assert(m.params =~= Seq::<Seq<char>>::empty());
        } else {
            lemma_params_read_back(m.params);
            let b = params_text(m.params);
            lemma_first_after(m.command, b, ' ');
            assert(tail.subrange(0, m.command.len() as int) =~= m.command);
            assert(tail.subrange(m.command.len() as int + 1, tail.len() as int) =~= b.skip(1));
        }
    }
    // the prefix
    assert(marked_word(mid, ':') == Some((m.prefix, tail))) by {
        match m.prefix {
            Some(p) => {
                lemma_marked_word(':', p, tail);
            },
            None => {
                if m.command.len() > 0 {
                    assert(tail[0] == m.command[0]);
                } else if m.params.len() > 0 {
                    lemma_params_read_back(m.params);
                    assert(tail[0] == params_text(m.params)[0]);
                }
            },
        }
    }
    // the tags
    if m.tags.len() == 0 {
        assert(s =~= mid);
        assert(m.tags =~= Seq::<(Seq<char>, Seq<char>)>::empty());
        assert(!text::starts_with(s, '@')) by {
            match m.prefix {
                Some(p) => {
                    assert(s[0] == ':');
                },
                None => {
                    if m.command.len() > 0 {
                        assert(s[0] == m.command[0]);
                    } else if m.params.len() > 0 {
                        lemma_params_read_back(m.params);
                        assert(s[0] == params_text(m.params)[0]);
                    }
                },
            }
        }
    } else {
        assert(s =~= seq!['@'] + tags_text(m.tags) + seq![' '] + mid);
        let none = Seq::<(Seq<char>, Seq<char>)>::empty();
        assert(none + m.tags =~= m.tags);
        lemma_tags_read_back(none, m.tags);
        lemma_marked_word('@', tags_text(m.tags), mid);
    }
}

// Standard IRC numerics
pub const RPL_WELCOME: &'static str = "001";
pub const RPL_YOURHOST: &'static str = "002";
pub const RPL_CREATED: &'static str = "003";
pub const RPL_MYINFO: &'static str = "004";

// SASL numerics
pub const RPL_LOGGEDIN: &'static str = "900";
pub const RPL_SASLSUCCESS: &'static str = "903";
pub const ERR_SASLFAIL: &'static str = "904";
pub const ERR_SASLALREADY: &'static str = "907";

// CAP / channel numerics
pub const RPL_NAMREPLY: &'static str = "353";
pub const RPL_ENDOFNAMES: &'static str = "366";
pub const RPL_TOPIC: &'static str = "332";
pub const RPL_TOPICWHOTIME: &'static str = "333";
pub const RPL_NOTOPIC: &'static str = "331";

// Channel mode numerics
pub const RPL_CHANNELMODEIS: &'static str = "324";
pub const RPL_CREATIONTIME: &'static str = "329";
pub const RPL_BANLIST: &'static str = "367";
pub const RPL_ENDOFBANLIST: &'static str = "368";
pub const RPL_INVITELIST: &'static str = "346";
pub const RPL_ENDOFINVITELIST: &'static str = "347";

pub const ERR_TOOMANYCHANNELS: &'static str = "405";
pub const ERR_BANNEDFROMCHAN: &'static str = "474";
pub const ERR_INVITEONLYCHAN: &'static str = "473";
pub const ERR_BADCHANNELKEY: &'static str = "475";

// Error numerics for channels
pub const ERR_NOTONCHANNEL: &'static str = "442";
pub const ERR_CHANOPRIVSNEEDED: &'static str = "482";
pub const ERR_USERNOTINCHANNEL: &'static str = "441";
pub const ERR_NEEDMOREPARAMS: &'static str = "461";
pub const ERR_UNKNOWNMODE: &'static str = "472";

// WHOIS numerics
pub const RPL_WHOISUSER: &'static str = "311";
pub const RPL_WHOISSERVER: &'static str = "312";
pub const RPL_WHOISSPECIAL: &'static str = "320";
pub const RPL_WHOISACCOUNT: &'static str = "330";
pub const RPL_ENDOFWHOIS: &'static str = "318";

// MOTD numerics
pub const RPL_MOTDSTART: &'static str = "375";
pub const RPL_MOTD: &'static str = "372";
pub const RPL_ENDOFMOTD: &'static str = "376";
pub const ERR_NOMOTD: &'static str = "422";

// LIST numerics
pub const RPL_LIST: &'static str = "322";
pub const RPL_LISTEND: &'static str = "323";

// WHO numerics
pub const RPL_WHOREPLY: &'static str = "352";
pub const RPL_ENDOFWHO: &'static str = "315";

// AWAY numerics
pub const RPL_AWAY: &'static str = "301";
pub const RPL_UNAWAY: &'static str = "305";
pub const RPL_NOWAWAY: &'static str = "306";

// LUSERS numerics
pub const RPL_LUSERCLIENT: &'static str = "251";
pub const RPL_LUSEROP: &'static str = "252";
pub const RPL_LUSERCHANNELS: &'static str = "254";
pub const RPL_LUSERME: &'static str = "255";

// VERSION / TIME / ADMIN / INFO
pub const RPL_VERSION: &'static str = "351";
pub const RPL_TIME: &'static str = "391";
pub const RPL_ADMINME: &'static str = "256";
pub const RPL_ADMINLOC1: &'static str = "257";
pub const RPL_ADMINLOC2: &'static str = "258";
pub const RPL_ADMINEMAIL: &'static str = "259";
pub const RPL_INFO: &'static str = "371";
pub const RPL_ENDOFINFO: &'static str = "374";

// USERHOST / ISON
pub const RPL_USERHOST: &'static str = "302";
pub const RPL_ISON: &'static str = "303";

// Errors
pub const ERR_UNKNOWNCOMMAND: &'static str = "421";
pub const ERR_NONICKNAMEGIVEN: &'static str = "431";
pub const ERR_NICKNAMEINUSE: &'static str = "433";
pub const ERR_NOSUCHNICK: &'static str = "401";
pub const ERR_NOTREGISTERED: &'static str = "451";
pub const ERR_CANNOTSENDTOCHAN: &'static str = "404";

} // verus!
