//! What a chat-completions endpoint is asked and what is made of its answer.
//!
//! Models are asked for a single JSON object. Some wrap it in code fences or prose all the same:
//! [`first_balanced_object`] takes it out again.
use super::{ToolIntent, ToolIntentView};
use crate::text;
use crate::text::{chars_of, find_char, str_eq, string_of, trim_end_char, Line};
use vstd::prelude::*;

verus! {

broadcast use vstd::string::group_string_axioms;

/// Where the reader of a JSON text stands: how many braces are open, whether it is within a string,
/// and whether a backslash came just before.
pub struct Nesting {
    pub depth: int,
    pub in_string: bool,
    pub escaped: bool,
}

/// Where the reader stands after one more character.
pub open spec fn read_char(n: Nesting, c: char) -> Nesting {
    if n.escaped {
        Nesting { escaped: false, ..n }
    } else if n.in_string {
        Nesting { escaped: c == '\\', in_string: c != '"', ..n }
    } else {
        Nesting {
            in_string: c == '"',
            depth: if c == '{' {
                n.depth + 1
            } else if c == '}' {
                n.depth - 1
            } else {
                n.depth
            },
            ..n
        }
    }
}

/// Where the reader stands after a text.
pub open spec fn nesting(s: Seq<char>) -> Nesting
    decreases s.len(),
{
    if s.len() == 0 {
        Nesting { depth: 0, in_string: false, escaped: false }
    } else {
        read_char(nesting(s.drop_last()), s.last())
    }
}

/// The length of the shortest part of `s`, of at least `from` characters, after which no brace is
/// open.
pub open spec fn closing(s: Seq<char>, from: nat) -> Option<nat>
    decreases s.len() + 1 - from,
{
    if from > s.len() {
        None
    } else if nesting(s.take(from as int)).depth == 0 {
        Some(from)
    } else {
        closing(s, from + 1)
    }
}

/// The first complete `{…}` of a text. Braces within strings do not count.
pub open spec fn first_object(s: Seq<char>) -> Option<Seq<char>> {
    match s.index_of_first('{') {
        Some(i) => match closing(s.skip(i), 1) {
            Some(n) => Some(s.skip(i).take(n as int)),
            None => None,
        },
        None => None,
    }
}

/// Find the first complete `{…}` substring, accounting for nested braces and string-literal
/// escaping.
pub fn first_balanced_object(s: &str) -> (r: Option<String>)
    ensures
        r.deep_view() == first_object(s@),
{
    let v = chars_of(s);
    assert(v@.subrange(0, v@.len() as int) =~= v@);
    let start = match find_char(&v, 0, v.len(), '{') {
        Some(i) => i,
        None => {
            return None;
        },
    };
    let ghost t = s@.skip(start as int);
    let mut depth: usize = 0;
    let mut in_string = false;
    let mut escaped = false;
    let mut end: Option<usize> = None;
    let mut i: usize = start;
    assert(t.take(0) =~= Seq::<char>::empty());
    while i < v.len()
        invariant_except_break
            end is None,
            closing(t, 1) == closing(t, (i - start + 1) as nat),
            i > start ==> depth > 0,
        invariant
            start <= i <= v.len(),
            v@ == s@,
            t == s@.skip(start as int),
            t[0] == '{',
            t.len() == v.len() - start,
            depth <= i - start,
            i == start ==> depth == 0 && !in_string && !escaped,
            nesting(t.take(i - start)) == (Nesting { depth: depth as int, in_string, escaped }),
        ensures
            match end {
                Some(e) => start <= e <= v.len() && closing(t, 1) == Some((e - start) as nat),
                None => closing(t, 1) is None,
            },
        decreases v.len() - i,
    {
        let c = v[i];
        let ghost k = i - start;
        assert(t.take(k + 1).drop_last() =~= t.take(k));
        assert(t[k] == c);
        if escaped {
            escaped = false;
        } else if in_string {
            if c == '\\' {
                escaped = true;
            } else if c == '"' {
                in_string = false;
            }
        } else if c == '"' {
            in_string = true;
        } else if c == '{' {
            depth = depth + 1;
        } else if c == '}' {
            depth = depth - 1;
        }
        i = i + 1;
        assert(nesting(t.take(k + 1)) == (Nesting { depth: depth as int, in_string, escaped }));
        if depth == 0 {
            end = Some(i);
            break;
        }
    }
    match end {
        Some(e) => {
            let r = string_of(&v, start, e);
            assert(r@ =~= t.take(e - start));
            Some(r)
        },
        None => None,
    }
}

/// What is found is a part of the text that begins with `{`, ends with `}`, and after which no
/// brace is open; no shorter part from the same place on has that.
pub proof fn law_first_object_is_balanced(s: Seq<char>)
    requires
        first_object(s) is Some,
    ensures
        text::contains_spec(s, first_object(s)->0),
        text::starts_with(first_object(s)->0, '{'),
        first_object(s)->0.last() == '}',
        nesting(first_object(s)->0).depth == 0,
        forall|n: int|
            1 <= n < first_object(s)->0.len() ==> nesting(
                #[trigger] first_object(s)->0.take(n),
            ).depth != 0,
{
    let i = s.index_of_first('{')->0;
    s.index_of_first_ensures('{');
    let t = s.skip(i);
    let r = first_object(s)->0;
    lemma_closing(t, 1);
    assert(text::stands_at(s, r, i)) by {
        assert(s.subrange(i, i + r.len()) =~= r);
    }
    assert forall|n: int| 1 <= n < r.len() implies nesting(#[trigger] r.take(n)).depth != 0 by {
        assert(r.take(n) =~= t.take(n));
    }
    let m = r.len();
    assert(r.take(m - 1) =~= r.drop_last());
    if m == 1 {
        reveal_with_fuel(nesting, 3);
        assert(r.drop_last() =~= Seq::<char>::empty());
        assert(false);
    }
    lemma_stays_open(r, m - 1);
}

/// As long as the first brace is not closed again, some brace is open.
proof fn lemma_stays_open(s: Seq<char>, n: int)
    requires
        text::starts_with(s, '{'),
        1 <= n <= s.len(),
        forall|m: int| 1 <= m <= n ==> nesting(#[trigger] s.take(m)).depth != 0,
    ensures
        nesting(s.take(n)).depth >= 1,
    decreases n,
{
    assert(s.take(n).drop_last() =~= s.take(n - 1));
    if n == 1 {
        reveal_with_fuel(nesting, 2);
        assert(s.take(0) =~= Seq::<char>::empty());
    } else {
        lemma_stays_open(s, n - 1);
        assert(nesting(s.take(n)).depth != 0);
    }
}

proof fn lemma_closing(s: Seq<char>, from: nat)
    ensures
        match closing(s, from) {
            Some(n) => from <= n <= s.len() && nesting(s.take(n as int)).depth == 0 && forall|m: int|
                from <= m < n ==> nesting(#[trigger] s.take(m)).depth != 0,
            None => true,
        },
    decreases s.len() + 1 - from,
{
    if from <= s.len() && nesting(s.take(from as int)).depth != 0 {
        lemma_closing(s, from + 1);
    }
}

/// The intent that a model means: one that names no tool is none.
pub open spec fn meant(intent: Option<ToolIntentView>) -> Option<ToolIntentView> {
    match intent {
        Some(i) => if i.tool.len() > 0 && i.tool != "null"@ {
            Some(i)
        } else {
            None
        },
        None => None,
    }
}

/// The intent that a model means, of what could be read of its answer: `strict` is the whole of the
/// answer, `recovered` the first object in it.
pub open spec fn intent_spec(
    strict: Option<ToolIntentView>,
    recovered: Option<ToolIntentView>,
) -> Option<ToolIntentView> {
    meant(
        match strict {
            Some(i) => Some(i),
            None => recovered,
        },
    )
}

/// The intent that a model means, of what could be read of its answer.
pub fn choose_intent(strict: Option<ToolIntent>, recovered: Option<ToolIntent>) -> (r: Option<
    ToolIntent,
>)
    ensures
        r.deep_view() == intent_spec(strict.deep_view(), recovered.deep_view()),
{
    let read = match strict {
        Some(i) => Some(i),
        None => recovered,
    };
    match read {
        Some(i) => if !text::is_empty(i.tool.as_str()) && !str_eq(i.tool.as_str(), "null") {
            Some(i)
        } else {
            None
        },
        None => None,
    }
}

/// Where a provider is asked: the path for chat completions, below the URL without its last
/// slashes.
pub open spec fn chat_url_spec(base_url: Seq<char>) -> Seq<char> {
    text::trim_end_char_spec(base_url, '/') + "/chat/completions"@
}

/// Where a provider is asked.
pub fn chat_url(base_url: &str) -> (r: String)
    ensures
        r@ == chat_url_spec(base_url@),
{
    Line::new(trim_end_char(base_url, '/').as_str()).add("/chat/completions").done()
}

} // verus!
