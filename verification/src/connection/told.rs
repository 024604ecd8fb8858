//! Who is told what: lemmas on the effects of a command.
use super::helpers;
use crate::server::EffectView;
use vstd::prelude::*;

verus! {

/// What stands in one sequence after another.
pub broadcast proof fn lemma_add_contains<A>(a: Seq<A>, b: Seq<A>, x: A)
    ensures
        #[trigger] (a + b).contains(x) <==> a.contains(x) || b.contains(x),
{
    if a.contains(x) {
        let i = choose|i: int| 0 <= i < a.len() && a[i] == x;
        assert((a + b)[i] == x);
    }
    if b.contains(x) {
        let i = choose|i: int| 0 <= i < b.len() && b[i] == x;
        assert((a + b)[a.len() + i] == x);
    }
    if (a + b).contains(x) {
        let i = choose|i: int| 0 <= i < (a + b).len() && (a + b)[i] == x;
        if i < a.len() {
            assert(a[i] == x);
        } else {
            assert(b[i - a.len()] == x);
        }
    }
}

/// What stands in a sequence with one more element.
pub broadcast proof fn lemma_push_contains<A>(a: Seq<A>, y: A, x: A)
    ensures
        #[trigger] a.push(y).contains(x) <==> a.contains(x) || x == y,
{
    if a.contains(x) {
        let i = choose|i: int| 0 <= i < a.len() && a[i] == x;
        assert(a.push(y)[i] == x);
    }
    if x == y {
        assert(a.push(y)[a.len() as int] == x);
    }
    if a.push(y).contains(x) {
        let i = choose|i: int| 0 <= i < a.push(y).len() && a.push(y)[i] == x;
        if i < a.len() {
            assert(a[i] == x);
        }
    }
}

/// Who is told a line that goes to a set of sessions.
pub broadcast proof fn lemma_multicast_contains(to: Seq<Seq<char>>, line: Seq<char>, e: EffectView)
    ensures
        #[trigger] helpers::multicast_fx(to, line).contains(e) <==> (e matches EffectView::Send { to: s, line: l } && l == line
            && to.contains(s)),
{
    let fx = helpers::multicast_fx(to, line);
    if fx.contains(e) {
        let i = choose|i: int| 0 <= i < fx.len() && fx[i] == e;
        assert(to[i] == e->to);
    }
    if let EffectView::Send { to: s, line: l } = e {
        if l == line && to.contains(s) {
            let i = choose|i: int| 0 <= i < to.len() && to[i] == s;
            assert(fx[i] == e);
        }
    }
}

/// What a command tells: how membership goes through the sequences of effects.
pub broadcast group group_told {
    lemma_add_contains,
    lemma_push_contains,
    lemma_multicast_contains,
}

/// Whether all that follows is one line to a session.
pub open spec fn one_reply(fx: Seq<EffectView>, to: Seq<char>) -> bool {
    fx.len() == 1 && (fx[0] matches EffectView::Send { to: t, .. } && t == to)
}

/// What a filter keeps.
pub proof fn lemma_filter_contains<A>(s: Seq<A>, p: spec_fn(A) -> bool, x: A)
    ensures
        s.filter(p).contains(x) <==> s.contains(x) && p(x),
    decreases s.len(),
{
    reveal(Seq::filter);
    if s.len() > 0 {
        let t = s.drop_last();
        lemma_filter_contains(t, p, x);
        assert(s =~= t.push(s.last()));
        lemma_push_contains(t, s.last(), x);
        lemma_push_contains(t.filter(p), s.last(), x);
    }
}

} // verus!
