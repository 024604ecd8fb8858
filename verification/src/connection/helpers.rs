//! Building effects: replies, broadcasts, and events for the rest of the server.
use super::ConnectionView;
use crate::containers::StrSet;
use crate::irc;
use crate::irc::Message;
use crate::server::{
    CrdtOp, Effect, EffectView, PluginEvent, S2sEvent, ServerStateView, StoreOp,
};
use vstd::prelude::*;

verus! {

broadcast use vstd::string::group_string_axioms;

/// The line `line` for the session `to`.
pub open spec fn send_fx(to: Seq<char>, line: Seq<char>) -> EffectView {
    EffectView::Send { to, line }
}

/// The server's reply `command params` for the session `to`.
pub open spec fn reply_fx(
    to: Seq<char>,
    server: Seq<char>,
    command: Seq<char>,
    params: Seq<Seq<char>>,
) -> EffectView {
    send_fx(to, irc::wire(irc::server_msg(server, command, params)))
}

/// The same line for every session of a list, in its order.
pub open spec fn multicast_fx(to: Seq<Seq<char>>, line: Seq<char>) -> Seq<EffectView> {
    to.map_values(|s: Seq<char>| send_fx(s, line))
}

/// Nothing changes and the session `c` gets one reply.
pub open spec fn refuse(
    st: ServerStateView,
    c: ConnectionView,
    command: Seq<char>,
    params: Seq<Seq<char>>,
) -> (ServerStateView, Seq<EffectView>) {
    (st, seq![reply_fx(c.id, st.server_name, command, params)])
}

/// Appends an effect.
pub fn push_effect(fx: &mut Vec<Effect>, e: Effect)
    ensures
        final(fx).deep_view() == old(fx).deep_view().push(e.deep_view()),
{
    let ghost before = fx.deep_view();
    fx.push(e);
    assert(fx.deep_view() =~= before.push(e.deep_view()));
}

/// Queues a line for a session.
pub fn push_send(fx: &mut Vec<Effect>, to: &str, line: String)
    ensures
        final(fx).deep_view() == old(fx).deep_view().push(send_fx(to@, line@)),
{
    push_effect(fx, Effect::Send { to: to.to_owned(), line });
}

/// Queues a server reply for a session.
pub fn push_reply(
    fx: &mut Vec<Effect>,
    to: &str,
    server: &str,
    command: &str,
    params: Vec<&str>,
)
    ensures
        final(fx).deep_view() == old(fx).deep_view().push(
            reply_fx(to@, server@, command@, params.deep_view()),
        ),
{
    let m = Message::from_server(server, command, params);
    push_send(fx, to, m.to_wire());
}

/// Queues the same line for every session of a set.
pub fn push_multicast(fx: &mut Vec<Effect>, to: &StrSet, line: &str)
    ensures
        final(fx).deep_view() == old(fx).deep_view() + multicast_fx(to@, line@),
{
    let ghost before = fx.deep_view();
    let mut i: usize = 0;
    let n: usize = to.len();
    assert(before + multicast_fx(to@.take(0), line@) =~= before);
    while i < n
        invariant
            i <= n,
            n == to@.len(),
            fx.deep_view() == before + multicast_fx(to@.take(i as int), line@),
        decreases n - i,
    {
        push_send(fx, to.at(i).as_str(), line.to_owned());
        i = i + 1;
        assert(fx.deep_view() =~= before + multicast_fx(to@.take(i as int), line@));
    }
    assert(to@.take(i as int) =~= to@);
}

/// Appends an event for the federation.
pub fn push_s2s(fx: &mut Vec<Effect>, e: S2sEvent)
    ensures
        final(fx).deep_view() == old(fx).deep_view().push(EffectView::S2s(e.deep_view())),
{
    push_effect(fx, Effect::S2s(e));
}

/// Appends a change to the database.
pub fn push_store(fx: &mut Vec<Effect>, e: StoreOp)
    ensures
        final(fx).deep_view() == old(fx).deep_view().push(EffectView::Store(e.deep_view())),
{
    push_effect(fx, Effect::Store(e));
}

/// Appends a change to the replicated channel authority.
pub fn push_crdt(fx: &mut Vec<Effect>, e: CrdtOp)
    ensures
        final(fx).deep_view() == old(fx).deep_view().push(EffectView::Crdt(e.deep_view())),
{
    push_effect(fx, Effect::Crdt(e));
}

/// Appends a notification for the plugins.
pub fn push_plugin(fx: &mut Vec<Effect>, e: PluginEvent)
    ensures
        final(fx).deep_view() == old(fx).deep_view().push(EffectView::Plugin(e.deep_view())),
{
    push_effect(fx, Effect::Plugin(e));
}

/// A list of one parameter.
pub fn p1<'a>(a: &'a str) -> (r: Vec<&'a str>)
    ensures
        r.deep_view() == seq![a@],
{
    let r = vec![a];
    assert(r.deep_view() =~= seq![a@]);
    r
}

/// A list of two parameters.
pub fn p2<'a>(a: &'a str, b: &'a str) -> (r: Vec<&'a str>)
    ensures
        r.deep_view() == seq![a@, b@],
{
    let r = vec![a, b];
    assert(r.deep_view() =~= seq![a@, b@]);
    r
}

/// A list of three parameters.
pub fn p3<'a>(a: &'a str, b: &'a str, c: &'a str) -> (r: Vec<&'a str>)
    ensures
        r.deep_view() == seq![a@, b@, c@],
{
    let r = vec![a, b, c];
    assert(r.deep_view() =~= seq![a@, b@, c@]);
    r
}

/// A list of four parameters.
pub fn p4<'a>(a: &'a str, b: &'a str, c: &'a str, d: &'a str) -> (r: Vec<&'a str>)
    ensures
        r.deep_view() == seq![a@, b@, c@, d@],
{
    let r = vec![a, b, c, d];
    assert(r.deep_view() =~= seq![a@, b@, c@, d@]);
    r
}

/// A list of five parameters.
pub fn p5<'a>(a: &'a str, b: &'a str, c: &'a str, d: &'a str, e: &'a str) -> (r: Vec<&'a str>)
    ensures
        r.deep_view() == seq![a@, b@, c@, d@, e@],
{
    let r = vec![a, b, c, d, e];
    assert(r.deep_view() =~= seq![a@, b@, c@, d@, e@]);
    r
}

/// Appending one effect after others.
pub broadcast proof fn lemma_push_after(a: Seq<EffectView>, b: Seq<EffectView>, e: EffectView)
    ensures
        #[trigger] (a + b).push(e) == a + (b + seq![e]),
{
    assert((a + b).push(e) =~= a + (b + seq![e]));
}

/// Appending effects after others.
pub broadcast proof fn lemma_add_after(
    a: Seq<EffectView>,
    b: Seq<EffectView>,
    c: Seq<EffectView>,
)
    ensures
        #[trigger] ((a + b) + c) == a + (b + c),
{
    assert((a + b) + c =~= a + (b + c));
}

} // verus!
