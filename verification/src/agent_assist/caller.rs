//! Caller identification + permission matrix.
//!
//! One auth scheme is accepted: `Authorization: Bearer <session_id>`. The session id must belong to
//! a currently-connected IRC session with a DID. If the DID is a server operator's, the caller is a
//! server operator. Anything else is anonymous.
use super::types::{Caller, CallerView, DisclosureLevel};
use crate::connection::channel::list_contains;
use crate::server::{ServerState, ServerStateView};
use crate::text;
use crate::text::{strip_prefix, to_lowercase, trim};
use vstd::prelude::*;

verus! {

broadcast use vstd::string::group_string_axioms;

/// The anonymous caller.
pub open spec fn nobody() -> CallerView {
    CallerView { did: None, session_id: None, level: DisclosureLevel::Public }
}

/// The session that an `Authorization` header names.
pub open spec fn bearer(header: Option<Seq<char>>) -> Option<Seq<char>> {
    match header {
        Some(v) => match text::strip_prefix_spec(v, "Bearer "@) {
            Some(rest) => Some(text::trim_spec(rest)),
            None => None,
        },
        None => None,
    }
}

/// The caller that an `Authorization` header identifies; anonymous on any failure.
pub open spec fn caller_of(header: Option<Seq<char>>, st: ServerStateView) -> CallerView {
    match bearer(header) {
        Some(session) => match st.did_of(session) {
            Some(did) => if session.len() > 0 {
                CallerView {
                    did: Some(did),
                    session_id: Some(session),
                    level: if st.oper_dids.contains(did) {
                        DisclosureLevel::ServerOperator
                    } else {
                        DisclosureLevel::Account
                    },
                }
            } else {
                nobody()
            },
            None => nobody(),
        },
        None => nobody(),
    }
}

/// Extract a [`Caller`] from the value of the `Authorization` header.
pub fn extract(header: Option<&str>, state: &ServerState) -> (c: Caller)
    ensures
        c.deep_view() == caller_of(header.deep_view(), state.deep_view()),
{
    let rest = match header {
        Some(v) => strip_prefix(v, "Bearer "),
        None => None,
    };
    let session = match rest {
        Some(r) => trim(r.as_str()),
        None => {
            return Caller::anonymous();
        },
    };
    if text::is_empty(session.as_str()) {
        return Caller::anonymous();
    }
    match state.did_of(session.as_str()) {
        Some(did) => {
            let level = if list_contains(&state.oper_dids, did.as_str()) {
                DisclosureLevel::ServerOperator
            } else {
                DisclosureLevel::Account
            };
            Caller { did: Some(did.clone()), session_id: Some(session), level }
        },
        None => Caller::anonymous(),
    }
}

/// Whether the caller is in the channel.
pub open spec fn caller_is_member(c: CallerView, st: ServerStateView, channel: Seq<char>) -> bool {
    match c.session_id {
        Some(s) => st.is_member(text::lowercase(channel), s),
        None => false,
    }
}

/// Whether the caller is an operator of the channel.
pub open spec fn caller_is_operator(
    c: CallerView,
    st: ServerStateView,
    channel: Seq<char>,
) -> bool {
    match c.session_id {
        Some(s) => st.is_op(text::lowercase(channel), s),
        None => false,
    }
}

/// The level of a caller with respect to a channel.
pub open spec fn level_in(c: CallerView, st: ServerStateView, channel: Seq<char>) -> DisclosureLevel {
    if c.level == DisclosureLevel::ServerOperator {
        DisclosureLevel::ServerOperator
    } else if caller_is_operator(c, st, channel) {
        DisclosureLevel::ChannelOperator
    } else if caller_is_member(c, st, channel) {
        DisclosureLevel::ChannelMember
    } else {
        c.level
    }
}

/// True if `caller` is a member of `channel`.
pub fn is_channel_member(caller: &Caller, state: &ServerState, channel: &str) -> (b: bool)
    ensures
        b == caller_is_member(caller.deep_view(), state.deep_view(), channel@),
{
    match &caller.session_id {
        Some(s) => state.is_member(to_lowercase(channel).as_str(), s.as_str()),
        None => false,
    }
}

/// True if `caller` is an op (`@`) in `channel`.
pub fn is_channel_operator(caller: &Caller, state: &ServerState, channel: &str) -> (b: bool)
    ensures
        b == caller_is_operator(caller.deep_view(), state.deep_view(), channel@),
{
    match &caller.session_id {
        Some(s) => state.is_op(to_lowercase(channel).as_str(), s.as_str()),
        None => false,
    }
}

/// Effective disclosure level for `caller` against a specific channel. Server operators always
/// satisfy any channel-scoped requirement.
pub fn effective_level(caller: &Caller, state: &ServerState, channel: &str) -> (l:
    DisclosureLevel)
    ensures
        l == level_in(caller.deep_view(), state.deep_view(), channel@),
{
    if caller.level == DisclosureLevel::ServerOperator {
        return DisclosureLevel::ServerOperator;
    }
    if is_channel_operator(caller, state, channel) {
        return DisclosureLevel::ChannelOperator;
    }
    if is_channel_member(caller, state, channel) {
        return DisclosureLevel::ChannelMember;
    }
    caller.level
}

} // verus!
