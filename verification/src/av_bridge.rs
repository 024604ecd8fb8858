//! Which broadcasts pass between the relay of the browsers and the room of the native clients.
use crate::text;
use crate::text::{starts_with_str, Line};
use vstd::prelude::*;

verus! {

broadcast use vstd::string::group_string_axioms;

/// Whether a broadcast of the relay is one of a session: its path starts with the session's ID.
pub fn is_of_session(path: &str, session_id: &str) -> (b: bool)
    ensures
        b == text::has_prefix(path@, session_id@),
{
    starts_with_str(path, session_id)
}

/// The path under which a native client's broadcast is published to the relay.
pub open spec fn path_spec(session_id: Seq<char>, display_name: Option<Seq<char>>, remote_id: Seq<char>) -> Seq<char> {
    session_id + "/"@ + text::or_default(display_name, remote_id)
}

/// The path under which a native client's broadcast is published to the relay: below the session's
/// ID, under the name that the client shows, else under the ID of its endpoint.
pub fn broadcast_path(session_id: &str, display_name: Option<&str>, remote_id: &str) -> (r: String)
    ensures
        r@ == path_spec(session_id@, display_name.deep_view(), remote_id@),
{
    let name = match display_name {
        Some(n) => n,
        None => remote_id,
    };
    Line::new(session_id).add("/").add(name).done()
}

/// What is published to the relay for a session is a broadcast of that session.
pub proof fn law_published_path_is_of_session(
    session_id: Seq<char>,
    display_name: Option<Seq<char>>,
    remote_id: Seq<char>,
)
    ensures
        text::has_prefix(path_spec(session_id, display_name, remote_id), session_id),
{
    let p = path_spec(session_id, display_name, remote_id);
    assert(p.take(session_id.len() as int) =~= session_id);
}

} // verus!
