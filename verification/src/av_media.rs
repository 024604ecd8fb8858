//! Media rooms for AV sessions.
use crate::containers;
use crate::containers::StrMap;
use crate::text::Line;
use vstd::prelude::*;

verus! {

broadcast use vstd::string::group_string_axioms;

/// Opaque ticket string for joining a media session.
pub type MediaTicket = String;

/// The rooms of the iroh-live media transport, each with its ticket.
#[derive(Debug)]
pub struct IrohLiveRooms {
    rooms: StrMap<MediaTicket>,
}

/// The ticket for the room of a session.
pub open spec fn ticket_for(session_id: Seq<char>) -> Seq<char> {
    "iroh-live://stub/"@ + session_id
}

impl IrohLiveRooms {
    /// The rooms and their tickets.
    pub closed spec fn rooms(&self) -> Seq<(Seq<char>, Seq<char>)> {
        self.rooms@
    }

    /// No rooms.
    pub fn new() -> (r: IrohLiveRooms)
        ensures
            r.rooms() == Seq::<(Seq<char>, Seq<char>)>::empty(),
    {
        IrohLiveRooms { rooms: StrMap::new() }
    }

    /// Create a new media room and return a ticket for others to join.
    pub fn create_room(&mut self, session_id: &str) -> (ticket: MediaTicket)
        ensures
            ticket@ == ticket_for(session_id@),
            final(self).rooms() == containers::map_put(
                old(self).rooms(),
                session_id@,
                ticket_for(session_id@),
            ),
    {
        let ticket = Line::new("iroh-live://stub/").add(session_id).done();
        self.rooms.insert(session_id.to_owned(), ticket.clone());
        ticket
    }

    /// Shut down a media room; tells whether there was one.
    pub fn close_room(&mut self, session_id: &str) -> (was: bool)
        ensures
            was == containers::map_has(old(self).rooms(), session_id@),
            final(self).rooms() == containers::map_del(old(self).rooms(), session_id@),
    {
        self.rooms.remove(session_id)
    }

    /// Whether there is a room for a session.
    pub fn has_room(&self, session_id: &str) -> (b: bool)
        ensures
            b == containers::map_has(self.rooms(), session_id@),
    {
        self.rooms.contains_key(session_id)
    }
}

/// A room that is created is there until it is closed, and closing it takes away no other.
pub proof fn law_room_lives_until_closed(
    rooms: Seq<(Seq<char>, Seq<char>)>,
    id: Seq<char>,
    other: Seq<char>,
)
    ensures
        containers::map_get(containers::map_put(rooms, id, ticket_for(id)), id) == Some(
            ticket_for(id),
        ),
        containers::map_get(containers::map_del(rooms, id), id) is None,
        other != id ==> containers::map_get(containers::map_del(rooms, id), other)
            == containers::map_get(rooms, other),
{
    containers::lemma_map_put_get(rooms, id, ticket_for(id), id);
    containers::lemma_map_del_get(rooms, id, id);
    containers::lemma_map_del_get(rooms, id, other);
}

} // verus!
