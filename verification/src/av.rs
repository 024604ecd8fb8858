//! AV Session subsystem — real-time voice/video/screen sharing.
//!
//! Sessions are first-class objects that live alongside IRC channels. A session can be bound to a
//! channel (most common) or ad-hoc (DM calls). What is kept here is who is in which session; media
//! flows elsewhere.
use crate::containers;
use crate::containers::{Dup, StrMap};
use crate::text;
use crate::text::{str_eq, to_lowercase, Line};
use crate::time::unix_now;
use vstd::prelude::*;

verus! {

broadcast use vstd::string::group_string_axioms;

/// ULID-based session identifier.
pub type AvSessionId = String;

// ── Core types ──────────────────────────────────────────────────────

/// The mathematical content of a [`AvSessionState`].
pub enum AvSessionStateView {
    Active,
    Ended { ended_at: i64, ended_by: Option<Seq<char>> },
}

/// Whether a session is going on.
#[derive(Debug)]
pub enum AvSessionState {
    Active,
    Ended { ended_at: i64, ended_by: Option<String> },
}

impl DeepView for AvSessionState {
    type V = AvSessionStateView;

    open spec fn deep_view(&self) -> AvSessionStateView {
        match self {
            AvSessionState::Active => AvSessionStateView::Active,
            AvSessionState::Ended { ended_at, ended_by } => AvSessionStateView::Ended {
                ended_at: ended_at.deep_view(),
                ended_by: ended_by.deep_view(),
            },
        }
    }
}

impl Dup for AvSessionState {
    fn dup(&self) -> (r: AvSessionState) {
        match self {
            AvSessionState::Active => AvSessionState::Active,
            AvSessionState::Ended { ended_at, ended_by } => AvSessionState::Ended {
                ended_at: *ended_at,
                ended_by: ended_by.dup(),
            },
        }
    }
}

/// What a participant may do.
#[derive(Debug, Clone, Copy, PartialEq, Eq, Structural)]
pub enum ParticipantRole {
    Host,
    Speaker,
    Listener,
}

impl DeepView for ParticipantRole {
    type V = ParticipantRole;

    open spec fn deep_view(&self) -> ParticipantRole {
        *self
    }
}

impl Dup for ParticipantRole {
    fn dup(&self) -> (r: ParticipantRole) {
        *self
    }
}

/// What a track carries.
#[derive(Debug, Clone, Copy, PartialEq, Eq, Structural)]
pub enum TrackKind {
    Audio,
    Video,
    Screen,
}

impl DeepView for TrackKind {
    type V = TrackKind;

    open spec fn deep_view(&self) -> TrackKind {
        *self
    }
}

impl Dup for TrackKind {
    fn dup(&self) -> (r: TrackKind) {
        *self
    }
}

/// What carries the media.
#[derive(Debug, Clone, Copy, PartialEq, Eq, Structural)]
pub enum MediaBackendType {
    IrohLive,
}

impl DeepView for MediaBackendType {
    type V = MediaBackendType;

    open spec fn deep_view(&self) -> MediaBackendType {
        *self
    }
}

impl Dup for MediaBackendType {
    fn dup(&self) -> (r: MediaBackendType) {
        *self
    }
}

/// The mathematical content of a [`TrackInfo`].
pub struct TrackInfoView {
    pub kind: TrackKind,
    pub muted: bool,
}

/// A track of a participant.
#[derive(Debug)]
pub struct TrackInfo {
    pub kind: TrackKind,
    pub muted: bool,
}

impl DeepView for TrackInfo {
    type V = TrackInfoView;

    open spec fn deep_view(&self) -> TrackInfoView {
        TrackInfoView {
            kind: self.kind.deep_view(),
            muted: self.muted.deep_view(),
        }
    }
}

impl Dup for TrackInfo {
    fn dup(&self) -> (r: TrackInfo) {
        TrackInfo {
            kind: self.kind.dup(),
            muted: self.muted.dup(),
        }
    }
}

/// The mathematical content of a [`AvParticipant`].
pub struct AvParticipantView {
    pub did: Seq<char>,
    pub nick: Seq<char>,
    pub joined_at: i64,
    pub left_at: Option<i64>,
    pub role: ParticipantRole,
    pub tracks: Seq<TrackInfoView>,
}

/// Someone who is or was in a session.
#[derive(Debug)]
pub struct AvParticipant {
    pub did: String,
    pub nick: String,
    pub joined_at: i64,
    pub left_at: Option<i64>,
    pub role: ParticipantRole,
    pub tracks: Vec<TrackInfo>,
}

impl DeepView for AvParticipant {
    type V = AvParticipantView;

    open spec fn deep_view(&self) -> AvParticipantView {
        AvParticipantView {
            did: self.did.deep_view(),
            nick: self.nick.deep_view(),
            joined_at: self.joined_at.deep_view(),
            left_at: self.left_at.deep_view(),
            role: self.role.deep_view(),
            tracks: self.tracks.deep_view(),
        }
    }
}

impl Dup for AvParticipant {
    fn dup(&self) -> (r: AvParticipant) {
        AvParticipant {
            did: self.did.dup(),
            nick: self.nick.dup(),
            joined_at: self.joined_at.dup(),
            left_at: self.left_at.dup(),
            role: self.role.dup(),
            tracks: self.tracks.dup(),
        }
    }
}

/// The mathematical content of a [`AvSession`].
pub struct AvSessionView {
    pub id: Seq<char>,
    pub channel: Option<Seq<char>>,
    pub created_by: Seq<char>,
    pub created_by_nick: Seq<char>,
    pub created_at: i64,
    pub state: AvSessionStateView,
    pub participants: Seq<(Seq<char>, AvParticipantView)>,
    pub title: Option<Seq<char>>,
    pub iroh_ticket: Option<Seq<char>>,
    pub media_backend: MediaBackendType,
    pub recording_enabled: bool,
    pub max_participants: Option<u32>,
}

/// A session.
#[derive(Debug)]
pub struct AvSession {
    pub id: AvSessionId,
    /// Channel this session is bound to (None for ad-hoc / DM calls).
    pub channel: Option<String>,
    /// DID of the user who created the session.
    pub created_by: String,
    /// Nick of the creator (for display).
    pub created_by_nick: String,
    pub created_at: i64,
    pub state: AvSessionState,
    /// DID → participant info.
    pub participants: StrMap<AvParticipant>,
    pub title: Option<String>,
    /// iroh-live connection ticket (opaque string, passed to clients).
    pub iroh_ticket: Option<String>,
    pub media_backend: MediaBackendType,
    pub recording_enabled: bool,
    pub max_participants: Option<u32>,
}

impl DeepView for AvSession {
    type V = AvSessionView;

    open spec fn deep_view(&self) -> AvSessionView {
        AvSessionView {
            id: self.id.deep_view(),
            channel: self.channel.deep_view(),
            created_by: self.created_by.deep_view(),
            created_by_nick: self.created_by_nick.deep_view(),
            created_at: self.created_at.deep_view(),
            state: self.state.deep_view(),
            participants: self.participants.deep_view(),
            title: self.title.deep_view(),
            iroh_ticket: self.iroh_ticket.deep_view(),
            media_backend: self.media_backend.deep_view(),
            recording_enabled: self.recording_enabled.deep_view(),
            max_participants: self.max_participants.deep_view(),
        }
    }
}

impl Dup for AvSession {
    fn dup(&self) -> (r: AvSession) {
        AvSession {
            id: self.id.dup(),
            channel: self.channel.dup(),
            created_by: self.created_by.dup(),
            created_by_nick: self.created_by_nick.dup(),
            created_at: self.created_at.dup(),
            state: self.state.dup(),
            participants: self.participants.dup(),
            title: self.title.dup(),
            iroh_ticket: self.iroh_ticket.dup(),
            media_backend: self.media_backend.dup(),
            recording_enabled: self.recording_enabled.dup(),
            max_participants: self.max_participants.dup(),
        }
    }
}

// ── Artifacts ───────────────────────────────────────────────────────

/// What an artifact holds.
#[derive(Debug, Clone, Copy, PartialEq, Eq, Structural)]
pub enum ArtifactKind {
    Transcript,
    Summary,
    Recording,
    Decisions,
    Tasks,
}

impl DeepView for ArtifactKind {
    type V = ArtifactKind;

    open spec fn deep_view(&self) -> ArtifactKind {
        *self
    }
}

impl Dup for ArtifactKind {
    fn dup(&self) -> (r: ArtifactKind) {
        *self
    }
}

/// Who may see an artifact.
#[derive(Debug, Clone, Copy, PartialEq, Eq, Structural)]
pub enum ArtifactVisibility {
    Participants,
    Channel,
    Public,
}

impl DeepView for ArtifactVisibility {
    type V = ArtifactVisibility;

    open spec fn deep_view(&self) -> ArtifactVisibility {
        *self
    }
}

impl Dup for ArtifactVisibility {
    fn dup(&self) -> (r: ArtifactVisibility) {
        *self
    }
}

/// The mathematical content of a [`AvArtifact`].
pub struct AvArtifactView {
    pub id: Seq<char>,
    pub session_id: Seq<char>,
    pub kind: ArtifactKind,
    pub created_at: i64,
    pub created_by: Option<Seq<char>>,
    pub content_ref: Seq<char>,
    pub content_type: Seq<char>,
    pub visibility: ArtifactVisibility,
    pub title: Option<Seq<char>>,
}

/// Something made of a session.
#[derive(Debug)]
pub struct AvArtifact {
    pub id: String,
    pub session_id: AvSessionId,
    pub kind: ArtifactKind,
    pub created_at: i64,
    /// DID of creator (None = system-generated).
    pub created_by: Option<String>,
    /// PDS blob CID or URL.
    pub content_ref: String,
    pub content_type: String,
    pub visibility: ArtifactVisibility,
    /// Human-readable title or filename.
    pub title: Option<String>,
}

impl DeepView for AvArtifact {
    type V = AvArtifactView;

    open spec fn deep_view(&self) -> AvArtifactView {
        AvArtifactView {
            id: self.id.deep_view(),
            session_id: self.session_id.deep_view(),
            kind: self.kind.deep_view(),
            created_at: self.created_at.deep_view(),
            created_by: self.created_by.deep_view(),
            content_ref: self.content_ref.deep_view(),
            content_type: self.content_type.deep_view(),
            visibility: self.visibility.deep_view(),
            title: self.title.deep_view(),
        }
    }
}

impl Dup for AvArtifact {
    fn dup(&self) -> (r: AvArtifact) {
        AvArtifact {
            id: self.id.dup(),
            session_id: self.session_id.dup(),
            kind: self.kind.dup(),
            created_at: self.created_at.dup(),
            created_by: self.created_by.dup(),
            content_ref: self.content_ref.dup(),
            content_type: self.content_type.dup(),
            visibility: self.visibility.dup(),
            title: self.title.dup(),
        }
    }
}

// ── Sessions ────────────────────────────────────────────────────────

/// How many participants have not left.
pub open spec fn active_count(ps: Seq<(Seq<char>, AvParticipantView)>) -> nat
    decreases ps.len(),
{
    if ps.len() == 0 {
        0
    } else {
        active_count(ps.drop_last()) + (if ps.last().1.left_at is None {
            1nat
        } else {
            0nat
        })
    }
}

/// A participant that has left at a time, unless it had left before.
pub open spec fn gone(p: AvParticipantView, now: i64) -> AvParticipantView {
    if p.left_at is None {
        AvParticipantView { left_at: Some(now), ..p }
    } else {
        p
    }
}

/// All participants, none of them left in the session.
pub open spec fn all_gone(ps: Seq<(Seq<char>, AvParticipantView)>, now: i64) -> Seq<
    (Seq<char>, AvParticipantView),
> {
    ps.map_values(|e: (Seq<char>, AvParticipantView)| (e.0, gone(e.1, now)))
}

/// The session once it has ended.
pub open spec fn closed_session(s: AvSessionView, by: Option<Seq<char>>, now: i64) -> AvSessionView {
    AvSessionView {
        state: AvSessionStateView::Ended { ended_at: now, ended_by: by },
        participants: all_gone(s.participants, now),
        ..s
    }
}

/// Someone who comes into a session.
pub open spec fn newcomer(
    did: Seq<char>,
    nick: Seq<char>,
    now: i64,
    role: ParticipantRole,
) -> AvParticipantView {
    AvParticipantView { did, nick, joined_at: now, left_at: None, role, tracks: Seq::empty() }
}

/// The participants once someone has come in, for the first time or again.
pub open spec fn entered(
    ps: Seq<(Seq<char>, AvParticipantView)>,
    did: Seq<char>,
    nick: Seq<char>,
    now: i64,
) -> Seq<(Seq<char>, AvParticipantView)> {
    containers::map_put(
        ps,
        did,
        match containers::map_get(ps, did) {
            Some(p) => AvParticipantView { left_at: None, joined_at: now, ..p },
            None => newcomer(did, nick, now, ParticipantRole::Speaker),
        },
    )
}

/// The participants once someone has gone.
pub open spec fn left(ps: Seq<(Seq<char>, AvParticipantView)>, did: Seq<char>, now: i64) -> Seq<
    (Seq<char>, AvParticipantView),
> {
    match containers::map_get(ps, did) {
        Some(p) => containers::map_put(ps, did, AvParticipantView { left_at: Some(now), ..p }),
        None => ps,
    }
}

/// A session as it begins.
pub open spec fn new_session(
    id: Seq<char>,
    channel: Option<Seq<char>>,
    did: Seq<char>,
    nick: Seq<char>,
    title: Option<Seq<char>>,
    ticket: Option<Seq<char>>,
    now: i64,
) -> AvSessionView {
    AvSessionView {
        id,
        channel,
        created_by: did,
        created_by_nick: nick,
        created_at: now,
        state: AvSessionStateView::Active,
        participants: seq![(did, newcomer(did, nick, now, ParticipantRole::Host))],
        title,
        iroh_ticket: ticket,
        media_backend: MediaBackendType::IrohLive,
        recording_enabled: false,
        max_participants: None,
    }
}

/// How many participants have not left.
fn count_active(ps: &StrMap<AvParticipant>) -> (n: usize)
    ensures
        n == active_count(ps@),
        n <= ps@.len(),
{
    let ghost all = ps@;
    let mut n: usize = 0;
    let mut i: usize = 0;
    while i < ps.len()
        invariant
            i <= all.len(),
            all == ps@,
            n <= i,
            n == active_count(all.take(i as int)),
        decreases all.len() - i,
    {
        assert(all.take(i + 1).drop_last() =~= all.take(i as int));
        if ps.value_at(i).left_at.is_none() {
            n = n + 1;
        }
        i = i + 1;
    }
    assert(all.take(i as int) =~= all);
    n
}

/// Marks one participant as gone.
fn mark_gone(p: &mut AvParticipant, now: i64)
    ensures
        final(p).deep_view() == gone(old(p).deep_view(), now),
{
    if p.left_at.is_none() {
        p.left_at = Some(now);
    }
}

/// Marks all participants as gone.
fn mark_all_gone(ps: &mut StrMap<AvParticipant>, now: i64)
    ensures
        final(ps)@ == all_gone(old(ps)@, now),
{
    let ghost start = ps@;
    let ghost want = all_gone(start, now);
    let mut i: usize = 0;
    while i < ps.len()
        invariant
            i <= start.len(),
            ps@.len() == start.len(),
            want == all_gone(start, now),
            forall|j: int| 0 <= j < i ==> ps@[j] == want[j],
            forall|j: int| i <= j < start.len() ==> ps@[j] == start[j],
        decreases start.len() - i,
    {
        mark_gone(ps.value_at_mut(i), now);
        i = i + 1;
    }
    assert(ps@ =~= want);
}

/// Lets someone in.
fn enter(ps: &mut StrMap<AvParticipant>, did: &str, nick: &str, now: i64)
    ensures
        final(ps)@ == entered(old(ps)@, did@, nick@, now),
{
    let next = match ps.get(did) {
        Some(p) => {
            let mut q = p.dup();
            q.left_at = None;
            q.joined_at = now;
            q
        },
        None => make_newcomer(did, nick, now, ParticipantRole::Speaker),
    };
    ps.insert(did.to_owned(), next);
}

/// Someone who comes into a session.
fn make_newcomer(did: &str, nick: &str, now: i64, role: ParticipantRole) -> (p: AvParticipant)
    ensures
        p.deep_view() == newcomer(did@, nick@, now, role),
{
    let tracks: Vec<TrackInfo> = Vec::new();
    assert(tracks.deep_view() =~= Seq::<TrackInfoView>::empty());
    AvParticipant {
        did: did.to_owned(),
        nick: nick.to_owned(),
        joined_at: now,
        left_at: None,
        role,
        tracks,
    }
}

/// Lets someone go.
fn depart(ps: &mut StrMap<AvParticipant>, did: &str, now: i64)
    ensures
        final(ps)@ == left(old(ps)@, did@, now),
{
    if let Some(p) = ps.get_mut(did) {
        p.left_at = Some(now);
    }
}

/// An owned copy of an optional text.
fn own(o: Option<&str>) -> (r: Option<String>)
    ensures
        r.deep_view() == o.deep_view(),
{
    match o {
        Some(s) => Some(s.to_owned()),
        None => None,
    }
}

/// A session as it begins.
fn make_session(
    id: &str,
    channel: Option<&str>,
    did: &str,
    nick: &str,
    title: Option<&str>,
    ticket: Option<&str>,
    now: i64,
) -> (s: AvSession)
    ensures
        s.deep_view() == new_session(
            id@,
            channel.deep_view(),
            did@,
            nick@,
            title.deep_view(),
            ticket.deep_view(),
            now,
        ),
{
    let mut participants: StrMap<AvParticipant> = StrMap::new();
    participants.insert(did.to_owned(), make_newcomer(did, nick, now, ParticipantRole::Host));
    assert(participants@ =~= seq![(did@, newcomer(did@, nick@, now, ParticipantRole::Host))]);
    AvSession {
        id: id.to_owned(),
        channel: own(channel),
        created_by: did.to_owned(),
        created_by_nick: nick.to_owned(),
        created_at: now,
        state: AvSessionState::Active,
        participants,
        title: own(title),
        iroh_ticket: own(ticket),
        media_backend: MediaBackendType::IrohLive,
        recording_enabled: false,
        max_participants: None,
    }
}

// ── Session manager ─────────────────────────────────────────────────

/// The mathematical content of a [`AvSessionManager`].
pub struct AvSessionManagerView {
    pub sessions: Seq<(Seq<char>, AvSessionView)>,
    pub channel_sessions: Seq<(Seq<char>, Seq<char>)>,
}

/// Manages all active AV sessions.
#[derive(Debug)]
pub struct AvSessionManager {
    /// Active + recently ended sessions.
    pub sessions: StrMap<AvSession>,
    /// Channel → active session ID (at most one active session per channel).
    pub channel_sessions: StrMap<AvSessionId>,
}

impl DeepView for AvSessionManager {
    type V = AvSessionManagerView;

    open spec fn deep_view(&self) -> AvSessionManagerView {
        AvSessionManagerView {
            sessions: self.sessions.deep_view(),
            channel_sessions: self.channel_sessions.deep_view(),
        }
    }
}

impl AvSessionManagerView {
    /// The session of an ID.
    pub open spec fn session(self, id: Seq<char>) -> Option<AvSessionView> {
        containers::map_get(self.sessions, id)
    }

    /// The session that is going on in a channel, as far as the index knows.
    pub open spec fn in_channel(self, channel: Seq<char>) -> Option<AvSessionView> {
        match containers::map_get(self.channel_sessions, text::lowercase(channel)) {
            Some(id) => match self.session(id) {
                Some(s) => if s.state is Active {
                    Some(s)
                } else {
                    None
                },
                None => None,
            },
            None => None,
        }
    }

    /// The manager with another session under an ID.
    pub open spec fn with_session(self, id: Seq<char>, s: AvSessionView) -> AvSessionManagerView {
        AvSessionManagerView { sessions: containers::map_put(self.sessions, id, s), ..self }
    }

    /// The manager once a session has ended: if the index leads to it, it does no longer. A session
    /// that goes on in the same channel stays indexed.
    pub open spec fn ended(self, id: Seq<char>, by: Option<Seq<char>>, now: i64) -> AvSessionManagerView {
        match self.session(id) {
            Some(s) => AvSessionManagerView {
                sessions: containers::map_put(self.sessions, id, closed_session(s, by, now)),
                channel_sessions: match s.channel {
                    Some(ch) if containers::map_get(self.channel_sessions, text::lowercase(ch)) == Some(
                        id,
                    ) => containers::map_del(self.channel_sessions, text::lowercase(ch)),
                    _ => self.channel_sessions,
                },
            },
            None => self,
        }
    }

    /// The manager once a session has begun.
    pub open spec fn begun(self, s: AvSessionView) -> AvSessionManagerView {
        AvSessionManagerView {
            sessions: containers::map_put(self.sessions, s.id, s),
            channel_sessions: match s.channel {
                Some(ch) => containers::map_put(
                    self.channel_sessions,
                    text::lowercase(ch),
                    s.id,
                ),
                None => self.channel_sessions,
            },
        }
    }

    /// The session that keeps a channel, or that is only left over in it.
    pub open spec fn occupant(self, channel: Option<Seq<char>>) -> Option<(Seq<char>, AvSessionView)> {
        match channel {
            Some(ch) => match containers::map_get(self.channel_sessions, text::lowercase(ch)) {
                Some(id) => match self.session(id) {
                    Some(s) => if s.state is Active {
                        Some((id, s))
                    } else {
                        None
                    },
                    None => None,
                },
                None => None,
            },
            None => None,
        }
    }

    /// Why no session can begin in a channel, if none can: people are in one.
    pub open spec fn create_refusal(self, channel: Option<Seq<char>>) -> Option<Seq<char>> {
        match self.occupant(channel) {
            Some((id, s)) => if active_count(s.participants) > 0 {
                Some("Channel "@ + channel->0 + " already has an active session: "@ + id)
            } else {
                None
            },
            None => None,
        }
    }

    /// The manager once what is left over in a channel has been ended.
    pub open spec fn cleared(self, channel: Option<Seq<char>>, by: Seq<char>, now: i64) -> AvSessionManagerView {
        match self.occupant(channel) {
            Some((id, _)) => self.ended(id, Some(by), now),
            None => self,
        }
    }

    /// Why someone cannot come into a session, if it cannot.
    pub open spec fn join_refusal(self, id: Seq<char>) -> Option<Seq<char>> {
        match self.session(id) {
            None => Some("Session "@ + id + " not found"@),
            Some(s) => if !(s.state is Active) {
                Some("Session has ended"@)
            } else {
                match s.max_participants {
                    Some(max) => if active_count(s.participants) >= max {
                        Some("Session is full"@)
                    } else {
                        None
                    },
                    None => None,
                }
            },
        }
    }

    /// The manager once someone has come into a session, if there is one.
    pub open spec fn joined(
        self,
        id: Seq<char>,
        did: Seq<char>,
        nick: Seq<char>,
        now: i64,
    ) -> AvSessionManagerView {
        match self.session(id) {
            Some(s) => self.with_session(
                id,
                AvSessionView { participants: entered(s.participants, did, nick, now), ..s },
            ),
            None => self,
        }
    }

    /// The manager once someone has gone from a session, if there is one.
    pub open spec fn departed(self, id: Seq<char>, did: Seq<char>, now: i64) -> AvSessionManagerView {
        match self.session(id) {
            Some(s) => self.with_session(
                id,
                AvSessionView { participants: left(s.participants, did, now), ..s },
            ),
            None => self,
        }
    }

    /// Whether nobody is left in a session once someone has gone.
    pub open spec fn emptied(self, id: Seq<char>, did: Seq<char>, now: i64) -> bool {
        match self.session(id) {
            Some(s) => active_count(left(s.participants, did, now)) == 0,
            None => false,
        }
    }

    /// The manager once someone has gone, with the session ended if nobody is left in it.
    pub open spec fn abandoned(self, id: Seq<char>, did: Seq<char>, now: i64) -> AvSessionManagerView {
        if self.emptied(id, did, now) {
            self.departed(id, did, now).ended(id, Some(did), now)
        } else {
            self.departed(id, did, now)
        }
    }

    /// Whether someone is in a session that is going on.
    pub open spec fn takes_part(s: AvSessionView, did: Seq<char>) -> bool {
        s.state is Active && match containers::map_get(s.participants, did) {
            Some(p) => p.left_at is None,
            None => false,
        }
    }

    /// The sessions of someone.
    pub open spec fn sessions_of(self, did: Seq<char>) -> Seq<Seq<char>> {
        ids_with(self.sessions, did)
    }

    /// The nick of someone in a session.
    pub open spec fn nick_in(self, id: Seq<char>, did: Seq<char>) -> Seq<char> {
        match self.session(id) {
            Some(s) => match containers::map_get(s.participants, did) {
                Some(p) => p.nick,
                None => ""@,
            },
            None => ""@,
        }
    }

    /// The manager once someone has gone from several sessions, one after the other, and what
    /// became of each: its ID, its channel, the nick, and whether it has ended.
    pub open spec fn abandoned_all(self, ids: Seq<Seq<char>>, did: Seq<char>, now: i64) -> (
        AvSessionManagerView,
        Seq<(Seq<char>, Option<Seq<char>>, Seq<char>, bool)>,
    )
        decreases ids.len(),
    {
        if ids.len() == 0 {
            (self, Seq::empty())
        } else {
            let before = self.abandoned_all(ids.drop_last(), did, now);
            let id = ids.last();
            match before.0.session(id) {
                Some(s) => (
                    before.0.abandoned(id, did, now),
                    before.1.push(
                        (
                            id,
                            s.channel,
                            before.0.nick_in(id, did),
                            before.0.emptied(id, did, now),
                        ),
                    ),
                ),
                None => before,
            }
        }
    }

    /// The manager without the sessions that ended long ago.
    pub open spec fn pruned(self, max_age_secs: i64, now: i64) -> AvSessionManagerView {
        AvSessionManagerView {
            sessions: self.sessions.filter(
                |e: (Seq<char>, AvSessionView)| recent(e.1, max_age_secs, now),
            ),
            ..self
        }
    }
}

/// The IDs of the sessions that someone is in.
pub open spec fn ids_with(sessions: Seq<(Seq<char>, AvSessionView)>, did: Seq<char>) -> Seq<
    Seq<char>,
>
    decreases sessions.len(),
{
    if sessions.len() == 0 {
        Seq::empty()
    } else {
        let before = ids_with(sessions.drop_last(), did);
        if AvSessionManagerView::takes_part(sessions.last().1, did) {
            before.push(sessions.last().0)
        } else {
            before
        }
    }
}

/// The sessions that are going on.
pub open spec fn going_on(sessions: Seq<(Seq<char>, AvSessionView)>) -> Seq<AvSessionView>
    decreases sessions.len(),
{
    if sessions.len() == 0 {
        Seq::empty()
    } else {
        let before = going_on(sessions.drop_last());
        if sessions.last().1.state is Active {
            before.push(sessions.last().1)
        } else {
            before
        }
    }
}

/// Whether a session is going on or has ended within the given time.
pub open spec fn recent(s: AvSessionView, max_age_secs: i64, now: i64) -> bool {
    match s.state {
        AvSessionStateView::Active => true,
        AvSessionStateView::Ended { ended_at, .. } => now - ended_at < max_age_secs,
    }
}

/// `ulid::Ulid::new` and `to_string`: an identifier of 26 characters that nothing else determines.
#[verifier::external_body]
pub(crate) fn new_ulid() -> (r: String)
    ensures
        r@.len() == 26,
{
    ulid::Ulid::new().to_string()
}

/// Whether a session is going on.
fn is_active(s: &AvSession) -> (b: bool)
    ensures
        b == (s.deep_view().state is Active),
{
    match &s.state {
        AvSessionState::Active => true,
        AvSessionState::Ended { .. } => false,
    }
}

/// Whether someone is in a session that is going on.
fn is_taking_part(s: &AvSession, did: &str) -> (b: bool)
    ensures
        b == AvSessionManagerView::takes_part(s.deep_view(), did@),
{
    is_active(s) && match s.participants.get(did) {
        Some(p) => p.left_at.is_none(),
        None => false,
    }
}

impl AvSessionManager {
    /// A manager without sessions.
    pub fn new() -> (m: AvSessionManager)
        ensures
            m.deep_view() == (AvSessionManagerView {
                sessions: Seq::empty(),
                channel_sessions: Seq::empty(),
            }),
    {
        AvSessionManager { sessions: StrMap::new(), channel_sessions: StrMap::new() }
    }

    /// Create a new session with the given ID at the given time. Returns the session or an error
    /// message.
    pub fn create_session_at(
        &mut self,
        id: &str,
        channel: Option<&str>,
        creator_did: &str,
        creator_nick: &str,
        title: Option<&str>,
        now: i64,
    ) -> (r: Result<AvSession, String>)
        ensures
            match old(self).deep_view().create_refusal(channel.deep_view()) {
                Some(e) => r is Err && r->Err_0@ == e && final(self).deep_view() == old(
                    self,
                ).deep_view(),
                None => {
                    let s = new_session(
                        id@,
                        channel.deep_view(),
                        creator_did@,
                        creator_nick@,
                        title.deep_view(),
                        None,
                        now,
                    );
                    &&& r is Ok
                    &&& r->Ok_0.deep_view() == s
                    &&& final(self).deep_view() == old(self).deep_view().cleared(
                        channel.deep_view(),
                        creator_did@,
                        now,
                    ).begun(s)
                },
            },
    {
        let found = self.find_occupant(channel);
        if let Some((existing, crowded)) = found {
            if crowded {
                let name = match channel {
                    Some(ch) => ch,
                    None => "",
                };
                return Err(
                    Line::new("Channel ").add(name).add(" already has an active session: ").add(
                        existing.as_str(),
                    ).done(),
                );
            }
            let by = Some(creator_did);
            assert(by.deep_view() == Some(creator_did@));
            self.end_session_inner(existing.as_str(), by, now);
        }
        let s = make_session(id, channel, creator_did, creator_nick, title, None, now);
        self.begin(s.dup());
        Ok(s)
    }

    /// The session that is going on in a channel, and whether anyone is in it.
    fn find_occupant(&self, channel: Option<&str>) -> (r: Option<(String, bool)>)
        ensures
            match self.deep_view().occupant(channel.deep_view()) {
                Some((id, s)) => r matches Some((i, crowded)) && i@ == id && crowded == (
                active_count(s.participants) > 0),
                None => r is None,
            },
    {
        let ch = match channel {
            Some(ch) => to_lowercase(ch),
            None => {
                return None;
            },
        };
        let id = match self.channel_sessions.get(ch.as_str()) {
            Some(id) => id,
            None => {
                return None;
            },
        };
        match self.sessions.get(id.as_str()) {
            Some(s) => if is_active(s) {
                Some((id.clone(), count_active(&s.participants) > 0))
            } else {
                None
            },
            None => None,
        }
    }

    /// Takes in a session that begins.
    fn begin(&mut self, s: AvSession)
        ensures
            final(self).deep_view() == old(self).deep_view().begun(s.deep_view()),
    {
        let id = s.id.clone();
        let ch = match &s.channel {
            Some(ch) => Some(to_lowercase(ch.as_str())),
            None => None,
        };
        self.sessions.insert(id.clone(), s);
        if let Some(c) = ch {
            self.channel_sessions.insert(c, id);
        }
    }

    /// Create a new session. Returns the session or an error message.
    pub fn create_session(
        &mut self,
        channel: Option<&str>,
        creator_did: &str,
        creator_nick: &str,
        title: Option<&str>,
    ) -> (r: Result<AvSession, String>)
        ensures
            match old(self).deep_view().create_refusal(channel.deep_view()) {
                Some(e) => r is Err && r->Err_0@ == e && final(self).deep_view() == old(
                    self,
                ).deep_view(),
                None => {
                    let s = new_session(
                        r->Ok_0.id@,
                        channel.deep_view(),
                        creator_did@,
                        creator_nick@,
                        title.deep_view(),
                        None,
                        r->Ok_0.created_at,
                    );
                    &&& r is Ok
                    &&& r->Ok_0.id@.len() == 26
                    &&& r->Ok_0.deep_view() == s
                    &&& final(self).deep_view() == old(self).deep_view().cleared(
                        channel.deep_view(),
                        creator_did@,
                        r->Ok_0.created_at,
                    ).begun(s)
                },
            },
    {
        let id = new_ulid();
        let now: i64 = unix_now();
        let r = self.create_session_at(
            id.as_str(),
            channel,
            creator_did,
            creator_nick,
            title,
            now,
        );
        proof {
            if let Ok(s) = &r {
                assert(s.deep_view().id == s.id@);
                assert(s.deep_view().created_at == s.created_at);
            }
        }
        r
    }

    /// Join an existing session at the given time. Returns updated session or error.
    pub fn join_session_at(
        &mut self,
        session_id: &str,
        did: &str,
        nick: &str,
        now: i64,
    ) -> (r: Result<AvSession, String>)
        ensures
            match old(self).deep_view().join_refusal(session_id@) {
                Some(e) => r is Err && r->Err_0@ == e && final(self).deep_view() == old(
                    self,
                ).deep_view(),
                None => r is Ok && final(self).deep_view() == old(self).deep_view().joined(
                    session_id@,
                    did@,
                    nick@,
                    now,
                ) && Some(r->Ok_0.deep_view()) == final(self).deep_view().session(session_id@),
            },
    {
        broadcast use crate::containers::lemma_map_put_get;

        match self.sessions.get(session_id) {
            None => {
                return Err(Line::new("Session ").add(session_id).add(" not found").done());
            },
            Some(s) => {
                if !is_active(s) {
                    return Err("Session has ended".to_owned());
                }
                if let Some(max) = s.max_participants {
                    if count_active(&s.participants) as u64 >= max as u64 {
                        return Err("Session is full".to_owned());
                    }
                }
            },
        }
        self.let_in(session_id, did, nick, now);
        match self.sessions.get(session_id) {
            Some(s) => Ok(s.dup()),
            None => Err("".to_owned()),
        }
    }

    /// Lets someone into a session, if there is one.
    fn let_in(&mut self, session_id: &str, did: &str, nick: &str, now: i64)
        ensures
            final(self).deep_view() == old(self).deep_view().joined(session_id@, did@, nick@, now),
    {
        if let Some(s) = self.sessions.get_mut(session_id) {
            enter(&mut s.participants, did, nick, now);
        }
    }

    /// Join an existing session. Returns updated session or error.
    pub fn join_session(&mut self, session_id: &str, did: &str, nick: &str) -> (r: Result<
        AvSession,
        String,
    >)
        ensures
            match old(self).deep_view().join_refusal(session_id@) {
                Some(e) => r is Err && r->Err_0@ == e && final(self).deep_view() == old(
                    self,
                ).deep_view(),
                None => r is Ok && (exists|now: i64|
                    final(self).deep_view() == #[trigger] old(self).deep_view().joined(
                        session_id@,
                        did@,
                        nick@,
                        now,
                    )) && Some(r->Ok_0.deep_view()) == final(self).deep_view().session(
                    session_id@,
                ),
            },
    {
        let now: i64 = unix_now();
        self.join_session_at(session_id, did, nick, now)
    }

    /// Leave a session at the given time. Returns (session, should_end) — session ends if no
    /// active participants remain.
    pub fn leave_session_at(&mut self, session_id: &str, did: &str, now: i64) -> (r: Result<
        (AvSession, bool),
        String,
    >)
        ensures
            match old(self).deep_view().session(session_id@) {
                Some(s) => r is Ok && final(self).deep_view() == old(self).deep_view().abandoned(
                    session_id@,
                    did@,
                    now,
                ) && Some(r->Ok_0.0.deep_view()) == final(self).deep_view().session(session_id@)
                    && r->Ok_0.1 == old(self).deep_view().emptied(session_id@, did@, now)
                    && r->Ok_0.0.deep_view().channel == s.channel,
                None => r is Err && r->Err_0@ == "Session "@ + session_id@ + " not found"@
                    && final(self).deep_view() == old(self).deep_view(),
            },
    {
        broadcast use crate::containers::lemma_map_put_get;

        if !self.sessions.contains_key(session_id) {
            return Err(Line::new("Session ").add(session_id).add(" not found").done());
        }
        self.let_go(session_id, did, now);
        let should_end = self.active_participant_count(session_id) == 0;
        if should_end {
            let by = Some(did);
            assert(by.deep_view() == Some(did@));
            self.end_session_inner(session_id, by, now);
        }
        match self.sessions.get(session_id) {
            Some(s) => Ok((s.dup(), should_end)),
            None => Err("".to_owned()),
        }
    }

    /// Lets someone go from a session, if there is one.
    fn let_go(&mut self, session_id: &str, did: &str, now: i64)
        ensures
            final(self).deep_view() == old(self).deep_view().departed(session_id@, did@, now),
    {
        if let Some(s) = self.sessions.get_mut(session_id) {
            depart(&mut s.participants, did, now);
        }
    }

    /// Leave a session. Returns (session, should_end) — session ends if no active participants
    /// remain.
    pub fn leave_session(&mut self, session_id: &str, did: &str) -> (r: Result<
        (AvSession, bool),
        String,
    >)
        ensures
            match old(self).deep_view().session(session_id@) {
                Some(s) => r is Ok && (exists|now: i64|
                    final(self).deep_view() == #[trigger] old(self).deep_view().abandoned(
                        session_id@,
                        did@,
                        now,
                    ) && r->Ok_0.1 == old(self).deep_view().emptied(session_id@, did@, now))
                    && Some(r->Ok_0.0.deep_view()) == final(self).deep_view().session(session_id@),
                None => r is Err && r->Err_0@ == "Session "@ + session_id@ + " not found"@
                    && final(self).deep_view() == old(self).deep_view(),
            },
    {
        let now: i64 = unix_now();
        self.leave_session_at(session_id, did, now)
    }

    /// End a session at the given time (host or channel ops).
    pub fn end_session_at(&mut self, session_id: &str, ended_by: Option<&str>, now: i64) -> (r:
        Result<AvSession, String>)
        ensures
            final(self).deep_view() == old(self).deep_view().ended(
                session_id@,
                ended_by.deep_view(),
                now,
            ),
            match old(self).deep_view().session(session_id@) {
                Some(s) => r is Ok && r->Ok_0.deep_view() == closed_session(
                    s,
                    ended_by.deep_view(),
                    now,
                ),
                None => r is Err && r->Err_0@ == "Session "@ + session_id@ + " not found"@,
            },
    {
        broadcast use crate::containers::lemma_map_put_get;

        self.end_session_inner(session_id, ended_by, now);
        match self.sessions.get(session_id) {
            Some(s) => Ok(s.dup()),
            None => Err(Line::new("Session ").add(session_id).add(" not found").done()),
        }
    }

    /// End a session (host or channel ops).
    pub fn end_session(&mut self, session_id: &str, ended_by: Option<&str>) -> (r: Result<
        AvSession,
        String,
    >)
        ensures
            match old(self).deep_view().session(session_id@) {
                Some(s) => r is Ok && (exists|now: i64|
                    r->Ok_0.deep_view() == #[trigger] closed_session(
                        s,
                        ended_by.deep_view(),
                        now,
                    ) && final(self).deep_view() == old(self).deep_view().ended(
                        session_id@,
                        ended_by.deep_view(),
                        now,
                    )),
                None => r is Err && r->Err_0@ == "Session "@ + session_id@ + " not found"@
                    && final(self).deep_view() == old(self).deep_view(),
            },
    {
        let now: i64 = unix_now();
        self.end_session_at(session_id, ended_by, now)
    }

    /// Ends a session, if there is one.
    fn end_session_inner(&mut self, session_id: &str, ended_by: Option<&str>, now: i64)
        ensures
            final(self).deep_view() == old(self).deep_view().ended(
                session_id@,
                ended_by.deep_view(),
                now,
            ),
    {
        let mut channel: Option<String> = None;
        if let Some(s) = self.sessions.get_mut(session_id) {
            s.state = AvSessionState::Ended { ended_at: now, ended_by: own(ended_by) };
            mark_all_gone(&mut s.participants, now);
            channel = match &s.channel {
                Some(ch) => Some(to_lowercase(ch.as_str())),
                None => None,
            };
        }
        if let Some(ch) = channel {
            let indexed = match self.channel_sessions.get(ch.as_str()) {
                Some(id) => str_eq(id.as_str(), session_id),
                None => false,
            };
            if indexed {
                self.channel_sessions.remove(ch.as_str());
            }
        }
    }

    /// Get session by ID.
    pub fn get(&self, session_id: &str) -> (r: Option<&AvSession>)
        ensures
            r.deep_view() == self.deep_view().session(session_id@),
    {
        self.sessions.get(session_id)
    }

    /// Get active session for a channel.
    pub fn active_session_for_channel(&self, channel: &str) -> (r: Option<&AvSession>)
        ensures
            r.deep_view() == self.deep_view().in_channel(channel@),
    {
        let lower = to_lowercase(channel);
        match self.channel_sessions.get(lower.as_str()) {
            Some(id) => match self.sessions.get(id.as_str()) {
                Some(s) => if is_active(s) {
                    Some(s)
                } else {
                    None
                },
                None => None,
            },
            None => None,
        }
    }

    /// List all active sessions.
    pub fn active_sessions(&self) -> (r: Vec<&AvSession>)
        ensures
            r.deep_view() == going_on(self.deep_view().sessions),
    {
        let ghost all = self.sessions@;
        let mut out: Vec<&AvSession> = Vec::new();
        let mut i: usize = 0;
        assert(out.deep_view() =~= going_on(all.take(0)));
        while i < self.sessions.len()
            invariant
                i <= all.len(),
                all == self.sessions@,
                out.deep_view() == going_on(all.take(i as int)),
            decreases all.len() - i,
        {
            assert(all.take(i + 1).drop_last() =~= all.take(i as int));
            let ghost before = out.deep_view();
            let s = self.sessions.value_at(i);
            if is_active(s) {
                out.push(s);
                assert(out.deep_view() =~= before.push(s.deep_view()));
            }
            i = i + 1;
        }
        assert(all.take(i as int) =~= all);
        out
    }

    /// Get active participant count for a session.
    pub fn active_participant_count(&self, session_id: &str) -> (n: usize)
        ensures
            n == (match self.deep_view().session(session_id@) {
                Some(s) => active_count(s.participants),
                None => 0,
            }),
    {
        match self.sessions.get(session_id) {
            Some(s) => count_active(&s.participants),
            None => 0,
        }
    }

    /// Check if a DID can end a session (must have created it, or be a host of it).
    pub fn can_end_session(&self, session_id: &str, did: &str) -> (b: bool)
        ensures
            b == (match self.deep_view().session(session_id@) {
                Some(s) => s.created_by == did@ || match containers::map_get(
                    s.participants,
                    did@,
                ) {
                    Some(p) => p.role == ParticipantRole::Host,
                    None => false,
                },
                None => false,
            }),
    {
        match self.sessions.get(session_id) {
            Some(s) => str_eq(s.created_by.as_str(), did) || match s.participants.get(did) {
                Some(p) => p.role == ParticipantRole::Host,
                None => false,
            },
            None => false,
        }
    }

    /// Apply a remote session event (from S2S federation). A session that is known stays as it is.
    pub fn apply_remote_session_created(
        &mut self,
        id: &str,
        channel: Option<&str>,
        created_by_did: &str,
        created_by_nick: &str,
        title: Option<&str>,
        iroh_ticket: Option<&str>,
        created_at: i64,
    )
        ensures
            final(self).deep_view() == (if old(self).deep_view().session(id@) is Some {
                old(self).deep_view()
            } else {
                old(self).deep_view().begun(
                    new_session(
                        id@,
                        channel.deep_view(),
                        created_by_did@,
                        created_by_nick@,
                        title.deep_view(),
                        iroh_ticket.deep_view(),
                        created_at,
                    ),
                )
            }),
    {
        if self.sessions.contains_key(id) {
            return;
        }
        let s = make_session(
            id,
            channel,
            created_by_did,
            created_by_nick,
            title,
            iroh_ticket,
            created_at,
        );
        self.begin(s);
    }

    /// Apply a remote join.
    pub fn apply_remote_session_joined(&mut self, session_id: &str, did: &str, nick: &str)
        ensures
            exists|now: i64|
                final(self).deep_view() == #[trigger] old(self).deep_view().joined(
                    session_id@,
                    did@,
                    nick@,
                    now,
                ),
    {
        let now: i64 = unix_now();
        self.let_in(session_id, did, nick, now);
    }

    /// Apply a remote departure.
    pub fn apply_remote_session_left(&mut self, session_id: &str, did: &str)
        ensures
            exists|now: i64|
                final(self).deep_view() == #[trigger] old(self).deep_view().departed(
                    session_id@,
                    did@,
                    now,
                ),
    {
        let now: i64 = unix_now();
        self.let_go(session_id, did, now);
    }

    /// Apply the end of a remote session.
    pub fn apply_remote_session_ended(&mut self, session_id: &str, ended_by: Option<&str>)
        ensures
            exists|now: i64|
                final(self).deep_view() == #[trigger] old(self).deep_view().ended(
                    session_id@,
                    ended_by.deep_view(),
                    now,
                ),
    {
        let now: i64 = unix_now();
        self.end_session_inner(session_id, ended_by, now);
    }

    /// The sessions of someone.
    fn list_sessions_of(&self, did: &str) -> (r: Vec<String>)
        ensures
            r.deep_view() == self.deep_view().sessions_of(did@),
    {
        let ghost all = self.sessions@;
        let mut out: Vec<String> = Vec::new();
        let mut i: usize = 0;
        assert(out.deep_view() =~= ids_with(all.take(0), did@));
        while i < self.sessions.len()
            invariant
                i <= all.len(),
                all == self.sessions@,
                out.deep_view() == ids_with(all.take(i as int), did@),
            decreases all.len() - i,
        {
            assert(all.take(i + 1).drop_last() =~= all.take(i as int));
            let ghost before = out.deep_view();
            if is_taking_part(self.sessions.value_at(i), did) {
                let id = self.sessions.key_at(i).clone();
                out.push(id);
                assert(out.deep_view() =~= before.push(id@));
            }
            i = i + 1;
        }
        assert(all.take(i as int) =~= all);
        out
    }

    /// The nick of someone in a session.
    fn find_nick(&self, session_id: &str, did: &str) -> (r: String)
        ensures
            r@ == self.deep_view().nick_in(session_id@, did@),
    {
        match self.sessions.get(session_id) {
            Some(s) => match s.participants.get(did) {
                Some(p) => p.nick.clone(),
                None => "".to_owned(),
            },
            None => "".to_owned(),
        }
    }

    /// Leave all active sessions for a DID at the given time. Returns for each its ID, its channel,
    /// the nick, and whether it has ended.
    pub fn leave_all_for_did_at(&mut self, did: &str, now: i64) -> (r: Vec<
        (String, Option<String>, String, bool),
    >)
        ensures
            ({
                let want = old(self).deep_view().abandoned_all(
                    old(self).deep_view().sessions_of(did@),
                    did@,
                    now,
                );
                &&& final(self).deep_view() == want.0
                &&& r.deep_view() == want.1
            }),
    {
        let ids = self.list_sessions_of(did);
        let ghost m = self.deep_view();
        let ghost all = ids.deep_view();
        let mut out: Vec<(String, Option<String>, String, bool)> = Vec::new();
        let mut i: usize = 0;
        assert(out.deep_view() =~= m.abandoned_all(all.take(0), did@, now).1);
        while i < ids.len()
            invariant
                i <= all.len(),
                all == ids.deep_view(),
                ids@.len() == all.len(),
                self.deep_view() == m.abandoned_all(all.take(i as int), did@, now).0,
                out.deep_view() == m.abandoned_all(all.take(i as int), did@, now).1,
            decreases all.len() - i,
        {
            assert(all.take(i + 1).drop_last() =~= all.take(i as int));
            let ghost before = out.deep_view();
            let id = ids[i].as_str();
            let nick = self.find_nick(id, did);
            if let Ok((session, should_end)) = self.leave_session_at(id, did, now) {
                let e = (id.to_owned(), session.channel.dup(), nick, should_end);
                out.push(e);
                assert(out.deep_view() =~= before.push(
                    (e.0@, e.1.deep_view(), e.2@, e.3),
                ));
            }
            i = i + 1;
        }
        assert(all.take(i as int) =~= all);
        out
    }

    /// Leave all active sessions for a DID. Returns vec of (session_id, channel, nick, should_end).
    pub fn leave_all_for_did(&mut self, did: &str) -> (r: Vec<
        (String, Option<String>, String, bool),
    >)
        ensures
            exists|now: i64|
                {
                    let want = #[trigger] old(self).deep_view().abandoned_all(
                        old(self).deep_view().sessions_of(did@),
                        did@,
                        now,
                    );
                    &&& final(self).deep_view() == want.0
                    &&& r.deep_view() == want.1
                },
    {
        let now: i64 = unix_now();
        self.leave_all_for_did_at(did, now)
    }

    /// Prune ended sessions older than `max_age_secs` at the given time.
    pub fn prune_ended_at(&mut self, max_age_secs: i64, now: i64)
        ensures
            final(self).deep_view() == old(self).deep_view().pruned(max_age_secs, now),
    {
        let ghost all = self.sessions@;
        let ghost keep = |e: (Seq<char>, AvSessionView)| recent(e.1, max_age_secs, now);
        let ghost index = self.channel_sessions@;
        let ghost mut seen: int = 0;
        let mut i: usize = 0;
        assert(all.take(0).filter(keep) =~= Seq::<(Seq<char>, AvSessionView)>::empty()) by {
            reveal(Seq::filter);
        }
        assert(self.sessions@ =~= all.take(0).filter(keep) + all.skip(0));
        while i < self.sessions.len()
            invariant
                0 <= seen <= all.len(),
                keep == (|e: (Seq<char>, AvSessionView)| recent(e.1, max_age_secs, now)),
                i == all.take(seen).filter(keep).len(),
                self.sessions@ == all.take(seen).filter(keep) + all.skip(seen),
                self.channel_sessions@ == index,
            decreases all.len() - seen,
        {
            let ghost done = all.take(seen).filter(keep);
            let ghost cur = self.sessions@;
            assert(seen < all.len());
            assert(cur[i as int] == all[seen]);
            assert(all.take(seen + 1).drop_last() =~= all.take(seen));
            reveal(Seq::filter);
            let fresh = match &self.sessions.value_at(i).state {
                AvSessionState::Active => true,
                AvSessionState::Ended { ended_at, .. } => (now as i128 - *ended_at as i128)
                    < max_age_secs as i128,
            };
            assert(fresh == keep(all[seen]));
            if fresh {
                i = i + 1;
                assert(cur =~= done.push(all[seen]) + all.skip(seen + 1));
            } else {
                self.sessions.remove_at(i);
                assert(self.sessions@ =~= done + all.skip(seen + 1));
            }
            proof {
                seen = seen + 1;
            }
        }
        assert(all.take(seen) =~= all);
        assert(self.sessions@ =~= all.filter(keep));
    }

    /// Prune ended sessions older than `max_age_secs` from memory.
    pub fn prune_ended(&mut self, max_age_secs: i64)
        ensures
            exists|now: i64|
                final(self).deep_view() == #[trigger] old(self).deep_view().pruned(
                    max_age_secs,
                    now,
                ),
    {
        let now: i64 = unix_now();
        self.prune_ended_at(max_age_secs, now);
    }
}

// ── Laws ────────────────────────────────────────────────────────────

impl AvSessionManagerView {
    /// Whether an entry of the index is right: it leads from a channel to a session of that channel
    /// that is going on.
    pub open spec fn entry_ok(self, ch: Seq<char>) -> bool {
        match containers::map_get(self.channel_sessions, ch) {
            Some(id) => match self.session(id) {
                Some(s) => s.state is Active && match s.channel {
                    Some(c) => text::lowercase(c) == ch,
                    None => false,
                },
                None => false,
            },
            None => true,
        }
    }

    /// Whether a session is indexed if it has to be: one of a channel that is going on is.
    pub open spec fn indexed(self, id: Seq<char>) -> bool {
        match self.session(id) {
            Some(s) => s.state is Active ==> (s.channel matches Some(c) ==> containers::map_get(
                self.channel_sessions,
                text::lowercase(c),
            ) == Some(id)),
            None => true,
        }
    }

    /// The index is right: every entry of it is, and every session of a channel that is going on
    /// has one.
    pub open spec fn index_ok(self) -> bool {
        &&& forall|ch: Seq<char>| #[trigger] self.entry_ok(ch)
        &&& forall|id: Seq<char>| #[trigger] self.indexed(id)
    }
}

/// A channel has at most one session that people are in: where there is one, no other can be
/// created, and nothing changes.
pub proof fn law_occupied_channel_refuses(m: AvSessionManagerView, channel: Seq<char>)
    ensures
        m.create_refusal(Some(channel)) is Some <==> (m.in_channel(channel) matches Some(s)
            && active_count(s.participants) > 0),
{
}

/// A session that has been created for a channel is the one that is going on in it, however the
/// channel's name is written.
pub proof fn law_created_session_is_found(
    m: AvSessionManagerView,
    s: AvSessionView,
    channel: Seq<char>,
    name: Seq<char>,
)
    requires
        s.channel == Some(channel),
        s.state is Active,
        text::lowercase(name) == text::lowercase(channel),
    ensures
        m.begun(s).in_channel(name) == Some(s),
        m.begun(s).session(s.id) == Some(s),
{
    broadcast use crate::containers::lemma_map_put_get;

}

/// What has ended has nobody left in it, and its channel no longer leads to it.
pub proof fn law_ended_session_is_empty(
    m: AvSessionManagerView,
    id: Seq<char>,
    by: Option<Seq<char>>,
    now: i64,
)
    requires
        m.session(id) is Some,
    ensures
        m.ended(id, by, now).session(id) matches Some(s) && s.state == (AvSessionStateView::Ended {
            ended_at: now,
            ended_by: by,
        }) && active_count(s.participants) == 0 && forall|i: int|
            0 <= i < s.participants.len() ==> (#[trigger] s.participants[i]).1.left_at is Some,
        m.session(id)->0.channel matches Some(ch) ==> containers::map_get(
            m.ended(id, by, now).channel_sessions,
            text::lowercase(ch),
        ) != Some(id),
{
    broadcast use crate::containers::lemma_map_put_get;

    let s = m.session(id)->0;
    lemma_all_gone(s.participants, now);
    if let Some(ch) = s.channel {
        containers::lemma_map_del_get(
            m.channel_sessions,
            text::lowercase(ch),
            text::lowercase(ch),
        );
    }
}

/// The session that is going on in a channel is found until it ends itself: the end of any other,
/// be it one that had ended before, leaves it as it is.
pub proof fn law_other_ends_leave_a_session(
    m: AvSessionManagerView,
    id: Seq<char>,
    by: Option<Seq<char>>,
    now: i64,
    channel: Seq<char>,
)
    requires
        containers::map_get(m.channel_sessions, text::lowercase(channel)) != Some(id),
    ensures
        m.ended(id, by, now).in_channel(channel) == m.in_channel(channel),
{
    broadcast use crate::containers::lemma_map_put_get, crate::containers::lemma_map_del_get;

}

proof fn lemma_all_gone(ps: Seq<(Seq<char>, AvParticipantView)>, now: i64)
    ensures
        active_count(all_gone(ps, now)) == 0,
        forall|i: int|
            0 <= i < all_gone(ps, now).len() ==> (#[trigger] all_gone(ps, now)[i]).1.left_at is Some,
    decreases ps.len(),
{
    if ps.len() > 0 {
        lemma_all_gone(ps.drop_last(), now);
        assert(all_gone(ps, now).drop_last() =~= all_gone(ps.drop_last(), now));
    }
}

/// The last one to leave ends the session.
pub proof fn law_last_to_leave_ends(
    m: AvSessionManagerView,
    id: Seq<char>,
    did: Seq<char>,
    now: i64,
)
    requires
        m.emptied(id, did, now),
    ensures
        m.abandoned(id, did, now).session(id) matches Some(s) && s.state
            == (AvSessionStateView::Ended { ended_at: now, ended_by: Some(did) }) && active_count(
            s.participants,
        ) == 0,
{
    broadcast use crate::containers::lemma_map_put_get;

    law_ended_session_is_empty(m.departed(id, did, now), id, Some(did), now);
}

/// Who has left can come back: a participant that leaves and comes in again is in the session, in
/// its role, and everyone else is as before.
pub proof fn law_rejoin_after_leaving(
    ps: Seq<(Seq<char>, AvParticipantView)>,
    did: Seq<char>,
    nick: Seq<char>,
    t1: i64,
    t2: i64,
    other: Seq<char>,
)
    requires
        containers::map_get(ps, did) is Some,
        other != did,
    ensures
        containers::map_get(entered(left(ps, did, t1), did, nick, t2), did) == Some(
            AvParticipantView {
                left_at: None,
                joined_at: t2,
                ..containers::map_get(ps, did)->0
            },
        ),
        containers::map_get(entered(left(ps, did, t1), did, nick, t2), other)
            == containers::map_get(ps, other),
{
    broadcast use crate::containers::lemma_map_put_get;

}

/// The index stays right whatever happens: when a session begins under a new ID where none is going
/// on, when one ends, when people come and go, and when old sessions are dropped. What is left over
/// in a channel makes room for a new session.
pub proof fn law_index_stays_right(
    m: AvSessionManagerView,
    s: AvSessionView,
    id: Seq<char>,
    did: Seq<char>,
    nick: Seq<char>,
    by: Option<Seq<char>>,
    channel: Option<Seq<char>>,
    max_age_secs: i64,
    now: i64,
)
    requires
        containers::map_distinct(m.sessions),
        m.index_ok(),
        m.session(s.id) is None,
        s.state is Active,
    ensures
        m.occupant(s.channel) is None ==> m.begun(s).index_ok(),
        m.ended(id, by, now).index_ok(),
        m.cleared(channel, did, now).index_ok(),
        m.cleared(channel, did, now).occupant(channel) is None,
        m.joined(id, did, nick, now).index_ok(),
        m.departed(id, did, now).index_ok(),
        m.abandoned(id, did, now).index_ok(),
        m.pruned(max_age_secs, now).index_ok(),
{
    broadcast use crate::containers::lemma_map_put_get, crate::containers::lemma_map_del_get;

    lemma_ended_index(m, id, by, now);
    if let Some((o, _)) = m.occupant(channel) {
        lemma_ended_index(m, o, Some(did), now);
        assert(m.entry_ok(text::lowercase(channel->0)));
    }
    if m.occupant(s.channel) is None {
        lemma_begun_index(m, s);
    }
    lemma_people_index(m, id, did, nick, now);
    lemma_ended_index(m.departed(id, did, now), id, Some(did), now);
    lemma_pruned_index(m, max_age_secs, now);
}

proof fn lemma_begun_index(m: AvSessionManagerView, s: AvSessionView)
    requires
        m.index_ok(),
        m.session(s.id) is None,
        s.state is Active,
        m.occupant(s.channel) is None,
    ensures
        m.begun(s).index_ok(),
{
    broadcast use crate::containers::lemma_map_put_get;

    assert forall|ch: Seq<char>| #[trigger] m.begun(s).entry_ok(ch) by {
        assert(m.entry_ok(ch));
    }
    assert forall|i: Seq<char>| #[trigger] m.begun(s).indexed(i) by {
        assert(m.indexed(i));
    }
}

proof fn lemma_people_index(
    m: AvSessionManagerView,
    id: Seq<char>,
    did: Seq<char>,
    nick: Seq<char>,
    now: i64,
)
    requires
        m.index_ok(),
    ensures
        m.joined(id, did, nick, now).index_ok(),
        m.departed(id, did, now).index_ok(),
{
    broadcast use crate::containers::lemma_map_put_get;

    assert forall|ch: Seq<char>| #[trigger] m.joined(id, did, nick, now).entry_ok(ch) by {
        assert(m.entry_ok(ch));
    }
    assert forall|ch: Seq<char>| #[trigger] m.departed(id, did, now).entry_ok(ch) by {
        assert(m.entry_ok(ch));
    }
    assert forall|i: Seq<char>| #[trigger] m.joined(id, did, nick, now).indexed(i) by {
        assert(m.indexed(i));
    }
    assert forall|i: Seq<char>| #[trigger] m.departed(id, did, now).indexed(i) by {
        assert(m.indexed(i));
    }
}

proof fn lemma_pruned_index(m: AvSessionManagerView, max_age_secs: i64, now: i64)
    requires
        containers::map_distinct(m.sessions),
        m.index_ok(),
    ensures
        m.pruned(max_age_secs, now).index_ok(),
{
    let keep = |e: (Seq<char>, AvSessionView)| recent(e.1, max_age_secs, now);
    let p = m.pruned(max_age_secs, now);
    assert forall|ch: Seq<char>| #[trigger] p.entry_ok(ch) by {
        assert(m.entry_ok(ch));
        if let Some(i) = containers::map_get(m.channel_sessions, ch) {
            lemma_filter_get(m.sessions, keep, i);
        }
    }
    assert forall|i: Seq<char>| #[trigger] p.indexed(i) by {
        assert(m.indexed(i));
        if p.session(i) is Some {
            let kept = m.sessions.filter(keep);
            containers::lemma_map_find(kept, i);
            let j = containers::map_find(kept, i)->0;
            lemma_filter_member(m.sessions, keep, j);
            let n = choose|n: int| 0 <= n < m.sessions.len() && m.sessions[n] == kept[j];
            assert forall|k: int| 0 <= k < n implies (#[trigger] m.sessions[k]).0 != i by {
                assert(m.sessions[k].0 != m.sessions[n].0);
            }
            containers::lemma_map_find_is(m.sessions, i, n);
        }
    }
}

proof fn lemma_ended_index(
    m: AvSessionManagerView,
    id: Seq<char>,
    by: Option<Seq<char>>,
    now: i64,
)
    requires
        m.index_ok(),
    ensures
        m.ended(id, by, now).index_ok(),
{
    broadcast use crate::containers::lemma_map_put_get, crate::containers::lemma_map_del_get;

    assert forall|ch: Seq<char>| #[trigger] m.ended(id, by, now).entry_ok(ch) by {
        assert(m.entry_ok(ch));
        assert(m.indexed(id));
    }
    assert forall|i: Seq<char>| #[trigger] m.ended(id, by, now).indexed(i) by {
        assert(m.indexed(i));
    }
}

/// An entry that is kept is found after the others have been dropped.
proof fn lemma_filter_get(
    m: Seq<(Seq<char>, AvSessionView)>,
    keep: spec_fn((Seq<char>, AvSessionView)) -> bool,
    k: Seq<char>,
)
    requires
        containers::map_get(m, k) is Some,
        keep((k, containers::map_get(m, k)->0)),
    ensures
        containers::map_get(m.filter(keep), k) == containers::map_get(m, k),
    decreases m.len(),
{
    reveal(Seq::filter);
    containers::lemma_map_find(m, k);
    let rest = m.drop_last();
    let f = rest.filter(keep);
    containers::lemma_map_find(rest, k);
    containers::lemma_map_find(f, k);
    if containers::map_find(rest, k) is Some {
        lemma_filter_get(rest, keep, k);
        if keep(m.last()) {
            assert(m.filter(keep) == f.push(m.last()));
            assert(f.push(m.last()).drop_last() =~= f);
        }
    } else {
        assert(m.filter(keep) == f.push(m.last()));
        assert(f.push(m.last()).drop_last() =~= f);
        assert forall|j: int| 0 <= j < f.len() implies (#[trigger] f[j]).0 != k by {
            assert(rest.contains(f[j])) by {
                lemma_filter_member(rest, keep, j);
            }
        }
        containers::lemma_map_find_none(f, k);
    }
}

/// What is left of a list was in the list.
proof fn lemma_filter_member(
    m: Seq<(Seq<char>, AvSessionView)>,
    keep: spec_fn((Seq<char>, AvSessionView)) -> bool,
    j: int,
)
    requires
        0 <= j < m.filter(keep).len(),
    ensures
        m.contains(m.filter(keep)[j]),
    decreases m.len(),
{
    reveal(Seq::filter);
    if m.len() > 0 {
        let rest = m.drop_last();
        let f = rest.filter(keep);
        if j < f.len() {
            lemma_filter_member(rest, keep, j);
            let i = choose|i: int| 0 <= i < rest.len() && rest[i] == f[j];
            assert(m[i] == f[j]);
        } else {
            assert(m[m.len() - 1] == m.last());
        }
    }
}

/// Who leaves all sessions is in none of them.
pub proof fn law_leaving_all_leaves_none(
    m: AvSessionManagerView,
    did: Seq<char>,
    now: i64,
    id: Seq<char>,
)
    requires
        containers::map_distinct(m.sessions),
    ensures
        m.abandoned_all(m.sessions_of(did), did, now).0.session(id) matches Some(s)
            ==> !AvSessionManagerView::takes_part(s, did),
{
    lemma_abandoned_all(m, m.sessions_of(did), did, now, id);
    if let Some(s) = m.session(id) {
        if AvSessionManagerView::takes_part(s, did) {
            lemma_ids_with(m.sessions, did, id);
        }
    }
}

proof fn lemma_abandoned_all(
    m: AvSessionManagerView,
    ids: Seq<Seq<char>>,
    did: Seq<char>,
    now: i64,
    id: Seq<char>,
)
    ensures
        ids.contains(id) ==> (m.abandoned_all(ids, did, now).0.session(id) matches Some(s)
            ==> !AvSessionManagerView::takes_part(s, did)),
        !ids.contains(id) ==> m.abandoned_all(ids, did, now).0.session(id) == m.session(id),
    decreases ids.len(),
{
    if ids.len() > 0 {
        let front = ids.drop_last();
        lemma_abandoned_all(m, front, did, now, id);
        let before = m.abandoned_all(front, did, now).0;
        lemma_abandoned(before, ids.last(), did, now, id);
        if ids.contains(id) && ids.last() != id {
            let k = choose|k: int| 0 <= k < ids.len() && ids[k] == id;
            assert(front[k] == id);
        }
        if front.contains(id) {
            let k = choose|k: int| 0 <= k < front.len() && front[k] == id;
            assert(ids[k] == id);
        }
        assert(ids.last() == ids[ids.len() - 1]);
    }
}

proof fn lemma_abandoned(
    m: AvSessionManagerView,
    at: Seq<char>,
    did: Seq<char>,
    now: i64,
    id: Seq<char>,
)
    ensures
        id == at ==> (m.abandoned(at, did, now).session(id) matches Some(s)
            ==> !AvSessionManagerView::takes_part(s, did)),
        id != at ==> m.abandoned(at, did, now).session(id) == m.session(id),
{
    broadcast use crate::containers::lemma_map_put_get;

}

proof fn lemma_ids_with(sessions: Seq<(Seq<char>, AvSessionView)>, did: Seq<char>, id: Seq<char>)
    requires
        containers::map_distinct(sessions),
        containers::map_get(sessions, id) is Some,
        AvSessionManagerView::takes_part(containers::map_get(sessions, id)->0, did),
    ensures
        ids_with(sessions, did).contains(id),
    decreases sessions.len(),
{
    containers::lemma_map_find(sessions, id);
    let rest = sessions.drop_last();
    let before = ids_with(rest, did);
    containers::lemma_map_find(rest, id);
    if containers::map_find(rest, id) is Some {
        lemma_ids_with(rest, did, id);
        let k = choose|k: int| 0 <= k < before.len() && before[k] == id;
        assert(ids_with(sessions, did)[k] == id);
    } else {
        assert(ids_with(sessions, did).last() == id);
    }
}

} // verus!
