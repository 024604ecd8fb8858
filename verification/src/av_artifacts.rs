//! Artifact generation pipeline for AV sessions.
//!
//! When a session ends, a summary of it is asked for and stored, together with the decisions and
//! the action items that came out of it.
use crate::av::{
    new_ulid, ArtifactKind, ArtifactVisibility, AvArtifact, AvArtifactView, AvParticipant,
    AvParticipantView, AvSession, AvSessionState, AvSessionStateView, AvSessionView,
};
use crate::connection::opt_str_or;
use crate::containers::{Dup, StrMap};
use crate::text;
use crate::text::{byte_len, decimal, join, to_byte_prefix, to_signed_decimal, Line};
use crate::time::unix_now;
use vstd::prelude::*;

verus! {

broadcast use vstd::string::group_string_axioms;

/// The mathematical content of a [`SummaryContext`].
pub struct SummaryContextView {
    pub session_title: Option<Seq<char>>,
    pub channel: Option<Seq<char>>,
    pub participants: Seq<Seq<char>>,
    pub duration_secs: i64,
}

/// Context provided to the summary backend.
#[derive(Debug)]
pub struct SummaryContext {
    pub session_title: Option<String>,
    pub channel: Option<String>,
    /// Nicks.
    pub participants: Vec<String>,
    pub duration_secs: i64,
}

impl DeepView for SummaryContext {
    type V = SummaryContextView;

    open spec fn deep_view(&self) -> SummaryContextView {
        SummaryContextView {
            session_title: self.session_title.deep_view(),
            channel: self.channel.deep_view(),
            participants: self.participants.deep_view(),
            duration_secs: self.duration_secs.deep_view(),
        }
    }
}

impl Dup for SummaryContext {
    fn dup(&self) -> (r: SummaryContext) {
        SummaryContext {
            session_title: self.session_title.dup(),
            channel: self.channel.dup(),
            participants: self.participants.dup(),
            duration_secs: self.duration_secs.dup(),
        }
    }
}

/// The mathematical content of a [`ActionItem`].
pub struct ActionItemView {
    pub description: Seq<char>,
    pub assignee: Option<Seq<char>>,
}

/// Something to be done.
#[derive(Debug)]
pub struct ActionItem {
    pub description: String,
    /// Nick or DID.
    pub assignee: Option<String>,
}

impl DeepView for ActionItem {
    type V = ActionItemView;

    open spec fn deep_view(&self) -> ActionItemView {
        ActionItemView {
            description: self.description.deep_view(),
            assignee: self.assignee.deep_view(),
        }
    }
}

impl Dup for ActionItem {
    fn dup(&self) -> (r: ActionItem) {
        ActionItem {
            description: self.description.dup(),
            assignee: self.assignee.dup(),
        }
    }
}

/// The mathematical content of a [`SummaryResult`].
pub struct SummaryResultView {
    pub summary: Seq<char>,
    pub decisions: Seq<Seq<char>>,
    pub action_items: Seq<ActionItemView>,
}

/// Structured summary output.
#[derive(Debug)]
pub struct SummaryResult {
    pub summary: String,
    pub decisions: Vec<String>,
    pub action_items: Vec<ActionItem>,
}

impl DeepView for SummaryResult {
    type V = SummaryResultView;

    open spec fn deep_view(&self) -> SummaryResultView {
        SummaryResultView {
            summary: self.summary.deep_view(),
            decisions: self.decisions.deep_view(),
            action_items: self.action_items.deep_view(),
        }
    }
}

impl Dup for SummaryResult {
    fn dup(&self) -> (r: SummaryResult) {
        SummaryResult {
            summary: self.summary.dup(),
            decisions: self.decisions.dup(),
            action_items: self.action_items.dup(),
        }
    }
}

/// Stub transcript backend — returns placeholder text (for development).
#[derive(Debug, Clone, Copy)]
pub struct StubTranscriptBackend;

/// The placeholder for a transcript.
pub open spec fn transcript_stub(audio_url: Seq<char>) -> Seq<char> {
    "[Transcript stub — recording at "@ + audio_url
        + "]\n\nTranscript generation requires a Whisper backend.\nConfigure TRANSCRIPT_BACKEND=whisper to enable."@
}

impl StubTranscriptBackend {
    /// The placeholder for a transcript.
    pub fn transcribe(&self, audio_url: &str) -> (r: String)
        ensures
            r@ == transcript_stub(audio_url@),
    {
        Line::new("[Transcript stub — recording at ").add(audio_url).add(
            "]\n\nTranscript generation requires a Whisper backend.\nConfigure TRANSCRIPT_BACKEND=whisper to enable.",
        ).done()
    }
}

/// Stub summary backend — returns placeholder (for development).
#[derive(Debug, Clone, Copy)]
pub struct StubSummaryBackend;

/// Whole minutes of some seconds, towards zero.
pub open spec fn minutes(secs: i64) -> int {
    if secs < 0 {
        -((-secs) / 60)
    } else {
        secs / 60
    }
}

/// Whole minutes of some seconds, towards zero.
fn to_minutes(secs: i64) -> (m: i64)
    ensures
        m == minutes(secs),
{
    if secs < 0 {
        let n: i128 = (-(secs as i128)) / 60;
        (-n) as i64
    } else {
        secs / 60
    }
}

/// How many bytes of a text are shown.
pub const PREVIEW_BYTES: usize = 200;

/// The start of a text.
pub open spec fn preview(s: Seq<char>) -> Seq<char> {
    text::byte_prefix(s, PREVIEW_BYTES as nat)
}

/// The placeholder for a summary.
pub open spec fn summary_stub(transcript: Seq<char>, c: SummaryContextView) -> SummaryResultView {
    SummaryResultView {
        summary: "## "@ + text::or_default(c.session_title, "Voice session"@)
            + "\n\n**Channel:** "@ + text::or_default(c.channel, "ad-hoc"@)
            + "\n**Participants:** "@ + text::join_spec(c.participants, ", "@)
            + "\n**Duration:** "@ + text::signed_decimal(minutes(c.duration_secs) as i64)
            + " min\n\n"@ + preview(transcript)
            + "\n\n*Summary generation requires an LLM backend. Configure SUMMARY_BACKEND=llm to enable.*"@,
        decisions: Seq::empty(),
        action_items: Seq::empty(),
    }
}

impl StubSummaryBackend {
    /// The placeholder for a summary.
    pub fn summarize(&self, transcript: &str, context: &SummaryContext) -> (r: SummaryResult)
        ensures
            r.deep_view() == summary_stub(transcript@, context.deep_view()),
    {
        let summary = Line::new("## ").add(
            opt_str_or(&context.session_title, "Voice session"),
        ).add("\n\n**Channel:** ").add(opt_str_or(&context.channel, "ad-hoc")).add(
            "\n**Participants:** ",
        ).add(join(&context.participants, ", ").as_str()).add("\n**Duration:** ").add(
            to_signed_decimal(to_minutes(context.duration_secs)).as_str(),
        ).add(" min\n\n").add(to_byte_prefix(transcript, PREVIEW_BYTES).as_str()).add(
            "\n\n*Summary generation requires an LLM backend. Configure SUMMARY_BACKEND=llm to enable.*",
        ).done();
        let decisions: Vec<String> = Vec::new();
        assert(decisions.deep_view() =~= Seq::<Seq<char>>::empty());
        let action_items: Vec<ActionItem> = Vec::new();
        assert(action_items.deep_view() =~= Seq::<ActionItemView>::empty());
        SummaryResult { summary, decisions, action_items }
    }
}

// ── What is asked for ───────────────────────────────────────────────

/// How long a session lasts at least that artifacts are made of, in seconds.
pub const MIN_SESSION_SECS: i64 = 30;

/// When a session ended, or now if it is going on.
pub open spec fn end_time(s: AvSessionView, now: i64) -> i64 {
    match s.state {
        AvSessionStateView::Ended { ended_at, .. } => ended_at,
        AvSessionStateView::Active => now,
    }
}

/// How long a session has lasted, in seconds.
pub open spec fn duration(s: AvSessionView, now: i64) -> int {
    end_time(s, now) - s.created_at
}

/// The nicks of the participants.
pub open spec fn nicks(ps: Seq<(Seq<char>, AvParticipantView)>) -> Seq<Seq<char>> {
    ps.map_values(|e: (Seq<char>, AvParticipantView)| e.1.nick)
}

/// What a summary of a session is asked for with; nothing for one that was too short.
pub open spec fn summary_request(s: AvSessionView, now: i64) -> Option<
    (Seq<char>, SummaryContextView),
> {
    let secs = duration(s, now);
    if secs < MIN_SESSION_SECS {
        None
    } else {
        Some(
            (
                "Session: "@ + text::or_default(s.title, "Voice session"@) + "\nChannel: "@
                    + text::or_default(s.channel, "ad-hoc"@) + "\nParticipants: "@
                    + text::join_spec(nicks(s.participants), ", "@) + "\nDuration: "@
                    + text::decimal_spec((secs / 60) as nat) + " min\nStarted: "@
                    + text::signed_decimal(s.created_at) + "\n"@,
                SummaryContextView {
                    session_title: s.title,
                    channel: s.channel,
                    participants: nicks(s.participants),
                    duration_secs: secs as i64,
                },
            ),
        )
    }
}

/// The nicks of the participants.
fn list_nicks(ps: &StrMap<AvParticipant>) -> (r: Vec<String>)
    ensures
        r.deep_view() == nicks(ps@),
{
    let ghost all = ps@;
    let mut out: Vec<String> = Vec::new();
    let mut i: usize = 0;
    assert(out.deep_view() =~= nicks(all.take(0)));
    while i < ps.len()
        invariant
            i <= all.len(),
            all == ps@,
            out.deep_view() == nicks(all.take(i as int)),
        decreases all.len() - i,
    {
        let ghost before = out.deep_view();
        let n = ps.value_at(i).nick.clone();
        out.push(n);
        assert(out.deep_view() =~= before.push(n@));
        i = i + 1;
        assert(out.deep_view() =~= nicks(all.take(i as int)));
    }
    assert(all.take(i as int) =~= all);
    out
}

/// What a summary of a session is asked for with, at the given time.
pub fn prepare_summary(s: &AvSession, now: i64) -> (r: Option<(String, SummaryContext)>)
    requires
        i64::MIN <= duration(s.deep_view(), now) <= i64::MAX,
    ensures
        r.deep_view() == summary_request(s.deep_view(), now),
{
    let end: i64 = match &s.state {
        AvSessionState::Ended { ended_at, .. } => *ended_at,
        AvSessionState::Active => now,
    };
    let secs: i64 = end - s.created_at;
    if secs < MIN_SESSION_SECS {
        return None;
    }
    let participants = list_nicks(&s.participants);
    let transcript = Line::new("Session: ").add(opt_str_or(&s.title, "Voice session")).add(
        "\nChannel: ",
    ).add(opt_str_or(&s.channel, "ad-hoc")).add("\nParticipants: ").add(
        join(&participants, ", ").as_str(),
    ).add("\nDuration: ").add(decimal((secs / 60) as u128).as_str()).add(
        " min\nStarted: ",
    ).add(to_signed_decimal(s.created_at).as_str()).add("\n").done();
    let context = SummaryContext {
        session_title: s.title.dup(),
        channel: s.channel.dup(),
        participants,
        duration_secs: secs,
    };
    Some((transcript, context))
}

// ── What is stored ──────────────────────────────────────────────────

/// An artifact of a session that its channel may see.
pub open spec fn artifact(
    id: Seq<char>,
    session: Seq<char>,
    kind: ArtifactKind,
    content: Seq<char>,
    content_type: Seq<char>,
    title: Seq<char>,
    now: i64,
) -> AvArtifactView {
    AvArtifactView {
        id,
        session_id: session,
        kind,
        created_at: now,
        created_by: None,
        content_ref: "inline:"@ + content,
        content_type,
        visibility: ArtifactVisibility::Channel,
        title: Some(title),
    }
}

/// How many artifacts are made of a summary.
pub open spec fn artifact_count(r: SummaryResultView) -> nat {
    1 + r.decisions.len() + r.action_items.len()
}

/// The artifact at a place: first the summary, then the decisions, then the action items.
pub open spec fn artifact_at(
    session: Seq<char>,
    r: SummaryResultView,
    ids: Seq<Seq<char>>,
    now: i64,
    i: int,
) -> AvArtifactView {
    if i == 0 {
        artifact(
            ids[0],
            session,
            ArtifactKind::Summary,
            r.summary,
            "text/markdown"@,
            "Session Summary"@,
            now,
        )
    } else if i <= r.decisions.len() {
        artifact(
            ids[i],
            session,
            ArtifactKind::Decisions,
            r.decisions[i - 1],
            "text/plain"@,
            "Decision #"@ + text::decimal_spec(i as nat),
            now,
        )
    } else {
        let item = r.action_items[i - 1 - r.decisions.len()];
        artifact(
            ids[i],
            session,
            ArtifactKind::Tasks,
            item.description,
            "text/plain"@,
            "Action: "@ + item.description,
            now,
        )
    }
}

/// The artifacts made of a summary.
pub open spec fn artifacts(
    session: Seq<char>,
    r: SummaryResultView,
    ids: Seq<Seq<char>>,
    now: i64,
) -> Seq<AvArtifactView> {
    Seq::new(artifact_count(r), |i: int| artifact_at(session, r, ids, now, i))
}

/// An artifact of a session that its channel may see.
fn make_artifact(
    id: &str,
    session: &str,
    kind: ArtifactKind,
    content: &str,
    content_type: &str,
    title: String,
    now: i64,
) -> (a: AvArtifact)
    ensures
        a.deep_view() == artifact(id@, session@, kind, content@, content_type@, title@, now),
{
    AvArtifact {
        id: id.to_owned(),
        session_id: session.to_owned(),
        kind,
        created_at: now,
        created_by: None,
        content_ref: Line::new("inline:").add(content).done(),
        content_type: content_type.to_owned(),
        visibility: ArtifactVisibility::Channel,
        title: Some(title),
    }
}

/// The artifacts made of a summary, with the given IDs, at the given time.
pub fn make_artifacts(
    session: &str,
    r: &SummaryResult,
    ids: &Vec<String>,
    now: i64,
) -> (out: Vec<AvArtifact>)
    requires
        ids@.len() == artifact_count(r.deep_view()),
    ensures
        out.deep_view() == artifacts(session@, r.deep_view(), ids.deep_view(), now),
{
    let ghost rv = r.deep_view();
    let ghost iv = ids.deep_view();
    let ghost want = artifacts(session@, rv, iv, now);
    let n: usize = ids.len();
    let d: usize = r.decisions.len();
    assert(rv.decisions.len() == r.decisions@.len());
    assert(rv.action_items.len() == r.action_items@.len());
    let mut out: Vec<AvArtifact> = Vec::new();
    let mut i: usize = 0;
    assert(out.deep_view() =~= want.take(0));
    while i < n
        invariant
            i <= n,
            n == ids@.len(),
            n == artifact_count(rv),
            n == want.len(),
            d == r.decisions@.len(),
            rv == r.deep_view(),
            iv == ids.deep_view(),
            rv.decisions.len() == r.decisions@.len(),
            rv.action_items.len() == r.action_items@.len(),
            want == artifacts(session@, rv, iv, now),
            out.deep_view() == want.take(i as int),
        decreases n - i,
    {
        let ghost before = out.deep_view();
        assert(iv[i as int] == ids@[i as int]@);
        let a = if i == 0 {
            make_artifact(
                ids[0].as_str(),
                session,
                ArtifactKind::Summary,
                r.summary.as_str(),
                "text/markdown",
                "Session Summary".to_owned(),
                now,
            )
        } else if i <= d {
            assert(rv.decisions[i - 1] == r.decisions@[i - 1]@);
            make_artifact(
                ids[i].as_str(),
                session,
                ArtifactKind::Decisions,
                r.decisions[i - 1].as_str(),
                "text/plain",
                Line::new("Decision #").add(decimal(i as u128).as_str()).done(),
                now,
            )
        } else {
            let k: usize = i - 1 - d;
            assert(rv.action_items[k as int] == r.action_items@[k as int].deep_view());
            let text = r.action_items[k].description.as_str();
            make_artifact(
                ids[i].as_str(),
                session,
                ArtifactKind::Tasks,
                text,
                "text/plain",
                Line::new("Action: ").add(text).done(),
                now,
            )
        };
        out.push(a);
        assert(out.deep_view() =~= before.push(a.deep_view()));
        assert(want[i as int] == a.deep_view());
        i = i + 1;
        assert(out.deep_view() =~= want.take(i as int));
    }
    assert(want.take(i as int) =~= want);
    out
}

/// New IDs for the artifacts of a summary.
fn draw_ids(n: usize) -> (ids: Vec<String>)
    ensures
        ids@.len() == n,
        forall|i: int| 0 <= i < n ==> (#[trigger] ids.deep_view()[i]).len() == 26,
{
    let mut ids: Vec<String> = Vec::new();
    while ids.len() < n
        invariant
            ids.len() <= n,
            forall|i: int| 0 <= i < ids@.len() ==> (#[trigger] ids@[i])@.len() == 26,
        decreases n - ids.len(),
    {
        ids.push(new_ulid());
    }
    ids
}

/// The artifacts made of a summary, with new IDs, now.
pub fn generate_session_artifacts(session: &AvSession, r: &SummaryResult) -> (out: Vec<AvArtifact>)
    requires
        artifact_count(r.deep_view()) <= usize::MAX,
    ensures
        exists|ids: Seq<Seq<char>>, now: i64|
            {
                &&& ids.len() == artifact_count(r.deep_view())
                &&& forall|i: int| 0 <= i < ids.len() ==> (#[trigger] ids[i]).len() == 26
                &&& out.deep_view() == #[trigger] artifacts(
                    session.deep_view().id,
                    r.deep_view(),
                    ids,
                    now,
                )
            },
{
    assert(r.deep_view().decisions.len() == r.decisions@.len());
    assert(r.deep_view().action_items.len() == r.action_items@.len());
    let ids = draw_ids(1 + r.decisions.len() + r.action_items.len());
    assert(ids.deep_view().len() == ids@.len());
    let now: i64 = unix_now();
    assert(session.deep_view().id == session.id@);
    let out = make_artifacts(session.id.as_str(), r, &ids, now);
    assert(out.deep_view() == artifacts(
        session.deep_view().id,
        r.deep_view(),
        ids.deep_view(),
        now,
    ));
    out
}

/// What the channel is told of a summary.
pub open spec fn summary_notice(summary: Seq<char>) -> Seq<char> {
    "Session summary: "@ + (if vstd::utf8::encode_utf8(summary).len() > PREVIEW_BYTES {
        preview(summary) + "..."@
    } else {
        summary
    })
}

/// What the channel is told of a summary.
pub fn write_notice(summary: &str) -> (r: String)
    ensures
        r@ == summary_notice(summary@),
{
    let short = if byte_len(summary) > PREVIEW_BYTES {
        Line::new(to_byte_prefix(summary, PREVIEW_BYTES).as_str()).add("...").done()
    } else {
        summary.to_owned()
    };
    Line::new("Session summary: ").add(short.as_str()).done()
}

/// A summary is asked for exactly where a session lasted half a minute, with what it was called,
/// where it was, who was in it and how long it took.
pub proof fn law_summaries_need_half_a_minute(s: AvSessionView, now: i64)
    ensures
        ({
            let ended = match s.state {
                AvSessionStateView::Ended { ended_at, .. } => ended_at,
                AvSessionStateView::Active => now,
            };
            let secs = ended - s.created_at;
            &&& summary_request(s, now) is Some <==> secs >= 30
            &&& summary_request(s, now) matches Some(r) ==> {
                &&& r.1.session_title == s.title
                &&& r.1.channel == s.channel
                &&& secs <= i64::MAX ==> r.1.duration_secs == secs
                &&& r.1.participants.len() == s.participants.len()
                &&& forall|i: int|
                    0 <= i < s.participants.len() ==> #[trigger] r.1.participants[i] == s.participants[i].1.nick
            }
        }),
{
}

/// Of a summary the text, each decision and each task is kept as one artifact, in this order, of the
/// session, for the channel, with its content.
pub proof fn law_everything_found_is_kept(session: Seq<char>, r: SummaryResultView, ids: Seq<Seq<char>>, now: i64, i: int)
    ensures
        ({
            let all = artifacts(session, r, ids, now);
            let d = r.decisions.len();
            &&& all.len() == 1 + d + r.action_items.len()
            &&& all[0].kind == ArtifactKind::Summary && all[0].content_ref == "inline:"@ + r.summary && all[0].content_type
                == "text/markdown"@
            &&& 0 <= i < d ==> all[i + 1].kind == ArtifactKind::Decisions && all[i + 1].content_ref == "inline:"@ + r.decisions[i]
            &&& 0 <= i < r.action_items.len() ==> all[i + 1 + d].kind == ArtifactKind::Tasks && all[i + 1 + d].content_ref
                == "inline:"@ + r.action_items[i].description
            &&& 0 <= i < all.len() ==> all[i].id == ids[i] && all[i].session_id == session && all[i].created_at == now
                && all[i].created_by is None && all[i].visibility == ArtifactVisibility::Channel
        }),
{
}

/// A summary is announced whole where it has at most 200 bytes, else with its beginning.
pub proof fn law_summaries_are_announced(summary: Seq<char>)
    ensures
        vstd::utf8::encode_utf8(summary).len() <= 200 ==> summary_notice(summary) == "Session summary: "@ + summary,
        vstd::utf8::encode_utf8(summary).len() > 200 ==> summary_notice(summary) == "Session summary: "@ + (text::byte_prefix(
            summary,
            200,
        ) + "..."@),
{
}

} // verus!
