//! Persisted rows and the rules that decide what is stored and read.
use crate::containers;
use crate::containers::{Dup, StrMap, StrSet};
use crate::crypto;
use crate::crypto::{aes_decrypt, aes_encrypt, array12, base64_decode, base64_encode, random_nonce, to_lossy_text};
use crate::json;
use crate::json::{json_from_text, list_from_json, list_to_json, pairs_from_json, pairs_to_json};
use crate::server::{BanEntry, BanEntryView, ChannelState, ChannelStateView, TopicInfo, TopicInfoView};
use crate::text;
use crate::text::{chars_of, decimal, str_eq, string_of, strip_prefix, Line};
use vstd::prelude::*;

verus! {

broadcast use vstd::string::group_string_axioms;

/// The mathematical content of a [`MessageRow`].
pub struct MessageRowView {
    pub id: i64,
    pub channel: Seq<char>,
    pub sender: Seq<char>,
    pub text: Seq<char>,
    pub timestamp: u64,
    pub tags: Seq<(Seq<char>, Seq<char>)>,
    pub msgid: Option<Seq<char>>,
    pub replaces_msgid: Option<Seq<char>>,
    pub deleted_at: Option<u64>,
    pub sender_did: Option<Seq<char>>,
}

/// A persisted message row.
#[derive(Debug)]
pub struct MessageRow {
    pub id: i64,
    pub channel: String,
    pub sender: String,
    pub text: String,
    pub timestamp: u64,
    pub tags: StrMap<String>,
    /// ULID message ID (IRCv3 `msgid` tag).
    pub msgid: Option<String>,
    /// If this is an edit, the msgid of the original message it replaces.
    pub replaces_msgid: Option<String>,
    /// Unix timestamp when this message was deleted (soft delete).
    pub deleted_at: Option<u64>,
    /// DID of the sender (if authenticated at send time).
    pub sender_did: Option<String>,
}

impl DeepView for MessageRow {
    type V = MessageRowView;

    open spec fn deep_view(&self) -> MessageRowView {
        MessageRowView {
            id: self.id.deep_view(),
            channel: self.channel.deep_view(),
            sender: self.sender.deep_view(),
            text: self.text.deep_view(),
            timestamp: self.timestamp.deep_view(),
            tags: self.tags.deep_view(),
            msgid: self.msgid.deep_view(),
            replaces_msgid: self.replaces_msgid.deep_view(),
            deleted_at: self.deleted_at.deep_view(),
            sender_did: self.sender_did.deep_view(),
        }
    }
}

impl Dup for MessageRow {
    fn dup(&self) -> (r: MessageRow) {
        MessageRow {
            id: self.id.dup(),
            channel: self.channel.dup(),
            sender: self.sender.dup(),
            text: self.text.dup(),
            timestamp: self.timestamp.dup(),
            tags: self.tags.dup(),
            msgid: self.msgid.dup(),
            replaces_msgid: self.replaces_msgid.dup(),
            deleted_at: self.deleted_at.dup(),
            sender_did: self.sender_did.dup(),
        }
    }
}

/// The mathematical content of a [`IdentityRow`].
pub struct IdentityRowView {
    pub did: Seq<char>,
    pub nick: Seq<char>,
}

/// A DID bound to a nick.
#[derive(Debug)]
pub struct IdentityRow {
    pub did: String,
    pub nick: String,
}

impl DeepView for IdentityRow {
    type V = IdentityRowView;

    open spec fn deep_view(&self) -> IdentityRowView {
        IdentityRowView {
            did: self.did.deep_view(),
            nick: self.nick.deep_view(),
        }
    }
}

impl Dup for IdentityRow {
    fn dup(&self) -> (r: IdentityRow) {
        IdentityRow {
            did: self.did.dup(),
            nick: self.nick.dup(),
        }
    }
}

/// The mathematical content of a [`CapabilityGrantRow`].
pub struct CapabilityGrantRowView {
    pub id: i64,
    pub channel: Seq<char>,
    pub agent_did: Seq<char>,
    pub capability: Seq<char>,
    pub scope: Option<Seq<char>>,
    pub ttl_seconds: u64,
    pub requires_approval: bool,
    pub rate_limit: u32,
    pub granted_by: Seq<char>,
    pub granted_at: i64,
    pub expires_at: Option<i64>,
    pub revoked_at: Option<i64>,
}

/// A capability grant row.
#[derive(Debug)]
pub struct CapabilityGrantRow {
    pub id: i64,
    pub channel: String,
    pub agent_did: String,
    pub capability: String,
    pub scope: Option<String>,
    pub ttl_seconds: u64,
    pub requires_approval: bool,
    pub rate_limit: u32,
    pub granted_by: String,
    pub granted_at: i64,
    pub expires_at: Option<i64>,
    pub revoked_at: Option<i64>,
}

impl DeepView for CapabilityGrantRow {
    type V = CapabilityGrantRowView;

    open spec fn deep_view(&self) -> CapabilityGrantRowView {
        CapabilityGrantRowView {
            id: self.id.deep_view(),
            channel: self.channel.deep_view(),
            agent_did: self.agent_did.deep_view(),
            capability: self.capability.deep_view(),
            scope: self.scope.deep_view(),
            ttl_seconds: self.ttl_seconds.deep_view(),
            requires_approval: self.requires_approval.deep_view(),
            rate_limit: self.rate_limit.deep_view(),
            granted_by: self.granted_by.deep_view(),
            granted_at: self.granted_at.deep_view(),
            expires_at: self.expires_at.deep_view(),
            revoked_at: self.revoked_at.deep_view(),
        }
    }
}

impl Dup for CapabilityGrantRow {
    fn dup(&self) -> (r: CapabilityGrantRow) {
        CapabilityGrantRow {
            id: self.id.dup(),
            channel: self.channel.dup(),
            agent_did: self.agent_did.dup(),
            capability: self.capability.dup(),
            scope: self.scope.dup(),
            ttl_seconds: self.ttl_seconds.dup(),
            requires_approval: self.requires_approval.dup(),
            rate_limit: self.rate_limit.dup(),
            granted_by: self.granted_by.dup(),
            granted_at: self.granted_at.dup(),
            expires_at: self.expires_at.dup(),
            revoked_at: self.revoked_at.dup(),
        }
    }
}

/// The mathematical content of a [`GovernanceLogEntry`].
pub struct GovernanceLogEntryView {
    pub id: i64,
    pub channel: Option<Seq<char>>,
    pub target_did: Seq<char>,
    pub action: Seq<char>,
    pub issued_by: Seq<char>,
    pub reason: Option<Seq<char>>,
    pub timestamp: i64,
}

/// A governance log entry.
#[derive(Debug)]
pub struct GovernanceLogEntry {
    pub id: i64,
    pub channel: Option<String>,
    pub target_did: String,
    pub action: String,
    pub issued_by: String,
    pub reason: Option<String>,
    pub timestamp: i64,
}

impl DeepView for GovernanceLogEntry {
    type V = GovernanceLogEntryView;

    open spec fn deep_view(&self) -> GovernanceLogEntryView {
        GovernanceLogEntryView {
            id: self.id.deep_view(),
            channel: self.channel.deep_view(),
            target_did: self.target_did.deep_view(),
            action: self.action.deep_view(),
            issued_by: self.issued_by.deep_view(),
            reason: self.reason.deep_view(),
            timestamp: self.timestamp.deep_view(),
        }
    }
}

impl Dup for GovernanceLogEntry {
    fn dup(&self) -> (r: GovernanceLogEntry) {
        GovernanceLogEntry {
            id: self.id.dup(),
            channel: self.channel.dup(),
            target_did: self.target_did.dup(),
            action: self.action.dup(),
            issued_by: self.issued_by.dup(),
            reason: self.reason.dup(),
            timestamp: self.timestamp.dup(),
        }
    }
}

/// The mathematical content of a [`PendingApprovalRow`].
pub struct PendingApprovalRowView {
    pub id: Seq<char>,
    pub channel: Seq<char>,
    pub agent_did: Seq<char>,
    pub capability: Seq<char>,
    pub resource: Option<Seq<char>>,
    pub requested_at: i64,
    pub granted_by: Option<Seq<char>>,
    pub granted_at: Option<i64>,
    pub denied_by: Option<Seq<char>>,
    pub denied_at: Option<i64>,
    pub deny_reason: Option<Seq<char>>,
    pub expires_at: Option<i64>,
}

/// A pending approval row.
#[derive(Debug)]
pub struct PendingApprovalRow {
    pub id: String,
    pub channel: String,
    pub agent_did: String,
    pub capability: String,
    pub resource: Option<String>,
    pub requested_at: i64,
    pub granted_by: Option<String>,
    pub granted_at: Option<i64>,
    pub denied_by: Option<String>,
    pub denied_at: Option<i64>,
    pub deny_reason: Option<String>,
    pub expires_at: Option<i64>,
}

impl DeepView for PendingApprovalRow {
    type V = PendingApprovalRowView;

    open spec fn deep_view(&self) -> PendingApprovalRowView {
        PendingApprovalRowView {
            id: self.id.deep_view(),
            channel: self.channel.deep_view(),
            agent_did: self.agent_did.deep_view(),
            capability: self.capability.deep_view(),
            resource: self.resource.deep_view(),
            requested_at: self.requested_at.deep_view(),
            granted_by: self.granted_by.deep_view(),
            granted_at: self.granted_at.deep_view(),
            denied_by: self.denied_by.deep_view(),
            denied_at: self.denied_at.deep_view(),
            deny_reason: self.deny_reason.deep_view(),
            expires_at: self.expires_at.deep_view(),
        }
    }
}

impl Dup for PendingApprovalRow {
    fn dup(&self) -> (r: PendingApprovalRow) {
        PendingApprovalRow {
            id: self.id.dup(),
            channel: self.channel.dup(),
            agent_did: self.agent_did.dup(),
            capability: self.capability.dup(),
            resource: self.resource.dup(),
            requested_at: self.requested_at.dup(),
            granted_by: self.granted_by.dup(),
            granted_at: self.granted_at.dup(),
            denied_by: self.denied_by.dup(),
            denied_at: self.denied_at.dup(),
            deny_reason: self.deny_reason.dup(),
            expires_at: self.expires_at.dup(),
        }
    }
}

/// The mathematical content of a [`SpawnedAgentRow`].
pub struct SpawnedAgentRowView {
    pub child_did: Seq<char>,
    pub parent_did: Seq<char>,
    pub parent_session: Seq<char>,
    pub nick: Seq<char>,
    pub channel: Seq<char>,
    pub capabilities_json: Seq<char>,
    pub ttl_seconds: Option<u64>,
    pub task_ref: Option<Seq<char>>,
    pub spawned_at: i64,
}

/// A spawned agent record.
#[derive(Debug)]
pub struct SpawnedAgentRow {
    pub child_did: String,
    pub parent_did: String,
    pub parent_session: String,
    pub nick: String,
    pub channel: String,
    pub capabilities_json: String,
    pub ttl_seconds: Option<u64>,
    pub task_ref: Option<String>,
    pub spawned_at: i64,
}

impl DeepView for SpawnedAgentRow {
    type V = SpawnedAgentRowView;

    open spec fn deep_view(&self) -> SpawnedAgentRowView {
        SpawnedAgentRowView {
            child_did: self.child_did.deep_view(),
            parent_did: self.parent_did.deep_view(),
            parent_session: self.parent_session.deep_view(),
            nick: self.nick.deep_view(),
            channel: self.channel.deep_view(),
            capabilities_json: self.capabilities_json.deep_view(),
            ttl_seconds: self.ttl_seconds.deep_view(),
            task_ref: self.task_ref.deep_view(),
            spawned_at: self.spawned_at.deep_view(),
        }
    }
}

impl Dup for SpawnedAgentRow {
    fn dup(&self) -> (r: SpawnedAgentRow) {
        SpawnedAgentRow {
            child_did: self.child_did.dup(),
            parent_did: self.parent_did.dup(),
            parent_session: self.parent_session.dup(),
            nick: self.nick.dup(),
            channel: self.channel.dup(),
            capabilities_json: self.capabilities_json.dup(),
            ttl_seconds: self.ttl_seconds.dup(),
            task_ref: self.task_ref.dup(),
            spawned_at: self.spawned_at.dup(),
        }
    }
}

/// The mathematical content of a [`CoordinationEventRow`].
pub struct CoordinationEventRowView {
    pub event_id: Seq<char>,
    pub event_type: Seq<char>,
    pub actor_did: Seq<char>,
    pub channel: Seq<char>,
    pub ref_id: Option<Seq<char>>,
    pub payload_json: Seq<char>,
    pub signature: Option<Seq<char>>,
    pub timestamp: i64,
}

/// A coordination event row.
#[derive(Debug)]
pub struct CoordinationEventRow {
    pub event_id: String,
    pub event_type: String,
    pub actor_did: String,
    pub channel: String,
    pub ref_id: Option<String>,
    pub payload_json: String,
    pub signature: Option<String>,
    pub timestamp: i64,
}

impl DeepView for CoordinationEventRow {
    type V = CoordinationEventRowView;

    open spec fn deep_view(&self) -> CoordinationEventRowView {
        CoordinationEventRowView {
            event_id: self.event_id.deep_view(),
            event_type: self.event_type.deep_view(),
            actor_did: self.actor_did.deep_view(),
            channel: self.channel.deep_view(),
            ref_id: self.ref_id.deep_view(),
            payload_json: self.payload_json.deep_view(),
            signature: self.signature.deep_view(),
            timestamp: self.timestamp.deep_view(),
        }
    }
}

impl Dup for CoordinationEventRow {
    fn dup(&self) -> (r: CoordinationEventRow) {
        CoordinationEventRow {
            event_id: self.event_id.dup(),
            event_type: self.event_type.dup(),
            actor_did: self.actor_did.dup(),
            channel: self.channel.dup(),
            ref_id: self.ref_id.dup(),
            payload_json: self.payload_json.dup(),
            signature: self.signature.dup(),
            timestamp: self.timestamp.dup(),
        }
    }
}

// ── Conversation keys ───────────────────────────────────────────────

/// Whether `a` comes before `b` or is `b`, character by character in code-point order.
pub open spec fn str_le(a: Seq<char>, b: Seq<char>) -> bool
    decreases a.len(),
{
    if a.len() == 0 {
        true
    } else if b.len() == 0 {
        false
    } else if a[0] != b[0] {
        a[0] < b[0]
    } else {
        str_le(a.skip(1), b.skip(1))
    }
}

/// Whether `a` comes before `b` or is `b`, character by character in code-point order.
pub fn le_str(a: &str, b: &str) -> (r: bool)
    ensures
        r == str_le(a@, b@),
{
    let v = chars_of(a);
    let w = chars_of(b);
    let mut i: usize = 0;
    assert(v@.skip(0) =~= v@);
    assert(w@.skip(0) =~= w@);
    loop
        invariant
            i <= v@.len(),
            i <= w@.len(),
            a@ == v@,
            b@ == w@,
            str_le(a@, b@) == str_le(v@.skip(i as int), w@.skip(i as int)),
        decreases v@.len() - i,
    {
        if i == v.len() {
            return true;
        }
        if i == w.len() {
            return false;
        }
        assert(v@.skip(i as int)[0] == v@[i as int]);
        assert(w@.skip(i as int)[0] == w@[i as int]);
        if v[i] != w[i] {
            return v[i] < w[i];
        }
        assert(v@.skip(i as int).skip(1) =~= v@.skip(i + 1));
        assert(w@.skip(i as int).skip(1) =~= w@.skip(i + 1));
        i = i + 1;
    }
}

/// The order is total.
pub proof fn lemma_str_le_total(a: Seq<char>, b: Seq<char>)
    ensures
        str_le(a, b) || str_le(b, a),
    decreases a.len(),
{
    if a.len() > 0 && b.len() > 0 && a[0] == b[0] {
        lemma_str_le_total(a.skip(1), b.skip(1));
    }
}

/// The order tells different strings apart.
pub proof fn lemma_str_le_antisymmetric(a: Seq<char>, b: Seq<char>)
    requires
        str_le(a, b),
        str_le(b, a),
    ensures
        a == b,
    decreases a.len(),
{
    if a.len() > 0 && b.len() > 0 {
        lemma_str_le_antisymmetric(a.skip(1), b.skip(1));
        assert(a =~= seq![a[0]] + a.skip(1));
        assert(b =~= seq![b[0]] + b.skip(1));
    } else {
        assert(a =~= b);
    }
}

/// The key of the conversation between two DIDs.
pub open spec fn dm_key(a: Seq<char>, b: Seq<char>) -> Seq<char> {
    if str_le(a, b) {
        "dm:"@ + a + ","@ + b
    } else {
        "dm:"@ + b + ","@ + a
    }
}

/// Compute a canonical DM channel key from two DIDs.
/// The key is `dm:<did_a>,<did_b>` where the DIDs are alphabetically sorted.
/// This ensures both participants produce the same key regardless of who sends.
pub fn canonical_dm_key(did_a: &str, did_b: &str) -> (r: String)
    ensures
        r@ == dm_key(did_a@, did_b@),
{
    if le_str(did_a, did_b) {
        Line::new("dm:").add(did_a).add(",").add(did_b).done()
    } else {
        Line::new("dm:").add(did_b).add(",").add(did_a).done()
    }
}

/// Both participants of a conversation compute the same key.
pub proof fn law_dm_key_symmetric(a: Seq<char>, b: Seq<char>)
    ensures
        dm_key(a, b) == dm_key(b, a),
{
    lemma_str_le_total(a, b);
    if str_le(a, b) && str_le(b, a) {
        lemma_str_le_antisymmetric(a, b);
    }
}

/// The mathematical content of a [`MessageRecord`].
pub struct MessageRecordView {
    pub id: i64,
    pub channel: Seq<char>,
    pub sender: Seq<char>,
    pub text: Seq<char>,
    pub timestamp: i64,
    pub tags_json: Seq<char>,
    pub msgid: Option<Seq<char>>,
    pub replaces_msgid: Option<Seq<char>>,
    pub deleted_at: Option<i64>,
    pub sender_did: Option<Seq<char>>,
}

/// A message as its table holds it.
#[derive(Debug)]
pub struct MessageRecord {
    pub id: i64,
    pub channel: String,
    pub sender: String,
    /// Encrypted where the database has a key.
    pub text: String,
    pub timestamp: i64,
    pub tags_json: String,
    pub msgid: Option<String>,
    pub replaces_msgid: Option<String>,
    pub deleted_at: Option<i64>,
    pub sender_did: Option<String>,
}

impl DeepView for MessageRecord {
    type V = MessageRecordView;

    open spec fn deep_view(&self) -> MessageRecordView {
        MessageRecordView {
            id: self.id.deep_view(),
            channel: self.channel.deep_view(),
            sender: self.sender.deep_view(),
            text: self.text.deep_view(),
            timestamp: self.timestamp.deep_view(),
            tags_json: self.tags_json.deep_view(),
            msgid: self.msgid.deep_view(),
            replaces_msgid: self.replaces_msgid.deep_view(),
            deleted_at: self.deleted_at.deep_view(),
            sender_did: self.sender_did.deep_view(),
        }
    }
}

/// The mathematical content of a [`ChannelRecord`].
pub struct ChannelRecordView {
    pub name: Seq<char>,
    pub topic_text: Option<Seq<char>>,
    pub topic_set_by: Option<Seq<char>>,
    pub topic_set_at: Option<i64>,
    pub topic_locked: i32,
    pub invite_only: i32,
    pub no_ext_msg: Option<i32>,
    pub moderated: Option<i32>,
    pub key: Option<Seq<char>>,
    pub founder_did: Option<Seq<char>>,
    pub did_ops_json: Option<Seq<char>>,
}

/// A channel as its table holds it.
#[derive(Debug)]
pub struct ChannelRecord {
    pub name: String,
    pub topic_text: Option<String>,
    pub topic_set_by: Option<String>,
    pub topic_set_at: Option<i64>,
    pub topic_locked: i32,
    pub invite_only: i32,
    pub no_ext_msg: Option<i32>,
    pub moderated: Option<i32>,
    pub key: Option<String>,
    pub founder_did: Option<String>,
    pub did_ops_json: Option<String>,
}

impl DeepView for ChannelRecord {
    type V = ChannelRecordView;

    open spec fn deep_view(&self) -> ChannelRecordView {
        ChannelRecordView {
            name: self.name.deep_view(),
            topic_text: self.topic_text.deep_view(),
            topic_set_by: self.topic_set_by.deep_view(),
            topic_set_at: self.topic_set_at.deep_view(),
            topic_locked: self.topic_locked.deep_view(),
            invite_only: self.invite_only.deep_view(),
            no_ext_msg: self.no_ext_msg.deep_view(),
            moderated: self.moderated.deep_view(),
            key: self.key.deep_view(),
            founder_did: self.founder_did.deep_view(),
            did_ops_json: self.did_ops_json.deep_view(),
        }
    }
}

/// The mathematical content of a [`BanRecord`].
pub struct BanRecordView {
    pub channel: Seq<char>,
    pub mask: Seq<char>,
    pub set_by: Seq<char>,
    pub set_at: i64,
}

/// A ban as its table holds it.
#[derive(Debug)]
pub struct BanRecord {
    pub channel: String,
    pub mask: String,
    pub set_by: String,
    pub set_at: i64,
}

impl DeepView for BanRecord {
    type V = BanRecordView;

    open spec fn deep_view(&self) -> BanRecordView {
        BanRecordView {
            channel: self.channel.deep_view(),
            mask: self.mask.deep_view(),
            set_by: self.set_by.deep_view(),
            set_at: self.set_at.deep_view(),
        }
    }
}

/// The mathematical content of a [`SqlValue`].
pub enum SqlValueView {
    Text(Seq<char>),
    Integer(i64),
}

/// A value bound to a parameter of a statement.
#[derive(Debug)]
pub enum SqlValue {
    Text(String),
    Integer(i64),
}

impl DeepView for SqlValue {
    type V = SqlValueView;

    open spec fn deep_view(&self) -> SqlValueView {
        match self {
            SqlValue::Text(x) => SqlValueView::Text(x.deep_view()),
            SqlValue::Integer(x) => SqlValueView::Integer(x.deep_view()),
        }
    }
}

/// The mathematical content of a [`Query`].
pub struct QueryView {
    pub sql: Seq<char>,
    pub params: Seq<SqlValueView>,
}

/// A statement with the values of its parameters, in order.
#[derive(Debug)]
pub struct Query {
    pub sql: String,
    pub params: Vec<SqlValue>,
}

impl DeepView for Query {
    type V = QueryView;

    open spec fn deep_view(&self) -> QueryView {
        QueryView {
            sql: self.sql.deep_view(),
            params: self.params.deep_view(),
        }
    }
}



// ── Encryption at rest ──────────────────────────────────────────────

/// Prefix for encrypted-at-rest message content.
pub const EAR_PREFIX: &'static str = "EAR1:";

/// What stands for a message that cannot be decrypted.
pub const DECRYPTION_FAILED: &'static str = "[decryption failed]";

/// A text as it is stored under a key: the prefix, then nonce and ciphertext in base64.
pub open spec fn encrypted(key: Seq<u8>, nonce: Seq<u8>, text: Seq<char>) -> Seq<char> {
    EAR_PREFIX@ + crypto::base64_encoded(nonce + crypto::aes_sealed(key, nonce, vstd::utf8::encode_utf8(text)))
}

/// What the decoded part behind the prefix gives, with the nonce in its first 12 bytes.
pub open spec fn unsealed(key: Seq<u8>, decoded: Option<Seq<u8>>) -> Seq<char> {
    match decoded {
        Some(b) => if b.len() > 12 {
            match crypto::aes_opened(key, b.take(12), b.skip(12)) {
                Some(plain) => crypto::text_of_bytes(plain),
                None => DECRYPTION_FAILED@,
            }
        } else {
            DECRYPTION_FAILED@
        },
        None => DECRYPTION_FAILED@,
    }
}

/// What a stored text says under a key. A text without the prefix says what it holds.
pub open spec fn decrypted(key: Seq<u8>, stored: Seq<char>) -> Seq<char> {
    match text::strip_prefix_spec(stored, EAR_PREFIX@) {
        None => stored,
        Some(b64) => unsealed(key, crypto::base64_decoded(b64)),
    }
}

/// Encrypt a text under a key and a nonce. Decrypting it under the same key gives the text back.
pub fn encrypt_with_nonce(key: &[u8; 32], nonce: &[u8; 12], plaintext: &str) -> (r: String)
    requires
        vstd::utf8::encode_utf8(plaintext@).len() <= crypto::MAX_PLAINTEXT,
    ensures
        r@ == encrypted(key@, nonce@, plaintext@),
        decrypted(key@, r@) == plaintext@,
{
    let sealed = aes_encrypt(key, nonce, plaintext.as_bytes());
    let mut combined: Vec<u8> = Vec::new();
    let mut i: usize = 0;
    while i < 12
        invariant
            i <= 12,
            nonce@.len() == 12,
            combined@ == nonce@.take(i as int),
        decreases 12 - i,
    {
        combined.push(nonce[i]);
        i = i + 1;
        assert(combined@ =~= nonce@.take(i as int));
    }
    assert(nonce@.take(12) =~= nonce@);
    let mut j: usize = 0;
    while j < sealed.len()
        invariant
            j <= sealed@.len(),
            combined@ == nonce@ + sealed@.take(j as int),
        decreases sealed@.len() - j,
    {
        combined.push(sealed[j]);
        j = j + 1;
        assert(combined@ =~= nonce@ + sealed@.take(j as int));
    }
    assert(sealed@.take(sealed@.len() as int) =~= sealed@);
    let b64 = base64_encode(&combined);
    let r = Line::new(EAR_PREFIX).add(b64.as_str()).done();
    proof {
        broadcast use vstd::utf8::encode_utf8_valid_utf8, vstd::utf8::encode_utf8_decode_utf8;
        assert(r@.take(EAR_PREFIX@.len() as int) =~= EAR_PREFIX@);
        assert(r@.skip(EAR_PREFIX@.len() as int) =~= b64@);
        assert(combined@.take(12) =~= nonce@);
        assert(combined@.skip(12) =~= sealed@);
    }
    r
}

/// Encrypt text with AES-256-GCM for storage at rest.
pub fn encrypt_at_rest(key: &[u8; 32], plaintext: &str) -> (r: String)
    requires
        vstd::utf8::encode_utf8(plaintext@).len() <= crypto::MAX_PLAINTEXT,
    ensures
        exists|nonce: Seq<u8>| nonce.len() == 12 && r@ == #[trigger] encrypted(key@, nonce, plaintext@),
        decrypted(key@, r@) == plaintext@,
{
    let nonce = random_nonce();
    assert(nonce@.len() == 12);
    encrypt_with_nonce(key, &nonce, plaintext)
}

/// What the decoded part behind the prefix says under a key.
pub fn unseal(key: &[u8; 32], decoded: Option<Vec<u8>>) -> (r: String)
    ensures
        r@ == unsealed(key@, decoded.deep_view()),
{
    if let Some(combined) = decoded {
        assert(combined.deep_view() =~= combined@);
        if combined.len() > 12 {
            let nonce = array12(&combined);
            let mut sealed: Vec<u8> = Vec::new();
            let mut i: usize = 12;
            while i < combined.len()
                invariant
                    12 <= i <= combined@.len(),
                    sealed@ == combined@.subrange(12, i as int),
                decreases combined@.len() - i,
            {
                sealed.push(combined[i]);
                i = i + 1;
                assert(sealed@ =~= combined@.subrange(12, i as int));
            }
            assert(sealed@ =~= combined@.skip(12));
            if let Some(plain) = aes_decrypt(key, &nonce, sealed.as_slice()) {
                assert(plain.deep_view() =~= plain@);
                return to_lossy_text(&plain);
            }
        }
    }
    DECRYPTION_FAILED.to_owned()
}

/// Decrypt text from at-rest storage. Text without the prefix is returned as it is; where
/// decryption fails, a placeholder is.
pub fn decrypt_at_rest(key: &[u8; 32], stored: &str) -> (r: String)
    ensures
        r@ == decrypted(key@, stored@),
{
    match strip_prefix(stored, EAR_PREFIX) {
        None => stored.to_owned(),
        Some(b64) => unseal(key, base64_decode(b64.as_str())),
    }
}

/// What a stored text says in a database that may have a key.
pub open spec fn read_spec(key: Option<Seq<u8>>, stored: Seq<char>) -> Seq<char> {
    match key {
        Some(k) => decrypted(k, stored),
        None => stored,
    }
}

/// A text as a database stores it: encrypted where it has a key. It reads back as the text.
pub fn stored_text(key: &Option<[u8; 32]>, text: &str) -> (r: String)
    requires
        vstd::utf8::encode_utf8(text@).len() <= crypto::MAX_PLAINTEXT,
    ensures
        key is None ==> r@ == text@,
        key matches Some(k) ==> exists|nonce: Seq<u8>| nonce.len() == 12 && r@ == #[trigger] encrypted(k@, nonce, text@),
        read_spec(key.deep_view(), r@) == text@,
{
    match key {
        Some(k) => {
            assert(k.deep_view() =~= k@);
            encrypt_at_rest(k, text)
        },
        None => text.to_owned(),
    }
}

/// What a stored text says.
pub fn read_text(key: &Option<[u8; 32]>, stored: &str) -> (r: String)
    ensures
        r@ == read_spec(key.deep_view(), stored@),
{
    match key {
        Some(k) => {
            assert(k.deep_view() =~= k@);
            decrypt_at_rest(k, stored)
        },
        None => stored.to_owned(),
    }
}

// ── Messages ────────────────────────────────────────────────────────

/// A map with some pairs put into it one after the other.
pub open spec fn map_of_pairs(pairs: Seq<(Seq<char>, Seq<char>)>) -> Seq<(Seq<char>, Seq<char>)>
    decreases pairs.len(),
{
    if pairs.len() == 0 {
        Seq::empty()
    } else {
        containers::map_put(map_of_pairs(pairs.drop_last()), pairs.last().0, pairs.last().1)
    }
}

/// The pairs of distinct names make a map of their own.
pub proof fn lemma_map_of_distinct(pairs: Seq<(Seq<char>, Seq<char>)>)
    requires
        containers::map_distinct(pairs),
    ensures
        map_of_pairs(pairs) == pairs,
    decreases pairs.len(),
{
    if pairs.len() > 0 {
        let before = pairs.drop_last();
        assert(containers::map_distinct(before)) by {
            assert forall|i: int, j: int| 0 <= i < j < before.len() implies #[trigger] before[i].0 != #[trigger] before[j].0 by {
                assert(before[i] == pairs[i]);
                assert(before[j] == pairs[j]);
            }
        }
        lemma_map_of_distinct(before);
        containers::lemma_map_find(before, pairs.last().0);
        assert(containers::map_find(before, pairs.last().0) is None);
        assert(pairs =~= before.push(pairs.last()));
    } else {
        assert(pairs =~= Seq::empty());
    }
}

/// The tags that a row holds: none where it cannot be read.
pub open spec fn tags_spec(parsed: Option<Seq<(Seq<char>, Seq<char>)>>) -> Seq<(Seq<char>, Seq<char>)> {
    match parsed {
        Some(pairs) => map_of_pairs(pairs),
        None => Seq::empty(),
    }
}

/// The tags that a row holds, from what its JSON text says.
pub fn tags_of(parsed: Option<Vec<(String, String)>>) -> (r: StrMap<String>)
    ensures
        r.wf(),
        r.deep_view() == tags_spec(parsed.deep_view()),
{
    let mut r: StrMap<String> = StrMap::new();
    if let Some(pairs) = parsed {
        let mut i: usize = 0;
        let ghost all = pairs.deep_view();
        assert(all.take(0) =~= Seq::empty());
        while i < pairs.len()
            invariant
                i <= pairs@.len(),
                all == pairs.deep_view(),
                r.wf(),
                r.deep_view() == map_of_pairs(all.take(i as int)),
            decreases pairs@.len() - i,
        {
            let ghost before = r.deep_view();
            r.insert(pairs[i].0.dup(), pairs[i].1.dup());
            assert(all[i as int] == pairs@[i as int].deep_view());
            assert(all.take(i + 1).drop_last() =~= all.take(i as int));
            assert(all.take(i + 1).last() == all[i as int]);
            i = i + 1;
        }
        assert(all.take(all.len() as int) =~= all);
    }
    r
}

/// Tags as the JSON text that a row holds. It reads back as tags of the same values.
pub fn tags_json(tags: &StrMap<String>) -> (r: String)
    requires
        tags.wf(),
    ensures
        json::pairs_of_json(r@) is Some,
        containers::map_distinct(json::pairs_of_json(r@)->0),
        forall|k: Seq<char>| containers::map_get(json::pairs_of_json(r@)->0, k) == containers::map_get(tags.deep_view(), k),
{
    let mut pairs: Vec<(String, String)> = Vec::new();
    let mut i: usize = 0;
    while i < tags.len()
        invariant
            i <= tags.deep_view().len(),
            pairs.deep_view() == tags.deep_view().take(i as int),
        decreases tags.deep_view().len() - i,
    {
        let ghost before = pairs.deep_view();
        let pair = (tags.key_at(i).dup(), tags.value_at(i).dup());
        let ghost seen = pair.deep_view();
        pairs.push(pair);
        assert(pairs.deep_view() =~= before.push(seen));
        assert(seen == tags.deep_view()[i as int]);
        i = i + 1;
        assert(pairs.deep_view() =~= tags.deep_view().take(i as int));
    }
    assert(tags.deep_view().take(tags.deep_view().len() as int) =~= tags.deep_view());
    pairs_to_json(&pairs)
}

/// A number of the database as an unsigned one, of the same 64 bits.
pub fn to_u64(v: i64) -> (r: u64)
    ensures
        r == v as u64,
{
    v as u64
}

/// A number as the database holds it, of the same 64 bits.
pub fn to_i64(v: u64) -> (r: i64)
    ensures
        r == v as i64,
        r as u64 == v,
{
    proof {
        assert((v as i64) as u64 == v) by (bit_vector);
    }
    v as i64
}

/// What a stored message says.
pub open spec fn message_spec(
    key: Option<Seq<u8>>,
    rec: MessageRecordView,
    tags: Option<Seq<(Seq<char>, Seq<char>)>>,
) -> MessageRowView {
    MessageRowView {
        id: rec.id,
        channel: rec.channel,
        sender: rec.sender,
        text: read_spec(key, rec.text),
        timestamp: rec.timestamp as u64,
        tags: tags_spec(tags),
        msgid: rec.msgid,
        replaces_msgid: rec.replaces_msgid,
        deleted_at: match rec.deleted_at {
            Some(t) => Some(t as u64),
            None => None,
        },
        sender_did: rec.sender_did,
    }
}

/// What a stored message says, from what its tags hold.
pub fn read_message_with(key: &Option<[u8; 32]>, rec: &MessageRecord, tags: Option<Vec<(String, String)>>) -> (r: MessageRow)
    ensures
        r.deep_view() == message_spec(key.deep_view(), rec.deep_view(), tags.deep_view()),
        r.tags.wf(),
{
    let deleted_at = match rec.deleted_at {
        Some(t) => Some(to_u64(t)),
        None => None,
    };
    assert(deleted_at.deep_view() == message_spec(key.deep_view(), rec.deep_view(), tags.deep_view()).deleted_at);
    MessageRow {
        id: rec.id,
        channel: rec.channel.dup(),
        sender: rec.sender.dup(),
        text: read_text(key, rec.text.as_str()),
        timestamp: to_u64(rec.timestamp),
        tags: tags_of(tags),
        msgid: rec.msgid.dup(),
        replaces_msgid: rec.replaces_msgid.dup(),
        deleted_at,
        sender_did: rec.sender_did.dup(),
    }
}

/// What a stored message says.
pub fn read_message(key: &Option<[u8; 32]>, rec: &MessageRecord) -> (r: MessageRow)
    ensures
        r.deep_view() == message_spec(key.deep_view(), rec.deep_view(), json::pairs_of_json(rec.tags_json@)),
        r.tags.wf(),
{
    read_message_with(key, rec, pairs_from_json(rec.tags_json.as_str()))
}

/// What stored messages say, in their order.
pub open spec fn messages_spec(key: Option<Seq<u8>>, recs: Seq<MessageRecordView>) -> Seq<MessageRowView> {
    recs.map_values(|rec: MessageRecordView| message_spec(key, rec, json::pairs_of_json(rec.tags_json)))
}

/// What stored messages say, in their order: rows that were asked for oldest first.
pub fn read_messages(key: &Option<[u8; 32]>, recs: &Vec<MessageRecord>) -> (r: Vec<MessageRow>)
    ensures
        r.deep_view() == messages_spec(key.deep_view(), recs.deep_view()),
{
    let mut out: Vec<MessageRow> = Vec::new();
    let mut i: usize = 0;
    while i < recs.len()
        invariant
            i <= recs@.len(),
            out.deep_view() == messages_spec(key.deep_view(), recs.deep_view().take(i as int)),
        decreases recs@.len() - i,
    {
        let ghost before = out.deep_view();
        let row = read_message(key, &recs[i]);
        let ghost seen = row.deep_view();
        out.push(row);
        assert(out.deep_view() =~= before.push(seen));
        assert(recs.deep_view()[i as int] == recs@[i as int].deep_view());
        i = i + 1;
        assert(out.deep_view() =~= messages_spec(key.deep_view(), recs.deep_view().take(i as int)));
    }
    assert(recs.deep_view().take(recs@.len() as int) =~= recs.deep_view());
    out
}

/// What stored messages say, oldest first, of rows that were asked for newest first.
pub fn read_newest_messages(key: &Option<[u8; 32]>, recs: &Vec<MessageRecord>) -> (r: Vec<MessageRow>)
    ensures
        r.deep_view() == messages_spec(key.deep_view(), recs.deep_view()).reverse(),
{
    let mut out: Vec<MessageRow> = Vec::new();
    let mut i: usize = recs.len();
    let ghost all = messages_spec(key.deep_view(), recs.deep_view());
    assert(all.skip(all.len() as int).reverse() =~= Seq::empty());
    while i > 0
        invariant
            i <= recs@.len(),
            all == messages_spec(key.deep_view(), recs.deep_view()),
            all.len() == recs@.len(),
            out.deep_view() == all.skip(i as int).reverse(),
        decreases i,
    {
        i = i - 1;
        let ghost before = out.deep_view();
        let row = read_message(key, &recs[i]);
        let ghost seen = row.deep_view();
        out.push(row);
        assert(out.deep_view() =~= before.push(seen));
        assert(recs.deep_view()[i as int] == recs@[i as int].deep_view());
        assert(seen == all[i as int]);
        assert(out.deep_view() =~= all.skip(i as int).reverse());
    }
    assert(all.skip(0) =~= all);
    out
}

/// A message as its table takes it; the table numbers its rows itself. Read back, it says what was
/// stored.
pub fn message_record(
    key: &Option<[u8; 32]>,
    channel: &str,
    sender: &str,
    text: &str,
    timestamp: u64,
    tags: &StrMap<String>,
    msgid: Option<&str>,
    replaces_msgid: Option<&str>,
    sender_did: Option<&str>,
) -> (r: MessageRecord)
    requires
        tags.wf(),
        vstd::utf8::encode_utf8(text@).len() <= crypto::MAX_PLAINTEXT,
    ensures
        key is None ==> r.text@ == text@,
        key matches Some(k) ==> exists|nonce: Seq<u8>| nonce.len() == 12 && r.text@ == #[trigger] encrypted(k@, nonce, text@),
        ({
            let row = message_spec(key.deep_view(), r.deep_view(), json::pairs_of_json(r.tags_json@));
            &&& row.channel == channel@
            &&& row.sender == sender@
            &&& row.text == text@
            &&& row.timestamp == timestamp
            &&& forall|k: Seq<char>| containers::map_get(row.tags, k) == containers::map_get(tags.deep_view(), k)
            &&& row.msgid == msgid.deep_view()
            &&& row.replaces_msgid == replaces_msgid.deep_view()
            &&& row.deleted_at == None::<u64>
            &&& row.sender_did == sender_did.deep_view()
        }),
{
    let r = MessageRecord {
        id: 0,
        channel: channel.to_owned(),
        sender: sender.to_owned(),
        text: stored_text(key, text),
        timestamp: to_i64(timestamp),
        tags_json: tags_json(tags),
        msgid: owned(msgid),
        replaces_msgid: owned(replaces_msgid),
        deleted_at: None,
        sender_did: owned(sender_did),
    };
    proof {
        lemma_map_of_distinct(json::pairs_of_json(r.tags_json@)->0);
    }
    r
}

/// An optional text of its own.
fn owned(o: Option<&str>) -> (r: Option<String>)
    ensures
        r.deep_view() == o.deep_view(),
{
    match o {
        Some(s) => Some(s.to_owned()),
        None => None,
    }
}

// ── Channels ────────────────────────────────────────────────────────

/// A flag as the database holds it.
pub open spec fn flag(b: bool) -> i32 {
    if b {
        1
    } else {
        0
    }
}

/// A flag as the database holds it.
fn to_flag(b: bool) -> (r: i32)
    ensures
        r == flag(b),
{
    if b {
        1
    } else {
        0
    }
}

/// The columns of a channel, but for the list of its operators, and with it as a text.
pub open spec fn channel_record_spec(name: Seq<char>, ch: ChannelStateView, did_ops_json: Seq<char>) -> ChannelRecordView {
    ChannelRecordView {
        name,
        topic_text: match ch.topic {
            Some(t) => Some(t.text),
            None => None,
        },
        topic_set_by: match ch.topic {
            Some(t) => Some(t.set_by),
            None => None,
        },
        topic_set_at: match ch.topic {
            Some(t) => Some(t.set_at as i64),
            None => None,
        },
        topic_locked: flag(ch.topic_locked),
        invite_only: flag(ch.invite_only),
        no_ext_msg: Some(flag(ch.no_ext_msg)),
        moderated: Some(flag(ch.moderated)),
        key: ch.key,
        founder_did: ch.founder_did,
        did_ops_json: Some(did_ops_json),
    }
}

/// What is left of a channel when it is stored and loaded: its topic, its modes, its key, its
/// founder and its operators by DID.
pub open spec fn persisted(ch: ChannelStateView) -> ChannelStateView {
    ChannelStateView {
        topic: ch.topic,
        topic_locked: ch.topic_locked,
        invite_only: ch.invite_only,
        no_ext_msg: ch.no_ext_msg,
        moderated: ch.moderated,
        key: ch.key,
        founder_did: ch.founder_did,
        did_ops: ch.did_ops,
        ..crate::connection::join::empty_channel()
    }
}

/// Whether a column holds a flag that is set; none is set where it holds nothing.
pub open spec fn is_set(column: Option<i32>) -> bool {
    column matches Some(v) && v != 0
}

/// A set with some strings put into it one after the other.
pub open spec fn set_of_list(list: Seq<Seq<char>>) -> Seq<Seq<char>>
    decreases list.len(),
{
    if list.len() == 0 {
        Seq::empty()
    } else {
        containers::set_insert(set_of_list(list.drop_last()), list.last())
    }
}

/// Distinct strings make a set of their own.
pub proof fn lemma_set_of_distinct(list: Seq<Seq<char>>)
    requires
        list.no_duplicates(),
    ensures
        set_of_list(list) == list,
    decreases list.len(),
{
    if list.len() > 0 {
        let before = list.drop_last();
        lemma_set_of_distinct(before);
        assert(!before.contains(list.last())) by {
            if before.contains(list.last()) {
                let i = choose|i: int| 0 <= i < before.len() && before[i] == list.last();
                assert(list[i] == list[list.len() - 1]);
            }
        }
        assert(list =~= before.push(list.last()));
    } else {
        assert(list =~= Seq::empty());
    }
}

/// The channel that a record stands for, from what its list of operators holds.
pub open spec fn channel_spec(rec: ChannelRecordView, did_ops: Option<Seq<Seq<char>>>) -> ChannelStateView {
    ChannelStateView {
        topic: match (rec.topic_text, rec.topic_set_by, rec.topic_set_at) {
            (Some(text), Some(set_by), Some(set_at)) => Some(TopicInfoView { text, set_by, set_at: set_at as u64 }),
            _ => None,
        },
        topic_locked: rec.topic_locked != 0,
        invite_only: rec.invite_only != 0,
        no_ext_msg: is_set(rec.no_ext_msg),
        moderated: is_set(rec.moderated),
        key: rec.key,
        founder_did: rec.founder_did,
        did_ops: match did_ops {
            Some(list) => set_of_list(list),
            None => Seq::empty(),
        },
        ..crate::connection::join::empty_channel()
    }
}

/// The list of operators that a record holds: none where it holds nothing or no list.
pub open spec fn operators_of(rec: ChannelRecordView) -> Option<Seq<Seq<char>>> {
    match rec.did_ops_json {
        Some(j) => json::list_of_json(j),
        None => Some(Seq::empty()),
    }
}

/// A channel as its table takes it. Loaded, it is the channel without who is in it, its bans and
/// its messages.
pub fn channel_record(name: &str, ch: &ChannelState) -> (r: ChannelRecord)
    requires
        ch.did_ops.wf(),
    ensures
        r.did_ops_json is Some,
        r.deep_view() == channel_record_spec(name@, ch.deep_view(), r.did_ops_json->0@),
        json::list_of_json(r.did_ops_json->0@) == Some(ch.did_ops.deep_view()),
        channel_spec(r.deep_view(), operators_of(r.deep_view())) == persisted(ch.deep_view()),
{
    let (topic_text, topic_set_by, topic_set_at) = match &ch.topic {
        Some(t) => (Some(t.text.dup()), Some(t.set_by.dup()), Some(to_i64(t.set_at))),
        None => (None, None, None),
    };
    let dids = ch.did_ops.to_vec();
    let did_ops_json = list_to_json(&dids);
    let r = ChannelRecord {
        name: name.to_owned(),
        topic_text,
        topic_set_by,
        topic_set_at,
        topic_locked: to_flag(ch.topic_locked),
        invite_only: to_flag(ch.invite_only),
        no_ext_msg: Some(to_flag(ch.no_ext_msg)),
        moderated: Some(to_flag(ch.moderated)),
        key: ch.key.dup(),
        founder_did: ch.founder_did.dup(),
        did_ops_json: Some(did_ops_json),
    };
    proof {
        lemma_set_of_distinct(ch.did_ops.deep_view());
        assert(r.deep_view() == channel_record_spec(name@, ch.deep_view(), r.did_ops_json->0@));
        assert(operators_of(r.deep_view()) == Some(ch.did_ops.deep_view()));
        assert(channel_spec(r.deep_view(), operators_of(r.deep_view())).topic == ch.deep_view().topic);
    }
    r
}

/// The channel that a record stands for, from what its list of operators holds.
pub fn channel_of(rec: &ChannelRecord, did_ops: Option<Vec<String>>) -> (r: ChannelState)
    ensures
        r.deep_view() == channel_spec(rec.deep_view(), did_ops.deep_view()),
{
    let mut ch = ChannelState::new();
    if let (Some(text), Some(set_by), Some(set_at)) = (&rec.topic_text, &rec.topic_set_by, rec.topic_set_at) {
        ch.topic = Some(TopicInfo { text: text.dup(), set_by: set_by.dup(), set_at: to_u64(set_at) });
    }
    ch.topic_locked = rec.topic_locked != 0;
    ch.invite_only = rec.invite_only != 0;
    ch.no_ext_msg = match rec.no_ext_msg {
        Some(v) => v != 0,
        None => false,
    };
    ch.moderated = match rec.moderated {
        Some(v) => v != 0,
        None => false,
    };
    ch.key = rec.key.dup();
    ch.founder_did = rec.founder_did.dup();
    let mut ops = StrSet::new();
    if let Some(list) = did_ops {
        let mut i: usize = 0;
        let ghost all = list.deep_view();
        assert(all.take(0) =~= Seq::empty());
        while i < list.len()
            invariant
                i <= list@.len(),
                all == list.deep_view(),
                ops.wf(),
                ops.deep_view() == set_of_list(all.take(i as int)),
            decreases list@.len() - i,
        {
            ops.insert(list[i].dup());
            assert(all[i as int] == list@[i as int].deep_view());
            assert(all.take(i + 1).drop_last() =~= all.take(i as int));
            assert(all.take(i + 1).last() == all[i as int]);
            i = i + 1;
        }
        assert(all.take(all.len() as int) =~= all);
    }
    ch.did_ops = ops;
    assert(ch.deep_view() == channel_spec(rec.deep_view(), did_ops.deep_view()));
    ch
}

/// The channels of some records, by name; a later record takes the place of an earlier one.
pub open spec fn channels_spec(recs: Seq<ChannelRecordView>) -> Seq<(Seq<char>, ChannelStateView)>
    decreases recs.len(),
{
    if recs.len() == 0 {
        Seq::empty()
    } else {
        containers::map_put(
            channels_spec(recs.drop_last()),
            recs.last().name,
            channel_spec(recs.last(), operators_of(recs.last())),
        )
    }
}

/// A ban as the server holds it.
pub open spec fn ban_spec(rec: BanRecordView) -> BanEntryView {
    BanEntryView { mask: rec.mask, set_by: rec.set_by, set_at: rec.set_at as u64 }
}

/// Channels with bans added to them in order; a ban of no channel is passed over.
pub open spec fn banned_spec(
    channels: Seq<(Seq<char>, ChannelStateView)>,
    bans: Seq<BanRecordView>,
) -> Seq<(Seq<char>, ChannelStateView)>
    decreases bans.len(),
{
    if bans.len() == 0 {
        channels
    } else {
        let before = banned_spec(channels, bans.drop_last());
        match containers::map_get(before, bans.last().channel) {
            Some(ch) => containers::map_put(
                before,
                bans.last().channel,
                ChannelStateView { bans: ch.bans.push(ban_spec(bans.last())), ..ch },
            ),
            None => before,
        }
    }
}

/// Load all persisted channels with their bans, from their records.
pub fn load_channels(recs: &Vec<ChannelRecord>, bans: &Vec<BanRecord>) -> (r: StrMap<ChannelState>)
    ensures
        r.wf(),
        r.deep_view() == banned_spec(channels_spec(recs.deep_view()), bans.deep_view()),
{
    let mut channels: StrMap<ChannelState> = StrMap::new();
    let mut i: usize = 0;
    let ghost all = recs.deep_view();
    assert(all.take(0) =~= Seq::empty());
    while i < recs.len()
        invariant
            i <= recs@.len(),
            all == recs.deep_view(),
            channels.wf(),
            channels.deep_view() == channels_spec(all.take(i as int)),
        decreases recs@.len() - i,
    {
        let rec = &recs[i];
        let list = match &rec.did_ops_json {
            Some(j) => list_from_json(j.as_str()),
            None => {
                let none: Vec<String> = Vec::new();
                assert(none.deep_view() =~= Seq::<Seq<char>>::empty());
                Some(none)
            },
        };
        assert(list.deep_view() == operators_of(rec.deep_view()));
        let ch = channel_of(rec, list);
        channels.insert(rec.name.dup(), ch);
        assert(all[i as int] == rec.deep_view());
        assert(all.take(i + 1).drop_last() =~= all.take(i as int));
        assert(all.take(i + 1).last() == all[i as int]);
        i = i + 1;
    }
    assert(all.take(all.len() as int) =~= all);
    let ghost loaded = channels.deep_view();
    let ghost every = bans.deep_view();
    let mut j: usize = 0;
    assert(every.take(0) =~= Seq::empty());
    while j < bans.len()
        invariant
            j <= bans@.len(),
            every == bans.deep_view(),
            channels.wf(),
            channels.deep_view() == banned_spec(loaded, every.take(j as int)),
        decreases bans@.len() - j,
    {
        let rec = &bans[j];
        let ghost before = channels.deep_view();
        assert(every[j as int] == rec.deep_view());
        assert(every.take(j + 1).drop_last() =~= every.take(j as int));
        assert(every.take(j + 1).last() == every[j as int]);
        if let Some(ch) = channels.get_mut(rec.channel.as_str()) {
            let ghost was = ch.deep_view();
            let ban = BanEntry { mask: rec.mask.dup(), set_by: rec.set_by.dup(), set_at: to_u64(rec.set_at) };
            assert(ban.deep_view() == ban_spec(rec.deep_view()));
            ch.bans.push(ban);
            assert(ch.deep_view().bans =~= was.bans.push(ban_spec(rec.deep_view())));
            assert(ch.deep_view() == (ChannelStateView { bans: was.bans.push(ban_spec(rec.deep_view())), ..was }));
            proof {
                containers::lemma_map_put_distinct(before, rec.channel@, ch.deep_view());
            }
        }
        j = j + 1;
    }
    assert(every.take(every.len() as int) =~= every);
    channels
}

// ── Capability grants and approvals ─────────────────────────────────

/// For how many seconds an approval can be granted.
pub const APPROVAL_SECS: i64 = 3600;

/// When a grant that is given now ends: never where no time is set.
pub fn grant_expiry(now: i64, ttl_seconds: u64) -> (r: Option<i64>)
    requires
        i64::MIN <= now + (ttl_seconds as i64) <= i64::MAX,
    ensures
        ttl_seconds == 0 ==> r is None,
        ttl_seconds > 0 ==> r == Some((now + (ttl_seconds as i64)) as i64),
{
    if ttl_seconds > 0 {
        Some(now + ttl_seconds as i64)
    } else {
        None
    }
}

/// When an approval that is asked for now can no longer be granted.
pub fn approval_expiry(now: i64) -> (r: i64)
    requires
        now + APPROVAL_SECS <= i64::MAX,
    ensures
        r == now + 3600,
{
    now + APPROVAL_SECS
}

/// Whether an approval is the one that an agent waits for.
pub open spec fn awaits(row: PendingApprovalRowView, agent_did: Seq<char>, capability: Seq<char>) -> bool {
    row.agent_did == agent_did && row.capability == capability
}

/// The first of the pending approvals that an agent waits for, of a capability.
pub fn find_pending_approval_for_agent(
    pending: &Vec<PendingApprovalRow>,
    agent_did: &str,
    capability: &str,
) -> (r: Option<PendingApprovalRow>)
    ensures
        r is None <==> forall|i: int| 0 <= i < pending@.len() ==> !awaits(#[trigger] pending.deep_view()[i], agent_did@, capability@),
        r is Some ==> exists|i: int|
            {
                &&& 0 <= i < pending@.len()
                &&& r->0.deep_view() == #[trigger] pending.deep_view()[i]
                &&& awaits(pending.deep_view()[i], agent_did@, capability@)
                &&& forall|j: int| 0 <= j < i ==> !awaits(#[trigger] pending.deep_view()[j], agent_did@, capability@)
            },
{
    let mut i: usize = 0;
    while i < pending.len()
        invariant
            i <= pending@.len(),
            forall|j: int| 0 <= j < i ==> !awaits(#[trigger] pending.deep_view()[j], agent_did@, capability@),
        decreases pending@.len() - i,
    {
        let row = &pending[i];
        assert(pending.deep_view()[i as int] == row.deep_view());
        if text::str_eq(row.agent_did.as_str(), agent_did) && text::str_eq(row.capability.as_str(), capability) {
            let found = row.dup();
            assert(found.deep_view() == pending.deep_view()[i as int]);
            return Some(found);
        }
        i = i + 1;
    }
    None
}

/// Under which names the budget of a channel is looked up, one after the other: that of the agent,
/// and that of the channel.
pub fn budget_keys(agent_did: Option<&str>) -> (r: Vec<String>)
    ensures
        agent_did is None ==> r.deep_view() == seq!["*"@],
        agent_did matches Some(did) ==> r.deep_view() == seq![did@, "*"@],
{
    let mut r: Vec<String> = Vec::new();
    if let Some(did) = agent_did {
        r.push(did.to_owned());
    }
    r.push("*".to_owned());
    assert(agent_did is None ==> r.deep_view() =~= seq!["*"@]);
    assert(agent_did matches Some(did) ==> r.deep_view() =~= seq![did@, "*"@]);
    r
}

/// Under which name a budget is kept.
pub fn budget_key(agent_did: Option<&str>) -> (r: String)
    ensures
        agent_did is None ==> r@ == "*"@,
        agent_did matches Some(did) ==> r@ == did@,
{
    match agent_did {
        Some(did) => did.to_owned(),
        None => "*".to_owned(),
    }
}

/// Whether a key is that of a conversation that a DID takes part in: one of its two halves is that
/// DID.
pub open spec fn conversation_of(key: Seq<char>, did: Seq<char>) -> bool {
    exists|other: Seq<char>| key == #[trigger] dm_key(did, other)
}

/// A key of a DID's conversation begins or ends with that DID.
proof fn lemma_halves(key: Seq<char>, did: Seq<char>, other: Seq<char>)
    requires
        key == dm_key(did, other),
    ensures
        key == "dm:"@ + did + ","@ + other || key == "dm:"@ + other + ","@ + did,
        key == "dm:"@ + did + ","@ + other ==> other == key.subrange(4 + did.len() as int, key.len() as int),
        key == "dm:"@ + other + ","@ + did ==> other == key.subrange(3, key.len() - did.len() - 1),
        key.len() == 4 + did.len() + other.len(),
{
    reveal_strlit("dm:");
    reveal_strlit(",");
    if key == "dm:"@ + did + ","@ + other {
        assert(other =~= key.subrange(4 + did.len() as int, key.len() as int));
    }
    if key == "dm:"@ + other + ","@ + did {
        assert(other =~= key.subrange(3, key.len() - did.len() - 1));
    }
}

/// Whether a key is that of a conversation that a DID takes part in.
pub fn is_conversation_of(key: &str, did: &str) -> (r: bool)
    ensures
        r == conversation_of(key@, did@),
{
    let v = chars_of(key);
    let n: usize = chars_of(did).len();
    proof {
        if conversation_of(key@, did@) {
            let other = choose|other: Seq<char>| key@ == #[trigger] dm_key(did@, other);
            lemma_halves(key@, did@, other);
        }
    }
    if v.len() < 4 || v.len() - 4 < n {
        return false;
    }
    let second = string_of(&v, 4 + n, v.len());
    let first = string_of(&v, 3, v.len() - n - 1);
    let with_second = canonical_dm_key(did, second.as_str());
    let with_first = canonical_dm_key(did, first.as_str());
    str_eq(key, with_second.as_str()) || str_eq(key, with_first.as_str())
}

/// The conversations of a DID among stored ones, in the same order, at most `limit` of them.
pub open spec fn conversations_spec(did: Seq<char>, rows: Seq<(Seq<char>, u64)>, limit: nat) -> Seq<(Seq<char>, u64)> {
    let own = rows.filter(|row: (Seq<char>, u64)| conversation_of(row.0, did));
    if own.len() <= limit {
        own
    } else {
        own.take(limit as int)
    }
}

/// The conversations of a DID among stored ones: those of which it is one half, in the same order,
/// at most `limit` of them.
pub fn conversations_of(did: &str, rows: &Vec<(String, u64)>, limit: usize) -> (r: Vec<(String, u64)>)
    ensures
        r.deep_view() == conversations_spec(did@, rows.deep_view(), limit as nat),
{
    let ghost all = rows.deep_view();
    let ghost own = |row: (Seq<char>, u64)| conversation_of(row.0, did@);
    let mut out: Vec<(String, u64)> = Vec::new();
    let mut i: usize = 0;
    assert(all.take(0).filter(own) =~= Seq::empty()) by {
        reveal(Seq::filter);
    }
    assert(out.deep_view() =~= Seq::empty());
    while i < rows.len()
        invariant
            i <= rows.len(),
            all == rows.deep_view(),
            own == (|row: (Seq<char>, u64)| conversation_of(row.0, did@)),
            out@.len() <= limit,
            out.deep_view() == conversations_spec(did@, all.take(i as int), limit as nat),
        decreases rows.len() - i,
    {
        let row = &rows[i];
        let ghost seen = all[i as int];
        let ghost before = all.take(i as int);
        proof {
            assert(seen == rows@[i as int].deep_view());
            assert(all.take(i + 1).drop_last() =~= before);
            assert(all.take(i + 1).last() == seen);
            reveal(Seq::filter);
        }
        let ghost had = out.deep_view();
        assert(had.len() == out@.len());
        if is_conversation_of(row.0.as_str(), did) {
            assert(all.take(i + 1).filter(own) == before.filter(own).push(seen));
            if out.len() < limit {
                out.push((row.0.clone(), row.1));
                assert(out.deep_view() =~= had.push(seen));
            } else {
                assert(before.filter(own).push(seen).take(limit as int) =~= had);
            }
        } else {
            assert(all.take(i + 1).filter(own) == before.filter(own));
        }
        i += 1;
    }
    assert(all.take(i as int) =~= all);
    out
}

/// Both participants, and nobody else, find a conversation among their own.
pub proof fn law_conversation_is_found_by_its_halves(a: Seq<char>, b: Seq<char>, did: Seq<char>)
    requires
        !a.contains(','),
        !b.contains(','),
        !did.contains(','),
    ensures
        conversation_of(dm_key(a, b), did) <==> did == a || did == b,
{
    let key = dm_key(a, b);
    law_dm_key_symmetric(a, b);
    assert(key == dm_key(b, a));
    if conversation_of(key, did) {
        let other = choose|other: Seq<char>| key == #[trigger] dm_key(did, other);
        let (x, y) = if str_le(a, b) {
            (a, b)
        } else {
            (b, a)
        };
        reveal_strlit("dm:");
        reveal_strlit(",");
        assert(key[3 + x.len() as int] == ',');
        lemma_halves(key, did, other);
        if key == "dm:"@ + did + ","@ + other {
            assert(key[3 + did.len() as int] == ',');
            if did.len() < x.len() {
                assert(x[did.len() as int] == ',');
            } else if x.len() < did.len() {
                assert(did[x.len() as int] == ',');
            }
            assert(did =~= key.subrange(3, 3 + did.len() as int));
            assert(x =~= key.subrange(3, 3 + x.len() as int));
        } else {
            assert(key[3 + other.len() as int] == ',');
            if other.len() < x.len() {
                assert(x[other.len() as int] == ',');
            } else if x.len() < other.len() {
                assert(y[other.len() - x.len() - 1] == ',');
            }
            assert(did =~= key.subrange(4 + other.len() as int, key.len() as int));
            assert(y =~= key.subrange(4 + x.len() as int, key.len() as int));
        }
    }
}

// ── Bundles ─────────────────────────────────────────────────────────

/// A stored key bundle as JSON: what does not read as JSON is `null`.
pub fn read_bundle(json: &str) -> (r: String)
    ensures
        r@ == (match json::json_of_text(json@) {
            Some(j) => j,
            None => "null"@,
        }),
{
    match json_from_text(json) {
        Some(j) => j,
        None => "null".to_owned(),
    }
}

// ── Queries ─────────────────────────────────────────────────────────

/// What selects coordination events, before the conditions that may follow.
pub const COORDINATION_SELECT: &'static str = "SELECT event_id, event_type, actor_did, channel, ref_id, payload_json, signature, timestamp FROM coordination_events WHERE channel = ?1";

/// What selects spend records, before the conditions that may follow.
pub const SPEND_SELECT: &'static str = "SELECT id, channel, agent_did, amount, unit, description, task_ref, timestamp FROM agent_spend WHERE channel = ?1";

/// What sums the spend of one agent.
pub const SPEND_SUM_OF_AGENT: &'static str = "SELECT COALESCE(SUM(amount), 0.0) FROM agent_spend WHERE channel = ?1 AND agent_did = ?2 AND unit = ?3 AND timestamp >= ?4";

/// What sums the spend of a channel.
pub const SPEND_SUM_OF_CHANNEL: &'static str = "SELECT COALESCE(SUM(amount), 0.0) FROM agent_spend WHERE channel = ?1 AND unit = ?2 AND timestamp >= ?3";

/// What selects the log of a channel.
pub const LOG_OF_CHANNEL: &'static str = "SELECT id, channel, target_did, action, issued_by, reason, timestamp FROM governance_log WHERE channel = ?1 ORDER BY timestamp ASC LIMIT ?2";

/// What selects the whole log.
pub const WHOLE_LOG: &'static str = "SELECT id, channel, target_did, action, issued_by, reason, timestamp FROM governance_log ORDER BY timestamp ASC LIMIT ?1";

/// What selects the coordination events that refer to a task.
pub const TASK_SELECT: &'static str = "SELECT event_id, event_type, actor_did, channel, ref_id, payload_json, signature, timestamp FROM coordination_events WHERE ref_id = ?1";

/// How many events of a task are read.
pub const TASK_EVENT_LIMIT: usize = 1000;

/// A statement with one more condition, on the parameter that comes next, where there is a value
/// for it.
pub open spec fn with_condition(q: QueryView, column: Seq<char>, value: Option<SqlValueView>) -> QueryView {
    match value {
        Some(v) => QueryView {
            sql: q.sql + " AND "@ + column + " ?"@ + text::decimal_spec(q.params.len() + 1),
            params: q.params.push(v),
        },
        None => q,
    }
}

/// An optional text as a value.
pub open spec fn text_value(o: Option<Seq<char>>) -> Option<SqlValueView> {
    match o {
        Some(s) => Some(SqlValueView::Text(s)),
        None => None,
    }
}

/// An optional number as a value.
pub open spec fn integer_value(o: Option<i64>) -> Option<SqlValueView> {
    match o {
        Some(n) => Some(SqlValueView::Integer(n)),
        None => None,
    }
}

impl Query {
    /// Add a condition on the parameter that comes next, where there is a value for it.
    fn add_condition(&mut self, column: &str, value: Option<SqlValue>)
        requires
            old(self).params@.len() < usize::MAX,
        ensures
            final(self).deep_view() == with_condition(old(self).deep_view(), column@, value.deep_view()),
            final(self).params@.len() <= old(self).params@.len() + 1,
    {
        let ghost before = self.deep_view();
        if let Some(v) = value {
            let ghost seen = v.deep_view();
            let n = decimal(self.params.len() as u128 + 1);
            self.sql = Line::new(self.sql.as_str()).add(" AND ").add(column).add(" ?").add(n.as_str()).done();
            self.params.push(v);
            assert(self.params.deep_view() =~= before.params.push(seen));
        }
    }

    /// A statement with one text.
    fn of_text(sql: &str, value: &str) -> (r: Query)
        ensures
            r.deep_view() == (QueryView { sql: sql@, params: seq![SqlValueView::Text(value@)] }),
            r.params@.len() == 1,
    {
        let mut params: Vec<SqlValue> = Vec::new();
        params.push(SqlValue::Text(value.to_owned()));
        assert(params.deep_view() =~= seq![SqlValueView::Text(value@)]);
        Query { sql: sql.to_owned(), params }
    }
}

/// An optional text as a value.
fn value_of_text(o: Option<&str>) -> (r: Option<SqlValue>)
    ensures
        r.deep_view() == text_value(o.deep_view()),
{
    match o {
        Some(s) => Some(SqlValue::Text(s.to_owned())),
        None => None,
    }
}

/// An optional number as a value.
fn value_of_integer(o: Option<i64>) -> (r: Option<SqlValue>)
    ensures
        r.deep_view() == integer_value(o),
{
    match o {
        Some(n) => Some(SqlValue::Integer(n)),
        None => None,
    }
}

/// The statement that finds coordination events: oldest first, those of a channel that meet every
/// condition for which there is a value.
pub open spec fn coordination_spec(
    channel: Seq<char>,
    event_type: Option<Seq<char>>,
    ref_id: Option<Seq<char>>,
    actor_did: Option<Seq<char>>,
    since: Option<i64>,
    limit: nat,
) -> QueryView {
    let q = QueryView { sql: COORDINATION_SELECT@, params: seq![SqlValueView::Text(channel)] };
    let q = with_condition(q, "event_type ="@, text_value(event_type));
    let q = with_condition(q, "ref_id ="@, text_value(ref_id));
    let q = with_condition(q, "actor_did ="@, text_value(actor_did));
    let q = with_condition(q, "timestamp >="@, integer_value(since));
    QueryView { sql: q.sql + " ORDER BY timestamp ASC LIMIT "@ + text::decimal_spec(limit), ..q }
}

/// Query coordination events with optional filters.
pub fn query_coordination_events(
    channel: &str,
    event_type: Option<&str>,
    ref_id: Option<&str>,
    actor_did: Option<&str>,
    since: Option<i64>,
    limit: usize,
) -> (r: Query)
    ensures
        r.deep_view() == coordination_spec(
            channel@,
            event_type.deep_view(),
            ref_id.deep_view(),
            actor_did.deep_view(),
            since,
            limit as nat,
        ),
{
    let mut q = Query::of_text(COORDINATION_SELECT, channel);
    q.add_condition("event_type =", value_of_text(event_type));
    q.add_condition("ref_id =", value_of_text(ref_id));
    q.add_condition("actor_did =", value_of_text(actor_did));
    q.add_condition("timestamp >=", value_of_integer(since));
    let n = decimal(limit as u128);
    q.sql = Line::new(q.sql.as_str()).add(" ORDER BY timestamp ASC LIMIT ").add(n.as_str()).done();
    q
}

/// The statement that finds the events of a task: oldest first, those that refer to it, in whatever
/// channel they are.
pub open spec fn task_spec(task_id: Seq<char>) -> QueryView {
    QueryView {
        sql: TASK_SELECT@ + " ORDER BY timestamp ASC LIMIT "@ + text::decimal_spec(TASK_EVENT_LIMIT as nat),
        params: seq![SqlValueView::Text(task_id)],
    }
}

/// Get all events referencing a task ID.
pub fn get_task_events(task_id: &str) -> (r: Query)
    ensures
        r.deep_view() == task_spec(task_id@),
{
    let mut q = Query::of_text(TASK_SELECT, task_id);
    let n = decimal(TASK_EVENT_LIMIT as u128);
    q.sql = Line::new(q.sql.as_str()).add(" ORDER BY timestamp ASC LIMIT ").add(n.as_str()).done();
    q
}

/// The statement that finds spend records: newest first, those of a channel that meet every
/// condition for which there is a value.
pub open spec fn spend_spec(channel: Seq<char>, agent_did: Option<Seq<char>>, since: Option<i64>, limit: nat) -> QueryView {
    let q = QueryView { sql: SPEND_SELECT@, params: seq![SqlValueView::Text(channel)] };
    let q = with_condition(q, "agent_did ="@, text_value(agent_did));
    let q = with_condition(q, "timestamp >="@, integer_value(since));
    QueryView { sql: q.sql + " ORDER BY timestamp DESC LIMIT "@ + text::decimal_spec(limit), ..q }
}

/// Query spend records with optional filters.
pub fn query_spend(channel: &str, agent_did: Option<&str>, since: Option<i64>, limit: usize) -> (r: Query)
    ensures
        r.deep_view() == spend_spec(channel@, agent_did.deep_view(), since, limit as nat),
{
    let mut q = Query::of_text(SPEND_SELECT, channel);
    q.add_condition("agent_did =", value_of_text(agent_did));
    q.add_condition("timestamp >=", value_of_integer(since));
    let n = decimal(limit as u128);
    q.sql = Line::new(q.sql.as_str()).add(" ORDER BY timestamp DESC LIMIT ").add(n.as_str()).done();
    q
}

/// The statement that sums the spend of a channel or of one agent in it.
pub open spec fn spend_sum_spec(channel: Seq<char>, agent_did: Option<Seq<char>>, unit: Seq<char>, since: i64) -> QueryView {
    match agent_did {
        Some(did) => QueryView {
            sql: SPEND_SUM_OF_AGENT@,
            params: seq![
                SqlValueView::Text(channel),
                SqlValueView::Text(did),
                SqlValueView::Text(unit),
                SqlValueView::Integer(since),
            ],
        },
        None => QueryView {
            sql: SPEND_SUM_OF_CHANNEL@,
            params: seq![SqlValueView::Text(channel), SqlValueView::Text(unit), SqlValueView::Integer(since)],
        },
    }
}

/// Sum spend for a channel/agent/unit since a given timestamp.
pub fn sum_spend(channel: &str, agent_did: Option<&str>, unit: &str, since: i64) -> (r: Query)
    ensures
        r.deep_view() == spend_sum_spec(channel@, agent_did.deep_view(), unit@, since),
{
    let mut params: Vec<SqlValue> = Vec::new();
    params.push(SqlValue::Text(channel.to_owned()));
    let sql = match agent_did {
        Some(did) => {
            params.push(SqlValue::Text(did.to_owned()));
            SPEND_SUM_OF_AGENT
        },
        None => SPEND_SUM_OF_CHANNEL,
    };
    params.push(SqlValue::Text(unit.to_owned()));
    params.push(SqlValue::Integer(since));
    assert(params.deep_view() =~= spend_sum_spec(channel@, agent_did.deep_view(), unit@, since).params);
    Query { sql: sql.to_owned(), params }
}

/// The statement that reads the governance log of a channel, or all of it, oldest first.
pub open spec fn governance_spec(channel: Option<Seq<char>>, limit: i64) -> QueryView {
    match channel {
        Some(ch) => QueryView {
            sql: LOG_OF_CHANNEL@,
            params: seq![SqlValueView::Text(ch), SqlValueView::Integer(limit)],
        },
        None => QueryView { sql: WHOLE_LOG@, params: seq![SqlValueView::Integer(limit)] },
    }
}

/// Query governance log entries for a channel.
pub fn query_governance_log(channel: Option<&str>, limit: usize) -> (r: Query)
    ensures
        r.deep_view() == governance_spec(channel.deep_view(), limit as i64),
{
    let mut params: Vec<SqlValue> = Vec::new();
    let sql = match channel {
        Some(ch) => {
            params.push(SqlValue::Text(ch.to_owned()));
            LOG_OF_CHANNEL
        },
        None => WHOLE_LOG,
    };
    params.push(SqlValue::Integer(limit as i64));
    assert(params.deep_view() =~= governance_spec(channel.deep_view(), limit as i64).params);
    Query { sql: sql.to_owned(), params }
}

/// A condition takes the parameter behind those that a statement has already: each of its numbers
/// has its value.
pub proof fn law_conditions_are_numbered(q: QueryView, column: Seq<char>, value: Option<SqlValueView>)
    ensures
        with_condition(q, column, value).params.len() == q.params.len() + if value is Some { 1nat } else { 0nat },
        q.params.is_prefix_of(with_condition(q, column, value).params),
        value matches Some(v) ==> {
            &&& with_condition(q, column, value).params[q.params.len() as int] == v
            &&& with_condition(q, column, value).sql == q.sql + " AND "@ + column + " ?"@ + text::decimal_spec(q.params.len() + 1)
        },
{
}

} // verus!
