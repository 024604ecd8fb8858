//! What holds of what is stored and read.
use crate::connection::told;
use crate::containers;
use crate::crypto;
use crate::db;
use crate::db::{
    BanRecordView, ChannelRecordView, MessageRecordView, QueryView, SqlValueView,
};
use crate::json;
use crate::server::{BanEntryView, ChannelStateView, TopicInfoView};
use crate::text;
use vstd::prelude::*;

verus! {

broadcast use {vstd::string::group_string_axioms, containers::lemma_map_put_get, containers::lemma_set_insert_contains};

// ── Conversations ───────────────────────────────────────────────────

/// Two texts are in the order of the first characters in which they differ.
pub proof fn law_texts_are_ordered_by_the_first_difference(p: Seq<char>, a: Seq<char>, b: Seq<char>)
    requires
        a.len() > 0,
        b.len() > 0,
        a[0] < b[0],
    ensures
        db::str_le(p + a, p + b),
        !db::str_le(p + b, p + a),
        db::str_le(p, p + a),
        !db::str_le(p + a, p),
    decreases p.len(),
{
    if p.len() == 0 {
        assert(p + a =~= a);
        assert(p + b =~= b);
    } else {
        law_texts_are_ordered_by_the_first_difference(p.skip(1), a, b);
        assert((p + a).skip(1) =~= p.skip(1) + a);
        assert((p + b).skip(1) =~= p.skip(1) + b);
    }
}

/// The key of a conversation names its two sides, the one that comes first in front.
pub proof fn law_keys_name_both_sides(a: Seq<char>, b: Seq<char>)
    ensures
        db::str_le(a, b) ==> db::dm_key(a, b) == "dm:"@ + a + ","@ + b && db::dm_key(b, a) == "dm:"@ + a + ","@ + b,
        db::dm_key(a, b) == "dm:"@ + a + ","@ + b || db::dm_key(a, b) == "dm:"@ + b + ","@ + a,
{
    db::law_dm_key_symmetric(a, b);
}

/// Of the conversations those of a DID are listed, in their order, as many as were asked for.
pub proof fn law_conversations_are_those_of_the_user(did: Seq<char>, rows: Seq<(Seq<char>, u64)>, limit: nat, row: (Seq<char>, u64))
    ensures
        ({
            let r = db::conversations_spec(did, rows, limit);
            &&& r.len() <= limit
            &&& r.contains(row) ==> rows.contains(row) && db::conversation_of(row.0, did)
            &&& r.len() < limit && rows.contains(row) && db::conversation_of(row.0, did) ==> r.contains(row)
            &&& r.is_prefix_of(db::conversations_spec(did, rows, limit + 1))
        }),
{
    let p = |q: (Seq<char>, u64)| db::conversation_of(q.0, did);
    let own = rows.filter(p);
    told::lemma_filter_contains(rows, p, row);
    let r = db::conversations_spec(did, rows, limit);
    if r.contains(row) {
        let i = choose|i: int| 0 <= i < r.len() && r[i] == row;
        assert(own[i] == row);
        assert(own.contains(row));
    }
}

// ── Messages ────────────────────────────────────────────────────────

/// A text that was encrypted is marked as such. One without the mark is what it says, under any key;
/// of one with it nothing can be read unless its seal, behind a nonce of twelve bytes, opens.
pub proof fn law_only_marked_texts_are_decrypted(key: Seq<u8>, nonce: Seq<u8>, stored: Seq<char>, sealed: Seq<char>)
    requires
        nonce.len() == 12,
    ensures
        text::has_prefix(db::encrypted(key, nonce, stored), "EAR1:"@),
        !text::has_prefix(stored, "EAR1:"@) ==> db::decrypted(key, stored) == stored,
        crypto::base64_decoded(sealed) is None ==> db::decrypted(key, "EAR1:"@ + sealed) == "[decryption failed]"@,
        crypto::base64_decoded(sealed) matches Some(b) ==> {
            let opened = crypto::aes_opened(key, b.take(12), b.skip(12));
            &&& b.len() <= 12 || opened is None ==> db::decrypted(key, "EAR1:"@ + sealed) == "[decryption failed]"@
            &&& b.len() > 12 && opened is Some ==> db::decrypted(key, "EAR1:"@ + sealed) == crypto::text_of_bytes(opened->0)
        },
        db::read_spec(None, stored) == stored,
        db::read_spec(Some(key), stored) == db::decrypted(key, stored),
{
    let e = db::encrypted(key, nonce, stored);
    assert(e.subrange(0, "EAR1:"@.len() as int) =~= "EAR1:"@);
    let m = "EAR1:"@ + sealed;
    assert(m.subrange(0, "EAR1:"@.len() as int) =~= "EAR1:"@);
    assert(m.subrange("EAR1:"@.len() as int, m.len() as int) =~= sealed);
    assert(m.take("EAR1:"@.len() as int) =~= "EAR1:"@);
    assert(m.skip("EAR1:"@.len() as int) =~= sealed);
    assert(e.take("EAR1:"@.len() as int) =~= "EAR1:"@);
}

/// Every column of a stored message is read as it stands; the text is decrypted.
pub proof fn law_columns_are_read(
    key: Option<Seq<u8>>,
    rec: MessageRecordView,
    tags: Option<Seq<(Seq<char>, Seq<char>)>>,
)
    ensures
        ({
            let row = db::message_spec(key, rec, tags);
            &&& row.id == rec.id
            &&& row.channel == rec.channel
            &&& row.sender == rec.sender
            &&& row.text == db::read_spec(key, rec.text)
            &&& row.timestamp == rec.timestamp as u64
            &&& row.msgid == rec.msgid
            &&& row.replaces_msgid == rec.replaces_msgid
            &&& row.deleted_at is Some <==> rec.deleted_at is Some
            &&& rec.deleted_at matches Some(t) ==> row.deleted_at == Some(t as u64)
            &&& row.sender_did == rec.sender_did
            &&& tags is None ==> row.tags.len() == 0
        }),
{
}

/// Of tags with one name the last counts.
pub proof fn law_the_last_tag_counts(pairs: Seq<(Seq<char>, Seq<char>)>, i: int, k: Seq<char>)
    ensures
        0 <= i < pairs.len() && pairs[i].0 == k && (forall|j: int| i < j < pairs.len() ==> (#[trigger] pairs[j]).0 != k)
            ==> containers::map_get(db::tags_spec(Some(pairs)), k) == Some(pairs[i].1),
        (forall|j: int| 0 <= j < pairs.len() ==> (#[trigger] pairs[j]).0 != k) ==> containers::map_get(
            db::tags_spec(Some(pairs)),
            k,
        ) is None,
    decreases pairs.len(),
{
    if pairs.len() > 0 {
        let t = pairs.drop_last();
        law_the_last_tag_counts(t, i, k);
        assert forall|j: int| 0 <= j < t.len() implies #[trigger] t[j] == pairs[j] by {}
        assert(pairs[pairs.len() - 1] == pairs.last());
    }
}

/// Stored messages are read one by one, in their order.
pub proof fn law_messages_are_read_in_order(key: Option<Seq<u8>>, recs: Seq<MessageRecordView>, i: int)
    requires
        0 <= i < recs.len(),
    ensures
        db::messages_spec(key, recs).len() == recs.len(),
        db::messages_spec(key, recs)[i] == db::message_spec(key, recs[i], json::pairs_of_json(recs[i].tags_json)),
{
}

// ── Channels ────────────────────────────────────────────────────────

/// A saved channel is loaded with its topic, its modes, its key, its founder and its operators for
/// good, and without anybody in it.
pub proof fn law_saved_channels_are_loaded(name: Seq<char>, ch: ChannelStateView, listed: Seq<char>)
    requires
        json::list_of_json(listed) == Some(ch.did_ops),
        ch.topic matches Some(t) ==> t.set_at <= i64::MAX,
    ensures
        ({
            let rec = db::channel_record_spec(name, ch, listed);
            let b = db::channel_spec(rec, db::operators_of(rec));
            &&& rec.name == name
            &&& b.topic == ch.topic
            &&& b.topic_locked == ch.topic_locked
            &&& b.invite_only == ch.invite_only
            &&& b.no_ext_msg == ch.no_ext_msg
            &&& b.moderated == ch.moderated
            &&& b.key == ch.key
            &&& b.founder_did == ch.founder_did
            &&& forall|d: Seq<char>| #[trigger] b.did_ops.contains(d) <==> ch.did_ops.contains(d)
            &&& b.members.len() == 0 && b.remote_members.len() == 0 && b.ops.len() == 0 && b.halfops.len() == 0 && b.voiced.len() == 0
            &&& b.history.len() == 0 && b.pins.len() == 0 && b.invites.len() == 0 && b.bans.len() == 0
        }),
{
    let rec = db::channel_record_spec(name, ch, listed);
    let b = db::channel_spec(rec, db::operators_of(rec));
    assert(db::operators_of(rec) == Some(ch.did_ops));
    assert forall|d: Seq<char>| #[trigger] b.did_ops.contains(d) <==> ch.did_ops.contains(d) by {
        lemma_set_of_list(ch.did_ops, d);
    }
}

proof fn lemma_set_of_list(list: Seq<Seq<char>>, x: Seq<char>)
    ensures
        db::set_of_list(list).contains(x) <==> list.contains(x),
    decreases list.len(),
{
    if list.len() > 0 {
        lemma_set_of_list(list.drop_last(), x);
        assert(list =~= list.drop_last().push(list.last()));
        told::lemma_push_contains(list.drop_last(), list.last(), x);
    }
}

/// A record without a topic's text, author or time gives a channel without a topic, and one with all
/// three gives that topic; a flag is set where its column holds anything but zero.
pub proof fn law_records_give_channels(rec: ChannelRecordView, dids: Option<Seq<Seq<char>>>)
    ensures
        ({
            let b = db::channel_spec(rec, dids);
            let whole = rec.topic_text is Some && rec.topic_set_by is Some && rec.topic_set_at is Some;
            &&& b.topic is Some <==> whole
            &&& whole ==> b.topic == Some(
                TopicInfoView {
                    text: rec.topic_text->0,
                    set_by: rec.topic_set_by->0,
                    set_at: rec.topic_set_at->0 as u64,
                },
            )
            &&& b.topic_locked <==> rec.topic_locked != 0
            &&& b.invite_only <==> rec.invite_only != 0
            &&& b.no_ext_msg <==> rec.no_ext_msg is Some && rec.no_ext_msg->0 != 0
            &&& b.moderated <==> rec.moderated is Some && rec.moderated->0 != 0
            &&& b.key == rec.key
            &&& b.founder_did == rec.founder_did
        }),
{
}

/// Every record gives the channel of its name, the last one of a name counts, and there is no other.
pub proof fn law_every_record_is_loaded(recs: Seq<ChannelRecordView>, i: int, name: Seq<char>)
    ensures
        0 <= i < recs.len() && recs[i].name == name && (forall|j: int| i < j < recs.len() ==> (#[trigger] recs[j]).name != name)
            ==> containers::map_get(db::channels_spec(recs), name) == Some(
            db::channel_spec(recs[i], db::operators_of(recs[i])),
        ),
        (forall|j: int| 0 <= j < recs.len() ==> (#[trigger] recs[j]).name != name) ==> containers::map_get(
            db::channels_spec(recs),
            name,
        ) is None,
    decreases recs.len(),
{
    if recs.len() > 0 {
        let t = recs.drop_last();
        law_every_record_is_loaded(t, i, name);
        assert forall|j: int| 0 <= j < t.len() implies #[trigger] t[j] == recs[j] by {}
        assert(recs[recs.len() - 1] == recs.last());
    }
}

/// The bans of a channel, in their order.
pub open spec fn bans_on(bans: Seq<BanRecordView>, name: Seq<char>) -> Seq<BanEntryView>
    decreases bans.len(),
{
    if bans.len() == 0 {
        Seq::empty()
    } else {
        let before = bans_on(bans.drop_last(), name);
        if bans.last().channel == name {
            before.push(BanEntryView { mask: bans.last().mask, set_by: bans.last().set_by, set_at: bans.last().set_at as u64 })
        } else {
            before
        }
    }
}

/// Every ban is loaded into its channel, behind those it has, and nothing else of any channel
/// changes; bans on a channel that there is not are dropped.
pub proof fn law_bans_are_loaded(channels: Seq<(Seq<char>, ChannelStateView)>, bans: Seq<BanRecordView>, name: Seq<char>)
    ensures
        ({
            let after = containers::map_get(db::banned_spec(channels, bans), name);
            match containers::map_get(channels, name) {
                Some(a) => after == Some(ChannelStateView { bans: a.bans + bans_on(bans, name), ..a }),
                None => after is None,
            }
        }),
    decreases bans.len(),
{
    if bans.len() == 0 {
        if let Some(a) = containers::map_get(channels, name) {
            assert(a.bans + bans_on(bans, name) =~= a.bans);
        }
    } else {
        let t = bans.drop_last();
        law_bans_are_loaded(channels, t, name);
        if let Some(a) = containers::map_get(channels, name) {
            if bans.last().channel == name {
                let b = BanEntryView { mask: bans.last().mask, set_by: bans.last().set_by, set_at: bans.last().set_at as u64 };
                assert((a.bans + bans_on(t, name)).push(b) =~= a.bans + bans_on(t, name).push(b));
            }
        }
    }
}

// ── Queries ─────────────────────────────────────────────────────────

/// A question for events gives the database the values that were asked for, in the order of their
/// numbers, and names for each the column that it is held against.
pub proof fn law_event_queries_ask_for_what_was_asked(channel: Seq<char>, kind: Seq<char>, task: Seq<char>, actor: Seq<char>, since: i64, limit: nat)
    ensures
        ({
            let all = db::coordination_spec(channel, Some(kind), Some(task), Some(actor), Some(since), limit);
            let none = db::coordination_spec(channel, None, None, None, None, limit);
            let select = "SELECT event_id, event_type, actor_did, channel, ref_id, payload_json, signature, timestamp FROM coordination_events WHERE channel = ?1"@;
            &&& all.params == seq![
                SqlValueView::Text(channel),
                SqlValueView::Text(kind),
                SqlValueView::Text(task),
                SqlValueView::Text(actor),
                SqlValueView::Integer(since),
            ]
            &&& none.params == seq![SqlValueView::Text(channel)]
            &&& none.sql == select + " ORDER BY timestamp ASC LIMIT "@ + text::decimal_spec(limit)
            &&& all.sql == select + " AND "@ + "event_type ="@ + " ?"@ + text::decimal_spec(2) + " AND "@ + "ref_id ="@ + " ?"@
                + text::decimal_spec(3) + " AND "@ + "actor_did ="@ + " ?"@ + text::decimal_spec(4) + " AND "@ + "timestamp >="@ + " ?"@
                + text::decimal_spec(5) + " ORDER BY timestamp ASC LIMIT "@ + text::decimal_spec(limit)
            &&& db::coordination_spec(channel, None, Some(task), None, None, limit).params == seq![
                SqlValueView::Text(channel),
                SqlValueView::Text(task),
            ]
            &&& db::coordination_spec(channel, None, Some(task), None, None, limit).sql == select + " AND "@ + "ref_id ="@ + " ?"@
                + text::decimal_spec(2) + " ORDER BY timestamp ASC LIMIT "@ + text::decimal_spec(limit)
        }),
{
}

/// So do questions for what was spent, the newest first, and for its sum since a time.
pub proof fn law_spend_queries_ask_for_what_was_asked(channel: Seq<char>, agent: Seq<char>, unit: Seq<char>, since: i64, limit: nat)
    ensures
        ({
            let all = db::spend_spec(channel, Some(agent), Some(since), limit);
            let none = db::spend_spec(channel, None, None, limit);
            let select = "SELECT id, channel, agent_did, amount, unit, description, task_ref, timestamp FROM agent_spend WHERE channel = ?1"@;
            &&& all.params == seq![SqlValueView::Text(channel), SqlValueView::Text(agent), SqlValueView::Integer(since)]
            &&& none.params == seq![SqlValueView::Text(channel)]
            &&& none.sql == select + " ORDER BY timestamp DESC LIMIT "@ + text::decimal_spec(limit)
            &&& all.sql == select + " AND "@ + "agent_did ="@ + " ?"@ + text::decimal_spec(2) + " AND "@ + "timestamp >="@ + " ?"@
                + text::decimal_spec(3) + " ORDER BY timestamp DESC LIMIT "@ + text::decimal_spec(limit)
            &&& db::spend_sum_spec(channel, Some(agent), unit, since) == (QueryView {
                sql: "SELECT COALESCE(SUM(amount), 0.0) FROM agent_spend WHERE channel = ?1 AND agent_did = ?2 AND unit = ?3 AND timestamp >= ?4"@,
                params: seq![
                    SqlValueView::Text(channel),
                    SqlValueView::Text(agent),
                    SqlValueView::Text(unit),
                    SqlValueView::Integer(since),
                ],
            })
            &&& db::spend_sum_spec(channel, None, unit, since) == (QueryView {
                sql: "SELECT COALESCE(SUM(amount), 0.0) FROM agent_spend WHERE channel = ?1 AND unit = ?2 AND timestamp >= ?3"@,
                params: seq![SqlValueView::Text(channel), SqlValueView::Text(unit), SqlValueView::Integer(since)],
            })
        }),
{
}

/// The events of a task are found by its ID, a thousand at most; the log is that of the channel where
/// one is named.
pub proof fn law_tasks_and_logs_are_found(task: Seq<char>, channel: Seq<char>, limit: i64)
    ensures
        db::task_spec(task).params == seq![SqlValueView::Text(task)],
        db::task_spec(task).sql
            == "SELECT event_id, event_type, actor_did, channel, ref_id, payload_json, signature, timestamp FROM coordination_events WHERE ref_id = ?1"@
            + " ORDER BY timestamp ASC LIMIT "@ + text::decimal_spec(1000),
        db::governance_spec(Some(channel), limit) == (QueryView {
            sql: "SELECT id, channel, target_did, action, issued_by, reason, timestamp FROM governance_log WHERE channel = ?1 ORDER BY timestamp ASC LIMIT ?2"@,
            params: seq![SqlValueView::Text(channel), SqlValueView::Integer(limit)],
        }),
        db::governance_spec(None, limit) == (QueryView {
            sql: "SELECT id, channel, target_did, action, issued_by, reason, timestamp FROM governance_log ORDER BY timestamp ASC LIMIT ?1"@,
            params: seq![SqlValueView::Integer(limit)],
        }),
{
}

} // verus!
