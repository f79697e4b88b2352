//! The mesh: which bundles a node trusts, and the status page that joins what is
//! configured, what is scheduled and what the pulls recorded.

use vstd::prelude::*;

use crate::clock::{age_of, age_seconds, read_rfc3339, rfc3339_reading, Instant};
use crate::datasets::text_view;
use crate::error::ApiError;
use crate::json::{lemma_put, models, Json, JsonModel};
use crate::metrics::{declare, declared, lemma_appended, occurs, plain, push_plain};
use crate::number::{decimal, show_i64};
use crate::text::{owned, same, trim, trimmed};
use crate::weather::identity_unavailable;

verus! {

/// App the mesh's own bookkeeping records live under.
pub const MESH_APP: &'static str = "peer";

/// Dataset that holds one status record per peer and stream.
pub const MESH_DATASET: &'static str = "mesh";

/// Owner tag of the schedules that peer rows make.
pub const PEER_MANAGED_BY: &'static str = "peer";

/// The key of a peer's stream in the status dataset.
pub open spec fn state_key(label: Seq<char>, slug: Seq<char>) -> Seq<char> {
    label + "|"@ + slug
}

/// Key of the status record for one peer and stream. The puller writes it and
/// the status page reads it.
pub fn mesh_state_key(peer_label: &str, stream_slug: &str) -> (r: String)
    ensures
        r@ == state_key(peer_label@, stream_slug@),
{
    let mut out = owned(peer_label);
    out.append("|");
    out.append(stream_slug);
    out
}

/// The schedule id of a peer's stream.
pub open spec fn schedule_id(label: Seq<char>, slug: Seq<char>) -> Seq<char> {
    "peer-"@ + label + "-"@ + slug
}

/// Schedule id for one peer and stream. It is derived from the peer's label, so
/// that reordering the configuration re-points no schedule.
pub fn peer_schedule_id(peer_label: &str, stream_slug: &str) -> (r: String)
    ensures
        r@ == schedule_id(peer_label@, stream_slug@),
{
    let mut out = owned("peer-");
    out.append(peer_label);
    out.append("-");
    out.append(stream_slug);
    out
}

/// One peer's streams never share a key or a schedule.
pub proof fn law_streams_of_a_peer_are_distinct(label: Seq<char>, a: Seq<char>, b: Seq<char>)
    requires
        a != b,
    ensures
        state_key(label, a) != state_key(label, b),
        schedule_id(label, a) != schedule_id(label, b),
{
    let n = label.len() + "|"@.len();
    if state_key(label, a) == state_key(label, b) {
        assert(state_key(label, a).skip(n as int) =~= a);
        assert(state_key(label, b).skip(n as int) =~= b);
    }
    let m = "peer-"@.len() + label.len() + "-"@.len();
    if schedule_id(label, a) == schedule_id(label, b) {
        assert(schedule_id(label, a).skip(m as int) =~= a);
        assert(schedule_id(label, b).skip(m as int) =~= b);
    }
}

/// Status keys of different peers or streams never collide, as long as labels
/// hold no bar.
pub proof fn law_state_keys_are_injective(
    label: Seq<char>,
    slug: Seq<char>,
    other_label: Seq<char>,
    other_slug: Seq<char>,
)
    requires
        forall|i: int| 0 <= i < label.len() ==> label[i] != '|',
        forall|i: int| 0 <= i < other_label.len() ==> other_label[i] != '|',
        state_key(label, slug) == state_key(other_label, other_slug),
    ensures
        label == other_label && slug == other_slug,
{
    reveal_strlit("|");
    let k = state_key(label, slug);
    let o = state_key(other_label, other_slug);
    assert(k[label.len() as int] == '|');
    assert(o[other_label.len() as int] == '|');
    if label.len() < other_label.len() {
        assert(o[label.len() as int] == other_label[label.len() as int]);
    } else if other_label.len() < label.len() {
        assert(k[other_label.len() as int] == label[other_label.len() as int]);
    }
    assert(k.take(label.len() as int) =~= label);
    assert(o.take(other_label.len() as int) =~= other_label);
    assert(k.skip(label.len() as int + 1) =~= slug);
    assert(o.skip(other_label.len() as int + 1) =~= other_slug);
}

/// A configured peer, as far as trust goes: its key as configured, the
/// fingerprint of that key where it has one, and whether it may send unsigned
/// bundles.
#[derive(Debug, PartialEq)]
pub struct PeerKey {
    pub public_key: String,
    pub fingerprint: Option<String>,
    pub allow_unsigned: bool,
}

/// The rule a bundle is held to.
#[derive(Debug, PartialEq)]
pub struct PeerTrust {
    pub public_key: Option<String>,
    pub allow_unsigned: bool,
}

/// Whether a peer's pinned key is the one that signed for `node_id`.
pub open spec fn pins(p: PeerKey, node_id: Seq<char>) -> bool {
    &&& trimmed(p.public_key@).len() > 0
    &&& p.fingerprint matches Some(f) && f@ == node_id
}

/// Whether some peer may send unsigned bundles.
pub open spec fn any_unsigned(peers: Seq<PeerKey>) -> bool {
    exists|i: int| 0 <= i < peers.len() && (#[trigger] peers[i]).allow_unsigned
}

/// The first peer that pins the node, or `peers.len()`.
pub open spec fn pinned_at(peers: Seq<PeerKey>, node_id: Seq<char>) -> int
    decreases peers.len(),
{
    if peers.len() == 0 || pins(peers[0], node_id) {
        0
    } else {
        1 + pinned_at(peers.drop_first(), node_id)
    }
}

proof fn lemma_pinned_at(peers: Seq<PeerKey>, node_id: Seq<char>, i: int)
    requires
        0 <= i <= peers.len(),
        forall|k: int| 0 <= k < i ==> !pins(#[trigger] peers[k], node_id),
        i < peers.len() ==> pins(peers[i], node_id),
    ensures
        pinned_at(peers, node_id) == i,
    decreases i,
{
    if i > 0 {
        assert(!pins(peers[0], node_id));
        assert forall|k: int| 0 <= k < i - 1 implies !pins(
            #[trigger] peers.drop_first()[k],
            node_id,
        ) by {
            assert(!pins(peers[k + 1], node_id));
        }
        lemma_pinned_at(peers.drop_first(), node_id, i - 1);
    }
}

/// The rule for a bundle of the node `node_id`, which is empty when the bundle
/// names none: the key it must be signed with, and whether it may be unsigned.
pub open spec fn trust_rule(peers: Seq<PeerKey>, node_id: Seq<char>) -> (Option<Seq<char>>, bool) {
    if peers.len() == 0 {
        (None, true)
    } else if node_id.len() > 0 && pinned_at(peers, node_id) < peers.len() {
        let p = peers[pinned_at(peers, node_id)];
        (Some(trimmed(p.public_key@)), p.allow_unsigned)
    } else {
        (None, any_unsigned(peers))
    }
}

/// Once keys are pinned and no peer opted into unsigned bundles, every bundle is
/// refused unless it is signed by a pinned key: an operator who pinned keys has
/// said that anonymous bundles are unwelcome.
pub proof fn law_pinned_fleet_refuses_anonymous_bundles(peers: Seq<PeerKey>, node_id: Seq<char>)
    requires
        peers.len() > 0,
        !any_unsigned(peers),
    ensures
        !trust_rule(peers, node_id).1,
{
    lemma_pinned_bound(peers, node_id);
}

proof fn lemma_pinned_bound(peers: Seq<PeerKey>, node_id: Seq<char>)
    ensures
        0 <= pinned_at(peers, node_id) <= peers.len(),
    decreases peers.len(),
{
    if peers.len() > 0 && !pins(peers[0], node_id) {
        lemma_pinned_bound(peers.drop_first(), node_id);
    }
}

fn some_unsigned(peers: &[PeerKey]) -> (r: bool)
    ensures
        r == any_unsigned(peers@),
{
    let mut i: usize = 0;
    while i < peers.len()
        invariant
            i <= peers@.len(),
            forall|k: int| 0 <= k < i ==> !(#[trigger] peers@[k]).allow_unsigned,
        decreases peers@.len() - i,
    {
        if peers[i].allow_unsigned {
            return true;
        }
        i += 1;
    }
    false
}

/// The rule a bundle is judged by: a node without peers takes anything, a bundle
/// from a pinned peer must bear the first such peer's key and is judged by that
/// peer's own rule, and one from anybody else comes in only where some peer may go
/// unsigned. A peer pins a node where it names a key and the key's fingerprint is
/// the node's id.
pub proof fn law_a_pinned_node_is_held_to_its_key(peers: Seq<PeerKey>, node_id: Seq<char>, i: int)
    requires
        0 <= i <= peers.len(),
        forall|k: int|
            0 <= k < i ==> trimmed((#[trigger] peers[k]).public_key@).len() == 0
                || peers[k].fingerprint is None || peers[k].fingerprint->0@ != node_id,
        i < peers.len() ==> trimmed(peers[i].public_key@).len() > 0 && peers[i].fingerprint is Some
            && peers[i].fingerprint->0@ == node_id,
    ensures
        peers.len() == 0 ==> trust_rule(peers, node_id) == (None::<Seq<char>>, true),
        node_id.len() > 0 && i < peers.len() ==> trust_rule(peers, node_id) == (
            Some(trimmed(peers[i].public_key@)),
            peers[i].allow_unsigned,
        ),
        peers.len() > 0 && (node_id.len() == 0 || i == peers.len()) ==> trust_rule(peers, node_id)
            == (
            None::<Seq<char>>,
            exists|k: int| 0 <= k < peers.len() && (#[trigger] peers[k]).allow_unsigned,
        ),
{
    lemma_first_pin(peers, node_id, i);
}

proof fn lemma_first_pin(peers: Seq<PeerKey>, node_id: Seq<char>, i: int)
    requires
        0 <= i <= peers.len(),
        forall|k: int| 0 <= k < i ==> !pins(#[trigger] peers[k], node_id),
        i < peers.len() ==> pins(peers[i], node_id),
    ensures
        pinned_at(peers, node_id) == i,
    decreases i,
{
    if i > 0 {
        assert(!pins(peers[0], node_id));
        let rest = peers.drop_first();
        assert forall|k: int| 0 <= k < i - 1 implies !pins(#[trigger] rest[k], node_id) by {
            assert(rest[k] == peers[k + 1]);
        }
        lemma_first_pin(rest, node_id, i - 1);
    }
}

/// The trust rule applied to a bundle offered to this node, in order: a node
/// without peers trusts what its operator hands it; a peer whose pinned key
/// fingerprints to the bundle's node is held to its own rule; anything else is
/// unsigned, and allowed only where some peer row says so.
pub fn trust_for(peers: &[PeerKey], node_id: Option<&str>) -> (r: PeerTrust)
    ensures
        (text_view(r.public_key), r.allow_unsigned) == trust_rule(
            peers@,
            match node_id {
                Some(id) => id@,
                None => Seq::empty(),
            },
        ),
{
    if peers.len() == 0 {
        return PeerTrust { public_key: None, allow_unsigned: true };
    }
    if let Some(id) = node_id {
        if !id.is_empty() {
            let mut i: usize = 0;
            while i < peers.len()
                invariant
                    i <= peers@.len(),
                    peers@.len() > 0,
                    node_id == Some(id),
                    id@.len() > 0,
                    forall|k: int| 0 <= k < i ==> !pins(#[trigger] peers@[k], id@),
                decreases peers@.len() - i,
            {
                let key = trim(peers[i].public_key.as_str());
                let matched = match &peers[i].fingerprint {
                    Some(f) => same(f.as_str(), id),
                    None => false,
                };
                if !key.as_str().is_empty() && matched {
                    proof {
                        lemma_pinned_at(peers@, id@, i as int);
                    }
                    return PeerTrust {
                        public_key: Some(key),
                        allow_unsigned: peers[i].allow_unsigned,
                    };
                }
                i += 1;
            }
            proof {
                lemma_pinned_at(peers@, id@, i as int);
            }
        }
    }
    PeerTrust { public_key: None, allow_unsigned: some_unsigned(peers) }
}

/// The mesh counters, over every peer and stream.
#[derive(Debug, Clone, Copy, PartialEq, Eq, Structural)]
pub struct MeshTotals {
    pub peers: i64,
    pub streams: i64,
    pub pulls: i64,
    pub signature_failures: i64,
    pub ghosts_removed: i64,
}

impl Default for MeshTotals {
    fn default() -> (r: MeshTotals)
        ensures
            r.peers == 0 && r.streams == 0 && r.pulls == 0 && r.signature_failures == 0
                && r.ghosts_removed == 0,
    {
        MeshTotals { peers: 0, streams: 0, pulls: 0, signature_failures: 0, ghosts_removed: 0 }
    }
}

/// The mesh block of the exposition.
pub open spec fn mesh_text(t: MeshTotals) -> Seq<char> {
    Seq::<char>::empty() + declared("pumper_mesh_peers"@, "gauge"@, "Configured [[peer]] rows."@)
        + plain("pumper_mesh_peers"@, decimal(t.peers as int)) + declared(
        "pumper_mesh_streams"@,
        "gauge"@,
        "Configured peer streams (peer x pull entry)."@,
    ) + plain("pumper_mesh_streams"@, decimal(t.streams as int)) + declared(
        "pumper_mesh_pulls_total"@,
        "counter"@,
        "Peer pulls recorded across all streams."@,
    ) + plain("pumper_mesh_pulls_total"@, decimal(t.pulls as int)) + declared(
        "pumper_mesh_signature_failures_total"@,
        "counter"@,
        "Bundles refused because they were unsigned, unverifiable or forged."@,
    ) + plain(
        "pumper_mesh_signature_failures_total"@,
        decimal(t.signature_failures as int),
    ) + declared(
        "pumper_mesh_ghosts_removed_total"@,
        "counter"@,
        "Mirrored records tombstoned by a reconcile because the origin no longer has them."@,
    ) + plain("pumper_mesh_ghosts_removed_total"@, decimal(t.ghosts_removed as int))
}

/// Prometheus lines for the mesh, at zero on a node without peers.
pub fn mesh_metrics_lines(totals: &MeshTotals) -> (r: String)
    ensures
        r@ == mesh_text(*totals),
{
    let mut out = String::new();
    declare(&mut out, "pumper_mesh_peers", "gauge", "Configured [[peer]] rows.");
    push_plain(&mut out, "pumper_mesh_peers", show_i64(totals.peers).as_str());
    declare(
        &mut out,
        "pumper_mesh_streams",
        "gauge",
        "Configured peer streams (peer x pull entry).",
    );
    push_plain(&mut out, "pumper_mesh_streams", show_i64(totals.streams).as_str());
    declare(
        &mut out,
        "pumper_mesh_pulls_total",
        "counter",
        "Peer pulls recorded across all streams.",
    );
    push_plain(&mut out, "pumper_mesh_pulls_total", show_i64(totals.pulls).as_str());
    declare(
        &mut out,
        "pumper_mesh_signature_failures_total",
        "counter",
        "Bundles refused because they were unsigned, unverifiable or forged.",
    );
    push_plain(
        &mut out,
        "pumper_mesh_signature_failures_total",
        show_i64(totals.signature_failures).as_str(),
    );
    declare(
        &mut out,
        "pumper_mesh_ghosts_removed_total",
        "counter",
        "Mirrored records tombstoned by a reconcile because the origin no longer has them.",
    );
    push_plain(
        &mut out,
        "pumper_mesh_ghosts_removed_total",
        show_i64(totals.ghosts_removed).as_str(),
    );
    out
}

/// A configured stream and what its last pull recorded, if any did.
#[derive(Debug)]
pub struct MeshStream {
    pub slug: String,
    pub record: Option<Json>,
}

/// A configured peer with its streams.
#[derive(Debug)]
pub struct MeshPeer {
    pub label: String,
    pub url: String,
    pub public_key: String,
    pub allow_unsigned: bool,
    pub every: String,
    pub every_secs: i64,
    pub enabled: bool,
    pub streams: Vec<MeshStream>,
}

/// The record's value under a key.
pub open spec fn recorded(record: Option<Json>, key: Seq<char>) -> Option<JsonModel> {
    match record {
        Some(d) => d@.get(key),
        None => None,
    }
}

/// A counter of the record; what was never recorded counts zero.
pub open spec fn counter(record: Option<Json>, key: Seq<char>) -> i64 {
    match recorded(record, key) {
        Some(v) => match v.as_i64() {
            Some(n) => n,
            None => 0,
        },
        None => 0,
    }
}

/// A text of the record.
pub open spec fn recorded_text(record: Option<Json>, key: Seq<char>) -> Option<Seq<char>> {
    match recorded(record, key) {
        Some(v) => v.as_text(),
        None => None,
    }
}

fn read_value(record: &Option<Json>, key: &str) -> (r: Json)
    ensures
        r@ == JsonModel::or_null(recorded(*record, key@)),
{
    match record {
        Some(d) => match d.get(key) {
            Some(v) => v.copy(),
            None => Json::Null,
        },
        None => Json::Null,
    }
}

fn read_counter(record: &Option<Json>, key: &str) -> (r: i64)
    ensures
        r == counter(*record, key@),
{
    match record {
        Some(d) => match d.get(key) {
            Some(v) => match v.as_i64() {
                Some(n) => n,
                None => 0,
            },
            None => 0,
        },
        None => 0,
    }
}

/// Seconds since a pull whose time was read; unknown when it could not be. "Never
/// pulled" is not "pulled just now".
pub fn lag_of(reading: Result<Instant, String>, now: Instant) -> (r: Option<i64>)
    ensures
        match reading {
            Ok(at) => r matches Some(n) && n == age_of(now@, at@) && n >= 0,
            Err(_) => r is None,
        },
{
    match reading {
        Ok(at) => Some(age_seconds(now, at)),
        Err(_) => None,
    }
}

/// Seconds since the last successful pull.
pub open spec fn lag(last_success: Option<Seq<char>>, now: Instant) -> Option<int> {
    match last_success {
        None => None,
        Some(t) => match rfc3339_reading(t) {
            Ok(parts) => Some(age_of(now@, parts)),
            Err(_) => None,
        },
    }
}

/// The status row of one stream.
pub open spec fn stream_row(
    label: Seq<char>,
    s: MeshStream,
    scheduled: bool,
    now: Instant,
) -> JsonModel {
    let last = recorded_text(s.record, "last_success_at"@);
    JsonModel::object().put("stream"@, JsonModel::Text(s.slug@)).put(
        "schedule_id"@,
        JsonModel::Text(schedule_id(label, s.slug@)),
    ).put("scheduled"@, JsonModel::Bool(scheduled)).put(
        "last_attempt_at"@,
        JsonModel::or_null(recorded(s.record, "last_attempt_at"@)),
    ).put("last_success_at"@, JsonModel::text_or_null(last)).put(
        "lag_secs"@,
        JsonModel::int_or_null(lag(last, now)),
    ).put("ok"@, JsonModel::or_null(recorded(s.record, "ok"@))).put(
        "verified"@,
        JsonModel::or_null(recorded(s.record, "verified"@)),
    ).put("pulls"@, JsonModel::integer(counter(s.record, "pulls"@) as int)).put(
        "signature_failures"@,
        JsonModel::integer(counter(s.record, "signature_failures"@) as int),
    ).put("ghosts_removed"@, JsonModel::integer(counter(s.record, "ghosts_removed"@) as int)).put(
        "detail"@,
        JsonModel::or_null(recorded(s.record, "detail"@)),
    )
}

/// Each member of a stream row holds what the stream's record keeps under that
/// name; the lag is that of the last success.
pub proof fn law_a_stream_row_names_what_it_shows(
    label: Seq<char>,
    s: MeshStream,
    scheduled: bool,
    now: Instant,
)
    ensures
        ({
            let last = recorded_text(s.record, "last_success_at"@);
            let shown = stream_row(label, s, scheduled, now);
            &&& shown.get("stream"@) == Some(JsonModel::Text(s.slug@))
            &&& shown.get("schedule_id"@) == Some(JsonModel::Text(schedule_id(label, s.slug@)))
            &&& shown.get("scheduled"@) == Some(JsonModel::Bool(scheduled))
            &&& shown.get("last_attempt_at"@) == Some(
                JsonModel::or_null(recorded(s.record, "last_attempt_at"@)),
            )
            &&& shown.get("last_success_at"@) == Some(JsonModel::text_or_null(last))
            &&& shown.get("lag_secs"@) == Some(JsonModel::int_or_null(lag(last, now)))
            &&& shown.get("ok"@) == Some(JsonModel::or_null(recorded(s.record, "ok"@)))
            &&& shown.get("verified"@) == Some(JsonModel::or_null(recorded(s.record, "verified"@)))
            &&& shown.get("pulls"@) == Some(JsonModel::integer(counter(s.record, "pulls"@) as int))
            &&& shown.get("signature_failures"@) == Some(
                JsonModel::integer(counter(s.record, "signature_failures"@) as int),
            )
            &&& shown.get("ghosts_removed"@) == Some(
                JsonModel::integer(counter(s.record, "ghosts_removed"@) as int),
            )
            &&& shown.get("detail"@) == Some(JsonModel::or_null(recorded(s.record, "detail"@)))
        }),
{
    reveal_strlit("stream");
    reveal_strlit("schedule_id");
    reveal_strlit("scheduled");
    reveal_strlit("last_attempt_at");
    reveal_strlit("last_success_at");
    reveal_strlit("lag_secs");
    reveal_strlit("ok");
    reveal_strlit("verified");
    reveal_strlit("pulls");
    reveal_strlit("signature_failures");
    reveal_strlit("ghosts_removed");
    reveal_strlit("detail");
    assert("stream"@[0] != "detail"@[0]);
    assert("last_attempt_at"@[5] != "last_success_at"@[5]);
    assert("lag_secs"@[0] != "verified"@[0]);
    let last = recorded_text(s.record, "last_success_at"@);
    let m0 = JsonModel::object();
    let v1 = JsonModel::Text(s.slug@);
    lemma_put(m0, "stream"@, v1);
    let m1 = m0.put("stream"@, v1);
    let v2 = JsonModel::Text(schedule_id(label, s.slug@));
    lemma_put(m1, "schedule_id"@, v2);
    let m2 = m1.put("schedule_id"@, v2);
    let v3 = JsonModel::Bool(scheduled);
    lemma_put(m2, "scheduled"@, v3);
    let m3 = m2.put("scheduled"@, v3);
    let v4 = JsonModel::or_null(recorded(s.record, "last_attempt_at"@));
    lemma_put(m3, "last_attempt_at"@, v4);
    let m4 = m3.put("last_attempt_at"@, v4);
    let v5 = JsonModel::text_or_null(last);
    lemma_put(m4, "last_success_at"@, v5);
    let m5 = m4.put("last_success_at"@, v5);
    let v6 = JsonModel::int_or_null(lag(last, now));
    lemma_put(m5, "lag_secs"@, v6);
    let m6 = m5.put("lag_secs"@, v6);
    let v7 = JsonModel::or_null(recorded(s.record, "ok"@));
    lemma_put(m6, "ok"@, v7);
    let m7 = m6.put("ok"@, v7);
    let v8 = JsonModel::or_null(recorded(s.record, "verified"@));
    lemma_put(m7, "verified"@, v8);
    let m8 = m7.put("verified"@, v8);
    let v9 = JsonModel::integer(counter(s.record, "pulls"@) as int);
    lemma_put(m8, "pulls"@, v9);
    let m9 = m8.put("pulls"@, v9);
    let v10 = JsonModel::integer(counter(s.record, "signature_failures"@) as int);
    lemma_put(m9, "signature_failures"@, v10);
    let m10 = m9.put("signature_failures"@, v10);
    let v11 = JsonModel::integer(counter(s.record, "ghosts_removed"@) as int);
    lemma_put(m10, "ghosts_removed"@, v11);
    let m11 = m10.put("ghosts_removed"@, v11);
    let v12 = JsonModel::or_null(recorded(s.record, "detail"@));
    lemma_put(m11, "detail"@, v12);
}

/// What a stream recorded is read off its record: its counters where they are
/// numbers and zero where they are not, its lag where its last success reads as an
/// instant; a stream without a record recorded nothing.
pub proof fn law_a_stream_is_read_off_its_record(
    record: Option<Json>,
    key: Seq<char>,
    last: Option<Seq<char>>,
    now: Instant,
)
    ensures
        record is None ==> recorded(record, key) is None && counter(record, key) == 0
            && recorded_text(record, key) is None,
        record matches Some(d) ==> {
            &&& recorded(record, key) == d@.get(key)
            &&& recorded_text(record, key) == d@.text_at(key)
            &&& d@.get(key) matches Some(v) ==> (v.as_i64() matches Some(n) ==> counter(record, key)
                == n)
            &&& d@.get(key) is None || d@.get(key)->0.as_i64() is None ==> counter(record, key)
                == 0
        },
        last is None ==> lag(last, now) is None,
        last matches Some(t) ==> (rfc3339_reading(t) matches Ok(at) ==> lag(last, now) == Some(
            age_of(now@, at),
        )),
        last matches Some(t) ==> (rfc3339_reading(t) is Err ==> lag(last, now) is None),
{
}

/// Whether a schedule with that id exists.
pub open spec fn is_scheduled(schedules: Seq<String>, id: Seq<char>) -> bool {
    exists|i: int| 0 <= i < schedules.len() && (#[trigger] schedules[i])@ == id
}

/// A stream is scheduled exactly where its schedule is among those there are.
pub proof fn law_a_stream_is_scheduled_by_its_own_id(
    schedules: Seq<String>,
    more: String,
    id: Seq<char>,
)
    ensures
        !is_scheduled(Seq::empty(), id),
        is_scheduled(schedules.push(more), id) <==> is_scheduled(schedules, id) || more@ == id,
{
    let all = schedules.push(more);
    if is_scheduled(schedules, id) {
        let i = choose|i: int| 0 <= i < schedules.len() && (#[trigger] schedules[i])@ == id;
        assert(all[i]@ == id);
    }
    if more@ == id {
        assert(all[schedules.len() as int]@ == id);
    }
    if is_scheduled(all, id) && more@ != id {
        let i = choose|i: int| 0 <= i < all.len() && (#[trigger] all[i])@ == id;
        assert(schedules[i]@ == id);
    }
}

fn has_schedule(schedules: &[String], id: &str) -> (r: bool)
    ensures
        r == is_scheduled(schedules@, id@),
{
    let mut i: usize = 0;
    while i < schedules.len()
        invariant
            i <= schedules@.len(),
            forall|k: int| 0 <= k < i ==> (#[trigger] schedules@[k])@ != id@,
        decreases schedules@.len() - i,
    {
        if same(schedules[i].as_str(), id) {
            return true;
        }
        i += 1;
    }
    false
}

fn stream_json(label: &str, s: &MeshStream, schedules: &[String], now: Instant) -> (r: Json)
    ensures
        r@ == stream_row(
            label@,
            *s,
            is_scheduled(schedules@, schedule_id(label@, s.slug@)),
            now,
        ),
{
    let id = peer_schedule_id(label, s.slug.as_str());
    let last: Option<String> = match &s.record {
        Some(d) => match d.text_at("last_success_at") {
            Some(t) => Some(owned(t)),
            None => None,
        },
        None => None,
    };
    let behind: Option<i64> = match &last {
        Some(t) => lag_of(read_rfc3339(t.as_str()), now),
        None => None,
    };
    let mut out = Json::object();
    out.set("stream", Json::text(s.slug.as_str()));
    out.set("schedule_id", Json::text(id.as_str()));
    out.set("scheduled", Json::Bool(has_schedule(schedules, id.as_str())));
    out.set("last_attempt_at", read_value(&s.record, "last_attempt_at"));
    out.set("last_success_at", Json::optional_text(&last));
    out.set("lag_secs", Json::optional_int(behind));
    out.set("ok", read_value(&s.record, "ok"));
    out.set("verified", read_value(&s.record, "verified"));
    out.set("pulls", Json::integer(read_counter(&s.record, "pulls")));
    out.set("signature_failures", Json::integer(read_counter(&s.record, "signature_failures")));
    out.set("ghosts_removed", Json::integer(read_counter(&s.record, "ghosts_removed")));
    out.set("detail", read_value(&s.record, "detail"));
    out
}

/// The rows of a peer's streams.
pub open spec fn stream_rows(p: MeshPeer, schedules: Seq<String>, now: Instant) -> Seq<JsonModel> {
    Seq::new(
        p.streams@.len(),
        |i: int|
            stream_row(
                p.label@,
                p.streams@[i],
                is_scheduled(schedules, schedule_id(p.label@, p.streams@[i].slug@)),
                now,
            ),
    )
}

/// The status block of one peer.
pub open spec fn peer_block(p: MeshPeer, schedules: Seq<String>, now: Instant) -> JsonModel {
    JsonModel::object().put("name"@, JsonModel::Text(p.label@)).put(
        "url"@,
        JsonModel::Text(p.url@),
    ).put("key_pinned"@, JsonModel::Bool(trimmed(p.public_key@).len() > 0)).put(
        "allow_unsigned"@,
        JsonModel::Bool(p.allow_unsigned),
    ).put("every"@, JsonModel::Text(p.every@)).put(
        "every_secs"@,
        JsonModel::integer(p.every_secs as int),
    ).put(
        "enabled"@,
        JsonModel::Bool(p.enabled),
    ).put("streams"@, JsonModel::Array(stream_rows(p, schedules, now)))
}

/// Each member of a peer block holds what it is named after.
pub proof fn law_a_peer_block_names_what_it_shows(p: MeshPeer, schedules: Seq<String>, now: Instant)
    ensures
        ({
            let shown = peer_block(p, schedules, now);
            &&& shown.get("name"@) == Some(JsonModel::Text(p.label@))
            &&& shown.get("url"@) == Some(JsonModel::Text(p.url@))
            &&& shown.get("key_pinned"@) == Some(JsonModel::Bool(trimmed(p.public_key@).len() > 0))
            &&& shown.get("allow_unsigned"@) == Some(JsonModel::Bool(p.allow_unsigned))
            &&& shown.get("every"@) == Some(JsonModel::Text(p.every@))
            &&& shown.get("every_secs"@) == Some(JsonModel::integer(p.every_secs as int))
            &&& shown.get("enabled"@) == Some(JsonModel::Bool(p.enabled))
            &&& shown.get("streams"@) == Some(JsonModel::Array(stream_rows(p, schedules, now)))
        }),
{
    reveal_strlit("name");
    reveal_strlit("url");
    reveal_strlit("key_pinned");
    reveal_strlit("allow_unsigned");
    reveal_strlit("every");
    reveal_strlit("every_secs");
    reveal_strlit("enabled");
    reveal_strlit("streams");
    assert("key_pinned"@[0] != "every_secs"@[0]);
    assert("enabled"@[0] != "streams"@[0]);
    let m0 = JsonModel::object();
    let v1 = JsonModel::Text(p.label@);
    lemma_put(m0, "name"@, v1);
    let m1 = m0.put("name"@, v1);
    let v2 = JsonModel::Text(p.url@);
    lemma_put(m1, "url"@, v2);
    let m2 = m1.put("url"@, v2);
    let v3 = JsonModel::Bool(trimmed(p.public_key@).len() > 0);
    lemma_put(m2, "key_pinned"@, v3);
    let m3 = m2.put("key_pinned"@, v3);
    let v4 = JsonModel::Bool(p.allow_unsigned);
    lemma_put(m3, "allow_unsigned"@, v4);
    let m4 = m3.put("allow_unsigned"@, v4);
    let v5 = JsonModel::Text(p.every@);
    lemma_put(m4, "every"@, v5);
    let m5 = m4.put("every"@, v5);
    let v6 = JsonModel::integer(p.every_secs as int);
    lemma_put(m5, "every_secs"@, v6);
    let m6 = m5.put("every_secs"@, v6);
    let v7 = JsonModel::Bool(p.enabled);
    lemma_put(m6, "enabled"@, v7);
    let m7 = m6.put("enabled"@, v7);
    let v8 = JsonModel::Array(stream_rows(p, schedules, now));
    lemma_put(m7, "streams"@, v8);
}

fn peer_json(p: &MeshPeer, schedules: &[String], now: Instant) -> (r: Json)
    ensures
        r@ == peer_block(*p, schedules@, now),
{
    let mut rows: Vec<Json> = Vec::new();
    let mut i: usize = 0;
    while i < p.streams.len()
        invariant
            i <= p.streams@.len(),
            rows@.len() == i,
            forall|k: int|
                0 <= k < i ==> (#[trigger] rows@[k])@ == stream_rows(*p, schedules@, now)[k],
        decreases p.streams@.len() - i,
    {
        rows.push(stream_json(p.label.as_str(), &p.streams[i], schedules, now));
        i += 1;
    }
    assert(models(rows@) =~= stream_rows(*p, schedules@, now));
    let mut out = Json::object();
    out.set("name", Json::text(p.label.as_str()));
    out.set("url", Json::text(p.url.as_str()));
    out.set("key_pinned", Json::Bool(!trim(p.public_key.as_str()).as_str().is_empty()));
    out.set("allow_unsigned", Json::Bool(p.allow_unsigned));
    out.set("every", Json::text(p.every.as_str()));
    out.set("every_secs", Json::integer(p.every_secs));
    out.set("enabled", Json::Bool(p.enabled));
    out.set("streams", Json::array(rows));
    out
}

/// One counter of every stream, in order.
pub open spec fn counters_of(peers: Seq<MeshPeer>, key: Seq<char>) -> Seq<i64>
    decreases peers.len(),
{
    if peers.len() == 0 {
        Seq::empty()
    } else {
        counters_of(peers.drop_last(), key) + Seq::new(
            peers.last().streams@.len(),
            |i: int| counter(peers.last().streams@[i].record, key),
        )
    }
}

/// Reads one counter of every stream.
fn read_counters(peers: &[MeshPeer], key: &str) -> (r: Vec<i64>)
    ensures
        r@ == counters_of(peers@, key@),
{
    let mut out: Vec<i64> = Vec::new();
    let mut i: usize = 0;
    while i < peers.len()
        invariant
            i <= peers@.len(),
            out@ =~= counters_of(peers@.take(i as int), key@),
        decreases peers@.len() - i,
    {
        assert(peers@.take(i + 1).drop_last() =~= peers@.take(i as int));
        let ghost had = out@;
        let streams = &peers[i].streams;
        let mut j: usize = 0;
        while j < streams.len()
            invariant
                i < peers@.len(),
                *streams == peers@[i as int].streams,
                j <= streams@.len(),
                out@ =~= had + Seq::new(
                    j as nat,
                    |k: int| counter(peers@[i as int].streams@[k].record, key@),
                ),
            decreases streams@.len() - j,
        {
            out.push(read_counter(&streams[j].record, key));
            j += 1;
        }
        i += 1;
    }
    assert(peers@.take(peers@.len() as int) =~= peers@);
    out
}

/// The sum of the values.
pub open spec fn sum_of(values: Seq<i64>) -> int
    decreases values.len(),
{
    if values.len() == 0 {
        0
    } else {
        sum_of(values.drop_last()) + values.last()
    }
}

/// Whether the running sum never leaves the 64-bit range.
pub open spec fn sums_fit(values: Seq<i64>) -> bool {
    forall|k: int|
        0 <= k <= values.len() ==> i64::MIN <= sum_of(#[trigger] values.take(k)) <= i64::MAX
}

/// Counters add up within 64 bits as long as every step of the sum does.
pub proof fn law_a_sum_fits_while_each_step_does(values: Seq<i64>, more: i64)
    ensures
        sums_fit(Seq::empty()),
        sums_fit(values.push(more)) <==> sums_fit(values) && i64::MIN <= sum_of(values) + more
            <= i64::MAX,
        sum_of(values.push(more)) == sum_of(values) + more,
{
    let all = values.push(more);
    let n = values.len() as int;
    assert(all.drop_last() =~= values);
    assert(all.take(n + 1) =~= all);
    assert(values.take(n) =~= values);
    assert forall|k: int| 0 <= k <= n implies #[trigger] all.take(k) == values.take(k) by {
        assert(all.take(k) =~= values.take(k));
    }
    assert forall|k: int| 0 <= k <= 0 implies i64::MIN <= sum_of(
        #[trigger] Seq::<i64>::empty().take(k),
    ) <= i64::MAX by {
        assert(Seq::<i64>::empty().take(k) =~= Seq::empty());
    }
    if sums_fit(all) {
        assert forall|k: int| 0 <= k <= n implies i64::MIN <= sum_of(#[trigger] values.take(k))
            <= i64::MAX by {
            assert(all.take(k) == values.take(k));
        }
        assert(i64::MIN <= sum_of(all.take(n + 1)) <= i64::MAX);
    } else if sums_fit(values) && i64::MIN <= sum_of(values) + more <= i64::MAX {
        assert forall|k: int| 0 <= k <= all.len() implies i64::MIN <= sum_of(#[trigger] all.take(k))
            <= i64::MAX by {
            if k <= n {
                assert(all.take(k) == values.take(k));
            }
        }
    }
}

/// Adds the values up; `None` when the running sum leaves the 64-bit range.
pub fn checked_sum(values: &[i64]) -> (r: Option<i64>)
    ensures
        r is Some <==> sums_fit(values@),
        r matches Some(n) ==> n == sum_of(values@),
{
    let mut total: i64 = 0;
    let mut i: usize = 0;
    assert(values@.take(0) =~= Seq::<i64>::empty());
    while i < values.len()
        invariant
            i <= values@.len(),
            total == sum_of(values@.take(i as int)),
            forall|k: int|
                0 <= k <= i ==> i64::MIN <= sum_of(#[trigger] values@.take(k)) <= i64::MAX,
        decreases values@.len() - i,
    {
        assert(values@.take(i + 1).drop_last() =~= values@.take(i as int));
        match total.checked_add(values[i]) {
            Some(t) => {
                total = t;
            },
            None => {
                assert(!(i64::MIN <= sum_of(values@.take(i + 1)) <= i64::MAX));
                return None;
            },
        }
        i += 1;
    }
    assert(values@.take(values@.len() as int) =~= values@);
    Some(total)
}

/// How many streams are configured.
pub open spec fn stream_count(peers: Seq<MeshPeer>) -> nat
    decreases peers.len(),
{
    if peers.len() == 0 {
        0
    } else {
        stream_count(peers.drop_last()) + peers.last().streams@.len()
    }
}

proof fn lemma_one_counter_per_stream(peers: Seq<MeshPeer>, key: Seq<char>)
    ensures
        counters_of(peers, key).len() == stream_count(peers),
    decreases peers.len(),
{
    if peers.len() > 0 {
        lemma_one_counter_per_stream(peers.drop_last(), key);
    }
}

/// Whether the counters of all streams add up within 64 bits.
pub open spec fn totals_fit(peers: Seq<MeshPeer>) -> bool {
    &&& peers.len() <= i64::MAX
    &&& stream_count(peers) <= i64::MAX
    &&& sums_fit(counters_of(peers, "pulls"@))
    &&& sums_fit(counters_of(peers, "signature_failures"@))
    &&& sums_fit(counters_of(peers, "ghosts_removed"@))
}

/// Whether `t` is what the peers add up to.
pub open spec fn totals_are(t: MeshTotals, peers: Seq<MeshPeer>) -> bool {
    &&& t.peers == peers.len()
    &&& t.streams == stream_count(peers)
    &&& t.pulls == sum_of(counters_of(peers, "pulls"@))
    &&& t.signature_failures == sum_of(counters_of(peers, "signature_failures"@))
    &&& t.ghosts_removed == sum_of(counters_of(peers, "ghosts_removed"@))
}

/// The counter of one kind over one peer's streams.
pub open spec fn streams_sum(streams: Seq<MeshStream>, key: Seq<char>) -> int
    decreases streams.len(),
{
    if streams.len() == 0 {
        0
    } else {
        streams_sum(streams.drop_last(), key) + match streams.last().record {
            Some(d) => match d@.get(key) {
                Some(v) => match v.as_i64() {
                    Some(n) => n as int,
                    None => 0,
                },
                None => 0,
            },
            None => 0,
        }
    }
}

proof fn lemma_sum_joins(a: Seq<i64>, b: Seq<i64>)
    ensures
        sum_of(a + b) == sum_of(a) + sum_of(b),
    decreases b.len(),
{
    if b.len() == 0 {
        assert(a + b =~= a);
    } else {
        lemma_sum_joins(a, b.drop_last());
        assert((a + b).drop_last() =~= a + b.drop_last());
    }
}

proof fn lemma_streams_sum(streams: Seq<MeshStream>, key: Seq<char>)
    ensures
        sum_of(Seq::new(streams.len(), |i: int| counter(streams[i].record, key))) == streams_sum(
            streams,
            key,
        ),
    decreases streams.len(),
{
    let all = Seq::new(streams.len(), |i: int| counter(streams[i].record, key));
    if streams.len() > 0 {
        let rest = streams.drop_last();
        lemma_streams_sum(rest, key);
        assert(all.drop_last() =~= Seq::new(rest.len(), |i: int| counter(rest[i].record, key)));
    }
}

proof fn lemma_counters_split(peers: Seq<MeshPeer>, key: Seq<char>)
    requires
        peers.len() > 0,
    ensures
        sum_of(counters_of(peers, key)) == sum_of(counters_of(peers.drop_last(), key))
            + streams_sum(peers.last().streams@, key),
{
    let last = peers.last().streams@;
    lemma_sum_joins(
        counters_of(peers.drop_last(), key),
        Seq::new(last.len(), |i: int| counter(last[i].record, key)),
    );
    lemma_streams_sum(last, key);
}

/// One peer more adds its streams to the fleet's totals, and each stream's own
/// counters to the counter of the same name: a stream that recorded nothing adds
/// nothing.
pub proof fn law_a_peer_adds_its_streams_to_the_totals(
    before: MeshTotals,
    after: MeshTotals,
    peers: Seq<MeshPeer>,
    p: MeshPeer,
)
    requires
        totals_are(before, peers),
        totals_are(after, peers.push(p)),
    ensures
        after.peers == before.peers + 1,
        after.streams == before.streams + p.streams@.len(),
        after.pulls == before.pulls + streams_sum(p.streams@, "pulls"@),
        after.signature_failures == before.signature_failures + streams_sum(
            p.streams@,
            "signature_failures"@,
        ),
        after.ghosts_removed == before.ghosts_removed + streams_sum(
            p.streams@,
            "ghosts_removed"@,
        ),
{
    let more = peers.push(p);
    assert(more.drop_last() =~= peers);
    lemma_counters_split(more, "pulls"@);
    lemma_counters_split(more, "signature_failures"@);
    lemma_counters_split(more, "ghosts_removed"@);
}

/// A fleet without peers counts nothing.
pub proof fn law_an_empty_fleet_counts_nothing(t: MeshTotals)
    requires
        totals_are(t, Seq::empty()),
    ensures
        t.peers == 0 && t.streams == 0 && t.pulls == 0 && t.signature_failures == 0
            && t.ghosts_removed == 0,
{
}

/// The totals can be had exactly where each of the three counters adds up over all
/// streams, and the streams can be counted.
pub proof fn law_totals_are_had_where_they_add_up(peers: Seq<MeshPeer>)
    ensures
        totals_fit(peers) <==> {
            &&& peers.len() <= i64::MAX
            &&& stream_count(peers) <= i64::MAX
            &&& forall|key: Seq<char>|
                key == "pulls"@ || key == "signature_failures"@ || key == "ghosts_removed"@
                    ==> sums_fit(#[trigger] counters_of(peers, key))
        },
        totals_fit(Seq::empty()),
{
    law_a_sum_fits_while_each_step_does(Seq::empty(), 0);
    assert(sums_fit(counters_of(peers, "pulls"@)) || !sums_fit(counters_of(peers, "pulls"@)));
    assert(sums_fit(counters_of(peers, "signature_failures"@)) || !sums_fit(
        counters_of(peers, "signature_failures"@),
    ));
    assert(sums_fit(counters_of(peers, "ghosts_removed"@)) || !sums_fit(
        counters_of(peers, "ghosts_removed"@),
    ));
}

/// The mesh counters over every peer and stream. A stream whose record is missing
/// or unreadable contributes nothing; `None` when a counter outgrows 64 bits.
pub fn mesh_totals(peers: &[MeshPeer]) -> (r: Option<MeshTotals>)
    ensures
        r is Some <==> totals_fit(peers@),
        r matches Some(t) ==> totals_are(t, peers@),
{
    proof {
        lemma_one_counter_per_stream(peers@, "pulls"@);
    }
    let pulls = read_counters(peers, "pulls");
    let failures = read_counters(peers, "signature_failures");
    let ghosts = read_counters(peers, "ghosts_removed");
    let count: u64 = peers.len() as u64;
    let streams: u64 = pulls.len() as u64;
    if count > 9_223_372_036_854_775_807 || streams > 9_223_372_036_854_775_807 {
        return None;
    }
    match (checked_sum(&pulls), checked_sum(&failures), checked_sum(&ghosts)) {
        (Some(p), Some(f), Some(g)) => Some(
            MeshTotals {
                peers: count as i64,
                streams: streams as i64,
                pulls: p,
                signature_failures: f,
                ghosts_removed: g,
            },
        ),
        _ => None,
    }
}

/// The blocks of all peers.
pub open spec fn peer_blocks(
    peers: Seq<MeshPeer>,
    schedules: Seq<String>,
    now: Instant,
) -> Seq<JsonModel> {
    Seq::new(peers.len(), |i: int| peer_block(peers[i], schedules, now))
}

/// The whole status page.
pub open spec fn mesh_page(
    node_id: Seq<char>,
    peers: Seq<MeshPeer>,
    schedules: Seq<String>,
    totals: MeshTotals,
    now: Instant,
) -> JsonModel {
    JsonModel::object().put("node_id"@, JsonModel::Text(node_id)).put(
        "peers"@,
        JsonModel::Array(peer_blocks(peers, schedules, now)),
    ).put(
        "totals"@,
        JsonModel::object().put("peers"@, JsonModel::integer(totals.peers as int)).put(
            "streams"@,
            JsonModel::integer(totals.streams as int),
        ).put("pulls"@, JsonModel::integer(totals.pulls as int)).put(
            "signature_failures"@,
            JsonModel::integer(totals.signature_failures as int),
        ).put("ghosts_removed"@, JsonModel::integer(totals.ghosts_removed as int)),
    )
}

/// The page shows the node, its peers, and the fleet's totals.
pub proof fn law_a_mesh_page_names_what_it_shows(
    node_id: Seq<char>,
    peers: Seq<MeshPeer>,
    schedules: Seq<String>,
    totals: MeshTotals,
    now: Instant,
)
    ensures
        ({
            let shown = mesh_page(node_id, peers, schedules, totals, now);
            &&& shown.get("node_id"@) == Some(JsonModel::Text(node_id))
            &&& shown.get("peers"@) == Some(JsonModel::Array(peer_blocks(peers, schedules, now)))
            &&& shown.get("totals"@) == Some(
                JsonModel::object().put("peers"@, JsonModel::integer(totals.peers as int)).put("streams"@, JsonModel::integer(totals.streams as int)).put("pulls"@, JsonModel::integer(totals.pulls as int)).put(
                    "signature_failures"@,
                    JsonModel::integer(totals.signature_failures as int),
                ).put("ghosts_removed"@, JsonModel::integer(totals.ghosts_removed as int)),
            )
        }),
{
    reveal_strlit("node_id");
    reveal_strlit("peers");
    reveal_strlit("totals");
    let m0 = JsonModel::object();
    let v1 = JsonModel::Text(node_id);
    lemma_put(m0, "node_id"@, v1);
    let m1 = m0.put("node_id"@, v1);
    let v2 = JsonModel::Array(peer_blocks(peers, schedules, now));
    lemma_put(m1, "peers"@, v2);
    let m2 = m1.put("peers"@, v2);
    let v3 = JsonModel::object().put("peers"@, JsonModel::integer(totals.peers as int)).put("streams"@, JsonModel::integer(totals.streams as int)).put("pulls"@, JsonModel::integer(totals.pulls as int)).put(
        "signature_failures"@,
        JsonModel::integer(totals.signature_failures as int),
    ).put("ghosts_removed"@, JsonModel::integer(totals.ghosts_removed as int));
    lemma_put(m2, "totals"@, v3);
}

/// Mesh status: every configured peer, every stream, and what the last pull did.
/// `None` when a counter outgrows 64 bits.
pub fn get_mesh(node_id: &str, peers: &[MeshPeer], schedules: &[String], now: Instant) -> (r: Option<
    Json,
>)
    ensures
        r is Some <==> totals_fit(peers@),
        r matches Some(page) ==> exists|t: MeshTotals|
            totals_are(t, peers@) && page@ == #[trigger] mesh_page(
                node_id@,
                peers@,
                schedules@,
                t,
                now,
            ),
{
    let totals = match mesh_totals(peers) {
        Some(t) => t,
        None => {
            return None;
        },
    };
    let mut blocks: Vec<Json> = Vec::new();
    let mut i: usize = 0;
    while i < peers.len()
        invariant
            i <= peers@.len(),
            blocks@.len() == i,
            forall|k: int|
                0 <= k < i ==> (#[trigger] blocks@[k])@ == peer_block(peers@[k], schedules@, now),
        decreases peers@.len() - i,
    {
        blocks.push(peer_json(&peers[i], schedules, now));
        i += 1;
    }
    assert(models(blocks@) =~= peer_blocks(peers@, schedules@, now));
    let mut sums = Json::object();
    sums.set("peers", Json::integer(totals.peers));
    sums.set("streams", Json::integer(totals.streams));
    sums.set("pulls", Json::integer(totals.pulls));
    sums.set("signature_failures", Json::integer(totals.signature_failures));
    sums.set("ghosts_removed", Json::integer(totals.ghosts_removed));
    let mut page = Json::object();
    page.set("node_id", Json::text(node_id));
    page.set("peers", Json::array(blocks));
    page.set("totals", sums);
    assert(page@ == mesh_page(node_id@, peers@, schedules@, totals, now));
    Some(page)
}

/// This node's identity on the mesh.
#[derive(Debug, PartialEq)]
pub struct NodeIdentity {
    pub node_id: String,
    pub legacy_id: String,
    pub public_key: String,
    pub key_path: String,
    pub key_created: bool,
}

/// Shows this node's identity; one that cannot be read is said to be unavailable.
pub fn get_node(identity: Result<NodeIdentity, String>) -> (r: Result<Json, ApiError>)
    ensures
        match identity {
            Err(why) => r matches Err(e) && e@ == (500u16, "node identity unavailable: "@ + why@),
            Ok(id) => r matches Ok(j) && j@ == JsonModel::object().put(
                "node_id"@,
                JsonModel::Text(id.node_id@),
            ).put("legacy_id"@, JsonModel::Text(id.legacy_id@)).put(
                "algo"@,
                JsonModel::Text("ed25519"@),
            ).put("public_key"@, JsonModel::Text(id.public_key@)).put(
                "key_path"@,
                JsonModel::Text(id.key_path@),
            ).put("key_created"@, JsonModel::Bool(id.key_created)),
        },
{
    match identity {
        Err(why) => Err(identity_unavailable(why.as_str())),
        Ok(id) => {
            let mut out = Json::object();
            out.set("node_id", Json::text(id.node_id.as_str()));
            out.set("legacy_id", Json::text(id.legacy_id.as_str()));
            out.set("algo", Json::text("ed25519"));
            out.set("public_key", Json::text(id.public_key.as_str()));
            out.set("key_path", Json::text(id.key_path.as_str()));
            out.set("key_created", Json::Bool(id.key_created));
            Ok(out)
        },
    }
}

/// Each series of the mesh block stands there with its own count.
pub proof fn law_each_mesh_series_shows_its_own_count(t: MeshTotals)
    ensures
        occurs(
            declared("pumper_mesh_peers"@, "gauge"@, "Configured [[peer]] rows."@),
            mesh_text(t),
        ),
        occurs(plain("pumper_mesh_peers"@, decimal(t.peers as int)), mesh_text(t)),
        occurs(
            declared(
                "pumper_mesh_streams"@,
                "gauge"@,
                "Configured peer streams (peer x pull entry)."@,
            ),
            mesh_text(t),
        ),
        occurs(plain("pumper_mesh_streams"@, decimal(t.streams as int)), mesh_text(t)),
        occurs(
            declared(
                "pumper_mesh_pulls_total"@,
                "counter"@,
                "Peer pulls recorded across all streams."@,
            ),
            mesh_text(t),
        ),
        occurs(plain("pumper_mesh_pulls_total"@, decimal(t.pulls as int)), mesh_text(t)),
        occurs(
            declared(
                "pumper_mesh_signature_failures_total"@,
                "counter"@,
                "Bundles refused because they were unsigned, unverifiable or forged."@,
            ),
            mesh_text(t),
        ),
        occurs(
            plain("pumper_mesh_signature_failures_total"@, decimal(t.signature_failures as int)),
            mesh_text(t),
        ),
        occurs(
            declared(
                "pumper_mesh_ghosts_removed_total"@,
                "counter"@,
                "Mirrored records tombstoned by a reconcile because the origin no longer has them."@,
            ),
            mesh_text(t),
        ),
        occurs(
            plain("pumper_mesh_ghosts_removed_total"@, decimal(t.ghosts_removed as int)),
            mesh_text(t),
        ),
{
    let t0 = Seq::<char>::empty();
    let s1 = declared("pumper_mesh_peers"@, "gauge"@, "Configured [[peer]] rows."@);
    lemma_appended(t0, s1);
    let t1 = t0 + s1;
    let s2 = plain("pumper_mesh_peers"@, decimal(t.peers as int));
    lemma_appended(t1, s2);
    let t2 = t1 + s2;
    let s3 = declared(
        "pumper_mesh_streams"@,
        "gauge"@,
        "Configured peer streams (peer x pull entry)."@,
    );
    lemma_appended(t2, s3);
    let t3 = t2 + s3;
    let s4 = plain("pumper_mesh_streams"@, decimal(t.streams as int));
    lemma_appended(t3, s4);
    let t4 = t3 + s4;
    let s5 = declared(
        "pumper_mesh_pulls_total"@,
        "counter"@,
        "Peer pulls recorded across all streams."@,
    );
    lemma_appended(t4, s5);
    let t5 = t4 + s5;
    let s6 = plain("pumper_mesh_pulls_total"@, decimal(t.pulls as int));
    lemma_appended(t5, s6);
    let t6 = t5 + s6;
    let s7 = declared(
        "pumper_mesh_signature_failures_total"@,
        "counter"@,
        "Bundles refused because they were unsigned, unverifiable or forged."@,
    );
    lemma_appended(t6, s7);
    let t7 = t6 + s7;
    let s8 = plain("pumper_mesh_signature_failures_total"@, decimal(t.signature_failures as int));
    lemma_appended(t7, s8);
    let t8 = t7 + s8;
    let s9 = declared(
        "pumper_mesh_ghosts_removed_total"@,
        "counter"@,
        "Mirrored records tombstoned by a reconcile because the origin no longer has them."@,
    );
    lemma_appended(t8, s9);
    let t9 = t8 + s9;
    let s10 = plain("pumper_mesh_ghosts_removed_total"@, decimal(t.ghosts_removed as int));
    lemma_appended(t9, s10);
    let t10 = t9 + s10;
}

} // verus!
