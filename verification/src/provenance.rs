//! Record provenance: the derivation chain behind a record, and the decision
//! whether an archived body can be replayed and whether it reproduced. A stamp
//! that is not known is null, never invented.

use vstd::prelude::*;

use crate::datasets::{clamp, clamped};
use crate::error::{ApiError, CONFLICT, NOT_FOUND};
use crate::ident::{digest_text, read_uuid, text_digest, uuid_reading};
use crate::json::{
    entry_models, law_read_after_put, lemma_object_model, lemma_put, lookup, models, Json,
    JsonModel,
};
use crate::number::{decimal, push_i64};
use crate::text::{begins, chars, owned, same};

verus! {

/// Most revisions one provenance answer walks.
pub const MAX_CHAIN: i64 = 500;

/// Revisions walked when a request names no limit.
pub const DEFAULT_CHAIN: i64 = 50;

/// What is known about how a revision came to be.
#[derive(Debug, PartialEq)]
pub struct Provenance {
    pub job_id: Option<String>,
    pub source_url: Option<String>,
    pub artifact_sha: Option<String>,
    pub rules_hash: Option<String>,
}

impl Provenance {
    /// Whether the revision can be replayed: its body and its rules are both pinned.
    pub fn replayable(&self) -> (r: bool)
        ensures
            r == (self.artifact_sha is Some && self.rules_hash is Some),
    {
        self.artifact_sha.is_some() && self.rules_hash.is_some()
    }
}

/// One revision of a record; a removal carries no data.
#[derive(Debug, PartialEq)]
pub struct Revision {
    pub revision: i64,
    pub change: String,
    pub created_at: String,
    pub trust: String,
    pub data: Option<Json>,
    pub provenance: Provenance,
}

/// An optional string as an optional sequence.
pub open spec fn maybe(s: Option<String>) -> Option<Seq<char>> {
    match s {
        Some(t) => Some(t@),
        None => None,
    }
}

/// How many revisions an answer walks.
pub fn chain_limit(limit: Option<i64>) -> (r: i64)
    ensures
        r == clamped(
            match limit {
                Some(n) => n,
                None => 50,
            },
            1,
            500,
        ),
{
    let n: i64 = match limit {
        Some(n) => n,
        None => DEFAULT_CHAIN,
    };
    clamp(n, 1, MAX_CHAIN)
}

/// The distinct job ids stamped on a chain, in order of first appearance.
pub open spec fn stamped_jobs(chain: Seq<Revision>) -> Seq<Seq<char>>
    decreases chain.len(),
{
    if chain.len() == 0 {
        Seq::empty()
    } else {
        let seen = stamped_jobs(chain.drop_last());
        match chain.last().provenance.job_id {
            Some(id) => if seen.contains(id@) {
                seen
            } else {
                seen.push(id@)
            },
            None => seen,
        }
    }
}

/// The jobs to resolve are those that some revision was stamped with, each once.
pub proof fn law_every_stamped_job_is_resolved_once(chain: Seq<Revision>)
    ensures
        forall|id: Seq<char>|
            #![trigger stamped_jobs(chain).contains(id)]
            stamped_jobs(chain).contains(id) <==> exists|i: int|
                0 <= i < chain.len() && ((#[trigger] chain[i]).provenance.job_id matches Some(j)
                    && j@ == id),
        forall|a: int, b: int|
            0 <= a < b < stamped_jobs(chain).len() ==> #[trigger] stamped_jobs(chain)[a]
                != #[trigger] stamped_jobs(chain)[b],
    decreases chain.len(),
{
    if chain.len() > 0 {
        let rest = chain.drop_last();
        law_every_stamped_job_is_resolved_once(rest);
        let seen = stamped_jobs(rest);
        let all = stamped_jobs(chain);
        assert(forall|i: int| 0 <= i < rest.len() ==> #[trigger] chain[i] == rest[i]);
        let n = chain.len() - 1;
        assert(chain[n] == chain.last());
        assert forall|id: Seq<char>|
            #![trigger all.contains(id)]
            all.contains(id) <==> exists|i: int|
                0 <= i < chain.len() && ((#[trigger] chain[i]).provenance.job_id matches Some(j)
                    && j@ == id) by {
            assert(seen.contains(id) <==> exists|i: int|
                0 <= i < rest.len() && ((#[trigger] rest[i]).provenance.job_id matches Some(j)
                    && j@ == id));
            if seen.contains(id) {
                let k = choose|k: int| 0 <= k < seen.len() && seen[k] == id;
                assert(all[k] == id);
                let i = choose|i: int|
                    0 <= i < rest.len() && ((#[trigger] rest[i]).provenance.job_id matches Some(j)
                        && j@ == id);
                assert(chain[i] == rest[i]);
            }
            if let Some(own) = chain.last().provenance.job_id {
                if own@ == id && !seen.contains(id) {
                    assert(all[seen.len() as int] == id);
                }
            }
            if all.contains(id) && !seen.contains(id) {
                let k = choose|k: int| 0 <= k < all.len() && all[k] == id;
                if k < seen.len() {
                    assert(seen[k] == id);
                }
                assert(chain[n].provenance.job_id matches Some(j) && j@ == id);
            }
            if exists|i: int|
                0 <= i < chain.len() && ((#[trigger] chain[i]).provenance.job_id matches Some(j)
                    && j@ == id) {
                let i = choose|i: int|
                    0 <= i < chain.len() && ((#[trigger] chain[i]).provenance.job_id matches Some(j)
                        && j@ == id);
                if i < n {
                    assert(rest[i] == chain[i]);
                    assert(seen.contains(id));
                }
            }
        }
        assert forall|a: int, b: int| 0 <= a < b < all.len() implies #[trigger] all[a]
            != #[trigger] all[b] by {
            if b < seen.len() {
                assert(seen[a] != seen[b]);
            } else {
                assert(seen[a] == all[a]);
                assert(seen.contains(seen[a]));
            }
        }
    }
}

fn contains_text(list: &[String], s: &str) -> (r: bool)
    ensures
        r == list@.map_values(|t: String| t@).contains(s@),
{
    let ghost all = list@.map_values(|t: String| t@);
    let mut i: usize = 0;
    while i < list.len()
        invariant
            i <= list@.len(),
            all == list@.map_values(|t: String| t@),
            forall|k: int| 0 <= k < i ==> all[k] != s@,
        decreases list@.len() - i,
    {
        assert(all[i as int] == list@[i as int]@);
        if same(list[i].as_str(), s) {
            return true;
        }
        i += 1;
    }
    false
}

/// The job ids whose lineage a chain needs: each once.
pub fn jobs_to_resolve(chain: &[Revision]) -> (r: Vec<String>)
    ensures
        r@.map_values(|t: String| t@) == stamped_jobs(chain@),
{
    let mut out: Vec<String> = Vec::new();
    let mut i: usize = 0;
    while i < chain.len()
        invariant
            i <= chain@.len(),
            out@.map_values(|t: String| t@) =~= stamped_jobs(chain@.take(i as int)),
        decreases chain@.len() - i,
    {
        assert(chain@.take(i + 1).drop_last() =~= chain@.take(i as int));
        if let Some(id) = &chain[i].provenance.job_id {
            if !contains_text(&out, id.as_str()) {
                out.push(owned(id.as_str()));
            }
        }
        i += 1;
    }
    assert(chain@.take(chain@.len() as int) =~= chain@);
    out
}

/// The job a stamped id names, when it is a UUID at all.
pub fn lineage_key(id: &str) -> (r: Option<[u8; 16]>)
    ensures
        match r {
            Some(b) => uuid_reading(id@) == Some(b@),
            None => uuid_reading(id@) is None,
        },
{
    read_uuid(id)
}

/// The lineage of a job among those that were resolved, which `jobs` holds under
/// their ids; null for a job nobody knows any more.
pub open spec fn lineage_of(jobs: JsonModel, id: Option<Seq<char>>) -> JsonModel {
    match id {
        None => JsonModel::Null,
        Some(k) => JsonModel::or_null(jobs.get(k)),
    }
}

/// A revision's job is the one of its stamp, null where it has no stamp or the job is
/// not known.
pub proof fn law_a_revision_is_traced_to_its_own_job(jobs: JsonModel, id: Seq<char>)
    ensures
        lineage_of(jobs, None) is Null,
        jobs.get(id) matches Some(job) ==> lineage_of(jobs, Some(id)) == job,
        jobs.get(id) is None ==> lineage_of(jobs, Some(id)) is Null,
{
}

/// One link of the chain.
pub open spec fn link(rev: Revision, jobs: JsonModel) -> JsonModel {
    JsonModel::object().put("revision"@, JsonModel::integer(rev.revision as int)).put(
        "change"@,
        JsonModel::Text(rev.change@),
    ).put("created_at"@, JsonModel::Text(rev.created_at@)).put(
        "trust"@,
        JsonModel::Text(rev.trust@),
    ).put("provenance"@, stamp(rev.provenance)).put(
        "job"@,
        lineage_of(jobs, maybe(rev.provenance.job_id)),
    )
}

/// Each member of a link holds what it is named after.
pub proof fn law_a_link_names_what_it_shows(rev: Revision, jobs: JsonModel)
    ensures
        ({
            let shown = link(rev, jobs);
            &&& shown.get("revision"@) == Some(JsonModel::integer(rev.revision as int))
            &&& shown.get("change"@) == Some(JsonModel::Text(rev.change@))
            &&& shown.get("created_at"@) == Some(JsonModel::Text(rev.created_at@))
            &&& shown.get("trust"@) == Some(JsonModel::Text(rev.trust@))
            &&& shown.get("provenance"@) == Some(stamp(rev.provenance))
            &&& shown.get("job"@) == Some(lineage_of(jobs, maybe(rev.provenance.job_id)))
        }),
{
    reveal_strlit("revision");
    reveal_strlit("change");
    reveal_strlit("created_at");
    reveal_strlit("trust");
    reveal_strlit("provenance");
    reveal_strlit("job");
    assert("created_at"@[0] != "provenance"@[0]);
    let m0 = JsonModel::object();
    let v1 = JsonModel::integer(rev.revision as int);
    lemma_put(m0, "revision"@, v1);
    let m1 = m0.put("revision"@, v1);
    let v2 = JsonModel::Text(rev.change@);
    lemma_put(m1, "change"@, v2);
    let m2 = m1.put("change"@, v2);
    let v3 = JsonModel::Text(rev.created_at@);
    lemma_put(m2, "created_at"@, v3);
    let m3 = m2.put("created_at"@, v3);
    let v4 = JsonModel::Text(rev.trust@);
    lemma_put(m3, "trust"@, v4);
    let m4 = m3.put("trust"@, v4);
    let v5 = stamp(rev.provenance);
    lemma_put(m4, "provenance"@, v5);
    let m5 = m4.put("provenance"@, v5);
    let v6 = lineage_of(jobs, maybe(rev.provenance.job_id));
    lemma_put(m5, "job"@, v6);
}

/// The stamp of a revision.
pub open spec fn stamp(p: Provenance) -> JsonModel {
    JsonModel::object().put("job_id"@, JsonModel::text_or_null(maybe(p.job_id))).put(
        "source_url"@,
        JsonModel::text_or_null(maybe(p.source_url)),
    ).put("artifact_sha"@, JsonModel::text_or_null(maybe(p.artifact_sha))).put(
        "rules_hash"@,
        JsonModel::text_or_null(maybe(p.rules_hash)),
    ).put("replayable"@, JsonModel::Bool(p.artifact_sha is Some && p.rules_hash is Some))
}

/// Each member of a stamp holds the pin it is named after.
pub proof fn law_a_stamp_names_what_it_shows(p: Provenance)
    ensures
        ({
            let shown = stamp(p);
            &&& shown.get("job_id"@) == Some(JsonModel::text_or_null(maybe(p.job_id)))
            &&& shown.get("source_url"@) == Some(JsonModel::text_or_null(maybe(p.source_url)))
            &&& shown.get("artifact_sha"@) == Some(JsonModel::text_or_null(maybe(p.artifact_sha)))
            &&& shown.get("rules_hash"@) == Some(JsonModel::text_or_null(maybe(p.rules_hash)))
            &&& shown.get("replayable"@) == Some(
                JsonModel::Bool(p.artifact_sha is Some && p.rules_hash is Some),
            )
        }),
{
    reveal_strlit("job_id");
    reveal_strlit("source_url");
    reveal_strlit("artifact_sha");
    reveal_strlit("rules_hash");
    reveal_strlit("replayable");
    assert("source_url"@[0] != "rules_hash"@[0]);
    assert("source_url"@[0] != "replayable"@[0]);
    assert("rules_hash"@[1] != "replayable"@[1]);
    let m0 = JsonModel::object();
    let v1 = JsonModel::text_or_null(maybe(p.job_id));
    lemma_put(m0, "job_id"@, v1);
    let m1 = m0.put("job_id"@, v1);
    let v2 = JsonModel::text_or_null(maybe(p.source_url));
    lemma_put(m1, "source_url"@, v2);
    let m2 = m1.put("source_url"@, v2);
    let v3 = JsonModel::text_or_null(maybe(p.artifact_sha));
    lemma_put(m2, "artifact_sha"@, v3);
    let m3 = m2.put("artifact_sha"@, v3);
    let v4 = JsonModel::text_or_null(maybe(p.rules_hash));
    lemma_put(m3, "rules_hash"@, v4);
    let m4 = m3.put("rules_hash"@, v4);
    let v5 = JsonModel::Bool(p.artifact_sha is Some && p.rules_hash is Some);
    lemma_put(m4, "replayable"@, v5);
}

fn find_lineage(jobs: &Json, id: &Option<String>) -> (r: Json)
    ensures
        r@ == lineage_of(jobs@, maybe(*id)),
{
    match id {
        None => Json::Null,
        Some(k) => match jobs.get(k.as_str()) {
            Some(j) => j.copy(),
            None => Json::Null,
        },
    }
}

/// One link of a chain as JSON. `jobs` holds the resolved lineages by job id.
pub fn chain_link(rev: &Revision, jobs: &Json) -> (r: Json)
    ensures
        r@ == link(*rev, jobs@),
{
    let mut stamped = Json::object();
    stamped.set("job_id", Json::optional_text(&rev.provenance.job_id));
    stamped.set("source_url", Json::optional_text(&rev.provenance.source_url));
    stamped.set("artifact_sha", Json::optional_text(&rev.provenance.artifact_sha));
    stamped.set("rules_hash", Json::optional_text(&rev.provenance.rules_hash));
    stamped.set("replayable", Json::Bool(rev.provenance.replayable()));
    let mut out = Json::object();
    out.set("revision", Json::integer(rev.revision));
    out.set("change", Json::text(rev.change.as_str()));
    out.set("created_at", Json::text(rev.created_at.as_str()));
    out.set("trust", Json::text(rev.trust.as_str()));
    out.set("provenance", stamped);
    out.set("job", find_lineage(jobs, &rev.provenance.job_id));
    out
}

/// A record as the provenance answer shows it.
#[derive(Debug, PartialEq)]
pub struct RecordHead {
    pub app: String,
    pub dataset: String,
    pub key: String,
    pub trust: String,
    pub removed_at: Option<String>,
}

/// Coverage of the whole chain, not only of the page that is shown.
#[derive(Debug, Clone, Copy, PartialEq, Eq)]
pub struct Coverage {
    pub revisions: i64,
    pub with_job: i64,
    pub replayable: i64,
}

/// The links of a chain.
pub open spec fn links(chain: Seq<Revision>, jobs: JsonModel) -> Seq<JsonModel> {
    Seq::new(chain.len(), |i: int| link(chain[i], jobs))
}

/// The whole provenance answer.
pub open spec fn provenance_answer(
    head: RecordHead,
    coverage: Coverage,
    chain: Seq<Revision>,
    jobs: JsonModel,
) -> JsonModel {
    JsonModel::object().put("app"@, JsonModel::Text(head.app@)).put(
        "dataset"@,
        JsonModel::Text(head.dataset@),
    ).put("key"@, JsonModel::Text(head.key@)).put("trust"@, JsonModel::Text(head.trust@)).put(
        "removed_at"@,
        JsonModel::text_or_null(maybe(head.removed_at)),
    ).put(
        "coverage"@,
        JsonModel::object().put("revisions"@, JsonModel::integer(coverage.revisions as int)).put(
            "with_job"@,
            JsonModel::integer(coverage.with_job as int),
        ).put("replayable"@, JsonModel::integer(coverage.replayable as int)),
    ).put("chain"@, JsonModel::Array(links(chain, jobs)))
}

/// Each member of the answer holds what it is named after.
pub proof fn law_a_provenance_answer_names_what_it_shows(
    head: RecordHead,
    coverage: Coverage,
    chain: Seq<Revision>,
    jobs: JsonModel,
)
    ensures
        ({
            let shown = provenance_answer(head, coverage, chain, jobs);
            &&& shown.get("app"@) == Some(JsonModel::Text(head.app@))
            &&& shown.get("dataset"@) == Some(JsonModel::Text(head.dataset@))
            &&& shown.get("key"@) == Some(JsonModel::Text(head.key@))
            &&& shown.get("trust"@) == Some(JsonModel::Text(head.trust@))
            &&& shown.get("removed_at"@) == Some(JsonModel::text_or_null(maybe(head.removed_at)))
            &&& shown.get("coverage"@) == Some(
                JsonModel::object().put("revisions"@, JsonModel::integer(coverage.revisions as int)).put("with_job"@, JsonModel::integer(coverage.with_job as int)).put(
                    "replayable"@,
                    JsonModel::integer(coverage.replayable as int),
                ),
            )
            &&& shown.get("chain"@) == Some(JsonModel::Array(links(chain, jobs)))
        }),
{
    reveal_strlit("app");
    reveal_strlit("dataset");
    reveal_strlit("key");
    reveal_strlit("trust");
    reveal_strlit("removed_at");
    reveal_strlit("coverage");
    reveal_strlit("chain");
    assert("app"@[0] != "key"@[0]);
    assert("trust"@[0] != "chain"@[0]);
    let m0 = JsonModel::object();
    let v1 = JsonModel::Text(head.app@);
    lemma_put(m0, "app"@, v1);
    let m1 = m0.put("app"@, v1);
    let v2 = JsonModel::Text(head.dataset@);
    lemma_put(m1, "dataset"@, v2);
    let m2 = m1.put("dataset"@, v2);
    let v3 = JsonModel::Text(head.key@);
    lemma_put(m2, "key"@, v3);
    let m3 = m2.put("key"@, v3);
    let v4 = JsonModel::Text(head.trust@);
    lemma_put(m3, "trust"@, v4);
    let m4 = m3.put("trust"@, v4);
    let v5 = JsonModel::text_or_null(maybe(head.removed_at));
    lemma_put(m4, "removed_at"@, v5);
    let m5 = m4.put("removed_at"@, v5);
    let v6 = JsonModel::object().put("revisions"@, JsonModel::integer(coverage.revisions as int)).put("with_job"@, JsonModel::integer(coverage.with_job as int)).put(
        "replayable"@,
        JsonModel::integer(coverage.replayable as int),
    );
    lemma_put(m5, "coverage"@, v6);
    let m6 = m5.put("coverage"@, v6);
    let v7 = JsonModel::Array(links(chain, jobs));
    lemma_put(m6, "chain"@, v7);
}

/// Answers a provenance request: the record, the coverage of its whole history,
/// and the requested links with the lineage of each stamped job.
pub fn get_provenance(
    head: &RecordHead,
    coverage: Coverage,
    chain: &[Revision],
    jobs: &Json,
) -> (r: Json)
    ensures
        r@ == provenance_answer(*head, coverage, chain@, jobs@),
{
    let mut rows: Vec<Json> = Vec::new();
    let mut i: usize = 0;
    while i < chain.len()
        invariant
            i <= chain@.len(),
            rows@.len() == i,
            forall|k: int| 0 <= k < i ==> (#[trigger] rows@[k])@ == link(chain@[k], jobs@),
        decreases chain@.len() - i,
    {
        rows.push(chain_link(&chain[i], jobs));
        i += 1;
    }
    assert(models(rows@) =~= links(chain@, jobs@));
    let mut counts = Json::object();
    counts.set("revisions", Json::integer(coverage.revisions));
    counts.set("with_job", Json::integer(coverage.with_job));
    counts.set("replayable", Json::integer(coverage.replayable));
    let mut out = Json::object();
    out.set("app", Json::text(head.app.as_str()));
    out.set("dataset", Json::text(head.dataset.as_str()));
    out.set("key", Json::text(head.key.as_str()));
    out.set("trust", Json::text(head.trust.as_str()));
    out.set("removed_at", Json::optional_text(&head.removed_at));
    out.set("coverage", counts);
    out.set("chain", Json::array(rows));
    out
}

/// The revision a replay is about: the one that was asked for, or the newest
/// that carries data. The chain is newest first.
pub open spec fn replay_index(chain: Seq<Revision>, wanted: Option<i64>) -> Option<int>
    decreases chain.len(),
{
    if chain.len() == 0 {
        None
    } else if match wanted {
        Some(n) => chain[0].revision == n,
        None => chain[0].data is Some,
    } {
        Some(0)
    } else {
        match replay_index(chain.drop_first(), wanted) {
            Some(i) => Some(i + 1),
            None => None,
        }
    }
}

spec fn wanted_here(rev: Revision, wanted: Option<i64>) -> bool {
    match wanted {
        Some(n) => rev.revision == n,
        None => rev.data is Some,
    }
}

proof fn lemma_replay_at(chain: Seq<Revision>, wanted: Option<i64>, i: int)
    requires
        0 <= i <= chain.len(),
        forall|k: int| 0 <= k < i ==> !wanted_here(#[trigger] chain[k], wanted),
        i < chain.len() ==> wanted_here(chain[i], wanted),
    ensures
        replay_index(chain, wanted) == if i < chain.len() {
            Some(i)
        } else {
            None
        },
    decreases i,
{
    if i > 0 {
        assert(!wanted_here(chain[0], wanted));
        assert forall|k: int| 0 <= k < i - 1 implies !wanted_here(
            #[trigger] chain.drop_first()[k],
            wanted,
        ) by {
            assert(!wanted_here(chain[k + 1], wanted));
        }
        lemma_replay_at(chain.drop_first(), wanted, i - 1);
    }
}

/// A replay without a number takes the newest revision that carries data: all
/// before it are without, and it finds nothing only where no revision has any.
/// A replay of a number takes the first revision so numbered, and finds nothing
/// only where none is.
pub proof fn law_a_replay_takes_the_newest_that_fits(chain: Seq<Revision>, wanted: Option<i64>)
    ensures
        match (replay_index(chain, wanted), wanted) {
            (Some(i), Some(n)) => 0 <= i < chain.len() && chain[i].revision == n && forall|k: int|
                0 <= k < i ==> (#[trigger] chain[k]).revision != n,
            (None, Some(n)) => forall|k: int|
                0 <= k < chain.len() ==> (#[trigger] chain[k]).revision != n,
            (Some(i), None) => 0 <= i < chain.len() && chain[i].data is Some && forall|k: int|
                0 <= k < i ==> (#[trigger] chain[k]).data is None,
            (None, None) => forall|k: int|
                0 <= k < chain.len() ==> (#[trigger] chain[k]).data is None,
        },
    decreases chain.len(),
{
    if chain.len() > 0 {
        let rest = chain.drop_first();
        law_a_replay_takes_the_newest_that_fits(rest, wanted);
        assert forall|k: int| 1 <= k < chain.len() implies #[trigger] chain[k] == rest[k - 1] by {}
    }
}

/// Chooses the revision to replay.
pub fn choose_revision(chain: &[Revision], wanted: Option<i64>) -> (r: Result<usize, ApiError>)
    ensures
        wanted is None ==> (r is Ok <==> exists|k: int|
            0 <= k < chain@.len() && (#[trigger] chain@[k]).data is Some),
        wanted is None ==> (r matches Ok(i) ==> chain@[i as int].data is Some && forall|k: int|
            0 <= k < i ==> (#[trigger] chain@[k]).data is None),
        wanted matches Some(n) ==> (r is Ok <==> exists|k: int|
            0 <= k < chain@.len() && (#[trigger] chain@[k]).revision == n),
        wanted matches Some(n) ==> (r matches Ok(i) ==> chain@[i as int].revision == n
            && forall|k: int| 0 <= k < i ==> (#[trigger] chain@[k]).revision != n),
        match r {
            Ok(i) => replay_index(chain@, wanted) == Some(i as int) && i < chain@.len(),
            Err(e) => replay_index(chain@, wanted) is None && e@ == (
                404u16,
                match wanted {
                    Some(n) => "no revision "@ + decimal(n as int),
                    None => "record has no data revisions"@,
                },
            ),
        },
{
    let mut i: usize = 0;
    while i < chain.len()
        invariant
            i <= chain@.len(),
            forall|k: int| 0 <= k < i ==> !wanted_here(#[trigger] chain@[k], wanted),
        decreases chain@.len() - i,
    {
        let here = match wanted {
            Some(n) => chain[i].revision == n,
            None => chain[i].data.is_some(),
        };
        if here {
            proof {
                lemma_replay_at(chain@, wanted, i as int);
                law_a_replay_takes_the_newest_that_fits(chain@, wanted);
            }
            return Ok(i);
        }
        i += 1;
    }
    proof {
        lemma_replay_at(chain@, wanted, i as int);
        law_a_replay_takes_the_newest_that_fits(chain@, wanted);
    }
    match wanted {
        Some(n) => {
            let mut m = owned("no revision ");
            push_i64(&mut m, n);
            Err(ApiError::new(NOT_FOUND, m))
        },
        None => Err(ApiError::fixed(NOT_FOUND, "record has no data revisions")),
    }
}

/// The pins a stamp lacks, as prose.
pub open spec fn missing_pins(p: Provenance) -> Seq<char> {
    if p.artifact_sha is None && p.rules_hash is None {
        "artifact_sha and rules_hash"@
    } else if p.artifact_sha is None {
        "artifact_sha"@
    } else {
        "rules_hash"@
    }
}

/// The pins a stamp is said to lack are those it lacks.
pub proof fn law_missing_pins_are_the_ones_not_there(p: Provenance)
    requires
        p.artifact_sha is None || p.rules_hash is None,
    ensures
        missing_pins(p) == "artifact_sha and rules_hash"@ <==> p.artifact_sha is None
            && p.rules_hash is None,
        missing_pins(p) == "artifact_sha"@ <==> p.artifact_sha is None && p.rules_hash is Some,
        missing_pins(p) == "rules_hash"@ <==> p.artifact_sha is Some && p.rules_hash is None,
{
    reveal_strlit("artifact_sha and rules_hash");
    reveal_strlit("artifact_sha");
    reveal_strlit("rules_hash");
    assert("artifact_sha and rules_hash"@.len() == 27);
    assert("artifact_sha"@.len() == 12);
    assert("rules_hash"@.len() == 10);
}

/// The refusal of a revision that carries no snapshot.
pub open spec fn removal_message(revision: i64) -> Seq<char> {
    "revision "@ + decimal(revision as int)
        + " is a removal — it carries no snapshot to reproduce"@
}

/// The refusal of a revision whose pins are incomplete.
pub open spec fn unpinned_message(revision: i64, missing: Seq<char>) -> Seq<char> {
    "revision "@ + decimal(revision as int) + " is not replayable: "@ + missing
        + " unknown (honest-Null stamp — the write path did not know it, and it will not be invented)"@
}

/// What a replay needs of a revision: its snapshot and both pins. Anything less
/// is refused with the exact gap.
pub fn replay_pins(rev: &Revision) -> (r: Result<(&Json, &str, &str), ApiError>)
    ensures
        match r {
            Ok((stored, artifact, rules)) => {
                &&& rev.data == Some(*stored)
                &&& rev.provenance.artifact_sha matches Some(a) && artifact@ == a@
                &&& rev.provenance.rules_hash matches Some(h) && rules@ == h@
            },
            Err(e) => if rev.data is None {
                e@ == (409u16, removal_message(rev.revision))
            } else {
                &&& rev.provenance.artifact_sha is None || rev.provenance.rules_hash is None
                &&& e@ == (
                    409u16,
                    unpinned_message(rev.revision, missing_pins(rev.provenance)),
                )
            },
        },
{
    let stored = match &rev.data {
        Some(d) => d,
        None => {
            let mut m = owned("revision ");
            push_i64(&mut m, rev.revision);
            m.append(" is a removal — it carries no snapshot to reproduce");
            return Err(ApiError::new(CONFLICT, m));
        },
    };
    if let Some(artifact) = &rev.provenance.artifact_sha {
        if let Some(rules) = &rev.provenance.rules_hash {
            return Ok((stored, artifact.as_str(), rules.as_str()));
        }
    }
    let mut m = owned("revision ");
    push_i64(&mut m, rev.revision);
    m.append(" is not replayable: ");
    if rev.provenance.artifact_sha.is_none() && rev.provenance.rules_hash.is_none() {
        m.append("artifact_sha and rules_hash");
    } else if rev.provenance.artifact_sha.is_none() {
        m.append("artifact_sha");
    } else {
        m.append("rules_hash");
    }
    m.append(
        " unknown (honest-Null stamp — the write path did not know it, and it will not be invented)",
    );
    Err(ApiError::new(CONFLICT, m))
}

/// Why the rules a revision was stamped with cannot be replayed.
#[derive(Debug, PartialEq)]
pub enum RulesFault {
    /// The ruleset was stamped but never registered.
    Unregistered,
    /// The registered rules do not read as a ruleset.
    Unparseable(String),
    /// The registered rules no longer compile.
    Uncompilable(String),
}

/// What a replay without usable rules is answered with.
pub open spec fn rules_message(rules_hash: Seq<char>, fault: RulesFault) -> Seq<char> {
    match fault {
        RulesFault::Unregistered => "rules "@ + rules_hash
            + " not in the rules_versions registry — the ruleset was stamped but never registered, so the historical rules cannot be replayed"@,
        RulesFault::Unparseable(e) => "registered rules unparseable as a RuleSet: "@ + e@,
        RulesFault::Uncompilable(e) => "registered rules no longer compile: "@ + e@,
    }
}

fn rules_refused(rules_hash: &str, fault: &RulesFault) -> (r: ApiError)
    ensures
        r@ == (409u16, rules_message(rules_hash@, *fault)),
{
    let m = match fault {
        RulesFault::Unregistered => {
            let mut m = owned("rules ");
            m.append(rules_hash);
            m.append(
                " not in the rules_versions registry — the ruleset was stamped but never registered, so the historical rules cannot be replayed",
            );
            m
        },
        RulesFault::Unparseable(e) => {
            let mut m = owned("registered rules unparseable as a RuleSet: ");
            m.append(e.as_str());
            m
        },
        RulesFault::Uncompilable(e) => {
            let mut m = owned("registered rules no longer compile: ");
            m.append(e.as_str());
            m
        },
    };
    ApiError::new(CONFLICT, m)
}

/// The refusal of a body that is not the stamped one.
pub open spec fn body_mismatch_message(actual: Seq<char>, stamped: Seq<char>) -> Seq<char> {
    "archived body hash "@ + actual + " does not match the stamped artifact_sha "@ + stamped
        + " — the file on disk is not the body this revision was derived from"@
}

/// The refusal of a body names the digest it has before the one it was stamped with.
pub proof fn law_a_body_mismatch_names_both_digests(actual: Seq<char>, stamped: Seq<char>)
    ensures
        begins(
            body_mismatch_message(actual, stamped),
            "archived body hash "@ + actual + " does not match the stamped artifact_sha "@
                + stamped,
        ),
{
    let head = "archived body hash "@ + actual + " does not match the stamped artifact_sha "@
        + stamped;
    assert(body_mismatch_message(actual, stamped).take(head.len() as int) =~= head);
}

/// Whether a body with this digest is the one the revision was derived from.
pub fn check_body_digest(actual: &str, artifact_sha: &str) -> (r: Result<(), ApiError>)
    ensures
        match r {
            Ok(_) => actual@ == artifact_sha@,
            Err(e) => actual@ != artifact_sha@ && e@ == (
                409u16,
                body_mismatch_message(actual@, artifact_sha@),
            ),
        },
{
    if same(actual, artifact_sha) {
        return Ok(());
    }
    let mut m = owned("archived body hash ");
    m.append(actual);
    m.append(" does not match the stamped artifact_sha ");
    m.append(artifact_sha);
    m.append(" — the file on disk is not the body this revision was derived from");
    Err(ApiError::new(CONFLICT, m))
}

/// Verifies that an archived body is the stamped one, by its SHA-256 digest.
pub fn check_body(body: &str, artifact_sha: &str) -> (r: Result<(), ApiError>)
    ensures
        match r {
            Ok(_) => text_digest(body@) == artifact_sha@,
            Err(e) => text_digest(body@) != artifact_sha@ && e@ == (
                409u16,
                body_mismatch_message(text_digest(body@), artifact_sha@),
            ),
        },
{
    check_body_digest(digest_text(body).as_str(), artifact_sha)
}

/// What keeps a revision from being replayed, with what its rules and its body
/// turned out to be: no snapshot, an unknown pin, unusable rules, a body that
/// cannot be had, or one that is not the stamped one. Named in that order.
pub open spec fn replay_gap(
    rev: Revision,
    rules: Result<(), RulesFault>,
    body: Result<String, String>,
) -> Option<Seq<char>> {
    if rev.data is None {
        Some(removal_message(rev.revision))
    } else if rev.provenance.artifact_sha is None || rev.provenance.rules_hash is None {
        Some(unpinned_message(rev.revision, missing_pins(rev.provenance)))
    } else {
        match rules {
            Err(fault) => Some(rules_message(rev.provenance.rules_hash->0@, fault)),
            Ok(_) => match body {
                Err(why) => Some("archived body unavailable: "@ + why@),
                Ok(text) => if text_digest(text@) != rev.provenance.artifact_sha->0@ {
                    Some(
                        body_mismatch_message(
                            text_digest(text@),
                            rev.provenance.artifact_sha->0@,
                        ),
                    )
                } else {
                    None
                },
            },
        }
    }
}

/// A replay that cannot be had is refused for the first thing it lacks: its
/// snapshot, its pins, its rules, its archived body, and last that the body is the
/// one it was stamped with.
pub proof fn law_a_replay_is_refused_for_what_it_lacks_first(
    rev: Revision,
    rules: Result<(), RulesFault>,
    body: Result<String, String>,
)
    ensures
        rev.data is None ==> replay_gap(rev, rules, body) == Some(removal_message(rev.revision)),
        rev.data is Some && (rev.provenance.artifact_sha is None
            || rev.provenance.rules_hash is None) ==> replay_gap(rev, rules, body) == Some(
            unpinned_message(rev.revision, missing_pins(rev.provenance)),
        ),
        rev.data is Some && rev.provenance.artifact_sha is Some && rev.provenance.rules_hash is Some
            ==> {
            &&& rules matches Err(fault) ==> replay_gap(rev, rules, body) == Some(
                rules_message(rev.provenance.rules_hash->0@, fault),
            )
            &&& rules is Ok ==> (body matches Err(why) ==> replay_gap(rev, rules, body) == Some(
                "archived body unavailable: "@ + why@,
            ))
            &&& rules is Ok ==> (body matches Ok(text) ==> (text_digest(text@)
                != rev.provenance.artifact_sha->0@ ==> replay_gap(rev, rules, body) == Some(
                body_mismatch_message(text_digest(text@), rev.provenance.artifact_sha->0@),
            )))
        },
{
}

/// Whether a revision may be replayed: its snapshot, or the refusal that names the
/// gap.
pub fn replay_gate<'a>(
    rev: &'a Revision,
    rules: &Result<(), RulesFault>,
    body: &Result<String, String>,
) -> (r: Result<&'a Json, ApiError>)
    ensures
        match r {
            Ok(stored) => replay_gap(*rev, *rules, *body) is None && rev.data == Some(*stored),
            Err(e) => replay_gap(*rev, *rules, *body) is Some && e@ == (
                409u16,
                replay_gap(*rev, *rules, *body)->0,
            ),
        },
{
    let (stored, artifact_sha, rules_hash) = match replay_pins(rev) {
        Ok(pins) => pins,
        Err(e) => return Err(e),
    };
    if let Err(fault) = rules {
        return Err(rules_refused(rules_hash, fault));
    }
    match body {
        Err(why) => {
            let mut m = owned("archived body unavailable: ");
            m.append(why.as_str());
            Err(ApiError::new(CONFLICT, m))
        },
        Ok(text) => match check_body(text.as_str(), artifact_sha) {
            Ok(_) => Ok(stored),
            Err(e) => Err(e),
        },
    }
}

/// Whether a key is a pipeline stamp rather than rule output.
pub open spec fn is_meta(key: Seq<char>) -> bool {
    key.len() > 0 && key[0] == '_'
}

/// The entries that are rule output.
pub open spec fn output_entries(s: Seq<(Seq<char>, JsonModel)>) -> Seq<(Seq<char>, JsonModel)>
    decreases s.len(),
{
    if s.len() == 0 {
        Seq::empty()
    } else if is_meta(s.last().0) {
        output_entries(s.drop_last())
    } else {
        output_entries(s.drop_last()).push(s.last())
    }
}

/// The keys that are pipeline stamps.
pub open spec fn meta_keys(s: Seq<(Seq<char>, JsonModel)>) -> Seq<Seq<char>>
    decreases s.len(),
{
    if s.len() == 0 {
        Seq::empty()
    } else if is_meta(s.last().0) {
        meta_keys(s.drop_last()).push(s.last().0)
    } else {
        meta_keys(s.drop_last())
    }
}

/// A snapshot without its top-level stamps.
pub open spec fn comparable(stored: JsonModel) -> JsonModel {
    match stored {
        JsonModel::Object(s) => JsonModel::Object(output_entries(s)),
        other => other,
    }
}

/// The stamps a comparison leaves out.
pub open spec fn ignored(stored: JsonModel) -> Seq<Seq<char>> {
    match stored {
        JsonModel::Object(s) => meta_keys(s),
        _ => Seq::empty(),
    }
}

/// The fields left out of a comparison are those whose name begins with an
/// underscore, and every one of them.
pub proof fn law_ignored_fields_are_the_meta_ones(s: Seq<(Seq<char>, JsonModel)>, key: Seq<char>)
    ensures
        meta_keys(s).contains(key) <==> key.len() > 0 && key[0] == '_' && exists|i: int|
            0 <= i < s.len() && (#[trigger] s[i]).0 == key,
    decreases s.len(),
{
    if s.len() > 0 {
        let rest = s.drop_last();
        law_ignored_fields_are_the_meta_ones(rest, key);
        let had = meta_keys(rest);
        let now = meta_keys(s);
        assert(forall|i: int| 0 <= i < rest.len() ==> #[trigger] s[i] == rest[i]);
        assert(s[s.len() - 1] == s.last());
        if had.contains(key) {
            let k = choose|k: int| 0 <= k < had.len() && had[k] == key;
            assert(now[k] == key);
            let i = choose|i: int| 0 <= i < rest.len() && (#[trigger] rest[i]).0 == key;
            assert(s[i].0 == key);
        }
        if is_meta(s.last().0) {
            assert(now[had.len() as int] == s.last().0);
        }
        if now.contains(key) && !had.contains(key) {
            let k = choose|k: int| 0 <= k < now.len() && now[k] == key;
            if k < had.len() {
                assert(had[k] == key);
            }
        }
        if exists|i: int| 0 <= i < s.len() && (#[trigger] s[i]).0 == key {
            let i = choose|i: int| 0 <= i < s.len() && (#[trigger] s[i]).0 == key;
            if i < rest.len() {
                assert(rest[i].0 == key);
            }
        }
    }
}

/// Splits a stored snapshot into what the rules produced and the names of the
/// top-level `_` stamps the pipeline wrote around it.
pub fn strip_meta(stored: &Json) -> (r: (Json, Vec<String>))
    ensures
        r.0@ == comparable(stored@),
        r.1@.map_values(|t: String| t@) == ignored(stored@),
{
    let mut names: Vec<String> = Vec::new();
    match stored {
        Json::Object(entries) => {
            let mut kept: Vec<(String, Json)> = Vec::new();
            let ghost all = entry_models(entries@);
            proof {
                lemma_object_model(*entries);
            }
            let mut i: usize = 0;
            while i < entries.len()
                invariant
                    i <= entries@.len(),
                    all == entry_models(entries@),
                    entry_models(kept@) =~= output_entries(all.take(i as int)),
                    names@.map_values(|t: String| t@) =~= meta_keys(all.take(i as int)),
                decreases entries@.len() - i,
            {
                assert(all.take(i + 1).drop_last() =~= all.take(i as int));
                let cs = chars(entries[i].0.as_str());
                if cs.len() > 0 && cs[0] == '_' {
                    names.push(owned(entries[i].0.as_str()));
                } else {
                    kept.push((owned(entries[i].0.as_str()), entries[i].1.copy()));
                }
                i += 1;
            }
            assert(all.take(entries@.len() as int) =~= all);
            proof {
                lemma_object_model(kept);
            }
            (Json::Object(kept), names)
        },
        other => {
            assert(names@.map_values(|t: String| t@) =~= ignored(stored@));
            (other.copy(), names)
        },
    }
}

/// The names as a JSON array of texts.
pub open spec fn text_array(names: Seq<Seq<char>>) -> JsonModel {
    JsonModel::Array(Seq::new(names.len(), |i: int| JsonModel::Text(names[i])))
}

fn json_texts(names: &[String]) -> (r: Json)
    ensures
        r@ == text_array(names@.map_values(|t: String| t@)),
{
    let mut out: Vec<Json> = Vec::new();
    let mut i: usize = 0;
    while i < names.len()
        invariant
            i <= names@.len(),
            out@.len() == i,
            forall|k: int| 0 <= k < i ==> (#[trigger] out@[k])@ == JsonModel::Text(names@[k]@),
        decreases names@.len() - i,
    {
        out.push(Json::text(names[i].as_str()));
        i += 1;
    }
    assert(models(out@) =~= text_array(names@.map_values(|t: String| t@))->Array_0);
    Json::array(out)
}

/// The record a replay is about.
#[derive(Debug, PartialEq)]
pub struct ReplaySubject {
    pub app: String,
    pub dataset: String,
    pub key: String,
}

/// What every answer to a replay that took place says before its verdict.
pub open spec fn replay_head(subject: ReplaySubject, rev: Revision) -> JsonModel {
    JsonModel::object().put("app"@, JsonModel::Text(subject.app@)).put(
        "dataset"@,
        JsonModel::Text(subject.dataset@),
    ).put("key"@, JsonModel::Text(subject.key@)).put(
        "revision"@,
        JsonModel::integer(rev.revision as int),
    ).put("artifact_sha"@, JsonModel::Text(rev.provenance.artifact_sha->0@)).put(
        "rules_hash"@,
        JsonModel::Text(rev.provenance.rules_hash->0@),
    ).put("ignored_meta_fields"@, text_array(ignored(rev.data->0@)))
}

/// Each member of a replay's head holds what it is named after.
pub proof fn law_a_replay_names_its_revision(subject: ReplaySubject, rev: Revision)
    ensures
        ({
            let shown = replay_head(subject, rev);
            &&& shown.get("app"@) == Some(JsonModel::Text(subject.app@))
            &&& shown.get("dataset"@) == Some(JsonModel::Text(subject.dataset@))
            &&& shown.get("key"@) == Some(JsonModel::Text(subject.key@))
            &&& shown.get("revision"@) == Some(JsonModel::integer(rev.revision as int))
            &&& shown.get("artifact_sha"@) == Some(JsonModel::Text(rev.provenance.artifact_sha->0@))
            &&& shown.get("rules_hash"@) == Some(JsonModel::Text(rev.provenance.rules_hash->0@))
            &&& shown.get("ignored_meta_fields"@) == Some(text_array(ignored(rev.data->0@)))
        }),
{
    reveal_strlit("app");
    reveal_strlit("dataset");
    reveal_strlit("key");
    reveal_strlit("revision");
    reveal_strlit("artifact_sha");
    reveal_strlit("rules_hash");
    reveal_strlit("ignored_meta_fields");
    assert("app"@[0] != "key"@[0]);
    let m0 = JsonModel::object();
    let v1 = JsonModel::Text(subject.app@);
    lemma_put(m0, "app"@, v1);
    let m1 = m0.put("app"@, v1);
    let v2 = JsonModel::Text(subject.dataset@);
    lemma_put(m1, "dataset"@, v2);
    let m2 = m1.put("dataset"@, v2);
    let v3 = JsonModel::Text(subject.key@);
    lemma_put(m2, "key"@, v3);
    let m3 = m2.put("key"@, v3);
    let v4 = JsonModel::integer(rev.revision as int);
    lemma_put(m3, "revision"@, v4);
    let m4 = m3.put("revision"@, v4);
    let v5 = JsonModel::Text(rev.provenance.artifact_sha->0@);
    lemma_put(m4, "artifact_sha"@, v5);
    let m5 = m4.put("artifact_sha"@, v5);
    let v6 = JsonModel::Text(rev.provenance.rules_hash->0@);
    lemma_put(m5, "rules_hash"@, v6);
    let m6 = m5.put("rules_hash"@, v6);
    let v7 = text_array(ignored(rev.data->0@));
    lemma_put(m6, "ignored_meta_fields"@, v7);
}

/// The answer to a replay that took place.
pub open spec fn replay_answer(
    subject: ReplaySubject,
    rev: Revision,
    replayed: JsonModel,
    diff: JsonModel,
) -> JsonModel {
    let head = replay_head(subject, rev);
    if comparable(rev.data->0@) == replayed {
        head.put("verdict"@, JsonModel::Text("reproduced"@))
    } else {
        head.put("verdict"@, JsonModel::Text("diverged"@)).put("diff"@, diff)
    }
}

/// Answers a replay: refused with the gap where the revision is not fully pinned,
/// its rules cannot be run or its body is not the stamped one; else a comparison of
/// the stored snapshot, minus its stamps, with what the replay produced. `diff` is
/// their field-level difference, shown only when they differ.
pub fn rederive_provenance(
    subject: &ReplaySubject,
    rev: &Revision,
    rules: &Result<(), RulesFault>,
    body: &Result<String, String>,
    replayed: &Json,
    diff: Json,
) -> (r: Result<Json, ApiError>)
    ensures
        match r {
            Ok(answer) => replay_gap(*rev, *rules, *body) is None && answer@ == replay_answer(
                *subject,
                *rev,
                replayed@,
                diff@,
            ),
            Err(e) => replay_gap(*rev, *rules, *body) is Some && e@ == (
                409u16,
                replay_gap(*rev, *rules, *body)->0,
            ),
        },
{
    let stored = match replay_gate(rev, rules, body) {
        Ok(stored) => stored,
        Err(e) => return Err(e),
    };
    let (kept, names) = strip_meta(stored);
    let reproduced = kept.same_as(replayed);
    let mut out = Json::object();
    out.set("app", Json::text(subject.app.as_str()));
    out.set("dataset", Json::text(subject.dataset.as_str()));
    out.set("key", Json::text(subject.key.as_str()));
    out.set("revision", Json::integer(rev.revision));
    if let Some(artifact_sha) = &rev.provenance.artifact_sha {
        out.set("artifact_sha", Json::text(artifact_sha.as_str()));
    }
    if let Some(rules_hash) = &rev.provenance.rules_hash {
        out.set("rules_hash", Json::text(rules_hash.as_str()));
    }
    out.set("ignored_meta_fields", json_texts(&names));
    if reproduced {
        out.set("verdict", Json::text("reproduced"));
    } else {
        out.set("verdict", Json::text("diverged"));
        out.set("diff", diff);
    }
    Ok(out)
}

/// A verdict comes only from a fully pinned pair: a snapshot with both stamps, rules
/// that are registered, read and compile, and a body whose digest is the stamped one.
pub proof fn law_a_verdict_needs_every_pin(
    rev: Revision,
    rules: Result<(), RulesFault>,
    body: Result<String, String>,
)
    ensures
        replay_gap(rev, rules, body) is None <==> {
            &&& rev.data is Some
            &&& rev.provenance.artifact_sha is Some
            &&& rev.provenance.rules_hash is Some
            &&& rules is Ok
            &&& body is Ok
            &&& text_digest(body->Ok_0@) == rev.provenance.artifact_sha->0@
        },
{
}

/// A replay reproduced its revision exactly when the snapshot without its stamps is
/// what the replay produced; it diverged otherwise, and only then it has a diff.
pub proof fn law_a_verdict_compares_rule_output(
    subject: ReplaySubject,
    rev: Revision,
    replayed: JsonModel,
    diff: JsonModel,
)
    ensures
        comparable(rev.data->0@) == replayed ==> {
            &&& replay_answer(subject, rev, replayed, diff).get("verdict"@) == Some(
                JsonModel::Text("reproduced"@),
            )
            &&& replay_answer(subject, rev, replayed, diff).get("diff"@) is None
        },
        comparable(rev.data->0@) != replayed ==> {
            &&& replay_answer(subject, rev, replayed, diff).get("verdict"@) == Some(
                JsonModel::Text("diverged"@),
            )
            &&& replay_answer(subject, rev, replayed, diff).get("diff"@) == Some(diff)
        },
        "reproduced"@ != "diverged"@,
{
    reveal_strlit("reproduced");
    reveal_strlit("diverged");
    reveal_strlit("app");
    reveal_strlit("dataset");
    reveal_strlit("key");
    reveal_strlit("revision");
    reveal_strlit("artifact_sha");
    reveal_strlit("rules_hash");
    reveal_strlit("ignored_meta_fields");
    reveal_strlit("verdict");
    reveal_strlit("diff");
    assert("dataset"@[0] != "verdict"@[0]);
    assert("reproduced"@.len() != "diverged"@.len());
    let m0 = JsonModel::object();
    let app = JsonModel::Text(subject.app@);
    let m1 = m0.put("app"@, app);
    let dataset = JsonModel::Text(subject.dataset@);
    let m2 = m1.put("dataset"@, dataset);
    let key = JsonModel::Text(subject.key@);
    let m3 = m2.put("key"@, key);
    let revision = JsonModel::integer(rev.revision as int);
    let m4 = m3.put("revision"@, revision);
    let sha = JsonModel::Text(rev.provenance.artifact_sha->0@);
    let m5 = m4.put("artifact_sha"@, sha);
    let hash = JsonModel::Text(rev.provenance.rules_hash->0@);
    let m6 = m5.put("rules_hash"@, hash);
    let meta = text_array(ignored(rev.data->0@));
    let d = "diff"@;
    law_read_after_put(m0, "app"@, app, d);
    law_read_after_put(m1, "dataset"@, dataset, d);
    law_read_after_put(m2, "key"@, key, d);
    law_read_after_put(m3, "revision"@, revision, d);
    law_read_after_put(m4, "artifact_sha"@, sha, d);
    law_read_after_put(m5, "rules_hash"@, hash, d);
    law_read_after_put(m6, "ignored_meta_fields"@, meta, d);
    let head = replay_head(subject, rev);
    let same = JsonModel::Text("reproduced"@);
    law_read_after_put(head, "verdict"@, same, d);
    law_read_after_put(head, "verdict"@, same, "verdict"@);
    let other = JsonModel::Text("diverged"@);
    law_read_after_put(head, "verdict"@, other, "verdict"@);
    law_read_after_put(head.put("verdict"@, other), d, diff, d);
    law_read_after_put(head.put("verdict"@, other), d, diff, "verdict"@);
}

/// Whether a name may stand as one segment of an artifact path.
pub open spec fn is_segment(s: Seq<char>) -> bool {
    &&& s.len() > 0
    &&& s != "."@
    &&& s != ".."@
    &&& forall|i: int| 0 <= i < s.len() ==> s[i] != '/' && s[i] != '\\'
}

/// Whether a name may stand as one segment of an artifact path: it names
/// something, and it neither separates nor climbs.
pub fn safe_segment(s: &str) -> (r: bool)
    ensures
        r == is_segment(s@),
{
    let cs = chars(s);
    if cs.len() == 0 || same(s, ".") || same(s, "..") {
        return false;
    }
    let mut i: usize = 0;
    while i < cs.len()
        invariant
            i <= cs@.len(),
            cs@ == s@,
            forall|k: int| 0 <= k < i ==> cs@[k] != '/' && cs@[k] != '\\',
        decreases cs@.len() - i,
    {
        if cs[i] == '/' || cs[i] == '\\' {
            assert(s@[i as int] == '/' || s@[i as int] == '\\');
            return false;
        }
        i += 1;
    }
    true
}

/// A text as `{:?}` shows it.
pub uninterp spec fn debug_text(s: Seq<char>) -> Seq<char>;

/// The standard library's `Debug` formatting of a string: quoted and escaped.
/// The result depends on the text alone.
#[verifier::external_body]
fn show_debug(s: &str) -> (r: String)
    ensures
        r@ == debug_text(s@),
{
    format!("{s:?}")
}

/// The segments of an artifact path that come from outside.
#[derive(Debug, Clone, Copy, PartialEq, Eq, Structural)]
pub enum Segment {
    App,
    JobId,
    ArtifactPath,
}

impl Segment {
    /// What the segment is called.
    pub open spec fn label_text(self) -> Seq<char> {
        match self {
            Segment::App => "app"@,
            Segment::JobId => "job_id"@,
            Segment::ArtifactPath => "artifact_path"@,
        }
    }

    /// What the segment is called.
    pub fn label(self) -> (r: &'static str)
        ensures
            r@ == self.label_text(),
    {
        match self {
            Segment::App => "app",
            Segment::JobId => "job_id",
            Segment::ArtifactPath => "artifact_path",
        }
    }
}

/// Why a record's artifact cannot be located.
#[derive(Debug, PartialEq)]
pub enum ArtifactFault {
    /// The record points at no artifact.
    NoPath,
    /// The record names no job whose directory would hold it.
    NoJob,
    /// A segment could escape the artifact tree.
    Unsafe(Segment, String),
}

/// A fault with its segment taken as a character sequence.
pub enum FaultModel {
    NoPath,
    NoJob,
    Unsafe(Segment, Seq<char>),
}

impl View for ArtifactFault {
    type V = FaultModel;

    open spec fn view(&self) -> FaultModel {
        match *self {
            ArtifactFault::NoPath => FaultModel::NoPath,
            ArtifactFault::NoJob => FaultModel::NoJob,
            ArtifactFault::Unsafe(which, s) => FaultModel::Unsafe(which, s@),
        }
    }
}

/// The job directory and the file name of a record's artifact, or why they
/// cannot be told.
pub open spec fn artifact_place(app: Seq<char>, data: JsonModel) -> Result<
    (Seq<char>, Seq<char>),
    FaultModel,
> {
    match data.text_at("artifact_path"@) {
        None => Err(FaultModel::NoPath),
        Some(artifact) => if artifact.len() == 0 {
            Err(FaultModel::NoPath)
        } else {
            match data.text_at("job_id"@) {
                None => Err(FaultModel::NoJob),
                Some(job) => if !is_segment(app) {
                    Err(FaultModel::Unsafe(Segment::App, app))
                } else if !is_segment(job) {
                    Err(FaultModel::Unsafe(Segment::JobId, job))
                } else if !is_segment(artifact) {
                    Err(FaultModel::Unsafe(Segment::ArtifactPath, artifact))
                } else {
                    Ok((job, artifact))
                },
            }
        },
    }
}

/// An artifact is looked for only where its record names a file and a job and
/// neither of them, nor the app, leads out of its directory.
pub proof fn law_an_artifact_stays_in_its_directory(app: Seq<char>, data: JsonModel)
    ensures
        artifact_place(app, data) matches Ok((job, artifact)) ==> {
            &&& data.text_at("job_id"@) == Some(job)
            &&& data.text_at("artifact_path"@) == Some(artifact)
            &&& forall|part: Seq<char>|
                part == app || part == job || part == artifact ==> #[trigger] part.len() > 0 && part
                    != "."@ && part != ".."@ && !part.contains('/') && !part.contains('\\')
        },
        artifact_place(app, data) is Ok <==> {
            &&& data.text_at("artifact_path"@) matches Some(artifact)
            &&& data.text_at("job_id"@) matches Some(job)
            &&& is_segment(artifact) && is_segment(job) && is_segment(app)
        },
        data.text_at("artifact_path"@) is None ==> artifact_place(app, data) == Err::<
            (Seq<char>, Seq<char>),
            FaultModel,
        >(FaultModel::NoPath),
{
}

/// Locates the archived body a record points at: the job directory and the file
/// in it. Every segment comes from outside and is checked.
pub fn artifact_location(app: &str, data: &Json) -> (r: Result<(String, String), ArtifactFault>)
    ensures
        match r {
            Ok((job, artifact)) => artifact_place(app@, data@) == Ok::<
                (Seq<char>, Seq<char>),
                FaultModel,
            >((job@, artifact@)),
            Err(f) => artifact_place(app@, data@) == Err::<(Seq<char>, Seq<char>), FaultModel>(f@),
        },
{
    let artifact = match data.text_at("artifact_path") {
        Some(t) => t,
        None => {
            return Err(ArtifactFault::NoPath);
        },
    };
    if artifact.is_empty() {
        return Err(ArtifactFault::NoPath);
    }
    let job = match data.text_at("job_id") {
        Some(t) => t,
        None => {
            return Err(ArtifactFault::NoJob);
        },
    };
    if !safe_segment(app) {
        return Err(ArtifactFault::Unsafe(Segment::App, owned(app)));
    }
    if !safe_segment(job) {
        return Err(ArtifactFault::Unsafe(Segment::JobId, owned(job)));
    }
    if !safe_segment(artifact) {
        return Err(ArtifactFault::Unsafe(Segment::ArtifactPath, owned(artifact)));
    }
    Ok((owned(job), owned(artifact)))
}

/// What a fault reads as, given the refused segment as `{:?}` shows it.
pub open spec fn artifact_reason(f: ArtifactFault, shown: Seq<char>) -> Seq<char> {
    match f {
        ArtifactFault::NoPath => "record carries no artifact_path"@,
        ArtifactFault::NoJob => "record carries no job_id to locate its artifact dir"@,
        ArtifactFault::Unsafe(which, _) => "unsafe "@ + which.label_text() + " segment: "@ + shown,
    }
}

/// The sentence for a fault, given the refused segment as it is to be shown.
pub fn artifact_fault_reason(fault: &ArtifactFault, shown: &str) -> (r: String)
    ensures
        r@ == artifact_reason(*fault, shown@),
{
    match fault {
        ArtifactFault::NoPath => owned("record carries no artifact_path"),
        ArtifactFault::NoJob => owned("record carries no job_id to locate its artifact dir"),
        ArtifactFault::Unsafe(which, _) => {
            let mut m = owned("unsafe ");
            m.append(which.label());
            m.append(" segment: ");
            m.append(shown);
            m
        },
    }
}

/// Why an artifact cannot be located, as the refusal says it.
pub fn artifact_refusal(fault: &ArtifactFault) -> (r: String)
    ensures
        r@ == artifact_reason(
            *fault,
            match *fault {
                ArtifactFault::Unsafe(_, segment) => debug_text(segment@),
                _ => Seq::empty(),
            },
        ),
{
    match fault {
        ArtifactFault::Unsafe(_, segment) => artifact_fault_reason(
            fault,
            show_debug(segment.as_str()).as_str(),
        ),
        _ => artifact_fault_reason(fault, String::new().as_str()),
    }
}

/// Stripping the stamps takes exactly the `_` keys away and leaves what every
/// other key holds.
pub proof fn law_strip_meta_partitions(s: Seq<(Seq<char>, JsonModel)>, key: Seq<char>)
    ensures
        is_meta(key) ==> lookup(output_entries(s), key) is None,
        !is_meta(key) ==> lookup(output_entries(s), key) == lookup(s, key),
        output_entries(s).len() + meta_keys(s).len() == s.len(),
    decreases s.len(),
{
    if s.len() > 0 {
        let rest = s.drop_last();
        law_strip_meta_partitions(rest, key);
        lemma_lookup_push(rest, s.last(), key);
        assert(rest.push(s.last()) =~= s);
        if !is_meta(s.last().0) {
            lemma_lookup_push(output_entries(rest), s.last(), key);
        }
    }
}

/// What a lookup finds after one more entry at the end.
pub proof fn lemma_lookup_push(
    s: Seq<(Seq<char>, JsonModel)>,
    e: (Seq<char>, JsonModel),
    key: Seq<char>,
)
    ensures
        lookup(s.push(e), key) == match lookup(s, key) {
            Some(v) => Some(v),
            None => if e.0 == key {
                Some(e.1)
            } else {
                None
            },
        },
    decreases s.len(),
{
    if s.len() == 0 {
        assert(s.push(e).drop_first() =~= Seq::empty());
        assert(lookup(s.push(e).drop_first(), key) is None);
    } else {
        lemma_lookup_push(s.drop_first(), e, key);
        assert(s.push(e).drop_first() =~= s.drop_first().push(e));
    }
}

} // verus!
