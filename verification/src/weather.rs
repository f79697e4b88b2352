//! Learned host intelligence: what is shown of a host, and the bundles by which
//! deployments share what they learned.

use vstd::prelude::*;

use crate::error::{ApiError, BAD_REQUEST, INTERNAL_SERVER_ERROR, NOT_FOUND};
use crate::json::{lemma_put, models, text_list, Json, JsonModel};
use crate::number::{decimal, push_u64};
use crate::text::{chars, lowercase_of, owned, same, to_lowercase, trim, trimmed};

verus! {

/// Observations a host needs before it travels, when a request names no number.
pub const DEFAULT_MIN_OBSERVATIONS: i64 = 3;

/// Most entries one import accepts.
pub const MAX_IMPORT_ENTRIES: usize = 10_000;

/// The flat, unsigned bundle.
pub const SCHEMA_WEATHER_V1: &'static str = "pumper.host-weather/1";

/// The signed envelope.
pub const SCHEMA_WEATHER_V2: &'static str = "pumper.host-weather/2";

/// A host name as it is stored: host names do not tell cases apart.
pub fn host_name(raw: &str) -> (r: String)
    ensures
        r@ == lowercase_of(raw@),
{
    to_lowercase(raw)
}

/// A live penalty in the milliseconds that are shown.
pub open spec fn shown_millis(live: u128) -> i64 {
    if live > i64::MAX {
        i64::MAX
    } else {
        live as i64
    }
}

/// A live penalty in the milliseconds that are shown.
pub fn shown_penalty(live: u128) -> (r: i64)
    ensures
        r == shown_millis(live),
{
    if live > i64::MAX as u128 {
        i64::MAX
    } else {
        live as i64
    }
}

/// A host without a stored profile: its live penalty, in nanoseconds, or that nothing is
/// known. A penalty under a millisecond is still one, and shows as zero milliseconds.
pub fn unstored_host(host: &str, live_nanos: u128) -> (r: Result<Json, ApiError>)
    ensures
        r is Ok <==> live_nanos > 0,
        r matches Err(e) ==> e@ == (404u16, "unknown host"@),
        r matches Ok(j) ==> j@ == JsonModel::object().put("host"@, JsonModel::Text(host@)).put(
            "preferred_tier"@,
            JsonModel::Null,
        ).put("http_strikes"@, JsonModel::integer(0)).put(
            "penalty_ms"@,
            JsonModel::integer(shown_millis((live_nanos / 1_000_000) as u128) as int),
        ).put("updated_at"@, JsonModel::Null).put("penalty_updated_at"@, JsonModel::Null),
{
    if live_nanos == 0 {
        return Err(ApiError::fixed(NOT_FOUND, "unknown host"));
    }
    let mut out = Json::object();
    out.set("host", Json::text(host));
    out.set("preferred_tier", Json::Null);
    out.set("http_strikes", Json::integer(0));
    out.set("penalty_ms", Json::integer(shown_penalty(live_nanos / 1_000_000)));
    out.set("updated_at", Json::Null);
    out.set("penalty_updated_at", Json::Null);
    Ok(out)
}

/// Resets a host: something was forgotten, or nothing was known.
pub fn reset_host(host: &str, forgot: bool, cleared: bool) -> (r: Result<Json, ApiError>)
    ensures
        r is Ok <==> forgot || cleared,
        r matches Err(e) ==> e@ == (404u16, "unknown host"@),
        r matches Ok(j) ==> j@ == JsonModel::object().put("host"@, JsonModel::Text(host@)).put(
            "reset"@,
            JsonModel::Bool(true),
        ),
{
    if !(forgot || cleared) {
        return Err(ApiError::fixed(NOT_FOUND, "unknown host"));
    }
    let mut out = Json::object();
    out.set("host", Json::text(host));
    out.set("reset", Json::Bool(true));
    Ok(out)
}

/// How well observed a host must be to travel.
pub fn export_floor(min_observations: Option<i64>) -> (r: Result<i64, ApiError>)
    ensures
        ({
            let floor = match min_observations {
                Some(n) => n,
                None => 3,
            };
            if floor < 0 {
                r matches Err(e) && e@ == (400u16, "min_observations must be >= 0"@)
            } else {
                r == Ok::<i64, ApiError>(floor)
            }
        }),
{
    let floor: i64 = match min_observations {
        Some(n) => n,
        None => DEFAULT_MIN_OBSERVATIONS,
    };
    if floor < 0 {
        return Err(ApiError::fixed(BAD_REQUEST, "min_observations must be >= 0"));
    }
    Ok(floor)
}

/// What was learned about a host.
#[derive(Debug, PartialEq)]
pub struct WeatherEntry {
    pub host: String,
    pub preferred_tier: Option<String>,
    pub http_strikes: i64,
    pub penalty_ms: i64,
    pub observations: i64,
    pub challenge_fingerprints: Vec<String>,
    pub updated_at: Option<String>,
}

/// What an entry exports as its penalty: the stricter of the stored and the live
/// one, so that a bundle never understates what was earned here.
pub open spec fn stricter(stored: i64, live: u128) -> i64 {
    if stored >= shown_millis(live) {
        stored
    } else {
        shown_millis(live)
    }
}

/// What is shown of a penalty is the stricter of the stored and the live one, the
/// live one held to 64 bits.
pub proof fn law_the_stricter_penalty_is_shown(stored: i64, live: u128)
    ensures
        stricter(stored, live) >= stored,
        live <= i64::MAX ==> stricter(stored, live) >= live,
        live > i64::MAX ==> stricter(stored, live) == i64::MAX,
        stricter(stored, live) == stored || stricter(stored, live) == shown_millis(live),
        live <= i64::MAX ==> shown_millis(live) == live,
{
}

/// An entry of a bundle, for a stored profile and the live penalty of its host.
/// No fingerprint is kept per host, so none travels.
pub fn export_entry(profile: WeatherEntry, live: u128) -> (r: WeatherEntry)
    ensures
        r.host == profile.host,
        r.preferred_tier == profile.preferred_tier,
        r.http_strikes == profile.http_strikes,
        r.observations == profile.observations,
        r.updated_at == profile.updated_at,
        r.challenge_fingerprints@.len() == 0,
        r.penalty_ms == stricter(profile.penalty_ms, live),
{
    let shown = shown_penalty(live);
    let penalty_ms: i64 = if profile.penalty_ms >= shown {
        profile.penalty_ms
    } else {
        shown
    };
    WeatherEntry {
        host: profile.host,
        preferred_tier: profile.preferred_tier,
        http_strikes: profile.http_strikes,
        penalty_ms,
        observations: profile.observations,
        challenge_fingerprints: Vec::new(),
        updated_at: profile.updated_at,
    }
}

/// An entry as JSON.
pub open spec fn entry_json(e: WeatherEntry) -> JsonModel {
    JsonModel::object().put("host"@, JsonModel::Text(e.host@)).put(
        "preferred_tier"@,
        JsonModel::text_or_null(
            match e.preferred_tier {
                Some(t) => Some(t@),
                None => None,
            },
        ),
    ).put("http_strikes"@, JsonModel::integer(e.http_strikes as int)).put(
        "penalty_ms"@,
        JsonModel::integer(e.penalty_ms as int),
    ).put("observations"@, JsonModel::integer(e.observations as int)).put(
        "challenge_fingerprints"@,
        text_list(e.challenge_fingerprints@),
    ).put(
        "updated_at"@,
        JsonModel::text_or_null(
            match e.updated_at {
                Some(t) => Some(t@),
                None => None,
            },
        ),
    )
}

/// Each member of an entry holds the observation it is named after.
pub proof fn law_a_weather_entry_names_what_it_shows(e: WeatherEntry)
    ensures
        ({
            let shown = entry_json(e);
            &&& shown.get("host"@) == Some(JsonModel::Text(e.host@))
            &&& shown.get("preferred_tier"@) == Some(
                JsonModel::text_or_null(
                    match e.preferred_tier { Some(t) => Some(t@), None => None, },
                ),
            )
            &&& shown.get("http_strikes"@) == Some(JsonModel::integer(e.http_strikes as int))
            &&& shown.get("penalty_ms"@) == Some(JsonModel::integer(e.penalty_ms as int))
            &&& shown.get("observations"@) == Some(JsonModel::integer(e.observations as int))
            &&& shown.get("challenge_fingerprints"@) == Some(text_list(e.challenge_fingerprints@))
            &&& shown.get("updated_at"@) == Some(
                JsonModel::text_or_null(match e.updated_at { Some(t) => Some(t@), None => None, }),
            )
        }),
{
    reveal_strlit("host");
    reveal_strlit("preferred_tier");
    reveal_strlit("http_strikes");
    reveal_strlit("penalty_ms");
    reveal_strlit("observations");
    reveal_strlit("challenge_fingerprints");
    reveal_strlit("updated_at");
    assert("http_strikes"@[0] != "observations"@[0]);
    assert("penalty_ms"@[0] != "updated_at"@[0]);
    let m0 = JsonModel::object();
    let v1 = JsonModel::Text(e.host@);
    lemma_put(m0, "host"@, v1);
    let m1 = m0.put("host"@, v1);
    let v2 = JsonModel::text_or_null(match e.preferred_tier { Some(t) => Some(t@), None => None, });
    lemma_put(m1, "preferred_tier"@, v2);
    let m2 = m1.put("preferred_tier"@, v2);
    let v3 = JsonModel::integer(e.http_strikes as int);
    lemma_put(m2, "http_strikes"@, v3);
    let m3 = m2.put("http_strikes"@, v3);
    let v4 = JsonModel::integer(e.penalty_ms as int);
    lemma_put(m3, "penalty_ms"@, v4);
    let m4 = m3.put("penalty_ms"@, v4);
    let v5 = JsonModel::integer(e.observations as int);
    lemma_put(m4, "observations"@, v5);
    let m5 = m4.put("observations"@, v5);
    let v6 = text_list(e.challenge_fingerprints@);
    lemma_put(m5, "challenge_fingerprints"@, v6);
    let m6 = m5.put("challenge_fingerprints"@, v6);
    let v7 = JsonModel::text_or_null( match e.updated_at { Some(t) => Some(t@), None => None, }, );
    lemma_put(m6, "updated_at"@, v7);
}

/// The entries as JSON.
pub open spec fn entries_json(entries: Seq<WeatherEntry>) -> JsonModel {
    JsonModel::Array(Seq::new(entries.len(), |i: int| entry_json(entries[i])))
}

fn show_entry(e: &WeatherEntry) -> (r: Json)
    ensures
        r@ == entry_json(*e),
{
    let mut out = Json::object();
    out.set("host", Json::text(e.host.as_str()));
    out.set("preferred_tier", Json::optional_text(&e.preferred_tier));
    out.set("http_strikes", Json::integer(e.http_strikes));
    out.set("penalty_ms", Json::integer(e.penalty_ms));
    out.set("observations", Json::integer(e.observations));
    out.set("challenge_fingerprints", Json::texts(e.challenge_fingerprints.as_slice()));
    out.set("updated_at", Json::optional_text(&e.updated_at));
    out
}

fn show_entries(entries: &[WeatherEntry]) -> (r: Json)
    ensures
        r@ == entries_json(entries@),
{
    let mut list: Vec<Json> = Vec::new();
    let mut i: usize = 0;
    while i < entries.len()
        invariant
            i <= entries@.len(),
            list@.len() == i,
            forall|k: int| 0 <= k < i ==> (#[trigger] list@[k])@ == entry_json(entries@[k]),
        decreases entries@.len() - i,
    {
        list.push(show_entry(&entries[i]));
        i += 1;
    }
    assert(models(list@) =~= entries_json(entries@)->Array_0);
    Json::array(list)
}

/// The payload that is sealed into the signed envelope.
pub fn export_payload(min_observations: i64, entries: &[WeatherEntry]) -> (r: Json)
    ensures
        r@ == JsonModel::object().put(
            "min_observations"@,
            JsonModel::integer(min_observations as int),
        ).put("entries"@, entries_json(entries@)),
{
    let mut out = Json::object();
    out.set("min_observations", Json::integer(min_observations));
    out.set("entries", show_entries(entries));
    out
}

/// The flat, unsigned bundle that older deployments read.
pub fn legacy_bundle(
    min_observations: i64,
    entries: &[WeatherEntry],
    generated_at: &str,
    node_id: &str,
) -> (r: Json)
    ensures
        r@ == JsonModel::object().put("schema"@, JsonModel::Text(SCHEMA_WEATHER_V1@)).put(
            "generated_at"@,
            JsonModel::Text(generated_at@),
        ).put("node_id"@, JsonModel::Text(node_id@)).put(
            "min_observations"@,
            JsonModel::integer(min_observations as int),
        ).put("entries"@, entries_json(entries@)),
{
    let mut out = Json::object();
    out.set("schema", Json::text(SCHEMA_WEATHER_V1));
    out.set("generated_at", Json::text(generated_at));
    out.set("node_id", Json::text(node_id));
    out.set("min_observations", Json::integer(min_observations));
    out.set("entries", show_entries(entries));
    out
}

/// The refusal of a node that cannot read its own key.
pub fn identity_unavailable(why: &str) -> (r: ApiError)
    ensures
        r@ == (500u16, "node identity unavailable: "@ + why@),
{
    let mut m = owned("node identity unavailable: ");
    m.append(why);
    ApiError::new(INTERNAL_SERVER_ERROR, m)
}

/// The entries of an opened payload. They are read only after the envelope was
/// verified: the signature is over the bytes.
pub fn weather_entries(payload: &Json) -> (r: Result<Json, String>)
    ensures
        match payload@.get("entries"@) {
            Some(v) => r matches Ok(j) && j@ == v,
            None => r matches Err(m) && m@ == "bundle payload has no `entries` array"@,
        },
{
    match payload.get("entries") {
        Some(v) => Ok(v.copy()),
        None => Err(owned("bundle payload has no `entries` array")),
    }
}

/// The refusal of entries that do not read.
pub fn unreadable_entries(why: &str) -> (r: ApiError)
    ensures
        r@ == (400u16, "bundle `entries` is unreadable: "@ + why@),
{
    let mut m = owned("bundle `entries` is unreadable: ");
    m.append(why);
    ApiError::new(BAD_REQUEST, m)
}

/// The refusal of a bundle by its size.
pub open spec fn size_refusal(count: int) -> Option<Seq<char>> {
    if count == 0 {
        Some("bundle has no entries"@)
    } else if count > 10_000 {
        Some("bundle has "@ + decimal(count) + " entries; the import ceiling is 10000"@)
    } else {
        None
    }
}

fn check_size(count: usize) -> (r: Result<(), ApiError>)
    ensures
        match size_refusal(count as int) {
            Some(m) => r matches Err(e) && e@ == (400u16, m),
            None => r is Ok,
        },
{
    if count == 0 {
        return Err(ApiError::fixed(BAD_REQUEST, "bundle has no entries"));
    }
    if count > MAX_IMPORT_ENTRIES {
        let mut m = owned("bundle has ");
        push_u64(&mut m, count as u64);
        m.append(" entries; the import ceiling is 10000");
        return Err(ApiError::new(BAD_REQUEST, m));
    }
    Ok(())
}

/// Whether an earlier entry names the host of entry `i`.
pub open spec fn named_before(hosts: Seq<String>, i: int) -> bool {
    exists|k: int| 0 <= k < i && (#[trigger] hosts[k])@ == hosts[i]@
}

/// Which of the hosts are the first of their name.
fn first_flags(hosts: &[String]) -> (r: Vec<bool>)
    ensures
        r@.len() == hosts@.len(),
        forall|i: int| 0 <= i < hosts@.len() ==> #[trigger] r@[i] == !named_before(hosts@, i),
{
    let mut fresh: Vec<bool> = Vec::new();
    let mut i: usize = 0;
    while i < hosts.len()
        invariant
            i <= hosts@.len(),
            fresh@.len() == i,
            forall|k: int| 0 <= k < i ==> #[trigger] fresh@[k] == !named_before(hosts@, k),
        decreases hosts@.len() - i,
    {
        let mut seen = false;
        let mut k: usize = 0;
        while k < i
            invariant
                k <= i < hosts@.len(),
                seen <==> exists|j: int| 0 <= j < k && (#[trigger] hosts@[j])@ == hosts@[i as int]@,
            decreases i - k,
        {
            if same(hosts[k].as_str(), hosts[i].as_str()) {
                seen = true;
            }
            k += 1;
        }
        fresh.push(!seen);
        i += 1;
    }
    fresh
}

/// The name by which an entry's host is merged.
pub open spec fn merged_host(raw: Seq<char>) -> Seq<char> {
    lowercase_of(trimmed(raw))
}

/// Whether some entry names no host.
pub open spec fn has_blank_host(raw: Seq<String>) -> bool {
    exists|i: int| 0 <= i < raw.len() && trimmed((#[trigger] raw[i])@).len() == 0
}

/// Why a bundle is refused as a whole: its size, or a blank host.
pub open spec fn import_refusal(raw: Seq<String>) -> Option<Seq<char>> {
    match size_refusal(raw.len() as int) {
        Some(m) => Some(m),
        None => if has_blank_host(raw) {
            Some("bundle entry with an empty host"@)
        } else {
            None
        },
    }
}

/// Whether entry `i` is the first of its host.
pub open spec fn first_named(raw: Seq<String>, i: int) -> bool {
    forall|k: int| 0 <= k < i ==> merged_host((#[trigger] raw[k])@) != merged_host(raw[i]@)
}

/// The hosts of a bundle by the names they are merged under, and which of the
/// entries are considered: the first of each host, since later ones would make the
/// merge depend on its order.
pub fn import_hosts(raw: &[String]) -> (r: Result<Vec<(String, bool)>, ApiError>)
    ensures
        match import_refusal(raw@) {
            Some(m) => r matches Err(e) && e@ == (400u16, m),
            None => {
                &&& r matches Ok(out)
                &&& out@.len() == raw@.len()
                &&& forall|i: int|
                    0 <= i < raw@.len() ==> (#[trigger] out@[i]).0@ == merged_host(raw@[i]@)
                &&& forall|i: int|
                    0 <= i < raw@.len() ==> (#[trigger] out@[i]).1 == first_named(raw@, i)
            },
        },
{
    match check_size(raw.len()) {
        Ok(_) => {},
        Err(e) => {
            return Err(e);
        },
    }
    let mut hosts: Vec<String> = Vec::new();
    let mut i: usize = 0;
    while i < raw.len()
        invariant
            i <= raw@.len(),
            size_refusal(raw@.len() as int) is None,
            hosts@.len() == i,
            forall|k: int| 0 <= k < i ==> trimmed((#[trigger] raw@[k])@).len() > 0,
            forall|k: int| 0 <= k < i ==> (#[trigger] hosts@[k])@ == merged_host(raw@[k]@),
        decreases raw@.len() - i,
    {
        let host = trim(raw[i].as_str());
        if chars(host.as_str()).len() == 0 {
            assert(trimmed(raw@[i as int]@).len() == 0);
            return Err(ApiError::fixed(BAD_REQUEST, "bundle entry with an empty host"));
        }
        hosts.push(to_lowercase(host.as_str()));
        i += 1;
    }
    let fresh = first_flags(&hosts);
    let ghost named = hosts@;
    let mut out: Vec<(String, bool)> = Vec::new();
    let mut j: usize = 0;
    while j < hosts.len()
        invariant
            j <= hosts@.len() == named.len() == fresh@.len(),
            hosts@ == named,
            out@.len() == j,
            forall|k: int| 0 <= k < j ==> (#[trigger] out@[k]).0@ == named[k]@,
            forall|k: int| 0 <= k < j ==> (#[trigger] out@[k]).1 == fresh@[k],
        decreases hosts@.len() - j,
    {
        out.push((owned(hosts[j].as_str()), fresh[j]));
        j += 1;
    }
    assert forall|n: int| 0 <= n < raw@.len() implies (#[trigger] out@[n]).1 == first_named(
        raw@,
        n,
    ) by {
        assert(fresh@[n] == !named_before(named, n));
        if named_before(named, n) {
            let k = choose|k: int| 0 <= k < n && (#[trigger] named[k])@ == named[n]@;
            assert(merged_host(raw@[k]@) == merged_host(raw@[n]@));
        } else {
            assert forall|k: int| 0 <= k < n implies merged_host((#[trigger] raw@[k])@)
                != merged_host(raw@[n]@) by {
                assert(named[k]@ != named[n]@);
            }
        }
    }
    Ok(out)
}

/// What an import changes, in order: of each host the plan of its first entry, where
/// there is one. Later entries of a host change nothing.
pub open spec fn planned(raw: Seq<String>, plans: Seq<Option<Json>>) -> Seq<JsonModel>
    decreases raw.len(),
{
    if raw.len() == 0 || raw.len() != plans.len() {
        Seq::empty()
    } else {
        let rest = planned(raw.drop_last(), plans.drop_last());
        match plans.last() {
            Some(plan) if first_named(raw, raw.len() - 1) => rest.push(plan@),
            _ => rest,
        }
    }
}

/// An import changes what its plans say of the hosts it names first: those plans, in
/// the order the hosts came, and none of a host named again. A host is the same in
/// any case and with any space around it.
pub proof fn law_an_import_follows_the_first_plan_of_a_host(
    raw: Seq<String>,
    plans: Seq<Option<Json>>,
)
    requires
        raw.len() == plans.len(),
    ensures
        planned(raw, plans).len() <= raw.len(),
        forall|i: int|
            #![trigger plans[i]]
            0 <= i < plans.len() && plans[i] is Some && (forall|k: int|
                0 <= k < i ==> lowercase_of(trimmed((#[trigger] raw[k])@)) != lowercase_of(
                    trimmed(raw[i]@),
                )) ==> planned(raw, plans).contains(plans[i]->0@),
        planned(raw, plans).len() > 0 ==> exists|i: int|
            0 <= i < plans.len() && (#[trigger] plans[i]) is Some && first_named(raw, i),
    decreases raw.len(),
{
    if raw.len() > 0 {
        let r = raw.drop_last();
        let p = plans.drop_last();
        law_an_import_follows_the_first_plan_of_a_host(r, p);
        let n = raw.len() - 1;
        let rest = planned(r, p);
        assert forall|i: int|
            #![trigger plans[i]]
            0 <= i < plans.len() && plans[i] is Some && (forall|k: int|
                0 <= k < i ==> lowercase_of(trimmed((#[trigger] raw[k])@)) != lowercase_of(
                    trimmed(raw[i]@),
                )) implies planned(raw, plans).contains(plans[i]->0@) by {
            if i == n {
                assert(first_named(raw, n));
                assert(planned(raw, plans)[rest.len() as int] == plans[i]->0@);
            } else {
                assert(p[i] == plans[i]);
                assert forall|k: int| 0 <= k < i implies lowercase_of(trimmed((#[trigger] r[k])@))
                    != lowercase_of(trimmed(r[i]@)) by {
                    assert(raw[k] == r[k]);
                }
                assert(rest.contains(plans[i]->0@));
                let k = choose|k: int| 0 <= k < rest.len() && rest[k] == plans[i]->0@;
                assert(planned(raw, plans)[k] == rest[k]);
            }
        }
        if rest.len() > 0 {
            let i = choose|i: int|
                0 <= i < p.len() && (#[trigger] p[i]) is Some && first_named(r, i);
            assert(plans[i] is Some);
            assert(first_named(raw, i)) by {
                assert forall|k: int| 0 <= k < i implies merged_host((#[trigger] raw[k])@)
                    != merged_host(raw[i]@) by {
                    assert(r[k] == raw[k]);
                }
            }
        } else if planned(raw, plans).len() > 0 {
            assert(plans[n] is Some && first_named(raw, n));
        }
    }
}

/// Two hosts never bring two actions where they are one: of entries with the same
/// host the first alone is planned.
pub proof fn law_a_host_named_again_plans_nothing(raw: Seq<String>, plans: Seq<Option<Json>>)
    requires
        0 < raw.len() == plans.len(),
        exists|k: int|
            0 <= k < raw.len() - 1 && lowercase_of(trimmed((#[trigger] raw[k])@)) == lowercase_of(
                trimmed(raw.last()@),
            ),
    ensures
        planned(raw, plans) == planned(raw.drop_last(), plans.drop_last()),
{
    let k = choose|k: int|
        0 <= k < raw.len() - 1 && lowercase_of(trimmed((#[trigger] raw[k])@)) == lowercase_of(
            trimmed(raw.last()@),
        );
    assert(merged_host(raw[k]@) == merged_host(raw[raw.len() - 1]@));
    assert(!first_named(raw, raw.len() - 1));
}

/// A bundle is taken in exactly where it has entries, no more than ten thousand, and
/// each names a host.
pub proof fn law_a_bundle_is_bounded_and_named(raw: Seq<String>)
    ensures
        import_refusal(raw) is None <==> 0 < raw.len() <= 10_000 && forall|i: int|
            0 <= i < raw.len() ==> trimmed((#[trigger] raw[i])@).len() > 0,
{
}

/// Where a bundle came from and how it was opened.
#[derive(Debug, PartialEq)]
pub struct BundleOrigin {
    pub node_id: Option<String>,
    pub verified: bool,
    pub schema: String,
}

/// What an import would change, or has changed.
pub open spec fn import_report(
    applied: bool,
    origin: BundleOrigin,
    raw: Seq<String>,
    plans: Seq<Option<Json>>,
) -> JsonModel {
    JsonModel::object().put("applied"@, JsonModel::Bool(applied)).put(
        "source_node_id"@,
        JsonModel::text_or_null(
            match origin.node_id {
                Some(t) => Some(t@),
                None => None,
            },
        ),
    ).put("verified"@, JsonModel::Bool(origin.verified)).put(
        "schema"@,
        JsonModel::Text(origin.schema@),
    ).put("considered"@, JsonModel::integer(raw.len() as int)).put(
        "changed"@,
        JsonModel::integer(planned(raw, plans).len() as int),
    ).put("noops"@, JsonModel::integer(raw.len() - planned(raw, plans).len())).put(
        "actions"@,
        JsonModel::Array(planned(raw, plans)),
    )
}

/// Each member of an import's report holds what it is named after; every entry
/// considered either changed something or did not.
pub proof fn law_an_import_report_names_what_it_shows(
    applied: bool,
    origin: BundleOrigin,
    raw: Seq<String>,
    plans: Seq<Option<Json>>,
)
    ensures
        ({
            let shown = import_report(applied, origin, raw, plans);
            &&& shown.get("applied"@) == Some(JsonModel::Bool(applied))
            &&& shown.get("source_node_id"@) == Some(
                JsonModel::text_or_null(
                    match origin.node_id { Some(t) => Some(t@), None => None, },
                ),
            )
            &&& shown.get("verified"@) == Some(JsonModel::Bool(origin.verified))
            &&& shown.get("schema"@) == Some(JsonModel::Text(origin.schema@))
            &&& shown.get("considered"@) == Some(JsonModel::integer(raw.len() as int))
            &&& shown.get("changed"@) == Some(JsonModel::integer(planned(raw, plans).len() as int))
            &&& shown.get("noops"@) == Some(
                JsonModel::integer(raw.len() - planned(raw, plans).len()),
            )
            &&& shown.get("actions"@) == Some(JsonModel::Array(planned(raw, plans)))
        }),
{
    reveal_strlit("applied");
    reveal_strlit("source_node_id");
    reveal_strlit("verified");
    reveal_strlit("schema");
    reveal_strlit("considered");
    reveal_strlit("changed");
    reveal_strlit("noops");
    reveal_strlit("actions");
    assert("applied"@[0] != "changed"@[0]);
    assert("applied"@[1] != "actions"@[1]);
    assert("changed"@[0] != "actions"@[0]);
    let m0 = JsonModel::object();
    let v1 = JsonModel::Bool(applied);
    lemma_put(m0, "applied"@, v1);
    let m1 = m0.put("applied"@, v1);
    let v2 = JsonModel::text_or_null(match origin.node_id { Some(t) => Some(t@), None => None, });
    lemma_put(m1, "source_node_id"@, v2);
    let m2 = m1.put("source_node_id"@, v2);
    let v3 = JsonModel::Bool(origin.verified);
    lemma_put(m2, "verified"@, v3);
    let m3 = m2.put("verified"@, v3);
    let v4 = JsonModel::Text(origin.schema@);
    lemma_put(m3, "schema"@, v4);
    let m4 = m3.put("schema"@, v4);
    let v5 = JsonModel::integer(raw.len() as int);
    lemma_put(m4, "considered"@, v5);
    let m5 = m4.put("considered"@, v5);
    let v6 = JsonModel::integer(planned(raw, plans).len() as int);
    lemma_put(m5, "changed"@, v6);
    let m6 = m5.put("changed"@, v6);
    let v7 = JsonModel::integer(raw.len() - planned(raw, plans).len());
    lemma_put(m6, "noops"@, v7);
    let m7 = m6.put("noops"@, v7);
    let v8 = JsonModel::Array(planned(raw, plans));
    lemma_put(m7, "actions"@, v8);
}

/// Answers an import of the entries with these hosts, given what each would change
/// here: refused as a whole for its size or a blank host, else a report in which only
/// the first entry of each host counts.
pub fn import_host_weather(
    applied: bool,
    origin: &BundleOrigin,
    raw: &[String],
    plans: &[Option<Json>],
) -> (r: Result<Json, ApiError>)
    requires
        raw@.len() == plans@.len(),
    ensures
        match import_refusal(raw@) {
            Some(m) => r matches Err(e) && e@ == (400u16, m),
            None => r matches Ok(report) && report@ == import_report(
                applied,
                *origin,
                raw@,
                plans@,
            ),
        },
{
    let admitted = match import_hosts(raw) {
        Ok(admitted) => admitted,
        Err(e) => return Err(e),
    };
    let mut actions: Vec<Json> = Vec::new();
    let mut noops: u64 = 0;
    let mut i: usize = 0;
    assert(models(actions@) =~= planned(raw@.take(0), plans@.take(0)));
    while i < plans.len()
        invariant
            i <= plans@.len() == raw@.len() == admitted@.len(),
            noops + actions@.len() == i,
            forall|k: int|
                0 <= k < raw@.len() ==> (#[trigger] admitted@[k]).1 == first_named(raw@, k),
            models(actions@) == planned(raw@.take(i as int), plans@.take(i as int)),
        decreases plans@.len() - i,
    {
        proof {
            assert(raw@.take(i + 1).drop_last() =~= raw@.take(i as int));
            assert(plans@.take(i + 1).drop_last() =~= plans@.take(i as int));
            lemma_first_named_here(raw@, i as int);
        }
        let ghost had = actions@;
        match &plans[i] {
            Some(plan) => {
                if admitted[i].1 {
                    actions.push(plan.copy());
                    assert(models(actions@) =~= models(had).push(plan@));
                } else {
                    noops += 1;
                }
            },
            None => {
                noops += 1;
            },
        }
        i += 1;
    }
    assert(raw@.take(raw@.len() as int) =~= raw@);
    assert(plans@.take(plans@.len() as int) =~= plans@);
    assert(models(actions@).len() == actions@.len());
    let mut out = Json::object();
    out.set("applied", Json::Bool(applied));
    out.set("source_node_id", Json::optional_text(&origin.node_id));
    out.set("verified", Json::Bool(origin.verified));
    out.set("schema", Json::text(origin.schema.as_str()));
    out.set("considered", Json::unsigned(plans.len() as u64));
    out.set("changed", Json::unsigned(actions.len() as u64));
    out.set("noops", Json::unsigned(noops));
    out.set("actions", Json::array(actions));
    Ok(out)
}

proof fn lemma_first_named_here(raw: Seq<String>, i: int)
    requires
        0 <= i < raw.len(),
    ensures
        first_named(raw.take(i + 1), i) == first_named(raw, i),
{
    let upto = raw.take(i + 1);
    if first_named(raw, i) {
        assert forall|k: int| 0 <= k < i implies merged_host((#[trigger] upto[k])@) != merged_host(
            upto[i]@,
        ) by {
            assert(raw[k] == upto[k]);
        }
    }
    if first_named(upto, i) {
        assert forall|k: int| 0 <= k < i implies merged_host((#[trigger] raw[k])@) != merged_host(
            raw[i]@,
        ) by {
            assert(raw[k] == upto[k]);
        }
    }
}

} // verus!
