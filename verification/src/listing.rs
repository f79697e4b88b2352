//! Lists sorted by name: the registered apps and the session vault.

use vstd::prelude::*;

use crate::clock::{rfc3339_text, write_rfc3339, Instant};
use crate::error::{ApiError, BAD_REQUEST};
use crate::json::{lemma_put, models, Json, JsonModel};
use crate::order::{before, lemma_before_trans, lemma_rank, rank_of, Rank};
use crate::text::{owned, same};

verus! {

/// A named entry.
pub type Named = (Seq<char>, JsonModel);

/// Entries with their names as their models.
pub open spec fn named(v: Seq<(String, Json)>) -> Seq<Named> {
    Seq::new(v.len(), |i: int| (v[i].0@, v[i].1@))
}

/// `s` with `e` behind everything whose name does not sort after its own.
pub open spec fn filed(s: Seq<Named>, e: Named) -> Seq<Named>
    decreases s.len(),
{
    if s.len() == 0 || !before(e.0, s.last().0) {
        s.push(e)
    } else {
        filed(s.drop_last(), e).push(s.last())
    }
}

/// The entries by name, those of one name in the order they came in.
pub open spec fn by_name(s: Seq<Named>) -> Seq<Named>
    decreases s.len(),
{
    if s.len() == 0 {
        s
    } else {
        filed(by_name(s.drop_last()), s.last())
    }
}

/// Whether no name sorts before one that precedes it.
pub open spec fn alphabetical(s: Seq<Named>) -> bool {
    forall|i: int, j: int|
        0 <= i < j < s.len() ==> !before((#[trigger] s[j]).0, (#[trigger] s[i]).0)
}

/// What does not sort before something that does not sort before a third does not
/// sort before the third.
proof fn lemma_not_before(a: Seq<char>, b: Seq<char>, c: Seq<char>)
    requires
        !before(b, a),
        !before(c, b),
    ensures
        !before(c, a),
{
    lemma_rank(a, b);
    lemma_rank(b, c);
    lemma_rank(a, c);
    if before(c, a) {
        if before(a, b) {
            lemma_before_trans(c, a, b);
        } else {
            assert(a == b);
        }
    }
}

proof fn lemma_filed(s: Seq<Named>, e: Named)
    requires
        alphabetical(s),
    ensures
        alphabetical(filed(s, e)),
        filed(s, e).to_multiset() == s.to_multiset().insert(e),
        filed(s, e).len() == s.len() + 1,
        forall|x: Seq<char>, i: int|
            0 <= i < filed(s, e).len() && !before(x, e.0) && (s.len() > 0 ==> !before(
                x,
                s.last().0,
            )) ==> !(#[trigger] before(x, filed(s, e)[i].0)),
    decreases s.len(),
{
    broadcast use vstd::seq_lib::group_to_multiset_ensures;

    let out = filed(s, e);
    if s.len() == 0 || !before(e.0, s.last().0) {
        assert forall|i: int, j: int| 0 <= i < j < out.len() implies !before(
            (#[trigger] out[j]).0,
            (#[trigger] out[i]).0,
        ) by {
            if j == s.len() && i < s.len() - 1 {
                assert(!before(s[s.len() - 1].0, s[i].0));
                lemma_not_before(s[i].0, s.last().0, e.0);
            }
        }
        assert forall|x: Seq<char>, i: int|
            0 <= i < out.len() && !before(x, e.0) && (s.len() > 0 ==> !before(
                x,
                s.last().0,
            )) implies !(#[trigger] before(x, out[i].0)) by {
            if i < s.len() - 1 {
                assert(!before(s[s.len() - 1].0, s[i].0));
                lemma_not_before(s[i].0, s.last().0, x);
            }
        }
    } else {
        let rest = s.drop_last();
        assert(alphabetical(rest)) by {
            assert forall|i: int, j: int| 0 <= i < j < rest.len() implies !before(
                (#[trigger] rest[j]).0,
                (#[trigger] rest[i]).0,
            ) by {
                assert(!before(s[j].0, s[i].0));
            }
        }
        lemma_filed(rest, e);
        let last = s.last().0;
        lemma_rank(e.0, last);
        assert(!before(last, e.0));
        if rest.len() > 0 {
            assert(!before(s[s.len() - 1].0, s[s.len() - 2].0));
        }
        assert forall|i: int, j: int| 0 <= i < j < out.len() implies !before(
            (#[trigger] out[j]).0,
            (#[trigger] out[i]).0,
        ) by {
            assert(out[i] == filed(rest, e)[i]);
            if j < out.len() - 1 {
                assert(out[j] == filed(rest, e)[j]);
            } else {
                assert(!before(last, filed(rest, e)[i].0));
            }
        }
        assert forall|x: Seq<char>, i: int|
            0 <= i < out.len() && !before(x, e.0) && (s.len() > 0 ==> !before(
                x,
                s.last().0,
            )) implies !(#[trigger] before(x, out[i].0)) by {
            if i < out.len() - 1 {
                assert(out[i] == filed(rest, e)[i]);
                if rest.len() > 0 {
                    lemma_not_before(rest.last().0, last, x);
                }
                assert(!before(x, filed(rest, e)[i].0));
            }
        }
        assert(s =~= rest.push(s.last()));
        assert(out.to_multiset() =~= s.to_multiset().insert(e));
    }
}

/// A list by name is in order and holds exactly what it was made of.
pub proof fn law_lists_are_alphabetical_and_complete(s: Seq<Named>)
    ensures
        alphabetical(by_name(s)),
        by_name(s).to_multiset() == s.to_multiset(),
        by_name(s).len() == s.len(),
    decreases s.len(),
{
    broadcast use vstd::seq_lib::group_to_multiset_ensures;

    if s.len() > 0 {
        law_lists_are_alphabetical_and_complete(s.drop_last());
        lemma_filed(by_name(s.drop_last()), s.last());
        assert(s =~= s.drop_last().push(s.last()));
    }
}

proof fn lemma_filed_of_name(s: Seq<Named>, e: Named, name: Seq<char>)
    ensures
        filed(s, e).filter(|x: Named| x.0 == name) == if e.0 == name {
            s.filter(|x: Named| x.0 == name).push(e)
        } else {
            s.filter(|x: Named| x.0 == name)
        },
    decreases s.len(),
{
    reveal(Seq::filter);
    if s.len() == 0 || !before(e.0, s.last().0) {
        assert(s.push(e).drop_last() =~= s);
    } else {
        let rest = s.drop_last();
        lemma_filed_of_name(rest, e, name);
        lemma_rank(e.0, s.last().0);
        assert(filed(rest, e).push(s.last()).drop_last() =~= filed(rest, e));
    }
}

/// Entries of one name stay in the order they came in.
pub proof fn law_entries_of_a_name_keep_their_order(s: Seq<Named>, name: Seq<char>)
    ensures
        by_name(s).filter(|x: Named| x.0 == name) == s.filter(|x: Named| x.0 == name),
    decreases s.len(),
{
    reveal(Seq::filter);
    if s.len() > 0 {
        law_entries_of_a_name_keep_their_order(s.drop_last(), name);
        lemma_filed_of_name(by_name(s.drop_last()), s.last(), name);
    }
}

fn file(out: &mut Vec<(String, Json)>, name: String, value: Json)
    ensures
        named(final(out)@) == filed(named(old(out)@), (name@, value@)),
{
    let ghost had = out@;
    let ghost e = (name@, value@);
    let mut i: usize = out.len();
    assert(had.take(i as int) =~= had);
    assert(filed(named(had), e) =~= filed(named(had.take(i as int)), e) + named(
        had.skip(i as int),
    ));
    while i > 0 && rank_of(name.as_str(), out[i - 1].0.as_str()) == Rank::Before
        invariant
            i <= out@.len(),
            out@ == had,
            e == (name@, value@),
            filed(named(had), e) == filed(named(had.take(i as int)), e) + named(
                had.skip(i as int),
            ),
        decreases i,
    {
        proof {
            let s = named(had.take(i as int));
            assert(s.drop_last() =~= named(had.take(i - 1)));
            assert(s.last() == named(had)[i - 1]);
            assert(filed(s, e) + named(had.skip(i as int)) =~= filed(
                named(had.take(i - 1)),
                e,
            ) + named(had.skip(i - 1)));
        }
        i -= 1;
    }
    out.insert(i, (name, value));
    proof {
        let s = named(had.take(i as int));
        assert(filed(s, e) == s.push(e));
        assert(named(out@) =~= s.push(e) + named(had.skip(i as int)));
    }
}

/// The values of a list by name.
pub open spec fn listed(s: Seq<Named>) -> Seq<JsonModel> {
    Seq::new(s.len(), |i: int| by_name(s)[i].1)
}

/// Sorts a list by name.
pub fn sort_by_name(entries: &[(String, Json)]) -> (r: Vec<Json>)
    ensures
        models(r@) == listed(named(entries@)),
{
    let mut sorted: Vec<(String, Json)> = Vec::new();
    let mut i: usize = 0;
    assert(named(sorted@) =~= Seq::empty());
    while i < entries.len()
        invariant
            i <= entries@.len(),
            named(sorted@) == by_name(named(entries@.take(i as int))),
        decreases entries@.len() - i,
    {
        proof {
            let now = named(entries@.take(i + 1));
            assert(now.drop_last() =~= named(entries@.take(i as int)));
            assert(now.last() == (entries@[i as int].0@, entries@[i as int].1@));
        }
        file(&mut sorted, owned(entries[i].0.as_str()), entries[i].1.copy());
        i += 1;
    }
    assert(entries@.take(entries@.len() as int) =~= entries@);
    proof {
        law_lists_are_alphabetical_and_complete(named(entries@));
        assert(named(sorted@).len() == sorted@.len());
    }
    let ghost whole = named(sorted@);
    let mut out: Vec<Json> = Vec::new();
    let mut k: usize = 0;
    while k < sorted.len()
        invariant
            k <= sorted@.len(),
            whole == named(sorted@),
            out@.len() == k,
            forall|n: int| 0 <= n < k ==> (#[trigger] out@[n])@ == whole[n].1,
        decreases sorted@.len() - k,
    {
        out.push(sorted[k].1.copy());
        k += 1;
    }
    assert(models(out@) =~= listed(named(entries@)));
    out
}

/// A registered app.
#[derive(Debug, PartialEq)]
pub struct AppEntry {
    pub name: String,
    pub description: String,
    pub schedule: Option<String>,
    /// The labels of its preconditions, and whether each holds here.
    pub requires: Vec<(String, bool)>,
    pub default_params: Json,
    pub cost_class: String,
    pub output_shape: Json,
    pub has_params_schema: bool,
    /// The app as a tool definition.
    pub tool: Json,
}

/// Whether every precondition holds.
pub open spec fn is_ready(requires_: Seq<(String, bool)>) -> bool {
    forall|i: int| 0 <= i < requires_.len() ==> (#[trigger] requires_[i]).1
}

/// An app is ready exactly where nothing it requires is missing.
pub proof fn law_an_app_is_ready_where_nothing_is_missing(
    requires_: Seq<(String, bool)>,
    more: (String, bool),
)
    ensures
        is_ready(Seq::empty()),
        is_ready(requires_.push(more)) <==> is_ready(requires_) && more.1,
{
    let all = requires_.push(more);
    if is_ready(all) {
        assert(all[requires_.len() as int] == more);
        assert forall|i: int| 0 <= i < requires_.len() implies (#[trigger] requires_[i]).1 by {
            assert(all[i] == requires_[i]);
        }
    }
}

/// A list shows the values of its entries in the order of their names, none left out
/// and none added.
pub proof fn law_a_list_shows_every_entry(s: Seq<Named>)
    ensures
        listed(s).len() == s.len(),
        forall|i: int|
            0 <= i < s.len() ==> #[trigger] listed(s)[i] == by_name(s)[i].1,
{
    law_lists_are_alphabetical_and_complete(s);
}

/// A row of the app list.
pub open spec fn app_row(a: AppEntry) -> JsonModel {
    JsonModel::object().put("name"@, JsonModel::Text(a.name@)).put(
        "description"@,
        JsonModel::Text(a.description@),
    ).put(
        "schedule"@,
        JsonModel::text_or_null(
            match a.schedule {
                Some(t) => Some(t@),
                None => None,
            },
        ),
    ).put(
        "requires"@,
        JsonModel::Array(
            Seq::new(a.requires@.len(), |i: int| JsonModel::Text(a.requires@[i].0@)),
        ),
    ).put("ready"@, JsonModel::Bool(is_ready(a.requires@))).put(
        "default_params"@,
        a.default_params@,
    ).put("cost_class"@, JsonModel::Text(a.cost_class@)).put("output_shape"@, a.output_shape@).put(
        "has_params_schema"@,
        JsonModel::Bool(a.has_params_schema),
    )
}

/// Each member of an app row holds what it is named after.
pub proof fn law_an_app_row_names_what_it_shows(a: AppEntry)
    ensures
        ({
            let shown = app_row(a);
            &&& shown.get("name"@) == Some(JsonModel::Text(a.name@))
            &&& shown.get("description"@) == Some(JsonModel::Text(a.description@))
            &&& shown.get("schedule"@) == Some(
                JsonModel::text_or_null(match a.schedule { Some(t) => Some(t@), None => None, }),
            )
            &&& shown.get("requires"@) == Some(
                JsonModel::Array(
                    Seq::new(a.requires@.len(), |i: int| JsonModel::Text(a.requires@[i].0@)),
                ),
            )
            &&& shown.get("ready"@) == Some(JsonModel::Bool(is_ready(a.requires@)))
            &&& shown.get("default_params"@) == Some(a.default_params@)
            &&& shown.get("cost_class"@) == Some(JsonModel::Text(a.cost_class@))
            &&& shown.get("output_shape"@) == Some(a.output_shape@)
            &&& shown.get("has_params_schema"@) == Some(JsonModel::Bool(a.has_params_schema))
        }),
{
    reveal_strlit("name");
    reveal_strlit("description");
    reveal_strlit("schedule");
    reveal_strlit("requires");
    reveal_strlit("ready");
    reveal_strlit("default_params");
    reveal_strlit("cost_class");
    reveal_strlit("output_shape");
    reveal_strlit("has_params_schema");
    assert("schedule"@[0] != "requires"@[0]);
    let m0 = JsonModel::object();
    let v1 = JsonModel::Text(a.name@);
    lemma_put(m0, "name"@, v1);
    let m1 = m0.put("name"@, v1);
    let v2 = JsonModel::Text(a.description@);
    lemma_put(m1, "description"@, v2);
    let m2 = m1.put("description"@, v2);
    let v3 = JsonModel::text_or_null( match a.schedule { Some(t) => Some(t@), None => None, }, );
    lemma_put(m2, "schedule"@, v3);
    let m3 = m2.put("schedule"@, v3);
    let v4 = JsonModel::Array(
        Seq::new(a.requires@.len(), |i: int| JsonModel::Text(a.requires@[i].0@)),
    );
    lemma_put(m3, "requires"@, v4);
    let m4 = m3.put("requires"@, v4);
    let v5 = JsonModel::Bool(is_ready(a.requires@));
    lemma_put(m4, "ready"@, v5);
    let m5 = m4.put("ready"@, v5);
    let v6 = a.default_params@;
    lemma_put(m5, "default_params"@, v6);
    let m6 = m5.put("default_params"@, v6);
    let v7 = JsonModel::Text(a.cost_class@);
    lemma_put(m6, "cost_class"@, v7);
    let m7 = m6.put("cost_class"@, v7);
    let v8 = a.output_shape@;
    lemma_put(m7, "output_shape"@, v8);
    let m8 = m7.put("output_shape"@, v8);
    let v9 = JsonModel::Bool(a.has_params_schema);
    lemma_put(m8, "has_params_schema"@, v9);
}

fn show_app(a: &AppEntry) -> (r: Json)
    ensures
        r@ == app_row(*a),
{
    let mut labels: Vec<Json> = Vec::new();
    let mut ready = true;
    let mut i: usize = 0;
    while i < a.requires.len()
        invariant
            i <= a.requires@.len(),
            labels@.len() == i,
            forall|k: int|
                0 <= k < i ==> (#[trigger] labels@[k])@ == JsonModel::Text(a.requires@[k].0@),
            ready <==> forall|k: int| 0 <= k < i ==> (#[trigger] a.requires@[k]).1,
        decreases a.requires@.len() - i,
    {
        labels.push(Json::text(a.requires[i].0.as_str()));
        if !a.requires[i].1 {
            ready = false;
        }
        i += 1;
    }
    assert(models(labels@) =~= Seq::new(
        a.requires@.len(),
        |k: int| JsonModel::Text(a.requires@[k].0@),
    ));
    let mut out = Json::object();
    out.set("name", Json::text(a.name.as_str()));
    out.set("description", Json::text(a.description.as_str()));
    out.set("schedule", Json::optional_text(&a.schedule));
    out.set("requires", Json::array(labels));
    out.set("ready", Json::Bool(ready));
    out.set("default_params", a.default_params.copy());
    out.set("cost_class", Json::text(a.cost_class.as_str()));
    out.set("output_shape", a.output_shape.copy());
    out.set("has_params_schema", Json::Bool(a.has_params_schema));
    out
}

/// The apps by name, each as it is listed.
pub open spec fn app_rows(apps: Seq<AppEntry>) -> Seq<JsonModel> {
    listed(Seq::new(apps.len(), |i: int| (apps[i].name@, app_row(apps[i]))))
}

/// The apps by name, each as a tool.
pub open spec fn app_tools(apps: Seq<AppEntry>) -> Seq<JsonModel> {
    listed(Seq::new(apps.len(), |i: int| (apps[i].name@, apps[i].tool@)))
}

proof fn lemma_listed_from(s: Seq<Named>, i: int)
    requires
        0 <= i < s.len(),
    ensures
        exists|k: int| 0 <= k < s.len() && by_name(s)[i] == #[trigger] s[k],
{
    broadcast use vstd::seq_lib::group_to_multiset_ensures;

    law_lists_are_alphabetical_and_complete(s);
    let e = by_name(s)[i];
    assert(by_name(s).contains(e));
    assert(by_name(s).to_multiset().count(e) > 0);
    assert(s.to_multiset().count(e) > 0);
    assert(s.contains(e));
}

/// Every app has its row, and the rows stand in the order of the names they show.
pub proof fn law_apps_are_listed_by_the_names_they_show(apps: Seq<AppEntry>)
    ensures
        app_rows(apps).len() == apps.len(),
        app_tools(apps).len() == apps.len(),
        forall|i: int|
            0 <= i < apps.len() ==> exists|k: int|
                0 <= k < apps.len() && #[trigger] app_rows(apps)[i] == app_row(
                    #[trigger] apps[k],
                ),
        forall|i: int|
            0 <= i < apps.len() ==> exists|k: int|
                0 <= k < apps.len() && #[trigger] app_tools(apps)[i] == (
                #[trigger] apps[k]).tool@,
        forall|i: int, j: int|
            0 <= i < j < apps.len() ==> !before(
                (#[trigger] app_rows(apps)[j]).text_at("name"@)->0,
                (#[trigger] app_rows(apps)[i]).text_at("name"@)->0,
            ),
{
    let s = Seq::new(apps.len(), |i: int| (apps[i].name@, app_row(apps[i])));
    let t = Seq::new(apps.len(), |i: int| (apps[i].name@, apps[i].tool@));
    law_lists_are_alphabetical_and_complete(s);
    assert forall|i: int| 0 <= i < apps.len() implies exists|k: int|
        0 <= k < apps.len() && #[trigger] app_rows(apps)[i] == app_row(#[trigger] apps[k]) by {
        lemma_listed_from(s, i);
        let k = choose|k: int| 0 <= k < s.len() && by_name(s)[i] == #[trigger] s[k];
        assert(app_rows(apps)[i] == app_row(apps[k]));
    }
    assert forall|i: int| 0 <= i < apps.len() implies exists|k: int|
        0 <= k < apps.len() && #[trigger] app_tools(apps)[i] == (#[trigger] apps[k]).tool@ by {
        lemma_listed_from(t, i);
        let k = choose|k: int| 0 <= k < t.len() && by_name(t)[i] == #[trigger] t[k];
        assert(app_tools(apps)[i] == apps[k].tool@);
    }
    assert forall|i: int, j: int| 0 <= i < j < apps.len() implies !before(
        (#[trigger] app_rows(apps)[j]).text_at("name"@)->0,
        (#[trigger] app_rows(apps)[i]).text_at("name"@)->0,
    ) by {
        lemma_listed_from(s, i);
        lemma_listed_from(s, j);
        let a = choose|k: int| 0 <= k < s.len() && by_name(s)[i] == #[trigger] s[k];
        let b = choose|k: int| 0 <= k < s.len() && by_name(s)[j] == #[trigger] s[k];
        law_an_app_row_names_what_it_shows(apps[a]);
        law_an_app_row_names_what_it_shows(apps[b]);
        assert(app_rows(apps)[i].text_at("name"@) == Some(by_name(s)[i].0));
        assert(app_rows(apps)[j].text_at("name"@) == Some(by_name(s)[j].0));
        assert(!before(by_name(s)[j].0, by_name(s)[i].0));
    }
}

/// Lists the registered apps. Discovered apps that cannot be run follow the
/// registered ones, and are no tools: a tool an agent cannot call is a trap.
pub fn list_apps(format: Option<&str>, apps: &[AppEntry], dynamic: &[Json]) -> (r: Result<
    Json,
    ApiError,
>)
    ensures
        match format {
            None => r matches Ok(j) && j@ == JsonModel::object().put(
                "apps"@,
                JsonModel::Array(app_rows(apps@) + models(dynamic@)),
            ),
            Some(f) => if f@ == "tools"@ {
                r matches Ok(j) && j@ == JsonModel::object().put(
                    "tools"@,
                    JsonModel::Array(app_tools(apps@)),
                )
            } else {
                r matches Err(e) && e@ == (
                    400u16,
                    "unknown format '"@ + f@ + "' (omit for the app listing, or 'tools')"@,
                )
            },
        },
{
    let tools = match format {
        None => false,
        Some(f) => {
            if !same(f, "tools") {
                let mut m = owned("unknown format '");
                m.append(f);
                m.append("' (omit for the app listing, or 'tools')");
                return Err(ApiError::new(BAD_REQUEST, m));
            }
            true
        },
    };
    let mut entries: Vec<(String, Json)> = Vec::new();
    let mut i: usize = 0;
    while i < apps.len()
        invariant
            i <= apps@.len(),
            entries@.len() == i,
            forall|k: int| 0 <= k < i ==> (#[trigger] entries@[k]).0@ == apps@[k].name@,
            forall|k: int|
                0 <= k < i ==> (#[trigger] entries@[k]).1@ == if tools {
                    apps@[k].tool@
                } else {
                    app_row(apps@[k])
                },
        decreases apps@.len() - i,
    {
        let value = if tools {
            apps[i].tool.copy()
        } else {
            show_app(&apps[i])
        };
        entries.push((owned(apps[i].name.as_str()), value));
        i += 1;
    }
    proof {
        if tools {
            assert(named(entries@) =~= Seq::new(
                apps@.len(),
                |k: int| (apps@[k].name@, apps@[k].tool@),
            ));
        } else {
            assert(named(entries@) =~= Seq::new(
                apps@.len(),
                |k: int| (apps@[k].name@, app_row(apps@[k])),
            ));
        }
    }
    let mut list = sort_by_name(&entries);
    let mut out = Json::object();
    if tools {
        out.set("tools", Json::array(list));
        return Ok(out);
    }
    let ghost rows = models(list@);
    let mut k: usize = 0;
    assert(rows + models(dynamic@.take(0)) =~= rows);
    while k < dynamic.len()
        invariant
            k <= dynamic@.len(),
            models(list@) == rows + models(dynamic@.take(k as int)),
        decreases dynamic@.len() - k,
    {
        let ghost had = list@;
        list.push(dynamic[k].copy());
        assert(models(list@) =~= models(had).push(dynamic@[k as int]@));
        assert(models(dynamic@.take(k + 1)) =~= models(dynamic@.take(k as int)).push(
            dynamic@[k as int]@,
        ));
        k += 1;
    }
    assert(dynamic@.take(dynamic@.len() as int) =~= dynamic@);
    out.set("apps", Json::array(list));
    Ok(out)
}

/// A profile of the session vault, as it lies on disk.
#[derive(Debug, PartialEq)]
pub struct ProfileInfo {
    pub name: String,
    pub has_cookies: bool,
    pub has_browser_dir: bool,
    /// The stamps of the profile and its parts, where they could be read.
    pub touched: Vec<Option<Instant>>,
}

/// Whether one instant is later than another.
pub open spec fn later(a: (i64, u32), b: (i64, u32)) -> bool {
    a.0 > b.0 || a.0 == b.0 && a.1 > b.1
}

/// The latest of the stamps that could be read.
pub open spec fn newest(stamps: Seq<Option<Instant>>) -> Option<(i64, u32)>
    decreases stamps.len(),
{
    if stamps.len() == 0 {
        None
    } else {
        let rest = newest(stamps.drop_last());
        match stamps.last() {
            None => rest,
            Some(t) => match rest {
                Some(r) if !later(t@, r) => rest,
                _ => Some(t@),
            },
        }
    }
}

/// A profile was last used at the latest of the moments it was touched, and never
/// where it was not.
pub proof fn law_the_latest_touch_counts(stamps: Seq<Option<Instant>>)
    ensures
        newest(stamps) is None <==> forall|i: int|
            0 <= i < stamps.len() ==> (#[trigger] stamps[i]) is None,
        newest(stamps) matches Some(t) ==> {
            &&& exists|i: int|
                0 <= i < stamps.len() && ((#[trigger] stamps[i]) matches Some(s) && s@ == t)
            &&& forall|i: int|
                0 <= i < stamps.len() ==> ((#[trigger] stamps[i]) matches Some(s) ==> s@.0 < t.0
                    || (s@.0 == t.0 && s@.1 <= t.1))
        },
    decreases stamps.len(),
{
    if stamps.len() > 0 {
        let rest = stamps.drop_last();
        law_the_latest_touch_counts(rest);
        assert(forall|i: int| 0 <= i < rest.len() ==> #[trigger] stamps[i] == rest[i]);
        assert(stamps[stamps.len() - 1] == stamps.last());
        if let Some(t) = newest(rest) {
            let i = choose|i: int|
                0 <= i < rest.len() && ((#[trigger] rest[i]) matches Some(s) && s@ == t);
            assert(stamps[i] == rest[i]);
        }
    }
}

fn newest_of(stamps: &[Option<Instant>]) -> (r: Option<Instant>)
    ensures
        match r {
            Some(t) => newest(stamps@) == Some(t@),
            None => newest(stamps@) is None,
        },
{
    let mut best: Option<Instant> = None;
    let mut i: usize = 0;
    while i < stamps.len()
        invariant
            i <= stamps@.len(),
            match best {
                Some(t) => newest(stamps@.take(i as int)) == Some(t@),
                None => newest(stamps@.take(i as int)) is None,
            },
        decreases stamps@.len() - i,
    {
        assert(stamps@.take(i + 1).drop_last() =~= stamps@.take(i as int));
        if let Some(t) = stamps[i] {
            let keep = match best {
                Some(b) => !(t.seconds() > b.seconds() || t.seconds() == b.seconds()
                    && t.subsec_nanos() > b.subsec_nanos()),
                None => false,
            };
            if !keep {
                best = Some(t);
            }
        }
        i += 1;
    }
    assert(stamps@.take(stamps@.len() as int) =~= stamps@);
    best
}

/// A profile as it is listed.
pub open spec fn profile_row(p: ProfileInfo) -> JsonModel {
    JsonModel::object().put("name"@, JsonModel::Text(p.name@)).put(
        "has_cookies"@,
        JsonModel::Bool(p.has_cookies),
    ).put("has_browser_dir"@, JsonModel::Bool(p.has_browser_dir)).put(
        "last_used"@,
        JsonModel::text_or_null(
            match newest(p.touched@) {
                Some(t) => Some(rfc3339_text(t.0, t.1)),
                None => None,
            },
        ),
    )
}

/// Each member of a profile row holds what it is named after.
pub proof fn law_a_profile_row_names_what_it_shows(p: ProfileInfo)
    ensures
        ({
            let shown = profile_row(p);
            &&& shown.get("name"@) == Some(JsonModel::Text(p.name@))
            &&& shown.get("has_cookies"@) == Some(JsonModel::Bool(p.has_cookies))
            &&& shown.get("has_browser_dir"@) == Some(JsonModel::Bool(p.has_browser_dir))
            &&& shown.get("last_used"@) == Some(
                JsonModel::text_or_null(
                    match newest(p.touched@) {
                        Some(t) => Some(rfc3339_text(t.0, t.1)),
                        None => None,
                    },
                ),
            )
        }),
{
    reveal_strlit("name");
    reveal_strlit("has_cookies");
    reveal_strlit("has_browser_dir");
    reveal_strlit("last_used");
    let m0 = JsonModel::object();
    let v1 = JsonModel::Text(p.name@);
    lemma_put(m0, "name"@, v1);
    let m1 = m0.put("name"@, v1);
    let v2 = JsonModel::Bool(p.has_cookies);
    lemma_put(m1, "has_cookies"@, v2);
    let m2 = m1.put("has_cookies"@, v2);
    let v3 = JsonModel::Bool(p.has_browser_dir);
    lemma_put(m2, "has_browser_dir"@, v3);
    let m3 = m2.put("has_browser_dir"@, v3);
    let v4 = JsonModel::text_or_null(
        match newest(p.touched@) { Some(t) => Some(rfc3339_text(t.0, t.1)), None => None, },
    );
    lemma_put(m3, "last_used"@, v4);
}

/// Lists the session vault, by name. A profile was last used when the newest of
/// its parts was touched.
pub fn list_profiles(profiles: &[ProfileInfo]) -> (r: Json)
    ensures
        r@ == JsonModel::object().put(
            "profiles"@,
            JsonModel::Array(
                listed(
                    Seq::new(
                        profiles@.len(),
                        |i: int| (profiles@[i].name@, profile_row(profiles@[i])),
                    ),
                ),
            ),
        ),
{
    let mut entries: Vec<(String, Json)> = Vec::new();
    let mut i: usize = 0;
    while i < profiles.len()
        invariant
            i <= profiles@.len(),
            entries@.len() == i,
            forall|k: int| 0 <= k < i ==> (#[trigger] entries@[k]).0@ == profiles@[k].name@,
            forall|k: int| 0 <= k < i ==> (#[trigger] entries@[k]).1@ == profile_row(profiles@[k]),
        decreases profiles@.len() - i,
    {
        let p = &profiles[i];
        let last_used = match newest_of(&p.touched) {
            Some(t) => Some(write_rfc3339(t)),
            None => None,
        };
        let mut row = Json::object();
        row.set("name", Json::text(p.name.as_str()));
        row.set("has_cookies", Json::Bool(p.has_cookies));
        row.set("has_browser_dir", Json::Bool(p.has_browser_dir));
        row.set("last_used", Json::optional_text(&last_used));
        entries.push((owned(p.name.as_str()), row));
        i += 1;
    }
    assert(named(entries@) =~= Seq::new(
        profiles@.len(),
        |k: int| (profiles@[k].name@, profile_row(profiles@[k])),
    ));
    let mut out = Json::object();
    out.set("profiles", Json::array(sort_by_name(&entries)));
    out
}

} // verus!
