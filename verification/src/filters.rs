//! The `?filter=` grammar: `<path>:<op>:<value>`, repeatable, all of them
//! required at once.

use vstd::prelude::*;
use vstd::slice::slice_subrange;

use crate::error::{ApiError, BAD_REQUEST};
use crate::json::JsonModel;
use crate::number::{is_float, spells_float};
use crate::order::before;
use crate::text::{
    begins, chars, cut, find, lemma_position_at, owned, same, same_chars, starts_with, string_of,
    trim_chars, trimmed,
};

verus! {

/// One predicate on a record's JSON.
#[derive(Debug, PartialEq)]
pub enum JsonFilter {
    /// The text at `path` is exactly `value`.
    Eq { path: String, value: String },
    /// The text at `path` holds `value`, in any case.
    Contains { path: String, value: String },
    /// The text at `path` is `value` or sorts after it.
    Gte { path: String, value: String },
    /// The text at `path` is `value` or sorts before it.
    Lte { path: String, value: String },
    /// The number at any of `paths` is at least the number `value` spells.
    NumGteAny { paths: Vec<String>, value: String },
}

/// A predicate with its texts taken as character sequences.
pub enum FilterModel {
    Eq { path: Seq<char>, value: Seq<char> },
    Contains { path: Seq<char>, value: Seq<char> },
    Gte { path: Seq<char>, value: Seq<char> },
    Lte { path: Seq<char>, value: Seq<char> },
    NumGteAny { paths: Seq<Seq<char>>, value: Seq<char> },
}

/// The character sequences of a list of strings.
pub open spec fn texts(v: Seq<String>) -> Seq<Seq<char>> {
    v.map_values(|s: String| s@)
}

impl View for JsonFilter {
    type V = FilterModel;

    open spec fn view(&self) -> FilterModel {
        match *self {
            JsonFilter::Eq { path, value } => FilterModel::Eq { path: path@, value: value@ },
            JsonFilter::Contains { path, value } => FilterModel::Contains {
                path: path@,
                value: value@,
            },
            JsonFilter::Gte { path, value } => FilterModel::Gte { path: path@, value: value@ },
            JsonFilter::Lte { path, value } => FilterModel::Lte { path: path@, value: value@ },
            JsonFilter::NumGteAny { paths, value } => FilterModel::NumGteAny {
                paths: texts(paths@),
                value: value@,
            },
        }
    }
}

/// What stands in a record under a path of one step.
pub open spec fn value_at(record: JsonModel, path: Seq<char>) -> Option<JsonModel> {
    if begins(path, "$."@) {
        record.get(path.skip("$."@.len() as int))
    } else {
        None
    }
}

/// The text that stands in a record under a path of one step.
pub open spec fn text_under(record: JsonModel, path: Seq<char>) -> Option<Seq<char>> {
    match value_at(record, path) {
        Some(v) => v.as_text(),
        None => None,
    }
}

/// Whether a record satisfies a predicate, given when one text holds another and
/// when a value is a number of at least the amount a text spells.
pub open spec fn satisfies(
    record: JsonModel,
    f: FilterModel,
    holds: spec_fn(Seq<char>, Seq<char>) -> bool,
    at_least: spec_fn(JsonModel, Seq<char>) -> bool,
) -> bool {
    match f {
        FilterModel::Eq { path, value } => text_under(record, path) == Some(value),
        FilterModel::Contains { path, value } => text_under(record, path) matches Some(t) && holds(
            t,
            value,
        ),
        FilterModel::Gte { path, value } => text_under(record, path) matches Some(t) && !before(
            t,
            value,
        ),
        FilterModel::Lte { path, value } => text_under(record, path) matches Some(t) && !before(
            value,
            t,
        ),
        FilterModel::NumGteAny { paths, value } => exists|i: int|
            0 <= i < paths.len() && (value_at(record, #[trigger] paths[i]) matches Some(v)
                && at_least(v, value)),
    }
}

/// Whether a record satisfies every one of the predicates.
pub open spec fn admits(
    record: JsonModel,
    fs: Seq<FilterModel>,
    holds: spec_fn(Seq<char>, Seq<char>) -> bool,
    at_least: spec_fn(JsonModel, Seq<char>) -> bool,
) -> bool {
    forall|i: int| 0 <= i < fs.len() ==> satisfies(record, #[trigger] fs[i], holds, at_least)
}

/// Two lists of predicates admit together what each of them admits.
pub proof fn law_filters_are_required_at_once(
    record: JsonModel,
    fs: Seq<FilterModel>,
    gs: Seq<FilterModel>,
    holds: spec_fn(Seq<char>, Seq<char>) -> bool,
    at_least: spec_fn(JsonModel, Seq<char>) -> bool,
)
    ensures
        admits(record, fs + gs, holds, at_least) <==> admits(record, fs, holds, at_least) && admits(
            record,
            gs,
            holds,
            at_least,
        ),
{
    let all = fs + gs;
    if admits(record, all, holds, at_least) {
        assert forall|i: int| 0 <= i < fs.len() implies satisfies(
            record,
            #[trigger] fs[i],
            holds,
            at_least,
        ) by {
            assert(all[i] == fs[i]);
        }
        assert forall|i: int| 0 <= i < gs.len() implies satisfies(
            record,
            #[trigger] gs[i],
            holds,
            at_least,
        ) by {
            assert(all[fs.len() + i] == gs[i]);
        }
    }
}

/// The repeated `filter` values of a query string, in the order they came.
pub open spec fn filter_values(pairs: Seq<(String, String)>) -> Seq<Seq<char>>
    decreases pairs.len(),
{
    if pairs.len() == 0 {
        Seq::empty()
    } else {
        let rest = filter_values(pairs.drop_last());
        if pairs.last().0@ == "filter"@ {
            rest.push(pairs.last().1@)
        } else {
            rest
        }
    }
}

/// Pulls the repeatable `filter` parameters out of the raw pair list.
pub fn filter_specs(pairs: &[(String, String)]) -> (r: Vec<String>)
    ensures
        texts(r@) == filter_values(pairs@),
{
    let mut out: Vec<String> = Vec::new();
    let mut i: usize = 0;
    while i < pairs.len()
        invariant
            i <= pairs@.len(),
            texts(out@) =~= filter_values(pairs@.take(i as int)),
        decreases pairs@.len() - i,
    {
        assert(pairs@.take(i + 1).drop_last() =~= pairs@.take(i as int));
        if same(pairs[i].0.as_str(), "filter") {
            out.push(owned(pairs[i].1.as_str()));
        }
        i += 1;
    }
    assert(pairs@.take(pairs@.len() as int) =~= pairs@);
    out
}

/// A specification without its two colons.
pub open spec fn shape_message(spec: Seq<char>) -> Seq<char> {
    "filter '"@ + spec + "' must be '<path>:<op>:<value>' (e.g. $.state:eq:CA)"@
}

/// A path that is not a JSON path.
pub open spec fn path_message(path: Seq<char>, spec: Seq<char>) -> Seq<char> {
    "filter path '"@ + path + "' must be a JSON path starting with '$.' (in '"@ + spec + "')"@
}

/// A `numgte` whose value is no number.
pub open spec fn number_message(spec: Seq<char>, value: Seq<char>) -> Seq<char> {
    "filter '"@ + spec + "': '"@ + value + "' is not a number for op 'numgte'"@
}

/// A `numgte` without a path.
pub open spec fn no_path_message(spec: Seq<char>) -> Seq<char> {
    "filter '"@ + spec + "': 'numgte' needs at least one path"@
}

/// An operator outside the grammar.
pub open spec fn op_message(spec: Seq<char>, op: Seq<char>) -> Seq<char> {
    "filter '"@ + spec + "': unknown op '"@ + op + "' (eq | contains | gte | lte | numgte)"@
}

/// Whether `p` is a JSON path.
pub open spec fn is_json_path(p: Seq<char>) -> bool {
    begins(p, "$."@)
}

/// The comma-separated fields of `s`: each trimmed, blank ones dropped.
pub open spec fn fields(s: Seq<char>) -> Seq<Seq<char>>
    decreases s.len(),
{
    match cut(s, ',') {
        None => kept(trimmed(s)),
        Some((head, rest)) => if rest.len() < s.len() {
            kept(trimmed(head)) + fields(rest)
        } else {
            Seq::empty()
        },
    }
}

/// A field on its own, or nothing when it is blank.
pub open spec fn kept(field: Seq<char>) -> Seq<Seq<char>> {
    if field.len() > 0 {
        seq![field]
    } else {
        Seq::empty()
    }
}

/// The first entry of `paths` that is not a JSON path.
pub open spec fn bad_path(paths: Seq<Seq<char>>) -> Option<Seq<char>>
    decreases paths.len(),
{
    if paths.len() == 0 {
        None
    } else if !is_json_path(paths[0]) {
        Some(paths[0])
    } else {
        bad_path(paths.drop_first())
    }
}

/// What one specification means: a predicate, or the message that refuses it.
/// The value keeps every colon after the operator.
pub open spec fn filter_of(spec: Seq<char>) -> Result<FilterModel, Seq<char>> {
    match cut(spec, ':') {
        None => Err(shape_message(spec)),
        Some((path, rest)) => match cut(rest, ':') {
            None => Err(shape_message(spec)),
            Some((op, value)) => if op == "numgte"@ {
                if !is_float(value) {
                    Err(number_message(spec, value))
                } else if fields(path).len() == 0 {
                    Err(no_path_message(spec))
                } else {
                    match bad_path(fields(path)) {
                        Some(p) => Err(path_message(p, spec)),
                        None => Ok(FilterModel::NumGteAny { paths: fields(path), value }),
                    }
                }
            } else if op == "eq"@ || op == "contains"@ || op == "gte"@ || op == "lte"@ {
                if !is_json_path(path) {
                    Err(path_message(path, spec))
                } else if op == "eq"@ {
                    Ok(FilterModel::Eq { path, value })
                } else if op == "contains"@ {
                    Ok(FilterModel::Contains { path, value })
                } else if op == "gte"@ {
                    Ok(FilterModel::Gte { path, value })
                } else {
                    Ok(FilterModel::Lte { path, value })
                }
            } else {
                Err(op_message(spec, op))
            },
        },
    }
}

fn refuse(message: String) -> (r: ApiError)
    ensures
        r@ == (400u16, message@),
{
    ApiError::new(BAD_REQUEST, message)
}

fn bad_path_error(path: &str, spec: &str) -> (r: ApiError)
    ensures
        r@ == (400u16, path_message(path@, spec@)),
{
    let mut m = owned("filter path '");
    m.append(path);
    m.append("' must be a JSON path starting with '$.' (in '");
    m.append(spec);
    m.append("')");
    refuse(m)
}

fn shape_error(spec: &str) -> (r: ApiError)
    ensures
        r@ == (400u16, shape_message(spec@)),
{
    let mut m = owned("filter '");
    m.append(spec);
    m.append("' must be '<path>:<op>:<value>' (e.g. $.state:eq:CA)");
    refuse(m)
}

/// The comma-separated, trimmed, non-blank fields of `cs`.
fn split_fields(cs: &[char]) -> (r: Vec<String>)
    ensures
        texts(r@) == fields(cs@),
    decreases cs@.len(),
{
    let p = find(cs, ',');
    let mut out: Vec<String> = Vec::new();
    if p < cs.len() {
        assert(cs@.subrange(0, p as int) =~= cs@.take(p as int));
        assert(cs@.subrange(p + 1, cs@.len() as int) =~= cs@.skip(p + 1));
        let head = trim_chars(slice_subrange(cs, 0, p));
        if head.len() > 0 {
            out.push(string_of(head));
        }
        assert(texts(out@) =~= kept(head@));
        let ghost first = texts(out@);
        let mut rest = split_fields(slice_subrange(cs, p + 1, cs.len()));
        let ghost tail = texts(rest@);
        out.append(&mut rest);
        assert(texts(out@) =~= first + tail);
    } else {
        let only = trim_chars(cs);
        if only.len() > 0 {
            out.push(string_of(only));
        }
        assert(texts(out@) =~= kept(only@));
    }
    out
}

proof fn lemma_bad_path_at(paths: Seq<Seq<char>>, i: int)
    requires
        0 <= i <= paths.len(),
        forall|k: int| 0 <= k < i ==> is_json_path(#[trigger] paths[k]),
        i < paths.len() ==> !is_json_path(paths[i]),
    ensures
        bad_path(paths) == if i < paths.len() {
            Some(paths[i])
        } else {
            None
        },
    decreases i,
{
    if i > 0 {
        assert(is_json_path(paths[0]));
        assert forall|k: int| 0 <= k < i - 1 implies is_json_path(
            #[trigger] paths.drop_first()[k],
        ) by {
            assert(is_json_path(paths[k + 1]));
        }
        lemma_bad_path_at(paths.drop_first(), i - 1);
    }
}

/// Reads one filter specification.
pub fn parse_filter(spec: &str) -> (r: Result<JsonFilter, ApiError>)
    ensures
        match r {
            Ok(f) => filter_of(spec@) == Ok::<FilterModel, Seq<char>>(f@),
            Err(e) => filter_of(spec@) == Err::<FilterModel, Seq<char>>(e.message@) && e.status
                == 400,
        },
{
    let cs = chars(spec);
    let p = find(&cs, ':');
    if p >= cs.len() {
        return Err(shape_error(spec));
    }
    let path = slice_subrange(&cs, 0, p);
    let rest = slice_subrange(&cs, p + 1, cs.len());
    assert(path@ =~= cs@.take(p as int));
    assert(rest@ =~= cs@.skip(p + 1));
    let q = find(rest, ':');
    if q >= rest.len() {
        return Err(shape_error(spec));
    }
    let op = slice_subrange(rest, 0, q);
    let value = string_of(slice_subrange(rest, q + 1, rest.len()));
    assert(op@ =~= rest@.take(q as int));
    assert(value@ =~= rest@.skip(q + 1));
    let path_text = string_of(path);
    if same_chars(op, &chars("numgte")) {
        if !spells_float(value.as_str()) {
            let mut m = owned("filter '");
            m.append(spec);
            m.append("': '");
            m.append(value.as_str());
            m.append("' is not a number for op 'numgte'");
            return Err(refuse(m));
        }
        let paths = split_fields(path);
        assert(texts(paths@).len() == paths@.len());
        if paths.len() == 0 {
            let mut m = owned("filter '");
            m.append(spec);
            m.append("': 'numgte' needs at least one path");
            return Err(refuse(m));
        }
        let mut i: usize = 0;
        while i < paths.len()
            invariant
                i <= paths@.len(),
                texts(paths@) == fields(path@),
                cs@ == spec@,
                cut(spec@, ':') == Some((path@, rest@)),
                cut(rest@, ':') == Some((op@, value@)),
                op@ == "numgte"@,
                is_float(value@),
                paths@.len() > 0,
                forall|k: int| 0 <= k < i ==> is_json_path(#[trigger] texts(paths@)[k]),
            decreases paths@.len() - i,
        {
            if !starts_with(&chars(paths[i].as_str()), "$.") {
                proof {
                    lemma_bad_path_at(texts(paths@), i as int);
                }
                return Err(bad_path_error(paths[i].as_str(), spec));
            }
            i += 1;
        }
        proof {
            lemma_bad_path_at(texts(paths@), i as int);
        }
        return Ok(JsonFilter::NumGteAny { paths, value });
    }
    let eq = same_chars(op, &chars("eq"));
    let contains = same_chars(op, &chars("contains"));
    let gte = same_chars(op, &chars("gte"));
    let lte = same_chars(op, &chars("lte"));
    if !(eq || contains || gte || lte) {
        let mut m = owned("filter '");
        m.append(spec);
        m.append("': unknown op '");
        m.append(string_of(op).as_str());
        m.append("' (eq | contains | gte | lte | numgte)");
        return Err(refuse(m));
    }
    if !starts_with(path, "$.") {
        return Err(bad_path_error(path_text.as_str(), spec));
    }
    if eq {
        Ok(JsonFilter::Eq { path: path_text, value })
    } else if contains {
        Ok(JsonFilter::Contains { path: path_text, value })
    } else if gte {
        Ok(JsonFilter::Gte { path: path_text, value })
    } else {
        Ok(JsonFilter::Lte { path: path_text, value })
    }
}

/// Parses repeatable `filter` specifications. All of them must be well formed;
/// the first that is not refuses the request.
pub fn parse_filters(specs: &[String]) -> (r: Result<Vec<JsonFilter>, ApiError>)
    ensures
        match r {
            Ok(v) => v@.len() == specs@.len() && forall|i: int|
                0 <= i < v@.len() ==> filter_of(specs@[i]@) == Ok::<FilterModel, Seq<char>>(
                    (#[trigger] v@[i])@,
                ),
            Err(e) => e.status == 400 && exists|i: int|
                0 <= i < specs@.len() && #[trigger] filter_of(specs@[i]@) == Err::<
                    FilterModel,
                    Seq<char>,
                >(e.message@) && forall|k: int|
                    0 <= k < i ==> #[trigger] filter_of(specs@[k]@) is Ok,
        },
{
    let mut out: Vec<JsonFilter> = Vec::new();
    let mut i: usize = 0;
    while i < specs.len()
        invariant
            i <= specs@.len(),
            out@.len() == i,
            forall|k: int|
                0 <= k < i ==> filter_of(specs@[k]@) == Ok::<FilterModel, Seq<char>>(
                    (#[trigger] out@[k])@,
                ),
        decreases specs@.len() - i,
    {
        match parse_filter(specs[i].as_str()) {
            Ok(f) => {
                out.push(f);
            },
            Err(e) => {
                assert forall|k: int| 0 <= k < i implies #[trigger] filter_of(
                    specs@[k]@,
                ) is Ok by {
                    assert(filter_of(specs@[k]@) == Ok::<FilterModel, Seq<char>>(out@[k]@));
                }
                return Err(e);
            },
        }
        i += 1;
    }
    Ok(out)
}

/// A value keeps its colons: whatever follows the operator is the value, in full.
pub proof fn law_values_keep_their_colons(path: Seq<char>, value: Seq<char>)
    requires
        is_json_path(path),
        forall|i: int| 0 <= i < path.len() ==> path[i] != ':',
    ensures
        filter_of(path + ":eq:"@ + value) == Ok::<FilterModel, Seq<char>>(
            FilterModel::Eq { path, value },
        ),
{
    reveal_strlit(":eq:");
    reveal_strlit("eq");
    reveal_strlit("numgte");
    let spec = path + ":eq:"@ + value;
    let n = path.len() as int;
    let rest = spec.skip(n + 1);
    assert(spec[n] == ':');
    assert forall|k: int| 0 <= k < path.len() implies spec[k] != ':' by {
        assert(spec[k] == path[k]);
    }
    lemma_position_at(spec, ':', n);
    assert(spec.take(n) =~= path);
    assert(rest[0] == 'e' && rest[1] == 'q' && rest[2] == ':') by {
        assert(rest[0] == spec[n + 1]);
        assert(rest[1] == spec[n + 2]);
        assert(rest[2] == spec[n + 3]);
    }
    lemma_position_at(rest, ':', 2);
    assert(rest.take(2) =~= "eq"@);
    assert(rest.skip(3) =~= value);
    assert("eq"@.len() != "numgte"@.len());
}

proof fn lemma_read_op(path: Seq<char>, op: Seq<char>, value: Seq<char>)
    requires
        forall|i: int| 0 <= i < path.len() ==> path[i] != ':',
        forall|i: int| 0 <= i < op.len() ==> op[i] != ':',
    ensures
        ({
            let spec = path + seq![':'] + op + seq![':'] + value;
            &&& cut(spec, ':') == Some((path, op + seq![':'] + value))
            &&& cut(op + seq![':'] + value, ':') == Some((op, value))
        }),
{
    let rest = op + seq![':'] + value;
    let spec = path + seq![':'] + op + seq![':'] + value;
    assert forall|k: int| 0 <= k < path.len() implies spec[k] != ':' by {
        assert(spec[k] == path[k]);
    }
    lemma_position_at(spec, ':', path.len() as int);
    assert(spec.take(path.len() as int) =~= path);
    assert(spec.skip(path.len() as int + 1) =~= rest);
    assert forall|k: int| 0 <= k < op.len() implies rest[k] != ':' by {
        assert(rest[k] == op[k]);
    }
    lemma_position_at(rest, ':', op.len() as int);
    assert(rest.take(op.len() as int) =~= op);
    assert(rest.skip(op.len() as int + 1) =~= value);
}

/// What a filter asks for is what its operator says of the text under its path:
/// `eq` that it is the value, `contains` that it holds it, `gte` that it does not
/// sort before it, and `lte` that it does not sort after it.
pub proof fn law_a_filter_means_its_operator(
    path: Seq<char>,
    value: Seq<char>,
    record: JsonModel,
    holds: spec_fn(Seq<char>, Seq<char>) -> bool,
    at_least: spec_fn(JsonModel, Seq<char>) -> bool,
)
    requires
        begins(path, "$."@),
        forall|i: int| 0 <= i < path.len() ==> path[i] != ':',
    ensures
        ({
            let c = seq![':'];
            &&& filter_of(path + c + "eq"@ + c + value) matches Ok(f)
            &&& satisfies(record, f, holds, at_least) <==> text_under(record, path) == Some(value)
        }),
        ({
            let c = seq![':'];
            &&& filter_of(path + c + "contains"@ + c + value) matches Ok(f)
            &&& satisfies(record, f, holds, at_least) <==> (text_under(record, path) matches Some(t)
                && holds(t, value))
        }),
        ({
            let c = seq![':'];
            &&& filter_of(path + c + "gte"@ + c + value) matches Ok(f)
            &&& satisfies(record, f, holds, at_least) <==> (text_under(record, path) matches Some(t)
                && !before(t, value))
        }),
        ({
            let c = seq![':'];
            &&& filter_of(path + c + "lte"@ + c + value) matches Ok(f)
            &&& satisfies(record, f, holds, at_least) <==> (text_under(record, path) matches Some(t)
                && !before(value, t))
        }),
{
    reveal_strlit("eq");
    reveal_strlit("contains");
    reveal_strlit("gte");
    reveal_strlit("lte");
    reveal_strlit("numgte");
    assert("gte"@[0] != "lte"@[0]);
    assert("eq"@.len() == 2 && "contains"@.len() == 8 && "gte"@.len() == 3 && "lte"@.len() == 3
        && "numgte"@.len() == 6);
    lemma_read_op(path, "eq"@, value);
    lemma_read_op(path, "contains"@, value);
    lemma_read_op(path, "gte"@, value);
    lemma_read_op(path, "lte"@, value);
}

/// The filters of a query string are the values of its `filter` parameters and no
/// other, in the order they came.
pub proof fn law_only_filter_parameters_filter(pairs: Seq<(String, String)>)
    ensures
        filter_values(pairs) == pairs.filter(|p: (String, String)| p.0@ == "filter"@).map_values(
            |p: (String, String)| p.1@,
        ),
    decreases pairs.len(),
{
    reveal(Seq::filter);
    let named = |p: (String, String)| p.0@ == "filter"@;
    if pairs.len() > 0 {
        law_only_filter_parameters_filter(pairs.drop_last());
        assert(filter_values(pairs) =~= pairs.filter(named).map_values(
            |p: (String, String)| p.1@,
        ));
    } else {
        assert(filter_values(pairs) =~= pairs.filter(named).map_values(
            |p: (String, String)| p.1@,
        ));
    }
}

/// A list of paths is split at its commas; what is blank between them is left out.
pub proof fn law_paths_are_split_at_commas(head: Seq<char>, rest: Seq<char>)
    requires
        !head.contains(','),
    ensures
        fields(head) == if trimmed(head).len() > 0 {
            seq![trimmed(head)]
        } else {
            Seq::empty()
        },
        fields(head + seq![','] + rest) == fields(head) + fields(rest),
{
    let all = head + seq![','] + rest;
    assert forall|k: int| 0 <= k < head.len() implies all[k] != ',' by {
        assert(all[k] == head[k]);
        assert(head.contains(head[k]));
    }
    lemma_position_at(all, ',', head.len() as int);
    assert(all.take(head.len() as int) =~= head);
    assert(all.skip(head.len() as int + 1) =~= rest);
    assert forall|k: int| 0 <= k < head.len() implies head[k] != ',' by {
        assert(head.contains(head[k]));
    }
    lemma_position_at(head, ',', head.len() as int);
    assert(cut(head, ',') is None);
}

proof fn lemma_bad_path(paths: Seq<Seq<char>>)
    ensures
        bad_path(paths) is None <==> forall|i: int|
            0 <= i < paths.len() ==> begins(#[trigger] paths[i], "$."@),
    decreases paths.len(),
{
    if paths.len() > 0 {
        let rest = paths.drop_first();
        lemma_bad_path(rest);
        assert(forall|i: int| 0 < i < paths.len() ==> #[trigger] paths[i] == rest[i - 1]);
        assert(forall|i: int| 0 <= i < rest.len() ==> #[trigger] rest[i] == paths[i + 1]);
    }
}

/// `numgte` asks for a number of at least the amount under any of its paths; it is
/// refused where the amount is no number, or a path is none, or there is no path.
pub proof fn law_numgte_asks_for_an_amount_under_any_path(path: Seq<char>, value: Seq<char>)
    requires
        forall|i: int| 0 <= i < path.len() ==> path[i] != ':',
    ensures
        ({
            let spec = path + seq![':'] + "numgte"@ + seq![':'] + value;
            &&& filter_of(spec) is Ok <==> is_float(value) && fields(path).len() > 0 && forall|
                i: int,
            |
                0 <= i < fields(path).len() ==> begins(#[trigger] fields(path)[i], "$."@)
            &&& filter_of(spec) matches Ok(f) ==> f == (FilterModel::NumGteAny {
                paths: fields(path),
                value,
            })
        }),
{
    reveal_strlit("numgte");
    lemma_read_op(path, "numgte"@, value);
    lemma_bad_path(fields(path));
}

/// A refused filter is quoted, and so is what is wrong with it: the path that is none,
/// the value that is no number, the operator that is not known.
pub proof fn law_a_refused_filter_is_quoted(spec: Seq<char>, what: Seq<char>)
    ensures
        begins(shape_message(spec), "filter '"@ + spec + "' must be"@),
        begins(path_message(what, spec), "filter path '"@ + what + "' must be"@),
        begins(number_message(spec, what), "filter '"@ + spec + "': '"@ + what + "' is not"@),
        begins(no_path_message(spec), "filter '"@ + spec + "': 'numgte' needs"@),
        begins(op_message(spec, what), "filter '"@ + spec + "': unknown op '"@ + what + "'"@),
{
    reveal_strlit("' must be");
    reveal_strlit("' must be '<path>:<op>:<value>' (e.g. $.state:eq:CA)");
    reveal_strlit("' must be a JSON path starting with '$.' (in '");
    reveal_strlit("' is not");
    reveal_strlit("' is not a number for op 'numgte'");
    reveal_strlit("': 'numgte' needs");
    reveal_strlit("': 'numgte' needs at least one path");
    reveal_strlit("'");
    reveal_strlit("' (eq | contains | gte | lte | numgte)");
    let a = "filter '"@ + spec;
    let b = "filter path '"@ + what;
    let c = "filter '"@ + spec + "': '"@ + what;
    let d = "filter '"@ + spec + "': unknown op '"@ + what;
    assert(shape_message(spec).take((a + "' must be"@).len() as int) =~= a + "' must be"@);
    assert(path_message(what, spec).take((b + "' must be"@).len() as int) =~= b + "' must be"@);
    assert(number_message(spec, what).take((c + "' is not"@).len() as int) =~= c + "' is not"@);
    assert(no_path_message(spec).take((a + "': 'numgte' needs"@).len() as int) =~= a
        + "': 'numgte' needs"@);
    assert(op_message(spec, what).take((d + "'"@).len() as int) =~= d + "'"@);
}

} // verus!
