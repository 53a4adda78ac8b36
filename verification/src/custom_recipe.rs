//! The recipe format of other namespaces: named input and output slots, each holding
//! an id (`#` marks a tag), a list of ids, or an object with `id` and `count`.
//! Slots are emitted in the order of their names, inputs first.
use vstd::prelude::*;
use crate::fields::{
    Failure, decode_text, earlier, earlier_failure, failure, failure_view, lemma_text_items_err,
    spec_text, spec_text_items, texts_view,
};
use crate::ingredient::{StubRecipeIngredient, StubView, stub_views};
use crate::json::{
    DecodeError, DecodeErrorView, JsonValue, PathSegmentView, err_invalid_type, err_missing,
    err_under_index, err_under_key, invalid_type, lookup, lookup_index, under,
};
use crate::recipe::{
    RecipeErrorView, RecipeParseError, RecipeView, StubRecipe, count_field, keyed, missing,
    outcome_view,
};
use crate::fields::decode_i32;
use crate::resloc::{DEFAULT_NAMESPACE, ResourceLocation};
use crate::text::{char_vec, owned, seq_lt, str_eq, str_lt, string_of_range};

verus! {

/// The content of one slot.
#[derive(Debug, Clone)]
pub enum CustomIngredient {
    Single { id: String, count: i32 },
    Many { ids: Vec<String>, count: i32 },
}

pub enum CustomView {
    Single(Seq<char>, i32),
    Many(Seq<Seq<char>>, i32),
}

impl View for CustomIngredient {
    type V = CustomView;

    open spec fn view(&self) -> CustomView {
        match self {
            CustomIngredient::Single { id, count } => CustomView::Single(id@, *count),
            CustomIngredient::Many { ids, count } => CustomView::Many(texts_view(ids@), *count),
        }
    }
}

/// The `id` of a slot object: one id or a list of ids.
pub enum IdField {
    One(String),
    Many(Vec<String>),
}

pub enum IdView {
    One(Seq<char>),
    Many(Seq<Seq<char>>),
}

impl View for IdField {
    type V = IdView;

    open spec fn view(&self) -> IdView {
        match self {
            IdField::One(s) => IdView::One(s@),
            IdField::Many(l) => IdView::Many(texts_view(l@)),
        }
    }
}

pub open spec fn spec_id_field(v: JsonValue) -> Result<IdView, DecodeErrorView> {
    match v {
        JsonValue::String(s) => Ok(IdView::One(s@)),
        JsonValue::Array(xs) => match spec_text_items(xs@) {
            Ok(l) => Ok(IdView::Many(l)),
            Err(e) => Err(e),
        },
        _ => Err(invalid_type(v, "an id string or a list of id strings"@)),
    }
}

pub open spec fn id_field(m: Seq<(String, JsonValue)>, name: Seq<char>) -> Option<
    Result<IdView, DecodeErrorView>,
> {
    match lookup(m, name) {
        Some(i) => Some(keyed(name, spec_id_field(m[i].1))),
        None => None,
    }
}

pub open spec fn custom_expected() -> Seq<char> {
    "an id string, a list of id strings, or an object with an 'id' field and an optional 'count'"@
}

/// The content of a slot: an id, a list of ids, or an object with `id` and `count`
/// (1 unless given).
pub open spec fn spec_custom_ingredient(v: JsonValue) -> Result<CustomView, DecodeErrorView> {
    match v {
        JsonValue::String(s) => Ok(CustomView::Single(s@, 1i32)),
        JsonValue::Array(xs) => match spec_text_items(xs@) {
            Ok(l) => Ok(CustomView::Many(l, 1i32)),
            Err(e) => Err(e),
        },
        JsonValue::Object(m) => spec_custom_object(m@),
        _ => Err(invalid_type(v, custom_expected())),
    }
}

pub open spec fn spec_custom_object(m: Seq<(String, JsonValue)>) -> Result<
    CustomView,
    DecodeErrorView,
> {
    let idf = id_field(m, "id"@);
    let cf = count_field(m, "count"@);
    match earlier(failure(lookup(m, "id"@), idf), failure(lookup(m, "count"@), cf)) {
        Some(f) => Err(f.1),
        None => {
            let c = match cf {
                Some(Ok(c)) => c,
                _ => 1i32,
            };
            match idf {
                Some(Ok(IdView::One(s))) => Ok(CustomView::Single(s, c)),
                Some(Ok(IdView::Many(l))) => Ok(CustomView::Many(l, c)),
                _ => missing("id"@),
            }
        },
    }
}

/// `s` with the slot `k` set to `v`: replaced where `k` is, else inserted before the
/// first greater name.
pub open spec fn insert_slot(s: Seq<(Seq<char>, CustomView)>, k: Seq<char>, v: CustomView) -> Seq<
    (Seq<char>, CustomView),
>
    decreases s.len(),
{
    if s.len() == 0 {
        seq![(k, v)]
    } else if s[0].0 == k {
        s.update(0, (k, v))
    } else if seq_lt(k, s[0].0) {
        seq![(k, v)] + s
    } else {
        seq![s[0]] + insert_slot(s.drop_first(), k, v)
    }
}

/// The slots of a slot map, in name order; a name given twice keeps its last content.
pub open spec fn spec_slot_entries(m: Seq<(String, JsonValue)>) -> Result<
    Seq<(Seq<char>, CustomView)>,
    DecodeErrorView,
>
    decreases m.len(),
{
    if m.len() == 0 {
        Ok(Seq::empty())
    } else {
        match spec_slot_entries(m.drop_last()) {
            Err(e) => Err(e),
            Ok(p) => match spec_custom_ingredient(m.last().1) {
                Err(e) => Err(under(PathSegmentView::Key(m.last().0@), e)),
                Ok(c) => Ok(insert_slot(p, m.last().0@, c)),
            },
        }
    }
}

pub open spec fn spec_slot_map(v: JsonValue) -> Result<Seq<(Seq<char>, CustomView)>, DecodeErrorView> {
    match v {
        JsonValue::Object(m) => spec_slot_entries(m@),
        _ => Err(invalid_type(v, "a map"@)),
    }
}

pub open spec fn slot_map_field(m: Seq<(String, JsonValue)>, name: Seq<char>) -> Option<
    Result<Seq<(Seq<char>, CustomView)>, DecodeErrorView>,
> {
    match lookup(m, name) {
        Some(i) => Some(keyed(name, spec_slot_map(m[i].1))),
        None => None,
    }
}

/// The input and output slots of a custom recipe (each empty when absent).
pub open spec fn spec_custom_fields(m: Seq<(String, JsonValue)>) -> Result<
    (Seq<(Seq<char>, CustomView)>, Seq<(Seq<char>, CustomView)>),
    DecodeErrorView,
> {
    let inf = slot_map_field(m, "input"@);
    let outf = slot_map_field(m, "output"@);
    match earlier(failure(lookup(m, "input"@), inf), failure(lookup(m, "output"@), outf)) {
        Some(f) => Err(f.1),
        None => Ok(
            (
                match inf {
                    Some(Ok(x)) => x,
                    _ => Seq::empty(),
                },
                match outf {
                    Some(Ok(x)) => x,
                    _ => Seq::empty(),
                },
            ),
        ),
    }
}

/// The stored entry of one id in a slot: a leading `#` makes it a tag.
pub open spec fn custom_stub(slot: Seq<char>, input: bool, id: Seq<char>, count: i32) -> StubView {
    if id.len() > 0 && id[0] == '#' {
        StubView { item_id: id.subrange(1, id.len() as int), slot, count, input, is_tag: true }
    } else {
        StubView { item_id: id, slot, count, input, is_tag: false }
    }
}

pub open spec fn slot_stubs(slot: Seq<char>, input: bool, c: CustomView) -> Seq<StubView> {
    match c {
        CustomView::Single(id, n) => seq![custom_stub(slot, input, id, n)],
        CustomView::Many(ids, n) => ids.map_values(|id: Seq<char>| custom_stub(slot, input, id, n)),
    }
}

pub open spec fn slots_stubs(s: Seq<(Seq<char>, CustomView)>, input: bool) -> Seq<StubView>
    decreases s.len(),
{
    if s.len() == 0 {
        Seq::empty()
    } else {
        slots_stubs(s.drop_last(), input) + slot_stubs(s.last().0, input, s.last().1)
    }
}

/// A custom recipe of type `t` with fields `m`: its input slots, then its output slots.
pub open spec fn spec_custom(id: Seq<char>, t: Seq<char>, m: Seq<(String, JsonValue)>) -> Result<
    Option<RecipeView>,
    RecipeErrorView,
> {
    match spec_custom_fields(m) {
        Err(e) => Err(RecipeErrorView::InvalidJsonPath(e)),
        Ok((i, o)) => Ok(
            Some(
                RecipeView {
                    id,
                    recipe_type: t,
                    ingredients: slots_stubs(i, true) + slots_stubs(o, false),
                },
            ),
        ),
    }
}

// ----- laws of the slot order -----

/// The slot names strictly increase.
pub open spec fn slots_sorted(s: Seq<(Seq<char>, CustomView)>) -> bool {
    forall|i: int, j: int| 0 <= i < j < s.len() ==> seq_lt(#[trigger] s[i].0, #[trigger] s[j].0)
}

/// The content of slot `k`, if it is there.
pub open spec fn slot_of(s: Seq<(Seq<char>, CustomView)>, k: Seq<char>) -> Option<CustomView>
    decreases s.len(),
{
    if s.len() == 0 {
        None
    } else if s[0].0 == k {
        Some(s[0].1)
    } else {
        slot_of(s.drop_first(), k)
    }
}

pub proof fn lemma_seq_lt_irreflexive(a: Seq<char>)
    ensures
        !seq_lt(a, a),
    decreases a.len(),
{
    if a.len() > 0 {
        lemma_seq_lt_irreflexive(a.drop_first());
    }
}

pub proof fn lemma_seq_lt_transitive(a: Seq<char>, b: Seq<char>, c: Seq<char>)
    requires
        seq_lt(a, b),
        seq_lt(b, c),
    ensures
        seq_lt(a, c),
    decreases a.len(),
{
    if a.len() > 0 && b.len() > 0 && c.len() > 0 && a[0] == b[0] && b[0] == c[0] {
        lemma_seq_lt_transitive(a.drop_first(), b.drop_first(), c.drop_first());
    }
}

pub proof fn lemma_seq_lt_total(a: Seq<char>, b: Seq<char>)
    requires
        a != b,
    ensures
        seq_lt(a, b) || seq_lt(b, a),
    decreases a.len(),
{
    if a.len() > 0 && b.len() > 0 && a[0] == b[0] {
        if a.drop_first() == b.drop_first() {
            assert(a =~= seq![a[0]] + a.drop_first());
            assert(b =~= seq![b[0]] + b.drop_first());
        }
        lemma_seq_lt_total(a.drop_first(), b.drop_first());
    } else if a.len() == 0 && b.len() == 0 {
        assert(a =~= b);
    }
}

/// In a sorted sequence, a name smaller than the first is nowhere.
proof fn lemma_slot_of_absent(s: Seq<(Seq<char>, CustomView)>, k: Seq<char>)
    requires
        slots_sorted(s),
        s.len() > 0,
        seq_lt(k, s[0].0),
    ensures
        slot_of(s, k) is None,
    decreases s.len(),
{
    lemma_seq_lt_irreflexive(k);
    assert(s[0].0 != k);
    if s.len() == 1 {
        assert(s.drop_first().len() == 0);
        assert(slot_of(s.drop_first(), k) is None);
    } else {
        assert(seq_lt(s[0].0, s[1].0));
        lemma_seq_lt_transitive(k, s[0].0, s[1].0);
        assert(slots_sorted(s.drop_first())) by {
            assert forall|i: int, j: int| 0 <= i < j < s.drop_first().len() implies seq_lt(
                #[trigger] s.drop_first()[i].0,
                #[trigger] s.drop_first()[j].0,
            ) by {
                assert(s.drop_first()[i] == s[i + 1]);
                assert(s.drop_first()[j] == s[j + 1]);
            }
        }
        lemma_slot_of_absent(s.drop_first(), k);
    }
}

/// Law: setting a slot keeps the names sorted, gives that slot its new content, and
/// leaves every other slot as it was.
pub proof fn lemma_insert_slot(s: Seq<(Seq<char>, CustomView)>, k: Seq<char>, v: CustomView)
    requires
        slots_sorted(s),
    ensures
        slots_sorted(insert_slot(s, k, v)),
        forall|k2: Seq<char>|
            #[trigger] slot_of(insert_slot(s, k, v), k2) == if k2 == k {
                Some(v)
            } else {
                slot_of(s, k2)
            },
    decreases s.len(),
{
    let r = insert_slot(s, k, v);
    if s.len() == 0 {
        assert forall|k2: Seq<char>| #[trigger] slot_of(r, k2) == if k2 == k {
            Some(v)
        } else {
            slot_of(s, k2)
        } by {
            assert(r.drop_first().len() == 0);
            assert(slot_of(r.drop_first(), k2) is None);
            assert(slot_of(s, k2) is None);
        }
    } else if s[0].0 == k {
        assert(slots_sorted(r)) by {
            assert forall|i: int, j: int| 0 <= i < j < r.len() implies seq_lt(
                #[trigger] r[i].0,
                #[trigger] r[j].0,
            ) by {
                assert(s[i].0 == r[i].0);
                assert(s[j].0 == r[j].0);
            }
        }
        assert(r.drop_first() =~= s.drop_first());
    } else if seq_lt(k, s[0].0) {
        assert(slots_sorted(r)) by {
            assert forall|i: int, j: int| 0 <= i < j < r.len() implies seq_lt(
                #[trigger] r[i].0,
                #[trigger] r[j].0,
            ) by {
                if i == 0 {
                    if j > 1 {
                        assert(seq_lt(s[0].0, s[j - 1].0));
                        lemma_seq_lt_transitive(k, s[0].0, s[j - 1].0);
                    }
                } else {
                    assert(r[i] == s[i - 1]);
                    assert(r[j] == s[j - 1]);
                }
            }
        }
        assert(r.drop_first() =~= s);
        assert forall|k2: Seq<char>| #[trigger] slot_of(r, k2) == if k2 == k {
            Some(v)
        } else {
            slot_of(s, k2)
        } by {
            if k2 == k {
            } else {
            }
        }
        lemma_slot_of_absent(s, k);
    } else {
        let tail = s.drop_first();
        assert(slots_sorted(tail)) by {
            assert forall|i: int, j: int| 0 <= i < j < tail.len() implies seq_lt(
                #[trigger] tail[i].0,
                #[trigger] tail[j].0,
            ) by {
                assert(tail[i] == s[i + 1]);
                assert(tail[j] == s[j + 1]);
            }
        }
        lemma_insert_slot(tail, k, v);
        let rt = insert_slot(tail, k, v);
        assert(r == seq![s[0]] + rt);
        assert(r.drop_first() =~= rt);
        lemma_seq_lt_total(k, s[0].0);
        assert(seq_lt(s[0].0, k));
        // every name of the new tail is greater than the first name
        assert forall|j: int| 0 <= j < rt.len() implies seq_lt(s[0].0, #[trigger] rt[j].0) by {
            if rt[j].0 == k {
            } else {
                lemma_insert_slot_names(tail, k, v, j);
                let w = choose|t: int| 0 <= t < tail.len() && tail[t].0 == rt[j].0;
                assert(tail[w] == s[w + 1]);
                assert(seq_lt(s[0].0, s[w + 1].0));
            }
        }
        assert(slots_sorted(r)) by {
            assert forall|i: int, j: int| 0 <= i < j < r.len() implies seq_lt(
                #[trigger] r[i].0,
                #[trigger] r[j].0,
            ) by {
                if i == 0 {
                    assert(r[j] == rt[j - 1]);
                } else {
                    assert(r[i] == rt[i - 1]);
                    assert(r[j] == rt[j - 1]);
                }
            }
        }
        assert forall|k2: Seq<char>| #[trigger] slot_of(r, k2) == if k2 == k {
            Some(v)
        } else {
            slot_of(s, k2)
        } by {
            if k2 == s[0].0 {
                lemma_seq_lt_irreflexive(k);
                assert(r[0] == s[0]);
            } else {
                assert(slot_of(r, k2) == slot_of(rt, k2));
                assert(slot_of(s, k2) == slot_of(tail, k2));
            }
        }
    }
}

/// Every name in `insert_slot(s, k, v)` is `k` or a name of `s`.
proof fn lemma_insert_slot_names(s: Seq<(Seq<char>, CustomView)>, k: Seq<char>, v: CustomView, j: int)
    requires
        0 <= j < insert_slot(s, k, v).len(),
    ensures
        insert_slot(s, k, v)[j].0 == k || exists|t: int|
            0 <= t < s.len() && s[t].0 == #[trigger] insert_slot(s, k, v)[j].0,
    decreases s.len(),
{
    let r = insert_slot(s, k, v);
    if s.len() == 0 {
    } else if s[0].0 == k {
        if j > 0 {
            assert(s[j].0 == r[j].0);
        }
    } else if seq_lt(k, s[0].0) {
        if j > 0 {
            assert(r[j] == s[j - 1]);
        }
    } else {
        if j > 0 {
            let tail = s.drop_first();
            assert(r[j] == insert_slot(tail, k, v)[j - 1]);
            lemma_insert_slot_names(tail, k, v, j - 1);
            if insert_slot(tail, k, v)[j - 1].0 != k {
                let w = choose|t: int|
                    0 <= t < tail.len() && tail[t].0 == #[trigger] insert_slot(tail, k, v)[j - 1].0;
                assert(tail[w] == s[w + 1]);
            }
        }
    }
}

/// Law: the decoded slots are sorted by name.
pub proof fn lemma_slot_entries_sorted(m: Seq<(String, JsonValue)>)
    requires
        spec_slot_entries(m) is Ok,
    ensures
        slots_sorted(spec_slot_entries(m)->Ok_0),
    decreases m.len(),
{
    if m.len() > 0 {
        lemma_slot_entries_sorted(m.drop_last());
        let p = spec_slot_entries(m.drop_last())->Ok_0;
        match spec_custom_ingredient(m.last().1) {
            Ok(c) => {
                lemma_insert_slot(p, m.last().0@, c);
            },
            Err(_) => {},
        }
    }
}

// ----- exec -----

pub open spec fn slot_views(s: Seq<(String, CustomIngredient)>) -> Seq<(Seq<char>, CustomView)> {
    s.map_values(|p: (String, CustomIngredient)| (p.0@, p.1@))
}

fn decode_ids(xs: &Vec<JsonValue>) -> (r: Result<Vec<String>, DecodeError>)
    ensures
        match r {
            Ok(l) => spec_text_items(xs@) == Ok::<_, DecodeErrorView>(texts_view(l@)),
            Err(e) => spec_text_items(xs@) == Err::<Seq<Seq<char>>, _>(e@),
        },
{
    let mut out: Vec<String> = Vec::new();
    let mut i: usize = 0;
    assert(xs@.subrange(0, 0) =~= Seq::<JsonValue>::empty());
    assert(texts_view(out@) =~= Seq::<Seq<char>>::empty());
    while i < xs.len()
        invariant
            i <= xs@.len(),
            spec_text_items(xs@.subrange(0, i as int)) == Ok::<_, DecodeErrorView>(
                texts_view(out@),
            ),
        decreases xs@.len() - i,
    {
        let ghost nxt = xs@.subrange(0, i + 1);
        assert(nxt.drop_last() =~= xs@.subrange(0, i as int));
        assert(nxt.last() == xs@[i as int]);
        let ghost prev = texts_view(out@);
        match decode_text(&xs[i]) {
            Err(e) => {
                let r = err_under_index(i, e);
                assert(spec_text_items(nxt) == Err::<Seq<Seq<char>>, _>(r@));
                proof {
                    lemma_text_items_err(xs@, i + 1);
                }
                return Err(r);
            },
            Ok(s) => {
                let ghost sv = s@;
                out.push(s);
                assert(texts_view(out@) =~= prev.push(sv));
                assert(spec_text_items(nxt) == Ok::<_, DecodeErrorView>(prev.push(sv)));
            },
        }
        i = i + 1;
    }
    assert(xs@.subrange(0, xs@.len() as int) =~= xs@);
    Ok(out)
}

fn decode_id_field(v: &JsonValue) -> (r: Result<IdField, DecodeError>)
    ensures
        match r {
            Ok(x) => spec_id_field(*v) == Ok::<_, DecodeErrorView>(x@),
            Err(e) => spec_id_field(*v) == Err::<IdView, _>(e@),
        },
{
    match v {
        JsonValue::String(s) => Ok(IdField::One(s.clone())),
        JsonValue::Array(xs) => match decode_ids(xs) {
            Ok(l) => Ok(IdField::Many(l)),
            Err(e) => Err(e),
        },
        _ => Err(err_invalid_type(v, "an id string or a list of id strings")),
    }
}

fn id_at(m: &Vec<(String, JsonValue)>, name: &str) -> (out: (Option<Failure>, Option<IdField>))
    ensures
        failure_view(out.0) == failure(lookup(m@, name@), id_field(m@, name@)),
        match id_field(m@, name@) {
            Some(Ok(x)) => out.1 matches Some(f) && f@ == x,
            _ => out.1 is None,
        },
{
    match lookup_index(m, name) {
        None => (None, None),
        Some(i) => match decode_id_field(&m[i].1) {
            Ok(f) => (None, Some(f)),
            Err(e) => (Some(Failure { pos: i, error: err_under_key(name, e) }), None),
        },
    }
}

fn count_of(m: &Vec<(String, JsonValue)>, name: &str) -> (out: (Option<Failure>, Option<i32>))
    ensures
        failure_view(out.0) == failure(lookup(m@, name@), count_field(m@, name@)),
        match count_field(m@, name@) {
            Some(Ok(x)) => out.1 == Some(x),
            _ => out.1 is None,
        },
{
    match lookup_index(m, name) {
        None => (None, None),
        Some(i) => match decode_i32(&m[i].1) {
            Ok(n) => (None, Some(n)),
            Err(e) => (Some(Failure { pos: i, error: err_under_key(name, e) }), None),
        },
    }
}

/// Decodes the content of one slot.
pub fn decode_custom_ingredient(v: &JsonValue) -> (r: Result<CustomIngredient, DecodeError>)
    ensures
        match r {
            Ok(c) => spec_custom_ingredient(*v) == Ok::<_, DecodeErrorView>(c@),
            Err(e) => spec_custom_ingredient(*v) == Err::<CustomView, _>(e@),
        },
{
    match v {
        JsonValue::String(s) => Ok(CustomIngredient::Single { id: s.clone(), count: 1 }),
        JsonValue::Array(xs) => match decode_ids(xs) {
            Ok(ids) => Ok(CustomIngredient::Many { ids, count: 1 }),
            Err(e) => Err(e),
        },
        JsonValue::Object(m) => {
            let (idf, idv) = id_at(m, "id");
            let (cf, cv) = count_of(m, "count");
            match earlier_failure(idf, cf) {
                Some(f) => Err(f.error),
                None => {
                    let count = match cv {
                        Some(c) => c,
                        None => 1,
                    };
                    match idv {
                        Some(IdField::One(id)) => Ok(CustomIngredient::Single { id, count }),
                        Some(IdField::Many(ids)) => Ok(CustomIngredient::Many { ids, count }),
                        None => Err(err_missing("id")),
                    }
                },
            }
        },
        _ => Err(
            err_invalid_type(
                v,
                "an id string, a list of id strings, or an object with an 'id' field and an optional 'count'",
            ),
        ),
    }
}

/// Sets slot `k` to `v` in the sorted slots `s`.
pub fn set_slot(s: &mut Vec<(String, CustomIngredient)>, k: String, v: CustomIngredient)
    ensures
        slot_views(final(s)@) == insert_slot(slot_views(old(s)@), k@, v@),
{
    let ghost sv = slot_views(s@);
    let ghost kv = k@;
    let ghost vv = v@;
    let kc = char_vec(k.as_str());
    let mut i: usize = 0;
    assert(sv.subrange(0, 0) + insert_slot(sv.subrange(0, sv.len() as int), kv, vv) =~= insert_slot(
        sv,
        kv,
        vv,
    )) by {
        assert(sv.subrange(0, sv.len() as int) =~= sv);
    }
    while i < s.len()
        invariant
            sv == slot_views(s@),
            kv == k@,
            kc@ == k@,
            vv == v@,
            sv == slot_views(old(s)@),
            i <= s@.len(),
            sv.subrange(0, i as int) + insert_slot(sv.subrange(i as int, sv.len() as int), kv, vv)
                == insert_slot(sv, kv, vv),
        decreases s@.len() - i,
    {
        let ghost tail = sv.subrange(i as int, sv.len() as int);
        assert(tail[0] == sv[i as int]);
        if str_eq(s[i].0.as_str(), k.as_str()) {
            s.set(i, (k, v));
            assert(slot_views(s@) =~= sv.subrange(0, i as int) + tail.update(0, (kv, vv)));
            return;
        }
        let sc = char_vec(s[i].0.as_str());
        if str_lt(kc.as_slice(), sc.as_slice()) {
            s.insert(i, (k, v));
            assert(slot_views(s@) =~= sv.subrange(0, i as int) + (seq![(kv, vv)] + tail));
            return;
        }
        assert(tail.drop_first() =~= sv.subrange(i + 1, sv.len() as int));
        assert(sv.subrange(0, i + 1) =~= sv.subrange(0, i as int) + seq![tail[0]]);
        i = i + 1;
    }
    s.push((k, v));
    assert(slot_views(s@) =~= sv + seq![(kv, vv)]);
    assert(sv.subrange(0, sv.len() as int) =~= sv);
}

pub proof fn lemma_slot_entries_err(m: Seq<(String, JsonValue)>, n: int)
    requires
        0 <= n <= m.len(),
        spec_slot_entries(m.subrange(0, n)) is Err,
    ensures
        spec_slot_entries(m) == spec_slot_entries(m.subrange(0, n)),
    decreases m.len() - n,
{
    if n < m.len() {
        assert(m.subrange(0, n + 1).drop_last() =~= m.subrange(0, n));
        lemma_slot_entries_err(m, n + 1);
    } else {
        assert(m.subrange(0, n) =~= m);
    }
}

/// Decodes a slot map into slots sorted by name.
pub fn decode_slot_map(v: &JsonValue) -> (r: Result<Vec<(String, CustomIngredient)>, DecodeError>)
    ensures
        match r {
            Ok(s) => spec_slot_map(*v) == Ok::<_, DecodeErrorView>(slot_views(s@)),
            Err(e) => spec_slot_map(*v) == Err::<Seq<(Seq<char>, CustomView)>, _>(e@),
        },
{
    match v {
        JsonValue::Object(m) => {
            let mut out: Vec<(String, CustomIngredient)> = Vec::new();
            let mut i: usize = 0;
            assert(m@.subrange(0, 0) =~= Seq::<(String, JsonValue)>::empty());
            assert(slot_views(out@) =~= Seq::<(Seq<char>, CustomView)>::empty());
            while i < m.len()
                invariant
                    *v == JsonValue::Object(*m),
                    i <= m@.len(),
                    spec_slot_entries(m@.subrange(0, i as int)) == Ok::<_, DecodeErrorView>(
                        slot_views(out@),
                    ),
                decreases m@.len() - i,
            {
                let ghost nxt = m@.subrange(0, i + 1);
                assert(nxt.drop_last() =~= m@.subrange(0, i as int));
                assert(nxt.last() == m@[i as int]);
                match decode_custom_ingredient(&m[i].1) {
                    Err(e) => {
                        let r = err_under_key(m[i].0.as_str(), e);
                        assert(spec_slot_entries(nxt) == Err::<
                            Seq<(Seq<char>, CustomView)>,
                            _,
                        >(r@));
                        proof {
                            lemma_slot_entries_err(m@, i + 1);
                        }
                        return Err(r);
                    },
                    Ok(c) => {
                        set_slot(&mut out, m[i].0.clone(), c);
                    },
                }
                i = i + 1;
            }
            assert(m@.subrange(0, m@.len() as int) =~= m@);
            Ok(out)
        },
        _ => Err(err_invalid_type(v, "a map")),
    }
}

fn slot_map_at(m: &Vec<(String, JsonValue)>, name: &str) -> (out: (
    Option<Failure>,
    Option<Vec<(String, CustomIngredient)>>,
))
    ensures
        failure_view(out.0) == failure(lookup(m@, name@), slot_map_field(m@, name@)),
        match slot_map_field(m@, name@) {
            Some(Ok(x)) => out.1 matches Some(s) && slot_views(s@) == x,
            _ => out.1 is None,
        },
{
    match lookup_index(m, name) {
        None => (None, None),
        Some(i) => match decode_slot_map(&m[i].1) {
            Ok(s) => (None, Some(s)),
            Err(e) => (Some(Failure { pos: i, error: err_under_key(name, e) }), None),
        },
    }
}

/// The stored entry of one id in a slot.
pub fn single(slot: &str, input: bool, id: &str, count: i32) -> (r: StubRecipeIngredient)
    ensures
        r@ == custom_stub(slot@, input, id@, count),
{
    let cs = char_vec(id);
    if cs.len() > 0 && cs[0] == '#' {
        StubRecipeIngredient {
            item_id: string_of_range(cs.as_slice(), 1, cs.len()),
            slot: owned(slot),
            count,
            input,
            is_tag: true,
        }
    } else {
        StubRecipeIngredient { item_id: owned(id), slot: owned(slot), count, input, is_tag: false }
    }
}

/// Appends the entries of one slot.
fn extend_ingredients(out: &mut Vec<StubRecipeIngredient>, slot: &str, input: bool, c: &CustomIngredient)
    ensures
        stub_views(final(out)@) == stub_views(old(out)@) + slot_stubs(slot@, input, c@),
{
    let ghost start = stub_views(out@);
    match c {
        CustomIngredient::Single { id, count } => {
            out.push(single(slot, input, id.as_str(), *count));
            assert(stub_views(out@) =~= start + slot_stubs(slot@, input, c@));
        },
        CustomIngredient::Many { ids, count } => {
            let ghost iv = texts_view(ids@);
            let mut j: usize = 0;
            assert(start + Seq::<StubView>::empty() =~= start);
            while j < ids.len()
                invariant
                    iv == texts_view(ids@),
                    j <= ids@.len(),
                    stub_views(out@) == start + iv.subrange(0, j as int).map_values(
                        |id: Seq<char>| custom_stub(slot@, input, id, *count),
                    ),
                decreases ids@.len() - j,
            {
                let ghost prev = stub_views(out@);
                out.push(single(slot, input, ids[j].as_str(), *count));
                assert(stub_views(out@) =~= prev.push(custom_stub(slot@, input, iv[j as int], *count)));
                assert(iv.subrange(0, j + 1).map_values(
                    |id: Seq<char>| custom_stub(slot@, input, id, *count),
                ) =~= iv.subrange(0, j as int).map_values(
                    |id: Seq<char>| custom_stub(slot@, input, id, *count),
                ).push(custom_stub(slot@, input, iv[j as int], *count)));
                j = j + 1;
            }
            assert(iv.subrange(0, ids@.len() as int) =~= iv);
        },
    }
}

/// Appends the entries of all slots, in order.
fn extend_slots(out: &mut Vec<StubRecipeIngredient>, s: &Vec<(String, CustomIngredient)>, input: bool)
    ensures
        stub_views(final(out)@) == stub_views(old(out)@) + slots_stubs(slot_views(s@), input),
{
    let ghost start = stub_views(out@);
    let ghost sv = slot_views(s@);
    let mut i: usize = 0;
    assert(sv.subrange(0, 0) =~= Seq::<(Seq<char>, CustomView)>::empty());
    assert(start + Seq::<StubView>::empty() =~= start);
    while i < s.len()
        invariant
            sv == slot_views(s@),
            i <= s@.len(),
            stub_views(out@) == start + slots_stubs(sv.subrange(0, i as int), input),
        decreases s@.len() - i,
    {
        let ghost nxt = sv.subrange(0, i + 1);
        assert(nxt.drop_last() =~= sv.subrange(0, i as int));
        assert(nxt.last() == sv[i as int]);
        let ghost prev = stub_views(out@);
        extend_ingredients(out, s[i].0.as_str(), input, &s[i].1);
        assert(stub_views(out@) =~= start + slots_stubs(nxt, input));
        i = i + 1;
    }
    assert(sv.subrange(0, s@.len() as int) =~= sv);
}

/// Reads the recipes of every namespace but `minecraft`.
pub struct CustomRecipeParser;

impl CustomRecipeParser {
    /// Whether this parser reads recipes whose type lies in `loc`'s namespace.
    pub fn handles(&self, loc: &ResourceLocation) -> (r: bool)
        ensures
            r == (loc.namespace@ != DEFAULT_NAMESPACE@),
    {
        !str_eq(loc.namespace.as_str(), DEFAULT_NAMESPACE)
    }

    /// Reads a custom recipe of type `recipe_type` whose fields are `m`.
    pub fn parse(&self, id: &str, recipe_type: &str, m: &Vec<(String, JsonValue)>) -> (r: Result<
        Option<StubRecipe>,
        RecipeParseError,
    >)
        ensures
            outcome_view(r) == spec_custom(id@, recipe_type@, m@),
    {
        let (inf, inv) = slot_map_at(m, "input");
        let (outf, outv) = slot_map_at(m, "output");
        match earlier_failure(inf, outf) {
            Some(f) => Err(RecipeParseError::InvalidJsonPath(f.error)),
            None => {
                let mut ingredients: Vec<StubRecipeIngredient> = Vec::new();
                assert(stub_views(ingredients@) =~= Seq::<StubView>::empty());
                match inv {
                    Some(s) => extend_slots(&mut ingredients, &s, true),
                    None => {
                        assert(slots_stubs(Seq::<(Seq<char>, CustomView)>::empty(), true)
                            =~= Seq::<StubView>::empty());
                    },
                }
                let ghost mid = stub_views(ingredients@);
                match outv {
                    Some(s) => extend_slots(&mut ingredients, &s, false),
                    None => {
                        assert(mid + slots_stubs(Seq::<(Seq<char>, CustomView)>::empty(), false)
                            =~= mid);
                    },
                }
                Ok(
                    Some(
                        StubRecipe {
                            id: owned(id),
                            recipe_type: owned(recipe_type),
                            ingredients,
                        },
                    ),
                )
            },
        }
    }
}

} // verus!
