//! Recipe ingredients: references to an item or to a tag, written as a string, as an
//! object, as a list, or in one of the loaders' own forms (compound, difference, ...),
//! all of which reduce to a flat list of item and tag references.
use vstd::prelude::*;
use crate::json::{
    DecodeError, DecodeErrorKind, DecodeErrorKindView, DecodeErrorView, JsonValue, PathSegmentView,
    err_here, err_invalid_type, err_missing, err_under_index, here, invalid_type, lookup,
    lookup_index, lookup_str, lookup_string, lemma_lookup_bounds, under,
};
use crate::text::{char_vec, owned, str_eq, string_of_range};

verus! {

/// One ingredient: an item id, or a tag id (without its `#`).
#[derive(Debug, Clone, PartialEq, Eq)]
pub enum VanillaIngredient {
    Item(String),
    Tag(String),
}

pub enum IngredientView {
    Item(Seq<char>),
    Tag(Seq<char>),
}

impl View for VanillaIngredient {
    type V = IngredientView;

    open spec fn view(&self) -> IngredientView {
        match self {
            VanillaIngredient::Item(s) => IngredientView::Item(s@),
            VanillaIngredient::Tag(s) => IngredientView::Tag(s@),
        }
    }
}

/// The flat list of alternatives that one ingredient position accepts.
#[derive(Debug, Clone)]
pub struct VanillaIngredientList(pub Vec<VanillaIngredient>);

/// One entry of a recipe as stored: an item or tag in a slot, with a count,
/// on the input or the output side.
#[derive(Debug, Clone, PartialEq, Eq)]
pub struct StubRecipeIngredient {
    pub item_id: String,
    pub slot: String,
    pub count: i32,
    pub input: bool,
    pub is_tag: bool,
}

pub struct StubView {
    pub item_id: Seq<char>,
    pub slot: Seq<char>,
    pub count: i32,
    pub input: bool,
    pub is_tag: bool,
}

impl View for StubRecipeIngredient {
    type V = StubView;

    open spec fn view(&self) -> StubView {
        StubView {
            item_id: self.item_id@,
            slot: self.slot@,
            count: self.count,
            input: self.input,
            is_tag: self.is_tag,
        }
    }
}

pub open spec fn stub_views(s: Seq<StubRecipeIngredient>) -> Seq<StubView> {
    s.map_values(|x: StubRecipeIngredient| x@)
}

/// The stored entry for an ingredient.
pub open spec fn stub_of(i: IngredientView, slot: Seq<char>, count: i32, input: bool) -> StubView {
    match i {
        IngredientView::Item(id) => StubView { item_id: id, slot, count, input, is_tag: false },
        IngredientView::Tag(id) => StubView { item_id: id, slot, count, input, is_tag: true },
    }
}

pub open spec fn views(l: Seq<VanillaIngredient>) -> Seq<IngredientView> {
    l.map_values(|i: VanillaIngredient| i@)
}

pub open spec fn group_views(g: Seq<Vec<VanillaIngredient>>) -> Seq<Seq<IngredientView>> {
    g.map_values(|l: Vec<VanillaIngredient>| views(l@))
}

pub open spec fn list_result(r: Result<Vec<VanillaIngredient>, DecodeError>) -> Result<
    Seq<IngredientView>,
    DecodeErrorView,
> {
    match r {
        Ok(l) => Ok(views(l@)),
        Err(e) => Err(e@),
    }
}

pub open spec fn groups_result(r: Result<Vec<Vec<VanillaIngredient>>, DecodeError>) -> Result<
    Seq<Seq<IngredientView>>,
    DecodeErrorView,
> {
    match r {
        Ok(g) => Ok(group_views(g@)),
        Err(e) => Err(e@),
    }
}

/// A string names a tag when it starts with `#` (which is dropped), an item otherwise.
pub open spec fn ingredient_text(s: Seq<char>) -> IngredientView {
    if s.len() > 0 && s[0] == '#' {
        IngredientView::Tag(s.subrange(1, s.len() as int))
    } else {
        IngredientView::Item(s)
    }
}

/// The custom type of an ingredient object: the first of the loader keys, then
/// `type`, that holds a string.
pub open spec fn ingredient_type_of(m: Seq<(String, JsonValue)>) -> Option<Seq<char>> {
    match lookup_str(m, "neoforge:ingredient_type"@) {
        Some(t) => Some(t),
        None => match lookup_str(m, "fabric:type"@) {
            Some(t) => Some(t),
            None => lookup_str(m, "type"@),
        },
    }
}

/// The lists of `g` one after another.
pub open spec fn concat_groups(g: Seq<Seq<IngredientView>>) -> Seq<IngredientView>
    decreases g.len(),
{
    if g.len() == 0 {
        Seq::empty()
    } else {
        concat_groups(g.drop_last()) + g.last()
    }
}

/// The first list of `g`, or nothing.
pub open spec fn first_group(g: Seq<Seq<IngredientView>>) -> Seq<IngredientView> {
    if g.len() == 0 {
        Seq::empty()
    } else {
        g[0]
    }
}

/// A list that a custom ingredient of kind `name` yields, refused when empty.
pub open spec fn non_empty(name: Seq<char>, l: Seq<IngredientView>) -> Result<
    Seq<IngredientView>,
    DecodeErrorView,
> {
    if l.len() == 0 {
        Err(here(DecodeErrorKindView::NoChildren(name)))
    } else {
        Ok(l)
    }
}

pub open spec fn list_expected() -> Seq<char> {
    "an ingredient or a list of ingredients"@
}

/// Custom types that stand for their `base` ingredient.
pub open spec fn is_base_type(t: Seq<char>) -> bool {
    t == "neoforge:difference"@ || t == "neoforge:custom_display"@ || t == "fabric:components"@
        || t == "fabric:custom_data"@ || t == "fabric:difference"@
}

/// Decoding of an ingredient list: a string, an object, or an array whose elements
/// are decoded in turn and flattened. Errors inside an object are reported at the object.
pub open spec fn spec_list(v: JsonValue) -> Result<Seq<IngredientView>, DecodeErrorView>
    decreases v, 3int,
{
    match v {
        JsonValue::String(s) => Ok(seq![ingredient_text(s@)]),
        JsonValue::Array(xs) => spec_list_items(xs@),
        JsonValue::Object(m) => match spec_object(m@) {
            Ok(l) => Ok(l),
            Err(e) => Err(here(e.kind)),
        },
        _ => Err(invalid_type(v, list_expected())),
    }
}

pub open spec fn spec_list_items(xs: Seq<JsonValue>) -> Result<Seq<IngredientView>, DecodeErrorView>
    decreases xs, 3int,
{
    if xs.len() == 0 {
        Ok(Seq::empty())
    } else {
        match spec_list_items(xs.subrange(0, xs.len() - 1)) {
            Err(e) => Err(e),
            Ok(p) => match spec_list(xs[xs.len() - 1]) {
                Err(e) => Err(under(PathSegmentView::Index((xs.len() - 1) as nat), e)),
                Ok(l) => Ok(p + l),
            },
        }
    }
}

/// Decoding of a list of ingredient lists (`Vec<VanillaIngredientList>`).
pub open spec fn spec_groups(v: JsonValue) -> Result<Seq<Seq<IngredientView>>, DecodeErrorView>
    decreases v, 3int,
{
    match v {
        JsonValue::Array(xs) => spec_group_items(xs@),
        _ => Err(invalid_type(v, "a sequence"@)),
    }
}

pub open spec fn spec_group_items(xs: Seq<JsonValue>) -> Result<
    Seq<Seq<IngredientView>>,
    DecodeErrorView,
>
    decreases xs, 3int,
{
    if xs.len() == 0 {
        Ok(Seq::empty())
    } else {
        match spec_group_items(xs.subrange(0, xs.len() - 1)) {
            Err(e) => Err(e),
            Ok(p) => match spec_list(xs[xs.len() - 1]) {
                Err(e) => Err(under(PathSegmentView::Index((xs.len() - 1) as nat), e)),
                Ok(l) => Ok(p.push(l)),
            },
        }
    }
}

/// A custom ingredient's outcome as it reaches its container: the error of a custom
/// ingredient carries no location inside the ingredient.
pub open spec fn unlocated(r: Result<Seq<IngredientView>, DecodeErrorView>) -> Result<
    Seq<IngredientView>,
    DecodeErrorView,
> {
    match r {
        Ok(l) => Ok(l),
        Err(e) => Err(here(e.kind)),
    }
}

/// An ingredient object: dispatched on its custom type, else read as `item` or `tag`.
pub open spec fn spec_object(m: Seq<(String, JsonValue)>) -> Result<
    Seq<IngredientView>,
    DecodeErrorView,
>
    decreases m, 2int,
{
    match ingredient_type_of(m) {
        Some(t) => unlocated(spec_resolve(t, m)),
        None => match spec_item_or_tag(m) {
            Ok(i) => Ok(seq![i]),
            Err(e) => Err(e),
        },
    }
}

/// The `item` field (preferred) or the `tag` field, which must hold a string.
pub open spec fn spec_item_or_tag(m: Seq<(String, JsonValue)>) -> Result<
    IngredientView,
    DecodeErrorView,
> {
    match lookup(m, "item"@) {
        Some(i) => match m[i].1 {
            JsonValue::String(s) => Ok(IngredientView::Item(s@)),
            _ => Err(invalid_type(m[i].1, "a string"@)),
        },
        None => match lookup(m, "tag"@) {
            Some(i) => match m[i].1 {
                JsonValue::String(s) => Ok(IngredientView::Tag(s@)),
                _ => Err(invalid_type(m[i].1, "a string"@)),
            },
            None => Err(here(DecodeErrorKindView::NoItemOrTag)),
        },
    }
}

/// What a custom ingredient of type `t` with fields `m` stands for.
pub open spec fn spec_resolve(t: Seq<char>, m: Seq<(String, JsonValue)>) -> Result<
    Seq<IngredientView>,
    DecodeErrorView,
>
    decreases m, 1int,
{
    if t == "neoforge:compound"@ {
        spec_compound(m)
    } else if t == "neoforge:components"@ {
        spec_field_list(m, "items"@)
    } else if is_base_type(t) {
        spec_field_list(m, "base"@)
    } else if t == "neoforge:intersection"@ {
        match spec_field_groups(m, "children"@) {
            Ok(g) => non_empty("intersection"@, first_group(g)),
            Err(e) => Err(e),
        }
    } else if t == "neoforge:block_tag"@ {
        spec_block_tag(m)
    } else if t == "fabric:any"@ {
        match spec_field_groups(m, "ingredients"@) {
            Ok(g) => non_empty("any"@, concat_groups(g)),
            Err(e) => Err(e),
        }
    } else if t == "fabric:all"@ {
        match spec_field_groups(m, "ingredients"@) {
            Ok(g) => non_empty("all"@, first_group(g)),
            Err(e) => Err(e),
        }
    } else {
        Err(here(DecodeErrorKindView::UnknownIngredientType(t)))
    }
}

/// A required field holding an ingredient list.
pub open spec fn spec_field_list(m: Seq<(String, JsonValue)>, name: Seq<char>) -> Result<
    Seq<IngredientView>,
    DecodeErrorView,
>
    decreases m, 0int,
{
    match lookup(m, name) {
        None => Err(here(DecodeErrorKindView::MissingField(name))),
        Some(i) => {
            proof {
                lemma_lookup_bounds(m, name);
            }
            spec_list(m[i].1)
        },
    }
}

/// A required field holding a list of ingredient lists.
pub open spec fn spec_field_groups(m: Seq<(String, JsonValue)>, name: Seq<char>) -> Result<
    Seq<Seq<IngredientView>>,
    DecodeErrorView,
>
    decreases m, 0int,
{
    match lookup(m, name) {
        None => Err(here(DecodeErrorKindView::MissingField(name))),
        Some(i) => {
            proof {
                lemma_lookup_bounds(m, name);
            }
            spec_groups(m[i].1)
        },
    }
}

/// A compound: its `children` (or their alias `ingredients`, but not both) flattened,
/// and not empty.
pub open spec fn spec_compound(m: Seq<(String, JsonValue)>) -> Result<
    Seq<IngredientView>,
    DecodeErrorView,
>
    decreases m, 0int,
{
    let c = lookup(m, "children"@);
    let a = lookup(m, "ingredients"@);
    proof {
        lemma_lookup_bounds(m, "children"@);
        lemma_lookup_bounds(m, "ingredients"@);
    }
    match c {
        None => match a {
            None => Err(here(DecodeErrorKindView::MissingField("children"@))),
            Some(j) => match spec_groups(m[j].1) {
                Ok(g) => non_empty("compound"@, concat_groups(g)),
                Err(e) => Err(e),
            },
        },
        Some(i) => match a {
            None => match spec_groups(m[i].1) {
                Ok(g) => non_empty("compound"@, concat_groups(g)),
                Err(e) => Err(e),
            },
            Some(j) => {
                let first = if i < j { i } else { j };
                match spec_groups(m[first].1) {
                    Ok(_) => Err(here(DecodeErrorKindView::DuplicateField("children"@))),
                    Err(e) => Err(e),
                }
            },
        },
    }
}

/// A block tag: the tag named by the `tag` string, one leading `#` dropped.
pub open spec fn spec_block_tag(m: Seq<(String, JsonValue)>) -> Result<
    Seq<IngredientView>,
    DecodeErrorView,
> {
    match lookup(m, "tag"@) {
        None => Err(here(DecodeErrorKindView::MissingField("tag"@))),
        Some(i) => match m[i].1 {
            JsonValue::String(s) => Ok(
                seq![
                    IngredientView::Tag(
                        if s@.len() > 0 && s@[0] == '#' {
                            s@.subrange(1, s@.len() as int)
                        } else {
                            s@
                        },
                    ),
                ],
            ),
            _ => Err(invalid_type(m[i].1, "a string"@)),
        },
    }
}

/// The record that a custom type's fields are read into, as named when a value of
/// another shape stands in its place; `None` for an unknown type.
pub open spec fn resolver_record(t: Seq<char>) -> Option<Seq<char>> {
    if t == "neoforge:compound"@ {
        Some("struct CompoundIngredient"@)
    } else if t == "neoforge:components"@ {
        Some("struct DataComponentIngredient"@)
    } else if is_base_type(t) {
        Some("struct BaseIngredient"@)
    } else if t == "neoforge:intersection"@ {
        Some("struct IntersectionIngredient"@)
    } else if t == "neoforge:block_tag"@ {
        Some("struct BlockTagIngredient"@)
    } else if t == "fabric:any"@ || t == "fabric:all"@ {
        Some("struct CombinedIngredient"@)
    } else {
        None
    }
}

/// What `resolve` computes for a value: the type is checked first; the value must be an object.
pub open spec fn spec_resolve_value(t: Seq<char>, v: JsonValue) -> Result<
    Seq<IngredientView>,
    DecodeErrorView,
> {
    match resolver_record(t) {
        None => Err(here(DecodeErrorKindView::UnknownIngredientType(t))),
        Some(record) => match v {
            JsonValue::Object(m) => unlocated(spec_resolve(t, m@)),
            _ => Err(invalid_type(v, record)),
        },
    }
}

/// Once a prefix of the elements fails, the whole list fails the same way.
pub proof fn lemma_list_items_err(xs: Seq<JsonValue>, n: int)
    requires
        0 <= n <= xs.len(),
        spec_list_items(xs.subrange(0, n)) is Err,
    ensures
        spec_list_items(xs) == spec_list_items(xs.subrange(0, n)),
    decreases xs.len() - n,
{
    if n < xs.len() {
        let nxt = xs.subrange(0, n + 1);
        assert(nxt.subrange(0, nxt.len() - 1) =~= xs.subrange(0, n));
        lemma_list_items_err(xs, n + 1);
    } else {
        assert(xs.subrange(0, n) =~= xs);
    }
}

pub proof fn lemma_group_items_err(xs: Seq<JsonValue>, n: int)
    requires
        0 <= n <= xs.len(),
        spec_group_items(xs.subrange(0, n)) is Err,
    ensures
        spec_group_items(xs) == spec_group_items(xs.subrange(0, n)),
    decreases xs.len() - n,
{
    if n < xs.len() {
        let nxt = xs.subrange(0, n + 1);
        assert(nxt.subrange(0, nxt.len() - 1) =~= xs.subrange(0, n));
        lemma_group_items_err(xs, n + 1);
    } else {
        assert(xs.subrange(0, n) =~= xs);
    }
}

impl VanillaIngredient {
    /// Reads an ingredient string: `#id` is a tag, anything else an item.
    pub fn parse(s: &str) -> (r: VanillaIngredient)
        ensures
            r@ == ingredient_text(s@),
    {
        let cs = char_vec(s);
        if cs.len() > 0 && cs[0] == '#' {
            VanillaIngredient::Tag(string_of_range(cs.as_slice(), 1, cs.len()))
        } else {
            VanillaIngredient::Item(owned(s))
        }
    }

    /// The stored entry for this ingredient.
    pub fn into_stub(self, slot: String, count: i32, input: bool) -> (r: StubRecipeIngredient)
        ensures
            r@ == stub_of(self@, slot@, count, input),
    {
        match self {
            VanillaIngredient::Item(id) => StubRecipeIngredient {
                item_id: id,
                slot,
                count,
                input,
                is_tag: false,
            },
            VanillaIngredient::Tag(id) => StubRecipeIngredient {
                item_id: id,
                slot,
                count,
                input,
                is_tag: true,
            },
        }
    }

    /// A copy of this ingredient.
    pub fn duplicate(&self) -> (r: VanillaIngredient)
        ensures
            r@ == self@,
    {
        match self {
            VanillaIngredient::Item(s) => VanillaIngredient::Item(s.clone()),
            VanillaIngredient::Tag(s) => VanillaIngredient::Tag(s.clone()),
        }
    }
}

/// Appends the elements of `l` to `out`.
fn append_all(out: &mut Vec<VanillaIngredient>, l: Vec<VanillaIngredient>)
    ensures
        views(final(out)@) == views(old(out)@) + views(l@),
{
    let mut l = l;
    let ghost lv = views(l@);
    out.append(&mut l);
    assert(views(out@) =~= views(old(out)@) + lv);
}

/// The lists of `g` one after another.
fn concat_all(g: Vec<Vec<VanillaIngredient>>) -> (r: Vec<VanillaIngredient>)
    ensures
        views(r@) == concat_groups(group_views(g@)),
{
    let mut g = g;
    let ghost gv = group_views(g@);
    // take the groups out from the back, then append them from the front
    let mut parts: Vec<Vec<VanillaIngredient>> = Vec::new();
    let n = g.len();
    while g.len() > 0
        invariant
            g@.len() + parts@.len() == n,
            gv.len() == n,
            forall|k: int| 0 <= k < g@.len() ==> views(#[trigger] g@[k]@) == gv[k],
            forall|k: int| 0 <= k < parts@.len() ==> views(#[trigger] parts@[k]@) == gv[n - 1 - k],
        decreases g@.len(),
    {
        let last = g.pop().unwrap();
        parts.push(last);
    }
    let mut out: Vec<VanillaIngredient> = Vec::new();
    let mut i: usize = parts.len();
    assert(gv.subrange(0, 0) =~= Seq::<Seq<IngredientView>>::empty());
    assert(views(out@) =~= Seq::<IngredientView>::empty());
    while i > 0
        invariant
            i == parts@.len(),
            i <= n,
            gv.len() == n,
            forall|k: int| 0 <= k < i ==> views(#[trigger] parts@[k]@) == gv[n - 1 - k],
            views(out@) == concat_groups(gv.subrange(0, n - i)),
        decreases i,
    {
        let ghost nxt = gv.subrange(0, n - i + 1);
        assert(nxt.drop_last() =~= gv.subrange(0, n - i));
        assert(nxt.last() == gv[n - i]);
        let part = parts.pop().unwrap();
        assert(views(part@) == gv[n - i]);
        append_all(&mut out, part);
        i = i - 1;
    }
    assert(gv.subrange(0, n as int) =~= gv);
    out
}

/// The first list of `g`, or an empty one.
fn take_first(g: Vec<Vec<VanillaIngredient>>) -> (r: Vec<VanillaIngredient>)
    ensures
        views(r@) == first_group(group_views(g@)),
{
    let mut g = g;
    if g.len() == 0 {
        let r: Vec<VanillaIngredient> = Vec::new();
        assert(views(r@) =~= Seq::<IngredientView>::empty());
        r
    } else {
        let ghost g0 = g@[0];
        let r = g.swap_remove(0);
        assert(r == g0);
        r
    }
}

/// Refuses an empty list for a custom ingredient of kind `name`.
fn require_children(name: &str, l: Vec<VanillaIngredient>) -> (r: Result<
    Vec<VanillaIngredient>,
    DecodeError,
>)
    ensures
        list_result(r) == non_empty(name@, views(l@)),
{
    if l.len() == 0 {
        Err(err_here(DecodeErrorKind::NoChildren(owned(name))))
    } else {
        Ok(l)
    }
}

/// Decodes an ingredient list.
pub fn decode_list(v: &JsonValue) -> (r: Result<Vec<VanillaIngredient>, DecodeError>)
    ensures
        list_result(r) == spec_list(*v),
    decreases v, 3int,
{
    match v {
        JsonValue::String(s) => {
            let mut out: Vec<VanillaIngredient> = Vec::new();
            out.push(VanillaIngredient::parse(s.as_str()));
            assert(views(out@) =~= seq![ingredient_text(s@)]);
            Ok(out)
        },
        JsonValue::Array(xs) => {
            let mut out: Vec<VanillaIngredient> = Vec::new();
            let mut i: usize = 0;
            assert(xs@.subrange(0, 0) =~= Seq::<JsonValue>::empty());
            assert(views(out@) =~= Seq::<IngredientView>::empty());
            while i < xs.len()
                invariant
                    *v == JsonValue::Array(*xs),
                    i <= xs@.len(),
                    spec_list_items(xs@.subrange(0, i as int)) == Ok::<_, DecodeErrorView>(
                        views(out@),
                    ),
                decreases xs@.len() - i,
            {
                let ghost nxt = xs@.subrange(0, i + 1);
                assert(nxt.subrange(0, nxt.len() - 1) =~= xs@.subrange(0, i as int));
                assert(nxt[nxt.len() - 1] == xs@[i as int]);
                let ghost prev = views(out@);
                match decode_list(&xs[i]) {
                    Err(e) => {
                        let r = err_under_index(i, e);
                        assert(spec_list_items(nxt) == Err::<Seq<IngredientView>, _>(r@));
                        proof {
                            lemma_list_items_err(xs@, i + 1);
                        }
                        return Err(r);
                    },
                    Ok(l) => {
                        let ghost lv = views(l@);
                        append_all(&mut out, l);
                        assert(spec_list_items(nxt) == Ok::<_, DecodeErrorView>(prev + lv));
                    },
                }
                i = i + 1;
            }
            assert(xs@.subrange(0, xs@.len() as int) =~= xs@);
            Ok(out)
        },
        JsonValue::Object(m) => match decode_object(m) {
            Ok(l) => Ok(l),
            Err(e) => Err(err_here(e.kind)),
        },
        _ => Err(err_invalid_type(v, "an ingredient or a list of ingredients")),
    }
}

/// Decodes a list of ingredient lists.
pub fn decode_groups(v: &JsonValue) -> (r: Result<Vec<Vec<VanillaIngredient>>, DecodeError>)
    ensures
        groups_result(r) == spec_groups(*v),
    decreases v, 3int,
{
    match v {
        JsonValue::Array(xs) => {
            let mut out: Vec<Vec<VanillaIngredient>> = Vec::new();
            let mut i: usize = 0;
            assert(xs@.subrange(0, 0) =~= Seq::<JsonValue>::empty());
            assert(group_views(out@) =~= Seq::<Seq<IngredientView>>::empty());
            while i < xs.len()
                invariant
                    *v == JsonValue::Array(*xs),
                    i <= xs@.len(),
                    spec_group_items(xs@.subrange(0, i as int)) == Ok::<_, DecodeErrorView>(
                        group_views(out@),
                    ),
                decreases xs@.len() - i,
            {
                let ghost nxt = xs@.subrange(0, i + 1);
                assert(nxt.subrange(0, nxt.len() - 1) =~= xs@.subrange(0, i as int));
                assert(nxt[nxt.len() - 1] == xs@[i as int]);
                let ghost prev = group_views(out@);
                match decode_list(&xs[i]) {
                    Err(e) => {
                        let r = err_under_index(i, e);
                        assert(spec_group_items(nxt) == Err::<Seq<Seq<IngredientView>>, _>(r@));
                        proof {
                            lemma_group_items_err(xs@, i + 1);
                        }
                        return Err(r);
                    },
                    Ok(l) => {
                        let ghost lv = views(l@);
                        out.push(l);
                        assert(group_views(out@) =~= prev.push(lv));
                        assert(spec_group_items(nxt) == Ok::<_, DecodeErrorView>(prev.push(lv)));
                    },
                }
                i = i + 1;
            }
            assert(xs@.subrange(0, xs@.len() as int) =~= xs@);
            Ok(out)
        },
        _ => Err(err_invalid_type(v, "a sequence")),
    }
}

/// The custom type of an ingredient object's entries.
fn type_of_entries(m: &Vec<(String, JsonValue)>) -> (r: Option<String>)
    ensures
        match r {
            Some(t) => ingredient_type_of(m@) == Some(t@),
            None => ingredient_type_of(m@) is None,
        },
{
    match lookup_string(m, "neoforge:ingredient_type") {
        Some(t) => Some(t),
        None => match lookup_string(m, "fabric:type") {
            Some(t) => Some(t),
            None => lookup_string(m, "type"),
        },
    }
}

/// The custom type of an ingredient value (`None` for what is not an object).
pub fn ingredient_type(value: &JsonValue) -> (r: Option<String>)
    ensures
        match *value {
            JsonValue::Object(m) => match r {
                Some(t) => ingredient_type_of(m@) == Some(t@),
                None => ingredient_type_of(m@) is None,
            },
            _ => r is None,
        },
{
    match value {
        JsonValue::Object(m) => type_of_entries(m),
        _ => None,
    }
}

fn unlocate(r: Result<Vec<VanillaIngredient>, DecodeError>) -> (out: Result<Vec<VanillaIngredient>, DecodeError>)
    ensures
        list_result(out) == unlocated(list_result(r)),
{
    match r {
        Ok(l) => Ok(l),
        Err(e) => Err(err_here(e.kind)),
    }
}

fn decode_object(m: &Vec<(String, JsonValue)>) -> (r: Result<Vec<VanillaIngredient>, DecodeError>)
    ensures
        list_result(r) == spec_object(m@),
    decreases m@, 2int,
{
    match type_of_entries(m) {
        Some(t) => unlocate(resolve_entries(t.as_str(), m)),
        None => match item_or_tag(m) {
            Ok(i) => {
                let mut out: Vec<VanillaIngredient> = Vec::new();
                let ghost iv = i@;
                out.push(i);
                assert(views(out@) =~= seq![iv]);
                Ok(out)
            },
            Err(e) => Err(e),
        },
    }
}

fn item_or_tag(m: &Vec<(String, JsonValue)>) -> (r: Result<VanillaIngredient, DecodeError>)
    ensures
        match r {
            Ok(i) => spec_item_or_tag(m@) == Ok::<_, DecodeErrorView>(i@),
            Err(e) => spec_item_or_tag(m@) == Err::<IngredientView, _>(e@),
        },
{
    match lookup_index(m, "item") {
        Some(i) => match &m[i].1 {
            JsonValue::String(s) => Ok(VanillaIngredient::Item(s.clone())),
            other => Err(err_invalid_type(other, "a string")),
        },
        None => match lookup_index(m, "tag") {
            Some(i) => match &m[i].1 {
                JsonValue::String(s) => Ok(VanillaIngredient::Tag(s.clone())),
                other => Err(err_invalid_type(other, "a string")),
            },
            None => Err(err_here(DecodeErrorKind::NoItemOrTag)),
        },
    }
}

fn base_type(t: &str) -> (r: bool)
    ensures
        r == is_base_type(t@),
{
    str_eq(t, "neoforge:difference") || str_eq(t, "neoforge:custom_display") || str_eq(
        t,
        "fabric:components",
    ) || str_eq(t, "fabric:custom_data") || str_eq(t, "fabric:difference")
}

fn resolve_entries(t: &str, m: &Vec<(String, JsonValue)>) -> (r: Result<
    Vec<VanillaIngredient>,
    DecodeError,
>)
    ensures
        list_result(r) == spec_resolve(t@, m@),
    decreases m@, 1int,
{
    if str_eq(t, "neoforge:compound") {
        compound(m)
    } else if str_eq(t, "neoforge:components") {
        field_list(m, "items")
    } else if base_type(t) {
        field_list(m, "base")
    } else if str_eq(t, "neoforge:intersection") {
        match field_groups(m, "children") {
            Ok(g) => require_children("intersection", take_first(g)),
            Err(e) => Err(e),
        }
    } else if str_eq(t, "neoforge:block_tag") {
        block_tag(m)
    } else if str_eq(t, "fabric:any") {
        match field_groups(m, "ingredients") {
            Ok(g) => require_children("any", concat_all(g)),
            Err(e) => Err(e),
        }
    } else if str_eq(t, "fabric:all") {
        match field_groups(m, "ingredients") {
            Ok(g) => require_children("all", take_first(g)),
            Err(e) => Err(e),
        }
    } else {
        Err(err_here(DecodeErrorKind::UnknownIngredientType(owned(t))))
    }
}

fn field_list(m: &Vec<(String, JsonValue)>, name: &str) -> (r: Result<
    Vec<VanillaIngredient>,
    DecodeError,
>)
    ensures
        list_result(r) == spec_field_list(m@, name@),
    decreases m@, 0int,
{
    match lookup_index(m, name) {
        None => Err(err_missing(name)),
        Some(i) => decode_list(&m[i].1),
    }
}

fn field_groups(m: &Vec<(String, JsonValue)>, name: &str) -> (r: Result<
    Vec<Vec<VanillaIngredient>>,
    DecodeError,
>)
    ensures
        groups_result(r) == spec_field_groups(m@, name@),
    decreases m@, 0int,
{
    match lookup_index(m, name) {
        None => Err(err_missing(name)),
        Some(i) => decode_groups(&m[i].1),
    }
}

fn compound(m: &Vec<(String, JsonValue)>) -> (r: Result<Vec<VanillaIngredient>, DecodeError>)
    ensures
        list_result(r) == spec_compound(m@),
    decreases m@, 0int,
{
    let c = lookup_index(m, "children");
    let a = lookup_index(m, "ingredients");
    let at = match c {
        None => match a {
            None => {
                return Err(err_missing("children"));
            },
            Some(j) => j,
        },
        Some(i) => match a {
            None => i,
            Some(j) => {
                let first = if i < j { i } else { j };
                return match decode_groups(&m[first].1) {
                    Ok(_) => Err(err_here(DecodeErrorKind::DuplicateField(owned("children")))),
                    Err(e) => Err(e),
                };
            },
        },
    };
    match decode_groups(&m[at].1) {
        Ok(g) => require_children("compound", concat_all(g)),
        Err(e) => Err(e),
    }
}

fn block_tag(m: &Vec<(String, JsonValue)>) -> (r: Result<Vec<VanillaIngredient>, DecodeError>)
    ensures
        list_result(r) == spec_block_tag(m@),
{
    match lookup_index(m, "tag") {
        None => Err(err_missing("tag")),
        Some(i) => match &m[i].1 {
            JsonValue::String(s) => {
                let cs = char_vec(s.as_str());
                let tag = if cs.len() > 0 && cs[0] == '#' {
                    string_of_range(cs.as_slice(), 1, cs.len())
                } else {
                    s.clone()
                };
                let mut out: Vec<VanillaIngredient> = Vec::new();
                let ghost tv = tag@;
                out.push(VanillaIngredient::Tag(tag));
                assert(views(out@) =~= seq![IngredientView::Tag(tv)]);
                Ok(out)
            },
            other => Err(err_invalid_type(other, "a string")),
        },
    }
}

/// What a custom ingredient of type `type_id` stands for. The type is checked
/// first; the value must then be an object with that type's fields.
pub fn resolve(type_id: &str, value: &JsonValue) -> (r: Result<Vec<VanillaIngredient>, DecodeError>)
    ensures
        list_result(r) == spec_resolve_value(type_id@, *value),
{
    let record = if str_eq(type_id, "neoforge:compound") {
        "struct CompoundIngredient"
    } else if str_eq(type_id, "neoforge:components") {
        "struct DataComponentIngredient"
    } else if base_type(type_id) {
        "struct BaseIngredient"
    } else if str_eq(type_id, "neoforge:intersection") {
        "struct IntersectionIngredient"
    } else if str_eq(type_id, "neoforge:block_tag") {
        "struct BlockTagIngredient"
    } else if str_eq(type_id, "fabric:any") || str_eq(type_id, "fabric:all") {
        "struct CombinedIngredient"
    } else {
        return Err(err_here(DecodeErrorKind::UnknownIngredientType(owned(type_id))));
    };
    match value {
        JsonValue::Object(m) => unlocate(resolve_entries(type_id, m)),
        _ => Err(err_invalid_type(value, record)),
    }
}

impl VanillaIngredientList {
    /// Decodes an ingredient list from a JSON value.
    pub fn from_json(v: &JsonValue) -> (r: Result<VanillaIngredientList, DecodeError>)
        ensures
            match r {
                Ok(l) => spec_list(*v) == Ok::<_, DecodeErrorView>(views(l.0@)),
                Err(e) => spec_list(*v) == Err::<Seq<IngredientView>, _>(e@),
            },
    {
        match decode_list(v) {
            Ok(l) => Ok(VanillaIngredientList(l)),
            Err(e) => Err(e),
        }
    }
}

} // verus!
