//! Recipes: the `type` every recipe names, the vanilla recipe shapes, and the
//! registry that hands a recipe to the parser of its type's namespace.
use vstd::prelude::*;
use crate::custom_recipe::{CustomRecipeParser, spec_custom};
use crate::fields::{
    Failure, decode_i32, decode_opt_text, decode_text, decode_text_list, earlier, earlier_failure,
    failure, failure_view, spec_i32, spec_opt_text, spec_text, spec_text_list, texts_view,
};
use crate::ingredient::{
    IngredientView, StubRecipeIngredient, StubView, VanillaIngredient, decode_groups, decode_list,
    group_views, groups_result, list_result, spec_groups, spec_list, stub_of, stub_views, views,
};
use crate::issues::{FileIssues, ProjectError, issue_views, ingestor_issue};
use crate::json::{
    DecodeError, DecodeErrorKindView, DecodeErrorView, JsonValue, PathSegmentView, err_invalid_type,
    err_missing, err_under_key, here, invalid_type, located_message, lookup, lookup_index, under,
};
use crate::resloc::{DEFAULT_NAMESPACE, ResourceLocation, spec_parse_location};
use crate::text::{char_vec, concat2, decimal, owned, push_char, str_eq, u128_to_string};

verus! {

/// The output of a vanilla recipe: an item id and a count (1 unless given).
#[derive(Debug, Clone)]
pub struct VanillaResult {
    pub id: String,
    pub count: i32,
}

impl View for VanillaResult {
    type V = (Seq<char>, i32);

    open spec fn view(&self) -> (Seq<char>, i32) {
        (self.id@, self.count)
    }
}

/// A recipe reduced to the entries the wiki stores.
#[derive(Debug, Clone, PartialEq, Eq)]
pub struct StubRecipe {
    pub id: String,
    pub recipe_type: String,
    pub ingredients: Vec<StubRecipeIngredient>,
}

pub struct RecipeView {
    pub id: Seq<char>,
    pub recipe_type: Seq<char>,
    pub ingredients: Seq<StubView>,
}

impl View for StubRecipe {
    type V = RecipeView;

    open spec fn view(&self) -> RecipeView {
        RecipeView {
            id: self.id@,
            recipe_type: self.recipe_type@,
            ingredients: stub_views(self.ingredients@),
        }
    }
}

/// Why a recipe could not be read.
#[derive(Debug)]
pub enum RecipeParseError {
    /// The recipe names no type.
    MissingType,
    /// The recipe's `type` field has the wrong shape.
    InvalidJson(DecodeError),
    /// The recipe's body does not fit its type; the error is located in the document.
    InvalidJsonPath(DecodeError),
    UnknownRecipeType(String),
}

pub enum RecipeErrorView {
    MissingType,
    InvalidJson(DecodeErrorView),
    InvalidJsonPath(DecodeErrorView),
    UnknownRecipeType(Seq<char>),
}

impl View for RecipeParseError {
    type V = RecipeErrorView;

    open spec fn view(&self) -> RecipeErrorView {
        match self {
            RecipeParseError::MissingType => RecipeErrorView::MissingType,
            RecipeParseError::InvalidJson(e) => RecipeErrorView::InvalidJson(e@),
            RecipeParseError::InvalidJsonPath(e) => RecipeErrorView::InvalidJsonPath(e@),
            RecipeParseError::UnknownRecipeType(t) => RecipeErrorView::UnknownRecipeType(t@),
        }
    }
}

pub open spec fn recipe_error_message(e: RecipeErrorView) -> Seq<char> {
    match e {
        RecipeErrorView::MissingType => "recipe JSON missing required `type` field"@,
        RecipeErrorView::InvalidJson(d) => located_message(d),
        RecipeErrorView::InvalidJsonPath(d) => located_message(d),
        RecipeErrorView::UnknownRecipeType(t) => "unknown recipe type: "@ + t,
    }
}

impl RecipeParseError {
    pub fn to_string(&self) -> (r: String)
        ensures
            r@ == recipe_error_message(self@),
    {
        match self {
            RecipeParseError::MissingType => owned("recipe JSON missing required `type` field"),
            RecipeParseError::InvalidJson(d) => d.message(),
            RecipeParseError::InvalidJsonPath(d) => d.message(),
            RecipeParseError::UnknownRecipeType(t) => concat2("unknown recipe type: ", t.as_str()),
        }
    }
}

pub open spec fn outcome_view(r: Result<Option<StubRecipe>, RecipeParseError>) -> Result<
    Option<RecipeView>,
    RecipeErrorView,
> {
    match r {
        Ok(Some(x)) => Ok(Some(x@)),
        Ok(None) => Ok(None),
        Err(e) => Err(e@),
    }
}

/// `r` with its error located under the field `name`.
pub open spec fn keyed<T>(name: Seq<char>, r: Result<T, DecodeErrorView>) -> Result<
    T,
    DecodeErrorView,
> {
    match r {
        Ok(x) => Ok(x),
        Err(e) => Err(under(PathSegmentView::Key(name), e)),
    }
}

pub open spec fn missing<T>(name: Seq<char>) -> Result<T, DecodeErrorView> {
    Err(here(DecodeErrorKindView::MissingField(name)))
}

// ----- the fields of the records this module reads -----

pub open spec fn text_field(m: Seq<(String, JsonValue)>, name: Seq<char>) -> Option<
    Result<Seq<char>, DecodeErrorView>,
> {
    match lookup(m, name) {
        Some(i) => Some(keyed(name, spec_text(m[i].1))),
        None => None,
    }
}

pub open spec fn count_field(m: Seq<(String, JsonValue)>, name: Seq<char>) -> Option<
    Result<i32, DecodeErrorView>,
> {
    match lookup(m, name) {
        Some(i) => Some(keyed(name, spec_i32(m[i].1))),
        None => None,
    }
}

pub open spec fn text_list_field(m: Seq<(String, JsonValue)>, name: Seq<char>) -> Option<
    Result<Seq<Seq<char>>, DecodeErrorView>,
> {
    match lookup(m, name) {
        Some(i) => Some(keyed(name, spec_text_list(m[i].1))),
        None => None,
    }
}

pub open spec fn list_field(m: Seq<(String, JsonValue)>, name: Seq<char>) -> Option<
    Result<Seq<IngredientView>, DecodeErrorView>,
> {
    match lookup(m, name) {
        Some(i) => Some(keyed(name, spec_list(m[i].1))),
        None => None,
    }
}

pub open spec fn groups_field(m: Seq<(String, JsonValue)>, name: Seq<char>) -> Option<
    Result<Seq<Seq<IngredientView>>, DecodeErrorView>,
> {
    match lookup(m, name) {
        Some(i) => Some(keyed(name, spec_groups(m[i].1))),
        None => None,
    }
}

pub open spec fn key_map_field(m: Seq<(String, JsonValue)>, name: Seq<char>) -> Option<
    Result<Seq<(Seq<char>, Seq<IngredientView>)>, DecodeErrorView>,
> {
    match lookup(m, name) {
        Some(i) => Some(keyed(name, spec_key_map(m[i].1))),
        None => None,
    }
}

pub open spec fn result_field(m: Seq<(String, JsonValue)>, name: Seq<char>) -> Option<
    Result<(Seq<char>, i32), DecodeErrorView>,
> {
    match lookup(m, name) {
        Some(i) => Some(keyed(name, spec_result(m[i].1))),
        None => None,
    }
}

// ----- results -----

pub open spec fn result_expected() -> Seq<char> {
    "a string item id or an object with 'id' and optional 'count'"@
}

/// A result: an item id string (count 1), or an object with `id` and an optional `count`.
pub open spec fn spec_result(v: JsonValue) -> Result<(Seq<char>, i32), DecodeErrorView> {
    match v {
        JsonValue::String(s) => Ok((s@, 1i32)),
        JsonValue::Object(m) => spec_result_object(m@),
        _ => Err(invalid_type(v, result_expected())),
    }
}

pub open spec fn spec_result_object(m: Seq<(String, JsonValue)>) -> Result<
    (Seq<char>, i32),
    DecodeErrorView,
> {
    let idf = text_field(m, "id"@);
    let cf = count_field(m, "count"@);
    match earlier(failure(lookup(m, "id"@), idf), failure(lookup(m, "count"@), cf)) {
        Some(f) => Err(f.1),
        None => match idf {
            Some(Ok(id)) => Ok(
                (
                    id,
                    match cf {
                        Some(Ok(c)) => c,
                        _ => 1i32,
                    },
                ),
            ),
            _ => missing("id"@),
        },
    }
}

pub open spec fn result_result(r: Result<VanillaResult, DecodeError>) -> Result<
    (Seq<char>, i32),
    DecodeErrorView,
> {
    match r {
        Ok(x) => Ok(x@),
        Err(e) => Err(e@),
    }
}

/// The stored entry of a recipe's result.
pub open spec fn result_stub(r: (Seq<char>, i32)) -> StubView {
    StubView { item_id: r.0, slot: "1"@, count: r.1, input: false, is_tag: false }
}

// ----- the pattern key of shaped recipes -----

pub open spec fn key_views(e: Seq<(String, Vec<VanillaIngredient>)>) -> Seq<
    (Seq<char>, Seq<IngredientView>),
> {
    e.map_values(|p: (String, Vec<VanillaIngredient>)| (p.0@, views(p.1@)))
}

/// The entries of a key map, each value an ingredient list; the first bad value is
/// located by its key.
pub open spec fn spec_key_entries(m: Seq<(String, JsonValue)>) -> Result<
    Seq<(Seq<char>, Seq<IngredientView>)>,
    DecodeErrorView,
>
    decreases m.len(),
{
    if m.len() == 0 {
        Ok(Seq::empty())
    } else {
        match spec_key_entries(m.drop_last()) {
            Err(e) => Err(e),
            Ok(p) => match spec_list(m.last().1) {
                Err(e) => Err(under(PathSegmentView::Key(m.last().0@), e)),
                Ok(l) => Ok(p.push((m.last().0@, l))),
            },
        }
    }
}

pub open spec fn spec_key_map(v: JsonValue) -> Result<
    Seq<(Seq<char>, Seq<IngredientView>)>,
    DecodeErrorView,
> {
    match v {
        JsonValue::Object(m) => spec_key_entries(m@),
        _ => Err(invalid_type(v, "a map"@)),
    }
}

/// The list under key `k` (the last entry with that key wins, as in a map).
pub open spec fn key_find(kv: Seq<(Seq<char>, Seq<IngredientView>)>, k: Seq<char>) -> Option<
    Seq<IngredientView>,
>
    decreases kv.len(),
{
    if kv.len() == 0 {
        None
    } else if kv.last().0 == k {
        Some(kv.last().1)
    } else {
        key_find(kv.drop_last(), k)
    }
}

// ----- building the stored entries -----

/// The entries for the alternatives of one input slot.
pub open spec fn input_stubs(l: Seq<IngredientView>, slot: Seq<char>) -> Seq<StubView> {
    l.map_values(|i: IngredientView| stub_of(i, slot, 1i32, true))
}

/// Characters that leave a grid cell empty (those with the Unicode `White_Space` property).
pub open spec fn is_whitespace(c: char) -> bool {
    ('\u{9}' <= c && c <= '\u{d}') || c == ' ' || c == '\u{85}' || c == '\u{a0}' || c == '\u{1680}'
        || ('\u{2000}' <= c && c <= '\u{200a}') || c == '\u{2028}' || c == '\u{2029}' || c
        == '\u{202f}' || c == '\u{205f}' || c == '\u{3000}'
}

/// The entries of the cell in row `r`, column `col`: its key's ingredients in slot
/// `r * 3 + col + 1`; nothing for a blank cell or a character missing from the key.
pub open spec fn cell_stubs(
    kv: Seq<(Seq<char>, Seq<IngredientView>)>,
    c: char,
    r: nat,
    col: nat,
) -> Seq<StubView> {
    if is_whitespace(c) {
        Seq::empty()
    } else {
        match key_find(kv, seq![c]) {
            Some(l) => input_stubs(l, decimal(r * 3 + col + 1)),
            None => Seq::empty(),
        }
    }
}

pub open spec fn row_stubs(kv: Seq<(Seq<char>, Seq<IngredientView>)>, row: Seq<char>, r: nat) -> Seq<
    StubView,
>
    decreases row.len(),
{
    if row.len() == 0 {
        Seq::empty()
    } else {
        row_stubs(kv, row.drop_last(), r) + cell_stubs(kv, row.last(), r, (row.len() - 1) as nat)
    }
}

pub open spec fn grid_stubs(kv: Seq<(Seq<char>, Seq<IngredientView>)>, pattern: Seq<Seq<char>>) -> Seq<
    StubView,
>
    decreases pattern.len(),
{
    if pattern.len() == 0 {
        Seq::empty()
    } else {
        grid_stubs(kv, pattern.drop_last()) + row_stubs(
            kv,
            pattern.last(),
            (pattern.len() - 1) as nat,
        )
    }
}

/// The entries of a list of ingredient positions, position `i` in slot `i + 1`.
pub open spec fn group_stubs(g: Seq<Seq<IngredientView>>) -> Seq<StubView>
    decreases g.len(),
{
    if g.len() == 0 {
        Seq::empty()
    } else {
        group_stubs(g.drop_last()) + input_stubs(g.last(), decimal(g.len()))
    }
}

// ----- the vanilla recipe shapes -----

pub open spec fn spec_shaped(m: Seq<(String, JsonValue)>) -> Result<Seq<StubView>, DecodeErrorView> {
    let pf = text_list_field(m, "pattern"@);
    let kf = key_map_field(m, "key"@);
    let rf = result_field(m, "result"@);
    match earlier(
        earlier(failure(lookup(m, "pattern"@), pf), failure(lookup(m, "key"@), kf)),
        failure(lookup(m, "result"@), rf),
    ) {
        Some(f) => Err(f.1),
        None => match pf {
            Some(Ok(p)) => match kf {
                Some(Ok(k)) => match rf {
                    Some(Ok(r)) => Ok(grid_stubs(k, p).push(result_stub(r))),
                    _ => missing("result"@),
                },
                _ => missing("key"@),
            },
            _ => missing("pattern"@),
        },
    }
}

pub open spec fn spec_shapeless(m: Seq<(String, JsonValue)>) -> Result<Seq<StubView>, DecodeErrorView> {
    let gf = groups_field(m, "ingredients"@);
    let rf = result_field(m, "result"@);
    match earlier(failure(lookup(m, "ingredients"@), gf), failure(lookup(m, "result"@), rf)) {
        Some(f) => Err(f.1),
        None => match gf {
            Some(Ok(g)) => match rf {
                Some(Ok(r)) => Ok(group_stubs(g).push(result_stub(r))),
                _ => missing("result"@),
            },
            _ => missing("ingredients"@),
        },
    }
}

pub open spec fn spec_single(m: Seq<(String, JsonValue)>) -> Result<Seq<StubView>, DecodeErrorView> {
    let lf = list_field(m, "ingredient"@);
    let rf = result_field(m, "result"@);
    match earlier(failure(lookup(m, "ingredient"@), lf), failure(lookup(m, "result"@), rf)) {
        Some(f) => Err(f.1),
        None => match lf {
            Some(Ok(l)) => match rf {
                Some(Ok(r)) => Ok(input_stubs(l, "1"@).push(result_stub(r))),
                _ => missing("result"@),
            },
            _ => missing("ingredient"@),
        },
    }
}

pub open spec fn spec_smithing(m: Seq<(String, JsonValue)>) -> Result<Seq<StubView>, DecodeErrorView> {
    let tf = list_field(m, "template"@);
    let bf = list_field(m, "base"@);
    let af = list_field(m, "addition"@);
    let rf = result_field(m, "result"@);
    match earlier(
        earlier(
            earlier(failure(lookup(m, "template"@), tf), failure(lookup(m, "base"@), bf)),
            failure(lookup(m, "addition"@), af),
        ),
        failure(lookup(m, "result"@), rf),
    ) {
        Some(f) => Err(f.1),
        None => match tf {
            Some(Ok(t)) => match bf {
                Some(Ok(b)) => match af {
                    Some(Ok(a)) => match rf {
                        Some(Ok(r)) => Ok(
                            (input_stubs(t, "0"@) + input_stubs(b, "1"@) + input_stubs(
                                a,
                                "2"@,
                            )).push(result_stub(r)),
                        ),
                        _ => missing("result"@),
                    },
                    _ => missing("addition"@),
                },
                _ => missing("base"@),
            },
            _ => missing("template"@),
        },
    }
}

/// The vanilla recipe types and the shape each is read with.
pub enum VanillaShape {
    Shaped,
    Shapeless,
    Single,
    Smithing,
}

pub open spec fn vanilla_shape(t: Seq<char>) -> Option<VanillaShape> {
    if t == "minecraft:crafting_shaped"@ {
        Some(VanillaShape::Shaped)
    } else if t == "minecraft:crafting_shapeless"@ {
        Some(VanillaShape::Shapeless)
    } else if t == "minecraft:smelting"@ || t == "minecraft:blasting"@ || t
        == "minecraft:campfire_cooking"@ || t == "minecraft:smoking"@ || t
        == "minecraft:stonecutting"@ {
        Some(VanillaShape::Single)
    } else if t == "minecraft:smithing_transform"@ {
        Some(VanillaShape::Smithing)
    } else {
        None
    }
}

pub open spec fn spec_vanilla_body(shape: VanillaShape, m: Seq<(String, JsonValue)>) -> Result<
    Seq<StubView>,
    DecodeErrorView,
> {
    match shape {
        VanillaShape::Shaped => spec_shaped(m),
        VanillaShape::Shapeless => spec_shapeless(m),
        VanillaShape::Single => spec_single(m),
        VanillaShape::Smithing => spec_smithing(m),
    }
}

/// A vanilla recipe of type `t` (matched exactly, as written in the recipe) with fields `m`.
pub open spec fn spec_vanilla(id: Seq<char>, t: Seq<char>, m: Seq<(String, JsonValue)>) -> Result<
    Option<RecipeView>,
    RecipeErrorView,
> {
    match vanilla_shape(t) {
        None => Err(RecipeErrorView::UnknownRecipeType(t)),
        Some(shape) => match spec_vanilla_body(shape, m) {
            Ok(b) => Ok(Some(RecipeView { id, recipe_type: t, ingredients: b })),
            Err(e) => Err(RecipeErrorView::InvalidJsonPath(e)),
        },
    }
}

// ----- dispatch -----

/// The `type` of a recipe: absent and `null` are no type; anything but a string is refused.
pub open spec fn spec_recipe_type(data: JsonValue) -> Result<Option<Seq<char>>, DecodeErrorView> {
    match data {
        JsonValue::Object(m) => match lookup(m@, "type"@) {
            None => Ok(None),
            Some(i) => spec_opt_text(m@[i].1),
        },
        _ => Err(invalid_type(data, "struct BaseRecipe"@)),
    }
}

/// What reading a recipe gives: its type decides; a type that is no valid location
/// skips the recipe; the `minecraft` namespace goes to the vanilla shapes, every
/// other namespace to the custom format.
pub open spec fn spec_parse_recipe(id: Seq<char>, data: JsonValue) -> Result<
    Option<RecipeView>,
    RecipeErrorView,
> {
    match spec_recipe_type(data) {
        Err(e) => Err(RecipeErrorView::InvalidJson(e)),
        Ok(None) => Err(RecipeErrorView::MissingType),
        Ok(Some(t)) => match spec_parse_location(t) {
            None => Ok(None),
            Some(loc) => match data {
                JsonValue::Object(m) => if loc.0 == DEFAULT_NAMESPACE@ {
                    spec_vanilla(id, t, m@)
                } else {
                    spec_custom(id, t, m@)
                },
                _ => Err(RecipeErrorView::MissingType),
            },
        },
    }
}

/// The type text of a recipe whose type is no valid location, if it is one.
pub open spec fn skipped_type(data: JsonValue) -> Option<Seq<char>> {
    match spec_recipe_type(data) {
        Ok(Some(t)) => if spec_parse_location(t) is None {
            Some(t)
        } else {
            None
        },
        _ => None,
    }
}

// ----- exec: fields -----

fn text_at(m: &Vec<(String, JsonValue)>, name: &str) -> (out: (Option<Failure>, Option<String>))
    ensures
        failure_view(out.0) == failure(lookup(m@, name@), text_field(m@, name@)),
        match text_field(m@, name@) {
            Some(Ok(x)) => out.1 matches Some(s) && s@ == x,
            _ => out.1 is None,
        },
{
    match lookup_index(m, name) {
        None => (None, None),
        Some(i) => match decode_text(&m[i].1) {
            Ok(s) => (None, Some(s)),
            Err(e) => (Some(Failure { pos: i, error: err_under_key(name, e) }), None),
        },
    }
}

fn count_at(m: &Vec<(String, JsonValue)>, name: &str) -> (out: (Option<Failure>, Option<i32>))
    ensures
        failure_view(out.0) == failure(lookup(m@, name@), count_field(m@, name@)),
        match count_field(m@, name@) {
            Some(Ok(x)) => out.1 == Some(x),
            _ => out.1 is None,
        },
{
    match lookup_index(m, name) {
        None => (None, None),
        Some(i) => match decode_i32(&m[i].1) {
            Ok(n) => (None, Some(n)),
            Err(e) => (Some(Failure { pos: i, error: err_under_key(name, e) }), None),
        },
    }
}

fn text_list_at(m: &Vec<(String, JsonValue)>, name: &str) -> (out: (
    Option<Failure>,
    Option<Vec<String>>,
))
    ensures
        failure_view(out.0) == failure(lookup(m@, name@), text_list_field(m@, name@)),
        match text_list_field(m@, name@) {
            Some(Ok(x)) => out.1 matches Some(l) && texts_view(l@) == x,
            _ => out.1 is None,
        },
{
    match lookup_index(m, name) {
        None => (None, None),
        Some(i) => match decode_text_list(&m[i].1) {
            Ok(l) => (None, Some(l)),
            Err(e) => (Some(Failure { pos: i, error: err_under_key(name, e) }), None),
        },
    }
}

fn list_at(m: &Vec<(String, JsonValue)>, name: &str) -> (out: (
    Option<Failure>,
    Option<Vec<VanillaIngredient>>,
))
    ensures
        failure_view(out.0) == failure(lookup(m@, name@), list_field(m@, name@)),
        match list_field(m@, name@) {
            Some(Ok(x)) => out.1 matches Some(l) && views(l@) == x,
            _ => out.1 is None,
        },
{
    match lookup_index(m, name) {
        None => (None, None),
        Some(i) => match decode_list(&m[i].1) {
            Ok(l) => (None, Some(l)),
            Err(e) => (Some(Failure { pos: i, error: err_under_key(name, e) }), None),
        },
    }
}

fn groups_at(m: &Vec<(String, JsonValue)>, name: &str) -> (out: (
    Option<Failure>,
    Option<Vec<Vec<VanillaIngredient>>>,
))
    ensures
        failure_view(out.0) == failure(lookup(m@, name@), groups_field(m@, name@)),
        match groups_field(m@, name@) {
            Some(Ok(x)) => out.1 matches Some(g) && group_views(g@) == x,
            _ => out.1 is None,
        },
{
    match lookup_index(m, name) {
        None => (None, None),
        Some(i) => match decode_groups(&m[i].1) {
            Ok(g) => (None, Some(g)),
            Err(e) => (Some(Failure { pos: i, error: err_under_key(name, e) }), None),
        },
    }
}

fn key_map_at(m: &Vec<(String, JsonValue)>, name: &str) -> (out: (
    Option<Failure>,
    Option<Vec<(String, Vec<VanillaIngredient>)>>,
))
    ensures
        failure_view(out.0) == failure(lookup(m@, name@), key_map_field(m@, name@)),
        match key_map_field(m@, name@) {
            Some(Ok(x)) => out.1 matches Some(k) && key_views(k@) == x,
            _ => out.1 is None,
        },
{
    match lookup_index(m, name) {
        None => (None, None),
        Some(i) => match decode_key_map(&m[i].1) {
            Ok(k) => (None, Some(k)),
            Err(e) => (Some(Failure { pos: i, error: err_under_key(name, e) }), None),
        },
    }
}

fn result_at(m: &Vec<(String, JsonValue)>, name: &str) -> (out: (
    Option<Failure>,
    Option<VanillaResult>,
))
    ensures
        failure_view(out.0) == failure(lookup(m@, name@), result_field(m@, name@)),
        match result_field(m@, name@) {
            Some(Ok(x)) => out.1 matches Some(r) && r@ == x,
            _ => out.1 is None,
        },
{
    match lookup_index(m, name) {
        None => (None, None),
        Some(i) => match decode_result(&m[i].1) {
            Ok(r) => (None, Some(r)),
            Err(e) => (Some(Failure { pos: i, error: err_under_key(name, e) }), None),
        },
    }
}

/// Decodes a recipe result.
pub fn decode_result(v: &JsonValue) -> (r: Result<VanillaResult, DecodeError>)
    ensures
        result_result(r) == spec_result(*v),
{
    match v {
        JsonValue::String(s) => Ok(VanillaResult { id: s.clone(), count: 1 }),
        JsonValue::Object(m) => {
            let (idf, idv) = text_at(m, "id");
            let (cf, cv) = count_at(m, "count");
            match earlier_failure(idf, cf) {
                Some(f) => Err(f.error),
                None => match idv {
                    Some(id) => {
                        let count = match cv {
                            Some(c) => c,
                            None => 1,
                        };
                        Ok(VanillaResult { id, count })
                    },
                    None => Err(err_missing("id")),
                },
            }
        },
        _ => Err(
            err_invalid_type(v, "a string item id or an object with 'id' and optional 'count'"),
        ),
    }
}

pub proof fn lemma_key_entries_err(m: Seq<(String, JsonValue)>, n: int)
    requires
        0 <= n <= m.len(),
        spec_key_entries(m.subrange(0, n)) is Err,
    ensures
        spec_key_entries(m) == spec_key_entries(m.subrange(0, n)),
    decreases m.len() - n,
{
    if n < m.len() {
        assert(m.subrange(0, n + 1).drop_last() =~= m.subrange(0, n));
        lemma_key_entries_err(m, n + 1);
    } else {
        assert(m.subrange(0, n) =~= m);
    }
}

/// Decodes a map from keys to ingredient lists, keeping the entries in order.
pub fn decode_key_map(v: &JsonValue) -> (r: Result<Vec<(String, Vec<VanillaIngredient>)>, DecodeError>)
    ensures
        match r {
            Ok(k) => spec_key_map(*v) == Ok::<_, DecodeErrorView>(key_views(k@)),
            Err(e) => spec_key_map(*v) == Err::<Seq<(Seq<char>, Seq<IngredientView>)>, _>(e@),
        },
{
    match v {
        JsonValue::Object(m) => {
            let mut out: Vec<(String, Vec<VanillaIngredient>)> = Vec::new();
            let mut i: usize = 0;
            assert(m@.subrange(0, 0) =~= Seq::<(String, JsonValue)>::empty());
            assert(key_views(out@) =~= Seq::<(Seq<char>, Seq<IngredientView>)>::empty());
            while i < m.len()
                invariant
                    *v == JsonValue::Object(*m),
                    i <= m@.len(),
                    spec_key_entries(m@.subrange(0, i as int)) == Ok::<_, DecodeErrorView>(
                        key_views(out@),
                    ),
                decreases m@.len() - i,
            {
                let ghost nxt = m@.subrange(0, i + 1);
                assert(nxt.drop_last() =~= m@.subrange(0, i as int));
                assert(nxt.last() == m@[i as int]);
                let ghost prev = key_views(out@);
                match decode_list(&m[i].1) {
                    Err(e) => {
                        let r = err_under_key(m[i].0.as_str(), e);
                        assert(spec_key_entries(nxt) == Err::<
                            Seq<(Seq<char>, Seq<IngredientView>)>,
                            _,
                        >(r@));
                        proof {
                            lemma_key_entries_err(m@, i + 1);
                        }
                        return Err(r);
                    },
                    Ok(l) => {
                        let ghost entry = (m@[i as int].0@, views(l@));
                        out.push((m[i].0.clone(), l));
                        assert(key_views(out@) =~= prev.push(entry));
                    },
                }
                i = i + 1;
            }
            assert(m@.subrange(0, m@.len() as int) =~= m@);
            Ok(out)
        },
        _ => Err(err_invalid_type(v, "a map")),
    }
}

// ----- exec: building entries -----

/// Appends the entries of the alternatives `l` in input slot `slot`.
fn push_inputs(out: &mut Vec<StubRecipeIngredient>, l: &Vec<VanillaIngredient>, slot: &str)
    ensures
        stub_views(final(out)@) == stub_views(old(out)@) + input_stubs(views(l@), slot@),
{
    let ghost start = stub_views(out@);
    let mut j: usize = 0;
    assert(input_stubs(views(l@).subrange(0, 0), slot@) =~= Seq::<StubView>::empty());
    assert(start + Seq::<StubView>::empty() =~= start);
    while j < l.len()
        invariant
            j <= l@.len(),
            stub_views(out@) == start + input_stubs(views(l@).subrange(0, j as int), slot@),
        decreases l@.len() - j,
    {
        let ghost prev = stub_views(out@);
        let s = l[j].duplicate().into_stub(owned(slot), 1, true);
        out.push(s);
        assert(stub_views(out@) =~= prev.push(stub_of(l@[j as int]@, slot@, 1i32, true)));
        assert(input_stubs(views(l@).subrange(0, j + 1), slot@) =~= input_stubs(
            views(l@).subrange(0, j as int),
            slot@,
        ).push(stub_of(l@[j as int]@, slot@, 1i32, true)));
        j = j + 1;
    }
    assert(views(l@).subrange(0, l@.len() as int) =~= views(l@));
}

fn push_result(out: &mut Vec<StubRecipeIngredient>, r: VanillaResult)
    ensures
        stub_views(final(out)@) == stub_views(old(out)@).push(result_stub(r@)),
{
    proof {
        reveal_strlit("1");
    }
    let ghost prev = stub_views(out@);
    out.push(StubRecipeIngredient { item_id: r.id, slot: owned("1"), count: r.count, input: false, is_tag: false });
    assert(stub_views(out@) =~= prev.push(result_stub(r@)));
}

/// Characters with the Unicode `White_Space` property.
pub fn is_whitespace_char(c: char) -> (r: bool)
    ensures
        r == is_whitespace(c),
{
    ('\u{9}' <= c && c <= '\u{d}') || c == ' ' || c == '\u{85}' || c == '\u{a0}' || c == '\u{1680}'
        || ('\u{2000}' <= c && c <= '\u{200a}') || c == '\u{2028}' || c == '\u{2029}' || c
        == '\u{202f}' || c == '\u{205f}' || c == '\u{3000}'
}

/// Index of the last entry of `key` whose key is the one-character string `c`.
fn find_key(key: &Vec<(String, Vec<VanillaIngredient>)>, c: char) -> (r: Option<usize>)
    ensures
        match r {
            Some(i) => i < key@.len() && key_find(key_views(key@), seq![c]) == Some(
                views(key@[i as int].1@),
            ),
            None => key_find(key_views(key@), seq![c]) is None,
        },
{
    let mut k = String::new();
    push_char(&mut k, c);
    assert(k@ =~= seq![c]);
    let mut n = key.len();
    assert(key_views(key@).subrange(0, n as int) =~= key_views(key@));
    while n > 0
        invariant
            n <= key@.len(),
            k@ == seq![c],
            key_find(key_views(key@), seq![c]) == key_find(
                key_views(key@).subrange(0, n as int),
                seq![c],
            ),
        decreases n,
    {
        let ghost sub = key_views(key@).subrange(0, n as int);
        assert(sub.last() == key_views(key@)[n - 1]);
        if str_eq(key[n - 1].0.as_str(), k.as_str()) {
            return Some(n - 1);
        }
        assert(sub.drop_last() =~= key_views(key@).subrange(0, n - 1));
        n = n - 1;
    }
    None
}

/// The entries of a shaped recipe's grid.
fn grid_entries(pattern: &Vec<String>, key: &Vec<(String, Vec<VanillaIngredient>)>) -> (out: Vec<
    StubRecipeIngredient,
>)
    ensures
        stub_views(out@) == grid_stubs(key_views(key@), texts_view(pattern@)),
{
    let ghost kv = key_views(key@);
    let ghost pv = texts_view(pattern@);
    let mut out: Vec<StubRecipeIngredient> = Vec::new();
    let mut r: usize = 0;
    assert(pv.subrange(0, 0) =~= Seq::<Seq<char>>::empty());
    assert(stub_views(out@) =~= Seq::<StubView>::empty());
    while r < pattern.len()
        invariant
            kv == key_views(key@),
            pv == texts_view(pattern@),
            r <= pattern@.len(),
            stub_views(out@) == grid_stubs(kv, pv.subrange(0, r as int)),
        decreases pattern@.len() - r,
    {
        let row = char_vec(pattern[r].as_str());
        let ghost before = stub_views(out@);
        let mut c: usize = 0;
        assert(row@.subrange(0, 0) =~= Seq::<char>::empty());
        assert(before + Seq::<StubView>::empty() =~= before);
        while c < row.len()
            invariant
                kv == key_views(key@),
                c <= row@.len(),
                stub_views(out@) == before + row_stubs(kv, row@.subrange(0, c as int), r as nat),
            decreases row@.len() - c,
        {
            let ghost prev = stub_views(out@);
            let ghost cells = row@.subrange(0, c + 1);
            assert(cells.drop_last() =~= row@.subrange(0, c as int));
            assert(cells.last() == row@[c as int]);
            let ch = row[c];
            if !is_whitespace_char(ch) {
                match find_key(key, ch) {
                    Some(ki) => {
                        let n: u128 = (r as u128) * 3 + (c as u128) + 1;
                        let slot = u128_to_string(n);
                        push_inputs(&mut out, &key[ki].1, slot.as_str());
                    },
                    None => {},
                }
            }
            assert(stub_views(out@) =~= prev + cell_stubs(kv, ch, r as nat, c as nat));
            assert(before + row_stubs(kv, cells, r as nat) =~= prev + cell_stubs(
                kv,
                ch,
                r as nat,
                c as nat,
            ));
            c = c + 1;
        }
        assert(row@.subrange(0, row@.len() as int) =~= row@);
        let ghost rows = pv.subrange(0, r + 1);
        assert(rows.drop_last() =~= pv.subrange(0, r as int));
        assert(rows.last() == pattern@[r as int]@);
        r = r + 1;
    }
    assert(pv.subrange(0, pattern@.len() as int) =~= pv);
    out
}

/// The entries of a list of ingredient positions.
fn group_entries(g: &Vec<Vec<VanillaIngredient>>) -> (out: Vec<StubRecipeIngredient>)
    ensures
        stub_views(out@) == group_stubs(group_views(g@)),
{
    let ghost gv = group_views(g@);
    let mut out: Vec<StubRecipeIngredient> = Vec::new();
    let mut i: usize = 0;
    assert(gv.subrange(0, 0) =~= Seq::<Seq<IngredientView>>::empty());
    assert(stub_views(out@) =~= Seq::<StubView>::empty());
    while i < g.len()
        invariant
            gv == group_views(g@),
            i <= g@.len(),
            stub_views(out@) == group_stubs(gv.subrange(0, i as int)),
        decreases g@.len() - i,
    {
        let ghost nxt = gv.subrange(0, i + 1);
        assert(nxt.drop_last() =~= gv.subrange(0, i as int));
        assert(nxt.last() == views(g@[i as int]@));
        let slot = u128_to_string((i as u128) + 1);
        push_inputs(&mut out, &g[i], slot.as_str());
        i = i + 1;
    }
    assert(gv.subrange(0, g@.len() as int) =~= gv);
    out
}

// ----- exec: the vanilla shapes -----

fn shaped(m: &Vec<(String, JsonValue)>) -> (r: Result<Vec<StubRecipeIngredient>, DecodeError>)
    ensures
        match r {
            Ok(o) => spec_shaped(m@) == Ok::<_, DecodeErrorView>(stub_views(o@)),
            Err(e) => spec_shaped(m@) == Err::<Seq<StubView>, _>(e@),
        },
{
    let (pf, pv) = text_list_at(m, "pattern");
    let (kf, kv) = key_map_at(m, "key");
    let (rf, rv) = result_at(m, "result");
    match earlier_failure(earlier_failure(pf, kf), rf) {
        Some(f) => Err(f.error),
        None => match pv {
            None => Err(err_missing("pattern")),
            Some(p) => match kv {
                None => Err(err_missing("key")),
                Some(k) => match rv {
                    None => Err(err_missing("result")),
                    Some(res) => {
                        let mut out = grid_entries(&p, &k);
                        push_result(&mut out, res);
                        Ok(out)
                    },
                },
            },
        },
    }
}

fn shapeless(m: &Vec<(String, JsonValue)>) -> (r: Result<Vec<StubRecipeIngredient>, DecodeError>)
    ensures
        match r {
            Ok(o) => spec_shapeless(m@) == Ok::<_, DecodeErrorView>(stub_views(o@)),
            Err(e) => spec_shapeless(m@) == Err::<Seq<StubView>, _>(e@),
        },
{
    let (gf, gv) = groups_at(m, "ingredients");
    let (rf, rv) = result_at(m, "result");
    match earlier_failure(gf, rf) {
        Some(f) => Err(f.error),
        None => match gv {
            None => Err(err_missing("ingredients")),
            Some(g) => match rv {
                None => Err(err_missing("result")),
                Some(res) => {
                    let mut out = group_entries(&g);
                    push_result(&mut out, res);
                    Ok(out)
                },
            },
        },
    }
}

fn single(m: &Vec<(String, JsonValue)>) -> (r: Result<Vec<StubRecipeIngredient>, DecodeError>)
    ensures
        match r {
            Ok(o) => spec_single(m@) == Ok::<_, DecodeErrorView>(stub_views(o@)),
            Err(e) => spec_single(m@) == Err::<Seq<StubView>, _>(e@),
        },
{
    let (lf, lv) = list_at(m, "ingredient");
    let (rf, rv) = result_at(m, "result");
    match earlier_failure(lf, rf) {
        Some(f) => Err(f.error),
        None => match lv {
            None => Err(err_missing("ingredient")),
            Some(l) => match rv {
                None => Err(err_missing("result")),
                Some(res) => {
                    let mut out: Vec<StubRecipeIngredient> = Vec::new();
                    assert(stub_views(out@) =~= Seq::<StubView>::empty());
                    push_inputs(&mut out, &l, "1");
                    push_result(&mut out, res);
                    Ok(out)
                },
            },
        },
    }
}

fn smithing(m: &Vec<(String, JsonValue)>) -> (r: Result<Vec<StubRecipeIngredient>, DecodeError>)
    ensures
        match r {
            Ok(o) => spec_smithing(m@) == Ok::<_, DecodeErrorView>(stub_views(o@)),
            Err(e) => spec_smithing(m@) == Err::<Seq<StubView>, _>(e@),
        },
{
    let (tf, tv) = list_at(m, "template");
    let (bf, bv) = list_at(m, "base");
    let (af, av) = list_at(m, "addition");
    let (rf, rv) = result_at(m, "result");
    match earlier_failure(earlier_failure(earlier_failure(tf, bf), af), rf) {
        Some(f) => Err(f.error),
        None => match tv {
            None => Err(err_missing("template")),
            Some(t) => match bv {
                None => Err(err_missing("base")),
                Some(b) => match av {
                    None => Err(err_missing("addition")),
                    Some(a) => match rv {
                        None => Err(err_missing("result")),
                        Some(res) => {
                            let mut out: Vec<StubRecipeIngredient> = Vec::new();
                            assert(stub_views(out@) =~= Seq::<StubView>::empty());
                            push_inputs(&mut out, &t, "0");
                            push_inputs(&mut out, &b, "1");
                            push_inputs(&mut out, &a, "2");
                            push_result(&mut out, res);
                            assert(Seq::<StubView>::empty() + input_stubs(views(t@), "0"@)
                                =~= input_stubs(views(t@), "0"@));
                            Ok(out)
                        },
                    },
                },
            },
        },
    }
}

/// Reads the recipes of the `minecraft` namespace.
pub struct VanillaRecipeParser;

impl VanillaRecipeParser {
    pub fn new() -> (r: VanillaRecipeParser) {
        VanillaRecipeParser
    }

    /// Whether this parser reads recipes whose type lies in `loc`'s namespace.
    pub fn handles(&self, loc: &ResourceLocation) -> (r: bool)
        ensures
            r == (loc.namespace@ == DEFAULT_NAMESPACE@),
    {
        str_eq(loc.namespace.as_str(), DEFAULT_NAMESPACE)
    }

    /// Reads a recipe of type `recipe_type` whose fields are `m`.
    pub fn parse(&self, id: &str, recipe_type: &str, m: &Vec<(String, JsonValue)>) -> (r: Result<
        Option<StubRecipe>,
        RecipeParseError,
    >)
        ensures
            outcome_view(r) == spec_vanilla(id@, recipe_type@, m@),
    {
        let body = if str_eq(recipe_type, "minecraft:crafting_shaped") {
            shaped(m)
        } else if str_eq(recipe_type, "minecraft:crafting_shapeless") {
            shapeless(m)
        } else if str_eq(recipe_type, "minecraft:smelting") || str_eq(
            recipe_type,
            "minecraft:blasting",
        ) || str_eq(recipe_type, "minecraft:campfire_cooking") || str_eq(
            recipe_type,
            "minecraft:smoking",
        ) || str_eq(recipe_type, "minecraft:stonecutting") {
            single(m)
        } else if str_eq(recipe_type, "minecraft:smithing_transform") {
            smithing(m)
        } else {
            return Err(RecipeParseError::UnknownRecipeType(owned(recipe_type)));
        };
        match body {
            Ok(ingredients) => Ok(
                Some(StubRecipe { id: owned(id), recipe_type: owned(recipe_type), ingredients }),
            ),
            Err(e) => Err(RecipeParseError::InvalidJsonPath(e)),
        }
    }
}

/// Sends each recipe to the parser of its type's namespace.
pub struct RecipeParserRegistry {
    pub vanilla: VanillaRecipeParser,
    pub custom: CustomRecipeParser,
}

/// The registry with the vanilla and the custom parser.
pub fn default_registry() -> (r: RecipeParserRegistry) {
    RecipeParserRegistry { vanilla: VanillaRecipeParser::new(), custom: CustomRecipeParser }
}

/// Reads the `type` of a recipe.
fn recipe_type_of(data: &JsonValue) -> (r: Result<Option<String>, DecodeError>)
    ensures
        match r {
            Ok(Some(t)) => spec_recipe_type(*data) == Ok::<_, DecodeErrorView>(Some(t@)),
            Ok(None) => spec_recipe_type(*data) == Ok::<_, DecodeErrorView>(None::<Seq<char>>),
            Err(e) => spec_recipe_type(*data) == Err::<Option<Seq<char>>, _>(e@),
        },
{
    match data {
        JsonValue::Object(m) => match lookup_index(m, "type") {
            None => Ok(None),
            Some(i) => decode_opt_text(&m[i].1),
        },
        _ => Err(err_invalid_type(data, "struct BaseRecipe")),
    }
}

impl RecipeParserRegistry {
    pub fn new() -> (r: RecipeParserRegistry) {
        default_registry()
    }

    /// Reads the recipe `id` from its document. A type that is no valid location
    /// is recorded as an issue and the recipe is skipped (`Ok(None)`).
    pub fn parse_recipe(&self, id: &str, data: &JsonValue, issues: &mut FileIssues) -> (r: Result<
        Option<StubRecipe>,
        RecipeParseError,
    >)
        ensures
            outcome_view(r) == spec_parse_recipe(id@, *data),
            final(issues).file@ == old(issues).file@,
            match skipped_type(*data) {
                Some(t) => issue_views(final(issues).issues@) == issue_views(
                    old(issues).issues@,
                ).push(ingestor_issue(old(issues).file@, ProjectError::InvalidResloc, t)),
                None => final(issues).issues@ == old(issues).issues@,
            },
    {
        let type_str = match recipe_type_of(data) {
            Err(e) => {
                return Err(RecipeParseError::InvalidJson(e));
            },
            Ok(None) => {
                return Err(RecipeParseError::MissingType);
            },
            Ok(Some(t)) => t,
        };
        let loc = match issues.parse_resloc(type_str.as_str()) {
            None => {
                return Ok(None);
            },
            Some(l) => l,
        };
        match data {
            JsonValue::Object(m) => {
                if self.vanilla.handles(&loc) {
                    self.vanilla.parse(id, type_str.as_str(), m)
                } else {
                    self.custom.parse(id, type_str.as_str(), m)
                }
            },
            _ => Err(RecipeParseError::MissingType),
        }
    }
}

} // verus!
