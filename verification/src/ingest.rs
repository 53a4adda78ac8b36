//! What the ingestion of a project's files gathers: the items it finds, the pages
//! that describe them, and their tag and workbench entries.
use vstd::prelude::*;
use crate::custom_recipe::{lemma_seq_lt_irreflexive, lemma_seq_lt_total, lemma_seq_lt_transitive};
use crate::fields::{Failure, decode_text, earlier_failure, failure_view};
use crate::format::strip_doc_ext;
use crate::issues::{FileIssues, IssueView, ProjectError, issue_views, ingestor_issue};
use crate::json::{DecodeError, DecodeErrorView, JsonValue, err_invalid_type, err_missing, err_under_key, lookup, lookup_index};
use crate::resloc::{ResourceLocation, location_text, spec_parse_location};
use crate::text::{
    char_vec, concat3, owned, push_str, replace_all, replace_all_str, seq_lt, split_on, str_eq,
    str_lt, strip_suffix_or_keep,
};

verus! {

// ----- the items a preparation finds -----

/// The names strictly increase.
pub open spec fn items_sorted(s: Seq<Seq<char>>) -> bool {
    forall|i: int, j: int| 0 <= i < j < s.len() ==> seq_lt(#[trigger] s[i], #[trigger] s[j])
}

/// `s` with `k` added in its place (nothing changes when it is there).
pub open spec fn insert_item(s: Seq<Seq<char>>, k: Seq<char>) -> Seq<Seq<char>>
    decreases s.len(),
{
    if s.len() == 0 {
        seq![k]
    } else if s[0] == k {
        s
    } else if seq_lt(k, s[0]) {
        seq![k] + s
    } else {
        seq![s[0]] + insert_item(s.drop_first(), k)
    }
}

/// Law: adding an item keeps the items sorted and adds exactly that item.
pub proof fn lemma_insert_item(s: Seq<Seq<char>>, k: Seq<char>)
    requires
        items_sorted(s),
    ensures
        items_sorted(insert_item(s, k)),
        forall|x: Seq<char>| #[trigger] insert_item(s, k).contains(x) <==> (s.contains(x) || x == k),
    decreases s.len(),
{
    let r = insert_item(s, k);
    if s.len() == 0 {
        assert forall|x: Seq<char>| #[trigger] r.contains(x) <==> (s.contains(x) || x == k) by {
            if r.contains(x) {
                let w = choose|w: int| 0 <= w < r.len() && r[w] == x;
            }
            if x == k {
                assert(r[0] == k);
            }
        }
    } else if s[0] == k {
        assert forall|x: Seq<char>| #[trigger] r.contains(x) <==> (s.contains(x) || x == k) by {
            if x == k {
                assert(s[0] == k);
            }
        }
    } else if seq_lt(k, s[0]) {
        assert(items_sorted(r)) by {
            assert forall|i: int, j: int| 0 <= i < j < r.len() implies seq_lt(
                #[trigger] r[i],
                #[trigger] r[j],
            ) by {
                if i == 0 {
                    if j > 1 {
                        lemma_seq_lt_transitive(k, s[0], s[j - 1]);
                    }
                } else {
                    assert(r[i] == s[i - 1]);
                    assert(r[j] == s[j - 1]);
                }
            }
        }
        assert forall|x: Seq<char>| #[trigger] r.contains(x) <==> (s.contains(x) || x == k) by {
            if r.contains(x) {
                let w = choose|w: int| 0 <= w < r.len() && r[w] == x;
                if w > 0 {
                    assert(s[w - 1] == x);
                }
            }
            if s.contains(x) {
                let w = choose|w: int| 0 <= w < s.len() && s[w] == x;
                assert(r[w + 1] == x);
            }
            if x == k {
                assert(r[0] == k);
            }
        }
    } else {
        let tail = s.drop_first();
        assert(items_sorted(tail)) by {
            assert forall|i: int, j: int| 0 <= i < j < tail.len() implies seq_lt(
                #[trigger] tail[i],
                #[trigger] tail[j],
            ) by {
                assert(tail[i] == s[i + 1]);
                assert(tail[j] == s[j + 1]);
            }
        }
        lemma_insert_item(tail, k);
        let rt = insert_item(tail, k);
        assert(r == seq![s[0]] + rt);
        lemma_seq_lt_total(k, s[0]);
        assert forall|j: int| 0 <= j < rt.len() implies seq_lt(s[0], #[trigger] rt[j]) by {
            assert(rt.contains(rt[j]));
            if rt[j] != k {
                assert(tail.contains(rt[j]));
                let w = choose|w: int| 0 <= w < tail.len() && tail[w] == rt[j];
                assert(tail[w] == s[w + 1]);
            }
        }
        assert(items_sorted(r)) by {
            assert forall|i: int, j: int| 0 <= i < j < r.len() implies seq_lt(
                #[trigger] r[i],
                #[trigger] r[j],
            ) by {
                if i == 0 {
                    assert(r[j] == rt[j - 1]);
                } else {
                    assert(r[i] == rt[i - 1]);
                    assert(r[j] == rt[j - 1]);
                }
            }
        }
        assert forall|x: Seq<char>| #[trigger] r.contains(x) <==> (s.contains(x) || x == k) by {
            if r.contains(x) {
                let w = choose|w: int| 0 <= w < r.len() && r[w] == x;
                if w > 0 {
                    assert(rt[w - 1] == x);
                    assert(rt.contains(x));
                    if x != k {
                        let v = choose|v: int| 0 <= v < tail.len() && tail[v] == x;
                        assert(s[v + 1] == x);
                    }
                } else {
                    assert(s[0] == x);
                }
            }
            if s.contains(x) {
                let w = choose|w: int| 0 <= w < s.len() && s[w] == x;
                if w == 0 {
                    assert(r[0] == x);
                } else {
                    assert(tail[w - 1] == x);
                    assert(tail.contains(x));
                    assert(rt.contains(x));
                    let v = choose|v: int| 0 <= v < rt.len() && rt[v] == x;
                    assert(r[v + 1] == x);
                }
            }
            if x == k {
                assert(rt.contains(k));
                let v = choose|v: int| 0 <= v < rt.len() && rt[v] == k;
                assert(r[v + 1] == k);
            }
        }
    }
}

pub open spec fn item_views(v: Seq<String>) -> Seq<Seq<char>> {
    v.map_values(|s: String| s@)
}

/// The items a sub-ingestor found while preparing, kept sorted and without repeats.
#[derive(Debug, Clone)]
pub struct PreparationResult {
    items: Vec<String>,
}

impl View for PreparationResult {
    type V = Seq<Seq<char>>;

    closed spec fn view(&self) -> Seq<Seq<char>> {
        item_views(self.items@)
    }
}

impl PreparationResult {
    /// The sorted, repeat-free state every result keeps.
    pub closed spec fn wf(&self) -> bool {
        items_sorted(self@)
    }

    pub fn new() -> (r: PreparationResult)
        ensures
            r.wf(),
            r@.len() == 0,
    {
        let r = PreparationResult { items: Vec::new() };
        assert(r@ =~= Seq::<Seq<char>>::empty());
        r
    }

    /// The items, in order.
    pub fn items(&self) -> (r: &Vec<String>)
        ensures
            item_views(r@) == self@,
    {
        &self.items
    }

    /// Adds an item.
    pub fn insert(&mut self, item: String)
        requires
            old(self).wf(),
        ensures
            final(self).wf(),
            final(self)@ == insert_item(old(self)@, item@),
            forall|x: Seq<char>| #[trigger] final(self)@.contains(x) <==> (old(self)@.contains(x) || x
                == item@),
    {
        let ghost sv = self@;
        let ghost kv = item@;
        proof {
            lemma_insert_item(sv, kv);
        }
        let kc = char_vec(item.as_str());
        let mut i: usize = 0;
        assert(sv.subrange(0, 0) + insert_item(sv.subrange(0, sv.len() as int), kv) =~= insert_item(sv, kv)) by {
            assert(sv.subrange(0, sv.len() as int) =~= sv);
        }
        while i < self.items.len()
            invariant
                sv == item_views(self.items@),
                sv == old(self)@,
                kv == item@,
                kc@ == item@,
                i <= self.items@.len(),
                sv.subrange(0, i as int) + insert_item(sv.subrange(i as int, sv.len() as int), kv)
                    == insert_item(sv, kv),
                items_sorted(insert_item(sv, kv)),
                items_sorted(sv),
            decreases self.items@.len() - i,
        {
            let ghost tail = sv.subrange(i as int, sv.len() as int);
            assert(tail[0] == sv[i as int]);
            if str_eq(self.items[i].as_str(), item.as_str()) {
                assert(tail =~= insert_item(tail, kv));
                assert(sv.subrange(0, i as int) + tail =~= sv);
                return;
            }
            let sc = char_vec(self.items[i].as_str());
            if str_lt(kc.as_slice(), sc.as_slice()) {
                self.items.insert(i, item);
                assert(item_views(self.items@) =~= sv.subrange(0, i as int) + (seq![kv] + tail));
                proof {
                    lemma_insert_item(sv, kv);
                }
                return;
            }
            assert(tail.drop_first() =~= sv.subrange(i + 1, sv.len() as int));
            assert(sv.subrange(0, i + 1) =~= sv.subrange(0, i as int) + seq![tail[0]]);
            i = i + 1;
        }
        self.items.push(item);
        assert(item_views(self.items@) =~= sv + seq![kv]);
        assert(sv.subrange(0, sv.len() as int) =~= sv);
    }

    /// Adds the items of `other`.
    pub fn merge(&mut self, other: PreparationResult)
        requires
            old(self).wf(),
        ensures
            final(self).wf(),
            forall|x: Seq<char>| #[trigger] final(self)@.contains(x) <==> (old(self)@.contains(x)
                || other@.contains(x)),
    {
        let ghost ov = other@;
        let ghost start = self@;
        let mut i: usize = 0;
        while i < other.items.len()
            invariant
                self.wf(),
                ov == item_views(other.items@),
                i <= other.items@.len(),
                forall|x: Seq<char>| #[trigger] self@.contains(x) <==> (start.contains(x)
                    || ov.subrange(0, i as int).contains(x)),
            decreases other.items@.len() - i,
        {
            let ghost before = self@;
            proof {
                lemma_insert_item(before, ov[i as int]);
            }
            self.insert(other.items[i].clone());
            assert forall|x: Seq<char>| #[trigger] self@.contains(x) <==> (start.contains(x)
                || ov.subrange(0, i + 1).contains(x)) by {
                if ov.subrange(0, i + 1).contains(x) {
                    let w = choose|w: int| 0 <= w < i + 1 && #[trigger] ov.subrange(0, i + 1)[w] == x;
                    if w < i {
                        assert(ov.subrange(0, i as int)[w] == x);
                    }
                }
                if ov.subrange(0, i as int).contains(x) {
                    let w = choose|w: int| 0 <= w < i && #[trigger] ov.subrange(0, i as int)[w] == x;
                    assert(ov.subrange(0, i + 1)[w] == x);
                }
                if x == ov[i as int] {
                    assert(ov.subrange(0, i + 1)[i as int] == x);
                }
            }
            i = i + 1;
        }
        assert(ov.subrange(0, other.items@.len() as int) =~= ov);
    }
}

// ----- tags and workbenches -----

/// One entry of a tag file: a tag id.
#[derive(Debug, Clone)]
pub struct TagValue(pub String);

/// A tag entry: a string, or an object whose `id` is one.
pub open spec fn spec_tag_value(v: JsonValue) -> Result<Seq<char>, DecodeErrorView> {
    match v {
        JsonValue::String(s) => Ok(s@),
        JsonValue::Object(m) => match lookup(m@, "id"@) {
            None => Err(crate::json::here(crate::json::DecodeErrorKindView::MissingField("id"@))),
            Some(i) => crate::recipe::keyed("id"@, crate::fields::spec_text(m@[i].1)),
        },
        _ => Err(crate::json::invalid_type(v, "a tag id string or an object with an 'id' field"@)),
    }
}

impl TagValue {
    pub fn from_json(v: &JsonValue) -> (r: Result<TagValue, DecodeError>)
        ensures
            match r {
                Ok(t) => spec_tag_value(*v) == Ok::<_, DecodeErrorView>(t.0@),
                Err(e) => spec_tag_value(*v) == Err::<Seq<char>, _>(e@),
            },
    {
        match v {
            JsonValue::String(s) => Ok(TagValue(s.clone())),
            JsonValue::Object(m) => match lookup_index(m, "id") {
                None => Err(err_missing("id")),
                Some(i) => match decode_text(&m[i].1) {
                    Ok(s) => Ok(TagValue(s)),
                    Err(e) => Err(err_under_key("id", e)),
                },
            },
            _ => Err(err_invalid_type(v, "a tag id string or an object with an 'id' field")),
        }
    }
}

/// Decoding of the values of a tag file, the first bad one located by its index.
pub open spec fn spec_tag_values(xs: Seq<JsonValue>) -> Result<Seq<Seq<char>>, DecodeErrorView>
    decreases xs.len(),
{
    if xs.len() == 0 {
        Ok(Seq::empty())
    } else {
        match spec_tag_values(xs.drop_last()) {
            Err(e) => Err(e),
            Ok(p) => match spec_tag_value(xs.last()) {
                Err(e) => Err(crate::json::under(crate::json::PathSegmentView::Index((xs.len() - 1) as nat), e)),
                Ok(s) => Ok(p.push(s)),
            },
        }
    }
}

/// A tag file: an object whose `values` (none when left out) are tag values.
pub open spec fn spec_tag_file(doc: JsonValue) -> Result<Seq<Seq<char>>, DecodeErrorView> {
    match doc {
        JsonValue::Object(m) => match lookup(m@, "values"@) {
            None => Ok(Seq::empty()),
            Some(i) => match m@[i].1 {
                JsonValue::Array(xs) => match spec_tag_values(xs@) {
                    Ok(v) => Ok(v),
                    Err(e) => Err(crate::json::under(crate::json::PathSegmentView::Key("values"@), e)),
                },
                _ => Err(crate::json::under(
                    crate::json::PathSegmentView::Key("values"@),
                    crate::json::invalid_type(m@[i].1, "a sequence"@),
                )),
            },
        },
        _ => Err(crate::json::invalid_type(doc, "struct TagFile"@)),
    }
}

pub open spec fn tag_texts(v: Seq<TagValue>) -> Seq<Seq<char>> {
    v.map_values(|t: TagValue| t.0@)
}

proof fn lemma_tag_values_err(xs: Seq<JsonValue>, n: int)
    requires
        0 <= n <= xs.len(),
        spec_tag_values(xs.subrange(0, n)) is Err,
    ensures
        spec_tag_values(xs) == spec_tag_values(xs.subrange(0, n)),
    decreases xs.len() - n,
{
    if n < xs.len() {
        assert(xs.subrange(0, n + 1).drop_last() =~= xs.subrange(0, n));
        lemma_tag_values_err(xs, n + 1);
    } else {
        assert(xs.subrange(0, n) =~= xs);
    }
}

/// Reads the values of a tag file (see `spec_tag_file`).
pub fn decode_tag_file(doc: &JsonValue) -> (r: Result<Vec<TagValue>, DecodeError>)
    ensures
        match r {
            Ok(v) => spec_tag_file(*doc) == Ok::<_, DecodeErrorView>(tag_texts(v@)),
            Err(e) => spec_tag_file(*doc) == Err::<Seq<Seq<char>>, _>(e@),
        },
{
    let m = match doc {
        JsonValue::Object(m) => m,
        _ => {
            return Err(err_invalid_type(doc, "struct TagFile"));
        },
    };
    let k = match lookup_index(m, "values") {
        None => {
            let out: Vec<TagValue> = Vec::new();
            assert(tag_texts(out@) =~= Seq::<Seq<char>>::empty());
            return Ok(out);
        },
        Some(k) => k,
    };
    let xs = match &m[k].1 {
        JsonValue::Array(xs) => xs,
        other => {
            return Err(err_under_key("values", err_invalid_type(other, "a sequence")));
        },
    };
    let mut out: Vec<TagValue> = Vec::new();
    let mut i: usize = 0;
    assert(xs@.subrange(0, 0) =~= Seq::<JsonValue>::empty());
    assert(tag_texts(out@) =~= Seq::<Seq<char>>::empty());
    while i < xs.len()
        invariant
            *doc == JsonValue::Object(*m),
            lookup(m@, "values"@) == Some(k as int),
            k < m@.len(),
            m@[k as int].1 == JsonValue::Array(*xs),
            i <= xs@.len(),
            spec_tag_values(xs@.subrange(0, i as int)) == Ok::<_, DecodeErrorView>(tag_texts(out@)),
        decreases xs@.len() - i,
    {
        let ghost nxt = xs@.subrange(0, i + 1);
        assert(nxt.drop_last() =~= xs@.subrange(0, i as int));
        assert(nxt.last() == xs@[i as int]);
        let ghost prev = tag_texts(out@);
        match TagValue::from_json(&xs[i]) {
            Err(e) => {
                let ghost ev = e@;
                let inner = crate::json::err_under_index(i, e);
                assert(spec_tag_values(nxt) == Err::<Seq<Seq<char>>, _>(inner@));
                proof {
                    lemma_tag_values_err(xs@, i + 1);
                }
                assert(spec_tag_values(xs@) == Err::<Seq<Seq<char>>, _>(inner@));
                let r = err_under_key("values", inner);
                return Err(r);
            },
            Ok(t) => {
                let ghost tv = t.0@;
                out.push(t);
                assert(tag_texts(out@) =~= prev.push(tv));
            },
        }
        i = i + 1;
    }
    assert(xs@.subrange(0, xs@.len() as int) =~= xs@);
    Ok(out)
}

/// The items that work as the workbench of a recipe type.
#[derive(Debug, Clone)]
pub struct StubWorkbenches {
    pub recipe_type: String,
    pub items: Vec<String>,
}

// ----- content pages -----

/// A content page: its file and the items it describes.
#[derive(Debug, Clone)]
pub struct ContentPage {
    pub path: String,
    pub items: Vec<String>,
}

/// Whether `s` names a location in namespace `ns`.
pub open spec fn id_in_namespace(s: Seq<char>, ns: Seq<char>) -> bool {
    match spec_parse_location(s) {
        Some(l) => l.0 == ns,
        None => false,
    }
}

/// The path of the location `s` names.
pub open spec fn parsed_path(s: Seq<char>) -> Seq<char> {
    match spec_parse_location(s) {
        Some(l) => l.1,
        None => Seq::empty(),
    }
}

/// The text of the location `s` names, namespace included.
pub open spec fn parsed_text(s: Seq<char>) -> Seq<char> {
    match spec_parse_location(s) {
        Some(l) => location_text(l.0, l.1),
        None => s,
    }
}

/// The content pages found so far, by reference.
#[derive(Debug, Clone, Default)]
pub struct ContentPathsSubIngestor {
    pub pages: Vec<(String, ContentPage)>,
}

/// The workbench entries found so far, with their files.
#[derive(Debug, Clone, Default)]
pub struct MetadataSubIngestor {
    pub workbenches: Vec<(StubWorkbenches, String)>,
}

pub open spec fn taken(existing: Seq<Seq<char>>, r: Seq<char>) -> bool {
    existing.contains(r)
}

fn is_taken(existing: &Vec<String>, r: &str) -> (b: bool)
    ensures
        b == taken(item_views(existing@), r@),
{
    let mut i: usize = 0;
    while i < existing.len()
        invariant
            i <= existing@.len(),
            forall|j: int| 0 <= j < i ==> #[trigger] existing@[j]@ != r@,
        decreases existing@.len() - i,
    {
        if str_eq(existing[i].as_str(), r) {
            assert(item_views(existing@)[i as int] == r@);
            return true;
        }
        i = i + 1;
    }
    assert(!item_views(existing@).contains(r@)) by {
        if item_views(existing@).contains(r@) {
            let w = choose|w: int| 0 <= w < existing@.len() && item_views(existing@)[w] == r@;
            assert(existing@[w]@ == r@);
        }
    }
    false
}

/// The last `/`-separated part of `s`.
pub open spec fn last_part(s: Seq<char>) -> Seq<char> {
    split_on(s, '/').last()
}

fn last_part_of(s: &str) -> (r: String)
    ensures
        r@ == last_part(s@),
{
    let cs = char_vec(s);
    let parts = crate::text::split_chars(cs.as_slice(), '/');
    proof {
        crate::paths::lemma_split_nonempty(s@, '/');
    }
    let last = &parts[parts.len() - 1];
    assert(last@ == crate::text::chars_views(parts@).last());
    crate::text::string_of(last.as_slice())
}

/// The reference of a content page: the author's own when free; else, for a page
/// of one item, the item's path with `/` made `_` when free; else the file's name
/// without `.mdx` when free; else its whole path, `/` made `_`. A single item id
/// that is no location gives no reference.
pub open spec fn spec_page_ref(
    user_ref: Option<Seq<char>>,
    ids: Seq<Seq<char>>,
    path: Seq<char>,
    existing: Seq<Seq<char>>,
) -> Option<Seq<char>> {
    let without_ext = strip_suffix_or_keep(path, ".mdx"@);
    if user_ref is Some && !taken(existing, user_ref->0) {
        user_ref
    } else if ids.len() == 1 && spec_parse_location(ids[0]) is None {
        None
    } else if ids.len() == 1 && !taken(
        existing,
        replace_all(parsed_path(ids[0]), "/"@, "_"@),
    ) {
        Some(replace_all(parsed_path(ids[0]), "/"@, "_"@))
    } else if !taken(existing, replace_all(last_part(without_ext), "/"@, "_"@)) {
        Some(replace_all(last_part(without_ext), "/"@, "_"@))
    } else {
        Some(replace_all(without_ext, "/"@, "_"@))
    }
}

/// The reference of last resort: the page's whole path without `.mdx`, `/` made `_`.
pub open spec fn full_path_ref(path: Seq<char>) -> Seq<char> {
    replace_all(strip_suffix_or_keep(path, ".mdx"@), "/"@, "_"@)
}

/// Law: a page reference is never one already taken, unless it is the page's whole
/// path (the reference of last resort); a free reference the author chose is kept;
/// and only pages of one item that is no location get none.
pub proof fn lemma_page_ref_fresh(
    user_ref: Option<Seq<char>>,
    ids: Seq<Seq<char>>,
    path: Seq<char>,
    existing: Seq<Seq<char>>,
)
    ensures
        spec_page_ref(user_ref, ids, path, existing) matches Some(r) ==> !existing.contains(r) || r
            == full_path_ref(path),
        user_ref matches Some(u) ==> (!existing.contains(u) ==> spec_page_ref(user_ref, ids, path, existing)
            == Some(u)),
        spec_page_ref(user_ref, ids, path, existing) is None ==> ids.len() == 1 && spec_parse_location(ids[0]) is None,
{
}

pub fn get_page_ref(user_ref: Option<&str>, ids: &Vec<String>, path: &str, existing: &Vec<String>) -> (r: Option<
    String,
>)
    ensures
        crate::issues::opt_view(r) == spec_page_ref(
            match user_ref {
                Some(u) => Some(u@),
                None => None,
            },
            item_views(ids@),
            path@,
            item_views(existing@),
        ),
        r matches Some(x) ==> !item_views(existing@).contains(x@) || x@ == full_path_ref(path@),
{
    proof {
        lemma_page_ref_fresh(
            match user_ref {
                Some(u) => Some(u@),
                None => None,
            },
            item_views(ids@),
            path@,
            item_views(existing@),
        );
        reveal_strlit("/");
        reveal_strlit(".mdx");
    }
    if let Some(custom) = user_ref {
        if !is_taken(existing, custom) {
            return Some(owned(custom));
        }
    }
    if ids.len() == 1 {
        let loc = match ResourceLocation::parse(ids[0].as_str()) {
            Some(l) => l,
            None => {
                return None;
            },
        };
        let primary = replace_all_str(loc.path.as_str(), "/", "_");
        if !is_taken(existing, primary.as_str()) {
            return Some(primary);
        }
    }
    let without_ext = strip_doc_ext(path);
    let name = last_part_of(without_ext.as_str());
    let normalized = replace_all_str(name.as_str(), "/", "_");
    if !is_taken(existing, normalized.as_str()) {
        return Some(normalized);
    }
    Some(replace_all_str(without_ext.as_str(), "/", "_"))
}

/// The ids of a page, checked: each must be a location in namespace `expect_ns`.
/// The first that is not is recorded as an issue and no ids are given.
pub open spec fn ids_valid_prefix(ids: Seq<String>, expect_ns: Seq<char>, n: int) -> bool {
    forall|j: int| 0 <= j < n ==> id_in_namespace(#[trigger] ids[j]@, expect_ns)
}

/// The issue an id that is no location in namespace `ns` gives.
pub open spec fn id_issue(file: Seq<char>, id: Seq<char>, ns: Seq<char>) -> IssueView {
    match spec_parse_location(id) {
        None => ingestor_issue(file, ProjectError::InvalidResloc, id),
        Some(l) => ingestor_issue(
            file,
            ProjectError::InvalidResloc,
            "id '"@ + location_text(l.0, l.1) + "' namespace mismatch: expected '"@ + ns + "'"@,
        ),
    }
}

pub fn parse_ids(ids: &Vec<String>, expect_ns: &str, issues: &mut FileIssues) -> (r: Option<Vec<String>>)
    ensures
        final(issues).file@ == old(issues).file@,
        match r {
            Some(v) => ids_valid_prefix(ids@, expect_ns@, ids@.len() as int) && v@.len() == ids@.len()
                && (forall|j: int| 0 <= j < ids@.len() ==> (#[trigger] v@[j])@ == parsed_text(ids@[j]@)) && final(issues).issues@ == old(issues).issues@,
            None => exists|k: int|
                0 <= k < ids@.len() && ids_valid_prefix(ids@, expect_ns@, k) && !id_in_namespace(
                    #[trigger] ids@[k]@,
                    expect_ns@,
                ) && issue_views(final(issues).issues@) == issue_views(old(issues).issues@).push(
                    id_issue(old(issues).file@, ids@[k]@, expect_ns@),
                ),
        },
{
    let mut parsed: Vec<String> = Vec::new();
    let mut i: usize = 0;
    while i < ids.len()
        invariant
            i <= ids@.len(),
            parsed@.len() == i,
            ids_valid_prefix(ids@, expect_ns@, i as int),
            forall|j: int| 0 <= j < i ==> (#[trigger] parsed@[j])@ == parsed_text(ids@[j]@),
            issues.file@ == old(issues).file@,
            issues.issues@ == old(issues).issues@,
        decreases ids@.len() - i,
    {
        let id = match issues.parse_resloc(ids[i].as_str()) {
            Some(l) => l,
            None => {
                return None;
            },
        };
        if !str_eq(id.namespace.as_str(), expect_ns) {
            let text = id.to_string();
            let mut msg = concat3("id '", text.as_str(), "' namespace mismatch: expected '");
            push_str(&mut msg, expect_ns);
            push_str(&mut msg, "'");
            issues.ingestor_error(ProjectError::InvalidResloc, msg);
            return None;
        }
        parsed.push(id.to_string());
        i = i + 1;
    }
    Some(parsed)
}

} // verus!
