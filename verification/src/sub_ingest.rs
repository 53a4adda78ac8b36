//! What each part of the ingestion makes of the files it reads: tags, recipes,
//! recipe types, content pages and workbenches.
use vstd::prelude::*;
use crate::ingest::{
    ContentPage, ContentPathsSubIngestor, MetadataSubIngestor, PreparationResult, StubWorkbenches, TagValue,
    get_page_ref, id_in_namespace,
    id_issue, ids_valid_prefix, item_views, parse_ids, parsed_text, spec_page_ref,
};
use crate::ingredient::{StubRecipeIngredient, StubView, stub_views};
use crate::issues::{FileIssues, ProjectError, IssueView, issue_views, ingestor_issue, opt_view};
use crate::json::JsonValue;
use crate::recipe::{
    RecipeParserRegistry, RecipeView, StubRecipe, outcome_view, recipe_error_message, skipped_type,
    spec_parse_recipe,
};
use crate::resloc::{ResourceLocation, builtin_namespaces, location_text, spec_parse_location};
use crate::text::{concat2, concat3, has_prefix, owned, str_eq, strip_prefix};

verus! {

// ----- tags -----

/// The name of the tags part of the ingestion.
pub const INGESTOR_MOD_TAGS: &'static str = "Tags";

/// Whether tags of the kind `kind` are read: only item tags are.
pub fn is_tag_type_allowed(kind: &str) -> (r: bool)
    ensures
        r == (kind@ == "item"@),
{
    str_eq(kind, "item")
}

/// Whether the tags of `namespace` are read: those of the game and its loaders, and
/// the project's own.
pub open spec fn spec_tag_namespace_allowed(namespace: Seq<char>, modid: Seq<char>) -> bool {
    builtin_namespaces().contains(namespace) || namespace == modid
}

pub fn is_tag_namespace_allowed(namespace: &str, modid: &str) -> (r: bool)
    ensures
        r == spec_tag_namespace_allowed(namespace@, modid@),
{
    let builtin = crate::resloc::builtin_namespaces_vec();
    let mut i: usize = 0;
    while i < builtin.len()
        invariant
            i <= builtin@.len(),
            builtin@.map_values(|s: String| s@) == builtin_namespaces(),
            forall|j: int| 0 <= j < i ==> builtin_namespaces()[j] != namespace@,
        decreases builtin@.len() - i,
    {
        assert(builtin_namespaces()[i as int] == builtin@[i as int]@);
        if str_eq(builtin[i].as_str(), namespace) {
            return true;
        }
        i = i + 1;
    }
    assert(!builtin_namespaces().contains(namespace@)) by {
        if builtin_namespaces().contains(namespace@) {
            let w = choose|w: int| 0 <= w < builtin_namespaces().len() && builtin_namespaces()[w]
                == namespace@;
        }
    }
    str_eq(namespace, modid)
}

/// The tag a tag file names when its value starts with `#`.
pub open spec fn tag_reference(v: Seq<char>) -> Option<(Seq<char>, Seq<char>)> {
    if has_prefix(v, "#"@) {
        spec_parse_location(v.subrange(1, v.len() as int))
    } else {
        None
    }
}

/// The tags the values of a tag file refer to.
pub open spec fn referenced_tags(values: Seq<TagValue>) -> Set<(Seq<char>, Seq<char>)>
    decreases values.len(),
{
    if values.len() == 0 {
        Set::empty()
    } else {
        let rest = referenced_tags(values.drop_last());
        match tag_reference(values.last().0@) {
            Some(l) => rest.insert(l),
            None => rest,
        }
    }
}

/// The items of the project that the values of a tag file name: the values that are
/// locations in the namespace `modid`, as written.
pub open spec fn project_items(values: Seq<TagValue>, modid: Seq<char>) -> Set<Seq<char>>
    decreases values.len(),
{
    if values.len() == 0 {
        Set::empty()
    } else {
        let rest = project_items(values.drop_last(), modid);
        let v = values.last().0@;
        if !has_prefix(v, "#"@) && (spec_parse_location(v) matches Some(l) && l.0 == modid) {
            rest.insert(v)
        } else {
            rest
        }
    }
}

/// The entries a tag file adds to the tag `parent`: each of its values.
pub open spec fn tag_value_entries(parent: Seq<char>, values: Seq<TagValue>) -> Set<(Seq<char>, Seq<char>)>
    decreases values.len(),
{
    if values.len() == 0 {
        Set::empty()
    } else {
        tag_value_entries(parent, values.drop_last()).insert((parent, values.last().0@))
    }
}

/// The issue a tag value gives: one for a value that is no location (after its `#`).
pub open spec fn tag_value_issue(file: Seq<char>, v: Seq<char>) -> Seq<IssueView> {
    let text = if has_prefix(v, "#"@) { v.subrange(1, v.len() as int) } else { v };
    match spec_parse_location(text) {
        Some(_) => Seq::empty(),
        None => seq![ingestor_issue(file, ProjectError::InvalidResloc, text)],
    }
}

pub open spec fn tag_value_issues(file: Seq<char>, values: Seq<TagValue>) -> Seq<IssueView>
    decreases values.len(),
{
    if values.len() == 0 {
        Seq::empty()
    } else {
        tag_value_issues(file, values.drop_last()) + tag_value_issue(file, values.last().0@)
    }
}

pub open spec fn locations_view(v: Seq<ResourceLocation>) -> Set<(Seq<char>, Seq<char>)> {
    v.map_values(|l: ResourceLocation| l@).to_set()
}

pub open spec fn pairs_set(v: Seq<(String, String)>) -> Set<(Seq<char>, Seq<char>)> {
    v.map_values(|p: (String, String)| (p.0@, p.1@)).to_set()
}

/// The tags found so far, and the entries of each.
#[derive(Debug, Clone, Default)]
pub struct TagsSubIngestor {
    pub tag_ids: Vec<ResourceLocation>,
    pub tag_entries: Vec<(String, String)>,
}

impl TagsSubIngestor {
    pub open spec fn tags(&self) -> Set<(Seq<char>, Seq<char>)> {
        locations_view(self.tag_ids@)
    }

    pub open spec fn entries(&self) -> Set<(Seq<char>, Seq<char>)> {
        pairs_set(self.tag_entries@)
    }

    pub fn new() -> (r: TagsSubIngestor)
        ensures
            r.tags() == Set::<(Seq<char>, Seq<char>)>::empty(),
            r.entries() == Set::<(Seq<char>, Seq<char>)>::empty(),
    {
        let r = TagsSubIngestor { tag_ids: Vec::new(), tag_entries: Vec::new() };
        assert(r.tags() =~= Set::<(Seq<char>, Seq<char>)>::empty());
        assert(r.entries() =~= Set::<(Seq<char>, Seq<char>)>::empty());
        r
    }

    fn add_tag(&mut self, loc: ResourceLocation)
        ensures
            final(self).tags() == old(self).tags().insert(loc@),
            final(self).tag_entries == old(self).tag_entries,
    {
        let ghost l = loc@;
        let mut i: usize = 0;
        while i < self.tag_ids.len()
            invariant
                i <= self.tag_ids@.len(),
                self.tag_ids == old(self).tag_ids,
                self.tag_entries == old(self).tag_entries,
                l == loc@,
                forall|j: int| 0 <= j < i ==> (#[trigger] self.tag_ids@[j])@ != l,
            decreases self.tag_ids@.len() - i,
        {
            if str_eq(self.tag_ids[i].namespace.as_str(), loc.namespace.as_str()) && str_eq(
                self.tag_ids[i].path.as_str(),
                loc.path.as_str(),
            ) {
                assert(self.tag_ids@.map_values(|x: ResourceLocation| x@)[i as int] == l);
                assert(self.tags().insert(l) =~= self.tags());
                return;
            }
            i = i + 1;
        }
        let ghost before = self.tag_ids@;
        self.tag_ids.push(loc);
        assert(self.tag_ids@.map_values(|x: ResourceLocation| x@) =~= before.map_values(
            |x: ResourceLocation| x@,
        ).push(l));
        assert(self.tags() =~= locations_view(before).insert(l)) by {
            let a = before.map_values(|x: ResourceLocation| x@);
            assert forall|x: (Seq<char>, Seq<char>)| #[trigger] a.push(l).to_set().contains(x) <==> a.to_set().insert(
                l,
            ).contains(x) by {
                if a.push(l).contains(x) {
                    let w = choose|w: int| 0 <= w < a.push(l).len() && a.push(l)[w] == x;
                    if w < a.len() {
                        assert(a[w] == x);
                    }
                }
                if a.contains(x) {
                    let w = choose|w: int| 0 <= w < a.len() && a[w] == x;
                    assert(a.push(l)[w] == x);
                }
                if x == l {
                    assert(a.push(l)[a.len() as int] == x);
                }
            }
        }
    }

    fn add_entry(&mut self, parent: &str, value: &str)
        ensures
            final(self).entries() == old(self).entries().insert((parent@, value@)),
            final(self).tag_ids == old(self).tag_ids,
    {
        let ghost e = (parent@, value@);
        let mut i: usize = 0;
        while i < self.tag_entries.len()
            invariant
                i <= self.tag_entries@.len(),
                self.tag_ids == old(self).tag_ids,
                self.tag_entries == old(self).tag_entries,
                e == (parent@, value@),
            decreases self.tag_entries@.len() - i,
        {
            if str_eq(self.tag_entries[i].0.as_str(), parent) && str_eq(
                self.tag_entries[i].1.as_str(),
                value,
            ) {
                assert(self.tag_entries@.map_values(|p: (String, String)| (p.0@, p.1@))[i as int] == e);
                assert(self.entries().insert(e) =~= self.entries());
                return;
            }
            i = i + 1;
        }
        let ghost before = self.tag_entries@;
        self.tag_entries.push((owned(parent), owned(value)));
        let ghost a = before.map_values(|p: (String, String)| (p.0@, p.1@));
        assert(self.tag_entries@.map_values(|p: (String, String)| (p.0@, p.1@)) =~= a.push(e));
        assert(self.entries() =~= pairs_set(before).insert(e)) by {
            assert forall|x: (Seq<char>, Seq<char>)| #[trigger] a.push(e).to_set().contains(x) <==> a.to_set().insert(
                e,
            ).contains(x) by {
                if a.push(e).contains(x) {
                    let w = choose|w: int| 0 <= w < a.push(e).len() && a.push(e)[w] == x;
                    if w < a.len() {
                        assert(a[w] == x);
                    }
                }
                if a.contains(x) {
                    let w = choose|w: int| 0 <= w < a.len() && a[w] == x;
                    assert(a.push(e)[w] == x);
                }
                if x == e {
                    assert(a.push(e)[a.len() as int] == x);
                }
            }
        }
    }

    /// Takes in the tag file of the tag `id`: the tag and each tag its values refer to
    /// (by `#`) are known tags; each value is an entry of the tag; the values that are
    /// items of the project (`modid`) are found items. A value that is no location is
    /// recorded as an issue.
    pub fn add_tag_file(
        &mut self,
        id: &ResourceLocation,
        values: &Vec<TagValue>,
        modid: &str,
        issues: &mut FileIssues,
        result: &mut PreparationResult,
    )
        requires
            old(result).wf(),
        ensures
            final(self).tags() == old(self).tags().insert(id@).union(referenced_tags(values@)),
            final(self).entries() == old(self).entries().union(
                tag_value_entries(location_text(id@.0, id@.1), values@),
            ),
            final(result).wf(),
            forall|x: Seq<char>| #[trigger] final(result)@.contains(x) <==> (old(result)@.contains(x)
                || project_items(values@, modid@).contains(x)),
            final(issues).file@ == old(issues).file@,
            issue_views(final(issues).issues@) == issue_views(old(issues).issues@) + tag_value_issues(
                old(issues).file@,
                values@,
            ),
    {
        self.add_tag(ResourceLocation { namespace: id.namespace.clone(), path: id.path.clone() });
        let parent = id.to_string();
        let ghost t0 = self.tags();
        let ghost e0 = self.entries();
        let ghost r0 = result@;
        let ghost i0 = issue_views(issues.issues@);
        let mut i: usize = 0;
        assert(values@.subrange(0, 0) =~= Seq::<TagValue>::empty());
        assert(t0.union(referenced_tags(values@.subrange(0, 0))) =~= t0);
        assert(e0.union(tag_value_entries(parent@, values@.subrange(0, 0))) =~= e0);
        assert(i0 + tag_value_issues(issues.file@, values@.subrange(0, 0)) =~= i0);
        while i < values.len()
            invariant
                i <= values@.len(),
                parent@ == location_text(id@.0, id@.1),
                self.tags() == t0.union(referenced_tags(values@.subrange(0, i as int))),
                self.entries() == e0.union(tag_value_entries(parent@, values@.subrange(0, i as int))),
                result.wf(),
                forall|x: Seq<char>| #[trigger] result@.contains(x) <==> (r0.contains(x)
                    || project_items(values@.subrange(0, i as int), modid@).contains(x)),
                issues.file@ == old(issues).file@,
                issue_views(issues.issues@) == i0 + tag_value_issues(
                    issues.file@,
                    values@.subrange(0, i as int),
                ),
            decreases values@.len() - i,
        {
            let ghost nxt = values@.subrange(0, i + 1);
            assert(nxt.drop_last() =~= values@.subrange(0, i as int));
            assert(nxt.last() == values@[i as int]);
            let ghost prev_items = result@;
            let ghost prev_issues = issue_views(issues.issues@);
            let v = values[i].0.as_str();
            match strip_prefix(v, "#") {
                Some(stripped) => {
                    proof {
                        reveal_strlit("#");
                    }
                    match issues.parse_resloc(stripped.as_str()) {
                        Some(loc) => {
                            self.add_tag(loc);
                            assert(issue_views(issues.issues@) =~= prev_issues + Seq::<IssueView>::empty());
                        },
                        None => {},
                    }
                    assert(self.tags() =~= t0.union(referenced_tags(nxt)));
                    assert(project_items(nxt, modid@) == project_items(values@.subrange(0, i as int), modid@));
                },
                None => {
                    match issues.parse_resloc(v) {
                        Some(loc) => {
                            assert(issue_views(issues.issues@) =~= prev_issues + Seq::<IssueView>::empty());
                            if str_eq(loc.namespace.as_str(), modid) {
                                result.insert(owned(v));
                                assert(project_items(nxt, modid@) == project_items(
                                    values@.subrange(0, i as int),
                                    modid@,
                                ).insert(v@));
                            } else {
                                assert(project_items(nxt, modid@) == project_items(
                                    values@.subrange(0, i as int),
                                    modid@,
                                ));
                            }
                        },
                        None => {
                            assert(project_items(nxt, modid@) == project_items(
                                values@.subrange(0, i as int),
                                modid@,
                            ));
                        },
                    }
                    assert(self.tags() =~= t0.union(referenced_tags(nxt)));
                },
            }
            self.add_entry(parent.as_str(), v);
            assert(self.entries() =~= e0.union(tag_value_entries(parent@, nxt)));
            assert(issue_views(issues.issues@) =~= i0 + tag_value_issues(issues.file@, nxt));
            i = i + 1;
        }
        assert(values@.subrange(0, values@.len() as int) =~= values@);
        assert(self.tags() =~= old(self).tags().insert(id@).union(referenced_tags(values@)));
    }
}

/// A tag file found under a data folder: `NAMESPACE/tags/KIND/PATH.json`, the file's
/// path (for issues), and its values, or the error and message that stopped reading it.
pub struct TagFile {
    pub namespace: String,
    pub kind: String,
    pub path: String,
    pub file: String,
    pub content: Result<Vec<TagValue>, (ProjectError, String)>,
}

/// Whether a tag file is read at all: only item tags, of an allowed namespace.
pub open spec fn tag_file_counts(f: TagFile, modid: Seq<char>) -> bool {
    spec_tag_namespace_allowed(f.namespace@, modid) && f.kind@ == "item"@
}

/// The text of the tag a file defines: `NAMESPACE:PATH`.
pub open spec fn tag_file_location_text(f: TagFile) -> Seq<char> {
    f.namespace@ + ":"@ + f.path@
}

/// The tag a counted file defines and its values, when both can be read.
pub open spec fn tag_file_data(f: TagFile) -> Option<((Seq<char>, Seq<char>), Seq<TagValue>)> {
    match spec_parse_location(tag_file_location_text(f)) {
        Some(l) => match f.content {
            Ok(v) => Some((l, v@)),
            Err(_) => None,
        },
        None => None,
    }
}

/// The known tags the counted files give.
pub open spec fn files_tags(fs: Seq<TagFile>, modid: Seq<char>) -> Set<(Seq<char>, Seq<char>)>
    decreases fs.len(),
{
    if fs.len() == 0 {
        Set::empty()
    } else {
        let rest = files_tags(fs.drop_last(), modid);
        if tag_file_counts(fs.last(), modid) {
            match tag_file_data(fs.last()) {
                Some((l, v)) => rest.union(set![l].union(referenced_tags(v))),
                None => rest,
            }
        } else {
            rest
        }
    }
}

/// The tag entries the counted files give.
pub open spec fn files_entries(fs: Seq<TagFile>, modid: Seq<char>) -> Set<(Seq<char>, Seq<char>)>
    decreases fs.len(),
{
    if fs.len() == 0 {
        Set::empty()
    } else {
        let rest = files_entries(fs.drop_last(), modid);
        if tag_file_counts(fs.last(), modid) {
            match tag_file_data(fs.last()) {
                Some((l, v)) => rest.union(tag_value_entries(location_text(l.0, l.1), v)),
                None => rest,
            }
        } else {
            rest
        }
    }
}

/// The project's items the counted files name.
pub open spec fn files_items(fs: Seq<TagFile>, modid: Seq<char>) -> Set<Seq<char>>
    decreases fs.len(),
{
    if fs.len() == 0 {
        Set::empty()
    } else {
        let rest = files_items(fs.drop_last(), modid);
        if tag_file_counts(fs.last(), modid) {
            match tag_file_data(fs.last()) {
                Some((_, v)) => rest.union(project_items(v, modid)),
                None => rest,
            }
        } else {
            rest
        }
    }
}

/// The issues of one counted file: a location that does not parse, else the error
/// that stopped reading it, else those of its values.
pub open spec fn tag_file_issues(f: TagFile) -> Seq<IssueView> {
    match spec_parse_location(tag_file_location_text(f)) {
        None => seq![ingestor_issue(f.file@, ProjectError::InvalidResloc, tag_file_location_text(f))],
        Some(_) => match f.content {
            Err((e, m)) => seq![ingestor_issue(f.file@, e, m@)],
            Ok(v) => tag_value_issues(f.file@, v@),
        },
    }
}

/// The issues of the counted files, file after file.
pub open spec fn files_issues(fs: Seq<TagFile>, modid: Seq<char>) -> Seq<IssueView>
    decreases fs.len(),
{
    if fs.len() == 0 {
        Seq::empty()
    } else {
        let rest = files_issues(fs.drop_last(), modid);
        if tag_file_counts(fs.last(), modid) {
            rest + tag_file_issues(fs.last())
        } else {
            rest
        }
    }
}

impl TagsSubIngestor {
    /// Takes in the tag files of a data folder, in order: only the item tags of the
    /// game's and loaders' namespaces and of the project (`modid`) count; each of those
    /// whose location parses and that could be read is taken in as by `add_tag_file`.
    /// The issues of the counted files are returned, file after file.
    pub fn add_tag_files(
        &mut self,
        files: &Vec<TagFile>,
        modid: &str,
        result: &mut PreparationResult,
    ) -> (r: Vec<crate::issues::ProjectIssue>)
        requires
            old(result).wf(),
        ensures
            final(self).tags() == old(self).tags().union(files_tags(files@, modid@)),
            final(self).entries() == old(self).entries().union(files_entries(files@, modid@)),
            final(result).wf(),
            forall|x: Seq<char>| #[trigger] final(result)@.contains(x) <==> (old(result)@.contains(x)
                || files_items(files@, modid@).contains(x)),
            issue_views(r@) == files_issues(files@, modid@),
    {
        let ghost t0 = self.tags();
        let ghost e0 = self.entries();
        let ghost r0 = result@;
        let mut out: Vec<crate::issues::ProjectIssue> = Vec::new();
        let mut i: usize = 0;
        assert(files@.subrange(0, 0) =~= Seq::<TagFile>::empty());
        assert(t0.union(Set::<(Seq<char>, Seq<char>)>::empty()) =~= t0);
        assert(e0.union(Set::<(Seq<char>, Seq<char>)>::empty()) =~= e0);
        assert(issue_views(out@) =~= Seq::<IssueView>::empty());
        while i < files.len()
            invariant
                i <= files@.len(),
                self.tags() == t0.union(files_tags(files@.subrange(0, i as int), modid@)),
                self.entries() == e0.union(files_entries(files@.subrange(0, i as int), modid@)),
                result.wf(),
                forall|x: Seq<char>| #[trigger] result@.contains(x) <==> (r0.contains(x)
                    || files_items(files@.subrange(0, i as int), modid@).contains(x)),
                issue_views(out@) == files_issues(files@.subrange(0, i as int), modid@),
            decreases files@.len() - i,
        {
            let ghost nxt = files@.subrange(0, i + 1);
            let ghost pre = files@.subrange(0, i as int);
            assert(nxt.drop_last() =~= pre);
            assert(nxt.last() == files@[i as int]);
            let f = &files[i];
            let ghost t1 = self.tags();
            let ghost e1 = self.entries();
            let ghost r1 = result@;
            let ghost o1 = issue_views(out@);
            proof {
                reveal_strlit("item");
                reveal_strlit(":");
            }
            if is_tag_namespace_allowed(f.namespace.as_str(), modid) && is_tag_type_allowed(f.kind.as_str()) {
                let text = concat3(f.namespace.as_str(), ":", f.path.as_str());
                assert(text@ == tag_file_location_text(*f));
                let mut issues = FileIssues::new(f.file.clone());
                match issues.parse_resloc(text.as_str()) {
                    None => {
                        assert(files_tags(nxt, modid@) == files_tags(pre, modid@));
                        assert(files_entries(nxt, modid@) == files_entries(pre, modid@));
                        assert(files_items(nxt, modid@) == files_items(pre, modid@));
                    },
                    Some(id) => match &f.content {
                        Err((e, m)) => {
                            issues.ingestor_error(*e, m.clone());
                            assert(files_tags(nxt, modid@) == files_tags(pre, modid@));
                            assert(files_entries(nxt, modid@) == files_entries(pre, modid@));
                            assert(files_items(nxt, modid@) == files_items(pre, modid@));
                        },
                        Ok(values) => {
                            self.add_tag_file(&id, values, modid, &mut issues, result);
                            assert(self.tags() =~= t0.union(files_tags(nxt, modid@)));
                            assert(self.entries() =~= e0.union(files_entries(nxt, modid@)));
                            assert forall|x: Seq<char>| #[trigger] result@.contains(x) <==> (r0.contains(x)
                                || files_items(nxt, modid@).contains(x)) by {
                                assert(files_items(nxt, modid@) == files_items(pre, modid@).union(
                                    project_items(values@, modid@),
                                ));
                            }
                        },
                    },
                }
                assert(issue_views(issues.issues@) =~= tag_file_issues(*f));
                let mut found = issues.issues;
                let ghost fv = issue_views(found@);
                out.append(&mut found);
                assert(issue_views(out@) =~= o1 + fv);
                assert(issue_views(out@) =~= files_issues(nxt, modid@));
            } else {
                assert(files_tags(nxt, modid@) == files_tags(pre, modid@));
                assert(files_entries(nxt, modid@) == files_entries(pre, modid@));
                assert(files_items(nxt, modid@) == files_items(pre, modid@));
                assert(files_issues(nxt, modid@) == files_issues(pre, modid@));
            }
            i = i + 1;
        }
        assert(files@.subrange(0, files@.len() as int) =~= files@);
        out
    }
}

/// How an entry of a tag is stored: a tag it includes (`#` and the tag) or an item.
#[derive(Debug, Clone, PartialEq, Eq)]
pub enum TagLink {
    Tag(String),
    Item(String),
}

/// The link an entry of a tag makes.
pub fn tag_link(entry: &str) -> (r: TagLink)
    ensures
        match r {
            TagLink::Tag(t) => has_prefix(entry@, "#"@) && t@ == entry@.subrange(1, entry@.len() as int),
            TagLink::Item(t) => !has_prefix(entry@, "#"@) && t@ == entry@,
        },
{
    proof {
        reveal_strlit("#");
    }
    match strip_prefix(entry, "#") {
        Some(t) => TagLink::Tag(t),
        None => TagLink::Item(owned(entry)),
    }
}

// ----- recipes -----

/// The name of the recipes part of the ingestion.
pub const INGESTOR_MOD_RECIPES: &'static str = "Recipes";

/// What a recipe file gives: the recipe, or nothing. A recipe that fails to parse is
/// recorded as an `InvalidFormat` issue with the parser's message; one whose type is
/// no location is skipped with the issue the registry records.
pub open spec fn spec_read_recipe(id: Seq<char>, data: JsonValue) -> Option<RecipeView> {
    match spec_parse_recipe(id, data) {
        Ok(r) => r,
        Err(_) => None,
    }
}

pub open spec fn read_recipe_issues(file: Seq<char>, id: Seq<char>, data: JsonValue) -> Seq<IssueView> {
    match spec_parse_recipe(id, data) {
        Err(e) => seq![ingestor_issue(file, ProjectError::InvalidFormat, recipe_error_message(e))],
        Ok(_) => match skipped_type(data) {
            Some(t) => seq![ingestor_issue(file, ProjectError::InvalidResloc, t)],
            None => Seq::empty(),
        },
    }
}

/// Reads the recipe `id` from its document.
pub fn read_recipe(
    registry: &RecipeParserRegistry,
    id: &ResourceLocation,
    data: &JsonValue,
    issues: &mut FileIssues,
) -> (r: Option<StubRecipe>)
    ensures
        match r {
            Some(x) => spec_read_recipe(location_text(id@.0, id@.1), *data) == Some(x@),
            None => spec_read_recipe(location_text(id@.0, id@.1), *data) is None,
        },
        final(issues).file@ == old(issues).file@,
        issue_views(final(issues).issues@) == issue_views(old(issues).issues@) + read_recipe_issues(
            old(issues).file@,
            location_text(id@.0, id@.1),
            *data,
        ),
{
    let text = id.to_string();
    let ghost before = issue_views(issues.issues@);
    let parsed = registry.parse_recipe(text.as_str(), data, issues);
    match parsed {
        Ok(Some(r)) => {
            assert(issue_views(issues.issues@) =~= before + Seq::<IssueView>::empty());
            Some(r)
        },
        Ok(None) => {
            assert(issue_views(issues.issues@) =~= before + read_recipe_issues(
                issues.file@,
                text@,
                *data,
            ));
            None
        },
        Err(e) => {
            let msg = e.to_string();
            issues.ingestor_error(ProjectError::InvalidFormat, msg);
            None
        },
    }
}

/// The recipes and recipe types found so far, with their files.
#[derive(Debug, Default)]
pub struct RecipesSubIngestor {
    pub recipe_types: Vec<(String, String)>,
    pub recipes: Vec<(StubRecipe, String)>,
}

/// The items a recipe uses or makes, leaving out tags.
pub open spec fn recipe_items(ings: Seq<StubView>) -> Set<Seq<char>>
    decreases ings.len(),
{
    if ings.len() == 0 {
        Set::empty()
    } else {
        let rest = recipe_items(ings.drop_last());
        if ings.last().is_tag {
            rest
        } else {
            rest.insert(ings.last().item_id)
        }
    }
}

impl RecipesSubIngestor {
    pub fn new() -> (r: RecipesSubIngestor)
        ensures
            r.recipe_types@.len() == 0,
            r.recipes@.len() == 0,
    {
        RecipesSubIngestor { recipe_types: Vec::new(), recipes: Vec::new() }
    }

    /// Keeps a recipe read from `file`; the items it names (not its tags) are found items.
    pub fn add_recipe(&mut self, r: StubRecipe, file: String, result: &mut PreparationResult)
        requires
            old(result).wf(),
        ensures
            final(self).recipes@.len() == old(self).recipes@.len() + 1,
            forall|i: int| 0 <= i < old(self).recipes@.len() ==> final(self).recipes@[i] == old(self).recipes@[i],
            final(self).recipes@.last().0@ == r@,
            final(self).recipes@.last().1@ == file@,
            final(self).recipe_types == old(self).recipe_types,
            final(result).wf(),
            forall|x: Seq<char>| #[trigger] final(result)@.contains(x) <==> (old(result)@.contains(x)
                || recipe_items(r@.ingredients).contains(x)),
    {
        let ghost r0 = result@;
        let ghost ings = r@.ingredients;
        let mut i: usize = 0;
        assert(ings.subrange(0, 0) =~= Seq::<StubView>::empty());
        while i < r.ingredients.len()
            invariant
                i <= r.ingredients@.len(),
                ings == stub_views(r.ingredients@),
                ings.len() == r.ingredients@.len(),
                result.wf(),
                forall|x: Seq<char>| #[trigger] result@.contains(x) <==> (r0.contains(x) || recipe_items(
                    ings.subrange(0, i as int),
                ).contains(x)),
            decreases r.ingredients@.len() - i,
        {
            let ghost nxt = ings.subrange(0, i + 1);
            assert(nxt.drop_last() =~= ings.subrange(0, i as int));
            assert(nxt.last() == r.ingredients@[i as int]@);
            if !r.ingredients[i].is_tag {
                result.insert(r.ingredients[i].item_id.clone());
            }
            i = i + 1;
        }
        assert(ings.subrange(0, ings.len() as int) =~= ings);
        let ghost rv = r@;
        self.recipes.push((r, file));
    }

    /// Keeps the recipe type `id` read from `file`.
    pub fn add_recipe_type(&mut self, id: &ResourceLocation, file: String)
        ensures
            final(self).recipe_types@.len() == old(self).recipe_types@.len() + 1,
            forall|i: int| 0 <= i < old(self).recipe_types@.len() ==> final(self).recipe_types@[i] == old(
                self,
            ).recipe_types@[i],
            final(self).recipe_types@.last().0@ == location_text(id@.0, id@.1),
            final(self).recipe_types@.last().1@ == file@,
            final(self).recipes == old(self).recipes,
    {
        self.recipe_types.push((id.to_string(), file));
    }
}

// ----- storing the recipes -----

/// Where storing the recipes stands.
#[derive(Debug, Clone, Copy, PartialEq, Eq, Structural)]
pub enum StoreStage {
    /// Registering the recipe types; `index` of them are done.
    Types,
    /// Waiting to hear whether the type of recipe `index` is known.
    FindType,
    /// Storing the ingredients of recipe `index`; `ing` of them are sent.
    Ingredients,
    /// An ingredient of recipe `index` was refused and reported: the recipe goes.
    Delete,
    /// Recipe `index` is over; the next one comes.
    NextRecipe,
    Finished,
}

#[derive(Debug, Clone, Copy, PartialEq, Eq, Structural)]
pub struct RecipeStore {
    pub stage: StoreStage,
    pub index: usize,
    pub ing: usize,
}

/// What the store reports back after an action.
#[derive(Debug, Clone, Copy, PartialEq, Eq, Structural)]
pub enum StoreEvent {
    /// The action was carried out.
    Done,
    /// Whether the recipe type asked for is registered.
    TypeFound(bool),
    /// Whether the ingredient sent was stored.
    IngredientStored(bool),
}

/// What to do next.
#[derive(Debug)]
pub enum StoreAction {
    AddRecipeType(String),
    FindRecipeType(String),
    AddRecipe { id: String, recipe_type: String },
    AddIngredient(StubRecipeIngredient),
    RecordIssue(crate::issues::ProjectIssue),
    /// Delete the recipe last added.
    DeleteRecipe,
    Finish,
}

pub enum StoreActionView {
    AddRecipeType(Seq<char>),
    FindRecipeType(Seq<char>),
    AddRecipe(Seq<char>, Seq<char>),
    AddIngredient(StubView),
    RecordIssue(IssueView),
    DeleteRecipe,
    Finish,
}

impl View for StoreAction {
    type V = StoreActionView;

    open spec fn view(&self) -> StoreActionView {
        match self {
            StoreAction::AddRecipeType(t) => StoreActionView::AddRecipeType(t@),
            StoreAction::FindRecipeType(t) => StoreActionView::FindRecipeType(t@),
            StoreAction::AddRecipe { id, recipe_type } => StoreActionView::AddRecipe(id@, recipe_type@),
            StoreAction::AddIngredient(i) => StoreActionView::AddIngredient(i@),
            StoreAction::RecordIssue(i) => StoreActionView::RecordIssue(i@),
            StoreAction::DeleteRecipe => StoreActionView::DeleteRecipe,
            StoreAction::Finish => StoreActionView::Finish,
        }
    }
}

/// The start of storing: no recipe type registered yet.
pub open spec fn store_start() -> RecipeStore {
    RecipeStore { stage: StoreStage::Types, index: 0, ing: 0 }
}

/// Moving on to recipe `i`: ask for its type, or finish when there is none left.
pub open spec fn store_next_recipe(recipes: Seq<(StubRecipe, String)>, i: int) -> (RecipeStore, StoreActionView) {
    if i < recipes.len() {
        (
            RecipeStore { stage: StoreStage::FindType, index: i as usize, ing: 0 },
            StoreActionView::FindRecipeType(recipes[i].0.recipe_type@),
        )
    } else {
        (RecipeStore { stage: StoreStage::Finished, index: 0, ing: 0 }, StoreActionView::Finish)
    }
}

/// One step of storing the recipe types `types` and the recipes `recipes`: every type
/// is registered first; then, recipe after recipe, an unknown type is reported (with
/// the type) and the recipe skipped; else the recipe is added and its ingredients
/// stored one by one, and at the first refused one the ingredient is reported and the
/// recipe deleted. Later recipes go on either way.
pub open spec fn spec_store_step(
    types: Seq<(String, String)>,
    recipes: Seq<(StubRecipe, String)>,
    s: RecipeStore,
    e: StoreEvent,
) -> (RecipeStore, StoreActionView) {
    match s.stage {
        StoreStage::Types => if s.index < types.len() {
            (
                RecipeStore { stage: StoreStage::Types, index: (s.index + 1) as usize, ing: 0 },
                StoreActionView::AddRecipeType(types[s.index as int].0@),
            )
        } else {
            store_next_recipe(recipes, 0)
        },
        StoreStage::FindType => {
            let (r, file) = recipes[s.index as int];
            if e == StoreEvent::TypeFound(true) {
                (
                    RecipeStore { stage: StoreStage::Ingredients, index: s.index, ing: 0 },
                    StoreActionView::AddRecipe(r.id@, r.recipe_type@),
                )
            } else {
                (
                    RecipeStore { stage: StoreStage::NextRecipe, index: s.index, ing: 0 },
                    StoreActionView::RecordIssue(
                        ingestor_issue(file@, ProjectError::UnknownRecipeType, r.recipe_type@),
                    ),
                )
            }
        },
        StoreStage::Ingredients => {
            let (r, file) = recipes[s.index as int];
            if e == StoreEvent::IngredientStored(false) && s.ing > 0 {
                (
                    RecipeStore { stage: StoreStage::Delete, index: s.index, ing: s.ing },
                    StoreActionView::RecordIssue(
                        ingestor_issue(
                            file@,
                            ProjectError::InvalidIngredient,
                            "Invalid ingredient: '"@ + spec_ingredient_name(r.ingredients@[s.ing - 1]@) + "'"@,
                        ),
                    ),
                )
            } else if s.ing < r.ingredients@.len() {
                (
                    RecipeStore { stage: StoreStage::Ingredients, index: s.index, ing: (s.ing + 1) as usize },
                    StoreActionView::AddIngredient(r.ingredients@[s.ing as int]@),
                )
            } else {
                store_next_recipe(recipes, s.index + 1)
            }
        },
        StoreStage::Delete => (
            RecipeStore { stage: StoreStage::NextRecipe, index: s.index, ing: 0 },
            StoreActionView::DeleteRecipe,
        ),
        StoreStage::NextRecipe => store_next_recipe(recipes, s.index + 1),
        StoreStage::Finished => (s, StoreActionView::Finish),
    }
}

/// The states storing can be in.
pub open spec fn store_wf(types: Seq<(String, String)>, recipes: Seq<(StubRecipe, String)>, s: RecipeStore) -> bool {
    match s.stage {
        StoreStage::Types => s.index <= types.len(),
        StoreStage::Finished => true,
        _ => s.index < recipes.len() && s.ing <= recipes[s.index as int].0.ingredients@.len(),
    }
}

fn copy_ingredient(i: &StubRecipeIngredient) -> (r: StubRecipeIngredient)
    ensures
        r@ == i@,
{
    StubRecipeIngredient {
        item_id: i.item_id.clone(),
        slot: i.slot.clone(),
        count: i.count,
        input: i.input,
        is_tag: i.is_tag,
    }
}

fn store_issue(file: &String, subject: ProjectError, details: String) -> (r: crate::issues::ProjectIssue)
    ensures
        r@ == ingestor_issue(file@, subject, details@),
{
    crate::issues::ProjectIssue {
        level: crate::issues::ProjectIssueLevel::Error,
        kind: crate::issues::ProjectIssueType::Ingestor,
        subject,
        details: Some(details),
        file: Some(file.clone()),
    }
}

impl RecipesSubIngestor {
    /// Where storing the prepared recipe types and recipes starts.
    pub fn recipe_store_start() -> (r: RecipeStore)
        ensures
            r == store_start(),
    {
        RecipeStore { stage: StoreStage::Types, index: 0, ing: 0 }
    }

    fn next_recipe(&self, i: usize) -> (r: (RecipeStore, StoreAction))
        requires
            i <= self.recipes@.len(),
        ensures
            (r.0, r.1@) == store_next_recipe(self.recipes@, i as int),
            store_wf(self.recipe_types@, self.recipes@, r.0),
    {
        if i < self.recipes.len() {
            (
                RecipeStore { stage: StoreStage::FindType, index: i, ing: 0 },
                StoreAction::FindRecipeType(self.recipes[i].0.recipe_type.clone()),
            )
        } else {
            (RecipeStore { stage: StoreStage::Finished, index: 0, ing: 0 }, StoreAction::Finish)
        }
    }

    /// The next action of storing the recipe types and recipes, and the state after it,
    /// given the state `s` and what the last action gave (see `spec_store_step`).
    pub fn recipe_store_step(&self, s: RecipeStore, e: StoreEvent) -> (r: (RecipeStore, StoreAction))
        requires
            store_wf(self.recipe_types@, self.recipes@, s),
        ensures
            (r.0, r.1@) == spec_store_step(self.recipe_types@, self.recipes@, s, e),
            store_wf(self.recipe_types@, self.recipes@, r.0),
    {
        let _count = self.recipes.len();
        match s.stage {
            StoreStage::Types => if s.index < self.recipe_types.len() {
                (
                    RecipeStore { stage: StoreStage::Types, index: s.index + 1, ing: 0 },
                    StoreAction::AddRecipeType(self.recipe_types[s.index].0.clone()),
                )
            } else {
                self.next_recipe(0)
            },
            StoreStage::FindType => {
                let (r, file) = &self.recipes[s.index];
                if e == StoreEvent::TypeFound(true) {
                    (
                        RecipeStore { stage: StoreStage::Ingredients, index: s.index, ing: 0 },
                        StoreAction::AddRecipe { id: r.id.clone(), recipe_type: r.recipe_type.clone() },
                    )
                } else {
                    (
                        RecipeStore { stage: StoreStage::NextRecipe, index: s.index, ing: 0 },
                        StoreAction::RecordIssue(
                            store_issue(file, ProjectError::UnknownRecipeType, r.recipe_type.clone()),
                        ),
                    )
                }
            },
            StoreStage::Ingredients => {
                let (r, file) = &self.recipes[s.index];
                if e == StoreEvent::IngredientStored(false) && s.ing > 0 {
                    let m = invalid_ingredient_message(&r.ingredients[s.ing - 1]);
                    (
                        RecipeStore { stage: StoreStage::Delete, index: s.index, ing: s.ing },
                        StoreAction::RecordIssue(store_issue(file, ProjectError::InvalidIngredient, m)),
                    )
                } else if s.ing < r.ingredients.len() {
                    (
                        RecipeStore { stage: StoreStage::Ingredients, index: s.index, ing: s.ing + 1 },
                        StoreAction::AddIngredient(copy_ingredient(&r.ingredients[s.ing])),
                    )
                } else {
                    self.next_recipe(s.index + 1)
                }
            },
            StoreStage::Delete => (
                RecipeStore { stage: StoreStage::NextRecipe, index: s.index, ing: 0 },
                StoreAction::DeleteRecipe,
            ),
            StoreStage::NextRecipe => self.next_recipe(s.index + 1),
            StoreStage::Finished => (s, StoreAction::Finish),
        }
    }
}

// ----- recipe type files -----

/// A recipe type as its file declares it: its background, and its input and output
/// slots (each slot's description is kept as written).
pub struct StubRecipeType {
    pub background: String,
    pub input_slots: Vec<(String, JsonValue)>,
    pub output_slots: Vec<(String, JsonValue)>,
}

pub type RecipeTypeView = (Seq<char>, Seq<(String, JsonValue)>, Seq<(String, JsonValue)>);

/// Which field a key of a recipe type file sets: the background (0), the input slots
/// (1, also written `inputSlots`), the output slots (2, also `outputSlots`); other keys
/// are ignored (-1).
pub open spec fn rt_field(k: Seq<char>) -> int {
    if k == "background"@ {
        0
    } else if k == "input_slots"@ || k == "inputSlots"@ {
        1
    } else if k == "output_slots"@ || k == "outputSlots"@ {
        2
    } else {
        -1
    }
}

pub open spec fn rt_name(f: int) -> Seq<char> {
    if f == 0 {
        "background"@
    } else if f == 1 {
        "input_slots"@
    } else {
        "output_slots"@
    }
}

pub open spec fn rt_expected(f: int) -> Seq<char> {
    if f == 0 {
        "a string"@
    } else {
        "a map"@
    }
}

pub open spec fn rt_value_ok(f: int, v: JsonValue) -> bool {
    if f == 0 {
        v is String
    } else {
        v is Object
    }
}

/// Where each field was found so far.
pub type RtSeen = (Option<int>, Option<int>, Option<int>);

pub open spec fn rt_get(s: RtSeen, f: int) -> Option<int> {
    if f == 0 {
        s.0
    } else if f == 1 {
        s.1
    } else {
        s.2
    }
}

pub open spec fn rt_set(s: RtSeen, f: int, i: int) -> RtSeen {
    if f == 0 {
        (Some(i), s.1, s.2)
    } else if f == 1 {
        (s.0, Some(i), s.2)
    } else {
        (s.0, s.1, Some(i))
    }
}

/// Reading the entries of a recipe type object in order: a field given twice, or a
/// value of the wrong kind (located by its key), stops it.
pub open spec fn spec_rt_scan(m: Seq<(String, JsonValue)>) -> Result<RtSeen, crate::json::DecodeErrorView>
    decreases m.len(),
{
    if m.len() == 0 {
        Ok((None, None, None))
    } else {
        match spec_rt_scan(m.drop_last()) {
            Err(e) => Err(e),
            Ok(seen) => {
                let f = rt_field(m.last().0@);
                if f < 0 {
                    Ok(seen)
                } else if rt_get(seen, f) is Some {
                    Err(crate::json::here(crate::json::DecodeErrorKindView::DuplicateField(rt_name(f))))
                } else if !rt_value_ok(f, m.last().1) {
                    Err(crate::json::under(
                        crate::json::PathSegmentView::Key(m.last().0@),
                        crate::json::invalid_type(m.last().1, rt_expected(f)),
                    ))
                } else {
                    Ok(rt_set(seen, f, m.len() - 1))
                }
            },
        }
    }
}

pub open spec fn object_entries(v: JsonValue) -> Seq<(String, JsonValue)> {
    match v {
        JsonValue::Object(m) => m@,
        _ => Seq::empty(),
    }
}

pub open spec fn string_text(v: JsonValue) -> Seq<char> {
    match v {
        JsonValue::String(t) => t@,
        _ => Seq::empty(),
    }
}

pub open spec fn rt_length_error(n: nat, expected: Seq<char>) -> crate::json::DecodeErrorView {
    crate::json::here(
        crate::json::DecodeErrorKindView::InvalidLength { found: crate::text::decimal(n), expected },
    )
}

/// A recipe type written as a list: background, input slots, output slots, in order.
pub open spec fn spec_rt_list(a: Seq<JsonValue>) -> Result<RecipeTypeView, crate::json::DecodeErrorView> {
    let short = "struct StubRecipeType with 3 elements"@;
    if a.len() < 1 {
        Err(rt_length_error(0, short))
    } else if !rt_value_ok(0, a[0]) {
        Err(crate::json::under(crate::json::PathSegmentView::Index(0), crate::json::invalid_type(a[0], rt_expected(0))))
    } else if a.len() < 2 {
        Err(rt_length_error(1, short))
    } else if !rt_value_ok(1, a[1]) {
        Err(crate::json::under(crate::json::PathSegmentView::Index(1), crate::json::invalid_type(a[1], rt_expected(1))))
    } else if a.len() < 3 {
        Err(rt_length_error(2, short))
    } else if !rt_value_ok(2, a[2]) {
        Err(crate::json::under(crate::json::PathSegmentView::Index(2), crate::json::invalid_type(a[2], rt_expected(2))))
    } else if a.len() > 3 {
        Err(rt_length_error(a.len(), "fewer elements in array"@))
    } else {
        Ok((string_text(a[0]), object_entries(a[1]), object_entries(a[2])))
    }
}

/// A recipe type file: an object with a `background` string and the input and output
/// slot maps (fields missing after all entries are reported in that order), or a
/// list of the three.
pub open spec fn spec_recipe_type(doc: JsonValue) -> Result<RecipeTypeView, crate::json::DecodeErrorView> {
    match doc {
        JsonValue::Object(m) => match spec_rt_scan(m@) {
            Err(e) => Err(e),
            Ok(seen) => match seen.0 {
                None => Err(crate::json::here(crate::json::DecodeErrorKindView::MissingField("background"@))),
                Some(b) => match seen.1 {
                    None => Err(crate::json::here(crate::json::DecodeErrorKindView::MissingField("input_slots"@))),
                    Some(i) => match seen.2 {
                        None => Err(crate::json::here(
                            crate::json::DecodeErrorKindView::MissingField("output_slots"@),
                        )),
                        Some(o) => Ok((string_text(m@[b].1), object_entries(m@[i].1), object_entries(m@[o].1))),
                    },
                },
            },
        },
        JsonValue::Array(a) => spec_rt_list(a@),
        _ => Err(crate::json::invalid_type(doc, "struct StubRecipeType"@)),
    }
}

pub open spec fn recipe_type_view(t: StubRecipeType) -> RecipeTypeView {
    (t.background@, t.input_slots@, t.output_slots@)
}

fn rt_field_exec(k: &str) -> (r: i8)
    ensures
        r as int == rt_field(k@),
{
    if str_eq(k, "background") {
        0
    } else if str_eq(k, "input_slots") || str_eq(k, "inputSlots") {
        1
    } else if str_eq(k, "output_slots") || str_eq(k, "outputSlots") {
        2
    } else {
        -1
    }
}

fn rt_value_ok_exec(f: i8, v: &JsonValue) -> (r: bool)
    requires
        0 <= f <= 2,
    ensures
        r == rt_value_ok(f as int, *v),
{
    if f == 0 {
        match v {
            JsonValue::String(_) => true,
            _ => false,
        }
    } else {
        match v {
            JsonValue::Object(_) => true,
            _ => false,
        }
    }
}

fn rt_type_error(f: i8, v: &JsonValue) -> (r: crate::json::DecodeError)
    requires
        0 <= f <= 2,
    ensures
        r@ == crate::json::invalid_type(*v, rt_expected(f as int)),
{
    if f == 0 {
        crate::json::err_invalid_type(v, "a string")
    } else {
        crate::json::err_invalid_type(v, "a map")
    }
}

fn rt_length(n: usize, expected: &str) -> (r: crate::json::DecodeError)
    ensures
        r@ == rt_length_error(n as nat, expected@),
{
    crate::json::err_here(crate::json::DecodeErrorKind::InvalidLength {
        found: crate::text::u64_to_string(n as u64),
        expected: owned(expected),
    })
}

/// Takes out the text of a string value (empty for any other value).
fn take_string(v: JsonValue) -> (r: String)
    ensures
        r@ == string_text(v),
{
    match v {
        JsonValue::String(t) => t,
        _ => String::new(),
    }
}

/// Takes out the entries of an object value (none for any other value).
fn take_object(v: JsonValue) -> (r: Vec<(String, JsonValue)>)
    ensures
        r@ == object_entries(v),
{
    match v {
        JsonValue::Object(m) => m,
        _ => Vec::new(),
    }
}

/// Takes out the value at `i`, leaving `null` in its place.
fn take_value(m: &mut Vec<(String, JsonValue)>, i: usize) -> (r: JsonValue)
    requires
        i < old(m)@.len(),
    ensures
        r == old(m)@[i as int].1,
        final(m)@.len() == old(m)@.len(),
        forall|j: int| 0 <= j < old(m)@.len() && j != i ==> final(m)@[j] == old(m)@[j],
{
    let mut slot = (String::new(), JsonValue::Null);
    m.set_and_swap(i, &mut slot);
    slot.1
}

/// Reads a recipe type file (see `spec_recipe_type`).
pub fn decode_recipe_type(doc: JsonValue) -> (r: Result<StubRecipeType, crate::json::DecodeError>)
    ensures
        match r {
            Ok(t) => spec_recipe_type(doc) == Ok::<_, crate::json::DecodeErrorView>(recipe_type_view(t)),
            Err(e) => spec_recipe_type(doc) == Err::<RecipeTypeView, _>(e@),
        },
{
    let ghost d = doc;
    match doc {
        JsonValue::Object(m) => {
            let ghost mv = m@;
            let mut m = m;
            let mut seen: (Option<usize>, Option<usize>, Option<usize>) = (None, None, None);
            let mut k: usize = 0;
            assert(mv.subrange(0, 0) =~= Seq::<(String, JsonValue)>::empty());
            while k < m.len()
                invariant
                    m@ == mv,
                    d == doc,
                    d == JsonValue::Object(m),
                    k <= mv.len(),
                    spec_rt_scan(mv.subrange(0, k as int)) == Ok::<RtSeen, crate::json::DecodeErrorView>((
                        match seen.0 {
                            Some(x) => Some(x as int),
                            None => None,
                        },
                        match seen.1 {
                            Some(x) => Some(x as int),
                            None => None,
                        },
                        match seen.2 {
                            Some(x) => Some(x as int),
                            None => None,
                        },
                    )),
                    seen.0 matches Some(x) ==> x < k && rt_value_ok(0, mv[x as int].1) && rt_field(mv[x as int].0@) == 0,
                    seen.1 matches Some(x) ==> x < k && rt_value_ok(1, mv[x as int].1) && rt_field(mv[x as int].0@) == 1,
                    seen.2 matches Some(x) ==> x < k && rt_value_ok(2, mv[x as int].1) && rt_field(mv[x as int].0@) == 2,
                decreases mv.len() - k,
            {
                let ghost nxt = mv.subrange(0, k + 1);
                assert(nxt.drop_last() =~= mv.subrange(0, k as int));
                assert(nxt.last() == mv[k as int]);
                let f = rt_field_exec(m[k].0.as_str());
                if f >= 0 {
                    let taken = if f == 0 {
                        seen.0.is_some()
                    } else if f == 1 {
                        seen.1.is_some()
                    } else {
                        seen.2.is_some()
                    };
                    if taken {
                        let name = if f == 0 {
                            "background"
                        } else if f == 1 {
                            "input_slots"
                        } else {
                            "output_slots"
                        };
                        proof {
                            reveal_strlit("background");
                            reveal_strlit("input_slots");
                            reveal_strlit("output_slots");
                        }
                        let e = crate::json::err_here(crate::json::DecodeErrorKind::DuplicateField(owned(name)));
                        assert(name@ == rt_name(f as int));
                        assert(spec_rt_scan(nxt) == Err::<RtSeen, crate::json::DecodeErrorView>(e@));
                        proof {
                            lemma_rt_scan_err(mv, k as int + 1);
                            assert(spec_rt_scan(mv) == Err::<RtSeen, crate::json::DecodeErrorView>(e@));
                            assert(spec_recipe_type(d) == Err::<RecipeTypeView, crate::json::DecodeErrorView>(e@));
                        }
                        return Err(e);
                    }
                    if !rt_value_ok_exec(f, &m[k].1) {
                        let inner = rt_type_error(f, &m[k].1);
                        let e = crate::json::err_under_key(m[k].0.as_str(), inner);
                        assert(spec_rt_scan(nxt) == Err::<RtSeen, crate::json::DecodeErrorView>(e@));
                        proof {
                            lemma_rt_scan_err(mv, k as int + 1);
                            assert(spec_rt_scan(mv) == Err::<RtSeen, crate::json::DecodeErrorView>(e@));
                            assert(spec_recipe_type(d) == Err::<RecipeTypeView, crate::json::DecodeErrorView>(e@));
                        }
                        return Err(e);
                    }
                    if f == 0 {
                        seen.0 = Some(k);
                    } else if f == 1 {
                        seen.1 = Some(k);
                    } else {
                        seen.2 = Some(k);
                    }
                }
                k = k + 1;
            }
            assert(mv.subrange(0, mv.len() as int) =~= mv);
            let b = match seen.0 {
                None => {
                    return Err(crate::json::err_missing("background"));
                },
                Some(b) => b,
            };
            let i = match seen.1 {
                None => {
                    return Err(crate::json::err_missing("input_slots"));
                },
                Some(i) => i,
            };
            let o = match seen.2 {
                None => {
                    return Err(crate::json::err_missing("output_slots"));
                },
                Some(o) => o,
            };
            assert(b != i && i != o && b != o);
            let bv = take_value(&mut m, b);
            let iv = take_value(&mut m, i);
            let ov = take_value(&mut m, o);
            Ok(StubRecipeType { background: take_string(bv), input_slots: take_object(iv), output_slots: take_object(ov) })
        },
        JsonValue::Array(a) => {
            let ghost av = a@;
            let mut a = a;
            let short = "struct StubRecipeType with 3 elements";
            proof {
                reveal_strlit("struct StubRecipeType with 3 elements");
                reveal_strlit("fewer elements in array");
            }
            if a.len() < 1 {
                return Err(rt_length(0, short));
            }
            if !rt_value_ok_exec(0, &a[0]) {
                return Err(crate::json::err_under_index(0, rt_type_error(0, &a[0])));
            }
            if a.len() < 2 {
                return Err(rt_length(1, short));
            }
            if !rt_value_ok_exec(1, &a[1]) {
                return Err(crate::json::err_under_index(1, rt_type_error(1, &a[1])));
            }
            if a.len() < 3 {
                return Err(rt_length(2, short));
            }
            if !rt_value_ok_exec(2, &a[2]) {
                return Err(crate::json::err_under_index(2, rt_type_error(2, &a[2])));
            }
            if a.len() > 3 {
                return Err(rt_length(a.len(), "fewer elements in array"));
            }
            let v0 = a.remove(0);
            let v1 = a.remove(0);
            let v2 = a.remove(0);
            Ok(StubRecipeType { background: take_string(v0), input_slots: take_object(v1), output_slots: take_object(v2) })
        },
        _ => Err(crate::json::err_invalid_type(&doc, "struct StubRecipeType")),
    }
}

proof fn lemma_rt_scan_err(m: Seq<(String, JsonValue)>, n: int)
    requires
        0 <= n <= m.len(),
        spec_rt_scan(m.subrange(0, n)) is Err,
    ensures
        spec_rt_scan(m) == spec_rt_scan(m.subrange(0, n)),
    decreases m.len() - n,
{
    if n < m.len() {
        assert(m.subrange(0, n + 1).drop_last() =~= m.subrange(0, n));
        lemma_rt_scan_err(m, n + 1);
    } else {
        assert(m.subrange(0, n) =~= m);
    }
}

/// How an ingredient is named in an issue: a tag with `#` in front.
pub open spec fn spec_ingredient_name(ing: StubView) -> Seq<char> {
    if ing.is_tag {
        "#"@ + ing.item_id
    } else {
        ing.item_id
    }
}

pub fn ingredient_name(ing: &StubRecipeIngredient) -> (r: String)
    ensures
        r@ == spec_ingredient_name(ing@),
{
    if ing.is_tag {
        concat2("#", ing.item_id.as_str())
    } else {
        ing.item_id.clone()
    }
}

/// The message of an ingredient the store refused.
pub fn invalid_ingredient_message(ing: &StubRecipeIngredient) -> (r: String)
    ensures
        r@ == "Invalid ingredient: '"@ + spec_ingredient_name(ing@) + "'"@,
{
    let name = ingredient_name(ing);
    concat3("Invalid ingredient: '", name.as_str(), "'")
}

// ----- content pages -----

/// The name of the content pages part of the ingestion.
pub const INGESTOR_MOD_CONTENT_PATHS: &'static str = "Content paths";

/// Whether a file of the content folder is a content page: a document whose name does
/// not start with `.`.
pub fn is_content_page_file(name: &str) -> (r: bool)
    ensures
        r == (!has_prefix(name@, "."@) && crate::text::has_suffix(name@, ".mdx"@)),
{
    !crate::text::starts_with(name, ".") && crate::text::ends_with(name, ".mdx")
}

/// What reading a content page's front matter gave.
pub enum PageFrontmatter {
    /// The page has none.
    Missing,
    /// It could not be read; the reason.
    Invalid(String),
    /// The ids of the items the page describes, and the reference its author chose.
    Found { ids: Vec<String>, page_ref: Option<String> },
}

pub open spec fn page_views(s: Seq<(String, ContentPage)>) -> Seq<(Seq<char>, Seq<char>, Seq<Seq<char>>)> {
    s.map_values(|p: (String, ContentPage)| (p.0@, p.1.path@, item_views(p.1.items@)))
}

/// Index of the last page under the reference `r`.
pub open spec fn page_index(s: Seq<(String, ContentPage)>, r: Seq<char>) -> Option<int>
    decreases s.len(),
{
    if s.len() == 0 {
        None
    } else if s.last().0@ == r {
        Some(s.len() - 1)
    } else {
        page_index(s.drop_last(), r)
    }
}

proof fn lemma_page_index_bounds(s: Seq<(String, ContentPage)>, r: Seq<char>)
    ensures
        page_index(s, r) matches Some(i) ==> 0 <= i < s.len() && s[i].0@ == r,
    decreases s.len(),
{
    if s.len() > 0 && s.last().0@ != r {
        lemma_page_index_bounds(s.drop_last(), r);
    }
}

/// The pages after the page `(r, path, items)` is put in: in place of one under the
/// same reference, else after the others.
pub open spec fn pages_with(
    s: Seq<(String, ContentPage)>,
    r: Seq<char>,
    path: Seq<char>,
    items: Seq<Seq<char>>,
) -> Seq<(Seq<char>, Seq<char>, Seq<Seq<char>>)> {
    match page_index(s, r) {
        Some(i) => page_views(s).update(i, (r, path, items)),
        None => page_views(s).push((r, path, items)),
    }
}

/// The ids of a page as stored: each in its `namespace:path` form.
pub open spec fn stored_ids(ids: Seq<String>) -> Seq<Seq<char>> {
    ids.map_values(|s: String| parsed_text(s@))
}

pub open spec fn no_ref_message() -> Seq<char> {
    "Could not derive ref for page. Please report this bug."@
}

pub open spec fn no_title_message() -> Seq<char> {
    "Page is missing a title. Please add a H1 heading."@
}

impl ContentPathsSubIngestor {
    fn put_page(&mut self, r: String, page: ContentPage)
        ensures
            page_views(final(self).pages@) == pages_with(old(self).pages@, r@, page.path@, item_views(page.items@)),
    {
        let ghost rv = r@;
        let ghost pv = (r@, page.path@, item_views(page.items@));
        let mut n = self.pages.len();
        assert(self.pages@.subrange(0, n as int) =~= self.pages@);
        while n > 0
            invariant
                n <= self.pages@.len(),
                self.pages == old(self).pages,
                rv == r@,
                pv == (r@, page.path@, item_views(page.items@)),
                page_index(self.pages@, rv) == page_index(self.pages@.subrange(0, n as int), rv),
            decreases n,
        {
            if str_eq(self.pages[n - 1].0.as_str(), r.as_str()) {
                let ghost before = self.pages@;
                assert(self.pages@.subrange(0, n as int).last() == before[n - 1]);
                self.pages.set(n - 1, (r, page));
                assert(page_views(self.pages@) =~= page_views(before).update(n - 1, pv));
                return;
            }
            assert(self.pages@.subrange(0, n as int).drop_last() =~= self.pages@.subrange(0, n - 1));
            n = n - 1;
        }
        let ghost before = self.pages@;
        self.pages.push((r, page));
        assert(page_views(self.pages@) =~= page_views(before).push(pv));
    }

    /// Takes in the content page at `path` (relative to the project root; `inner_path`
    /// is relative to the content folder): a page with front matter that names items of
    /// the project (`modid`), from which a reference follows, and with a title, is kept
    /// under that reference and its items are found items. What stops a page is
    /// recorded as an issue: front matter that cannot be read, an id that is no
    /// location of the project, no reference, no title.
    pub fn add_page(
        &mut self,
        path: String,
        inner_path: &str,
        fm: PageFrontmatter,
        has_title: bool,
        modid: &str,
        issues: &mut FileIssues,
        result: &mut PreparationResult,
    )
        requires
            old(result).wf(),
        ensures
            final(issues).file@ == old(issues).file@,
            final(result).wf(),
            match fm {
                PageFrontmatter::Missing => final(self).pages == old(self).pages && final(result)@
                    == old(result)@ && final(issues).issues@ == old(issues).issues@,
                PageFrontmatter::Invalid(m) => final(self).pages == old(self).pages && final(result)@
                    == old(result)@ && issue_views(final(issues).issues@) == issue_views(
                    old(issues).issues@,
                ).push(ingestor_issue(old(issues).file@, ProjectError::InvalidFrontmatter, m@)),
                PageFrontmatter::Found { ids, page_ref } => if ids@.len() == 0 {
                    final(self).pages == old(self).pages && final(result)@ == old(result)@
                        && final(issues).issues@ == old(issues).issues@
                } else if !ids_valid_prefix(ids@, modid@, ids@.len() as int) {
                    final(self).pages == old(self).pages && final(result)@ == old(result)@ && exists|k: int|
                        0 <= k < ids@.len() && ids_valid_prefix(ids@, modid@, k) && !id_in_namespace(
                            #[trigger] ids@[k]@,
                            modid@,
                        ) && issue_views(final(issues).issues@) == issue_views(old(issues).issues@).push(
                            id_issue(old(issues).file@, ids@[k]@, modid@),
                        )
                } else {
                    match spec_page_ref(opt_view(page_ref), stored_ids(ids@), inner_path@, Seq::empty()) {
                        None => final(self).pages == old(self).pages && final(result)@ == old(result)@
                            && issue_views(final(issues).issues@) == issue_views(old(issues).issues@).push(
                            ingestor_issue(old(issues).file@, ProjectError::Unknown, no_ref_message()),
                        ),
                        Some(r) => if !has_title {
                            final(self).pages == old(self).pages && final(result)@ == old(result)@
                                && issue_views(final(issues).issues@) == issue_views(
                                old(issues).issues@,
                            ).push(ingestor_issue(old(issues).file@, ProjectError::NoPageTitle, no_title_message()))
                        } else {
                            page_views(final(self).pages@) == pages_with(
                                old(self).pages@,
                                r,
                                path@,
                                stored_ids(ids@),
                            ) && final(issues).issues@ == old(issues).issues@ && (forall|x: Seq<char>|
                                #[trigger] final(result)@.contains(x) <==> (old(result)@.contains(x)
                                    || stored_ids(ids@).contains(x)))
                        },
                    }
                },
            },
    {
        proof {
            reveal_strlit("Could not derive ref for page. Please report this bug.");
            reveal_strlit("Page is missing a title. Please add a H1 heading.");
        }
        match fm {
            PageFrontmatter::Missing => {},
            PageFrontmatter::Invalid(m) => {
                issues.ingestor_error(ProjectError::InvalidFrontmatter, m);
            },
            PageFrontmatter::Found { ids, page_ref } => {
                if ids.len() == 0 {
                    return;
                }
                let parsed = match parse_ids(&ids, modid, issues) {
                    None => {
                        return;
                    },
                    Some(p) => p,
                };
                assert(item_views(parsed@) =~= stored_ids(ids@));
                let existing: Vec<String> = Vec::new();
                assert(item_views(existing@) =~= Seq::<Seq<char>>::empty());
                let user = match &page_ref {
                    Some(u) => Some(u.as_str()),
                    None => None,
                };
                let r = match get_page_ref(user, &parsed, inner_path, &existing) {
                    None => {
                        issues.ingestor_error(
                            ProjectError::Unknown,
                            owned("Could not derive ref for page. Please report this bug."),
                        );
                        return;
                    },
                    Some(r) => r,
                };
                if !has_title {
                    issues.ingestor_error(
                        ProjectError::NoPageTitle,
                        owned("Page is missing a title. Please add a H1 heading."),
                    );
                    return;
                }
                let ghost r0 = result@;
                let mut i: usize = 0;
                while i < parsed.len()
                    invariant
                        i <= parsed@.len(),
                        result.wf(),
                        forall|x: Seq<char>| #[trigger] result@.contains(x) <==> (r0.contains(x)
                            || item_views(parsed@).subrange(0, i as int).contains(x)),
                    decreases parsed@.len() - i,
                {
                    let ghost pv = item_views(parsed@);
                    result.insert(parsed[i].clone());
                    assert forall|x: Seq<char>| #[trigger] result@.contains(x) <==> (r0.contains(x)
                        || pv.subrange(0, i + 1).contains(x)) by {
                        if pv.subrange(0, i + 1).contains(x) {
                            let w = choose|w: int| 0 <= w < i + 1 && #[trigger] pv.subrange(0, i + 1)[w] == x;
                            if w < i {
                                assert(pv.subrange(0, i as int)[w] == x);
                            }
                        }
                        if pv.subrange(0, i as int).contains(x) {
                            let w = choose|w: int| 0 <= w < i && #[trigger] pv.subrange(0, i as int)[w] == x;
                            assert(pv.subrange(0, i + 1)[w] == x);
                        }
                        if x == pv[i as int] {
                            assert(pv.subrange(0, i + 1)[i as int] == x);
                        }
                    }
                    i = i + 1;
                }
                assert(item_views(parsed@).subrange(0, parsed@.len() as int) =~= item_views(parsed@));
                self.put_page(r, ContentPage { path, items: parsed });
            },
        }
    }
}


// ----- workbenches -----

/// The name of the metadata part of the ingestion.
pub const INGESTOR_MOD_METADATA: &'static str = "Metadata";

pub open spec fn workbench_views(s: Seq<(StubWorkbenches, String)>) -> Seq<(Seq<char>, Seq<Seq<char>>, Seq<char>)> {
    s.map_values(|w: (StubWorkbenches, String)| (w.0.recipe_type@, item_views(w.0.items@), w.1@))
}

impl MetadataSubIngestor {
    /// Keeps the workbenches of each recipe type of the workbenches file `file`, in order.
    pub fn add_workbenches(&mut self, entries: Vec<(String, Vec<String>)>, file: &str)
        ensures
            workbench_views(final(self).workbenches@) == workbench_views(old(self).workbenches@) + entries@.map_values(
                |e: (String, Vec<String>)| (e.0@, item_views(e.1@), file@),
            ),
    {
        let ghost start = workbench_views(self.workbenches@);
        let ghost ev = entries@.map_values(|e: (String, Vec<String>)| (e.0@, item_views(e.1@), file@));
        let mut entries = entries;
        let ghost orig = entries@;
        let n = entries.len();
        let mut i: usize = 0;
        while i < n
            invariant
                n == orig.len(),
                i <= n,
                entries@ == orig.subrange(i as int, n as int),
                ev == orig.map_values(|e: (String, Vec<String>)| (e.0@, item_views(e.1@), file@)),
                workbench_views(self.workbenches@) == start + ev.subrange(0, i as int),
            decreases n - i,
        {
            let e = entries.remove(0);
            assert(e == orig[i as int]);
            let ghost before = workbench_views(self.workbenches@);
            self.workbenches.push((StubWorkbenches { recipe_type: e.0, items: e.1 }, owned(file)));
            assert(workbench_views(self.workbenches@) =~= before.push(ev[i as int]));
            assert(ev.subrange(0, i + 1) =~= ev.subrange(0, i as int).push(ev[i as int]));
            assert(entries@ =~= orig.subrange(i + 1, n as int));
            i = i + 1;
        }
        assert(ev.subrange(0, n as int) =~= ev);
    }
}

/// The warning when the store took in fewer or more workbenches than a recipe type has.
pub fn workbench_count_message(expected: u64, inserted: u64) -> (r: String)
    ensures
        r@ == "Expected to insert "@ + crate::text::decimal(expected as nat) + " workbenches, was "@
            + crate::text::decimal(inserted as nat),
{
    let e = crate::text::u64_to_string(expected);
    let i = crate::text::u64_to_string(inserted);
    let mut r = concat3("Expected to insert ", e.as_str(), " workbenches, was ");
    crate::text::push_str(&mut r, i.as_str());
    r
}

} // verus!
