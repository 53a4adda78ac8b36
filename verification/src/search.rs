//! The documents a project's pages give the search index, and the filters that
//! remove a project's stale documents from it.
use vstd::prelude::*;
use crate::issues::opt_view;
use crate::text::{concat3, owned, push_str};
use crate::tree::{
    ContentFileTreeEntry, FileTreeEntry, FileType, entry_files, strings_view, tree_files,
};

verus! {

/// What a search document stands for.
#[derive(Debug, Clone, Copy, PartialEq, Eq, Structural)]
pub enum EntryType {
    Documentation,
    Content,
    Project,
}

pub open spec fn entry_type_text(t: EntryType) -> Seq<char> {
    match t {
        EntryType::Documentation => "documentation"@,
        EntryType::Content => "content"@,
        EntryType::Project => "project"@,
    }
}

impl EntryType {
    pub fn as_str(&self) -> (r: &'static str)
        ensures
            r@ == entry_type_text(*self),
    {
        match self {
            EntryType::Documentation => "documentation",
            EntryType::Content => "content",
            EntryType::Project => "project",
        }
    }
}

/// The project whose pages are indexed.
#[derive(Debug, Clone)]
pub struct SearchProject {
    pub id: String,
    pub name: String,
    pub project_type: String,
}

/// One document of the search index.
#[derive(Debug)]
pub struct SearchDocument {
    pub id: String,
    pub entry_type: EntryType,
    pub title: String,
    pub page_ref: Option<String>,
    pub project_id: String,
    pub project_name: String,
    pub project_type: String,
    pub project_icon_url: Option<String>,
    pub icon: Option<String>,
    pub item_ids: Vec<String>,
    pub deployment_id: String,
}

pub struct DocView {
    pub id: Seq<char>,
    pub entry_type: EntryType,
    pub title: Seq<char>,
    pub page_ref: Option<Seq<char>>,
    pub project_id: Seq<char>,
    pub project_name: Seq<char>,
    pub project_type: Seq<char>,
    pub project_icon_url: Option<Seq<char>>,
    pub icon: Option<Seq<char>>,
    pub item_ids: Seq<Seq<char>>,
    pub deployment_id: Seq<char>,
}

impl View for SearchDocument {
    type V = DocView;

    open spec fn view(&self) -> DocView {
        DocView {
            id: self.id@,
            entry_type: self.entry_type,
            title: self.title@,
            page_ref: opt_view(self.page_ref),
            project_id: self.project_id@,
            project_name: self.project_name@,
            project_type: self.project_type@,
            project_icon_url: opt_view(self.project_icon_url),
            icon: opt_view(self.icon),
            item_ids: strings_view(self.item_ids@),
            deployment_id: self.deployment_id@,
        }
    }
}

pub open spec fn docs_view(s: Seq<SearchDocument>) -> Seq<DocView> {
    s.map_values(|d: SearchDocument| d@)
}

/// The document that stands for the project itself.
pub open spec fn project_doc(p: SearchProject, deployment_id: Seq<char>, icon_url: Option<Seq<char>>) -> DocView {
    DocView {
        id: p.id@ + "::"@ + "project"@,
        entry_type: EntryType::Project,
        title: p.name@,
        page_ref: None,
        project_id: p.id@,
        project_name: p.name@,
        project_type: p.project_type@,
        project_icon_url: icon_url,
        icon: None,
        item_ids: Seq::empty(),
        deployment_id,
    }
}

/// The document of a documentation page.
pub open spec fn documentation_doc(e: FileTreeEntry, p: SearchProject, deployment_id: Seq<char>) -> DocView {
    DocView {
        id: p.id@ + "::"@ + "documentation"@ + "::"@ + e.path@,
        entry_type: EntryType::Documentation,
        title: e.name@,
        page_ref: Some(e.path@),
        project_id: p.id@,
        project_name: p.name@,
        project_type: p.project_type@,
        project_icon_url: None,
        icon: opt_view(e.icon),
        item_ids: Seq::empty(),
        deployment_id,
    }
}

/// The document of a content page with the reference `r`.
pub open spec fn content_doc(e: ContentFileTreeEntry, r: Seq<char>, p: SearchProject, deployment_id: Seq<char>) -> DocView {
    DocView {
        id: p.id@ + "::"@ + "content"@ + "::"@ + r,
        entry_type: EntryType::Content,
        title: e.name@,
        page_ref: Some(r),
        project_id: p.id@,
        project_name: p.name@,
        project_type: p.project_type@,
        project_icon_url: None,
        icon: opt_view(e.icon),
        item_ids: strings_view(e.item_ids@),
        deployment_id,
    }
}

fn id_of(project_id: &str, kind: EntryType, key: &str) -> (r: String)
    ensures
        r@ == project_id@ + "::"@ + entry_type_text(kind) + "::"@ + key@,
{
    let mut r = concat3(project_id, "::", kind.as_str());
    push_str(&mut r, "::");
    push_str(&mut r, key);
    r
}

fn clone_opt(o: &Option<String>) -> (r: Option<String>)
    ensures
        opt_view(r) == opt_view(*o),
{
    match o {
        Some(s) => Some(s.clone()),
        None => None,
    }
}

fn clone_strings(v: &Vec<String>) -> (r: Vec<String>)
    ensures
        strings_view(r@) == strings_view(v@),
{
    let mut r: Vec<String> = Vec::new();
    let mut i: usize = 0;
    while i < v.len()
        invariant
            i <= v@.len(),
            strings_view(r@) =~= strings_view(v@.subrange(0, i as int)),
        decreases v@.len() - i,
    {
        r.push(v[i].clone());
        assert(strings_view(v@.subrange(0, i + 1)) =~= strings_view(v@.subrange(0, i as int)).push(
            v@[i as int]@,
        ));
        i = i + 1;
    }
    assert(v@.subrange(0, v@.len() as int) =~= v@);
    r
}

/// The document of the project, with the icon its platform page has (when known).
pub fn project_document(p: &SearchProject, deployment_id: &str, icon_url: Option<String>) -> (r: SearchDocument)
    ensures
        r@ == project_doc(*p, deployment_id@, opt_view(icon_url)),
{
    let id = concat3(p.id.as_str(), "::", EntryType::Project.as_str());
    let r = SearchDocument {
        id,
        entry_type: EntryType::Project,
        title: p.name.clone(),
        page_ref: None,
        project_id: p.id.clone(),
        project_name: p.name.clone(),
        project_type: p.project_type.clone(),
        project_icon_url: icon_url,
        icon: None,
        item_ids: Vec::new(),
        deployment_id: owned(deployment_id),
    };
    assert(r@.item_ids =~= Seq::<Seq<char>>::empty());
    r
}

proof fn lemma_tree_files_push(s: Seq<FileTreeEntry>, i: int)
    requires
        0 <= i < s.len(),
    ensures
        tree_files(s.subrange(0, i + 1)) == tree_files(s.subrange(0, i)) + entry_files(s[i]),
{
    assert(s.subrange(0, i + 1).drop_last() =~= s.subrange(0, i));
}

pub open spec fn documentation_docs(s: Seq<FileTreeEntry>, p: SearchProject, deployment_id: Seq<char>) -> Seq<DocView> {
    tree_files(s).map_values(|e: FileTreeEntry| documentation_doc(e, p, deployment_id))
}

fn push_documentation(e: &FileTreeEntry, p: &SearchProject, deployment_id: &str, out: &mut Vec<SearchDocument>)
    ensures
        docs_view(final(out)@) == docs_view(old(out)@) + entry_files(*e).map_values(
            |f: FileTreeEntry| documentation_doc(f, *p, deployment_id@),
        ),
    decreases e,
{
    let ghost start = docs_view(out@);
    match e.file_type {
        FileType::File => {
            let d = SearchDocument {
                id: id_of(p.id.as_str(), EntryType::Documentation, e.path.as_str()),
                entry_type: EntryType::Documentation,
                title: e.name.clone(),
                page_ref: Some(e.path.clone()),
                project_id: p.id.clone(),
                project_name: p.name.clone(),
                project_type: p.project_type.clone(),
                project_icon_url: None,
                icon: clone_opt(&e.icon),
                item_ids: Vec::new(),
                deployment_id: owned(deployment_id),
            };
            assert(d@.item_ids =~= Seq::<Seq<char>>::empty());
            assert(d@ == documentation_doc(*e, *p, deployment_id@));
            out.push(d);
            assert(docs_view(out@) =~= start + seq![documentation_doc(*e, *p, deployment_id@)]);
            assert(entry_files(*e).map_values(|f: FileTreeEntry| documentation_doc(f, *p, deployment_id@))
                =~= seq![documentation_doc(*e, *p, deployment_id@)]);
        },
        FileType::Dir => {
            let mut i: usize = 0;
            assert(e.children@.subrange(0, 0) =~= Seq::<FileTreeEntry>::empty());
            assert(documentation_docs(e.children@.subrange(0, 0), *p, deployment_id@) =~= Seq::<DocView>::empty());
            while i < e.children.len()
                invariant
                    e.file_type == FileType::Dir,
                    i <= e.children@.len(),
                    docs_view(out@) =~= start + documentation_docs(
                        e.children@.subrange(0, i as int),
                        *p,
                        deployment_id@,
                    ),
                decreases e.children@.len() - i,
            {
                proof {
                    lemma_tree_files_push(e.children@, i as int);
                }
                push_documentation(&e.children[i], p, deployment_id, out);
                assert(documentation_docs(e.children@.subrange(0, i + 1), *p, deployment_id@)
                    =~= documentation_docs(e.children@.subrange(0, i as int), *p, deployment_id@)
                    + entry_files(e.children@[i as int]).map_values(
                    |f: FileTreeEntry| documentation_doc(f, *p, deployment_id@),
                ));
                i = i + 1;
            }
            assert(e.children@.subrange(0, e.children@.len() as int) =~= e.children@);
        },
    }
}

/// The documents of the documentation pages of `tree`, depth first.
pub fn documentation_documents(tree: &Vec<FileTreeEntry>, p: &SearchProject, deployment_id: &str) -> (r: Vec<
    SearchDocument,
>)
    ensures
        docs_view(r@) == documentation_docs(tree@, *p, deployment_id@),
{
    let mut out: Vec<SearchDocument> = Vec::new();
    let mut i: usize = 0;
    assert(tree@.subrange(0, 0) =~= Seq::<FileTreeEntry>::empty());
    assert(docs_view(out@) =~= documentation_docs(tree@.subrange(0, 0), *p, deployment_id@));
    while i < tree.len()
        invariant
            i <= tree@.len(),
            docs_view(out@) =~= documentation_docs(tree@.subrange(0, i as int), *p, deployment_id@),
        decreases tree@.len() - i,
    {
        proof {
            lemma_tree_files_push(tree@, i as int);
        }
        push_documentation(&tree[i], p, deployment_id, &mut out);
        assert(documentation_docs(tree@.subrange(0, i + 1), *p, deployment_id@) =~= documentation_docs(
            tree@.subrange(0, i as int),
            *p,
            deployment_id@,
        ) + entry_files(tree@[i as int]).map_values(
            |f: FileTreeEntry| documentation_doc(f, *p, deployment_id@),
        ));
        i = i + 1;
    }
    assert(tree@.subrange(0, tree@.len() as int) =~= tree@);
    out
}

/// The documents of the content pages of a content tree: one for each page with a
/// reference, depth first.
pub open spec fn content_docs(s: Seq<ContentFileTreeEntry>, p: SearchProject, deployment_id: Seq<char>) -> Seq<DocView>
    decreases s,
{
    if s.len() == 0 {
        Seq::empty()
    } else {
        content_docs(s.drop_last(), p, deployment_id) + content_entry_docs(s.last(), p, deployment_id)
    }
}

pub open spec fn content_entry_docs(e: ContentFileTreeEntry, p: SearchProject, deployment_id: Seq<char>) -> Seq<DocView>
    decreases e,
{
    match e.file_type {
        FileType::Dir => content_docs(e.children@, p, deployment_id),
        FileType::File => match e.page_ref {
            Some(r) => seq![content_doc(e, r@, p, deployment_id)],
            None => Seq::empty(),
        },
    }
}

proof fn lemma_content_docs_push(s: Seq<ContentFileTreeEntry>, i: int, p: SearchProject, d: Seq<char>)
    requires
        0 <= i < s.len(),
    ensures
        content_docs(s.subrange(0, i + 1), p, d) == content_docs(s.subrange(0, i), p, d)
            + content_entry_docs(s[i], p, d),
{
    assert(s.subrange(0, i + 1).drop_last() =~= s.subrange(0, i));
}

fn push_content(e: &ContentFileTreeEntry, p: &SearchProject, deployment_id: &str, out: &mut Vec<SearchDocument>)
    ensures
        docs_view(final(out)@) == docs_view(old(out)@) + content_entry_docs(*e, *p, deployment_id@),
    decreases e,
{
    let ghost start = docs_view(out@);
    match e.file_type {
        FileType::File => {
            match &e.page_ref {
                Some(r) => {
                    let d = SearchDocument {
                        id: id_of(p.id.as_str(), EntryType::Content, r.as_str()),
                        entry_type: EntryType::Content,
                        title: e.name.clone(),
                        page_ref: Some(r.clone()),
                        project_id: p.id.clone(),
                        project_name: p.name.clone(),
                        project_type: p.project_type.clone(),
                        project_icon_url: None,
                        icon: clone_opt(&e.icon),
                        item_ids: clone_strings(&e.item_ids),
                        deployment_id: owned(deployment_id),
                    };
                    assert(d@ == content_doc(*e, r@, *p, deployment_id@));
                    out.push(d);
                    assert(docs_view(out@) =~= start + seq![content_doc(*e, r@, *p, deployment_id@)]);
                },
                None => {
                    assert(start + Seq::<DocView>::empty() =~= start);
                },
            }
        },
        FileType::Dir => {
            let mut i: usize = 0;
            assert(e.children@.subrange(0, 0) =~= Seq::<ContentFileTreeEntry>::empty());
            assert(content_docs(e.children@.subrange(0, 0), *p, deployment_id@) =~= Seq::<DocView>::empty());
            while i < e.children.len()
                invariant
                    e.file_type == FileType::Dir,
                    i <= e.children@.len(),
                    docs_view(out@) =~= start + content_docs(
                        e.children@.subrange(0, i as int),
                        *p,
                        deployment_id@,
                    ),
                decreases e.children@.len() - i,
            {
                proof {
                    lemma_content_docs_push(e.children@, i as int, *p, deployment_id@);
                }
                push_content(&e.children[i], p, deployment_id, out);
                i = i + 1;
            }
            assert(e.children@.subrange(0, e.children@.len() as int) =~= e.children@);
        },
    }
}

/// The documents of the content pages of `tree` that have a reference, depth first.
pub fn content_documents(tree: &Vec<ContentFileTreeEntry>, p: &SearchProject, deployment_id: &str) -> (r: Vec<
    SearchDocument,
>)
    ensures
        docs_view(r@) == content_docs(tree@, *p, deployment_id@),
{
    let mut out: Vec<SearchDocument> = Vec::new();
    let mut i: usize = 0;
    assert(tree@.subrange(0, 0) =~= Seq::<ContentFileTreeEntry>::empty());
    assert(docs_view(out@) =~= content_docs(tree@.subrange(0, 0), *p, deployment_id@));
    while i < tree.len()
        invariant
            i <= tree@.len(),
            docs_view(out@) =~= content_docs(tree@.subrange(0, i as int), *p, deployment_id@),
        decreases tree@.len() - i,
    {
        proof {
            lemma_content_docs_push(tree@, i as int, *p, deployment_id@);
        }
        push_content(&tree[i], p, deployment_id, &mut out);
        i = i + 1;
    }
    assert(tree@.subrange(0, tree@.len() as int) =~= tree@);
    out
}

/// The filter that picks the documents of a project to drop after indexing one of
/// its deployments: the other deployments' documents while it is still the active
/// one, else its own.
pub open spec fn spec_purge_filter(project_id: Seq<char>, deployment_id: Seq<char>, still_active: bool) -> Seq<char> {
    "project_id:=`"@ + project_id + (if still_active {
        "` && deployment_id:!=`"@
    } else {
        "` && deployment_id:=`"@
    }) + deployment_id + "`"@
}

pub fn purge_filter(project_id: &str, deployment_id: &str, still_active: bool) -> (r: String)
    ensures
        r@ == spec_purge_filter(project_id@, deployment_id@, still_active),
{
    let mut r = concat3(
        "project_id:=`",
        project_id,
        if still_active {
            "` && deployment_id:!=`"
        } else {
            "` && deployment_id:=`"
        },
    );
    push_str(&mut r, deployment_id);
    push_str(&mut r, "`");
    r
}

/// The filter that picks all documents of a project.
pub fn project_filter(project_id: &str) -> (r: String)
    ensures
        r@ == "project_id:=`"@ + project_id@ + "`"@,
{
    concat3("project_id:=`", project_id, "`")
}

/// Every document of a project's pages belongs to the deployment it was built for.
pub proof fn lemma_documents_carry_deployment(
    tree: Seq<FileTreeEntry>,
    content: Seq<ContentFileTreeEntry>,
    p: SearchProject,
    deployment_id: Seq<char>,
)
    ensures
        forall|i: int|
            0 <= i < documentation_docs(tree, p, deployment_id).len() ==> (#[trigger] documentation_docs(
                tree,
                p,
                deployment_id,
            )[i]).deployment_id == deployment_id && documentation_docs(tree, p, deployment_id)[i].project_id
                == p.id@,
        forall|i: int|
            0 <= i < content_docs(content, p, deployment_id).len() ==> (#[trigger] content_docs(
                content,
                p,
                deployment_id,
            )[i]).deployment_id == deployment_id && content_docs(content, p, deployment_id)[i].project_id
                == p.id@,
{
    lemma_content_docs_carry(content, p, deployment_id);
}

proof fn lemma_content_docs_carry(s: Seq<ContentFileTreeEntry>, p: SearchProject, d: Seq<char>)
    ensures
        forall|i: int|
            0 <= i < content_docs(s, p, d).len() ==> (#[trigger] content_docs(s, p, d)[i]).deployment_id == d
                && content_docs(s, p, d)[i].project_id == p.id@,
    decreases s,
{
    if s.len() > 0 {
        lemma_content_docs_carry(s.drop_last(), p, d);
        lemma_content_entry_carry(s.last(), p, d);
    }
}

proof fn lemma_content_entry_carry(e: ContentFileTreeEntry, p: SearchProject, d: Seq<char>)
    ensures
        forall|i: int|
            0 <= i < content_entry_docs(e, p, d).len() ==> (#[trigger] content_entry_docs(e, p, d)[i]).deployment_id
                == d && content_entry_docs(e, p, d)[i].project_id == p.id@,
    decreases e,
{
    if e.file_type == FileType::Dir {
        lemma_content_docs_carry(e.children@, p, d);
    }
}

// ----- the collection's schema -----

/// A field of the search collection: its name and type, and the flags the index
/// gets for it (`None` where the index's default holds).
#[derive(Debug, Clone)]
pub struct SchemaField {
    pub name: String,
    pub field_type: String,
    pub facet: Option<bool>,
    pub optional: Option<bool>,
    pub index: Option<bool>,
    pub store: Option<bool>,
}

pub type FieldView = (Seq<char>, Seq<char>, Option<bool>, Option<bool>, Option<bool>, Option<bool>);

pub open spec fn field_view(f: SchemaField) -> FieldView {
    (f.name@, f.field_type@, f.facet, f.optional, f.index, f.store)
}

/// The search collection: its name and fields.
#[derive(Debug, Clone)]
pub struct CollectionSchema {
    pub name: String,
    pub fields: Vec<SchemaField>,
}

/// The fields of the collection, in order. Every field may be searched by default;
/// a facet can be grouped by; an optional field may be absent; the icon is stored but
/// not indexed; the deployment is indexed for filters but not stored.
pub open spec fn schema_fields() -> Seq<FieldView> {
    seq![
        ("entry_type"@, "string"@, Some(true), None, None, None),
        ("title"@, "string"@, None, None, None, None),
        ("page_ref"@, "string"@, None, Some(true), None, None),
        ("project_id"@, "string"@, Some(true), None, None, None),
        ("project_name"@, "string"@, None, None, None, None),
        ("project_type"@, "string"@, None, None, None, None),
        ("project_icon_url"@, "string"@, None, Some(true), None, None),
        ("icon"@, "string"@, None, Some(true), Some(false), None),
        ("item_ids"@, "string[]"@, None, Some(true), None, None),
        ("deployment_id"@, "string"@, None, Some(true), None, Some(false)),
    ]
}

fn schema_field(
    name: &str,
    ty: &str,
    facet: Option<bool>,
    optional: Option<bool>,
    index: Option<bool>,
    store: Option<bool>,
) -> (r: SchemaField)
    ensures
        field_view(r) == (name@, ty@, facet, optional, index, store),
{
    SchemaField { name: owned(name), field_type: owned(ty), facet, optional, index, store }
}

/// The schema of the search collection `collection_name`.
pub fn collection_schema(collection_name: &str) -> (r: CollectionSchema)
    ensures
        r.name@ == collection_name@,
        r.fields@.map_values(|f: SchemaField| field_view(f)) == schema_fields(),
{
    let mut fields: Vec<SchemaField> = Vec::new();
    fields.push(schema_field("entry_type", "string", Some(true), None, None, None));
    fields.push(schema_field("title", "string", None, None, None, None));
    fields.push(schema_field("page_ref", "string", None, Some(true), None, None));
    fields.push(schema_field("project_id", "string", Some(true), None, None, None));
    fields.push(schema_field("project_name", "string", None, None, None, None));
    fields.push(schema_field("project_type", "string", None, None, None, None));
    fields.push(schema_field("project_icon_url", "string", None, Some(true), None, None));
    fields.push(schema_field("icon", "string", None, Some(true), Some(false), None));
    fields.push(schema_field("item_ids", "string[]", None, Some(true), None, None));
    fields.push(schema_field("deployment_id", "string", None, Some(true), None, Some(false)));
    assert(fields@.map_values(|f: SchemaField| field_view(f)) =~= schema_fields());
    CollectionSchema { name: owned(collection_name), fields }
}

} // verus!
