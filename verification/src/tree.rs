//! The trees of pages a project's folders form, and the order a folder lists its entries in.
use vstd::prelude::*;
use crate::custom_recipe::{lemma_seq_lt_irreflexive, lemma_seq_lt_total, lemma_seq_lt_transitive};
use crate::format::{
    DOCS_FILE_DOT_EXT, EntryOrder, FolderMetadata, FolderMetadataEntry, camel_case, compare_entries,
    docs_entry_name, spec_compare_entries,
};
use crate::issues::opt_view;
use crate::text::{has_prefix, has_suffix, owned, seq_lt, starts_with, str_eq, strip_suffix_or_keep};

verus! {

// ----- the order of a folder's entries -----

/// `a` comes no later than `b` in a folder whose metadata lists `keys`.
pub open spec fn entry_le(keys: Seq<String>, a: Seq<char>, b: Seq<char>) -> bool {
    spec_compare_entries(keys, a, b) != EntryOrder::Greater
}

/// Comparing the other way round gives the opposite answer.
pub proof fn lemma_compare_entries_flip(keys: Seq<String>, a: Seq<char>, b: Seq<char>)
    ensures
        spec_compare_entries(keys, a, b) == EntryOrder::Greater <==> spec_compare_entries(keys, b, a)
            == EntryOrder::Less,
        spec_compare_entries(keys, a, b) == EntryOrder::Equal <==> spec_compare_entries(keys, b, a)
            == EntryOrder::Equal,
{
    if keys.len() == 0 {
        lemma_seq_lt_irreflexive(a);
        lemma_seq_lt_irreflexive(b);
        if a != b {
            lemma_seq_lt_total(a, b);
        }
        if seq_lt(a, b) && seq_lt(b, a) {
            lemma_seq_lt_transitive(a, b, a);
        }
    }
}

/// Coming no later is transitive.
pub proof fn lemma_entry_le_transitive(keys: Seq<String>, a: Seq<char>, b: Seq<char>, c: Seq<char>)
    requires
        entry_le(keys, a, b),
        entry_le(keys, b, c),
    ensures
        entry_le(keys, a, c),
{
    if keys.len() == 0 {
        if seq_lt(a, b) && seq_lt(b, c) {
            lemma_seq_lt_transitive(a, b, c);
        }
    }
}

/// `order` holds each index below `n` once.
pub open spec fn is_permutation(order: Seq<usize>, n: nat) -> bool {
    &&& order.len() == n
    &&& forall|i: int| 0 <= i < order.len() ==> order[i] < n
    &&& forall|i: int, j: int| 0 <= i < j < order.len() ==> order[i] != order[j]
}

/// No entry of `names`, taken in `order`, comes before one listed ahead of it.
pub open spec fn in_entry_order(keys: Seq<String>, names: Seq<String>, order: Seq<usize>) -> bool {
    forall|i: int, j: int|
        0 <= i < j < order.len() ==> entry_le(
            keys,
            #[trigger] names[order[i] as int]@,
            #[trigger] names[order[j] as int]@,
        )
}

/// Entries that tie keep the order they were listed in.
pub open spec fn keeps_ties(keys: Seq<String>, names: Seq<String>, order: Seq<usize>) -> bool {
    forall|i: int, j: int|
        0 <= i < j < order.len() && spec_compare_entries(
            keys,
            #[trigger] names[order[i] as int]@,
            #[trigger] names[order[j] as int]@,
        ) == EntryOrder::Equal ==> order[i] < order[j]
}

proof fn lemma_insert_in_order(
    keys: Seq<String>,
    names: Seq<String>,
    s: Seq<usize>,
    pos: int,
    k: usize,
)
    requires
        k < names.len(),
        is_permutation(s, k as nat),
        in_entry_order(keys, names, s),
        keeps_ties(keys, names, s),
        0 <= pos <= s.len(),
        forall|t: int|
            pos <= t < s.len() ==> spec_compare_entries(keys, #[trigger] names[s[t] as int]@, names[k as int]@)
                == EntryOrder::Greater,
        pos == 0 || entry_le(keys, names[s[pos - 1] as int]@, names[k as int]@),
    ensures
        is_permutation(s.insert(pos, k), (k + 1) as nat),
        in_entry_order(keys, names, s.insert(pos, k)),
        keeps_ties(keys, names, s.insert(pos, k)),
{
    let r = s.insert(pos, k);
    let x = names[k as int]@;
    assert forall|i: int| 0 <= i < pos implies entry_le(keys, #[trigger] names[s[i] as int]@, x) by {
        if i < pos - 1 {
            lemma_entry_le_transitive(keys, names[s[i] as int]@, names[s[pos - 1] as int]@, x);
        }
    }
    assert forall|t: int| pos <= t < s.len() implies spec_compare_entries(
        keys,
        x,
        #[trigger] names[s[t] as int]@,
    ) == EntryOrder::Less by {
        lemma_compare_entries_flip(keys, names[s[t] as int]@, x);
    }
    assert forall|i: int, j: int| 0 <= i < j < r.len() implies r[i] != r[j] by {
        if i < pos && j > pos {
            assert(r[j] == s[j - 1]);
        }
    }
    assert forall|i: int, j: int| 0 <= i < j < r.len() implies entry_le(
        keys,
        #[trigger] names[r[i] as int]@,
        #[trigger] names[r[j] as int]@,
    ) by {
        if i < pos && j < pos {
        } else if i < pos && j == pos {
        } else if i < pos {
            assert(r[j] == s[j - 1]);
        } else if i == pos {
            assert(r[j] == s[j - 1]);
        } else {
            assert(r[i] == s[i - 1]);
            assert(r[j] == s[j - 1]);
        }
    }
    assert forall|i: int, j: int|
        0 <= i < j < r.len() && spec_compare_entries(
            keys,
            #[trigger] names[r[i] as int]@,
            #[trigger] names[r[j] as int]@,
        ) == EntryOrder::Equal implies r[i] < r[j] by {
        if i < pos && j < pos {
        } else if i < pos && j == pos {
        } else if i < pos {
            assert(r[j] == s[j - 1]);
        } else if i == pos {
            assert(r[j] == s[j - 1]);
        } else {
            assert(r[i] == s[i - 1]);
            assert(r[j] == s[j - 1]);
        }
    }
}

/// The order a folder lists its entries `names` in: a stable sort of the indices of
/// `names` by how the folder's metadata orders them.
pub fn entry_order(keys: &Vec<String>, names: &Vec<String>) -> (order: Vec<usize>)
    ensures
        is_permutation(order@, names@.len()),
        in_entry_order(keys@, names@, order@),
        keeps_ties(keys@, names@, order@),
{
    let mut order: Vec<usize> = Vec::new();
    let mut k: usize = 0;
    while k < names.len()
        invariant
            k <= names@.len(),
            is_permutation(order@, k as nat),
            in_entry_order(keys@, names@, order@),
            keeps_ties(keys@, names@, order@),
        decreases names@.len() - k,
    {
        let mut pos: usize = order.len();
        loop
            invariant
                k < names@.len(),
                is_permutation(order@, k as nat),
                pos <= order@.len(),
                forall|t: int|
                    pos <= t < order@.len() ==> spec_compare_entries(
                        keys@,
                        #[trigger] names@[order@[t] as int]@,
                        names@[k as int]@,
                    ) == EntryOrder::Greater,
            ensures
                pos <= order@.len(),
                forall|t: int|
                    pos <= t < order@.len() ==> spec_compare_entries(
                        keys@,
                        #[trigger] names@[order@[t] as int]@,
                        names@[k as int]@,
                    ) == EntryOrder::Greater,
                pos == 0 || entry_le(keys@, names@[order@[pos - 1] as int]@, names@[k as int]@),
            decreases pos,
        {
            if pos == 0 {
                break;
            }
            let c = compare_entries(keys, names[order[pos - 1]].as_str(), names[k].as_str());
            if c != EntryOrder::Greater {
                break;
            }
            pos = pos - 1;
        }
        proof {
            lemma_insert_in_order(keys@, names@, order@, pos as int, k);
        }
        order.insert(pos, k);
        k = k + 1;
    }
    order
}

// ----- a folder's metadata -----

/// Index of the last entry of `entries` under `key`.
pub open spec fn meta_lookup(entries: Seq<(String, FolderMetadataEntry)>, key: Seq<char>) -> Option<int>
    decreases entries.len(),
{
    if entries.len() == 0 {
        None
    } else if entries.last().0@ == key {
        Some(entries.len() - 1)
    } else {
        meta_lookup(entries.drop_last(), key)
    }
}

/// The name and icon the metadata gives the entry `key`.
pub open spec fn meta_entry(meta: FolderMetadata, key: Seq<char>) -> Option<(Seq<char>, Seq<char>)> {
    match meta_lookup(meta.entries@, key) {
        Some(i) => Some((meta.entries@[i].1.name@, meta.entries@[i].1.icon@)),
        None => None,
    }
}

proof fn lemma_meta_lookup_bounds(entries: Seq<(String, FolderMetadataEntry)>, key: Seq<char>)
    ensures
        meta_lookup(entries, key) matches Some(i) ==> 0 <= i < entries.len() && entries[i].0@ == key,
    decreases entries.len(),
{
    if entries.len() > 0 && entries.last().0@ != key {
        lemma_meta_lookup_bounds(entries.drop_last(), key);
    }
}

impl FolderMetadata {
    /// The metadata of the entry `key`, when the folder's metadata lists it.
    pub fn entry(&self, key: &str) -> (r: Option<&FolderMetadataEntry>)
        ensures
            match r {
                Some(e) => meta_entry(*self, key@) == Some((e.name@, e.icon@)),
                None => meta_entry(*self, key@) is None,
            },
    {
        let mut n = self.entries.len();
        assert(self.entries@.subrange(0, n as int) =~= self.entries@);
        while n > 0
            invariant
                n <= self.entries@.len(),
                meta_lookup(self.entries@, key@) == meta_lookup(self.entries@.subrange(0, n as int), key@),
            decreases n,
        {
            if str_eq(self.entries[n - 1].0.as_str(), key) {
                return Some(&self.entries[n - 1].1);
            }
            assert(self.entries@.subrange(0, n as int).drop_last() =~= self.entries@.subrange(0, n - 1));
            n = n - 1;
        }
        None
    }

    /// Lists `key` after the keys listed so far, with its name and icon; a key listed
    /// again takes the new name and icon.
    pub fn add(&mut self, key: String, entry: FolderMetadataEntry)
        ensures
            final(self).keys@ == old(self).keys@.push(key),
            meta_entry(*final(self), key@) == Some((entry.name@, entry.icon@)),
            forall|k: Seq<char>| k != key@ ==> meta_entry(*final(self), k) == meta_entry(*old(self), k),
    {
        let k2 = key.clone();
        self.keys.push(key);
        self.entries.push((k2, entry));
        assert(self.entries@.drop_last() =~= old(self).entries@);
        assert forall|k: Seq<char>| k != key@ implies meta_entry(*self, k) == meta_entry(*old(self), k) by {
            assert(meta_lookup(self.entries@, k) == meta_lookup(old(self).entries@, k));
            lemma_meta_lookup_bounds(old(self).entries@, k);
            if let Some(i) = meta_lookup(old(self).entries@, k) {
                assert(self.entries@[i] == old(self).entries@[i]);
            }
        }
    }
}

/// The name the metadata gives the entry `key`: the one it names, else the title of
/// the page the entry is (when there is one), else one made from the key.
pub open spec fn spec_meta_name(key: Seq<char>, name: Seq<char>, title: Option<Seq<char>>) -> Seq<char> {
    let from_title = match title {
        Some(t) => t,
        None => Seq::empty(),
    };
    if name.len() > 0 {
        name
    } else if from_title.len() > 0 {
        from_title
    } else {
        camel_case(strip_suffix_or_keep(key, DOCS_FILE_DOT_EXT@))
    }
}

pub fn meta_name(key: &str, name: String, title: Option<String>) -> (r: String)
    ensures
        r@ == spec_meta_name(key@, name@, opt_view(title)),
{
    if name.as_str().is_empty() {
        let from_title = match title {
            Some(t) => t,
            None => String::new(),
        };
        if from_title.as_str().is_empty() {
            docs_entry_name(key)
        } else {
            from_title
        }
    } else {
        name
    }
}

// ----- the tree of a folder -----

/// What an entry of a folder tree is.
#[derive(Debug, Clone, Copy, PartialEq, Eq, Structural)]
pub enum FileType {
    Dir,
    File,
}

/// An entry of the tree of a folder: a document, or a folder with its own entries.
#[derive(Debug)]
pub struct FileTreeEntry {
    pub name: String,
    pub icon: Option<String>,
    pub content_icon: Option<String>,
    pub path: String,
    pub file_type: FileType,
    pub children: Vec<FileTreeEntry>,
}

/// Whether a folder's tree shows its entry `name`: hidden names (starting with `.` or
/// `_`) never; folders always; files when they are documents.
pub open spec fn spec_is_tree_entry(name: Seq<char>, is_dir: bool, is_file: bool) -> bool {
    &&& !has_prefix(name, "."@)
    &&& !has_prefix(name, "_"@)
    &&& (is_dir || (is_file && has_suffix(name, DOCS_FILE_DOT_EXT@)))
}

pub fn is_tree_entry(name: &str, is_dir: bool, is_file: bool) -> (r: bool)
    ensures
        r == spec_is_tree_entry(name@, is_dir, is_file),
{
    if starts_with(name, ".") || starts_with(name, "_") {
        false
    } else if is_dir {
        true
    } else {
        is_file && crate::text::ends_with(name, DOCS_FILE_DOT_EXT)
    }
}

/// The name a tree entry shows: the folder metadata's, else the page's title, else
/// one made from the file name.
pub open spec fn spec_entry_name(meta: FolderMetadata, file_name: Seq<char>, title: Option<Seq<char>>) -> Seq<char> {
    match meta_entry(meta, file_name) {
        Some(e) => e.0,
        None => match title {
            Some(t) => t,
            None => camel_case(strip_suffix_or_keep(file_name, DOCS_FILE_DOT_EXT@)),
        },
    }
}

/// The entry of a folder's tree for its entry `file_name`. A folder is located by
/// `rel_path` and has `children`; a document by its `slug`, with the icon its front
/// matter gives. `title` is the page's title, needed only when the metadata does not
/// name the entry.
pub fn tree_entry(
    meta: &FolderMetadata,
    file_name: &str,
    is_dir: bool,
    rel_path: String,
    slug: String,
    title: Option<String>,
    page_icon: Option<String>,
    children: Vec<FileTreeEntry>,
) -> (r: FileTreeEntry)
    ensures
        r.name@ == spec_entry_name(*meta, file_name@, opt_view(title)),
        opt_view(r.icon) == match meta_entry(*meta, file_name@) {
            Some(e) => Some(e.1),
            None => None,
        },
        r.content_icon == if is_dir { None } else { page_icon },
        r.path == if is_dir { rel_path } else { slug },
        r.file_type == if is_dir { FileType::Dir } else { FileType::File },
        r.children@ == if is_dir { children@ } else { Seq::<FileTreeEntry>::empty() },
{
    let (name, icon) = match meta.entry(file_name) {
        Some(e) => (e.name.clone(), Some(e.icon.clone())),
        None => {
            let n = match title {
                Some(t) => t,
                None => docs_entry_name(file_name),
            };
            (n, None)
        },
    };
    if is_dir {
        FileTreeEntry {
            name,
            icon,
            content_icon: None,
            path: rel_path,
            file_type: FileType::Dir,
            children,
        }
    } else {
        FileTreeEntry {
            name,
            icon,
            content_icon: page_icon,
            path: slug,
            file_type: FileType::File,
            children: Vec::new(),
        }
    }
}

/// An entry of a folder as listed: its name and kind; where a folder is located and
/// where a document is (its slug); the page's title and front matter icon (for a
/// document); and, for a folder, the tree built of its own entries.
pub struct ListedEntry {
    pub name: String,
    pub is_dir: bool,
    pub is_file: bool,
    pub rel_path: String,
    pub slug: String,
    pub title: Option<String>,
    pub page_icon: Option<String>,
    pub children: Vec<FileTreeEntry>,
}

/// The listed entries the tree shows, in listing order.
pub open spec fn shown_entries(l: Seq<ListedEntry>) -> Seq<ListedEntry>
    decreases l.len(),
{
    if l.len() == 0 {
        Seq::empty()
    } else {
        let p = shown_entries(l.drop_last());
        if spec_is_tree_entry(l.last().name@, l.last().is_dir, l.last().is_file) {
            p.push(l.last())
        } else {
            p
        }
    }
}

pub open spec fn names_of(l: Seq<ListedEntry>) -> Seq<String> {
    l.map_values(|e: ListedEntry| e.name)
}

/// `t` is the tree entry of the listed entry `e` (see `tree_entry`): a folder holds
/// its own tree, a document has no children.
pub open spec fn entry_of(meta: FolderMetadata, e: ListedEntry, t: FileTreeEntry) -> bool {
    &&& t.name@ == spec_entry_name(meta, e.name@, opt_view(e.title))
    &&& opt_view(t.icon) == match meta_entry(meta, e.name@) {
        Some(x) => Some(x.1),
        None => None,
    }
    &&& t.content_icon == if e.is_dir { None } else { e.page_icon }
    &&& t.path == if e.is_dir { e.rel_path } else { e.slug }
    &&& t.file_type == if e.is_dir { FileType::Dir } else { FileType::File }
    &&& t.children@ == if e.is_dir { e.children@ } else { Seq::<FileTreeEntry>::empty() }
}

/// `r` is the tree of the shown entries `shown` taken in `order`: the order the folder
/// lists them in (by name when its metadata has no keys, else the keyed ones first,
/// in key order), ties kept in listing order.
pub open spec fn tree_in_order(
    meta: FolderMetadata,
    shown: Seq<ListedEntry>,
    order: Seq<usize>,
    r: Seq<FileTreeEntry>,
) -> bool {
    &&& is_permutation(order, shown.len())
    &&& in_entry_order(meta.keys@, names_of(shown), order)
    &&& keeps_ties(meta.keys@, names_of(shown), order)
    &&& r.len() == shown.len()
    &&& forall|j: int| 0 <= j < r.len() ==> entry_of(meta, #[trigger] shown[order[j] as int], r[j])
}

/// The tree of a folder whose metadata is `meta` and whose entries are `listing`: one
/// entry for each folder and each document (`.mdx` file) whose name starts with
/// neither `.` nor `_`, in the folder's order.
pub fn build_tree_entries(meta: &FolderMetadata, listing: Vec<ListedEntry>) -> (r: Vec<FileTreeEntry>)
    ensures
        exists|order: Seq<usize>| #[trigger] tree_in_order(*meta, shown_entries(listing@), order, r@),
{
    let ghost orig = listing@;
    let mut listing = listing;
    let mut slots: Vec<Option<ListedEntry>> = Vec::new();
    let mut names: Vec<String> = Vec::new();
    let ghost mut taken: int = 0;
    assert(orig.subrange(0, 0) =~= Seq::<ListedEntry>::empty());
    while listing.len() > 0
        invariant
            0 <= taken <= orig.len(),
            listing@ == orig.subrange(taken, orig.len() as int),
            slots@.len() == shown_entries(orig.subrange(0, taken)).len(),
            forall|k: int| 0 <= k < slots@.len() ==> #[trigger] slots@[k] == Some(
                shown_entries(orig.subrange(0, taken))[k],
            ),
            names@ == names_of(shown_entries(orig.subrange(0, taken))),
        decreases listing@.len(),
    {
        let ghost prev = shown_entries(orig.subrange(0, taken));
        let e = listing.remove(0);
        assert(e == orig[taken]);
        assert(orig.subrange(0, taken + 1).drop_last() =~= orig.subrange(0, taken));
        assert(orig.subrange(0, taken + 1).last() == orig[taken]);
        if is_tree_entry(e.name.as_str(), e.is_dir, e.is_file) {
            names.push(e.name.clone());
            slots.push(Some(e));
            assert(names@ =~= names_of(prev.push(orig[taken])));
        }
        proof {
            taken = taken + 1;
        }
        assert(listing@ =~= orig.subrange(taken, orig.len() as int));
    }
    assert(orig.subrange(0, taken) =~= orig);
    let ghost shown = shown_entries(orig);
    let order = entry_order(&meta.keys, &names);
    let n = order.len();
    let mut out: Vec<FileTreeEntry> = Vec::new();
    let mut j: usize = 0;
    while j < n
        invariant
            n == order@.len(),
            names@ == names_of(shown),
            is_permutation(order@, shown.len()),
            slots@.len() == shown.len(),
            j <= n,
            out@.len() == j,
            forall|t: int|
                0 <= t < slots@.len() && !order@.subrange(0, j as int).contains(t as usize) ==> #[trigger] slots@[t]
                    == Some(shown[t]),
            forall|i: int| 0 <= i < j ==> entry_of(*meta, #[trigger] shown[order@[i] as int], out@[i]),
        decreases n - j,
    {
        let k = order[j];
        assert(!order@.subrange(0, j as int).contains(k)) by {
            if order@.subrange(0, j as int).contains(k) {
                let w = choose|w: int| 0 <= w < j && order@.subrange(0, j as int)[w] == k;
                assert(order@[w] == order@[j as int]);
            }
        }
        let mut e: Option<ListedEntry> = None;
        slots.set_and_swap(k, &mut e);
        let x = e.unwrap();
        assert(x == shown[k as int]);
        let t = tree_entry(meta, x.name.as_str(), x.is_dir, x.rel_path, x.slug, x.title, x.page_icon, x.children);
        out.push(t);
        assert forall|t2: int|
            0 <= t2 < slots@.len() && !order@.subrange(0, j + 1).contains(t2 as usize) implies #[trigger] slots@[t2]
                == Some(shown[t2]) by {
            if t2 == k as int {
                assert(order@.subrange(0, j + 1)[j as int] == k);
                assert(order@.subrange(0, j + 1).contains(t2 as usize));
            }
            if order@.subrange(0, j as int).contains(t2 as usize) {
                let w = choose|w: int| 0 <= w < j && order@.subrange(0, j as int)[w] == t2 as usize;
                assert(order@.subrange(0, j + 1)[w] == t2 as usize);
            }
        }
        j = j + 1;
    }
    assert(tree_in_order(*meta, shown, order@, out@));
    out
}

/// The documents of a tree, depth first, in the order the tree lists them.
pub open spec fn tree_files(s: Seq<FileTreeEntry>) -> Seq<FileTreeEntry>
    decreases s,
{
    if s.len() == 0 {
        Seq::empty()
    } else {
        tree_files(s.drop_last()) + entry_files(s.last())
    }
}

/// The documents of a tree entry: itself when it is one, else those of its folder.
pub open spec fn entry_files(e: FileTreeEntry) -> Seq<FileTreeEntry>
    decreases e,
{
    match e.file_type {
        FileType::File => seq![e],
        FileType::Dir => tree_files(e.children@),
    }
}

/// The path of each document of a tree.
pub open spec fn file_path_list(s: Seq<FileTreeEntry>) -> Seq<Seq<char>> {
    tree_files(s).map_values(|e: FileTreeEntry| e.path@)
}

proof fn lemma_tree_files_push(s: Seq<FileTreeEntry>, i: int)
    requires
        0 <= i < s.len(),
    ensures
        tree_files(s.subrange(0, i + 1)) == tree_files(s.subrange(0, i)) + entry_files(s[i]),
{
    assert(s.subrange(0, i + 1).drop_last() =~= s.subrange(0, i));
}

fn push_entry_paths(e: &FileTreeEntry, out: &mut Vec<String>)
    ensures
        final(out)@.map_values(|x: String| x@) == old(out)@.map_values(|x: String| x@)
            + entry_files(*e).map_values(|f: FileTreeEntry| f.path@),
    decreases e,
{
    match e.file_type {
        FileType::File => {
            let ghost before = out@.map_values(|x: String| x@);
            out.push(e.path.clone());
            assert(out@.map_values(|x: String| x@) =~= before + seq![e.path@]);
            assert(entry_files(*e).map_values(|f: FileTreeEntry| f.path@) =~= seq![e.path@]);
        },
        FileType::Dir => {
            let ghost start = out@.map_values(|x: String| x@);
            let mut i: usize = 0;
            assert(e.children@.subrange(0, 0) =~= Seq::<FileTreeEntry>::empty());
            assert(file_path_list(e.children@.subrange(0, 0)) =~= Seq::<Seq<char>>::empty());
            while i < e.children.len()
                invariant
                    e.file_type == FileType::Dir,
                    i <= e.children@.len(),
                    out@.map_values(|x: String| x@) =~= start + file_path_list(
                        e.children@.subrange(0, i as int),
                    ),
                decreases e.children@.len() - i,
            {
                proof {
                    lemma_tree_files_push(e.children@, i as int);
                }
                let ghost mid = out@.map_values(|x: String| x@);
                push_entry_paths(&e.children[i], out);
                assert(file_path_list(e.children@.subrange(0, i + 1)) =~= file_path_list(
                    e.children@.subrange(0, i as int),
                ) + entry_files(e.children@[i as int]).map_values(|f: FileTreeEntry| f.path@));
                i = i + 1;
            }
            assert(e.children@.subrange(0, e.children@.len() as int) =~= e.children@);
        },
    }
}

/// The path of each document of `tree`, depth first.
pub fn collect_file_paths(tree: &Vec<FileTreeEntry>) -> (r: Vec<String>)
    ensures
        r@.map_values(|x: String| x@) == file_path_list(tree@),
{
    let mut out: Vec<String> = Vec::new();
    let mut i: usize = 0;
    assert(tree@.subrange(0, 0) =~= Seq::<FileTreeEntry>::empty());
    assert(out@.map_values(|x: String| x@) =~= file_path_list(tree@.subrange(0, 0)));
    while i < tree.len()
        invariant
            i <= tree@.len(),
            out@.map_values(|x: String| x@) =~= file_path_list(tree@.subrange(0, i as int)),
        decreases tree@.len() - i,
    {
        proof {
            lemma_tree_files_push(tree@, i as int);
        }
        push_entry_paths(&tree[i], &mut out);
        assert(file_path_list(tree@.subrange(0, i + 1)) =~= file_path_list(tree@.subrange(0, i as int))
            + entry_files(tree@[i as int]).map_values(|f: FileTreeEntry| f.path@));
        i = i + 1;
    }
    assert(tree@.subrange(0, tree@.len() as int) =~= tree@);
    out
}

// ----- the tree of content pages -----

/// What the front matter of a content page gives: the items it describes and its icon.
#[derive(Debug, Clone)]
pub struct ContentPageInfo {
    pub path: String,
    pub item_ids: Vec<String>,
    pub icon: Option<String>,
}

/// An entry of the tree of content pages: a page, with its reference and items, or a folder.
#[derive(Debug)]
pub struct ContentFileTreeEntry {
    pub page_ref: Option<String>,
    pub name: String,
    pub icon: Option<String>,
    pub path: String,
    pub file_type: FileType,
    pub item_ids: Vec<String>,
    pub children: Vec<ContentFileTreeEntry>,
}

/// The value of an entry of the content tree.
pub struct ContentNode {
    pub page_ref: Option<Seq<char>>,
    pub name: Seq<char>,
    pub icon: Option<Seq<char>>,
    pub path: Seq<char>,
    pub file_type: FileType,
    pub item_ids: Seq<Seq<char>>,
    pub children: Seq<ContentNode>,
}

pub open spec fn strings_view(s: Seq<String>) -> Seq<Seq<char>> {
    s.map_values(|x: String| x@)
}

pub open spec fn content_node(e: ContentFileTreeEntry) -> ContentNode
    decreases e,
{
    ContentNode {
        page_ref: opt_view(e.page_ref),
        name: e.name@,
        icon: opt_view(e.icon),
        path: e.path@,
        file_type: e.file_type,
        item_ids: strings_view(e.item_ids@),
        children: content_nodes(e.children@),
    }
}

pub open spec fn content_nodes(s: Seq<ContentFileTreeEntry>) -> Seq<ContentNode>
    decreases s,
{
    if s.len() == 0 {
        Seq::empty()
    } else {
        content_nodes(s.drop_last()).push(content_node(s.last()))
    }
}

/// The value under the last key `k` of `s`.
pub open spec fn pair_lookup(s: Seq<(String, String)>, k: Seq<char>) -> Option<Seq<char>>
    decreases s.len(),
{
    if s.len() == 0 {
        None
    } else if s.last().0@ == k {
        Some(s.last().1@)
    } else {
        pair_lookup(s.drop_last(), k)
    }
}

fn find_pair(s: &Vec<(String, String)>, k: &str) -> (r: Option<String>)
    ensures
        opt_view(r) == pair_lookup(s@, k@),
{
    let mut n = s.len();
    assert(s@.subrange(0, n as int) =~= s@);
    while n > 0
        invariant
            n <= s@.len(),
            pair_lookup(s@, k@) == pair_lookup(s@.subrange(0, n as int), k@),
        decreases n,
    {
        if str_eq(s[n - 1].0.as_str(), k) {
            return Some(s[n - 1].1.clone());
        }
        assert(s@.subrange(0, n as int).drop_last() =~= s@.subrange(0, n - 1));
        n = n - 1;
    }
    None
}

/// The last description of the page `path` in `pages`.
pub open spec fn page_lookup(pages: Seq<ContentPageInfo>, path: Seq<char>) -> Option<ContentPageInfo>
    decreases pages.len(),
{
    if pages.len() == 0 {
        None
    } else if pages.last().path@ == path {
        Some(pages.last())
    } else {
        page_lookup(pages.drop_last(), path)
    }
}

fn find_page<'a>(pages: &'a Vec<ContentPageInfo>, path: &str) -> (r: Option<&'a ContentPageInfo>)
    ensures
        match r {
            Some(p) => page_lookup(pages@, path@) == Some(*p),
            None => page_lookup(pages@, path@) is None,
        },
{
    let mut n = pages.len();
    assert(pages@.subrange(0, n as int) =~= pages@);
    while n > 0
        invariant
            n <= pages@.len(),
            page_lookup(pages@, path@) == page_lookup(pages@.subrange(0, n as int), path@),
        decreases n,
    {
        if str_eq(pages[n - 1].path.as_str(), path) {
            return Some(&pages[n - 1]);
        }
        assert(pages@.subrange(0, n as int).drop_last() =~= pages@.subrange(0, n - 1));
        n = n - 1;
    }
    None
}

/// The icon of a content page: its own, else its first item.
pub open spec fn content_icon(p: ContentPageInfo) -> Option<Seq<char>> {
    match p.icon {
        Some(i) => Some(i@),
        None => if p.item_ids@.len() > 0 {
            Some(p.item_ids@[0]@)
        } else {
            None
        },
    }
}

/// The content tree of a folder tree: folders stay; a page stays when it has a
/// reference in `refs` and a description in `pages`, with those added.
pub open spec fn spec_content_tree(
    s: Seq<FileTreeEntry>,
    refs: Seq<(String, String)>,
    pages: Seq<ContentPageInfo>,
) -> Seq<ContentNode>
    decreases s,
{
    if s.len() == 0 {
        Seq::empty()
    } else {
        spec_content_tree(s.drop_last(), refs, pages) + spec_content_entry(s.last(), refs, pages)
    }
}

pub open spec fn spec_content_entry(
    e: FileTreeEntry,
    refs: Seq<(String, String)>,
    pages: Seq<ContentPageInfo>,
) -> Seq<ContentNode>
    decreases e,
{
    match e.file_type {
        FileType::Dir => seq![
            ContentNode {
                page_ref: None,
                name: e.name@,
                icon: None,
                path: e.path@,
                file_type: FileType::Dir,
                item_ids: Seq::empty(),
                children: spec_content_tree(e.children@, refs, pages),
            },
        ],
        FileType::File => match (pair_lookup(refs, e.path@), page_lookup(pages, e.path@)) {
            (Some(r), Some(p)) => seq![
                ContentNode {
                    page_ref: Some(r),
                    name: e.name@,
                    icon: content_icon(p),
                    path: e.path@,
                    file_type: FileType::File,
                    item_ids: strings_view(p.item_ids@),
                    children: Seq::empty(),
                },
            ],
            _ => Seq::empty(),
        },
    }
}

fn clone_strings(v: &Vec<String>) -> (r: Vec<String>)
    ensures
        strings_view(r@) == strings_view(v@),
{
    let mut r: Vec<String> = Vec::new();
    let mut i: usize = 0;
    while i < v.len()
        invariant
            i <= v@.len(),
            strings_view(r@) =~= strings_view(v@.subrange(0, i as int)),
        decreases v@.len() - i,
    {
        r.push(v[i].clone());
        assert(strings_view(v@.subrange(0, i + 1)) =~= strings_view(v@.subrange(0, i as int)).push(
            v@[i as int]@,
        ));
        i = i + 1;
    }
    assert(v@.subrange(0, v@.len() as int) =~= v@);
    r
}

proof fn lemma_content_nodes_push(s: Seq<ContentFileTreeEntry>, x: ContentFileTreeEntry)
    ensures
        content_nodes(s.push(x)) == content_nodes(s).push(content_node(x)),
{
    assert(s.push(x).drop_last() =~= s);
}

proof fn lemma_content_tree_push(
    s: Seq<FileTreeEntry>,
    i: int,
    refs: Seq<(String, String)>,
    pages: Seq<ContentPageInfo>,
)
    requires
        0 <= i < s.len(),
    ensures
        spec_content_tree(s.subrange(0, i + 1), refs, pages) == spec_content_tree(
            s.subrange(0, i),
            refs,
            pages,
        ) + spec_content_entry(s[i], refs, pages),
{
    assert(s.subrange(0, i + 1).drop_last() =~= s.subrange(0, i));
}

fn push_content_entry(
    e: &FileTreeEntry,
    refs: &Vec<(String, String)>,
    pages: &Vec<ContentPageInfo>,
    out: &mut Vec<ContentFileTreeEntry>,
)
    ensures
        content_nodes(final(out)@) == content_nodes(old(out)@) + spec_content_entry(*e, refs@, pages@),
    decreases e,
{
    let ghost before = out@;
    match e.file_type {
        FileType::Dir => {
            let mut kids: Vec<ContentFileTreeEntry> = Vec::new();
            let mut i: usize = 0;
            assert(e.children@.subrange(0, 0) =~= Seq::<FileTreeEntry>::empty());
            assert(content_nodes(kids@) =~= Seq::<ContentNode>::empty());
            while i < e.children.len()
                invariant
                    e.file_type == FileType::Dir,
                    i <= e.children@.len(),
                    content_nodes(kids@) =~= spec_content_tree(
                        e.children@.subrange(0, i as int),
                        refs@,
                        pages@,
                    ),
                decreases e.children@.len() - i,
            {
                proof {
                    lemma_content_tree_push(e.children@, i as int, refs@, pages@);
                }
                push_content_entry(&e.children[i], refs, pages, &mut kids);
                i = i + 1;
            }
            assert(e.children@.subrange(0, e.children@.len() as int) =~= e.children@);
            let node = ContentFileTreeEntry {
                page_ref: None,
                name: e.name.clone(),
                icon: None,
                path: e.path.clone(),
                file_type: FileType::Dir,
                item_ids: Vec::new(),
                children: kids,
            };
            assert(strings_view(node.item_ids@) =~= Seq::<Seq<char>>::empty());
            out.push(node);
            proof {
                lemma_content_nodes_push(before, node);
            }
            assert(spec_content_entry(*e, refs@, pages@) =~= seq![content_node(node)]);
        },
        FileType::File => {
            let r = find_pair(refs, e.path.as_str());
            let p = find_page(pages, e.path.as_str());
            match (r, p) {
                (Some(r), Some(p)) => {
                    let icon = match &p.icon {
                        Some(i) => Some(i.clone()),
                        None => if p.item_ids.len() > 0 {
                            Some(p.item_ids[0].clone())
                        } else {
                            None
                        },
                    };
                    let node = ContentFileTreeEntry {
                        page_ref: Some(r),
                        name: e.name.clone(),
                        icon,
                        path: e.path.clone(),
                        file_type: FileType::File,
                        item_ids: clone_strings(&p.item_ids),
                        children: Vec::new(),
                    };
                    assert(content_nodes(node.children@) =~= Seq::<ContentNode>::empty());
                    out.push(node);
                    proof {
                        lemma_content_nodes_push(before, node);
                    }
                    assert(spec_content_entry(*e, refs@, pages@) =~= seq![content_node(node)]);
                },
                _ => {
                    assert(spec_content_entry(*e, refs@, pages@) =~= Seq::<ContentNode>::empty());
                    assert(content_nodes(before) + Seq::<ContentNode>::empty() =~= content_nodes(before));
                },
            }
        },
    }
}

/// The content tree of the folder tree `tree`, given the reference of each page
/// (`refs`, by path) and what each page's front matter says (`pages`, by path).
pub fn construct_content_tree(
    tree: &Vec<FileTreeEntry>,
    refs: &Vec<(String, String)>,
    pages: &Vec<ContentPageInfo>,
) -> (r: Vec<ContentFileTreeEntry>)
    ensures
        content_nodes(r@) == spec_content_tree(tree@, refs@, pages@),
{
    let mut out: Vec<ContentFileTreeEntry> = Vec::new();
    let mut i: usize = 0;
    assert(tree@.subrange(0, 0) =~= Seq::<FileTreeEntry>::empty());
    assert(content_nodes(out@) =~= Seq::<ContentNode>::empty());
    while i < tree.len()
        invariant
            i <= tree@.len(),
            content_nodes(out@) =~= spec_content_tree(tree@.subrange(0, i as int), refs@, pages@),
        decreases tree@.len() - i,
    {
        proof {
            lemma_content_tree_push(tree@, i as int, refs@, pages@);
        }
        push_content_entry(&tree[i], refs, pages, &mut out);
        i = i + 1;
    }
    assert(tree@.subrange(0, tree@.len() as int) =~= tree@);
    out
}

} // verus!
