//! Merging of translation files (the entries of a downloaded file over those of
//! the file already there), and what cleaning a folder does with its entries.
use vstd::prelude::*;
use crate::text::str_eq;

verus! {

pub open spec fn pairs_view(v: Seq<(String, String)>) -> Seq<(Seq<char>, Seq<char>)> {
    v.map_values(|p: (String, String)| (p.0@, p.1@))
}

/// The map the entries build, a later entry for a key replacing an earlier one.
pub open spec fn pairs_map(v: Seq<(Seq<char>, Seq<char>)>) -> Map<Seq<char>, Seq<char>>
    decreases v.len(),
{
    if v.len() == 0 {
        Map::empty()
    } else {
        pairs_map(v.drop_last()).insert(v.last().0, v.last().1)
    }
}

/// No key occurs twice.
pub open spec fn keys_distinct(v: Seq<(Seq<char>, Seq<char>)>) -> bool {
    forall|i: int, j: int| 0 <= i < j < v.len() ==> (#[trigger] v[i]).0 != (#[trigger] v[j]).0
}

proof fn lemma_pairs_map_domain(v: Seq<(Seq<char>, Seq<char>)>)
    ensures
        forall|k: Seq<char>| #[trigger] pairs_map(v).contains_key(k) <==> exists|i: int|
            0 <= i < v.len() && (#[trigger] v[i]).0 == k,
    decreases v.len(),
{
    if v.len() > 0 {
        let init = v.drop_last();
        lemma_pairs_map_domain(init);
        assert forall|k: Seq<char>| #[trigger] pairs_map(v).contains_key(k) <==> exists|i: int|
            0 <= i < v.len() && (#[trigger] v[i]).0 == k by {
            if pairs_map(init).contains_key(k) {
                let i = choose|i: int| 0 <= i < init.len() && (#[trigger] init[i]).0 == k;
                assert(v[i] == init[i]);
            }
            if exists|i: int| 0 <= i < v.len() && (#[trigger] v[i]).0 == k {
                let i = choose|i: int| 0 <= i < v.len() && (#[trigger] v[i]).0 == k;
                if i < v.len() - 1 {
                    assert(init[i] == v[i]);
                }
            }
        }
    }
}

/// With distinct keys, replacing the value of entry `j` replaces that key's value.
proof fn lemma_pairs_map_update(v: Seq<(Seq<char>, Seq<char>)>, j: int, val: Seq<char>)
    requires
        keys_distinct(v),
        0 <= j < v.len(),
    ensures
        pairs_map(v.update(j, (v[j].0, val))) == pairs_map(v).insert(v[j].0, val),
    decreases v.len(),
{
    let u = v.update(j, (v[j].0, val));
    let init = v.drop_last();
    if j == v.len() - 1 {
        assert(u.drop_last() =~= init);
        assert(pairs_map(v).insert(v[j].0, val) =~= pairs_map(init).insert(v[j].0, val));
    } else {
        assert(keys_distinct(init)) by {
            assert forall|a: int, b: int| 0 <= a < b < init.len() implies (#[trigger] init[a]).0
                != (#[trigger] init[b]).0 by {
                assert(init[a] == v[a]);
                assert(init[b] == v[b]);
            }
        }
        lemma_pairs_map_update(init, j, val);
        assert(u.drop_last() =~= init.update(j, (init[j].0, val)));
        assert(v[j].0 != v.last().0) by {
            assert(v.last() == v[v.len() - 1]);
        }
        assert(pairs_map(u) =~= pairs_map(v).insert(v[j].0, val));
    }
}

fn find_key(v: &Vec<(String, String)>, k: &str) -> (r: Option<usize>)
    ensures
        match r {
            Some(j) => j < v@.len() && v@[j as int].0@ == k@,
            None => forall|i: int| 0 <= i < v@.len() ==> (#[trigger] v@[i]).0@ != k@,
        },
{
    let mut i: usize = 0;
    while i < v.len()
        invariant
            i <= v@.len(),
            forall|t: int| 0 <= t < i ==> (#[trigger] v@[t]).0@ != k@,
        decreases v@.len() - i,
    {
        if str_eq(v[i].0.as_str(), k) {
            return Some(i);
        }
        i = i + 1;
    }
    None
}

/// The entries of `existing` with those of `incoming` over them: a key of
/// `incoming` takes its value from there; every key stays once.
pub fn merge_entries(existing: Vec<(String, String)>, incoming: &Vec<(String, String)>) -> (r: Vec<(String, String)>)
    requires
        keys_distinct(pairs_view(existing@)),
    ensures
        keys_distinct(pairs_view(r@)),
        pairs_map(pairs_view(r@)) == pairs_map(pairs_view(existing@)).union_prefer_right(
            pairs_map(pairs_view(incoming@)),
        ),
{
    let mut out = existing;
    let ghost ov = pairs_view(out@);
    let ghost nv = pairs_view(incoming@);
    let mut i: usize = 0;
    assert(nv.subrange(0, 0) =~= Seq::<(Seq<char>, Seq<char>)>::empty());
    assert(pairs_map(ov).union_prefer_right(pairs_map(nv.subrange(0, 0))) =~= pairs_map(ov));
    while i < incoming.len()
        invariant
            i <= incoming@.len(),
            nv == pairs_view(incoming@),
            keys_distinct(pairs_view(out@)),
            pairs_map(pairs_view(out@)) == pairs_map(ov).union_prefer_right(
                pairs_map(nv.subrange(0, i as int)),
            ),
        decreases incoming@.len() - i,
    {
        let ghost before = pairs_view(out@);
        let ghost nxt = nv.subrange(0, i + 1);
        assert(nxt.drop_last() =~= nv.subrange(0, i as int));
        assert(nxt.last() == nv[i as int]);
        let k = incoming[i].0.clone();
        let val = incoming[i].1.clone();
        match find_key(&out, k.as_str()) {
            Some(j) => {
                proof {
                    lemma_pairs_map_update(before, j as int, val@);
                }
                let key = out[j].0.clone();
                out.set(j, (key, val));
                assert(pairs_view(out@) =~= before.update(j as int, (before[j as int].0, nv[i as int].1)));
                assert(keys_distinct(pairs_view(out@))) by {
                    assert forall|a: int, b: int| 0 <= a < b < pairs_view(out@).len() implies (
                    #[trigger] pairs_view(out@)[a]).0 != (#[trigger] pairs_view(out@)[b]).0 by {
                        assert(pairs_view(out@)[a].0 == before[a].0);
                        assert(pairs_view(out@)[b].0 == before[b].0);
                    }
                }
            },
            None => {
                out.push((k, val));
                assert(pairs_view(out@) =~= before.push(nv[i as int]));
                assert(pairs_view(out@).drop_last() =~= before);
                assert(keys_distinct(pairs_view(out@))) by {
                    assert forall|a: int, b: int| 0 <= a < b < pairs_view(out@).len() implies (
                    #[trigger] pairs_view(out@)[a]).0 != (#[trigger] pairs_view(out@)[b]).0 by {
                        if b == pairs_view(out@).len() - 1 {
                            assert(pairs_view(out@)[a] == before[a]);
                        } else {
                            assert(pairs_view(out@)[a] == before[a]);
                            assert(pairs_view(out@)[b] == before[b]);
                        }
                    }
                }
            },
        }
        assert(pairs_map(pairs_view(out@)) =~= pairs_map(ov).union_prefer_right(pairs_map(nxt)));
        i = i + 1;
    }
    assert(nv.subrange(0, incoming@.len() as int) =~= nv);
    out
}

/// The string map that `serde_json` reads from `bytes`, if they hold one.
pub uninterp spec fn json_string_map(bytes: Seq<u8>) -> Option<Map<Seq<char>, Seq<char>>>;

/// `serde_json::from_slice::<HashMap<String, String>>`, the map's entries in its
/// own order (which nothing states).
#[verifier::external_body]
fn parse_string_map(bytes: &[u8]) -> (r: Option<Vec<(String, String)>>)
    ensures
        match r {
            Some(v) => json_string_map(bytes@) == Some(pairs_map(pairs_view(v@))) && keys_distinct(
                pairs_view(v@),
            ),
            None => json_string_map(bytes@) is None,
        },
{
    serde_json::from_slice::<std::collections::HashMap<String, String>>(bytes).ok().map(
        |m| m.into_iter().collect(),
    )
}

/// `serde_json::to_vec` of the `HashMap` collected from `entries` (a later entry
/// over an earlier one with its key). The order of the keys in the bytes is the
/// map's own, which nothing states; what is stated is that a map with string keys
/// serializes, and that `serde_json` reads that map back from the bytes.
#[verifier::external_body]
fn write_string_map(entries: Vec<(String, String)>) -> (r: Option<Vec<u8>>)
    ensures
        r is Some,
        json_string_map(r.unwrap()@) == Some(pairs_map(pairs_view(entries@))),
{
    let map: std::collections::HashMap<String, String> = entries.into_iter().collect();
    serde_json::to_vec(&map).ok()
}

fn copy_bytes(b: &[u8]) -> (r: Vec<u8>)
    ensures
        r@ == b@,
{
    let mut r: Vec<u8> = Vec::new();
    let mut i: usize = 0;
    while i < b.len()
        invariant
            i <= b@.len(),
            r@ == b@.subrange(0, i as int),
        decreases b@.len() - i,
    {
        r.push(b[i]);
        assert(r@ =~= b@.subrange(0, i + 1));
        i = i + 1;
    }
    assert(b@.subrange(0, b@.len() as int) =~= b@);
    r
}

/// The translation file to write: the downloaded one when there is no file yet or
/// either does not hold a string map; else the map of the existing entries with
/// the downloaded ones over them (see `merge_entries`), serialized.
pub fn merge_json_bytes(existing: Option<&[u8]>, incoming: &[u8]) -> (r: Vec<u8>)
    ensures
        existing is None ==> r@ == incoming@,
        existing matches Some(e) && (json_string_map(e@) is None || json_string_map(incoming@) is None)
            ==> r@ == incoming@,
        existing matches Some(e) ==> (json_string_map(e@) is Some && json_string_map(incoming@) is Some
            ==> json_string_map(r@) == Some(
            json_string_map(e@)->0.union_prefer_right(json_string_map(incoming@)->0),
        )),
{
    let e = match existing {
        None => {
            return copy_bytes(incoming);
        },
        Some(e) => e,
    };
    let current = match parse_string_map(e) {
        Some(m) => m,
        None => {
            return copy_bytes(incoming);
        },
    };
    let downloaded = match parse_string_map(incoming) {
        Some(m) => m,
        None => {
            return copy_bytes(incoming);
        },
    };
    let merged = merge_entries(current, &downloaded);
    match write_string_map(merged) {
        Some(bytes) => bytes,
        None => copy_bytes(incoming),
    }
}


// ----- cleaning a folder while keeping some paths -----

/// What cleaning a folder does with one of its entries.
#[derive(Debug, Clone, Copy, PartialEq, Eq, Structural)]
pub enum CleanAction {
    /// The entry is one of the paths kept.
    Keep,
    /// A folder holding a path kept: clean inside it.
    Descend,
    RemoveDir,
    RemoveFile,
}

/// The same path, component by component.
pub open spec fn same_path(a: Seq<char>, b: Seq<char>) -> bool {
    crate::paths::path_components(a) == crate::paths::path_components(b)
}

/// What becomes of the entry at `rel` (relative to the folder cleaned) given the
/// relative paths `keep` to keep.
pub open spec fn spec_clean_action(rel: Seq<char>, is_dir: bool, keep: Seq<Seq<char>>) -> CleanAction {
    if exists|i: int| 0 <= i < keep.len() && same_path(#[trigger] keep[i], rel) {
        CleanAction::Keep
    } else if is_dir && exists|i: int| 0 <= i < keep.len() && crate::paths::spec_is_subpath(#[trigger] keep[i], rel) {
        CleanAction::Descend
    } else if is_dir {
        CleanAction::RemoveDir
    } else {
        CleanAction::RemoveFile
    }
}

fn same_path_exec(a: &str, b: &str) -> (r: bool)
    ensures
        r == same_path(a@, b@),
{
    let x = crate::paths::is_subpath(a, b);
    let y = crate::paths::is_subpath(b, a);
    proof {
        let ca = crate::paths::path_components(a@);
        let cb = crate::paths::path_components(b@);
        if x && y {
            assert(ca.subrange(0, cb.len() as int) =~= ca);
            assert(ca =~= cb);
        }
        if ca == cb {
            assert(ca.subrange(0, cb.len() as int) =~= ca);
        }
    }
    x && y
}

pub fn clean_entry_action(rel: &str, is_dir: bool, keep: &Vec<String>) -> (r: CleanAction)
    ensures
        r == spec_clean_action(rel@, is_dir, keep@.map_values(|s: String| s@)),
{
    let ghost kv = keep@.map_values(|s: String| s@);
    let mut i: usize = 0;
    while i < keep.len()
        invariant
            i <= keep@.len(),
            kv == keep@.map_values(|s: String| s@),
            forall|j: int| 0 <= j < i ==> !same_path(#[trigger] kv[j], rel@),
        decreases keep@.len() - i,
    {
        if same_path_exec(keep[i].as_str(), rel) {
            assert(same_path(kv[i as int], rel@));
            return CleanAction::Keep;
        }
        i = i + 1;
    }
    if !is_dir {
        return CleanAction::RemoveFile;
    }
    let mut j: usize = 0;
    while j < keep.len()
        invariant
            j <= keep@.len(),
            kv == keep@.map_values(|s: String| s@),
            is_dir,
            forall|t: int| 0 <= t < kv.len() ==> !same_path(#[trigger] kv[t], rel@),
            forall|t: int| 0 <= t < j ==> !crate::paths::spec_is_subpath(#[trigger] kv[t], rel@),
        decreases keep@.len() - j,
    {
        if crate::paths::is_subpath(keep[j].as_str(), rel) {
            assert(crate::paths::spec_is_subpath(kv[j as int], rel@));
            return CleanAction::Descend;
        }
        j = j + 1;
    }
    CleanAction::RemoveDir
}

// ----- the removals of cleaning a folder -----

/// An entry of a folder being cleaned: its name, whether it is a folder, and (for a
/// folder) its own entries.
pub struct DirNode {
    pub name: String,
    pub is_dir: bool,
    pub children: Vec<DirNode>,
}

/// What cleaning removes: a path (relative to the folder cleaned), and whether it is
/// a folder (removed with all it holds).
pub struct Removal {
    pub path: String,
    pub is_dir: bool,
}

pub open spec fn removal_views(v: Seq<Removal>) -> Seq<(Seq<char>, bool)> {
    v.map_values(|r: Removal| (r.path@, r.is_dir))
}

/// The removals of cleaning the entries `entries` of the folder at `rel`, keeping the
/// paths `keep`: entry after entry, a kept entry stays with all it holds, a folder
/// holding a kept path is cleaned in turn, any other folder or file is removed.
pub open spec fn spec_removals(entries: Seq<DirNode>, rel: Seq<char>, keep: Seq<Seq<char>>) -> Seq<(Seq<char>, bool)>
    decreases entries,
{
    if entries.len() == 0 {
        Seq::empty()
    } else {
        spec_removals(entries.drop_last(), rel, keep) + node_removals(entries.last(), rel, keep)
    }
}

pub open spec fn node_removals(e: DirNode, rel: Seq<char>, keep: Seq<Seq<char>>) -> Seq<(Seq<char>, bool)>
    decreases e,
{
    let p = crate::paths::path_join(rel, e.name@);
    match spec_clean_action(p, e.is_dir, keep) {
        CleanAction::Keep => Seq::empty(),
        CleanAction::Descend => spec_removals(e.children@, p, keep),
        CleanAction::RemoveDir => seq![(p, true)],
        CleanAction::RemoveFile => seq![(p, false)],
    }
}

proof fn lemma_removals_push(s: Seq<DirNode>, i: int, rel: Seq<char>, keep: Seq<Seq<char>>)
    requires
        0 <= i < s.len(),
    ensures
        spec_removals(s.subrange(0, i + 1), rel, keep) == spec_removals(s.subrange(0, i), rel, keep)
            + node_removals(s[i], rel, keep),
{
    assert(s.subrange(0, i + 1).drop_last() =~= s.subrange(0, i));
}

fn push_node_removals(e: &DirNode, rel: &str, keep: &Vec<String>, out: &mut Vec<Removal>)
    ensures
        removal_views(final(out)@) == removal_views(old(out)@) + node_removals(
            *e,
            rel@,
            keep@.map_values(|s: String| s@),
        ),
    decreases e,
{
    let ghost kv = keep@.map_values(|s: String| s@);
    let p = crate::paths::join(rel, e.name.as_str());
    let ghost start = removal_views(out@);
    match clean_entry_action(p.as_str(), e.is_dir, keep) {
        CleanAction::Keep => {
            assert(removal_views(out@) =~= start + Seq::<(Seq<char>, bool)>::empty());
        },
        CleanAction::Descend => {
            let mut i: usize = 0;
            assert(e.children@.subrange(0, 0) =~= Seq::<DirNode>::empty());
            assert(removal_views(out@) =~= start + spec_removals(e.children@.subrange(0, 0), p@, kv));
            while i < e.children.len()
                invariant
                    i <= e.children@.len(),
                    kv == keep@.map_values(|s: String| s@),
                    removal_views(out@) =~= start + spec_removals(e.children@.subrange(0, i as int), p@, kv),
                decreases e.children@.len() - i,
            {
                proof {
                    lemma_removals_push(e.children@, i as int, p@, kv);
                }
                push_node_removals(&e.children[i], p.as_str(), keep, out);
                i = i + 1;
            }
            assert(e.children@.subrange(0, e.children@.len() as int) =~= e.children@);
        },
        CleanAction::RemoveDir => {
            out.push(Removal { path: p, is_dir: true });
            assert(removal_views(out@) =~= start + node_removals(*e, rel@, kv));
        },
        CleanAction::RemoveFile => {
            out.push(Removal { path: p, is_dir: false });
            assert(removal_views(out@) =~= start + node_removals(*e, rel@, kv));
        },
    }
}

/// What cleaning a folder whose entries are `entries` removes, keeping the relative
/// paths `keep` (see `spec_removals`), in the order it is removed.
pub fn clean_removals(entries: &Vec<DirNode>, keep: &Vec<String>) -> (r: Vec<Removal>)
    ensures
        removal_views(r@) == spec_removals(entries@, Seq::empty(), keep@.map_values(|s: String| s@)),
{
    let ghost kv = keep@.map_values(|s: String| s@);
    let mut out: Vec<Removal> = Vec::new();
    let root = String::new();
    let mut i: usize = 0;
    assert(entries@.subrange(0, 0) =~= Seq::<DirNode>::empty());
    assert(removal_views(out@) =~= spec_removals(entries@.subrange(0, 0), root@, kv));
    while i < entries.len()
        invariant
            i <= entries@.len(),
            kv == keep@.map_values(|s: String| s@),
            root@ == Seq::<char>::empty(),
            removal_views(out@) =~= spec_removals(entries@.subrange(0, i as int), root@, kv),
        decreases entries@.len() - i,
    {
        proof {
            lemma_removals_push(entries@, i as int, root@, kv);
        }
        push_node_removals(&entries[i], root.as_str(), keep, &mut out);
        i = i + 1;
    }
    assert(entries@.subrange(0, entries@.len() as int) =~= entries@);
    out
}

/// Nothing cleaning removes is a kept path, and no folder it removes holds one.
pub open spec fn spares_kept(rs: Seq<(Seq<char>, bool)>, keep: Seq<Seq<char>>) -> bool {
    forall|i: int, j: int|
        0 <= i < rs.len() && 0 <= j < keep.len() ==> !same_path(#[trigger] keep[j], #[trigger] rs[i].0) && (
        rs[i].1 ==> !crate::paths::spec_is_subpath(keep[j], rs[i].0))
}

/// Law: cleaning a folder never removes a kept path, nor a folder that holds one.
pub proof fn lemma_removals_spare_kept(entries: Seq<DirNode>, rel: Seq<char>, keep: Seq<Seq<char>>)
    ensures
        spares_kept(spec_removals(entries, rel, keep), keep),
    decreases entries,
{
    if entries.len() > 0 {
        lemma_removals_spare_kept(entries.drop_last(), rel, keep);
        lemma_node_removals_spare_kept(entries.last(), rel, keep);
        let a = spec_removals(entries.drop_last(), rel, keep);
        let b = node_removals(entries.last(), rel, keep);
        assert forall|i: int, j: int| 0 <= i < (a + b).len() && 0 <= j < keep.len() implies !same_path(
            #[trigger] keep[j],
            #[trigger] (a + b)[i].0,
        ) && ((a + b)[i].1 ==> !crate::paths::spec_is_subpath(keep[j], (a + b)[i].0)) by {
            if i < a.len() {
                assert((a + b)[i] == a[i]);
            } else {
                assert((a + b)[i] == b[i - a.len()]);
            }
        }
    }
}

proof fn lemma_node_removals_spare_kept(e: DirNode, rel: Seq<char>, keep: Seq<Seq<char>>)
    ensures
        spares_kept(node_removals(e, rel, keep), keep),
    decreases e,
{
    let p = crate::paths::path_join(rel, e.name@);
    match spec_clean_action(p, e.is_dir, keep) {
        CleanAction::Descend => {
            lemma_removals_spare_kept(e.children@, p, keep);
        },
        _ => {},
    }
}

} // verus!
