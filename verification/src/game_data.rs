//! The game's own data: where its files are, which of them are taken from the
//! game jar, and how its translations are keyed.
use vstd::prelude::*;
use crate::loader::{ITEMS_DIR, ITEM_MODELS_DIR, strings_view};
use crate::paths::{join, path_join};
use crate::json::{JsonValue, lookup, lookup_index};
use crate::resloc::{DEFAULT_NAMESPACE, ResourceLocation, builtin_namespaces, builtin_namespaces_vec, spec_parse_location};
use crate::text::{concat2, concat3, contains_char, count_char, ends_with, has_prefix, has_suffix, owned, push_str, starts_with, str_eq, strip_prefix};

verus! {

/// The translations of the game, inside its jar.
pub const LANG_DIR: &'static str = "assets/minecraft/lang";

/// The locale used when none is asked for or the asked one is missing.
pub const DEFAULT_LOCALE: &'static str = "en_us";

/// A source of the game's translations: the entries of a locale's file.
pub trait GameDataSource {
    fn get_lang(&self, lang: &str) -> Option<Vec<(String, String)>>;
}

/// Game data read from files under a root folder.
pub struct FileGameData {
    lang_dir: String,
}

impl FileGameData {
    pub fn new(game_root: String) -> (r: FileGameData)
        ensures
            r.lang_dir()@ == path_join(game_root@, LANG_DIR@),
    {
        FileGameData { lang_dir: join(game_root.as_str(), LANG_DIR) }
    }

    pub closed spec fn lang_dir(&self) -> String {
        self.lang_dir
    }

    /// The translation file of `lang`: `LANG_DIR/LANG.json`.
    pub fn lang_path(&self, lang: &str) -> (r: String)
        ensures
            r@ == path_join(self.lang_dir()@, lang@ + ".json"@),
    {
        let f = concat2(lang, ".json");
        join(self.lang_dir.as_str(), f.as_str())
    }
}

/// The data folders of a namespace taken from the jar: its recipes and item tags.
pub fn extract_data_dirs(namespace: &str) -> (r: [String; 2])
    ensures
        r[0]@ == "data/"@ + namespace@ + "/recipe"@,
        r[1]@ == "data/"@ + namespace@ + "/tags/item"@,
{
    [concat3("data/", namespace, "/recipe"), concat3("data/", namespace, "/tags/item")]
}

/// The recipe and item tag folders of each namespace of `ns`, in turn.
pub open spec fn data_dirs_of(ns: Seq<Seq<char>>) -> Seq<Seq<char>>
    decreases ns.len(),
{
    if ns.len() == 0 {
        Seq::empty()
    } else {
        data_dirs_of(ns.drop_last()) + seq![
            "data/"@ + ns.last() + "/recipe"@,
            "data/"@ + ns.last() + "/tags/item"@,
        ]
    }
}

/// Everything taken from the jar: the translations, the item folders, then the
/// data folders of each built-in namespace.
pub fn extract_dirs() -> (r: Vec<String>)
    ensures
        strings_view(r@) == seq![LANG_DIR@, ITEMS_DIR@, ITEM_MODELS_DIR@] + data_dirs_of(
            builtin_namespaces(),
        ),
{
    let mut r: Vec<String> = Vec::new();
    r.push(owned(LANG_DIR));
    r.push(owned(ITEMS_DIR));
    r.push(owned(ITEM_MODELS_DIR));
    let ghost head = seq![LANG_DIR@, ITEMS_DIR@, ITEM_MODELS_DIR@];
    let namespaces = builtin_namespaces_vec();
    let ghost nv = strings_view(namespaces@);
    assert(nv == builtin_namespaces());
    assert(nv.subrange(0, 0) =~= Seq::<Seq<char>>::empty());
    assert(strings_view(r@) =~= head + data_dirs_of(nv.subrange(0, 0)));
    let mut i: usize = 0;
    while i < namespaces.len()
        invariant
            i <= namespaces@.len(),
            nv == strings_view(namespaces@),
            strings_view(r@) == head + data_dirs_of(nv.subrange(0, i as int)),
        decreases namespaces@.len() - i,
    {
        let ghost nxt = nv.subrange(0, i + 1);
        assert(nxt.drop_last() =~= nv.subrange(0, i as int));
        assert(nxt.last() == namespaces@[i as int]@);
        let dirs = extract_data_dirs(namespaces[i].as_str());
        let a = dirs[0].clone();
        let b = dirs[1].clone();
        let ghost before = strings_view(r@);
        r.push(a);
        r.push(b);
        assert(strings_view(r@) =~= before + seq![
            "data/"@ + nxt.last() + "/recipe"@,
            "data/"@ + nxt.last() + "/tags/item"@,
        ]);
        i = i + 1;
    }
    assert(nv.subrange(0, namespaces@.len() as int) =~= nv);
    r
}

/// Whether an entry of the jar is extracted: never a folder; everything when no
/// filter is given; else what starts with one of the filter's prefixes.
pub open spec fn spec_should_extract(path: Seq<char>, filter: Seq<String>) -> bool {
    !has_suffix(path, "/"@) && (filter.len() == 0 || exists|i: int|
        0 <= i < filter.len() && has_prefix(path, #[trigger] filter[i]@))
}

pub fn should_extract(path: &str, filter: &[String]) -> (r: bool)
    ensures
        r == spec_should_extract(path@, filter@),
{
    if ends_with(path, "/") {
        return false;
    }
    if filter.len() == 0 {
        return true;
    }
    let mut i: usize = 0;
    while i < filter.len()
        invariant
            i <= filter@.len(),
            !has_suffix(path@, "/"@),
            forall|j: int| 0 <= j < i ==> !has_prefix(path@, #[trigger] filter@[j]@),
        decreases filter@.len() - i,
    {
        if starts_with(path, filter[i].as_str()) {
            assert(has_prefix(path@, filter@[i as int]@));
            return true;
        }
        i = i + 1;
    }
    false
}

/// What extracting does with one entry of the jar.
#[derive(Debug, Clone, Copy, PartialEq, Eq, Structural)]
pub enum ExtractAction {
    /// Leave it out.
    Skip,
    /// Create the folder it names.
    CreateDir,
    /// Merge it into the translation file already there (see `merge_json_bytes`).
    Merge,
    /// Write it, over what may be there.
    Write,
}

/// An entry of the jar: its name when it stays inside the destination (`None` for a
/// name that would leave it), whether it is a folder, and whether a readable file of
/// that name is already in the destination.
pub struct ArchiveEntry {
    pub name: Option<String>,
    pub is_dir: bool,
    pub existing: bool,
}

pub open spec fn spec_merged_dir(name: Seq<char>, merge_dirs: Seq<String>) -> bool {
    exists|i: int| 0 <= i < merge_dirs.len() && has_prefix(name, #[trigger] merge_dirs[i]@)
}

/// What becomes of an entry: an unsafe name and one the filter does not take are left
/// out; a folder is created; a file under one of `merge_dirs` that exists already is
/// merged into it; any other file is written.
pub open spec fn spec_extract_action(e: ArchiveEntry, filter: Seq<String>, merge_dirs: Seq<String>) -> ExtractAction {
    match e.name {
        None => ExtractAction::Skip,
        Some(n) => if !spec_should_extract(n@, filter) {
            ExtractAction::Skip
        } else if e.is_dir {
            ExtractAction::CreateDir
        } else if spec_merged_dir(n@, merge_dirs) && e.existing {
            ExtractAction::Merge
        } else {
            ExtractAction::Write
        },
    }
}

fn in_merged_dir(name: &str, merge_dirs: &Vec<String>) -> (r: bool)
    ensures
        r == spec_merged_dir(name@, merge_dirs@),
{
    let mut i: usize = 0;
    while i < merge_dirs.len()
        invariant
            i <= merge_dirs@.len(),
            forall|j: int| 0 <= j < i ==> !has_prefix(name@, #[trigger] merge_dirs@[j]@),
        decreases merge_dirs@.len() - i,
    {
        if starts_with(name, merge_dirs[i].as_str()) {
            assert(has_prefix(name@, merge_dirs@[i as int]@));
            return true;
        }
        i = i + 1;
    }
    false
}

/// What extracting does with each entry of a jar, in order (see `spec_extract_action`).
pub fn extraction_plan(entries: &Vec<ArchiveEntry>, filter: &Vec<String>, merge_dirs: &Vec<String>) -> (r: Vec<ExtractAction>)
    ensures
        r@.len() == entries@.len(),
        forall|i: int| 0 <= i < r@.len() ==> #[trigger] r@[i] == spec_extract_action(entries@[i], filter@, merge_dirs@),
{
    let mut out: Vec<ExtractAction> = Vec::new();
    let mut i: usize = 0;
    while i < entries.len()
        invariant
            i <= entries@.len(),
            out@.len() == i,
            forall|j: int| 0 <= j < i ==> #[trigger] out@[j] == spec_extract_action(entries@[j], filter@, merge_dirs@),
        decreases entries@.len() - i,
    {
        let e = &entries[i];
        let a = match &e.name {
            None => ExtractAction::Skip,
            Some(n) => if !should_extract(n.as_str(), filter.as_slice()) {
                ExtractAction::Skip
            } else if e.is_dir {
                ExtractAction::CreateDir
            } else if in_merged_dir(n.as_str(), merge_dirs) && e.existing {
                ExtractAction::Merge
            } else {
                ExtractAction::Write
            },
        };
        out.push(a);
        i = i + 1;
    }
    out
}

/// The game's code for a locale whose translation platform code differs.
pub fn mojang_locale_remap(code: &str) -> (r: Option<&'static str>)
    ensures
        r matches Some(x) ==> code@ == "ms_arab"@ && x@ == "zlm_arab"@,
        r is None ==> code@ != "ms_arab"@,
{
    if str_eq(code, "ms_arab") {
        Some("zlm_arab")
    } else {
        None
    }
}

/// The item or block a translation key names: `item.minecraft.X` or
/// `block.minecraft.X` with no further dot in `X` (the item prefix is tried first).
pub open spec fn spec_lang_subject(key: Seq<char>) -> Option<Seq<char>> {
    if has_prefix(key, "item.minecraft."@) && !key.subrange(15, key.len() as int).contains('.') {
        Some(key.subrange(15, key.len() as int))
    } else if has_prefix(key, "block.minecraft."@) && !key.subrange(16, key.len() as int).contains(
        '.',
    ) {
        Some(key.subrange(16, key.len() as int))
    } else {
        None
    }
}

pub fn lang_subject(key: &str) -> (r: Option<String>)
    ensures
        crate::issues::opt_view(r) == spec_lang_subject(key@),
{
    proof {
        reveal_strlit("item.minecraft.");
        reveal_strlit("block.minecraft.");
    }
    if let Some(sub) = strip_prefix(key, "item.minecraft.") {
        if !contains_char(sub.as_str(), '.') {
            return Some(sub);
        }
    }
    if let Some(sub) = strip_prefix(key, "block.minecraft.") {
        if !contains_char(sub.as_str(), '.') {
            return Some(sub);
        }
    }
    None
}

/// The cache key of the name of `subject` in `lang`: `lang:LANG:minecraft:SUBJECT`.
pub fn lang_cache_key(lang: &str, subject: &str) -> (r: String)
    ensures
        r@ == "lang:"@ + lang@ + ":minecraft:"@ + subject@,
{
    let mut r = concat3("lang:", lang, ":minecraft:");
    push_str(&mut r, subject);
    r
}

/// The key marking that `lang` has been loaded: `lang:LANG`.
pub fn lang_sentinel_key(lang: &str) -> (r: String)
    ensures
        r@ == "lang:"@ + lang@,
{
    concat2("lang:", lang)
}

/// The entries a translation file puts in the cache, in the file's order: each
/// item or block name under its cache key.
pub open spec fn spec_lang_entries(lang: Seq<char>, entries: Seq<(String, String)>) -> Seq<
    (Seq<char>, Seq<char>),
>
    decreases entries.len(),
{
    if entries.len() == 0 {
        Seq::empty()
    } else {
        let prev = spec_lang_entries(lang, entries.drop_last());
        match spec_lang_subject(entries.last().0@) {
            Some(s) => prev.push(("lang:"@ + lang + ":minecraft:"@ + s, entries.last().1@)),
            None => prev,
        }
    }
}

pub open spec fn pairs_view(v: Seq<(String, String)>) -> Seq<(Seq<char>, Seq<char>)> {
    v.map_values(|p: (String, String)| (p.0@, p.1@))
}

pub fn lang_cache_entries(lang: &str, entries: &Vec<(String, String)>) -> (r: Vec<(String, String)>)
    ensures
        pairs_view(r@) == spec_lang_entries(lang@, entries@),
{
    let mut out: Vec<(String, String)> = Vec::new();
    let mut i: usize = 0;
    assert(entries@.subrange(0, 0) =~= Seq::<(String, String)>::empty());
    assert(pairs_view(out@) =~= Seq::<(Seq<char>, Seq<char>)>::empty());
    while i < entries.len()
        invariant
            i <= entries@.len(),
            pairs_view(out@) == spec_lang_entries(lang@, entries@.subrange(0, i as int)),
        decreases entries@.len() - i,
    {
        let ghost nxt = entries@.subrange(0, i + 1);
        assert(nxt.drop_last() =~= entries@.subrange(0, i as int));
        assert(nxt.last() == entries@[i as int]);
        let ghost prev = pairs_view(out@);
        match lang_subject(entries[i].0.as_str()) {
            Some(sub) => {
                let key = lang_cache_key(lang, sub.as_str());
                let ghost kv = key@;
                out.push((key, entries[i].1.clone()));
                assert(pairs_view(out@) =~= prev.push((kv, entries@[i as int].1@)));
            },
            None => {},
        }
        i = i + 1;
    }
    assert(entries@.subrange(0, entries@.len() as int) =~= entries@);
    out
}

/// The cache key of an item's name: only items of the `minecraft` namespace have one.
pub fn item_name_cache_key(lang: &str, location: &str) -> (r: Option<String>)
    ensures
        match spec_parse_location(location@) {
            Some(loc) => if loc.0 == DEFAULT_NAMESPACE@ {
                r matches Some(k) && k@ == "lang:"@ + lang@ + ":minecraft:"@ + loc.1
            } else {
                r is None
            },
            None => r is None,
        },
{
    let loc = match ResourceLocation::parse(location) {
        Some(l) => l,
        None => {
            return None;
        },
    };
    if !str_eq(loc.namespace.as_str(), DEFAULT_NAMESPACE) {
        return None;
    }
    Some(lang_cache_key(lang, loc.path.as_str()))
}

/// The code the service reports for a locale of the translation platform.
pub open spec fn game_locale_code(code: Seq<char>) -> Seq<char> {
    if code == "ms_arab"@ {
        "zlm_arab"@
    } else {
        code
    }
}

/// The locale codes the service reports for those of the translation platform, in
/// order: each with the game's code where it differs.
pub fn game_locale_codes(codes: Vec<String>) -> (r: Vec<String>)
    ensures
        r@.map_values(|c: String| c@) == codes@.map_values(|c: String| game_locale_code(c@)),
{
    let mut out: Vec<String> = Vec::new();
    let mut i: usize = 0;
    while i < codes.len()
        invariant
            i <= codes@.len(),
            out@.map_values(|c: String| c@) == codes@.subrange(0, i as int).map_values(
                |c: String| game_locale_code(c@),
            ),
        decreases codes@.len() - i,
    {
        let c = match mojang_locale_remap(codes[i].as_str()) {
            Some(m) => crate::text::owned(m),
            None => codes[i].clone(),
        };
        proof {
            reveal_strlit("ms_arab");
            reveal_strlit("zlm_arab");
        }
        out.push(c);
        assert(codes@.subrange(0, i + 1).map_values(|c: String| game_locale_code(c@)) =~= codes@.subrange(
            0,
            i as int,
        ).map_values(|c: String| game_locale_code(c@)).push(game_locale_code(codes@[i as int]@)));
        assert(out@.map_values(|c: String| c@) =~= codes@.subrange(0, i + 1).map_values(
            |c: String| game_locale_code(c@),
        ));
        i = i + 1;
    }
    assert(codes@.subrange(0, codes@.len() as int) =~= codes@);
    out
}

/// How loading a translation into the cache went.
#[derive(Debug, Clone, Copy, PartialEq, Eq, Structural)]
pub enum LoadStatus {
    Loaded,
    /// The game data has no translation for the locale.
    NotFound,
    /// The cache could not be written.
    Failed,
}

/// What looking up an item's name does next, once its locale's translation is loaded.
#[derive(Debug)]
pub enum ItemNameStep {
    /// Read the name under this cache key.
    Lookup(String),
    /// Look the name up in the default locale instead.
    RetryDefault,
    /// There is no name.
    NoName,
}

/// The step of looking up the name of the item at `location` in `lang` (the default
/// locale when none is asked for), given how loading that translation went.
pub fn item_name_step(lang: Option<&str>, status: LoadStatus, location: &str) -> (r: ItemNameStep)
    ensures
        ({
            let l = match lang {
                Some(x) => x@,
                None => DEFAULT_LOCALE@,
            };
            match status {
                LoadStatus::Loaded => match spec_parse_location(location@) {
                    Some(loc) => if loc.0 == DEFAULT_NAMESPACE@ {
                        r matches ItemNameStep::Lookup(k) && k@ == "lang:"@ + l + ":minecraft:"@ + loc.1
                    } else {
                        r is NoName
                    },
                    None => r is NoName,
                },
                LoadStatus::NotFound => if l != DEFAULT_LOCALE@ {
                    r is RetryDefault
                } else {
                    r is NoName
                },
                LoadStatus::Failed => r is NoName,
            }
        }),
{
    let l = match lang {
        Some(x) => x,
        None => DEFAULT_LOCALE,
    };
    match status {
        LoadStatus::Loaded => match item_name_cache_key(l, location) {
            Some(k) => ItemNameStep::Lookup(k),
            None => ItemNameStep::NoName,
        },
        LoadStatus::NotFound => if str_eq(l, DEFAULT_LOCALE) {
            ItemNameStep::NoName
        } else {
            ItemNameStep::RetryDefault
        },
        LoadStatus::Failed => ItemNameStep::NoName,
    }
}

/// Whether the imported game data can stay: an import of the version exists and
/// either the loader is not to be updated or it already is the chosen release.
pub fn game_data_up_to_date(
    existing: Option<(&str, &str)>,
    update_loader: bool,
    loader_id: &str,
    loader_version: &str,
) -> (r: bool)
    ensures
        r == match existing {
            Some((l, v)) => !update_loader || (l@ == loader_id@ && v@ == loader_version@),
            None => false,
        },
{
    match existing {
        Some((l, v)) => !update_loader || (str_eq(l, loader_id) && str_eq(v, loader_version)),
        None => false,
    }
}


// ----- the game's manifests -----

/// Where the launcher lists the game's versions.
pub const LAUNCHER_MANIFEST_URL: &'static str = "https://launchermeta.mojang.com/mc/game/version_manifest_v2.json";

/// Where the game's resources are downloaded from, by hash.
pub const RESOURCES_URL: &'static str = "https://resources.download.minecraft.net";

/// Field `k` of `v` when `v` is an object that has it (`value[k]`, absent as `None`).
pub open spec fn field_of(v: JsonValue, k: Seq<char>) -> Option<JsonValue> {
    match v {
        JsonValue::Object(m) => match lookup(m@, k) {
            Some(i) => Some(m@[i].1),
            None => None,
        },
        _ => None,
    }
}

pub open spec fn field_in(v: Option<JsonValue>, k: Seq<char>) -> Option<JsonValue> {
    match v {
        Some(x) => field_of(x, k),
        None => None,
    }
}

/// The string `v` holds, if it is one.
pub open spec fn str_of(v: Option<JsonValue>) -> Option<Seq<char>> {
    match v {
        Some(JsonValue::String(s)) => Some(s@),
        _ => None,
    }
}

pub fn get_field<'a>(v: &'a JsonValue, k: &str) -> (r: Option<&'a JsonValue>)
    ensures
        match r {
            Some(x) => field_of(*v, k@) == Some(*x),
            None => field_of(*v, k@) is None,
        },
{
    match v {
        JsonValue::Object(m) => match lookup_index(m, k) {
            Some(i) => Some(&m[i].1),
            None => None,
        },
        _ => None,
    }
}

fn get_str(v: Option<&JsonValue>) -> (r: Option<String>)
    ensures
        crate::issues::opt_view(r) == str_of(
            match v {
                Some(x) => Some(*x),
                None => None,
            },
        ),
{
    match v {
        Some(JsonValue::String(s)) => Some(s.clone()),
        _ => None,
    }
}

fn field_path_str(v: &JsonValue, a: &str, b: &str) -> (r: Option<String>)
    ensures
        crate::issues::opt_view(r) == str_of(field_in(field_of(*v, a@), b@)),
{
    match get_field(v, a) {
        Some(x) => get_str(get_field(x, b)),
        None => None,
    }
}

/// The version the launcher manifest is asked for: the one requested, else its latest release.
pub open spec fn spec_target_version(manifest: JsonValue, requested: Option<Seq<char>>) -> Option<Seq<char>> {
    match requested {
        Some(t) => Some(t),
        None => str_of(field_in(field_of(manifest, "latest"@), "release"@)),
    }
}

/// The versions the launcher manifest lists.
pub open spec fn manifest_versions(manifest: JsonValue) -> Option<Seq<JsonValue>> {
    match field_of(manifest, "versions"@) {
        Some(JsonValue::Array(xs)) => Some(xs@),
        _ => None,
    }
}

/// Index of the first entry of `xs` whose `id` is `target`.
pub open spec fn find_id(xs: Seq<JsonValue>, target: Seq<char>) -> Option<int>
    decreases xs.len(),
{
    if xs.len() == 0 {
        None
    } else if str_of(field_of(xs[0], "id"@)) == Some(target) {
        Some(0)
    } else {
        match find_id(xs.drop_first(), target) {
            Some(i) => Some(i + 1),
            None => None,
        }
    }
}

proof fn lemma_find_id_bounds(xs: Seq<JsonValue>, target: Seq<char>)
    ensures
        find_id(xs, target) matches Some(i) ==> 0 <= i < xs.len(),
    decreases xs.len(),
{
    if xs.len() > 0 {
        lemma_find_id_bounds(xs.drop_first(), target);
    }
}

/// The version the launcher manifest is asked for and the address of its own
/// manifest, or why there is none.
pub open spec fn spec_version_entry(manifest: JsonValue, requested: Option<Seq<char>>) -> Result<
    (Seq<char>, Seq<char>),
    Seq<char>,
> {
    match spec_target_version(manifest, requested) {
        None => Err("missing latest.release in manifest"@),
        Some(t) => match manifest_versions(manifest) {
            None => Err("missing versions array"@),
            Some(xs) => match find_id(xs, t) {
                None => Err("version "@ + t + " not found in launcher manifest"@),
                Some(i) => match str_of(field_of(xs[i], "url"@)) {
                    Some(u) => Ok((t, u)),
                    None => Err("missing version url"@),
                },
            },
        },
    }
}

pub fn version_manifest_entry(manifest: &JsonValue, requested: Option<&str>) -> (r: Result<(String, String), String>)
    ensures
        match r {
            Ok((t, u)) => spec_version_entry(
                *manifest,
                match requested {
                    Some(q) => Some(q@),
                    None => None,
                },
            ) == Ok::<_, Seq<char>>((t@, u@)),
            Err(m) => spec_version_entry(
                *manifest,
                match requested {
                    Some(q) => Some(q@),
                    None => None,
                },
            ) == Err::<(Seq<char>, Seq<char>), _>(m@),
        },
{
    let ghost req = match requested {
        Some(q) => Some(q@),
        None => None,
    };
    let target = match requested {
        Some(t) => crate::text::owned(t),
        None => match field_path_str(manifest, "latest", "release") {
            Some(t) => t,
            None => {
                return Err(crate::text::owned("missing latest.release in manifest"));
            },
        },
    };
    let xs = match get_field(manifest, "versions") {
        Some(JsonValue::Array(xs)) => xs,
        _ => {
            return Err(crate::text::owned("missing versions array"));
        },
    };
    let mut i: usize = 0;
    assert(xs@.subrange(0, xs@.len() as int) =~= xs@);
    while i < xs.len()
        invariant
            i <= xs@.len(),
            manifest_versions(*manifest) == Some(xs@),
            spec_target_version(*manifest, req) == Some(target@),
            req == match requested {
                Some(q) => Some(q@),
                None => None,
            },
            find_id(xs@, target@) == match find_id(xs@.subrange(i as int, xs@.len() as int), target@) {
                Some(j) => Some(j + i),
                None => None,
            },
        decreases xs@.len() - i,
    {
        let ghost rest = xs@.subrange(i as int, xs@.len() as int);
        assert(rest[0] == xs@[i as int]);
        let id = get_str(get_field(&xs[i], "id"));
        let found = match &id {
            Some(s) => str_eq(s.as_str(), target.as_str()),
            None => false,
        };
        if found {
            return match get_str(get_field(&xs[i], "url")) {
                Some(u) => Ok((target, u)),
                None => Err(crate::text::owned("missing version url")),
            };
        }
        assert(rest.drop_first() =~= xs@.subrange(i + 1, xs@.len() as int));
        i = i + 1;
    }
    Err(concat3("version ", target.as_str(), " not found in launcher manifest"))
}

/// The address of the asset index a version manifest names.
pub fn asset_index_url(version_manifest: &JsonValue) -> (r: Result<String, String>)
    ensures
        match r {
            Ok(u) => str_of(field_in(field_of(*version_manifest, "assetIndex"@), "url"@)) == Some(u@),
            Err(m) => str_of(field_in(field_of(*version_manifest, "assetIndex"@), "url"@)) is None
                && m@ == "missing assetIndex.url"@,
        },
{
    match field_path_str(version_manifest, "assetIndex", "url") {
        Some(u) => Ok(u),
        None => Err(crate::text::owned("missing assetIndex.url")),
    }
}

/// The address of the game's client jar a version manifest names.
pub fn client_jar_url(version_manifest: &JsonValue) -> (r: Result<String, String>)
    ensures
        match r {
            Ok(u) => str_of(field_in(field_in(field_of(*version_manifest, "downloads"@), "client"@), "url"@))
                == Some(u@),
            Err(m) => str_of(field_in(field_in(field_of(*version_manifest, "downloads"@), "client"@), "url"@))
                is None && m@ == "missing downloads.client.url"@,
        },
{
    let u = match get_field(version_manifest, "downloads") {
        Some(d) => match get_field(d, "client") {
            Some(c) => get_str(get_field(c, "url")),
            None => None,
        },
        None => None,
    };
    match u {
        Some(u) => Ok(u),
        None => Err(crate::text::owned("missing downloads.client.url")),
    }
}

/// The id of the game item a file of the items folder describes: `minecraft:NAME`
/// for `NAME.json`; other files describe none.
pub fn game_item_id(file_name: &str) -> (r: Option<String>)
    ensures
        match r {
            Some(id) => has_suffix(file_name@, ".json"@) && id@ == "minecraft:"@ + file_name@.subrange(
                0,
                file_name@.len() - 5,
            ),
            None => !has_suffix(file_name@, ".json"@),
        },
{
    proof {
        reveal_strlit(".json");
    }
    match crate::text::strip_suffix(file_name, ".json") {
        Some(base) => Some(concat2("minecraft:", base.as_str())),
        None => None,
    }
}

/// The entries of a jar whose JSON files are merged into those already there: the
/// translations.
pub fn is_merged_entry(name: &str) -> (r: bool)
    ensures
        r == has_prefix(name@, LANG_DIR@),
{
    starts_with(name, LANG_DIR)
}


/// Where the asset index keeps the game's translations.
pub const LANG_FILE_PREFIX: &'static str = "minecraft/lang/";

/// The translation file an asset index entry `key` is, when it is one to download:
/// one under `LANG_FILE_PREFIX` whose name holds a `_`.
pub open spec fn lang_file_of(key: Seq<char>) -> Option<Seq<char>> {
    if has_prefix(key, LANG_FILE_PREFIX@) {
        let f = key.subrange(LANG_FILE_PREFIX@.len() as int, key.len() as int);
        if f.contains('_') {
            Some(f)
        } else {
            None
        }
    } else {
        None
    }
}

/// The address of the resource with the hash `h`: under the folder named by its
/// first two bytes.
pub open spec fn resource_url(h: Seq<char>) -> Seq<char> {
    RESOURCES_URL@ + "/"@ + h.subrange(0, crate::paths::chars_within(h, 2) as int) + "/"@ + h
}

/// The hashes of the translation files to download can be cut after two bytes.
pub open spec fn lang_hashes_cut(objects: Seq<(String, JsonValue)>) -> bool {
    forall|i: int|
        0 <= i < objects.len() && lang_file_of(#[trigger] objects[i].0@) is Some ==> match str_of(
            field_of(objects[i].1, "hash"@),
        ) {
            Some(h) => crate::paths::utf8_len(h) >= 2 && crate::paths::bytes_end_on_char(h, 2),
            None => true,
        }
}

/// The translation files to download (file name and address), in the order of the
/// asset index's objects; or why they cannot be told.
pub open spec fn spec_lang_downloads(objects: Seq<(String, JsonValue)>) -> Result<Seq<(Seq<char>, Seq<char>)>, Seq<char>>
    decreases objects.len(),
{
    if objects.len() == 0 {
        Ok(Seq::empty())
    } else {
        match spec_lang_downloads(objects.drop_last()) {
            Err(e) => Err(e),
            Ok(l) => match lang_file_of(objects.last().0@) {
                None => Ok(l),
                Some(f) => match str_of(field_of(objects.last().1, "hash"@)) {
                    None => Err("missing hash in asset object"@),
                    Some(h) => Ok(l.push((f, resource_url(h)))),
                },
            },
        }
    }
}

pub open spec fn pair_views(v: Seq<(String, String)>) -> Seq<(Seq<char>, Seq<char>)> {
    v.map_values(|p: (String, String)| (p.0@, p.1@))
}

/// The translation files an asset index's `objects` name, with where to download each.
pub fn lang_downloads(objects: &Vec<(String, JsonValue)>) -> (r: Result<Vec<(String, String)>, String>)
    requires
        lang_hashes_cut(objects@),
    ensures
        match r {
            Ok(v) => spec_lang_downloads(objects@) == Ok::<_, Seq<char>>(pair_views(v@)),
            Err(m) => spec_lang_downloads(objects@) == Err::<Seq<(Seq<char>, Seq<char>)>, _>(m@),
        },
{
    let mut out: Vec<(String, String)> = Vec::new();
    let mut i: usize = 0;
    assert(objects@.subrange(0, 0) =~= Seq::<(String, JsonValue)>::empty());
    assert(pair_views(out@) =~= Seq::<(Seq<char>, Seq<char>)>::empty());
    while i < objects.len()
        invariant
            i <= objects@.len(),
            lang_hashes_cut(objects@),
            spec_lang_downloads(objects@.subrange(0, i as int)) == Ok::<_, Seq<char>>(pair_views(out@)),
        decreases objects@.len() - i,
    {
        let ghost nxt = objects@.subrange(0, i + 1);
        assert(nxt.drop_last() =~= objects@.subrange(0, i as int));
        assert(nxt.last() == objects@[i as int]);
        let key = objects[i].0.as_str();
        proof {
            reveal_strlit("minecraft/lang/");
        }
        match strip_prefix(key, LANG_FILE_PREFIX) {
            Some(f) => {
                if contains_char(f.as_str(), '_') {
                    assert(lang_file_of(key@) == Some(f@));
                    match get_str(get_field(&objects[i].1, "hash")) {
                        None => {
                            proof {
                                lemma_lang_downloads_err(objects@, i as int + 1);
                            }
                            return Err(crate::text::owned("missing hash in asset object"));
                        },
                        Some(h) => {
                            let prefix = crate::paths::byte_prefix(h.as_str(), 2);
                            let mut url = concat3(RESOURCES_URL, "/", prefix.as_str());
                            push_str(&mut url, "/");
                            push_str(&mut url, h.as_str());
                            let ghost before = pair_views(out@);
                            out.push((f, url));
                            assert(pair_views(out@) =~= before.push((lang_file_of(key@)->0, resource_url(h@))));
                        },
                    }
                } else {
                    assert(lang_file_of(key@) is None);
                }
            },
            None => {
                assert(lang_file_of(key@) is None);
            },
        }
        i = i + 1;
    }
    assert(objects@.subrange(0, objects@.len() as int) =~= objects@);
    Ok(out)
}

proof fn lemma_lang_downloads_err(objects: Seq<(String, JsonValue)>, k: int)
    requires
        0 < k <= objects.len(),
        spec_lang_downloads(objects.subrange(0, k)) is Err,
    ensures
        spec_lang_downloads(objects) is Err,
        spec_lang_downloads(objects) == spec_lang_downloads(objects.subrange(0, k)),
    decreases objects.len() - k,
{
    if k < objects.len() {
        let nxt = objects.subrange(0, k + 1);
        assert(nxt.drop_last() =~= objects.subrange(0, k));
        lemma_lang_downloads_err(objects, k + 1);
    } else {
        assert(objects.subrange(0, k) =~= objects);
    }
}

} // verus!
