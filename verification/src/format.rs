//! Where a project keeps its documents and data, for each layout a project can use.
use vstd::prelude::*;
use crate::paths::{join, path_join};
use crate::resloc::ResourceLocation;
use crate::text::{
    concat2, concat3, contains_char, ends_with, has_suffix, owned, push_str,
    strip_suffix_or_keep, strip_suffix, trim_start_char, trim_start_char_str,
};

verus! {

pub use crate::paths::is_subpath;

pub const DOCS_FILE_EXT: &'static str = "mdx";
pub const DOCS_FILE_DOT_EXT: &'static str = ".mdx";
pub const JSON_EXT: &'static str = "json";
pub const WIKI_META_FILE: &'static str = "sinytra-wiki.json";
pub const FOLDER_META_FILE: &'static str = "_meta.json";
/// The icon of a folder entry whose metadata sets it to `null`.
pub const NO_ICON: &'static str = "_none";

// ----- shared helpers -----

/// `slug.mdx`.
pub fn append_doc_ext(slug: &str) -> (r: String)
    ensures
        r@ == slug@ + "."@ + DOCS_FILE_EXT@,
{
    concat3(slug, ".", DOCS_FILE_EXT)
}

/// `path` without a trailing `.mdx`.
pub fn strip_doc_ext(path: &str) -> (r: String)
    ensures
        r@ == strip_suffix_or_keep(path@, DOCS_FILE_DOT_EXT@),
{
    match strip_suffix(path, DOCS_FILE_DOT_EXT) {
        Some(s) => s,
        None => owned(path),
    }
}

/// Whether a file name is a document's.
pub fn is_doc_file(name: &str) -> (r: bool)
    ensures
        r == has_suffix(name@, DOCS_FILE_DOT_EXT@),
{
    ends_with(name, DOCS_FILE_DOT_EXT)
}

/// The icon of a page: its own, else its first item.
pub fn get_page_icon(icon: Option<String>, ids: &Vec<String>) -> (r: Option<String>)
    ensures
        match icon {
            Some(i) => r == Some(i),
            None => if ids@.len() > 0 {
                r matches Some(x) && x@ == ids@[0]@
            } else {
                r is None
            },
        },
{
    match icon {
        Some(i) => Some(i),
        None => if ids.len() > 0 {
            Some(ids[0].clone())
        } else {
            None
        },
    }
}

/// `root/assets_dir/namespace/lang_dir/locale.json`.
pub open spec fn spec_language_file_path(
    root: Seq<char>,
    assets_dir: Seq<char>,
    lang_dir: Seq<char>,
    namespace: Seq<char>,
    locale: Seq<char>,
) -> Seq<char> {
    path_join(path_join(path_join(path_join(root, assets_dir), namespace), lang_dir), locale + ".json"@)
}

pub fn language_file_path(
    root: &str,
    assets_dir: &str,
    assets_lang_dir: &str,
    namespace: &str,
    locale: &str,
) -> (r: String)
    ensures
        r@ == spec_language_file_path(root@, assets_dir@, assets_lang_dir@, namespace@, locale@),
{
    let a = join(root, assets_dir);
    let n = join(a.as_str(), namespace);
    let l = join(n.as_str(), assets_lang_dir);
    let f = concat2(locale, ".json");
    join(l.as_str(), f.as_str())
}

/// The file of an asset: `assets_root/NAMESPACE/PATH`, with `.png` added when the
/// path has no dot.
pub open spec fn spec_asset_path(assets_root: Seq<char>, ns: Seq<char>, p: Seq<char>) -> Seq<char> {
    path_join(
        path_join(assets_root, ns),
        p + if crate::text::count_char(p, '.') > 0 {
            Seq::<char>::empty()
        } else {
            ".png"@
        },
    )
}

pub fn asset_path(assets_root: &str, location: &ResourceLocation) -> (r: String)
    ensures
        r@ == spec_asset_path(assets_root@, location.namespace@, location.path@),
{
    let n = join(assets_root, location.namespace.as_str());
    let f = if crate::text::count_chars(location.path.as_str(), '.') > 0 {
        let r = location.path.clone();
        assert(r@ =~= location.path@ + Seq::<char>::empty());
        r
    } else {
        concat2(location.path.as_str(), ".png")
    };
    join(n.as_str(), f.as_str())
}

/// The translated copy of a file: `translated_root/LOCALE/PATH`, `PATH` without
/// leading slashes; `None` without a locale. The caller uses it when it exists.
pub open spec fn spec_localized_candidate(
    translated_root: Seq<char>,
    locale: Option<Seq<char>>,
    p: Seq<char>,
) -> Option<Seq<char>> {
    match locale {
        Some(l) => Some(path_join(path_join(translated_root, l), trim_start_char(p, '/'))),
        None => None,
    }
}

fn localized_candidate(translated_root: &str, locale: &Option<String>, p: &str) -> (r: Option<String>)
    ensures
        r matches Some(x) ==> spec_localized_candidate(translated_root@, crate::issues::opt_view(*locale), p@) == Some(x@),
        r is None ==> spec_localized_candidate(translated_root@, crate::issues::opt_view(*locale), p@) is None,
{
    match locale {
        Some(l) => {
            let t = trim_start_char_str(p, '/');
            let a = join(translated_root, l.as_str());
            Some(join(a.as_str(), t.as_str()))
        },
        None => None,
    }
}

/// A locale, unless it is empty.
pub open spec fn non_empty_locale(locale: Option<Seq<char>>) -> Option<Seq<char>> {
    match locale {
        Some(l) => if l.len() > 0 {
            Some(l)
        } else {
            None
        },
        None => None,
    }
}

fn filter_locale(locale: Option<String>) -> (r: Option<String>)
    ensures
        crate::issues::opt_view(r) == non_empty_locale(crate::issues::opt_view(locale)),
{
    match locale {
        Some(l) => if !l.as_str().is_empty() {
            Some(l)
        } else {
            None
        },
        None => None,
    }
}

/// What `convert_case` makes of `s` in camel case.
pub uninterp spec fn camel_case(s: Seq<char>) -> Seq<char>;

/// `convert_case::Converter::new().to_case(Case::Camel).convert(s)`, what the
/// `ccase!(camel, ..)` macro expands to: `s` in camel case.
#[verifier::external_body]
fn to_camel_case(s: &str) -> (r: String)
    ensures
        r@ == camel_case(s@),
{
    convert_case::Converter::new().to_case(convert_case::Case::Camel).convert(s)
}

/// The display name of a file without one: its name without `.mdx`, in camel case.
pub fn docs_entry_name(file_name: &str) -> (r: String)
    ensures
        r@ == camel_case(strip_suffix_or_keep(file_name@, DOCS_FILE_DOT_EXT@)),
{
    let stem = strip_doc_ext(file_name);
    to_camel_case(stem.as_str())
}

/// What `Path::strip_prefix` leaves of `path` after `base`.
pub uninterp spec fn path_without_prefix(path: Seq<char>, base: Seq<char>) -> Option<Seq<char>>;

/// `Path::strip_prefix`: the rest of `path` after the components of `base`, which
/// exists exactly when `base` starts `path` component-wise.
#[verifier::external_body]
fn strip_path_prefix(path: &str, base: &str) -> (r: Option<String>)
    ensures
        crate::issues::opt_view(r) == path_without_prefix(path@, base@),
        r is Some <==> crate::paths::spec_is_subpath(path@, base@),
{
    std::path::Path::new(path).strip_prefix(base).ok().map(|p| p.to_string_lossy().into_owned())
}

/// The path of `path` relative to `root` (itself when outside `root`).
pub open spec fn spec_relative(root: Seq<char>, path: Seq<char>) -> Seq<char> {
    match path_without_prefix(path, root) {
        Some(r) => r,
        None => path,
    }
}

pub fn relative_path(root: &str, path: &str) -> (r: String)
    ensures
        r@ == spec_relative(root@, path@),
{
    match strip_path_prefix(path, root) {
        Some(r) => r,
        None => owned(path),
    }
}

/// The slug of a page file: its path relative to `root`, without `.mdx`.
pub fn slug_from_path(root: &str, path: &str) -> (r: String)
    ensures
        r@ == strip_suffix_or_keep(spec_relative(root@, path@), DOCS_FILE_DOT_EXT@),
{
    let rel = relative_path(root, path);
    strip_doc_ext(rel.as_str())
}

/// Why a page could not be read at run time.
#[derive(Debug, Clone, Copy, PartialEq, Eq, Structural)]
pub enum RuntimeReadError {
    NotFound,
    Io,
    MalformedMarkdown,
    MalformedFrontmatter,
}

impl RuntimeReadError {
    pub fn to_string(&self) -> (r: String)
        ensures
            r@ == match self {
                RuntimeReadError::NotFound => "not found"@,
                RuntimeReadError::Io => "io error"@,
                RuntimeReadError::MalformedMarkdown => "malformed markdown"@,
                RuntimeReadError::MalformedFrontmatter => "malformed frontmatter"@,
            },
    {
        match self {
            RuntimeReadError::NotFound => owned("not found"),
            RuntimeReadError::Io => owned("io error"),
            RuntimeReadError::MalformedMarkdown => owned("malformed markdown"),
            RuntimeReadError::MalformedFrontmatter => owned("malformed frontmatter"),
        }
    }

    /// The project error a failed read stands for; a missing page is none (it is
    /// reported as not found).
    pub fn project_error(&self) -> (r: Option<crate::issues::ProjectError>)
        ensures
            r == match self {
                RuntimeReadError::NotFound => None,
                RuntimeReadError::Io => Some(crate::issues::ProjectError::NoPath),
                RuntimeReadError::MalformedMarkdown => Some(crate::issues::ProjectError::InvalidFormat),
                RuntimeReadError::MalformedFrontmatter => Some(
                    crate::issues::ProjectError::InvalidFrontmatter,
                ),
            },
    {
        match self {
            RuntimeReadError::NotFound => None,
            RuntimeReadError::Io => Some(crate::issues::ProjectError::NoPath),
            RuntimeReadError::MalformedMarkdown => Some(crate::issues::ProjectError::InvalidFormat),
            RuntimeReadError::MalformedFrontmatter => Some(crate::issues::ProjectError::InvalidFrontmatter),
        }
    }
}

/// How a folder's `_meta.json` names and orders its entries.
#[derive(Debug, Clone, Default)]
pub struct FolderMetadataEntry {
    pub name: String,
    pub icon: String,
}

/// The entries of a folder's metadata, in the order the file lists them.
#[derive(Debug, Clone, Default)]
pub struct FolderMetadata {
    pub keys: Vec<String>,
    pub entries: Vec<(String, FolderMetadataEntry)>,
}

/// One value of a folder's metadata file: a name, or an object with an optional
/// name and icon.
pub enum RawMetaValue {
    String(String),
    Object { name: Option<String>, icon: Option<crate::json::JsonValue> },
}

/// The name and icon an entry's metadata gives it (the name may still be empty):
/// an icon set to `null` is no icon, one set to a string is that string.
pub fn meta_name_icon(raw: RawMetaValue) -> (r: (String, String))
    ensures
        match raw {
            RawMetaValue::String(s) => r.0@ == s@ && r.1@ == Seq::<char>::empty(),
            RawMetaValue::Object { name, icon } => r.0@ == match name {
                Some(n) => n@,
                None => Seq::<char>::empty(),
            } && r.1@ == match icon {
                Some(crate::json::JsonValue::Null) => NO_ICON@,
                Some(crate::json::JsonValue::String(s)) => s@,
                _ => Seq::<char>::empty(),
            },
        },
{
    match raw {
        RawMetaValue::String(s) => (s, String::new()),
        RawMetaValue::Object { name, icon } => {
            let icon_str = match icon {
                Some(crate::json::JsonValue::Null) => owned(NO_ICON),
                Some(crate::json::JsonValue::String(s)) => s,
                _ => String::new(),
            };
            let n = match name {
                Some(n) => n,
                None => String::new(),
            };
            (n, icon_str)
        },
    }
}

/// A metadata name as the file may write it: a string, `null` or left out (both
/// empty); anything else is refused.
pub open spec fn spec_meta_name_field(v: Option<crate::json::JsonValue>) -> Option<Seq<char>> {
    match v {
        None => Some(Seq::empty()),
        Some(crate::json::JsonValue::Null) => Some(Seq::empty()),
        Some(crate::json::JsonValue::String(s)) => Some(s@),
        Some(_) => None,
    }
}

/// A metadata icon: a string is the icon; `null`, a left-out icon or any other value
/// is none (a `null` icon reads as a left-out one).
pub open spec fn spec_meta_icon_field(v: Option<crate::json::JsonValue>) -> Seq<char> {
    match v {
        Some(crate::json::JsonValue::String(s)) => s@,
        _ => Seq::empty(),
    }
}

/// The name (possibly empty) and icon that one value of a folder's metadata file
/// gives its entry: a string is the name; an object gives its `name` and `icon`
/// fields (other fields are ignored). Any other value (a list among them), or a name
/// that is neither a string nor `null`, is refused (`None`).
pub open spec fn spec_meta_value(v: crate::json::JsonValue) -> Option<(Seq<char>, Seq<char>)> {
    match v {
        crate::json::JsonValue::String(s) => Some((s@, Seq::empty())),
        crate::json::JsonValue::Object(m) => {
            let name = match crate::json::lookup(m@, "name"@) {
                Some(i) => Some(m@[i].1),
                None => None,
            };
            let icon = match crate::json::lookup(m@, "icon"@) {
                Some(i) => Some(m@[i].1),
                None => None,
            };
            match spec_meta_name_field(name) {
                Some(n) => Some((n, spec_meta_icon_field(icon))),
                None => None,
            }
        },
        _ => None,
    }
}

fn meta_name_field(v: Option<&crate::json::JsonValue>) -> (r: Option<String>)
    ensures
        crate::issues::opt_view(r) == spec_meta_name_field(match v {
            Some(x) => Some(*x),
            None => None,
        }),
{
    match v {
        None => Some(String::new()),
        Some(crate::json::JsonValue::Null) => Some(String::new()),
        Some(crate::json::JsonValue::String(s)) => Some(s.clone()),
        Some(_) => None,
    }
}

fn meta_icon_field(v: Option<&crate::json::JsonValue>) -> (r: String)
    ensures
        r@ == spec_meta_icon_field(match v {
            Some(x) => Some(*x),
            None => None,
        }),
{
    match v {
        Some(crate::json::JsonValue::String(s)) => s.clone(),
        _ => String::new(),
    }
}

/// Reads one value of a folder's metadata file (see `spec_meta_value`).
pub fn decode_meta_value(v: &crate::json::JsonValue) -> (r: Option<(String, String)>)
    ensures
        match r {
            Some((n, i)) => spec_meta_value(*v) == Some((n@, i@)),
            None => spec_meta_value(*v) is None,
        },
{
    match v {
        crate::json::JsonValue::String(s) => Some((s.clone(), String::new())),
        crate::json::JsonValue::Object(m) => {
            let name = match crate::json::lookup_index(m, "name") {
                Some(i) => Some(&m[i].1),
                None => None,
            };
            let icon = match crate::json::lookup_index(m, "icon") {
                Some(i) => Some(&m[i].1),
                None => None,
            };
            match meta_name_field(name) {
                Some(n) => Some((n, meta_icon_field(icon))),
                None => None,
            }
        },
        _ => None,
    }
}

/// The order of two folder entries.
#[derive(Debug, Clone, Copy, PartialEq, Eq, Structural)]
pub enum EntryOrder {
    Less,
    Equal,
    Greater,
}

/// Position of `name` among `keys`.
pub open spec fn key_position(keys: Seq<String>, name: Seq<char>) -> Option<int>
    decreases keys.len(),
{
    if keys.len() == 0 {
        None
    } else if keys[0]@ == name {
        Some(0)
    } else {
        match key_position(keys.drop_first(), name) {
            Some(i) => Some(i + 1),
            None => None,
        }
    }
}

/// How the entries `a` and `b` of a folder are ordered: by name without metadata
/// keys; else listed entries first, in the order listed; unlisted ones tie.
pub open spec fn spec_compare_entries(keys: Seq<String>, a: Seq<char>, b: Seq<char>) -> EntryOrder {
    if keys.len() == 0 {
        if crate::text::seq_lt(a, b) {
            EntryOrder::Less
        } else if a == b {
            EntryOrder::Equal
        } else {
            EntryOrder::Greater
        }
    } else {
        match (key_position(keys, a), key_position(keys, b)) {
            (None, None) => EntryOrder::Equal,
            (Some(_), None) => EntryOrder::Less,
            (None, Some(_)) => EntryOrder::Greater,
            (Some(i), Some(j)) => if i < j {
                EntryOrder::Less
            } else if i == j {
                EntryOrder::Equal
            } else {
                EntryOrder::Greater
            },
        }
    }
}

fn position_of(keys: &Vec<String>, name: &str) -> (r: Option<usize>)
    ensures
        match r {
            Some(i) => key_position(keys@, name@) == Some(i as int),
            None => key_position(keys@, name@) is None,
        },
{
    let mut i: usize = 0;
    assert(keys@.subrange(0, keys@.len() as int) =~= keys@);
    while i < keys.len()
        invariant
            i <= keys@.len(),
            key_position(keys@, name@) == match key_position(
                keys@.subrange(i as int, keys@.len() as int),
                name@,
            ) {
                Some(j) => Some(j + i),
                None => None,
            },
        decreases keys@.len() - i,
    {
        let ghost rest = keys@.subrange(i as int, keys@.len() as int);
        assert(rest[0] == keys@[i as int]);
        if crate::text::str_eq(keys[i].as_str(), name) {
            return Some(i);
        }
        assert(rest.drop_first() =~= keys@.subrange(i + 1, keys@.len() as int));
        i = i + 1;
    }
    None
}

pub fn compare_entries(keys: &Vec<String>, a: &str, b: &str) -> (r: EntryOrder)
    ensures
        r == spec_compare_entries(keys@, a@, b@),
{
    if keys.len() == 0 {
        let ac = crate::text::char_vec(a);
        let bc = crate::text::char_vec(b);
        if crate::text::str_lt(ac.as_slice(), bc.as_slice()) {
            return EntryOrder::Less;
        } else if crate::text::str_eq(a, b) {
            return EntryOrder::Equal;
        } else {
            return EntryOrder::Greater;
        }
    }
    match (position_of(keys, a), position_of(keys, b)) {
        (None, None) => EntryOrder::Equal,
        (Some(_), None) => EntryOrder::Less,
        (None, Some(_)) => EntryOrder::Greater,
        (Some(i), Some(j)) => if i < j {
            EntryOrder::Less
        } else if i == j {
            EntryOrder::Equal
        } else {
            EntryOrder::Greater
        },
    }
}

// ----- the built-in project -----

/// The layout of the game's own data.
#[derive(Debug, Clone)]
pub struct BuiltinProjectFormat {
    pub root: String,
}

impl BuiltinProjectFormat {
    pub fn new(root: String) -> (r: BuiltinProjectFormat)
        ensures
            r.root@ == root@,
    {
        BuiltinProjectFormat { root }
    }

    pub fn root(&self) -> (r: &str)
        ensures
            r@ == self.root@,
    {
        self.root.as_str()
    }

    pub fn assets_root(&self) -> (r: String)
        ensures
            r@ == path_join(self.root@, "assets"@),
    {
        join(self.root.as_str(), "assets")
    }

    pub fn data_root(&self) -> (r: String)
        ensures
            r@ == path_join(self.root@, "data"@),
    {
        join(self.root.as_str(), "data")
    }
}

// ----- the legacy layout -----

pub const LEGACY_ASSETS_DIR: &'static str = ".assets";
pub const LEGACY_DATA_DIR: &'static str = ".data";
pub const RECIPES_DIR: &'static str = "recipe";
pub const RECIPE_TYPES_DIR: &'static str = "recipe_type";
pub const ASSETS_LANG_DIR: &'static str = "lang";
pub const LEGACY_I18N_DIR: &'static str = ".translated";
pub const LEGACY_CONTENT_DIR: &'static str = ".content";
pub const LEGACY_PROPERTIES_FILE: &'static str = ".data/properties.json";
pub const WORKBENCHES_FILE: &'static str = "workbenches.json";

/// The layout of projects without a schema version: hidden folders at the root.
#[derive(Debug, Clone)]
pub struct LegacyProjectFormat {
    pub root: String,
    pub locale: Option<String>,
    pub data_root_override: Option<String>,
}

impl LegacyProjectFormat {
    pub fn new(root: String) -> (r: LegacyProjectFormat)
        ensures
            r.root@ == root@,
            r.locale is None,
            r.data_root_override is None,
    {
        LegacyProjectFormat { root, locale: None, data_root_override: None }
    }

    /// The same layout read in `locale` (no locale when it is empty).
    pub fn with_locale(self, locale: Option<String>) -> (r: LegacyProjectFormat)
        ensures
            r.root == self.root,
            r.data_root_override == self.data_root_override,
            crate::issues::opt_view(r.locale) == non_empty_locale(crate::issues::opt_view(locale)),
    {
        LegacyProjectFormat {
            root: self.root,
            locale: filter_locale(locale),
            data_root_override: self.data_root_override,
        }
    }

    /// The same layout with its data read from `data_root`.
    pub fn with_data_root(self, data_root: String) -> (r: LegacyProjectFormat)
        ensures
            r.root == self.root,
            r.locale == self.locale,
            r.data_root_override == Some(data_root),
    {
        LegacyProjectFormat { root: self.root, locale: self.locale, data_root_override: Some(data_root) }
    }

    pub fn root(&self) -> (r: &str)
        ensures
            r@ == self.root@,
    {
        self.root.as_str()
    }

    pub fn assets_root(&self) -> (r: String)
        ensures
            r@ == path_join(self.root@, LEGACY_ASSETS_DIR@),
    {
        join(self.root.as_str(), LEGACY_ASSETS_DIR)
    }

    pub open spec fn spec_data_root(&self) -> Seq<char> {
        match self.data_root_override {
            Some(d) => d@,
            None => path_join(self.root@, LEGACY_DATA_DIR@),
        }
    }

    pub fn data_root(&self) -> (r: String)
        ensures
            r@ == self.spec_data_root(),
    {
        match &self.data_root_override {
            Some(d) => d.clone(),
            None => join(self.root.as_str(), LEGACY_DATA_DIR),
        }
    }

    pub fn recipes_root(&self, modid: &str) -> (r: String)
        ensures
            r@ == path_join(path_join(self.spec_data_root(), modid@), RECIPES_DIR@),
    {
        let d = self.data_root();
        let m = join(d.as_str(), modid);
        join(m.as_str(), RECIPES_DIR)
    }

    pub fn recipe_types_root(&self, modid: &str) -> (r: String)
        ensures
            r@ == path_join(path_join(self.spec_data_root(), modid@), RECIPE_TYPES_DIR@),
    {
        let d = self.data_root();
        let m = join(d.as_str(), modid);
        join(m.as_str(), RECIPE_TYPES_DIR)
    }

    pub fn contents_root(&self) -> (r: String)
        ensures
            r@ == path_join(self.root@, LEGACY_CONTENT_DIR@),
    {
        join(self.root.as_str(), LEGACY_CONTENT_DIR)
    }

    pub fn workbenches_path(&self) -> (r: String)
        ensures
            r@ == path_join(self.spec_data_root(), WORKBENCHES_FILE@),
    {
        let d = self.data_root();
        join(d.as_str(), WORKBENCHES_FILE)
    }

    pub fn wiki_metadata_path(&self) -> (r: String)
        ensures
            r@ == path_join(self.root@, WIKI_META_FILE@),
    {
        join(self.root.as_str(), WIKI_META_FILE)
    }

    pub fn translated_root(&self) -> (r: String)
        ensures
            r@ == path_join(self.root@, LEGACY_I18N_DIR@),
    {
        join(self.root.as_str(), LEGACY_I18N_DIR)
    }

    pub fn language_file_path(&self, namespace: &str, locale: &str) -> (r: String)
        ensures
            r@ == spec_language_file_path(
                self.root@,
                LEGACY_ASSETS_DIR@,
                ASSETS_LANG_DIR@,
                namespace@,
                locale@,
            ),
    {
        language_file_path(self.root.as_str(), LEGACY_ASSETS_DIR, ASSETS_LANG_DIR, namespace, locale)
    }

    /// The translated copy of `path`, to use when it exists.
    pub fn localized_candidate(&self, path: &str) -> (r: Option<String>)
        ensures
            r matches Some(x) ==> spec_localized_candidate(
                path_join(self.root@, LEGACY_I18N_DIR@),
                crate::issues::opt_view(self.locale),
                path@,
            ) == Some(x@),
            r is None ==> spec_localized_candidate(
                path_join(self.root@, LEGACY_I18N_DIR@),
                crate::issues::opt_view(self.locale),
                path@,
            ) is None,
    {
        let t = self.translated_root();
        localized_candidate(t.as_str(), &self.locale, path)
    }

    /// `path` under the root, leading slashes dropped: the file used when no
    /// translated copy exists.
    pub fn unlocalized_path(&self, path: &str) -> (r: String)
        ensures
            r@ == path_join(self.root@, trim_start_char(path@, '/')),
    {
        let t = trim_start_char_str(path, '/');
        join(self.root.as_str(), t.as_str())
    }

    /// The file of a documentation page, relative to the root (before localization).
    pub fn docs_page_file(&self, slug: &str) -> (r: String)
        ensures
            r@ == slug@ + "."@ + DOCS_FILE_EXT@,
    {
        append_doc_ext(slug)
    }

    /// The file of a content page, relative to the root (before localization).
    pub fn content_page_file(&self, slug: &str) -> (r: String)
        ensures
            r@ == LEGACY_CONTENT_DIR@ + "/"@ + slug@ + "."@ + DOCS_FILE_EXT@,
    {
        let p = concat3(LEGACY_CONTENT_DIR, "/", slug);
        append_doc_ext(p.as_str())
    }

    /// The item properties file, relative to the root (before localization).
    pub fn item_properties_file(&self) -> (r: &'static str)
        ensures
            r@ == LEGACY_PROPERTIES_FILE@,
    {
        LEGACY_PROPERTIES_FILE
    }
}

// ----- the schema 1 layout -----

pub const V1_ASSETS_DIR: &'static str = "assets";
pub const V1_DATA_DIR: &'static str = "data";
pub const V1_I18N_DIR: &'static str = "translated";
pub const V1_DOCS_DIR: &'static str = "docs";
pub const V1_CONTENT_DIR: &'static str = "content";
pub const V1_PROPERTIES_FILE: &'static str = "properties/item.json";
pub const DOCS_INDEX_PAGE_SLUG: &'static str = "_index";

/// The layout of projects of schema version 1: plain folders at the root.
#[derive(Debug, Clone)]
pub struct V1ProjectFormat {
    pub root: String,
    pub locale: Option<String>,
}

impl V1ProjectFormat {
    pub fn new(root: String) -> (r: V1ProjectFormat)
        ensures
            r.root@ == root@,
            r.locale is None,
    {
        V1ProjectFormat { root, locale: None }
    }

    /// The same layout read in `locale` (no locale when it is empty).
    pub fn with_locale(self, locale: Option<String>) -> (r: V1ProjectFormat)
        ensures
            r.root == self.root,
            crate::issues::opt_view(r.locale) == non_empty_locale(crate::issues::opt_view(locale)),
    {
        V1ProjectFormat { root: self.root, locale: filter_locale(locale) }
    }

    pub fn root(&self) -> (r: &str)
        ensures
            r@ == self.root@,
    {
        self.root.as_str()
    }

    pub fn assets_root(&self) -> (r: String)
        ensures
            r@ == path_join(self.root@, V1_ASSETS_DIR@),
    {
        join(self.root.as_str(), V1_ASSETS_DIR)
    }

    pub fn data_root(&self) -> (r: String)
        ensures
            r@ == path_join(self.root@, V1_DATA_DIR@),
    {
        join(self.root.as_str(), V1_DATA_DIR)
    }

    pub fn docs_root(&self) -> (r: String)
        ensures
            r@ == path_join(self.root@, V1_DOCS_DIR@),
    {
        join(self.root.as_str(), V1_DOCS_DIR)
    }

    pub fn recipes_root(&self, modid: &str) -> (r: String)
        ensures
            r@ == path_join(path_join(path_join(self.root@, V1_DATA_DIR@), modid@), RECIPES_DIR@),
    {
        let d = self.data_root();
        let m = join(d.as_str(), modid);
        join(m.as_str(), RECIPES_DIR)
    }

    pub fn recipe_types_root(&self, modid: &str) -> (r: String)
        ensures
            r@ == path_join(
                path_join(path_join(self.root@, V1_DATA_DIR@), modid@),
                RECIPE_TYPES_DIR@,
            ),
    {
        let d = self.data_root();
        let m = join(d.as_str(), modid);
        join(m.as_str(), RECIPE_TYPES_DIR)
    }

    pub fn contents_root(&self) -> (r: String)
        ensures
            r@ == path_join(self.root@, V1_CONTENT_DIR@),
    {
        join(self.root.as_str(), V1_CONTENT_DIR)
    }

    pub fn workbenches_path(&self, modid: &str) -> (r: String)
        ensures
            r@ == path_join(
                path_join(path_join(self.root@, V1_DATA_DIR@), modid@),
                WORKBENCHES_FILE@,
            ),
    {
        let d = self.data_root();
        let m = join(d.as_str(), modid);
        join(m.as_str(), WORKBENCHES_FILE)
    }

    pub fn wiki_metadata_path(&self) -> (r: String)
        ensures
            r@ == path_join(self.root@, WIKI_META_FILE@),
    {
        join(self.root.as_str(), WIKI_META_FILE)
    }

    pub fn translated_root(&self) -> (r: String)
        ensures
            r@ == path_join(self.root@, V1_I18N_DIR@),
    {
        join(self.root.as_str(), V1_I18N_DIR)
    }

    pub fn language_file_path(&self, namespace: &str, locale: &str) -> (r: String)
        ensures
            r@ == spec_language_file_path(self.root@, V1_ASSETS_DIR@, ASSETS_LANG_DIR@, namespace@, locale@),
    {
        language_file_path(self.root.as_str(), V1_ASSETS_DIR, ASSETS_LANG_DIR, namespace, locale)
    }

    /// The translated copy of `path`, to use when it exists.
    pub fn localized_candidate(&self, path: &str) -> (r: Option<String>)
        ensures
            r matches Some(x) ==> spec_localized_candidate(
                path_join(self.root@, V1_I18N_DIR@),
                crate::issues::opt_view(self.locale),
                path@,
            ) == Some(x@),
            r is None ==> spec_localized_candidate(
                path_join(self.root@, V1_I18N_DIR@),
                crate::issues::opt_view(self.locale),
                path@,
            ) is None,
    {
        let t = self.translated_root();
        localized_candidate(t.as_str(), &self.locale, path)
    }

    /// `path` under the root, leading slashes dropped.
    pub fn unlocalized_path(&self, path: &str) -> (r: String)
        ensures
            r@ == path_join(self.root@, trim_start_char(path@, '/')),
    {
        let t = trim_start_char_str(path, '/');
        join(self.root.as_str(), t.as_str())
    }

    /// The file of a documentation page, relative to the root (before localization).
    pub fn docs_page_file(&self, slug: &str) -> (r: String)
        ensures
            r@ == V1_DOCS_DIR@ + "/"@ + slug@ + "."@ + DOCS_FILE_EXT@,
    {
        let p = concat3(V1_DOCS_DIR, "/", slug);
        append_doc_ext(p.as_str())
    }

    /// The file of the documentation index page.
    pub fn docs_index_page_file(&self) -> (r: String)
        ensures
            r@ == V1_DOCS_DIR@ + "/"@ + DOCS_INDEX_PAGE_SLUG@ + "."@ + DOCS_FILE_EXT@,
    {
        self.docs_page_file(DOCS_INDEX_PAGE_SLUG)
    }

    /// The file of a content page, relative to the root (before localization).
    pub fn content_page_file(&self, slug: &str) -> (r: String)
        ensures
            r@ == V1_CONTENT_DIR@ + "/"@ + slug@ + "."@ + DOCS_FILE_EXT@,
    {
        let p = concat3(V1_CONTENT_DIR, "/", slug);
        append_doc_ext(p.as_str())
    }

    /// The item properties file of `modid`, relative to the root (before localization).
    pub fn item_properties_file(&self, modid: &str) -> (r: String)
        ensures
            r@ == V1_DATA_DIR@ + "/"@ + modid@ + "/"@ + V1_PROPERTIES_FILE@,
    {
        let mut r = concat3(V1_DATA_DIR, "/", modid);
        push_str(&mut r, "/");
        push_str(&mut r, V1_PROPERTIES_FILE);
        r
    }

    /// The asset of an item: its id with `item/` put in front of the path.
    pub fn item_asset_from(&self, item_id: &ResourceLocation) -> (r: ResourceLocation)
        ensures
            r@ == (item_id.namespace@, "item/"@ + item_id.path@),
    {
        item_id.with_path_prefix("item/")
    }
}

} // verus!
