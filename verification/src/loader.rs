//! Game versions, the mod loaders that serve them, and the choice of a loader
//! release from the versions a Maven repository lists.
use vstd::prelude::*;
use crate::text::{
    all_digits, char_vec, chars_range, chars_views, concat2, count_chars, count_char, digit_run,
    first_index_of, find_char, has_infix, has_prefix, leading_digits, lemma_first_index_of_facts,
    owned, parse_u64, push_str, split_chars, split_on, spec_parse_u64, starts_with,
    string_of_range, contains_char,
};

verus! {

/// Items are listed from their model files before 1.21.4 and from the item
/// definitions after; the directories inside the game's jar.
pub const ITEM_MODELS_DIR: &'static str = "assets/minecraft/models/item";

pub const ITEMS_DIR: &'static str = "assets/minecraft/items";

/// The classifier of the loader jars that hold the game data.
pub const JAR_CLASSIFIER: &'static str = "universal";

/// NeoForge serves 1.20.2 and later; Forge the versions before.
pub open spec fn neoforge_min_game_version() -> Seq<u64> {
    seq![1u64, 20u64, 2u64]
}

// ----- game versions -----

/// Lexicographic order of version components (a proper prefix comes first).
pub open spec fn lex_lt(a: Seq<u64>, b: Seq<u64>) -> bool
    decreases a.len(),
{
    if a.len() == 0 {
        b.len() > 0
    } else if b.len() == 0 {
        false
    } else if a[0] != b[0] {
        a[0] < b[0]
    } else {
        lex_lt(a.drop_first(), b.drop_first())
    }
}

/// The numbers that the dot-separated parts start with, up to the first part that
/// does not start with a number.
pub open spec fn leading_components(parts: Seq<Seq<char>>) -> Seq<u64>
    decreases parts.len(),
{
    if parts.len() == 0 {
        Seq::empty()
    } else {
        match spec_parse_u64(parts[0].subrange(0, digit_run(parts[0]) as int)) {
            Some(n) => seq![n] + leading_components(parts.drop_first()),
            None => Seq::empty(),
        }
    }
}

pub open spec fn version_components(s: Seq<char>) -> Seq<u64> {
    leading_components(split_on(s, '.'))
}

/// A game version: its text, and the numbers it starts with (`1.20.1-pre1` is `[1, 20, 1]`).
#[derive(Debug, Clone)]
pub struct GameVersion {
    raw: String,
    components: Vec<u64>,
}

impl View for GameVersion {
    type V = (Seq<char>, Seq<u64>);

    closed spec fn view(&self) -> (Seq<char>, Seq<u64>) {
        (self.raw@, self.components@)
    }
}

/// Compares `a` and `b` lexicographically.
pub fn lex_less(a: &[u64], b: &[u64]) -> (r: bool)
    ensures
        r == lex_lt(a@, b@),
{
    let mut i: usize = 0;
    assert(a@.subrange(0, a@.len() as int) =~= a@);
    assert(b@.subrange(0, b@.len() as int) =~= b@);
    while i < a.len() && i < b.len() && a[i] == b[i]
        invariant
            i <= a@.len(),
            i <= b@.len(),
            lex_lt(a@, b@) == lex_lt(
                a@.subrange(i as int, a@.len() as int),
                b@.subrange(i as int, b@.len() as int),
            ),
        decreases a@.len() - i,
    {
        assert(a@.subrange(i as int, a@.len() as int).drop_first() =~= a@.subrange(
            i + 1,
            a@.len() as int,
        ));
        assert(b@.subrange(i as int, b@.len() as int).drop_first() =~= b@.subrange(
            i + 1,
            b@.len() as int,
        ));
        i = i + 1;
    }
    if i == a.len() {
        i < b.len()
    } else if i == b.len() {
        false
    } else {
        assert(a@.subrange(i as int, a@.len() as int)[0] == a@[i as int]);
        assert(b@.subrange(i as int, b@.len() as int)[0] == b@[i as int]);
        a[i] < b[i]
    }
}

impl GameVersion {
    /// Reads a version; every text is accepted.
    pub fn parse(raw: &str) -> (r: GameVersion)
        ensures
            r@.0 == raw@,
            r@.1 == version_components(raw@),
    {
        let cs = char_vec(raw);
        let parts = split_chars(cs.as_slice(), '.');
        let ghost pv = chars_views(parts@);
        let mut components: Vec<u64> = Vec::new();
        let mut i: usize = 0;
        assert(pv.subrange(0, pv.len() as int) =~= pv);
        assert(components@ + leading_components(pv.subrange(0, pv.len() as int)) =~= leading_components(pv));
        while i < parts.len()
            invariant
                pv == chars_views(parts@),
                pv == split_on(raw@, '.'),
                i <= parts@.len(),
                components@ + leading_components(pv.subrange(i as int, pv.len() as int))
                    == leading_components(pv),
            decreases parts@.len() - i,
        {
            let ghost rest = pv.subrange(i as int, pv.len() as int);
            assert(rest[0] == parts@[i as int]@);
            assert(rest.drop_first() =~= pv.subrange(i + 1, pv.len() as int));
            let part = &parts[i];
            let d = leading_digits(part.as_slice());
            let digits = chars_range(part.as_slice(), 0, d);
            match parse_u64(digits.as_slice()) {
                Some(n) => {
                    let ghost before = components@;
                    components.push(n);
                    assert(before + (seq![n] + leading_components(rest.drop_first())) =~= components@
                        + leading_components(rest.drop_first()));
                },
                None => {
                    assert(leading_components(rest) =~= Seq::<u64>::empty());
                    assert(components@ + Seq::<u64>::empty() =~= components@);
                    return GameVersion { raw: owned(raw), components };
                },
            }
            i = i + 1;
        }
        assert(pv.subrange(pv.len() as int, pv.len() as int) =~= Seq::<Seq<char>>::empty());
        assert(components@ + Seq::<u64>::empty() =~= components@);
        GameVersion { raw: owned(raw), components }
    }

    pub fn as_str(&self) -> (r: &str)
        ensures
            r@ == self@.0,
    {
        self.raw.as_str()
    }

    pub fn components(&self) -> (r: &[u64])
        ensures
            r@ == self@.1,
    {
        self.components.as_slice()
    }

    /// Whether this version is `other` or later (compared component by component).
    pub fn at_least(&self, other: &[u64]) -> (r: bool)
        ensures
            r == !lex_lt(self@.1, other@),
    {
        !lex_less(self.components.as_slice(), other)
    }

    /// Whether the version starts with at least a major and a minor number.
    pub fn is_numbered(&self) -> (r: bool)
        ensures
            r == (self@.1.len() >= 2),
    {
        self.components.len() >= 2
    }
}

// ----- artifacts -----

/// Where a loader's releases are published.
pub struct MavenArtifact {
    pub repository: &'static str,
    pub group: &'static str,
    pub name: &'static str,
}

pub open spec fn metadata_url_of(repository: Seq<char>, group: Seq<char>, name: Seq<char>) -> Seq<char> {
    repository + "/"@ + group + "/"@ + name + "/maven-metadata.xml"@
}

pub open spec fn jar_url_of(
    repository: Seq<char>,
    group: Seq<char>,
    name: Seq<char>,
    version: Seq<char>,
    classifier: Seq<char>,
) -> Seq<char> {
    repository + "/"@ + group + "/"@ + name + "/"@ + version + "/"@ + name + "-"@ + version + "-"@
        + classifier + ".jar"@
}

impl MavenArtifact {
    /// The URL of the artifact's version listing.
    pub fn metadata_url(&self) -> (r: String)
        ensures
            r@ == metadata_url_of(self.repository@, self.group@, self.name@),
    {
        let mut r = owned(self.repository);
        push_str(&mut r, "/");
        push_str(&mut r, self.group);
        push_str(&mut r, "/");
        push_str(&mut r, self.name);
        push_str(&mut r, "/maven-metadata.xml");
        r
    }

    /// The URL of the jar of `version` with `classifier`.
    pub fn jar_url(&self, version: &str, classifier: &str) -> (r: String)
        ensures
            r@ == jar_url_of(self.repository@, self.group@, self.name@, version@, classifier@),
    {
        let mut r = owned(self.repository);
        push_str(&mut r, "/");
        push_str(&mut r, self.group);
        push_str(&mut r, "/");
        push_str(&mut r, self.name);
        push_str(&mut r, "/");
        push_str(&mut r, version);
        push_str(&mut r, "/");
        push_str(&mut r, self.name);
        push_str(&mut r, "-");
        push_str(&mut r, version);
        push_str(&mut r, "-");
        push_str(&mut r, classifier);
        push_str(&mut r, ".jar");
        r
    }
}

pub fn neoforge_artifact() -> (r: MavenArtifact)
    ensures
        r.repository@ == "https://maven.neoforged.net/releases"@,
        r.group@ == "net/neoforged"@,
        r.name@ == "neoforge"@,
{
    MavenArtifact {
        repository: "https://maven.neoforged.net/releases",
        group: "net/neoforged",
        name: "neoforge",
    }
}

pub fn forge_artifact() -> (r: MavenArtifact)
    ensures
        r.repository@ == "https://maven.minecraftforge.net/releases"@,
        r.group@ == "net/minecraftforge"@,
        r.name@ == "forge"@,
{
    MavenArtifact {
        repository: "https://maven.minecraftforge.net/releases",
        group: "net/minecraftforge",
        name: "forge",
    }
}

// ----- NeoForge -----

/// The prefixes that NeoForge releases for a game version start with: the version
/// with a `.0` added when it has a single dot, and, for `1.x` versions, the version
/// without its leading `1.` (with a `.0` added when no dot is left).
pub open spec fn neoforge_prefixes(gv: Seq<char>) -> Seq<Seq<char>> {
    let primary = if count_char(gv, '.') == 1 { gv + ".0"@ } else { gv };
    if has_prefix(gv, "1."@) && gv.len() > 2 {
        let rest = gv.subrange(2, gv.len() as int);
        seq![primary, if count_char(rest, '.') > 0 { rest } else { rest + ".0"@ }]
    } else {
        seq![primary]
    }
}

/// The build number of a NeoForge release after its prefix and dot: digits, then
/// nothing (a stable release) or a `-` suffix (a pre-release).
pub open spec fn neoforge_build(b: Seq<char>) -> Option<(u64, bool)> {
    let n = digit_run(b) as int;
    let suffix = b.subrange(n, b.len() as int);
    if suffix.len() > 0 && suffix[0] != '-' {
        None
    } else {
        match spec_parse_u64(b.subrange(0, n)) {
            Some(x) => Some((x, suffix.len() == 0)),
            None => None,
        }
    }
}

/// The build of `v` under the first prefix that yields one.
pub open spec fn neoforge_key(v: Seq<char>, prefixes: Seq<Seq<char>>) -> Option<(u64, bool)>
    decreases prefixes.len(),
{
    if prefixes.len() == 0 {
        None
    } else {
        let p = prefixes[0];
        let attempt = if has_prefix(v, p) && v.len() > p.len() && v[p.len() as int] == '.' {
            neoforge_build(v.subrange(p.len() as int + 1, v.len() as int))
        } else {
            None
        };
        match attempt {
            Some(k) => Some(k),
            None => neoforge_key(v, prefixes.drop_first()),
        }
    }
}

/// Stable releases rank above pre-releases, then higher builds above lower ones.
pub open spec fn neoforge_le(a: (u64, bool), b: (u64, bool)) -> bool {
    (!a.1 && b.1) || (a.1 == b.1 && a.0 <= b.0)
}

/// The best-ranked release among `vs` (the last of equally ranked ones) and its rank.
pub open spec fn select_neoforge(vs: Seq<Seq<char>>, prefixes: Seq<Seq<char>>) -> Option<
    ((u64, bool), Seq<char>),
>
    decreases vs.len(),
{
    if vs.len() == 0 {
        None
    } else {
        let prev = select_neoforge(vs.drop_last(), prefixes);
        match neoforge_key(vs.last(), prefixes) {
            None => prev,
            Some(k) => match prev {
                None => Some((k, vs.last())),
                Some(p) => if neoforge_le(p.0, k) {
                    Some((k, vs.last()))
                } else {
                    prev
                },
            },
        }
    }
}

pub open spec fn strings_view(v: Seq<String>) -> Seq<Seq<char>> {
    v.map_values(|s: String| s@)
}

/// Mod loader of the game versions 1.20.2 and later.
pub struct NeoForge;

fn prefix_with_zero(s: &str) -> (r: String)
    ensures
        r@ == s@ + ".0"@,
{
    concat2(s, ".0")
}

impl NeoForge {
    pub fn get_version_prefixes(game_version: &str) -> (r: Vec<String>)
        ensures
            strings_view(r@) == neoforge_prefixes(game_version@),
    {
        let primary = if count_chars(game_version, '.') == 1 {
            prefix_with_zero(game_version)
        } else {
            owned(game_version)
        };
        let mut prefixes: Vec<String> = Vec::new();
        prefixes.push(primary);
        let cs = char_vec(game_version);
        if starts_with(game_version, "1.") && cs.len() > 2 {
            proof {
                reveal_strlit("1.");
            }
            let rest = string_of_range(cs.as_slice(), 2, cs.len());
            let legacy = if count_chars(rest.as_str(), '.') > 0 {
                rest
            } else {
                prefix_with_zero(rest.as_str())
            };
            prefixes.push(legacy);
        }
        assert(strings_view(prefixes@) =~= neoforge_prefixes(game_version@));
        prefixes
    }

    /// Reads the build after a release's prefix and dot.
    pub fn parse_version(build: &str) -> (r: Option<(u64, bool)>)
        ensures
            r == neoforge_build(build@),
    {
        let cs = char_vec(build);
        let n = leading_digits(cs.as_slice());
        if n < cs.len() && cs[n] != '-' {
            return None;
        }
        let digits = chars_range(cs.as_slice(), 0, n);
        match parse_u64(digits.as_slice()) {
            Some(x) => Some((x, n == cs.len())),
            None => None,
        }
    }

    /// The build of `version` under the first of `prefixes` that yields one.
    fn version_key(version: &str, prefixes: &Vec<String>) -> (r: Option<(u64, bool)>)
        ensures
            r == neoforge_key(version@, strings_view(prefixes@)),
    {
        let ghost ps = strings_view(prefixes@);
        let cs = char_vec(version);
        let mut j: usize = 0;
        assert(ps.subrange(0, ps.len() as int) =~= ps);
        while j < prefixes.len()
            invariant
                ps == strings_view(prefixes@),
                cs@ == version@,
                j <= prefixes@.len(),
                neoforge_key(version@, ps) == neoforge_key(
                    version@,
                    ps.subrange(j as int, ps.len() as int),
                ),
            decreases prefixes@.len() - j,
        {
            let ghost rest = ps.subrange(j as int, ps.len() as int);
            assert(rest[0] == prefixes@[j as int]@);
            assert(rest.drop_first() =~= ps.subrange(j + 1, ps.len() as int));
            let p = prefixes[j].as_str();
            let pl = char_vec(p).len();
            if starts_with(version, p) && cs.len() > pl && cs[pl] == '.' {
                let b = string_of_range(cs.as_slice(), pl + 1, cs.len());
                let k = Self::parse_version(b.as_str());
                if k.is_some() {
                    return k;
                }
            }
            j = j + 1;
        }
        None
    }

    /// The release to use for `game_version`: among the versions under one of its
    /// prefixes, a stable one before a pre-release, then the highest build; the
    /// last one listed among equals.
    pub fn select_neoforge_version(versions: &[String], game_version: &str) -> (r: Option<String>)
        ensures
            match select_neoforge(strings_view(versions@), neoforge_prefixes(game_version@)) {
                Some(best) => r matches Some(v) && v@ == best.1,
                None => r is None,
            },
    {
        let prefixes = Self::get_version_prefixes(game_version);
        let ghost ps = neoforge_prefixes(game_version@);
        let ghost vs = strings_view(versions@);
        let mut best: Option<((u64, bool), usize)> = None;
        let mut i: usize = 0;
        while i < versions.len()
            invariant
                strings_view(prefixes@) == ps,
                vs == strings_view(versions@),
                i <= versions@.len(),
                match select_neoforge(vs.subrange(0, i as int), ps) {
                    Some(s) => best matches Some(b) && b.0 == s.0 && b.1 < i && vs[b.1 as int] == s.1,
                    None => best is None,
                },
            decreases versions@.len() - i,
        {
            let ghost nxt = vs.subrange(0, i + 1);
            assert(nxt.drop_last() =~= vs.subrange(0, i as int));
            assert(nxt.last() == versions@[i as int]@);
            match Self::version_key(versions[i].as_str(), &prefixes) {
                None => {},
                Some(k) => {
                    match best {
                        None => {
                            best = Some((k, i));
                        },
                        Some(b) => {
                            let le = (!b.0.1 && k.1) || (b.0.1 == k.1 && b.0.0 <= k.0);
                            if le {
                                best = Some((k, i));
                            }
                        },
                    }
                },
            }
            i = i + 1;
        }
        assert(vs.subrange(0, versions@.len() as int) =~= vs);
        match best {
            Some(b) => Some(versions[b.1].clone()),
            None => None,
        }
    }
}

// ----- Forge -----

/// Each part read as a number, or nothing if one is not.
pub open spec fn parse_all_u64(parts: Seq<Seq<char>>) -> Option<Seq<u64>>
    decreases parts.len(),
{
    if parts.len() == 0 {
        Some(Seq::empty())
    } else {
        match spec_parse_u64(parts.last()) {
            None => None,
            Some(n) => match parse_all_u64(parts.drop_last()) {
                Some(p) => Some(p.push(n)),
                None => None,
            },
        }
    }
}

/// A Forge release for `gv` is `gv-BUILD` or `gv-BUILD-BRANCH`, BUILD made of
/// dot-separated numbers; its rank is the build and whether it has no branch.
pub open spec fn forge_key(v: Seq<char>, gv: Seq<char>) -> Option<(Seq<u64>, bool)> {
    if has_prefix(v, gv) && v.len() > gv.len() && v[gv.len() as int] == '-' {
        let rest = v.subrange(gv.len() as int + 1, v.len() as int);
        let (build, branch) = match first_index_of(rest, '-') {
            Some(i) => (rest.subrange(0, i), rest.subrange(i + 1, rest.len() as int)),
            None => (rest, Seq::<char>::empty()),
        };
        match parse_all_u64(split_on(build, '.')) {
            Some(ns) => Some((ns, branch.len() == 0)),
            None => None,
        }
    } else {
        None
    }
}

/// Higher builds rank above lower ones; then a release without a branch above one with.
pub open spec fn forge_le(a: (Seq<u64>, bool), b: (Seq<u64>, bool)) -> bool {
    lex_lt(a.0, b.0) || (a.0 == b.0 && (!a.1 || b.1))
}

pub open spec fn select_forge(vs: Seq<Seq<char>>, gv: Seq<char>) -> Option<
    ((Seq<u64>, bool), Seq<char>),
>
    decreases vs.len(),
{
    if vs.len() == 0 {
        None
    } else {
        let prev = select_forge(vs.drop_last(), gv);
        match forge_key(vs.last(), gv) {
            None => prev,
            Some(k) => match prev {
                None => Some((k, vs.last())),
                Some(p) => if forge_le(p.0, k) {
                    Some((k, vs.last()))
                } else {
                    prev
                },
            },
        }
    }
}

/// Mod loader of the game versions before 1.20.2.
pub struct Forge;

fn parse_all(parts: &Vec<Vec<char>>) -> (r: Option<Vec<u64>>)
    ensures
        match parse_all_u64(chars_views(parts@)) {
            Some(ns) => r matches Some(v) && v@ == ns,
            None => r is None,
        },
{
    let ghost pv = chars_views(parts@);
    let mut out: Vec<u64> = Vec::new();
    let mut i: usize = 0;
    assert(pv.subrange(0, 0) =~= Seq::<Seq<char>>::empty());
    while i < parts.len()
        invariant
            pv == chars_views(parts@),
            i <= parts@.len(),
            parse_all_u64(pv.subrange(0, i as int)) == Some(out@),
        decreases parts@.len() - i,
    {
        let ghost nxt = pv.subrange(0, i + 1);
        assert(nxt.drop_last() =~= pv.subrange(0, i as int));
        assert(nxt.last() == parts@[i as int]@);
        match parse_u64(parts[i].as_slice()) {
            None => {
                proof {
                    lemma_parse_all_none(pv, i + 1);
                }
                return None;
            },
            Some(n) => {
                out.push(n);
            },
        }
        i = i + 1;
    }
    assert(pv.subrange(0, parts@.len() as int) =~= pv);
    Some(out)
}

proof fn lemma_parse_all_none(pv: Seq<Seq<char>>, n: int)
    requires
        0 <= n <= pv.len(),
        parse_all_u64(pv.subrange(0, n)) is None,
    ensures
        parse_all_u64(pv) is None,
    decreases pv.len() - n,
{
    if n < pv.len() {
        assert(pv.subrange(0, n + 1).drop_last() =~= pv.subrange(0, n));
        lemma_parse_all_none(pv, n + 1);
    } else {
        assert(pv.subrange(0, n) =~= pv);
    }
}

impl Forge {
    /// The rank of a Forge release for `game_version`.
    pub fn parse_version(version: &str, game_version: &str) -> (r: Option<(Vec<u64>, bool)>)
        ensures
            match forge_key(version@, game_version@) {
                Some(k) => r matches Some(x) && x.0@ == k.0 && x.1 == k.1,
                None => r is None,
            },
    {
        let cs = char_vec(version);
        let gl = char_vec(game_version).len();
        if !(starts_with(version, game_version) && cs.len() > gl && cs[gl] == '-') {
            return None;
        }
        let rest = chars_range(cs.as_slice(), gl + 1, cs.len());
        proof {
            lemma_first_index_of_facts(rest@, '-');
        }
        let (build, plain) = match find_char(rest.as_slice(), '-') {
            Some(i) => (chars_range(rest.as_slice(), 0, i), i + 1 == rest.len()),
            None => (chars_range(rest.as_slice(), 0, rest.len()), true),
        };
        let ghost rv = version@.subrange(game_version@.len() as int + 1, version@.len() as int);
        assert(rest@ == rv);
        let ghost sb = match first_index_of(rv, '-') {
            Some(i) => rv.subrange(0, i),
            None => rv,
        };
        let ghost sbr = match first_index_of(rv, '-') {
            Some(i) => rv.subrange(i + 1, rv.len() as int),
            None => Seq::<char>::empty(),
        };
        assert(build@ == sb);
        assert(plain == (sbr.len() == 0));
        let parts = split_chars(build.as_slice(), '.');
        match parse_all(&parts) {
            Some(ns) => Some((ns, plain)),
            None => None,
        }
    }

    /// The release to use for `game_version`: the highest build, a release without a
    /// branch before one with; the last one listed among equals.
    pub fn select_version(versions: &[String], game_version: &str) -> (r: Option<String>)
        ensures
            match select_forge(strings_view(versions@), game_version@) {
                Some(best) => r matches Some(v) && v@ == best.1,
                None => r is None,
            },
    {
        let ghost vs = strings_view(versions@);
        let mut best: Option<((Vec<u64>, bool), usize)> = None;
        let mut i: usize = 0;
        while i < versions.len()
            invariant
                vs == strings_view(versions@),
                i <= versions@.len(),
                match select_forge(vs.subrange(0, i as int), game_version@) {
                    Some(s) => best matches Some(b) && b.0.0@ == s.0.0 && b.0.1 == s.0.1 && b.1 < i
                        && vs[b.1 as int] == s.1,
                    None => best is None,
                },
            decreases versions@.len() - i,
        {
            let ghost nxt = vs.subrange(0, i + 1);
            assert(nxt.drop_last() =~= vs.subrange(0, i as int));
            assert(nxt.last() == versions@[i as int]@);
            match Self::parse_version(versions[i].as_str(), game_version) {
                None => {},
                Some(k) => {
                    let replace = match &best {
                        None => true,
                        Some(b) => {
                            let lt = lex_less(b.0.0.as_slice(), k.0.as_slice());
                            let gt = lex_less(k.0.as_slice(), b.0.0.as_slice());
                            proof {
                                lemma_lex_eq(b.0.0@, k.0@);
                            }
                            lt || (!gt && (!b.0.1 || k.1))
                        },
                    };
                    if replace {
                        best = Some((k, i));
                    }
                },
            }
            i = i + 1;
        }
        assert(vs.subrange(0, versions@.len() as int) =~= vs);
        match best {
            Some(b) => Some(versions[b.1].clone()),
            None => None,
        }
    }
}

/// Two component sequences neither of which is below the other are equal.
pub proof fn lemma_lex_eq(a: Seq<u64>, b: Seq<u64>)
    ensures
        (!lex_lt(a, b) && !lex_lt(b, a)) <==> a == b,
    decreases a.len(),
{
    if a.len() > 0 && b.len() > 0 && a[0] == b[0] {
        lemma_lex_eq(a.drop_first(), b.drop_first());
        if a.drop_first() == b.drop_first() {
            assert(a =~= seq![a[0]] + a.drop_first());
            assert(b =~= seq![b[0]] + b.drop_first());
        }
        if a == b {
            assert(a.drop_first() == b.drop_first());
        }
    } else if a.len() == 0 && b.len() == 0 {
        assert(a =~= b);
    }
    if a == b {
        lemma_lex_irreflexive(a);
    }
}

pub proof fn lemma_lex_irreflexive(a: Seq<u64>)
    ensures
        !lex_lt(a, a),
    decreases a.len(),
{
    if a.len() > 0 {
        lemma_lex_irreflexive(a.drop_first());
    }
}

pub proof fn lemma_lex_transitive(a: Seq<u64>, b: Seq<u64>, c: Seq<u64>)
    requires
        lex_lt(a, b),
        lex_lt(b, c),
    ensures
        lex_lt(a, c),
    decreases a.len(),
{
    if a.len() > 0 && b.len() > 0 && c.len() > 0 && a[0] == b[0] && b[0] == c[0] {
        lemma_lex_transitive(a.drop_first(), b.drop_first(), c.drop_first());
    }
}

/// Law: the NeoForge release chosen is one of the candidates, ranked at least as
/// high as every candidate; when none is chosen, no version is a candidate.
pub proof fn lemma_select_neoforge_best(vs: Seq<Seq<char>>, ps: Seq<Seq<char>>)
    ensures
        match select_neoforge(vs, ps) {
            Some(best) => neoforge_key(best.1, ps) == Some(best.0) && vs.contains(best.1) && forall|
                i: int,
            |
                0 <= i < vs.len() && #[trigger] neoforge_key(vs[i], ps) is Some ==> neoforge_le(
                    neoforge_key(vs[i], ps)->0,
                    best.0,
                ),
            None => forall|i: int| 0 <= i < vs.len() ==> #[trigger] neoforge_key(vs[i], ps) is None,
        },
    decreases vs.len(),
{
    if vs.len() > 0 {
        let init = vs.drop_last();
        let last = vs.last();
        lemma_select_neoforge_best(init, ps);
        assert forall|i: int| 0 <= i < init.len() implies #[trigger] init[i] == vs[i] by {}
        assert(vs[vs.len() - 1] == last);
        let prev = select_neoforge(init, ps);
        if prev is Some {
            let p = prev->0;
            assert(vs.contains(p.1)) by {
                let w = choose|w: int| 0 <= w < init.len() && init[w] == p.1;
                assert(vs[w] == p.1);
            }
        }
        assert(vs.contains(last)) by {
            assert(vs[vs.len() - 1] == last);
        }
        match neoforge_key(last, ps) {
            None => {
                assert(select_neoforge(vs, ps) == prev);
                match prev {
                    Some(p) => {
                        assert forall|i: int|
                            0 <= i < vs.len() && #[trigger] neoforge_key(vs[i], ps) is Some implies neoforge_le(
                            neoforge_key(vs[i], ps)->0,
                            p.0,
                        ) by {
                            assert(i < vs.len() - 1);
                            assert(neoforge_key(init[i], ps) is Some);
                        }
                    },
                    None => {
                        assert forall|i: int| 0 <= i < vs.len() implies #[trigger] neoforge_key(
                            vs[i],
                            ps,
                        ) is None by {
                            if i < vs.len() - 1 {
                                assert(neoforge_key(init[i], ps) is None);
                            }
                        }
                    },
                }
            },
            Some(k) => {
                match prev {
                    None => {
                        assert(select_neoforge(vs, ps) == Some((k, last)));
                        assert forall|i: int|
                            0 <= i < vs.len() && #[trigger] neoforge_key(vs[i], ps) is Some implies neoforge_le(
                            neoforge_key(vs[i], ps)->0,
                            k,
                        ) by {
                            if i < vs.len() - 1 {
                                assert(neoforge_key(init[i], ps) is None);
                            }
                        }
                    },
                    Some(p) => {
                        if neoforge_le(p.0, k) {
                            assert(select_neoforge(vs, ps) == Some((k, last)));
                            assert forall|i: int|
                                0 <= i < vs.len() && #[trigger] neoforge_key(vs[i], ps) is Some implies neoforge_le(
                                neoforge_key(vs[i], ps)->0,
                                k,
                            ) by {
                                if i < vs.len() - 1 {
                                    assert(neoforge_key(init[i], ps) is Some);
                                    assert(neoforge_le(neoforge_key(init[i], ps)->0, p.0));
                                }
                            }
                        } else {
                            assert(select_neoforge(vs, ps) == prev);
                            assert forall|i: int|
                                0 <= i < vs.len() && #[trigger] neoforge_key(vs[i], ps) is Some implies neoforge_le(
                                neoforge_key(vs[i], ps)->0,
                                p.0,
                            ) by {
                                if i < vs.len() - 1 {
                                    assert(neoforge_key(init[i], ps) is Some);
                                }
                            }
                        }
                    },
                }
            },
        }
    }
}

/// Law: the Forge release chosen is one of the candidates, ranked at least as high
/// as every candidate; when none is chosen, no version is a candidate.
pub proof fn lemma_select_forge_best(vs: Seq<Seq<char>>, gv: Seq<char>)
    ensures
        match select_forge(vs, gv) {
            Some(best) => forge_key(best.1, gv) == Some(best.0) && vs.contains(best.1) && forall|
                i: int,
            |
                0 <= i < vs.len() && #[trigger] forge_key(vs[i], gv) is Some ==> forge_le(
                    forge_key(vs[i], gv)->0,
                    best.0,
                ),
            None => forall|i: int| 0 <= i < vs.len() ==> #[trigger] forge_key(vs[i], gv) is None,
        },
    decreases vs.len(),
{
    if vs.len() > 0 {
        let init = vs.drop_last();
        let last = vs.last();
        lemma_select_forge_best(init, gv);
        assert forall|i: int| 0 <= i < init.len() implies #[trigger] init[i] == vs[i] by {}
        assert(vs[vs.len() - 1] == last);
        let prev = select_forge(init, gv);
        if prev is Some {
            let p = prev->0;
            assert(vs.contains(p.1)) by {
                let w = choose|w: int| 0 <= w < init.len() && init[w] == p.1;
                assert(vs[w] == p.1);
            }
        }
        assert(vs.contains(last)) by {
            assert(vs[vs.len() - 1] == last);
        }
        match forge_key(last, gv) {
            None => {
                assert(select_forge(vs, gv) == prev);
                match prev {
                    Some(p) => {
                        assert forall|i: int|
                            0 <= i < vs.len() && #[trigger] forge_key(vs[i], gv) is Some implies forge_le(
                            forge_key(vs[i], gv)->0,
                            p.0,
                        ) by {
                            assert(i < vs.len() - 1);
                            assert(forge_key(init[i], gv) is Some);
                        }
                    },
                    None => {
                        assert forall|i: int| 0 <= i < vs.len() implies #[trigger] forge_key(
                            vs[i],
                            gv,
                        ) is None by {
                            if i < vs.len() - 1 {
                                assert(forge_key(init[i], gv) is None);
                            }
                        }
                    },
                }
            },
            Some(k) => {
                lemma_lex_irreflexive(k.0);
                match prev {
                    None => {
                        assert(select_forge(vs, gv) == Some((k, last)));
                        assert forall|i: int|
                            0 <= i < vs.len() && #[trigger] forge_key(vs[i], gv) is Some implies forge_le(
                            forge_key(vs[i], gv)->0,
                            k,
                        ) by {
                            if i < vs.len() - 1 {
                                assert(forge_key(init[i], gv) is None);
                            }
                        }
                    },
                    Some(p) => {
                        lemma_lex_eq(p.0.0, k.0);
                        if forge_le(p.0, k) {
                            assert(select_forge(vs, gv) == Some((k, last)));
                            assert forall|i: int|
                                0 <= i < vs.len() && #[trigger] forge_key(vs[i], gv) is Some implies forge_le(
                                forge_key(vs[i], gv)->0,
                                k,
                            ) by {
                                if i < vs.len() - 1 {
                                    let q = forge_key(vs[i], gv)->0;
                                    assert(forge_key(init[i], gv) is Some);
                                    assert(forge_le(q, p.0));
                                    if lex_lt(q.0, p.0.0) && lex_lt(p.0.0, k.0) {
                                        lemma_lex_transitive(q.0, p.0.0, k.0);
                                    }
                                }
                            }
                        } else {
                            assert(select_forge(vs, gv) == prev);
                            assert(forge_le(k, p.0));
                            assert forall|i: int|
                                0 <= i < vs.len() && #[trigger] forge_key(vs[i], gv) is Some implies forge_le(
                                forge_key(vs[i], gv)->0,
                                p.0,
                            ) by {
                                if i < vs.len() - 1 {
                                    assert(forge_key(init[i], gv) is Some);
                                }
                            }
                        }
                    },
                }
            },
        }
    }
}

// ----- choosing a loader -----

/// The loaders, in the order they are asked whether they serve a version.
#[derive(Debug, Clone, Copy, PartialEq, Eq, Structural)]
pub enum LoaderKind {
    NeoForge,
    Forge,
}

/// Whether `kind` serves a version with components `c`.
pub open spec fn loader_supports(kind: LoaderKind, c: Seq<u64>) -> bool {
    match kind {
        LoaderKind::NeoForge => !lex_lt(c, neoforge_min_game_version()),
        LoaderKind::Forge => lex_lt(c, neoforge_min_game_version()),
    }
}

/// The loader for a version: none for an unnumbered one, else the first that serves it.
pub open spec fn spec_loader_for(c: Seq<u64>) -> Option<LoaderKind> {
    if c.len() < 2 {
        None
    } else if loader_supports(LoaderKind::NeoForge, c) {
        Some(LoaderKind::NeoForge)
    } else if loader_supports(LoaderKind::Forge, c) {
        Some(LoaderKind::Forge)
    } else {
        None
    }
}

pub open spec fn loader_id(k: LoaderKind) -> Seq<char> {
    match k {
        LoaderKind::NeoForge => "neoforge"@,
        LoaderKind::Forge => "forge"@,
    }
}

pub open spec fn loader_repository(k: LoaderKind) -> Seq<char> {
    match k {
        LoaderKind::NeoForge => "https://maven.neoforged.net/releases"@,
        LoaderKind::Forge => "https://maven.minecraftforge.net/releases"@,
    }
}

pub open spec fn loader_group(k: LoaderKind) -> Seq<char> {
    match k {
        LoaderKind::NeoForge => "net/neoforged"@,
        LoaderKind::Forge => "net/minecraftforge"@,
    }
}

fn neoforge_min() -> (r: Vec<u64>)
    ensures
        r@ == neoforge_min_game_version(),
{
    let mut v: Vec<u64> = Vec::new();
    v.push(1);
    v.push(20);
    v.push(2);
    assert(v@ =~= neoforge_min_game_version());
    v
}

impl LoaderKind {
    pub fn id(&self) -> (r: &'static str)
        ensures
            r@ == loader_id(*self),
    {
        match self {
            LoaderKind::NeoForge => "neoforge",
            LoaderKind::Forge => "forge",
        }
    }

    pub fn supports(&self, game_version: &GameVersion) -> (r: bool)
        ensures
            r == loader_supports(*self, game_version@.1),
    {
        let min = neoforge_min();
        match self {
            LoaderKind::NeoForge => game_version.at_least(min.as_slice()),
            LoaderKind::Forge => !game_version.at_least(min.as_slice()),
        }
    }

    pub fn artifact(&self) -> (r: MavenArtifact)
        ensures
            r.repository@ == loader_repository(*self),
            r.group@ == loader_group(*self),
            r.name@ == loader_id(*self),
    {
        match self {
            LoaderKind::NeoForge => neoforge_artifact(),
            LoaderKind::Forge => forge_artifact(),
        }
    }

    /// The release of this loader to use for `game_version`, among `versions`.
    pub fn select_version(&self, versions: &[String], game_version: &GameVersion) -> (r: Option<
        String,
    >)
        ensures
            match self {
                LoaderKind::NeoForge => match select_neoforge(
                    strings_view(versions@),
                    neoforge_prefixes(game_version@.0),
                ) {
                    Some(best) => r matches Some(v) && v@ == best.1,
                    None => r is None,
                },
                LoaderKind::Forge => match select_forge(strings_view(versions@), game_version@.0) {
                    Some(best) => r matches Some(v) && v@ == best.1,
                    None => r is None,
                },
            },
    {
        match self {
            LoaderKind::NeoForge => NeoForge::select_neoforge_version(
                versions,
                game_version.as_str(),
            ),
            LoaderKind::Forge => Forge::select_version(versions, game_version.as_str()),
        }
    }

    pub fn metadata_url(&self) -> (r: String)
        ensures
            r@ == metadata_url_of(loader_repository(*self), loader_group(*self), loader_id(*self)),
    {
        self.artifact().metadata_url()
    }

    pub fn jar_url(&self, loader_version: &str) -> (r: String)
        ensures
            r@ == jar_url_of(
                loader_repository(*self),
                loader_group(*self),
                loader_id(*self),
                loader_version@,
                JAR_CLASSIFIER@,
            ),
    {
        self.artifact().jar_url(loader_version, JAR_CLASSIFIER)
    }

    /// Where the game jar lists its items for the versions this loader serves.
    pub fn items_listing_dir(&self) -> (r: &'static str)
        ensures
            r@ == match self {
                LoaderKind::NeoForge => ITEMS_DIR@,
                LoaderKind::Forge => ITEM_MODELS_DIR@,
            },
    {
        match self {
            LoaderKind::NeoForge => ITEMS_DIR,
            LoaderKind::Forge => ITEM_MODELS_DIR,
        }
    }
}

/// What each mod loader offers: its releases, the game versions it serves, and
/// where the game jar lists items for those versions.
pub trait ModLoader {
    fn kind(&self) -> LoaderKind;
}

impl ModLoader for NeoForge {
    fn kind(&self) -> (r: LoaderKind)
        ensures
            r == LoaderKind::NeoForge,
    {
        LoaderKind::NeoForge
    }
}

impl ModLoader for Forge {
    fn kind(&self) -> (r: LoaderKind)
        ensures
            r == LoaderKind::Forge,
    {
        LoaderKind::Forge
    }
}

/// The loader that serves `game_version`, if it is numbered.
pub fn loader_for(game_version: &GameVersion) -> (r: Option<LoaderKind>)
    ensures
        r == spec_loader_for(game_version@.1),
{
    if !game_version.is_numbered() {
        return None;
    }
    if LoaderKind::NeoForge.supports(game_version) {
        Some(LoaderKind::NeoForge)
    } else if LoaderKind::Forge.supports(game_version) {
        Some(LoaderKind::Forge)
    } else {
        None
    }
}

/// Law: every numbered version is served by exactly one loader, the one `loader_for` names.
pub proof fn lemma_one_loader(c: Seq<u64>)
    requires
        c.len() >= 2,
    ensures
        spec_loader_for(c) is Some,
        loader_supports(spec_loader_for(c)->0, c),
        forall|k: LoaderKind| #[trigger] loader_supports(k, c) ==> k == spec_loader_for(c)->0,
{
}

} // verus!
