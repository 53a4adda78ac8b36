//! The front matter block of a page: the lines between a first line `---` and the
//! next line `---` (trailing whitespace ignored on both).
use vstd::prelude::*;
use crate::markdown::trim_end_ws;
use crate::recipe::is_whitespace_char;
use crate::text::{char_vec, chars_views, push_char, push_str, split_chars, split_on, string_of};

verus! {

/// Why a front matter block could not be read.
#[derive(Debug)]
pub enum FrontmatterError {
    Io(String),
    NoClosingDelimiter,
    Yaml { message: String, line: usize, column: usize },
}

/// What a page's front matter declares.
#[derive(Debug, Clone, PartialEq, Eq)]
pub struct Frontmatter {
    pub id: String,
    pub title: String,
    pub icon: Option<String>,
}

impl Frontmatter {
    /// The front matter of the fields read from the block (absent ones empty).
    pub fn from_parts(id: Option<String>, title: Option<String>, icon: Option<String>) -> (r: Frontmatter)
        ensures
            r.id@ == match id {
                Some(x) => x@,
                None => Seq::<char>::empty(),
            },
            r.title@ == match title {
                Some(x) => x@,
                None => Seq::<char>::empty(),
            },
            r.icon == icon,
    {
        Frontmatter {
            id: match id {
                Some(x) => x,
                None => String::new(),
            },
            title: match title {
                Some(x) => x,
                None => String::new(),
            },
            icon,
        }
    }
}

/// A line without the `\r` of its `\r\n` ending.
pub open spec fn strip_cr(p: Seq<char>) -> Seq<char> {
    if p.len() > 0 && p.last() == '\r' {
        p.drop_last()
    } else {
        p
    }
}

/// The lines of a text (`str::lines`): split at `\n`, a `\r` before it dropped; a
/// final empty piece (after a last line ending) is no line.
pub open spec fn text_lines(s: Seq<char>) -> Seq<Seq<char>> {
    let pieces = split_on(s, '\n');
    let n = pieces.len() as int;
    let ended = pieces.subrange(0, n - 1).map_values(|p: Seq<char>| strip_cr(p));
    if pieces[n - 1].len() == 0 {
        ended
    } else {
        ended.push(pieces[n - 1])
    }
}

pub open spec fn is_delimiter(line: Seq<char>) -> bool {
    trim_end_ws(line) == "---"@
}

/// Index of the first delimiter line of `lines`.
pub open spec fn closing_index(lines: Seq<Seq<char>>) -> Option<int>
    decreases lines.len(),
{
    if lines.len() == 0 {
        None
    } else if is_delimiter(lines[0]) {
        Some(0)
    } else {
        match closing_index(lines.drop_first()) {
            Some(k) => Some(k + 1),
            None => None,
        }
    }
}

/// The lines, each followed by `\n`.
pub open spec fn joined_lines(lines: Seq<Seq<char>>) -> Seq<char>
    decreases lines.len(),
{
    if lines.len() == 0 {
        Seq::empty()
    } else {
        joined_lines(lines.drop_last()) + lines.last() + seq!['\n']
    }
}

/// The block of a page: `None` when it does not open with a delimiter line; the
/// lines up to the closing delimiter otherwise; `Err` when none closes it.
pub open spec fn spec_frontmatter_block(content: Seq<char>) -> Result<Option<Seq<char>>, ()> {
    let lines = text_lines(content);
    if lines.len() == 0 || !is_delimiter(lines[0]) {
        Ok(None)
    } else {
        match closing_index(lines.drop_first()) {
            Some(k) => Ok(Some(joined_lines(lines.drop_first().subrange(0, k)))),
            None => Err(()),
        }
    }
}

fn strip_cr_vec(p: &Vec<char>) -> (r: Vec<char>)
    ensures
        r@ == strip_cr(p@),
{
    let n = if p.len() > 0 && p[p.len() - 1] == '\r' { p.len() - 1 } else { p.len() };
    crate::text::chars_range(p.as_slice(), 0, n)
}

/// The lines of `s`.
pub fn lines_of(s: &str) -> (r: Vec<Vec<char>>)
    ensures
        chars_views(r@) == text_lines(s@),
{
    let cs = char_vec(s);
    let pieces = split_chars(cs.as_slice(), '\n');
    proof {
        crate::paths::lemma_split_nonempty(s@, '\n');
    }
    let ghost pv = chars_views(pieces@);
    let n = pieces.len();
    let mut out: Vec<Vec<char>> = Vec::new();
    let mut i: usize = 0;
    assert(chars_views(out@) =~= pv.subrange(0, 0).map_values(|p: Seq<char>| strip_cr(p)));
    while i < n - 1
        invariant
            n == pieces@.len(),
            n >= 1,
            pv == chars_views(pieces@),
            i <= n - 1,
            chars_views(out@) == pv.subrange(0, i as int).map_values(|p: Seq<char>| strip_cr(p)),
        decreases n - 1 - i,
    {
        let ghost prev = chars_views(out@);
        let l = strip_cr_vec(&pieces[i]);
        out.push(l);
        assert(chars_views(out@) =~= prev.push(strip_cr(pv[i as int])));
        assert(pv.subrange(0, i + 1).map_values(|p: Seq<char>| strip_cr(p)) =~= pv.subrange(
            0,
            i as int,
        ).map_values(|p: Seq<char>| strip_cr(p)).push(strip_cr(pv[i as int])));
        i = i + 1;
    }
    if pieces[n - 1].len() > 0 {
        let ghost prev = chars_views(out@);
        let last = crate::text::chars_range(pieces[n - 1].as_slice(), 0, pieces[n - 1].len());
        assert(last@ =~= pv[n - 1]);
        out.push(last);
        assert(chars_views(out@) =~= prev.push(pv[n - 1]));
    }
    out
}

/// Whether a line is a delimiter: `---` once trailing whitespace is dropped.
fn delimiter_line(l: &Vec<char>) -> (r: bool)
    ensures
        r == is_delimiter(l@),
{
    let mut n: usize = l.len();
    assert(l@.subrange(0, l@.len() as int) =~= l@);
    while n > 0 && is_whitespace_char(l[n - 1])
        invariant
            n <= l@.len(),
            trim_end_ws(l@) == trim_end_ws(l@.subrange(0, n as int)),
        decreases n,
    {
        assert(l@.subrange(0, n as int).drop_last() =~= l@.subrange(0, n - 1));
        n = n - 1;
    }
    assert(trim_end_ws(l@.subrange(0, n as int)) == l@.subrange(0, n as int)) by {
        if n > 0 {
            assert(l@.subrange(0, n as int).last() == l@[n - 1]);
        }
    }
    proof {
        reveal_strlit("---");
    }
    let r = n == 3 && l[0] == '-' && l[1] == '-' && l[2] == '-';
    if r {
        assert(l@.subrange(0, 3) =~= "---"@);
    } else if n == 3 {
        assert(l@.subrange(0, 3) != "---"@) by {
            if l[0] != '-' {
                assert(l@.subrange(0, 3)[0] != "---"@[0]);
            } else if l[1] != '-' {
                assert(l@.subrange(0, 3)[1] != "---"@[1]);
            } else {
                assert(l@.subrange(0, 3)[2] != "---"@[2]);
            }
        }
    }
    r
}

/// The front matter block of a page's text.
pub fn frontmatter_block(content: &str) -> (r: Result<Option<String>, FrontmatterError>)
    ensures
        match spec_frontmatter_block(content@) {
            Ok(None) => r matches Ok(None),
            Ok(Some(b)) => r matches Ok(Some(x)) && x@ == b,
            Err(()) => r matches Err(FrontmatterError::NoClosingDelimiter),
        },
{
    let lines = lines_of(content);
    let ghost lv = chars_views(lines@);
    if lines.len() == 0 || !delimiter_line(&lines[0]) {
        return Ok(None);
    }
    let ghost rest = lv.drop_first();
    let mut body = String::new();
    let mut k: usize = 1;
    assert(rest.subrange(0, 0) =~= Seq::<Seq<char>>::empty());
    assert(rest.subrange(0, rest.len() as int) =~= rest);
    while k < lines.len()
        invariant
            lv == chars_views(lines@),
            lv == text_lines(content@),
            is_delimiter(lv[0]),
            rest == lv.drop_first(),
            lines@.len() >= 1,
            1 <= k <= lines@.len(),
            body@ == joined_lines(rest.subrange(0, k - 1)),
            closing_index(rest) == match closing_index(rest.subrange(k - 1, rest.len() as int)) {
                Some(j) => Some(j + (k - 1)),
                None => None,
            },
        decreases lines@.len() - k,
    {
        let ghost tail = rest.subrange(k - 1, rest.len() as int);
        assert(tail[0] == lv[k as int]);
        if delimiter_line(&lines[k]) {
            assert(closing_index(tail) == Some(0int));
            return Ok(Some(body));
        }
        assert(tail.drop_first() =~= rest.subrange(k as int, rest.len() as int));
        let ghost nxt = rest.subrange(0, k as int);
        assert(nxt.drop_last() =~= rest.subrange(0, k - 1));
        assert(nxt.last() == lv[k as int]);
        let piece = string_of(lines[k].as_slice());
        push_str(&mut body, piece.as_str());
        push_char(&mut body, '\n');
        k = k + 1;
    }
    assert(rest.subrange(k - 1, rest.len() as int).len() == 0);
    Err(FrontmatterError::NoClosingDelimiter)
}


// ----- the front matter of a content page -----

/// A character allowed in a page reference.
pub open spec fn ref_char(c: char) -> bool {
    ('a' <= c && c <= 'z') || ('0' <= c && c <= '9') || c == '_'
}

/// Whether a content page's front matter holds valid values: each id and the icon
/// are locations, and the reference is made of `a`-`z`, `0`-`9` and `_` (at least one).
pub open spec fn spec_valid_page_frontmatter(
    ids: Seq<Seq<char>>,
    page_ref: Option<Seq<char>>,
    icon: Option<Seq<char>>,
) -> bool {
    &&& forall|i: int| 0 <= i < ids.len() ==> crate::resloc::spec_parse_location(#[trigger] ids[i]) is Some
    &&& match page_ref {
        Some(r) => r.len() > 0 && forall|i: int| 0 <= i < r.len() ==> ref_char(#[trigger] r[i]),
        None => true,
    }
    &&& match icon {
        Some(x) => crate::resloc::spec_parse_location(x) is Some,
        None => true,
    }
}

/// Law: references made of lowercase letters and digits are valid, and valid
/// references joined by `_` make a valid reference (so snake_case names such as
/// `iron_gear` are references); a reference is valid only when it is not empty and
/// holds no other character (no upper case, `-`, `/`, `:` or `.`).
pub proof fn lemma_page_references(
    ids: Seq<Seq<char>>,
    a: Seq<char>,
    b: Seq<char>,
    icon: Option<Seq<char>>,
)
    requires
        spec_valid_page_frontmatter(ids, None, icon),
    ensures
        spec_valid_page_frontmatter(ids, Some(a), icon) && spec_valid_page_frontmatter(ids, Some(b), icon)
            ==> spec_valid_page_frontmatter(ids, Some(a + seq!['_'] + b), icon),
        a.len() > 0 && (forall|i: int| 0 <= i < a.len() ==> ('a' <= #[trigger] a[i] <= 'z') || ('0' <= a[i] <= '9'))
            ==> spec_valid_page_frontmatter(ids, Some(a), icon),
        spec_valid_page_frontmatter(ids, Some(a), icon) ==> a.len() > 0 && forall|i: int| 0 <= i < a.len()
            ==> #[trigger] a[i] != '-' && a[i] != '/' && a[i] != ':' && a[i] != '.' && !('A' <= a[i] <= 'Z'),
{
    let j = a + seq!['_'] + b;
    if spec_valid_page_frontmatter(ids, Some(a), icon) && spec_valid_page_frontmatter(ids, Some(b), icon) {
        assert forall|i: int| 0 <= i < j.len() implies ref_char(#[trigger] j[i]) by {
            if i < a.len() {
                assert(j[i] == a[i]);
            } else if i == a.len() {
                assert(j[i] == '_');
            } else {
                assert(j[i] == b[i - a.len() - 1]);
            }
        }
    }
    if a.len() > 0 && (forall|i: int| 0 <= i < a.len() ==> ('a' <= #[trigger] a[i] <= 'z') || ('0' <= a[i] <= '9')) {
        assert forall|i: int| 0 <= i < a.len() implies ref_char(#[trigger] a[i]) by {}
    }
}

pub fn valid_page_frontmatter(ids: &Vec<String>, page_ref: Option<&str>, icon: Option<&str>) -> (r: bool)
    ensures
        r == spec_valid_page_frontmatter(
            ids@.map_values(|s: String| s@),
            match page_ref {
                Some(p) => Some(p@),
                None => None,
            },
            match icon {
                Some(x) => Some(x@),
                None => None,
            },
        ),
{
    let ghost iv = ids@.map_values(|s: String| s@);
    let mut i: usize = 0;
    while i < ids.len()
        invariant
            i <= ids@.len(),
            iv == ids@.map_values(|s: String| s@),
            forall|j: int| 0 <= j < i ==> crate::resloc::spec_parse_location(#[trigger] iv[j]) is Some,
        decreases ids@.len() - i,
    {
        if crate::resloc::ResourceLocation::parse(ids[i].as_str()).is_none() {
            assert(crate::resloc::spec_parse_location(iv[i as int]) is None);
            return false;
        }
        i = i + 1;
    }
    match page_ref {
        Some(p) => {
            let cs = crate::text::char_vec(p);
            if cs.len() == 0 {
                return false;
            }
            let mut k: usize = 0;
            while k < cs.len()
                invariant
                    k <= cs@.len(),
                    cs@ == p@,
                    page_ref == Some(p),
                    forall|j: int| 0 <= j < k ==> ref_char(#[trigger] cs@[j]),
                decreases cs@.len() - k,
            {
                let c = cs[k];
                if !(('a' <= c && c <= 'z') || ('0' <= c && c <= '9') || c == '_') {
                    assert(!ref_char(p@[k as int]));
                    return false;
                }
                k = k + 1;
            }
        },
        None => {},
    }
    match icon {
        Some(x) => crate::resloc::ResourceLocation::parse(x).is_some(),
        None => true,
    }
}

// ----- a content page's infobox -----

/// A tab of an infobox: its name and the items it displays.
pub struct InfoboxTab {
    pub name: String,
    pub display: Vec<String>,
}

/// An infobox as a page's front matter writes it: a title, the items to display
/// (either as one list or as named tabs) and an inventory of items.
pub struct RawInfobox {
    pub title: Option<String>,
    pub display: Option<Vec<String>>,
    pub tabs: Option<Vec<InfoboxTab>>,
    pub inventory: Vec<String>,
}

/// An infobox as the wiki keeps it: the items to display always as tabs.
pub struct Infobox {
    pub title: Option<String>,
    pub tabs: Option<Vec<InfoboxTab>>,
    pub inventory: Vec<String>,
}

pub open spec fn strings_view(v: Seq<String>) -> Seq<Seq<char>> {
    v.map_values(|s: String| s@)
}

pub open spec fn tabs_view(v: Seq<InfoboxTab>) -> Seq<(Seq<char>, Seq<Seq<char>>)> {
    v.map_values(|t: InfoboxTab| (t.name@, strings_view(t.display@)))
}

pub open spec fn opt_tabs_view(v: Option<Vec<InfoboxTab>>) -> Option<Seq<(Seq<char>, Seq<Seq<char>>)>> {
    match v {
        Some(t) => Some(tabs_view(t@)),
        None => None,
    }
}

/// Whether each of `ids` is a location.
pub open spec fn all_locations(ids: Seq<Seq<char>>) -> bool {
    forall|i: int| 0 <= i < ids.len() ==> crate::resloc::spec_parse_location(#[trigger] ids[i]) is Some
}

/// Whether an infobox holds valid values: `display` and `tabs` are not both given,
/// and every displayed item and every inventory item is a location.
pub open spec fn spec_valid_infobox(ib: RawInfobox) -> bool {
    &&& !(ib.display is Some && ib.tabs is Some)
    &&& match ib.display {
        Some(d) => all_locations(strings_view(d@)),
        None => true,
    }
    &&& all_locations(strings_view(ib.inventory@))
}

fn all_locations_exec(ids: &Vec<String>) -> (r: bool)
    ensures
        r == all_locations(strings_view(ids@)),
{
    let ghost iv = strings_view(ids@);
    let mut i: usize = 0;
    while i < ids.len()
        invariant
            i <= ids@.len(),
            iv == strings_view(ids@),
            forall|j: int| 0 <= j < i ==> crate::resloc::spec_parse_location(#[trigger] iv[j]) is Some,
        decreases ids@.len() - i,
    {
        if crate::resloc::ResourceLocation::parse(ids[i].as_str()).is_none() {
            assert(crate::resloc::spec_parse_location(iv[i as int]) is None);
            return false;
        }
        i = i + 1;
    }
    true
}

/// Whether the infobox of a content page is valid (see `spec_valid_infobox`).
pub fn valid_infobox(ib: &RawInfobox) -> (r: bool)
    ensures
        r == spec_valid_infobox(*ib),
{
    if ib.display.is_some() && ib.tabs.is_some() {
        return false;
    }
    let shown = match &ib.display {
        Some(d) => all_locations_exec(d),
        None => true,
    };
    shown && all_locations_exec(&ib.inventory)
}

/// The infobox the wiki keeps for a valid one: a single list of items to display
/// becomes one tab with an empty name; title and inventory stay.
pub fn infobox_of(ib: RawInfobox) -> (r: Infobox)
    ensures
        r.title == ib.title,
        r.inventory@ == ib.inventory@,
        opt_tabs_view(r.tabs) == match ib.display {
            Some(d) => Some(seq![(Seq::<char>::empty(), strings_view(d@))]),
            None => opt_tabs_view(ib.tabs),
        },
{
    let tabs = match ib.display {
        Some(d) => {
            let ghost dv = strings_view(d@);
            let mut v: Vec<InfoboxTab> = Vec::new();
            v.push(InfoboxTab { name: String::new(), display: d });
            assert(tabs_view(v@) =~= seq![(Seq::<char>::empty(), dv)]);
            Some(v)
        },
        None => ib.tabs,
    };
    Infobox { title: ib.title, tabs, inventory: ib.inventory }
}

} // verus!
