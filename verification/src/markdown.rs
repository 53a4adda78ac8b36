//! The parts of a Markdown document's syntax tree that the wiki reads: links,
//! text, headings and the YAML front matter block.
use vstd::prelude::*;
use crate::recipe::{is_whitespace, is_whitespace_char};
use crate::text::{char_vec, push_str, string_of_range};

verus! {

#[verifier::external_type_specification]
#[verifier::external_body]
pub struct ExMdastNode(markdown::mdast::Node);

/// What a node of the tree is, as far as the wiki cares.
pub enum MdKind {
    Link(String),
    Text(String),
    Heading(u8),
    Yaml(String),
    Other,
}

/// A node of a Markdown syntax tree and its children.
pub struct MdNode {
    pub kind: MdKind,
    pub children: Vec<MdNode>,
}

/// Why a page's Markdown could not be read.
#[derive(Debug)]
pub enum FrontmatterError {
    Io(String),
    Markdown(String),
    Yaml(String),
    Validate(String),
}

/// The URLs of the links in a tree, in document order.
pub open spec fn links_of(n: MdNode) -> Seq<Seq<char>>
    decreases n, 1int,
{
    let own = match n.kind {
        MdKind::Link(u) => seq![u@],
        _ => Seq::empty(),
    };
    own + links_of_all(n.children@)
}

pub open spec fn links_of_all(cs: Seq<MdNode>) -> Seq<Seq<char>>
    decreases cs, 0int,
{
    if cs.len() == 0 {
        Seq::empty()
    } else {
        links_of_all(cs.subrange(0, cs.len() - 1)) + links_of(cs[cs.len() - 1])
    }
}

/// The text of a tree: the values of its text nodes, in document order.
pub open spec fn text_of(n: MdNode) -> Seq<char>
    decreases n, 1int,
{
    let own = match n.kind {
        MdKind::Text(t) => t@,
        _ => Seq::empty(),
    };
    own + text_of_all(n.children@)
}

pub open spec fn text_of_all(cs: Seq<MdNode>) -> Seq<char>
    decreases cs, 0int,
{
    if cs.len() == 0 {
        Seq::empty()
    } else {
        text_of_all(cs.subrange(0, cs.len() - 1)) + text_of(cs[cs.len() - 1])
    }
}

fn visit(node: &MdNode, urls: &mut Vec<String>)
    ensures
        crate::loader::strings_view(final(urls)@) == crate::loader::strings_view(old(urls)@)
            + links_of(*node),
    decreases node, 1int,
{
    let ghost start = crate::loader::strings_view(urls@);
    match &node.kind {
        MdKind::Link(u) => {
            urls.push(u.clone());
        },
        _ => {},
    }
    let ghost mid = crate::loader::strings_view(urls@);
    assert(mid =~= start + match node.kind {
        MdKind::Link(u) => seq![u@],
        _ => Seq::<Seq<char>>::empty(),
    });
    let mut i: usize = 0;
    assert(node.children@.subrange(0, 0) =~= Seq::<MdNode>::empty());
    assert(mid + Seq::<Seq<char>>::empty() =~= mid);
    while i < node.children.len()
        invariant
            i <= node.children@.len(),
            crate::loader::strings_view(urls@) == mid + links_of_all(
                node.children@.subrange(0, i as int),
            ),
        decreases node.children@.len() - i,
    {
        let ghost nxt = node.children@.subrange(0, i + 1);
        assert(nxt.subrange(0, nxt.len() - 1) =~= node.children@.subrange(0, i as int));
        assert(nxt[nxt.len() - 1] == node.children@[i as int]);
        visit(&node.children[i], urls);
        i = i + 1;
    }
    assert(node.children@.subrange(0, node.children@.len() as int) =~= node.children@);
}

/// The URLs of all links of a tree.
pub fn collect_links(tree: &MdNode) -> (r: Vec<String>)
    ensures
        crate::loader::strings_view(r@) == links_of(*tree),
{
    let mut urls: Vec<String> = Vec::new();
    assert(crate::loader::strings_view(urls@) =~= Seq::<Seq<char>>::empty());
    visit(tree, &mut urls);
    assert(Seq::<Seq<char>>::empty() + links_of(*tree) =~= links_of(*tree));
    urls
}

/// Appends the text of a tree to `out`.
pub fn collect_text(node: &MdNode, out: &mut String)
    ensures
        final(out)@ == old(out)@ + text_of(*node),
    decreases node, 1int,
{
    let ghost start = out@;
    match &node.kind {
        MdKind::Text(t) => {
            push_str(out, t.as_str());
        },
        _ => {},
    }
    let ghost mid = out@;
    assert(mid =~= start + match node.kind {
        MdKind::Text(t) => t@,
        _ => Seq::<char>::empty(),
    });
    let mut i: usize = 0;
    assert(node.children@.subrange(0, 0) =~= Seq::<MdNode>::empty());
    assert(mid + Seq::<char>::empty() =~= mid);
    while i < node.children.len()
        invariant
            i <= node.children@.len(),
            out@ == mid + text_of_all(node.children@.subrange(0, i as int)),
        decreases node.children@.len() - i,
    {
        let ghost nxt = node.children@.subrange(0, i + 1);
        assert(nxt.subrange(0, nxt.len() - 1) =~= node.children@.subrange(0, i as int));
        assert(nxt[nxt.len() - 1] == node.children@[i as int]);
        collect_text(&node.children[i], out);
        i = i + 1;
    }
    assert(node.children@.subrange(0, node.children@.len() as int) =~= node.children@);
}

/// `s` without leading and trailing whitespace (`str::trim`).
pub open spec fn trim_ws(s: Seq<char>) -> Seq<char> {
    trim_end_ws(trim_start_ws(s))
}

pub open spec fn trim_start_ws(s: Seq<char>) -> Seq<char>
    decreases s.len(),
{
    if s.len() > 0 && is_whitespace(s[0]) {
        trim_start_ws(s.drop_first())
    } else {
        s
    }
}

pub open spec fn trim_end_ws(s: Seq<char>) -> Seq<char>
    decreases s.len(),
{
    if s.len() > 0 && is_whitespace(s.last()) {
        trim_end_ws(s.drop_last())
    } else {
        s
    }
}

/// `s` without trailing whitespace (`str::trim_end`).
pub fn trim_end(s: &str) -> (r: String)
    ensures
        r@ == trim_end_ws(s@),
{
    let x = char_vec(s);
    let mut n: usize = x.len();
    assert(x@.subrange(0, x@.len() as int) =~= x@);
    while n > 0 && is_whitespace_char(x[n - 1])
        invariant
            x@ == s@,
            n <= x@.len(),
            trim_end_ws(s@) == trim_end_ws(x@.subrange(0, n as int)),
        decreases n,
    {
        assert(x@.subrange(0, n as int).drop_last() =~= x@.subrange(0, n - 1));
        n = n - 1;
    }
    string_of_range(x.as_slice(), 0, n)
}

/// `s` without leading and trailing whitespace (`str::trim`).
pub fn trim(s: &str) -> (r: String)
    ensures
        r@ == trim_ws(s@),
{
    let x = char_vec(s);
    let mut i: usize = 0;
    assert(x@.subrange(0, x@.len() as int) =~= x@);
    while i < x.len() && is_whitespace_char(x[i])
        invariant
            x@ == s@,
            i <= x@.len(),
            trim_start_ws(s@) == trim_start_ws(x@.subrange(i as int, x@.len() as int)),
        decreases x@.len() - i,
    {
        assert(x@.subrange(i as int, x@.len() as int).drop_first() =~= x@.subrange(
            i + 1,
            x@.len() as int,
        ));
        i = i + 1;
    }
    let front = string_of_range(x.as_slice(), i, x.len());
    trim_end(front.as_str())
}

/// The title a page's first top-level heading gives: the first child of the root
/// that is a level-1 heading decides; its trimmed text, unless empty.
pub open spec fn spec_first_h1(children: Seq<MdNode>) -> Option<Seq<char>>
    decreases children.len(),
{
    if children.len() == 0 {
        None
    } else if children[0].kind matches MdKind::Heading(d) && d == 1 {
        let t = trim_ws(text_of(children[0]));
        if t.len() == 0 {
            None
        } else {
            Some(t)
        }
    } else {
        spec_first_h1(children.drop_first())
    }
}

pub fn first_h1(tree: &MdNode) -> (r: Option<String>)
    ensures
        crate::issues::opt_view(r) == spec_first_h1(tree.children@),
{
    let cs = &tree.children;
    let mut i: usize = 0;
    assert(cs@.subrange(0, cs@.len() as int) =~= cs@);
    while i < cs.len()
        invariant
            cs@ == tree.children@,
            i <= cs@.len(),
            spec_first_h1(cs@) == spec_first_h1(cs@.subrange(i as int, cs@.len() as int)),
        decreases cs@.len() - i,
    {
        let ghost rest = cs@.subrange(i as int, cs@.len() as int);
        assert(rest[0] == cs@[i as int]);
        assert(rest.drop_first() =~= cs@.subrange(i + 1, cs@.len() as int));
        let is_h1 = match &cs[i].kind {
            MdKind::Heading(d) => *d == 1,
            _ => false,
        };
        if is_h1 {
            let mut text = String::new();
            collect_text(&cs[i], &mut text);
            assert(text@ =~= text_of(cs@[i as int]));
            let t = trim(text.as_str());
            if t.as_str().is_empty() {
                return None;
            }
            return Some(t);
        }
        i = i + 1;
    }
    None
}

/// The YAML of the front matter block: the first such child of the root.
pub open spec fn spec_frontmatter_yaml(children: Seq<MdNode>) -> Option<Seq<char>>
    decreases children.len(),
{
    if children.len() == 0 {
        None
    } else {
        match children[0].kind {
            MdKind::Yaml(y) => Some(y@),
            _ => spec_frontmatter_yaml(children.drop_first()),
        }
    }
}

pub fn frontmatter_yaml(tree: &MdNode) -> (r: Option<String>)
    ensures
        crate::issues::opt_view(r) == spec_frontmatter_yaml(tree.children@),
{
    let cs = &tree.children;
    let mut i: usize = 0;
    assert(cs@.subrange(0, cs@.len() as int) =~= cs@);
    while i < cs.len()
        invariant
            cs@ == tree.children@,
            i <= cs@.len(),
            spec_frontmatter_yaml(cs@) == spec_frontmatter_yaml(
                cs@.subrange(i as int, cs@.len() as int),
            ),
        decreases cs@.len() - i,
    {
        let ghost rest = cs@.subrange(i as int, cs@.len() as int);
        assert(rest[0] == cs@[i as int]);
        assert(rest.drop_first() =~= cs@.subrange(i + 1, cs@.len() as int));
        match &cs[i].kind {
            MdKind::Yaml(y) => {
                return Some(y.clone());
            },
            _ => {},
        }
        i = i + 1;
    }
    None
}

/// The title of a page: the one its front matter gives, else that of its first
/// top-level heading (see `spec_first_h1`); none for a page that could not be read
/// (`tree` is `None`).
pub fn page_title(frontmatter_title: Option<String>, tree: Option<&MdNode>) -> (r: Option<String>)
    ensures
        crate::issues::opt_view(r) == match frontmatter_title {
            Some(t) => Some(t@),
            None => match tree {
                Some(t) => spec_first_h1(t.children@),
                None => None,
            },
        },
{
    match frontmatter_title {
        Some(t) => Some(t),
        None => match tree {
            Some(t) => first_h1(t),
            None => None,
        },
    }
}

/// The library's copy of a `markdown` syntax tree node: each node's kind (its link
/// URL, text, heading depth or front matter), and its children in order. It only
/// converts, and is used by `markdown_tree` alone.
#[verifier::external_body]
fn md_node_of(node: &markdown::mdast::Node) -> MdNode {
    let kind = match node {
        markdown::mdast::Node::Link(l) => MdKind::Link(l.url.clone()),
        markdown::mdast::Node::Text(t) => MdKind::Text(t.value.clone()),
        markdown::mdast::Node::Heading(h) => MdKind::Heading(h.depth),
        markdown::mdast::Node::Yaml(y) => MdKind::Yaml(y.value.clone()),
        _ => MdKind::Other,
    };
    let children = match node.children() {
        Some(cs) => cs.iter().map(md_node_of).collect(),
        None => Vec::new(),
    };
    MdNode { kind, children }
}

/// The syntax tree `markdown::to_mdast` gives `text` with front matter enabled, in
/// the library's copy (see `md_node_of`), or the parser's message.
pub uninterp spec fn markdown_syntax(text: Seq<char>) -> Result<MdNode, Seq<char>>;

/// `markdown::to_mdast` with front matter enabled: the syntax tree of `text`, or the
/// parser's message.
#[verifier::external_body]
fn markdown_tree(text: &str) -> (r: Result<MdNode, String>)
    ensures
        match markdown_syntax(text@) {
            Ok(n) => r matches Ok(t) && t == n,
            Err(m) => r matches Err(e) && e@ == m,
        },
{
    let mut options = markdown::ParseOptions::default();
    options.constructs = markdown::Constructs { frontmatter: true, ..markdown::Constructs::default() };
    match markdown::to_mdast(text, &options) {
        Ok(node) => Ok(md_node_of(&node)),
        Err(e) => Err(format!("{e}")),
    }
}

/// Parses a page's Markdown: its syntax tree, or the parser's message.
pub fn parse_mdast(text: &str) -> (r: Result<MdNode, FrontmatterError>)
    ensures
        match markdown_syntax(text@) {
            Ok(n) => r matches Ok(t) && t == n,
            Err(m) => r matches Err(FrontmatterError::Markdown(e)) && e@ == m,
        },
{
    match markdown_tree(text) {
        Ok(n) => Ok(n),
        Err(m) => Err(FrontmatterError::Markdown(m)),
    }
}

} // verus!
