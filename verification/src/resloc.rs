//! Namespaced identifiers of game content (`namespace:path`).
use vstd::prelude::*;
use crate::text::{char_vec, concat3, find_char, first_index_of, lemma_first_index_of_facts, owned, string_of_range, concat2};

verus! {

/// The namespace of identifiers that name none.
pub const DEFAULT_NAMESPACE: &'static str = "minecraft";

/// Namespaces whose content ships with the game or its loaders.
pub open spec fn builtin_namespaces() -> Seq<Seq<char>> {
    seq!["minecraft"@, "c"@, "neoforge"@, "fabric"@]
}

pub fn builtin_namespaces_vec() -> (r: Vec<String>)
    ensures
        r@.map_values(|s: String| s@) == builtin_namespaces(),
{
    let mut r: Vec<String> = Vec::new();
    r.push(owned("minecraft"));
    r.push(owned("c"));
    r.push(owned("neoforge"));
    r.push(owned("fabric"));
    assert(r@.map_values(|s: String| s@) =~= builtin_namespaces());
    r
}

/// A character allowed in a namespace.
pub open spec fn namespace_char(c: char) -> bool {
    ('a' <= c && c <= 'z') || ('0' <= c && c <= '9') || c == '_' || c == '-' || c == '.'
}

/// A character allowed in a path.
pub open spec fn path_char(c: char) -> bool {
    namespace_char(c) || c == '/'
}

pub open spec fn valid_namespace(s: Seq<char>) -> bool {
    s.len() > 0 && forall|i: int| 0 <= i < s.len() ==> namespace_char(#[trigger] s[i])
}

pub open spec fn valid_path(s: Seq<char>) -> bool {
    s.len() > 0 && forall|i: int| 0 <= i < s.len() ==> path_char(#[trigger] s[i])
}

/// The namespace and path that `s` names: the text before the first `:` (the
/// default namespace when that is empty or there is no `:`), and the rest.
pub open spec fn split_location(s: Seq<char>) -> (Seq<char>, Seq<char>) {
    match first_index_of(s, ':') {
        Some(i) => {
            let ns = s.subrange(0, i);
            (if ns.len() == 0 { DEFAULT_NAMESPACE@ } else { ns }, s.subrange(i + 1, s.len() as int))
        },
        None => (DEFAULT_NAMESPACE@, s),
    }
}

/// The location `s` names, when both parts are made of allowed characters.
pub open spec fn spec_parse_location(s: Seq<char>) -> Option<(Seq<char>, Seq<char>)> {
    let (ns, p) = split_location(s);
    if valid_namespace(ns) && valid_path(p) { Some((ns, p)) } else { None }
}

/// Text form of a location.
pub open spec fn location_text(ns: Seq<char>, p: Seq<char>) -> Seq<char> {
    ns + seq![':'] + p
}

/// A parsed `namespace:path` identifier.
#[derive(Debug, Clone, PartialEq, Eq)]
pub struct ResourceLocation {
    pub namespace: String,
    pub path: String,
}

impl View for ResourceLocation {
    type V = (Seq<char>, Seq<char>);

    open spec fn view(&self) -> (Seq<char>, Seq<char>) {
        (self.namespace@, self.path@)
    }
}

fn all_chars(cs: &[char], from: usize, to: usize, allow_slash: bool) -> (r: bool)
    requires
        from <= to <= cs@.len(),
    ensures
        r == forall|i: int|
            from <= i < to ==> if allow_slash {
                path_char(#[trigger] cs@[i])
            } else {
                namespace_char(cs@[i])
            },
{
    let mut i = from;
    while i < to
        invariant
            from <= i <= to <= cs@.len(),
            forall|j: int|
                from <= j < i ==> if allow_slash {
                    path_char(#[trigger] cs@[j])
                } else {
                    namespace_char(cs@[j])
                },
        decreases to - i,
    {
        let c = cs[i];
        let ok = ('a' <= c && c <= 'z') || ('0' <= c && c <= '9') || c == '_' || c == '-' || c
            == '.' || (allow_slash && c == '/');
        if !ok {
            return false;
        }
        i = i + 1;
    }
    true
}

impl ResourceLocation {
    /// Parses `namespace:path`, or a bare path in the default namespace.
    pub fn parse(s: &str) -> (r: Option<ResourceLocation>)
        ensures
            match r {
                Some(loc) => spec_parse_location(s@) == Some(loc@),
                None => spec_parse_location(s@) is None,
            },
    {
        let cs = char_vec(s);
        let n: usize = cs.len();
        proof {
            lemma_first_index_of_facts(s@, ':');
        }
        let (ns, p_from) = match find_char(cs.as_slice(), ':') {
            Some(i) => {
                assert(i < n);
                if i == 0 {
                    (owned(DEFAULT_NAMESPACE), 1)
                } else {
                    if !all_chars(cs.as_slice(), 0, i, false) {
                        proof {
                            let ns = s@.subrange(0, i as int);
                            assert(!valid_namespace(ns)) by {
                                let w = choose|j: int| 0 <= j < i && !namespace_char(cs@[j]);
                                assert(ns[w] == cs@[w]);
                            }
                        }
                        return None;
                    }
                    (string_of_range(cs.as_slice(), 0, i), i + 1)
                }
            },
            None => (owned(DEFAULT_NAMESPACE), 0),
        };
        let ghost (sn, sp) = split_location(s@);
        assert(ns@ == sn);
        assert(sp == s@.subrange(p_from as int, s@.len() as int));
        proof {
            reveal_strlit("minecraft");
        }
        assert(valid_namespace(sn)) by {
            if sn == DEFAULT_NAMESPACE@ {
                reveal_strlit("minecraft");
                assert forall|j: int| 0 <= j < sn.len() implies namespace_char(#[trigger] sn[j]) by {}
            } else {
                assert forall|j: int| 0 <= j < sn.len() implies namespace_char(#[trigger] sn[j]) by {
                    assert(sn[j] == cs@[j]);
                }
            }
        }
        if p_from >= cs.len() {
            return None;
        }
        if !all_chars(cs.as_slice(), p_from, cs.len(), true) {
            proof {
                assert(!valid_path(sp)) by {
                    let w = choose|j: int| p_from <= j < cs@.len() && !path_char(cs@[j]);
                    assert(sp[w - p_from] == cs@[w]);
                }
            }
            return None;
        }
        let path = string_of_range(cs.as_slice(), p_from, cs.len());
        assert(valid_path(sp)) by {
            assert forall|j: int| 0 <= j < sp.len() implies path_char(#[trigger] sp[j]) by {
                assert(sp[j] == cs@[j + p_from]);
            }
        }
        Some(ResourceLocation { namespace: ns, path })
    }

    /// `namespace:path`.
    pub fn to_string(&self) -> (r: String)
        ensures
            r@ == location_text(self.namespace@, self.path@),
    {
        proof {
            reveal_strlit(":");
        }
        concat3(self.namespace.as_str(), ":", self.path.as_str())
    }

    /// The same location with `prefix` put in front of its path.
    pub fn with_path_prefix(&self, prefix: &str) -> (r: ResourceLocation)
        ensures
            r@ == (self.namespace@, prefix@ + self.path@),
    {
        ResourceLocation { namespace: self.namespace.clone(), path: concat2(prefix, self.path.as_str()) }
    }
}

/// Law: the text of a valid location parses back to that location.
pub proof fn lemma_location_roundtrip(ns: Seq<char>, p: Seq<char>)
    requires
        valid_namespace(ns),
        valid_path(p),
    ensures
        spec_parse_location(location_text(ns, p)) == Some((ns, p)),
{
    let s = location_text(ns, p);
    assert(s[ns.len() as int] == ':');
    assert forall|j: int| 0 <= j < ns.len() implies s[j] != ':' by {
        assert(s[j] == ns[j]);
        assert(namespace_char(ns[j]));
    }
    lemma_first_index_of_facts(s, ':');
    assert(first_index_of(s, ':') == Some(ns.len() as int));
    assert(s.subrange(0, ns.len() as int) =~= ns);
    assert(s.subrange(ns.len() as int + 1, s.len() as int) =~= p);
}

/// Law: a location parsed from a string with an explicit namespace prints back as that string.
pub proof fn lemma_parse_then_print(s: Seq<char>)
    requires
        spec_parse_location(s) is Some,
        first_index_of(s, ':') matches Some(i) && i > 0,
    ensures
        spec_parse_location(s) matches Some(loc) && location_text(loc.0, loc.1) == s,
{
    lemma_first_index_of_facts(s, ':');
    let i = first_index_of(s, ':')->0;
    assert(s.subrange(0, i) + seq![':'] + s.subrange(i + 1, s.len() as int) =~= s);
}

} // verus!
