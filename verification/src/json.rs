//! A JSON document model, and the error values that decoding one produces.
//!
//! Objects keep their entries in the order they were read; a key that occurs
//! more than once resolves to its last occurrence, as a map built by inserting
//! the entries one after another would.
use vstd::prelude::*;
use crate::text::{
    decimal, push_char, push_str, owned, concat2, concat3, str_eq, trim_start_char, trim_start_char_str,
    u64_to_string,
};

verus! {

/// A JSON number: integers exactly, other numbers by their literal text.
#[derive(Debug, Clone, PartialEq, Eq)]
pub enum JsonNumber {
    PosInt(u64),
    NegInt(i64),
    Float(String),
}

/// A JSON value.
#[derive(Debug, PartialEq, Eq)]
pub enum JsonValue {
    Null,
    Bool(bool),
    Number(JsonNumber),
    String(String),
    Array(Vec<JsonValue>),
    Object(Vec<(String, JsonValue)>),
}

/// Index of the last entry of `m` whose key is `k`.
pub open spec fn lookup(m: Seq<(String, JsonValue)>, k: Seq<char>) -> Option<int>
    decreases m.len(),
{
    if m.len() == 0 {
        None
    } else if m.last().0@ == k {
        Some(m.len() - 1)
    } else {
        lookup(m.drop_last(), k)
    }
}

pub proof fn lemma_lookup_bounds(m: Seq<(String, JsonValue)>, k: Seq<char>)
    ensures
        lookup(m, k) matches Some(i) ==> 0 <= i < m.len() && m[i].0@ == k,
    decreases m.len(),
{
    if m.len() > 0 && m.last().0@ != k {
        lemma_lookup_bounds(m.drop_last(), k);
    }
}

/// Index of the last entry of `m` whose key is `k`.
pub fn lookup_index(m: &Vec<(String, JsonValue)>, k: &str) -> (r: Option<usize>)
    ensures
        match r {
            Some(i) => lookup(m@, k@) == Some(i as int) && i < m@.len(),
            None => lookup(m@, k@) is None,
        },
{
    let mut n = m.len();
    assert(m@.subrange(0, n as int) =~= m@);
    while n > 0
        invariant
            n <= m@.len(),
            lookup(m@, k@) == lookup(m@.subrange(0, n as int), k@),
        decreases n,
    {
        let e = &m[n - 1];
        if str_eq(e.0.as_str(), k) {
            return Some(n - 1);
        }
        assert(m@.subrange(0, n as int).drop_last() =~= m@.subrange(0, n - 1));
        n = n - 1;
    }
    None
}

/// The string held under key `k`, when there is one (`Value::get` followed by `as_str`).
pub open spec fn lookup_str(m: Seq<(String, JsonValue)>, k: Seq<char>) -> Option<Seq<char>> {
    match lookup(m, k) {
        Some(i) => match m[i].1 {
            JsonValue::String(s) => Some(s@),
            _ => None,
        },
        None => None,
    }
}

pub fn lookup_string(m: &Vec<(String, JsonValue)>, k: &str) -> (r: Option<String>)
    ensures
        match r {
            Some(s) => lookup_str(m@, k@) == Some(s@),
            None => lookup_str(m@, k@) is None,
        },
{
    match lookup_index(m, k) {
        Some(i) => match &m[i].1 {
            JsonValue::String(s) => Some(s.clone()),
            _ => None,
        },
        None => None,
    }
}

/// Decimal text of a signed integer.
pub open spec fn signed_decimal(n: int) -> Seq<char> {
    if n < 0 { seq!['-'] + decimal((-n) as nat) } else { decimal(n as nat) }
}

pub fn i64_to_string(n: i64) -> (r: String)
    ensures
        r@ == signed_decimal(n as int),
{
    if n < 0 {
        let m: u64 = (0i128 - (n as i128)) as u64;
        let mut r = String::new();
        push_char(&mut r, '-');
        let d = u64_to_string(m);
        push_str(&mut r, d.as_str());
        assert(r@ =~= seq!['-'] + decimal((-n) as nat));
        r
    } else {
        u64_to_string(n as u64)
    }
}

/// How a value that has the wrong type is described in an error message.
pub open spec fn describe(v: JsonValue) -> Seq<char> {
    match v {
        JsonValue::Null => "null"@,
        JsonValue::Bool(b) => if b { "boolean `true`"@ } else { "boolean `false`"@ },
        JsonValue::Number(JsonNumber::PosInt(n)) => "integer `"@ + decimal(n as nat) + "`"@,
        JsonValue::Number(JsonNumber::NegInt(n)) => "integer `"@ + signed_decimal(n as int) + "`"@,
        JsonValue::Number(JsonNumber::Float(t)) => "floating point `"@ + t@ + "`"@,
        JsonValue::String(s) => "string \""@ + s@ + "\""@,
        JsonValue::Array(_) => "sequence"@,
        JsonValue::Object(_) => "map"@,
    }
}

pub fn describe_value(v: &JsonValue) -> (r: String)
    ensures
        r@ == describe(*v),
{
    match v {
        JsonValue::Null => owned("null"),
        JsonValue::Bool(b) => if *b { owned("boolean `true`") } else { owned("boolean `false`") },
        JsonValue::Number(JsonNumber::PosInt(n)) => {
            let d = u64_to_string(*n);
            concat3("integer `", d.as_str(), "`")
        },
        JsonValue::Number(JsonNumber::NegInt(n)) => {
            let d = i64_to_string(*n);
            concat3("integer `", d.as_str(), "`")
        },
        JsonValue::Number(JsonNumber::Float(t)) => concat3("floating point `", t.as_str(), "`"),
        JsonValue::String(s) => concat3("string \"", s.as_str(), "\""),
        JsonValue::Array(_) => owned("sequence"),
        JsonValue::Object(_) => owned("map"),
    }
}

/// One step of the location of an error inside a document.
#[derive(Debug, Clone, PartialEq, Eq)]
pub enum PathSegment {
    Key(String),
    Index(usize),
}

pub enum PathSegmentView {
    Key(Seq<char>),
    Index(nat),
}

impl View for PathSegment {
    type V = PathSegmentView;

    open spec fn view(&self) -> PathSegmentView {
        match self {
            PathSegment::Key(k) => PathSegmentView::Key(k@),
            PathSegment::Index(i) => PathSegmentView::Index(*i as nat),
        }
    }
}

/// Why a value could not be decoded.
#[derive(Debug, Clone, PartialEq, Eq)]
pub enum DecodeErrorKind {
    InvalidType { found: String, expected: String },
    InvalidValue { found: String, expected: String },
    MissingField(String),
    DuplicateField(String),
    NoItemOrTag,
    UnknownIngredientType(String),
    NoChildren(String),
    /// A list of the wrong length: its length (as text) and what was expected.
    InvalidLength { found: String, expected: String },
}

pub enum DecodeErrorKindView {
    InvalidType { found: Seq<char>, expected: Seq<char> },
    InvalidValue { found: Seq<char>, expected: Seq<char> },
    MissingField(Seq<char>),
    DuplicateField(Seq<char>),
    NoItemOrTag,
    UnknownIngredientType(Seq<char>),
    NoChildren(Seq<char>),
    InvalidLength { found: Seq<char>, expected: Seq<char> },
}

impl View for DecodeErrorKind {
    type V = DecodeErrorKindView;

    open spec fn view(&self) -> DecodeErrorKindView {
        match self {
            DecodeErrorKind::InvalidType { found, expected } => DecodeErrorKindView::InvalidType {
                found: found@,
                expected: expected@,
            },
            DecodeErrorKind::InvalidValue { found, expected } => DecodeErrorKindView::InvalidValue {
                found: found@,
                expected: expected@,
            },
            DecodeErrorKind::MissingField(f) => DecodeErrorKindView::MissingField(f@),
            DecodeErrorKind::DuplicateField(f) => DecodeErrorKindView::DuplicateField(f@),
            DecodeErrorKind::NoItemOrTag => DecodeErrorKindView::NoItemOrTag,
            DecodeErrorKind::UnknownIngredientType(t) => DecodeErrorKindView::UnknownIngredientType(
                t@,
            ),
            DecodeErrorKind::NoChildren(n) => DecodeErrorKindView::NoChildren(n@),
            DecodeErrorKind::InvalidLength { found, expected } => DecodeErrorKindView::InvalidLength {
                found: found@,
                expected: expected@,
            },
        }
    }
}

/// A decoding error, located by the path from the decoded value to the offending part.
#[derive(Debug, Clone, PartialEq, Eq)]
pub struct DecodeError {
    pub path: Vec<PathSegment>,
    pub kind: DecodeErrorKind,
}

pub struct DecodeErrorView {
    pub path: Seq<PathSegmentView>,
    pub kind: DecodeErrorKindView,
}

impl View for DecodeError {
    type V = DecodeErrorView;

    open spec fn view(&self) -> DecodeErrorView {
        DecodeErrorView { path: self.path@.map_values(|s: PathSegment| s@), kind: self.kind@ }
    }
}

/// An error at the decoded value itself.
pub open spec fn here(kind: DecodeErrorKindView) -> DecodeErrorView {
    DecodeErrorView { path: Seq::empty(), kind }
}

/// `e`, located one step further down, under `seg`.
pub open spec fn under(seg: PathSegmentView, e: DecodeErrorView) -> DecodeErrorView {
    DecodeErrorView { path: seq![seg] + e.path, kind: e.kind }
}

pub open spec fn invalid_type(v: JsonValue, expected: Seq<char>) -> DecodeErrorView {
    here(DecodeErrorKindView::InvalidType { found: describe(v), expected })
}

pub fn err_here(kind: DecodeErrorKind) -> (r: DecodeError)
    ensures
        r@ == here(kind@),
{
    let r = DecodeError { path: Vec::new(), kind };
    assert(r@.path =~= Seq::<PathSegmentView>::empty());
    r
}

pub fn err_invalid_type(v: &JsonValue, expected: &str) -> (r: DecodeError)
    ensures
        r@ == invalid_type(*v, expected@),
{
    let found = describe_value(v);
    err_here(DecodeErrorKind::InvalidType { found, expected: owned(expected) })
}

pub fn err_missing(field: &str) -> (r: DecodeError)
    ensures
        r@ == here(DecodeErrorKindView::MissingField(field@)),
{
    err_here(DecodeErrorKind::MissingField(owned(field)))
}

/// Puts `seg` in front of the path of `e`.
pub fn err_under(seg: PathSegment, e: DecodeError) -> (r: DecodeError)
    ensures
        r@ == under(seg@, e@),
{
    let ghost sv = seg@;
    let mut path: Vec<PathSegment> = Vec::new();
    path.push(seg);
    let mut rest = e.path;
    let ghost old_rest = rest@;
    path.append(&mut rest);
    let r = DecodeError { path, kind: e.kind };
    assert(r@.path =~= seq![sv] + e@.path);
    r
}

pub fn err_under_key(key: &str, e: DecodeError) -> (r: DecodeError)
    ensures
        r@ == under(PathSegmentView::Key(key@), e@),
{
    err_under(PathSegment::Key(owned(key)), e)
}

pub fn err_under_index(i: usize, e: DecodeError) -> (r: DecodeError)
    ensures
        r@ == under(PathSegmentView::Index(i as nat), e@),
{
    err_under(PathSegment::Index(i), e)
}

/// The message of an error kind, worded as `serde` words it.
pub open spec fn kind_message(k: DecodeErrorKindView) -> Seq<char> {
    match k {
        DecodeErrorKindView::InvalidType { found, expected } => "invalid type: "@ + found
            + ", expected "@ + expected,
        DecodeErrorKindView::InvalidValue { found, expected } => "invalid value: "@ + found
            + ", expected "@ + expected,
        DecodeErrorKindView::MissingField(f) => "missing field `"@ + f + "`"@,
        DecodeErrorKindView::DuplicateField(f) => "duplicate field `"@ + f + "`"@,
        DecodeErrorKindView::NoItemOrTag => "ingredient object must have either an 'item' or a 'tag' field"@,
        DecodeErrorKindView::UnknownIngredientType(t) => "unknown custom ingredient type: "@ + t,
        DecodeErrorKindView::NoChildren(n) => n + " ingredient must have at least one child"@,
        DecodeErrorKindView::InvalidLength { found, expected } => "invalid length "@ + found
            + ", expected "@ + expected,
    }
}

/// Rendering of an error path: keys separated by dots, indices in brackets.
pub open spec fn path_text(p: Seq<PathSegmentView>) -> Seq<char>
    decreases p.len(),
{
    if p.len() == 0 {
        Seq::empty()
    } else {
        let prev = path_text(p.drop_last());
        match p.last() {
            PathSegmentView::Index(i) => prev + seq!['['] + decimal(i) + seq![']'],
            PathSegmentView::Key(k) => if p.len() == 1 { k } else { prev + seq!['.'] + k },
        }
    }
}

/// Message of a located error: the path, a colon, then the message; the message alone at the top.
pub open spec fn located_message(e: DecodeErrorView) -> Seq<char> {
    if e.path.len() == 0 {
        kind_message(e.kind)
    } else {
        path_text(e.path) + ": "@ + kind_message(e.kind)
    }
}

impl DecodeErrorKind {
    pub fn message(&self) -> (r: String)
        ensures
            r@ == kind_message(self@),
    {
        match self {
            DecodeErrorKind::InvalidType { found, expected } => {
                let mut r = concat3("invalid type: ", found.as_str(), ", expected ");
                push_str(&mut r, expected.as_str());
                r
            },
            DecodeErrorKind::InvalidValue { found, expected } => {
                let mut r = concat3("invalid value: ", found.as_str(), ", expected ");
                push_str(&mut r, expected.as_str());
                r
            },
            DecodeErrorKind::MissingField(f) => concat3("missing field `", f.as_str(), "`"),
            DecodeErrorKind::DuplicateField(f) => concat3("duplicate field `", f.as_str(), "`"),
            DecodeErrorKind::NoItemOrTag => owned(
                "ingredient object must have either an 'item' or a 'tag' field",
            ),
            DecodeErrorKind::UnknownIngredientType(t) => concat2(
                "unknown custom ingredient type: ",
                t.as_str(),
            ),
            DecodeErrorKind::NoChildren(n) => concat2(
                n.as_str(),
                " ingredient must have at least one child",
            ),
            DecodeErrorKind::InvalidLength { found, expected } => {
                let mut r = concat3("invalid length ", found.as_str(), ", expected ");
                push_str(&mut r, expected.as_str());
                r
            },
        }
    }
}

impl DecodeError {
    /// The path of the error, rendered.
    pub fn path_string(&self) -> (r: String)
        ensures
            r@ == path_text(self@.path),
    {
        let mut r = String::new();
        let mut i: usize = 0;
        while i < self.path.len()
            invariant
                i <= self.path@.len(),
                r@ == path_text(self@.path.subrange(0, i as int)),
            decreases self.path@.len() - i,
        {
            let ghost pre = self@.path.subrange(0, i as int);
            let ghost nxt = self@.path.subrange(0, i + 1);
            assert(nxt.drop_last() =~= pre);
            assert(nxt.last() == self.path@[i as int]@);
            match &self.path[i] {
                PathSegment::Index(n) => {
                    push_char(&mut r, '[');
                    let d = u64_to_string(*n as u64);
                    push_str(&mut r, d.as_str());
                    push_char(&mut r, ']');
                    assert(r@ =~= path_text(pre) + seq!['['] + decimal(*n as nat) + seq![']']);
                },
                PathSegment::Key(k) => {
                    if i == 0 {
                        r = k.clone();
                    } else {
                        push_char(&mut r, '.');
                        push_str(&mut r, k.as_str());
                        assert(r@ =~= path_text(pre) + seq!['.'] + k@);
                    }
                },
            }
            i = i + 1;
        }
        assert(self@.path.subrange(0, self@.path.len() as int) =~= self@.path);
        r
    }

    /// The full message: the path (when there is one), a colon, and what went wrong.
    pub fn message(&self) -> (r: String)
        ensures
            r@ == located_message(self@),
    {
        let m = self.kind.message();
        if self.path.len() == 0 {
            m
        } else {
            let p = self.path_string();
            concat3(p.as_str(), ": ", m.as_str())
        }
    }
}


// ----- JSON files -----

/// A JSON file's text without the byte order marks that some editors put in front.
pub fn strip_bom(text: &str) -> (r: String)
    ensures
        r@ == trim_start_char(text@, '\u{FEFF}'),
{
    trim_start_char_str(text, '\u{FEFF}')
}

/// The message for a JSON file read as a `name` that could not be decoded: text that
/// is no JSON (`malformed`), or JSON of another shape; `detail` is the decoder's message.
pub fn json_error_message(name: &str, malformed: bool, detail: &str) -> (r: String)
    ensures
        r@ == if malformed {
            "Malformed "@ + name@ + " JSON: "@ + detail@
        } else {
            "Invalid "@ + name@ + " JSON format: "@ + detail@
        },
{
    let mut r = if malformed {
        concat3("Malformed ", name, " JSON: ")
    } else {
        concat3("Invalid ", name, " JSON format: ")
    };
    push_str(&mut r, detail);
    r
}

} // verus!
