//! Decoding of the scalar fields of JSON records, and the choice of the error that
//! a record with several bad fields reports: that of the bad field met first in
//! the record, as a decoder that reads the entries one after another reports it.
use vstd::prelude::*;
use crate::json::{
    DecodeError, DecodeErrorKind, DecodeErrorKindView, DecodeErrorView, JsonNumber, JsonValue,
    describe, describe_value, err_here, err_invalid_type, err_under_index, here, invalid_type,
    under, PathSegmentView,
};
use crate::text::owned;

verus! {

/// Decoding of a `String`.
pub open spec fn spec_text(v: JsonValue) -> Result<Seq<char>, DecodeErrorView> {
    match v {
        JsonValue::String(s) => Ok(s@),
        _ => Err(invalid_type(v, "a string"@)),
    }
}

pub open spec fn text_result(r: Result<String, DecodeError>) -> Result<Seq<char>, DecodeErrorView> {
    match r {
        Ok(s) => Ok(s@),
        Err(e) => Err(e@),
    }
}

pub fn decode_text(v: &JsonValue) -> (r: Result<String, DecodeError>)
    ensures
        text_result(r) == spec_text(*v),
{
    match v {
        JsonValue::String(s) => Ok(s.clone()),
        _ => Err(err_invalid_type(v, "a string")),
    }
}

/// Decoding of an `Option<String>`: `null` is `None`.
pub open spec fn spec_opt_text(v: JsonValue) -> Result<Option<Seq<char>>, DecodeErrorView> {
    match v {
        JsonValue::Null => Ok(None),
        JsonValue::String(s) => Ok(Some(s@)),
        _ => Err(invalid_type(v, "a string"@)),
    }
}

pub fn decode_opt_text(v: &JsonValue) -> (r: Result<Option<String>, DecodeError>)
    ensures
        match r {
            Ok(Some(s)) => spec_opt_text(*v) == Ok::<_, DecodeErrorView>(Some(s@)),
            Ok(None) => spec_opt_text(*v) == Ok::<_, DecodeErrorView>(None::<Seq<char>>),
            Err(e) => spec_opt_text(*v) == Err::<Option<Seq<char>>, _>(e@),
        },
{
    match v {
        JsonValue::Null => Ok(None),
        JsonValue::String(s) => Ok(Some(s.clone())),
        _ => Err(err_invalid_type(v, "a string")),
    }
}

/// Decoding of an `i32`: integers in range; others are refused.
pub open spec fn spec_i32(v: JsonValue) -> Result<i32, DecodeErrorView> {
    match v {
        JsonValue::Number(JsonNumber::PosInt(n)) => if n <= i32::MAX {
            Ok(n as i32)
        } else {
            Err(here(DecodeErrorKindView::InvalidValue { found: describe(v), expected: "i32"@ }))
        },
        JsonValue::Number(JsonNumber::NegInt(n)) => if i32::MIN <= n && n <= i32::MAX {
            Ok(n as i32)
        } else {
            Err(here(DecodeErrorKindView::InvalidValue { found: describe(v), expected: "i32"@ }))
        },
        _ => Err(invalid_type(v, "i32"@)),
    }
}

pub fn decode_i32(v: &JsonValue) -> (r: Result<i32, DecodeError>)
    ensures
        match r {
            Ok(n) => spec_i32(*v) == Ok::<i32, DecodeErrorView>(n),
            Err(e) => spec_i32(*v) == Err::<i32, DecodeErrorView>(e@),
        },
{
    match v {
        JsonValue::Number(JsonNumber::PosInt(n)) => {
            if *n <= 2147483647u64 {
                Ok(*n as i32)
            } else {
                let found = describe_value(v);
                Err(err_here(DecodeErrorKind::InvalidValue { found, expected: owned("i32") }))
            }
        },
        JsonValue::Number(JsonNumber::NegInt(n)) => {
            if -2147483648i64 <= *n && *n <= 2147483647i64 {
                Ok(*n as i32)
            } else {
                let found = describe_value(v);
                Err(err_here(DecodeErrorKind::InvalidValue { found, expected: owned("i32") }))
            }
        },
        _ => Err(err_invalid_type(v, "i32")),
    }
}

/// Decoding of a `Vec<String>`, the first bad element located by its index.
pub open spec fn spec_text_items(xs: Seq<JsonValue>) -> Result<Seq<Seq<char>>, DecodeErrorView>
    decreases xs.len(),
{
    if xs.len() == 0 {
        Ok(Seq::empty())
    } else {
        match spec_text_items(xs.drop_last()) {
            Err(e) => Err(e),
            Ok(p) => match spec_text(xs.last()) {
                Err(e) => Err(under(PathSegmentView::Index((xs.len() - 1) as nat), e)),
                Ok(s) => Ok(p.push(s)),
            },
        }
    }
}

pub open spec fn spec_text_list(v: JsonValue) -> Result<Seq<Seq<char>>, DecodeErrorView> {
    match v {
        JsonValue::Array(xs) => spec_text_items(xs@),
        _ => Err(invalid_type(v, "a sequence"@)),
    }
}

pub open spec fn texts_view(l: Seq<String>) -> Seq<Seq<char>> {
    l.map_values(|s: String| s@)
}

/// Once a prefix of the elements fails, the whole sequence fails the same way.
pub proof fn lemma_text_items_err(xs: Seq<JsonValue>, n: int)
    requires
        0 <= n <= xs.len(),
        spec_text_items(xs.subrange(0, n)) is Err,
    ensures
        spec_text_items(xs) == spec_text_items(xs.subrange(0, n)),
    decreases xs.len() - n,
{
    if n < xs.len() {
        assert(xs.subrange(0, n + 1).drop_last() =~= xs.subrange(0, n));
        lemma_text_items_err(xs, n + 1);
    } else {
        assert(xs.subrange(0, n) =~= xs);
    }
}

pub fn decode_text_list(v: &JsonValue) -> (r: Result<Vec<String>, DecodeError>)
    ensures
        match r {
            Ok(l) => spec_text_list(*v) == Ok::<_, DecodeErrorView>(texts_view(l@)),
            Err(e) => spec_text_list(*v) == Err::<Seq<Seq<char>>, _>(e@),
        },
{
    match v {
        JsonValue::Array(xs) => {
            let mut out: Vec<String> = Vec::new();
            let mut i: usize = 0;
            assert(xs@.subrange(0, 0) =~= Seq::<JsonValue>::empty());
            assert(texts_view(out@) =~= Seq::<Seq<char>>::empty());
            while i < xs.len()
                invariant
                    *v == JsonValue::Array(*xs),
                    i <= xs@.len(),
                    spec_text_items(xs@.subrange(0, i as int)) == Ok::<_, DecodeErrorView>(
                        texts_view(out@),
                    ),
                decreases xs@.len() - i,
            {
                let ghost nxt = xs@.subrange(0, i + 1);
                assert(nxt.drop_last() =~= xs@.subrange(0, i as int));
                assert(nxt.last() == xs@[i as int]);
                let ghost prev = texts_view(out@);
                match decode_text(&xs[i]) {
                    Err(e) => {
                        let r = err_under_index(i, e);
                        assert(spec_text_items(nxt) == Err::<Seq<Seq<char>>, _>(r@));
                        proof {
                            lemma_text_items_err(xs@, i + 1);
                        }
                        return Err(r);
                    },
                    Ok(s) => {
                        let ghost sv = s@;
                        out.push(s);
                        assert(texts_view(out@) =~= prev.push(sv));
                        assert(spec_text_items(nxt) == Ok::<_, DecodeErrorView>(prev.push(sv)));
                    },
                }
                i = i + 1;
            }
            assert(xs@.subrange(0, xs@.len() as int) =~= xs@);
            Ok(out)
        },
        _ => Err(err_invalid_type(v, "a sequence")),
    }
}

/// The failure of one field of a record: where its entry stands, and its error.
pub struct Failure {
    pub pos: usize,
    pub error: DecodeError,
}

pub open spec fn failure_view(f: Option<Failure>) -> Option<(int, DecodeErrorView)> {
    match f {
        Some(x) => Some((x.pos as int, x.error@)),
        None => None,
    }
}

/// Of two failures, the one whose entry stands first.
pub open spec fn earlier(a: Option<(int, DecodeErrorView)>, b: Option<(int, DecodeErrorView)>) -> Option<
    (int, DecodeErrorView),
> {
    match a {
        None => b,
        Some(x) => match b {
            None => a,
            Some(y) => if y.0 < x.0 { b } else { a },
        },
    }
}

pub fn earlier_failure(a: Option<Failure>, b: Option<Failure>) -> (r: Option<Failure>)
    ensures
        failure_view(r) == earlier(failure_view(a), failure_view(b)),
{
    match a {
        None => b,
        Some(x) => match b {
            None => Some(x),
            Some(y) => if y.pos < x.pos {
                Some(y)
            } else {
                Some(x)
            },
        },
    }
}

/// The failure of a field found at `pos` whose value decoded to `r`.
pub open spec fn failure<T>(pos: Option<int>, r: Option<Result<T, DecodeErrorView>>) -> Option<
    (int, DecodeErrorView),
> {
    match pos {
        Some(p) => match r {
            Some(Err(e)) => Some((p, e)),
            _ => None,
        },
        None => None,
    }
}

/// Splits the outcome of one field into its failure and its value.
pub fn split_field<T>(pos: Option<usize>, r: Option<Result<T, DecodeError>>) -> (out: (
    Option<Failure>,
    Option<T>,
))
    requires
        pos is None ==> r is None,
    ensures
        match r {
            Some(Err(e)) => out.0 == Some(Failure { pos: pos->0, error: e }) && out.1 is None,
            Some(Ok(x)) => out.0 is None && out.1 == Some(x),
            None => out.0 is None && out.1 is None,
        },
{
    match r {
        Some(Err(e)) => (Some(Failure { pos: pos.unwrap(), error: e }), None),
        Some(Ok(x)) => (None, Some(x)),
        None => (None, None),
    }
}

} // verus!
