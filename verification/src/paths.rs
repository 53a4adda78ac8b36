//! File system paths as text: joining, component-wise prefixes, and byte-counted prefixes.
use vstd::prelude::*;
use crate::text::{char_vec, chars_views, concat2, owned, push_char, push_str, split_chars, split_on, string_of_range};

verus! {

/// `base` joined with `p` (`Path::join`): an absolute `p` replaces `base`; otherwise
/// a separator goes between them unless `base` is empty or already ends with one.
pub open spec fn path_join(base: Seq<char>, p: Seq<char>) -> Seq<char> {
    if p.len() > 0 && p[0] == '/' {
        p
    } else if base.len() > 0 && base.last() != '/' {
        base + seq!['/'] + p
    } else {
        base + p
    }
}

pub fn join(base: &str, p: &str) -> (r: String)
    ensures
        r@ == path_join(base@, p@),
{
    let pc = char_vec(p);
    if pc.len() > 0 && pc[0] == '/' {
        return owned(p);
    }
    let bc = char_vec(base);
    if bc.len() > 0 && bc[bc.len() - 1] != '/' {
        let mut r = owned(base);
        push_char(&mut r, '/');
        push_str(&mut r, p);
        r
    } else {
        concat2(base, p)
    }
}

/// The parts of a path that name something: empty parts and `.` are dropped.
pub open spec fn normal_parts(parts: Seq<Seq<char>>) -> Seq<Seq<char>>
    decreases parts.len(),
{
    if parts.len() == 0 {
        Seq::empty()
    } else {
        let rest = normal_parts(parts.drop_first());
        if parts[0].len() == 0 || parts[0] == seq!['.'] {
            rest
        } else {
            seq![parts[0]] + rest
        }
    }
}

/// The components of a path (`Path::components`): the root (written `/`) of an
/// absolute path, a leading `.` of a relative one, then the parts that name something.
pub open spec fn path_components(p: Seq<char>) -> Seq<Seq<char>> {
    let parts = split_on(p, '/');
    if p.len() > 0 && p[0] == '/' {
        seq![seq!['/']] + normal_parts(parts)
    } else if parts.len() > 0 && parts[0] == seq!['.'] {
        seq![seq!['.']] + normal_parts(parts.drop_first())
    } else {
        normal_parts(parts)
    }
}

fn normal_parts_exec(parts: &Vec<Vec<char>>, from: usize) -> (r: Vec<Vec<char>>)
    requires
        from <= parts@.len(),
    ensures
        chars_views(r@) == normal_parts(chars_views(parts@).subrange(from as int, parts@.len() as int)),
{
    let ghost pv = chars_views(parts@);
    let mut out: Vec<Vec<char>> = Vec::new();
    let mut i: usize = parts.len();
    assert(pv.subrange(parts@.len() as int, parts@.len() as int) =~= Seq::<Seq<char>>::empty());
    assert(chars_views(out@) =~= Seq::<Seq<char>>::empty());
    // built from the back, then reversed
    while i > from
        invariant
            from <= i <= parts@.len(),
            pv == chars_views(parts@),
            chars_views(out@).reverse() == normal_parts(pv.subrange(i as int, pv.len() as int)),
        decreases i,
    {
        let ghost rest = pv.subrange(i - 1, pv.len() as int);
        assert(rest.drop_first() =~= pv.subrange(i as int, pv.len() as int));
        assert(rest[0] == parts@[i - 1]@);
        let p = &parts[i - 1];
        let dot = p.len() == 1 && p[0] == '.';
        if p.len() == 0 || dot {
            assert(dot ==> p@ =~= seq!['.']);
            assert(p@ == seq!['.'] ==> dot);
        } else {
            assert(p@ != seq!['.']) by {
                if p@ == seq!['.'] {
                    assert(p@.len() == 1 && p@[0] == '.');
                }
            }
            let ghost prev = chars_views(out@);
            let mut copy: Vec<char> = Vec::new();
            let mut j: usize = 0;
            while j < p.len()
                invariant
                    j <= p@.len(),
                    copy@ == p@.subrange(0, j as int),
                decreases p@.len() - j,
            {
                copy.push(p[j]);
                assert(copy@ =~= p@.subrange(0, j + 1));
                j = j + 1;
            }
            assert(copy@ =~= p@);
            out.push(copy);
            assert(chars_views(out@) =~= prev.push(p@));
            assert(prev.push(p@).reverse() =~= seq![p@] + prev.reverse());
        }
        i = i - 1;
    }
    // reverse into the result
    let mut r: Vec<Vec<char>> = Vec::new();
    let ghost ov = chars_views(out@);
    let mut k: usize = out.len();
    assert(chars_views(r@) =~= Seq::<Seq<char>>::empty());
    assert(chars_views(out@) =~= ov.subrange(0, k as int));
    assert(ov.subrange(k as int, ov.len() as int) =~= Seq::<Seq<char>>::empty());
    while k > 0
        invariant
            k == out@.len(),
            k <= ov.len(),
            chars_views(out@) == ov.subrange(0, k as int),
            chars_views(r@) == ov.subrange(k as int, ov.len() as int).reverse(),
        decreases k,
    {
        let ghost prev = chars_views(r@);
        let ghost before = chars_views(out@);
        let last = out.pop().unwrap();
        assert(before[k - 1] == last@);
        assert(chars_views(out@) =~= ov.subrange(0, k - 1));
        r.push(last);
        assert(ov.subrange(k - 1, ov.len() as int).reverse() =~= ov.subrange(
            k as int,
            ov.len() as int,
        ).reverse().push(ov[k - 1]));
        assert(chars_views(r@) =~= prev.push(ov[k - 1]));
        k = k - 1;
    }
    assert(ov.subrange(0, ov.len() as int) =~= ov);
    r
}

/// The components of `p`.
pub fn components(p: &str) -> (r: Vec<Vec<char>>)
    ensures
        chars_views(r@) == path_components(p@),
{
    let cs = char_vec(p);
    let parts = split_chars(cs.as_slice(), '/');
    let ghost pv = chars_views(parts@);
    proof {
        lemma_split_nonempty(p@, '/');
    }
    assert(pv.subrange(0, pv.len() as int) =~= pv);
    if cs.len() > 0 && cs[0] == '/' {
        let rest = normal_parts_exec(&parts, 0);
        let mut r: Vec<Vec<char>> = Vec::new();
        let mut root: Vec<char> = Vec::new();
        root.push('/');
        r.push(root);
        let ghost rv = chars_views(rest@);
        let mut rest = rest;
        r.append(&mut rest);
        assert(chars_views(r@) =~= seq![seq!['/']] + rv);
        r
    } else {
        let first_dot = parts[0].len() == 1 && parts[0][0] == '.';
        assert(first_dot == (pv[0] == seq!['.'])) by {
            if pv[0] == seq!['.'] {
                assert(parts@[0]@.len() == 1);
            }
            if first_dot {
                assert(parts@[0]@ =~= seq!['.']);
            }
        }
        if first_dot {
            let rest = normal_parts_exec(&parts, 1);
            assert(pv.subrange(1, pv.len() as int) =~= pv.drop_first());
            let mut r: Vec<Vec<char>> = Vec::new();
            let mut dot: Vec<char> = Vec::new();
            dot.push('.');
            r.push(dot);
            let ghost rv = chars_views(rest@);
            let mut rest = rest;
            r.append(&mut rest);
            assert(chars_views(r@) =~= seq![seq!['.']] + rv);
            r
        } else {
            normal_parts_exec(&parts, 0)
        }
    }
}

/// Splitting always yields at least one piece.
pub proof fn lemma_split_nonempty(s: Seq<char>, c: char)
    ensures
        split_on(s, c).len() >= 1,
    decreases s.len(),
{
    crate::text::lemma_first_index_of_facts(s, c);
}

/// Whether two character vectors hold the same characters.
pub fn chars_eq(a: &Vec<char>, b: &Vec<char>) -> (r: bool)
    ensures
        r == (a@ == b@),
{
    if a.len() != b.len() {
        return false;
    }
    let mut k: usize = 0;
    while k < a.len()
        invariant
            k <= a@.len(),
            a@.len() == b@.len(),
            forall|t: int| 0 <= t < k ==> a@[t] == b@[t],
        decreases a@.len() - k,
    {
        if a[k] != b[k] {
            return false;
        }
        k = k + 1;
    }
    assert(a@ =~= b@);
    true
}

/// Whether `child` lies under `parent` (`Path::starts_with`): the components of
/// `parent` begin those of `child`.
pub open spec fn spec_is_subpath(child: Seq<char>, parent: Seq<char>) -> bool {
    let c = path_components(child);
    let p = path_components(parent);
    p.len() <= c.len() && c.subrange(0, p.len() as int) == p
}

pub fn is_subpath(child: &str, parent: &str) -> (r: bool)
    ensures
        r == spec_is_subpath(child@, parent@),
{
    let c = components(child);
    let p = components(parent);
    let ghost cv = chars_views(c@);
    let ghost pv = chars_views(p@);
    if p.len() > c.len() {
        return false;
    }
    let mut i: usize = 0;
    while i < p.len()
        invariant
            i <= p@.len(),
            p@.len() <= c@.len(),
            cv == chars_views(c@),
            pv == chars_views(p@),
            cv == path_components(child@),
            pv == path_components(parent@),
            forall|j: int| 0 <= j < i ==> cv[j] == pv[j],
        decreases p@.len() - i,
    {
        let a = &c[i];
        let b = &p[i];
        let same = chars_eq(a, b);
        if !same {
            assert(cv[i as int] != pv[i as int]);
            assert(cv.subrange(0, pv.len() as int)[i as int] == cv[i as int]);
            return false;
        }
        i = i + 1;
    }
    assert(cv.subrange(0, pv.len() as int) =~= pv);
    true
}

/// UTF-8 length of a character, in bytes.
pub open spec fn utf8_width(c: char) -> nat {
    if (c as u32) < 0x80 {
        1
    } else if (c as u32) < 0x800 {
        2
    } else if (c as u32) < 0x10000 {
        3
    } else {
        4
    }
}

/// The number of bytes of `s` in UTF-8.
pub open spec fn utf8_len(s: Seq<char>) -> nat
    decreases s.len(),
{
    if s.len() == 0 {
        0
    } else {
        utf8_width(s[0]) + utf8_len(s.drop_first())
    }
}

/// Number of leading characters of `s` that fit in `n` bytes of UTF-8.
pub open spec fn chars_within(s: Seq<char>, n: nat) -> nat
    decreases s.len(),
{
    if s.len() == 0 || utf8_width(s[0]) > n {
        0
    } else {
        1 + chars_within(s.drop_first(), (n - utf8_width(s[0])) as nat)
    }
}

/// Whether the first `n` bytes of `s` end on a character boundary (or `s` is shorter).
pub open spec fn bytes_end_on_char(s: Seq<char>, n: nat) -> bool
    decreases s.len(),
{
    if s.len() == 0 || n == 0 {
        true
    } else if utf8_width(s[0]) > n {
        false
    } else {
        bytes_end_on_char(s.drop_first(), (n - utf8_width(s[0])) as nat)
    }
}

pub fn utf8_width_of(c: char) -> (r: usize)
    ensures
        r == utf8_width(c),
{
    let cp = c as u32;
    if cp < 0x80 {
        1
    } else if cp < 0x800 {
        2
    } else if cp < 0x10000 {
        3
    } else {
        4
    }
}

/// The first `n` bytes of `s` (`&s[..n.min(len)]`), which must end on a character boundary.
pub fn byte_prefix(s: &str, n: usize) -> (r: String)
    requires
        bytes_end_on_char(s@, n as nat),
    ensures
        r@ == s@.subrange(0, chars_within(s@, n as nat) as int),
{
    let cs = char_vec(s);
    let mut i: usize = 0;
    let mut left: usize = n;
    assert(cs@.subrange(0, cs@.len() as int) =~= cs@);
    while i < cs.len() && utf8_width_of(cs[i]) <= left
        invariant
            i <= cs@.len(),
            left <= n,
            cs@ == s@,
            chars_within(s@, n as nat) == i + chars_within(
                cs@.subrange(i as int, cs@.len() as int),
                left as nat,
            ),
        decreases cs@.len() - i,
    {
        let c = cs[i];
        let w = utf8_width_of(c);
        let ghost rest = cs@.subrange(i as int, cs@.len() as int);
        assert(rest[0] == c);
        assert(rest.drop_first() =~= cs@.subrange(i + 1, cs@.len() as int));
        left = left - w;
        i = i + 1;
    }
    assert(chars_within(cs@.subrange(i as int, cs@.len() as int), left as nat) == 0) by {
        if i < cs@.len() {
            assert(cs@.subrange(i as int, cs@.len() as int)[0] == cs@[i as int]);
        }
    }
    string_of_range(cs.as_slice(), 0, i)
}

} // verus!
