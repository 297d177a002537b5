//! The path/name escaper: systemd's reversible unit-name encoding.
//!
//! A unit-name component keeps ASCII alphanumerics, `':'`, `'_'` and any
//! `'.'` but a leading one; `'/'` becomes `'-'`; every other byte becomes
//! `\xHH` with lower-case hex digits.  An absolute path is encoded from its
//! non-root form (the root path itself is encoded as it stands), and the
//! caller's suffix is appended verbatim.
use vstd::prelude::*;
use vstd::slice::slice_subrange;
use crate::GenError;
use crate::bytes::{
    B_0,
    B_9,
    B_BACKSLASH,
    B_COLON,
    B_DASH,
    B_DOT,
    B_LOWER_A,
    B_LOWER_X,
    B_LOWER_Z,
    B_SLASH,
    B_UNDERSCORE,
    B_UPPER_A,
    B_UPPER_Z,
};

verus! {

/// Bytes the encoding keeps as they are: ASCII alphanumerics, ':', '_',
/// and '.' anywhere but in first position.
pub open spec fn is_kept_byte(b: u8, first: bool) -> bool {
    (b == B_DOT && !first) || b == B_UNDERSCORE || b == B_COLON || (B_0 <= b && b <= B_9) || (B_UPPER_A <= b
        && b <= B_UPPER_Z) || (B_LOWER_A <= b && b <= B_LOWER_Z)
}

/// The lower-case hex digit of a value below 16.
pub open spec fn spec_hex_digit(n: u8) -> u8 {
    if n < 10 {
        (B_0 + n) as u8
    } else {
        (B_LOWER_A + (n - 10)) as u8
    }
}

/// What one byte contributes to the escaped form.
pub open spec fn escape_byte(b: u8, first: bool) -> Seq<u8> {
    if b == B_SLASH {
        seq![B_DASH]
    } else if is_kept_byte(b, first) {
        seq![b]
    } else {
        seq![B_BACKSLASH, B_LOWER_X, spec_hex_digit(b / 16), spec_hex_digit(b % 16)]
    }
}

/// The escaped form of `s[i..]`, where position 0 is the name's first byte.
pub open spec fn escape_from(s: Seq<u8>, i: int) -> Seq<u8>
    decreases s.len() - i,
{
    if i < 0 || i >= s.len() {
        Seq::empty()
    } else {
        escape_byte(s[i], i == 0) + escape_from(s, i + 1)
    }
}

/// systemd's escaping of one unit-name component.
pub open spec fn spec_escape_name(s: Seq<u8>) -> Seq<u8> {
    escape_from(s, 0)
}

/// An absolute path: nonempty and beginning with '/'.
pub open spec fn is_abs_path(p: Seq<u8>) -> bool {
    p.len() > 0 && p[0] == B_SLASH
}

/// The escaped form of an absolute path: the root path is encoded as it
/// stands, any other path loses its leading '/' first.
pub open spec fn spec_escape_path(p: Seq<u8>) -> Seq<u8> {
    if p.len() == 1 {
        spec_escape_name(p)
    } else {
        spec_escape_name(p.skip(1))
    }
}

proof fn lemma_add_cancel_left(a: Seq<u8>, x: Seq<u8>, y: Seq<u8>)
    requires
        a + x == a + y,
    ensures
        x == y,
{
    assert(x =~= (a + x).skip(a.len() as int));
    assert(y =~= (a + y).skip(a.len() as int));
}

proof fn lemma_add_cancel_right(x: Seq<u8>, y: Seq<u8>, s: Seq<u8>)
    requires
        x + s == y + s,
    ensures
        x == y,
{
    assert((x + s).len() == (y + s).len());
    assert(x =~= (x + s).take(x.len() as int));
    assert(y =~= (y + s).take(y.len() as int));
}

proof fn lemma_chunk_injective(b1: u8, b2: u8, first: bool, t1: Seq<u8>, t2: Seq<u8>)
    requires
        escape_byte(b1, first) + t1 == escape_byte(b2, first) + t2,
    ensures
        b1 == b2,
        t1 == t2,
{
    let c1 = escape_byte(b1, first);
    let c2 = escape_byte(b2, first);
    assert((c1 + t1)[0] == c1[0]);
    assert((c2 + t2)[0] == c2[0]);
    if b1 == B_SLASH || b2 == B_SLASH {
        assert(b1 == b2);
    } else if is_kept_byte(b1, first) || is_kept_byte(b2, first) {
        assert(b1 == b2);
    } else {
        assert((c1 + t1)[2] == c1[2] && (c1 + t1)[3] == c1[3]);
        assert((c2 + t2)[2] == c2[2] && (c2 + t2)[3] == c2[3]);
        assert(spec_hex_digit(b1 / 16) == spec_hex_digit(b2 / 16));
        assert(spec_hex_digit(b1 % 16) == spec_hex_digit(b2 % 16));
        assert(b1 / 16 == b2 / 16 && b1 % 16 == b2 % 16);
        assert(b1 == b2);
    }
    lemma_add_cancel_left(c1, t1, t2);
}

proof fn lemma_escape_from_injective(s1: Seq<u8>, s2: Seq<u8>, i: int)
    requires
        0 <= i <= s1.len(),
        0 <= i <= s2.len(),
        escape_from(s1, i) == escape_from(s2, i),
    ensures
        s1.skip(i) == s2.skip(i),
    decreases s1.len() - i,
{
    if i == s1.len() && i == s2.len() {
        assert(s1.skip(i) =~= s2.skip(i));
    } else if i == s1.len() {
        assert(escape_from(s2, i).len() >= escape_byte(s2[i], i == 0).len());
        assert(false);
    } else if i == s2.len() {
        assert(escape_from(s1, i).len() >= escape_byte(s1[i], i == 0).len());
        assert(false);
    } else {
        lemma_chunk_injective(s1[i], s2[i], i == 0, escape_from(s1, i + 1), escape_from(s2, i + 1));
        lemma_escape_from_injective(s1, s2, i + 1);
        assert(s1.skip(i + 1).len() == s2.skip(i + 1).len());
        assert(s1.len() == s2.len());
        assert forall|k: int| i < k < s1.len() implies s1[k] == s2[k] by {
            assert(s1[k] == s1.skip(i + 1)[k - i - 1]);
            assert(s2[k] == s2.skip(i + 1)[k - i - 1]);
        }
        assert(s1.skip(i) =~= s2.skip(i));
    }
}

/// Law: systemd's name encoding is injective: two distinct byte strings
/// never escape to the same output.
pub proof fn lemma_escape_name_injective(s1: Seq<u8>, s2: Seq<u8>)
    requires
        spec_escape_name(s1) == spec_escape_name(s2),
    ensures
        s1 == s2,
{
    lemma_escape_from_injective(s1, s2, 0);
    assert(s1 =~= s1.skip(0));
    assert(s2 =~= s2.skip(0));
}

/// Law: for any fixed suffix, path escaping is injective over absolute
/// paths: distinct paths never produce the same escaped name.  The one
/// excluded pair is the root path and the double-slash path, which encode
/// alike because the root path is the single input that keeps its leading
/// slash.
pub proof fn lemma_escape_path_injective(p1: Seq<u8>, p2: Seq<u8>, suffix: Seq<u8>)
    requires
        is_abs_path(p1),
        is_abs_path(p2),
        !(p1.len() == 1 && p2 =~= seq![B_SLASH, B_SLASH]),
        !(p2.len() == 1 && p1 =~= seq![B_SLASH, B_SLASH]),
        spec_escape_path(p1) + suffix == spec_escape_path(p2) + suffix,
    ensures
        p1 == p2,
{
    lemma_add_cancel_right(spec_escape_path(p1), spec_escape_path(p2), suffix);
    if p1.len() == 1 && p2.len() == 1 {
        assert(p1 =~= p2);
    } else if p1.len() > 1 && p2.len() > 1 {
        lemma_escape_name_injective(p1.skip(1), p2.skip(1));
        assert(p1.len() == p2.len());
        assert forall|k: int| 1 <= k < p1.len() implies p1[k] == p2[k] by {
            assert(p1[k] == p1.skip(1)[k - 1]);
            assert(p2[k] == p2.skip(1)[k - 1]);
        }
        assert(p1 =~= p2);
    } else if p1.len() == 1 {
        lemma_root_escape_forces_double_slash(p1, p2);
    } else {
        lemma_root_escape_forces_double_slash(p2, p1);
    }
}

proof fn lemma_root_escape_forces_double_slash(p1: Seq<u8>, p2: Seq<u8>)
    requires
        is_abs_path(p1),
        is_abs_path(p2),
        p1.len() == 1,
        p2.len() > 1,
        spec_escape_path(p1) == spec_escape_path(p2),
    ensures
        p2 =~= seq![B_SLASH, B_SLASH],
{
    assert(escape_from(p1, 1) =~= Seq::<u8>::empty());
    assert(spec_escape_path(p1) =~= seq![B_DASH]);
    let t = p2.skip(1);
    assert(t.len() >= 1);
    assert(escape_from(t, 0) == escape_byte(t[0], true) + escape_from(t, 1));
    assert(escape_from(t, 0).len() == 1);
    if t.len() > 1 {
        assert(escape_from(t, 1).len() >= escape_byte(t[1], false).len());
        assert(false);
    }
    assert(escape_from(t, 1) =~= Seq::<u8>::empty());
    assert(escape_byte(t[0], true) =~= seq![B_DASH]);
    assert(escape_byte(t[0], true)[0] == B_DASH);
    assert(t[0] == B_SLASH);
}

fn hex_digit(n: u8) -> (r: u8)
    requires
        n < 16,
    ensures
        r == spec_hex_digit(n),
{
    if n < 10 {
        B_0 + n
    } else {
        B_LOWER_A + (n - 10)
    }
}

/// Escapes one unit-name component exactly as systemd does.
pub fn escape_name(s: &[u8]) -> (r: Vec<u8>)
    ensures
        r@ == spec_escape_name(s@),
{
    let mut out: Vec<u8> = Vec::new();
    let mut i: usize = 0;
    while i < s.len()
        invariant
            i <= s.len(),
            out@ + escape_from(s@, i as int) == spec_escape_name(s@),
        decreases s.len() - i,
    {
        let ghost prev = out@;
        let b = s[i];
        if b == B_SLASH {
            out.push(B_DASH);
        } else if (b == B_DOT && i > 0) || b == B_UNDERSCORE || b == B_COLON || (B_0 <= b && b <= B_9) || (
        B_UPPER_A <= b && b <= B_UPPER_Z) || (B_LOWER_A <= b && b <= B_LOWER_Z) {
            out.push(b);
        } else {
            out.push(B_BACKSLASH);
            out.push(B_LOWER_X);
            out.push(hex_digit(b / 16));
            out.push(hex_digit(b % 16));
        }
        proof {
            assert(out@ =~= prev + escape_byte(s@[i as int], i == 0));
            assert(out@ + escape_from(s@, i + 1) =~= prev + escape_from(s@, i as int));
        }
        i = i + 1;
    }
    proof {
        assert(out@ + escape_from(s@, i as int) =~= out@);
    }
    out
}

/// Escapes an absolute path and appends the suffix, failing with
/// `InvalidPath` on any other input.
pub fn sd_escape_path(path: &[u8], suffix: &[u8]) -> (r: Result<Vec<u8>, GenError>)
    ensures
        is_abs_path(path@) ==> (r matches Ok(v) && v@ == spec_escape_path(path@) + suffix@),
        !is_abs_path(path@) ==> r == Err::<Vec<u8>, GenError>(GenError::InvalidPath),
{
    if path.len() == 0 || path[0] != B_SLASH {
        return Err(GenError::InvalidPath);
    }
    let name: &[u8] = if path.len() == 1 {
        path
    } else {
        slice_subrange(path, 1, path.len())
    };
    proof {
        if path@.len() > 1 {
            assert(name@ =~= path@.skip(1));
        }
    }
    let mut out = escape_name(name);
    out.extend_from_slice(suffix);
    Ok(out)
}

} // verus!
