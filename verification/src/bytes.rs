//! Byte constants and small byte-sequence helpers shared by the pipeline.
use vstd::prelude::*;
use vstd::slice::{slice_subrange, slice_to_vec};
use vstd::string::StringSliceAdditionalSpecFns;
use vstd::utf8::{is_ascii_chars, is_ascii_chars_encode_utf8};

verus! {

pub const B_TAB: u8 = 9;

pub const B_CR: u8 = 13;

pub const B_SPACE: u8 = 32;

pub const B_NEWLINE: u8 = 10;

pub const B_COMMA: u8 = 44;

pub const B_DASH: u8 = 45;

pub const B_DOT: u8 = 46;

pub const B_SLASH: u8 = 47;

pub const B_0: u8 = 48;

pub const B_9: u8 = 57;

pub const B_COLON: u8 = 58;

pub const B_UPPER_A: u8 = 65;

pub const B_UPPER_Z: u8 = 90;

pub const B_BACKSLASH: u8 = 92;

pub const B_UNDERSCORE: u8 = 95;

pub const B_LOWER_A: u8 = 97;

pub const B_LOWER_X: u8 = 120;

pub const B_LOWER_Z: u8 = 122;

/// Whether two byte slices hold the same bytes.
pub fn eq_bytes(a: &[u8], b: &[u8]) -> (r: bool)
    ensures
        r == (a@ == b@),
{
    if a.len() != b.len() {
        proof {
            assert(a@ != b@);
        }
        return false;
    }
    let mut i: usize = 0;
    while i < a.len()
        invariant
            i <= a.len(),
            a.len() == b.len(),
            forall|j: int| 0 <= j < i ==> a@[j] == b@[j],
        decreases a.len() - i,
    {
        if a[i] != b[i] {
            return false;
        }
        i = i + 1;
    }
    proof {
        assert(a@ =~= b@);
    }
    true
}

/// Whether `p` is a prefix of `s`.
pub fn has_prefix(s: &[u8], p: &[u8]) -> (r: bool)
    ensures
        r == p@.is_prefix_of(s@),
{
    if p.len() > s.len() {
        return false;
    }
    let mut i: usize = 0;
    while i < p.len()
        invariant
            i <= p.len(),
            p.len() <= s.len(),
            forall|j: int| 0 <= j < i ==> s@[j] == p@[j],
        decreases p.len() - i,
    {
        if s[i] != p[i] {
            proof {
                assert(!p@.is_prefix_of(s@)) by {
                    assert(p@[i as int] != s@.subrange(0, p@.len() as int)[i as int]);
                }
            }
            return false;
        }
        i = i + 1;
    }
    proof {
        assert(p@ =~= s@.subrange(0, p@.len() as int));
    }
    true
}

/// The bytes of `s` after a prefix `p`, or `None` where `p` is no prefix.
pub fn strip_prefix<'a>(s: &'a [u8], p: &[u8]) -> (r: Option<&'a [u8]>)
    ensures
        p@.is_prefix_of(s@) ==> (r matches Some(t) && t@ == s@.skip(p@.len() as int)),
        !p@.is_prefix_of(s@) ==> r is None,
{
    if !has_prefix(s, p) {
        return None;
    }
    let t = slice_subrange(s, p.len(), s.len());
    proof {
        assert(t@ =~= s@.skip(p@.len() as int));
    }
    Some(t)
}

/// A `Vec` holding the bytes of a string slice.
pub fn str_bytes(s: &str) -> (r: Vec<u8>)
    ensures
        r@ == s.spec_bytes(),
{
    slice_to_vec(s.as_bytes())
}

/// The bytes of a nonempty ASCII string begin with its first character.
pub proof fn lemma_ascii_str_bytes(s: &str)
    requires
        is_ascii_chars(s@),
    ensures
        s.spec_bytes().len() == s@.len(),
        forall|i: int| 0 <= i < s@.len() ==> s.spec_bytes()[i] == s@[i] as u8,
{
    is_ascii_chars_encode_utf8(s@);
}

} // verus!
