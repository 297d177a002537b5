//! The cmdline root extractor: scans the kernel command line for a root
//! file system of the target type and synthesizes a mount entry for it.
//!
//! The command line is tokenized on whitespace; the last occurrence of a
//! key wins (later kernel arguments override earlier ones).  The sentinel
//! `gpt-auto` maps to the fixed synthetic device path, the sentinel `fstab`
//! defers to the real mount table and yields nothing; options come from the
//! last `rootflags=` value, comma-split.
use vstd::prelude::*;
use vstd::slice::slice_to_vec;
use vstd::string::StringSliceAdditionalSpecFns;
use crate::bytes::{eq_bytes, str_bytes, strip_prefix, B_COMMA, B_CR, B_SPACE, B_TAB};
use crate::deps::byte_views;

verus! {

/// ASCII whitespace, as the command line is split on it.
pub open spec fn is_space(b: u8) -> bool {
    b == B_SPACE || (B_TAB <= b && b <= B_CR)
}

/// The whitespace-separated tokens of `s[i..]`, with `cur` the token begun
/// before position `i`.
pub open spec fn spec_tokens_from(s: Seq<u8>, i: int, cur: Seq<u8>) -> Seq<Seq<u8>>
    decreases s.len() - i,
{
    if i < 0 || i >= s.len() {
        if cur.len() > 0 {
            seq![cur]
        } else {
            Seq::empty()
        }
    } else if is_space(s[i]) {
        (if cur.len() > 0 {
            seq![cur]
        } else {
            Seq::empty()
        }) + spec_tokens_from(s, i + 1, Seq::empty())
    } else {
        spec_tokens_from(s, i + 1, cur.push(s[i]))
    }
}

/// The whitespace-separated tokens of a byte string.
pub open spec fn spec_tokens(s: Seq<u8>) -> Seq<Seq<u8>> {
    spec_tokens_from(s, 0, Seq::empty())
}

/// The values of the tokens bearing a key prefix, in order.
pub open spec fn spec_key_vals(ts: Seq<Seq<u8>>, key: Seq<u8>) -> Seq<Seq<u8>>
    decreases ts.len(),
{
    if ts.len() == 0 {
        Seq::empty()
    } else {
        let rest = spec_key_vals(ts.drop_last(), key);
        if key.is_prefix_of(ts.last()) {
            rest.push(ts.last().skip(key.len() as int))
        } else {
            rest
        }
    }
}

/// The values following a key over the whole command line, in order.
pub open spec fn spec_cmdline_vals(s: Seq<u8>, key: Seq<u8>) -> Seq<Seq<u8>> {
    spec_key_vals(spec_tokens(s), key)
}

/// The comma-separated pieces of `s[i..]`, empty pieces kept.
pub open spec fn spec_split_comma_from(s: Seq<u8>, i: int, cur: Seq<u8>) -> Seq<Seq<u8>>
    decreases s.len() - i,
{
    if i < 0 || i >= s.len() {
        seq![cur]
    } else if s[i] == B_COMMA {
        seq![cur] + spec_split_comma_from(s, i + 1, Seq::empty())
    } else {
        spec_split_comma_from(s, i + 1, cur.push(s[i]))
    }
}

/// The comma-separated pieces of a byte string, empty pieces kept.
pub open spec fn spec_split_comma(s: Seq<u8>) -> Seq<Seq<u8>> {
    spec_split_comma_from(s, 0, Seq::empty())
}

/// The option list of the synthetic root entry: the last `rootflags=`
/// value, comma-split; no value, no options.
pub open spec fn spec_rootflags(c: Seq<u8>) -> Seq<Seq<u8>> {
    let fl = spec_cmdline_vals(c, "rootflags=".spec_bytes());
    if fl.len() == 0 {
        Seq::empty()
    } else {
        spec_split_comma(fl.last())
    }
}

/// The synthetic root entry of a command line: its device spec, mountpoint
/// and options, or nothing where the root is not of the target type or is
/// deferred to the mount table.
pub open spec fn spec_cmdline_root(c: Seq<u8>) -> Option<(Seq<u8>, Seq<u8>, Seq<Seq<u8>>)> {
    let tys = spec_cmdline_vals(c, "rootfstype=".spec_bytes());
    if tys.len() == 0 || tys.last() != "bcachefs".spec_bytes() {
        None
    } else {
        let roots = spec_cmdline_vals(c, "root=".spec_bytes());
        if roots.len() == 0 {
            None
        } else if roots.last() == "fstab".spec_bytes() {
            None
        } else {
            let dev = if roots.last() == "gpt-auto".spec_bytes() {
                "/dev/gpt-auto-root".spec_bytes()
            } else {
                roots.last()
            };
            Some((dev, "/sysroot".spec_bytes(), spec_rootflags(c)))
        }
    }
}

fn is_space_byte(b: u8) -> (r: bool)
    ensures
        r == is_space(b),
{
    b == B_SPACE || (B_TAB <= b && b <= B_CR)
}

/// Splits a byte string into its whitespace-separated tokens.
fn split_whitespace(s: &[u8]) -> (r: Vec<Vec<u8>>)
    ensures
        byte_views(r@) == spec_tokens(s@),
{
    let mut toks: Vec<Vec<u8>> = Vec::new();
    let mut cur: Vec<u8> = Vec::new();
    let mut i: usize = 0;
    while i < s.len()
        invariant
            i <= s.len(),
            byte_views(toks@) + spec_tokens_from(s@, i as int, cur@) == spec_tokens(s@),
        decreases s.len() - i,
    {
        let ghost prev_toks = byte_views(toks@);
        let ghost prev_cur = cur@;
        if is_space_byte(s[i]) {
            if cur.len() > 0 {
                toks.push(cur);
                cur = Vec::new();
            }
            proof {
                assert(byte_views(toks@) =~= prev_toks + (if prev_cur.len() > 0 {
                    seq![prev_cur]
                } else {
                    Seq::<Seq<u8>>::empty()
                }));
                assert(cur@ =~= Seq::<u8>::empty());
                assert(spec_tokens_from(s@, i as int, prev_cur) == (if prev_cur.len() > 0 {
                    seq![prev_cur]
                } else {
                    Seq::<Seq<u8>>::empty()
                }) + spec_tokens_from(s@, i + 1, Seq::empty()));
                assert(byte_views(toks@) + spec_tokens_from(s@, i + 1, cur@) =~= prev_toks
                    + spec_tokens_from(s@, i as int, prev_cur));
            }
        } else {
            cur.push(s[i]);
            proof {
                assert(cur@ == prev_cur.push(s@[i as int]));
            }
        }
        i = i + 1;
    }
    if cur.len() > 0 {
        let ghost prev_toks = byte_views(toks@);
        let ghost prev_cur = cur@;
        toks.push(cur);
        proof {
            assert(byte_views(toks@) =~= prev_toks + seq![prev_cur]);
        }
    } else {
        proof {
            assert(byte_views(toks@) =~= byte_views(toks@) + spec_tokens_from(
                s@,
                s@.len() as int,
                cur@,
            ));
        }
    }
    toks
}

/// Splits a byte string on commas, empty pieces kept.
fn split_comma(s: &[u8]) -> (r: Vec<Vec<u8>>)
    ensures
        byte_views(r@) == spec_split_comma(s@),
{
    let mut out: Vec<Vec<u8>> = Vec::new();
    let mut cur: Vec<u8> = Vec::new();
    let mut i: usize = 0;
    while i < s.len()
        invariant
            i <= s.len(),
            byte_views(out@) + spec_split_comma_from(s@, i as int, cur@) == spec_split_comma(s@),
        decreases s.len() - i,
    {
        let ghost prev_out = byte_views(out@);
        let ghost prev_cur = cur@;
        if s[i] == B_COMMA {
            out.push(cur);
            cur = Vec::new();
            proof {
                assert(byte_views(out@) =~= prev_out + seq![prev_cur]);
                assert(cur@ =~= Seq::<u8>::empty());
                assert(spec_split_comma_from(s@, i as int, prev_cur) == seq![prev_cur]
                    + spec_split_comma_from(s@, i + 1, Seq::empty()));
                assert(byte_views(out@) + spec_split_comma_from(s@, i + 1, cur@) =~= prev_out
                    + spec_split_comma_from(s@, i as int, prev_cur));
            }
        } else {
            cur.push(s[i]);
            proof {
                assert(cur@ == prev_cur.push(s@[i as int]));
            }
        }
        i = i + 1;
    }
    let ghost prev_out = byte_views(out@);
    let ghost prev_cur = cur@;
    out.push(cur);
    proof {
        assert(byte_views(out@) =~= prev_out + seq![prev_cur]);
    }
    out
}

/// The values following a key on the command line, in encounter order.
pub fn cmdline_vals(cmdline: &[u8], key: &[u8]) -> (r: Vec<Vec<u8>>)
    ensures
        byte_views(r@) == spec_cmdline_vals(cmdline@, key@),
{
    let toks = split_whitespace(cmdline);
    let mut out: Vec<Vec<u8>> = Vec::new();
    let mut i: usize = 0;
    while i < toks.len()
        invariant
            i <= toks.len(),
            byte_views(toks@) == spec_tokens(cmdline@),
            byte_views(out@) == spec_key_vals(byte_views(toks@).take(i as int), key@),
        decreases toks.len() - i,
    {
        let ghost ts = byte_views(toks@);
        let ghost prev_out = byte_views(out@);
        proof {
            assert(ts.take(i + 1).drop_last() =~= ts.take(i as int));
            assert(ts.take(i + 1).last() == ts[i as int]);
        }
        if let Some(v) = strip_prefix(toks[i].as_slice(), key) {
            out.push(slice_to_vec(v));
            proof {
                assert(byte_views(out@) =~= prev_out.push(v@));
            }
        }
        i = i + 1;
    }
    proof {
        assert(byte_views(toks@).take(toks@.len() as int) =~= byte_views(toks@));
    }
    out
}

/// Extracts the synthetic root entry of a command line, exactly as
/// `spec_cmdline_root` lays it out.
pub fn cmdline_root(cmdline: &[u8]) -> (r: Option<(Vec<u8>, Vec<u8>, Vec<Vec<u8>>)>)
    ensures
        (r matches Some(t) && spec_cmdline_root(cmdline@) == Some(
            (t.0@, t.1@, byte_views(t.2@)),
        )) || (r is None && spec_cmdline_root(cmdline@) is None),
{
    let tys = cmdline_vals(cmdline, "rootfstype=".as_bytes());
    if tys.len() == 0 {
        return None;
    }
    proof {
        assert(byte_views(tys@).last() == tys@[tys@.len() - 1]@);
    }
    if !eq_bytes(tys[tys.len() - 1].as_slice(), "bcachefs".as_bytes()) {
        return None;
    }
    let roots = cmdline_vals(cmdline, "root=".as_bytes());
    if roots.len() == 0 {
        return None;
    }
    proof {
        assert(byte_views(roots@).last() == roots@[roots@.len() - 1]@);
    }
    let root: &Vec<u8> = &roots[roots.len() - 1];
    if eq_bytes(root.as_slice(), "fstab".as_bytes()) {
        return None;
    }
    let dev: Vec<u8> = if eq_bytes(root.as_slice(), "gpt-auto".as_bytes()) {
        str_bytes("/dev/gpt-auto-root")
    } else {
        slice_to_vec(root.as_slice())
    };
    let flags = cmdline_vals(cmdline, "rootflags=".as_bytes());
    let mut opts: Vec<Vec<u8>> = Vec::new();
    if flags.len() > 0 {
        proof {
            assert(byte_views(flags@).last() == flags@[flags@.len() - 1]@);
        }
        opts = split_comma(flags[flags.len() - 1].as_slice());
    } else {
        proof {
            assert(byte_views(opts@) =~= Seq::<Seq<u8>>::empty());
        }
    }
    Some((dev, str_bytes("/sysroot"), opts))
}

} // verus!
