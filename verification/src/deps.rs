//! The dependency option extractor: turns `x-systemd.*` mount options into
//! the dependency lines of the generated unit.
//!
//! `x-systemd.after=`, `x-systemd.requires=` and `x-systemd.wants=` values
//! are escaped (device paths as `.device` units, other absolute paths as
//! `.mount` units, anything else passes through as a unit name); a
//! requirement also implies an ordering, so `requires`/`wants` values join
//! the `After` list too.  `x-systemd.requires-mounts-for=` values are copied
//! verbatim.  Nonempty lists render as `Field=value value ...` lines in the
//! fixed order After, Requires, Wants, RequiresMountsFor.
use vstd::prelude::*;
use vstd::string::StringSliceAdditionalSpecFns;
use vstd::utf8::is_ascii_chars;
use crate::bytes::{
    has_prefix,
    lemma_ascii_str_bytes,
    str_bytes,
    strip_prefix,
    B_NEWLINE,
    B_SLASH,
    B_SPACE,
};
use crate::escape::{is_abs_path, sd_escape_path, spec_escape_path};
use crate::GenError;

verus! {

/// The views of a sequence of byte vectors.
pub open spec fn byte_views(s: Seq<Vec<u8>>) -> Seq<Seq<u8>> {
    s.map_values(|v: Vec<u8>| v@)
}

/// The escaped form of one directive value: device paths become device
/// units, other absolute paths become mount units, anything else is already
/// a unit name and passes through unchanged.
pub open spec fn spec_escape_dep(v: Seq<u8>) -> Seq<u8> {
    if "/dev/".spec_bytes().is_prefix_of(v) {
        spec_escape_path(v) + ".device".spec_bytes()
    } else if is_abs_path(v) {
        spec_escape_path(v) + ".mount".spec_bytes()
    } else {
        v
    }
}

/// The values of one directive key over an option list, in encounter order,
/// escaped where the directive calls for it.
pub open spec fn spec_key_list(opts: Seq<Seq<u8>>, key: Seq<u8>, esc: bool) -> Seq<Seq<u8>>
    decreases opts.len(),
{
    if opts.len() == 0 {
        Seq::empty()
    } else {
        let rest = spec_key_list(opts.drop_last(), key, esc);
        let o = opts.last();
        if key.is_prefix_of(o) {
            let v = o.skip(key.len() as int);
            rest.push(
                if esc {
                    spec_escape_dep(v)
                } else {
                    v
                },
            )
        } else {
            rest
        }
    }
}

/// The `After` list: `after`, `requires` and `wants` values, escaped, in
/// encounter order.
pub open spec fn spec_after_list(opts: Seq<Seq<u8>>) -> Seq<Seq<u8>>
    decreases opts.len(),
{
    if opts.len() == 0 {
        Seq::empty()
    } else {
        let rest = spec_after_list(opts.drop_last());
        let o = opts.last();
        if "x-systemd.after=".spec_bytes().is_prefix_of(o) {
            rest.push(spec_escape_dep(o.skip("x-systemd.after=".spec_bytes().len() as int)))
        } else if "x-systemd.requires=".spec_bytes().is_prefix_of(o) {
            rest.push(spec_escape_dep(o.skip("x-systemd.requires=".spec_bytes().len() as int)))
        } else if "x-systemd.wants=".spec_bytes().is_prefix_of(o) {
            rest.push(spec_escape_dep(o.skip("x-systemd.wants=".spec_bytes().len() as int)))
        } else {
            rest
        }
    }
}

/// Values joined by one separator byte.
pub open spec fn spec_join(vals: Seq<Seq<u8>>, sep: u8) -> Seq<u8>
    decreases vals.len(),
{
    if vals.len() == 0 {
        Seq::empty()
    } else if vals.len() == 1 {
        vals[0]
    } else {
        spec_join(vals.drop_last(), sep) + seq![sep] + vals.last()
    }
}

/// One rendered `Field=...` line, or nothing where the list is empty.
pub open spec fn spec_field_line(prefix: Seq<u8>, vals: Seq<Seq<u8>>) -> Seq<Seq<u8>> {
    if vals.len() == 0 {
        Seq::empty()
    } else {
        seq![prefix + spec_join(vals, B_SPACE)]
    }
}

/// The rendered dependency lines of an option list, newline-joined.
pub open spec fn spec_render_deps(opts: Seq<Seq<u8>>) -> Seq<u8> {
    spec_join(
        spec_field_line("After=".spec_bytes(), spec_after_list(opts)) + spec_field_line(
            "Requires=".spec_bytes(),
            spec_key_list(opts, "x-systemd.requires=".spec_bytes(), true),
        ) + spec_field_line(
            "Wants=".spec_bytes(),
            spec_key_list(opts, "x-systemd.wants=".spec_bytes(), true),
        ) + spec_field_line(
            "RequiresMountsFor=".spec_bytes(),
            spec_key_list(opts, "x-systemd.requires-mounts-for=".spec_bytes(), false),
        ),
        B_NEWLINE,
    )
}

proof fn lemma_keys_exclusive(o: Seq<u8>)
    ensures
        "x-systemd.after=".spec_bytes().is_prefix_of(o) ==> !"x-systemd.requires=".spec_bytes().is_prefix_of(o) && !"x-systemd.wants=".spec_bytes().is_prefix_of(o) && !"x-systemd.requires-mounts-for=".spec_bytes().is_prefix_of(o),
        "x-systemd.requires=".spec_bytes().is_prefix_of(o) ==> !"x-systemd.wants=".spec_bytes().is_prefix_of(o) && !"x-systemd.requires-mounts-for=".spec_bytes().is_prefix_of(o),
        "x-systemd.wants=".spec_bytes().is_prefix_of(o) ==> !"x-systemd.requires-mounts-for=".spec_bytes().is_prefix_of(o),
{
    reveal_strlit("x-systemd.after=");
    reveal_strlit("x-systemd.requires=");
    reveal_strlit("x-systemd.wants=");
    reveal_strlit("x-systemd.requires-mounts-for=");
    assert(is_ascii_chars("x-systemd.after="@));
    assert(is_ascii_chars("x-systemd.requires="@));
    assert(is_ascii_chars("x-systemd.wants="@));
    assert(is_ascii_chars("x-systemd.requires-mounts-for="@));
    lemma_ascii_str_bytes("x-systemd.after=");
    lemma_ascii_str_bytes("x-systemd.requires=");
    lemma_ascii_str_bytes("x-systemd.wants=");
    lemma_ascii_str_bytes("x-systemd.requires-mounts-for=");
    let ka = "x-systemd.after=".spec_bytes();
    let kr = "x-systemd.requires=".spec_bytes();
    let kw = "x-systemd.wants=".spec_bytes();
    let km = "x-systemd.requires-mounts-for=".spec_bytes();
    assert(ka[10] != kr[10] && ka[10] != kw[10] && ka[10] != km[10] && kr[10] != kw[10] && kw[10]
        != km[10] && kr[18] != km[18]);
    if ka.is_prefix_of(o) {
        assert(o[10] == ka[10]) by {
            assert(ka[10] == o.subrange(0, ka.len() as int)[10]);
        }
    }
    if kr.is_prefix_of(o) {
        assert(o[10] == kr[10] && o[18] == kr[18]) by {
            assert(kr[10] == o.subrange(0, kr.len() as int)[10]);
            assert(kr[18] == o.subrange(0, kr.len() as int)[18]);
        }
    }
    if kw.is_prefix_of(o) {
        assert(o[10] == kw[10]) by {
            assert(kw[10] == o.subrange(0, kw.len() as int)[10]);
        }
    }
    if km.is_prefix_of(o) {
        assert(o[10] == km[10] && o[18] == km[18]) by {
            assert(km[10] == o.subrange(0, km.len() as int)[10]);
            assert(km[18] == o.subrange(0, km.len() as int)[18]);
        }
    }
}

/// Escapes one directive value; a value that begins with '/' is an absolute
/// path, so escaping cannot fail.
fn escape_dep(v: &[u8]) -> (r: Result<Vec<u8>, GenError>)
    ensures
        r matches Ok(ev) && ev@ == spec_escape_dep(v@),
{
    if has_prefix(v, "/dev/".as_bytes()) {
        proof {
            reveal_strlit("/dev/");
            assert(is_ascii_chars("/dev/"@));
            lemma_ascii_str_bytes("/dev/");
            assert(v@[0] == "/dev/".spec_bytes()[0]);
        }
        sd_escape_path(v, ".device".as_bytes())
    } else if v.len() > 0 && v[0] == B_SLASH {
        sd_escape_path(v, ".mount".as_bytes())
    } else {
        Ok(vstd::slice::slice_to_vec(v))
    }
}

/// Joins byte vectors with one separator byte.
fn join_bytes(vals: &Vec<Vec<u8>>, sep: u8) -> (r: Vec<u8>)
    ensures
        r@ == spec_join(byte_views(vals@), sep),
{
    let mut out: Vec<u8> = Vec::new();
    let mut i: usize = 0;
    while i < vals.len()
        invariant
            i <= vals.len(),
            out@ == spec_join(byte_views(vals@).take(i as int), sep),
        decreases vals.len() - i,
    {
        let ghost prev = out@;
        if i > 0 {
            out.push(sep);
        }
        out.extend_from_slice(vals[i].as_slice());
        proof {
            let vs = byte_views(vals@);
            assert(vs.take(i + 1).drop_last() =~= vs.take(i as int));
            assert(vs.take(i + 1).last() == vs[i as int]);
            if i == 0 {
                assert(out@ =~= vs.take(1)[0]);
            } else {
                assert(out@ =~= spec_join(vs.take(i as int), sep) + seq![sep] + vs[i as int]);
            }
        }
        i = i + 1;
    }
    proof {
        assert(byte_views(vals@).take(vals@.len() as int) =~= byte_views(vals@));
    }
    out
}

/// Extracts and renders the dependency lines of an option list, exactly as
/// `spec_render_deps` lays them out.
pub fn extra_dependencies(opts: &Vec<Vec<u8>>) -> (r: Result<Vec<u8>, GenError>)
    ensures
        r matches Ok(v) && v@ == spec_render_deps(byte_views(opts@)),
{
    let mut after: Vec<Vec<u8>> = Vec::new();
    let mut reqs: Vec<Vec<u8>> = Vec::new();
    let mut wants: Vec<Vec<u8>> = Vec::new();
    let mut rmf: Vec<Vec<u8>> = Vec::new();
    let mut i: usize = 0;
    while i < opts.len()
        invariant
            i <= opts.len(),
            byte_views(after@) == spec_after_list(byte_views(opts@).take(i as int)),
            byte_views(reqs@) == spec_key_list(
                byte_views(opts@).take(i as int),
                "x-systemd.requires=".spec_bytes(),
                true,
            ),
            byte_views(wants@) == spec_key_list(
                byte_views(opts@).take(i as int),
                "x-systemd.wants=".spec_bytes(),
                true,
            ),
            byte_views(rmf@) == spec_key_list(
                byte_views(opts@).take(i as int),
                "x-systemd.requires-mounts-for=".spec_bytes(),
                false,
            ),
        decreases opts.len() - i,
    {
        let ghost os = byte_views(opts@);
        proof {
            assert(os.take(i + 1).drop_last() =~= os.take(i as int));
            assert(os.take(i + 1).last() == os[i as int]);
            lemma_keys_exclusive(os[i as int]);
        }
        let o: &Vec<u8> = &opts[i];
        if let Some(v) = strip_prefix(o.as_slice(), "x-systemd.after=".as_bytes()) {
            let ev = escape_dep(v)?;
            after.push(ev);
        } else if let Some(v) = strip_prefix(o.as_slice(), "x-systemd.requires=".as_bytes()) {
            let ev = escape_dep(v)?;
            after.push(ev.clone());
            reqs.push(ev);
        } else if let Some(v) = strip_prefix(o.as_slice(), "x-systemd.wants=".as_bytes()) {
            let ev = escape_dep(v)?;
            after.push(ev.clone());
            wants.push(ev);
        } else if let Some(v) = strip_prefix(
            o.as_slice(),
            "x-systemd.requires-mounts-for=".as_bytes(),
        ) {
            rmf.push(vstd::slice::slice_to_vec(v));
        }
        proof {
            assert(byte_views(after@) =~= spec_after_list(os.take(i + 1)));
            assert(byte_views(reqs@) =~= spec_key_list(
                os.take(i + 1),
                "x-systemd.requires=".spec_bytes(),
                true,
            ));
            assert(byte_views(wants@) =~= spec_key_list(
                os.take(i + 1),
                "x-systemd.wants=".spec_bytes(),
                true,
            ));
            assert(byte_views(rmf@) =~= spec_key_list(
                os.take(i + 1),
                "x-systemd.requires-mounts-for=".spec_bytes(),
                false,
            ));
        }
        i = i + 1;
    }
    proof {
        assert(byte_views(opts@).take(opts@.len() as int) =~= byte_views(opts@));
    }
    let mut lines: Vec<Vec<u8>> = Vec::new();
    if after.len() > 0 {
        let mut l = str_bytes("After=");
        let j = join_bytes(&after, B_SPACE);
        l.extend_from_slice(j.as_slice());
        lines.push(l);
    }
    if reqs.len() > 0 {
        let mut l = str_bytes("Requires=");
        let j = join_bytes(&reqs, B_SPACE);
        l.extend_from_slice(j.as_slice());
        lines.push(l);
    }
    if wants.len() > 0 {
        let mut l = str_bytes("Wants=");
        let j = join_bytes(&wants, B_SPACE);
        l.extend_from_slice(j.as_slice());
        lines.push(l);
    }
    if rmf.len() > 0 {
        let mut l = str_bytes("RequiresMountsFor=");
        let j = join_bytes(&rmf, B_SPACE);
        l.extend_from_slice(j.as_slice());
        lines.push(l);
    }
    proof {
        let os = byte_views(opts@);
        assert(byte_views(lines@) =~~= spec_field_line("After=".spec_bytes(), spec_after_list(os))
            + spec_field_line(
            "Requires=".spec_bytes(),
            spec_key_list(os, "x-systemd.requires=".spec_bytes(), true),
        ) + spec_field_line(
            "Wants=".spec_bytes(),
            spec_key_list(os, "x-systemd.wants=".spec_bytes(), true),
        ) + spec_field_line(
            "RequiresMountsFor=".spec_bytes(),
            spec_key_list(os, "x-systemd.requires-mounts-for=".spec_bytes(), false),
        ));
    }
    Ok(join_bytes(&lines, B_NEWLINE))
}

} // verus!
