//! The orchestrator: filters the mount table to the target file system
//! type, rewrites mountpoints for the initrd, merges the cmdline-derived
//! entry, and plans one generated unit per surviving entry, fail-fast.
use vstd::prelude::*;
use vstd::slice::slice_to_vec;
use vstd::string::StringSliceAdditionalSpecFns;
use crate::bytes::{eq_bytes, str_bytes, B_SLASH};
use crate::cmdline::{cmdline_root, spec_cmdline_root};
use crate::deps::byte_views;
use crate::escape::is_abs_path;
use crate::unit::{gen_unit, spec_gen_unit, UnitArtifact, UnitArtifactView};
use crate::GenError;

verus! {

/// One record of the mount table, as the table parser hands it over.
pub struct MountEntry {
    /// The "what to mount" field.
    pub fs_spec: Vec<u8>,
    /// Where it is mounted.
    pub mountpoint: Vec<u8>,
    /// The file system type field.
    pub vfs_type: Vec<u8>,
    /// The mount options, in table order.
    pub mount_options: Vec<Vec<u8>>,
}

/// The mathematical shape of a mount-table record.
pub struct MountEntryView {
    pub fs_spec: Seq<u8>,
    pub mountpoint: Seq<u8>,
    pub vfs_type: Seq<u8>,
    pub mount_options: Seq<Seq<u8>>,
}

impl View for MountEntry {
    type V = MountEntryView;

    open spec fn view(&self) -> MountEntryView {
        MountEntryView {
            fs_spec: self.fs_spec@,
            mountpoint: self.mountpoint@,
            vfs_type: self.vfs_type@,
            mount_options: byte_views(self.mount_options@),
        }
    }
}

/// One unit of work for the emitter: a device spec, the mountpoint it
/// serves, and the entry's options.
pub struct ResolvedMount {
    pub device: Vec<u8>,
    pub mountpoint: Vec<u8>,
    pub options: Vec<Vec<u8>>,
}

/// The mathematical shape of one unit of work.
pub struct ResolvedMountView {
    pub device: Seq<u8>,
    pub mountpoint: Seq<u8>,
    pub options: Seq<Seq<u8>>,
}

impl View for ResolvedMount {
    type V = ResolvedMountView;

    open spec fn view(&self) -> ResolvedMountView {
        ResolvedMountView {
            device: self.device@,
            mountpoint: self.mountpoint@,
            options: byte_views(self.options@),
        }
    }
}

/// The views of a sequence of mount entries.
pub open spec fn entry_views(s: Seq<MountEntry>) -> Seq<MountEntryView> {
    s.map_values(|e: MountEntry| e@)
}

/// The views of a sequence of resolved mounts.
pub open spec fn resolved_views(s: Seq<ResolvedMount>) -> Seq<ResolvedMountView> {
    s.map_values(|m: ResolvedMount| m@)
}

/// The views of a sequence of unit artifacts.
pub open spec fn unit_views(s: Seq<UnitArtifact>) -> Seq<UnitArtifactView> {
    s.map_values(|a: UnitArtifact| a@)
}

/// The initrd form of a mountpoint: the initrd target directory prefixed
/// to it; the root path maps to the target directory itself, with no
/// trailing separator.
pub open spec fn spec_initrd_prefix(p: Seq<u8>) -> Result<Seq<u8>, GenError> {
    if !is_abs_path(p) {
        Err(GenError::InvalidPath)
    } else if p.len() == 1 {
        Ok("/sysroot".spec_bytes())
    } else {
        Ok("/sysroot".spec_bytes() + p)
    }
}

/// Whether an entry survives the filter: it is of the target type, and in
/// the initrd context it also carries the `x-initrd.mount` option.
pub open spec fn spec_entry_selected(e: MountEntryView, in_initrd: bool) -> bool {
    e.vfs_type == "bcachefs".spec_bytes() && (!in_initrd || e.mount_options.contains(
        "x-initrd.mount".spec_bytes(),
    ))
}

/// The surviving entries as units of work, mountpoints rewritten for the
/// initrd, stopping at the first rewrite error.
pub open spec fn spec_resolve_entries(entries: Seq<MountEntryView>, in_initrd: bool) -> Result<
    Seq<ResolvedMountView>,
    GenError,
>
    decreases entries.len(),
{
    if entries.len() == 0 {
        Ok(Seq::empty())
    } else {
        match spec_resolve_entries(entries.drop_last(), in_initrd) {
            Err(e) => Err(e),
            Ok(rest) => {
                let en = entries.last();
                if !spec_entry_selected(en, in_initrd) {
                    Ok(rest)
                } else if in_initrd {
                    match spec_initrd_prefix(en.mountpoint) {
                        Err(e) => Err(e),
                        Ok(mp) => Ok(
                            rest.push(
                                ResolvedMountView {
                                    device: en.fs_spec,
                                    mountpoint: mp,
                                    options: en.mount_options,
                                },
                            ),
                        ),
                    }
                } else {
                    Ok(
                        rest.push(
                            ResolvedMountView {
                                device: en.fs_spec,
                                mountpoint: en.mountpoint,
                                options: en.mount_options,
                            },
                        ),
                    )
                }
            },
        }
    }
}

/// One generated unit per unit of work, in order, stopping at the first
/// failing entry.
pub open spec fn spec_plan_items(items: Seq<ResolvedMountView>) -> Result<
    Seq<UnitArtifactView>,
    GenError,
>
    decreases items.len(),
{
    if items.len() == 0 {
        Ok(Seq::empty())
    } else {
        match spec_plan_items(items.drop_last()) {
            Err(e) => Err(e),
            Ok(us) => {
                let it = items.last();
                match spec_gen_unit(it.device, it.mountpoint, it.options) {
                    Err(e) => Err(e),
                    Ok(u) => Ok(us.push(u)),
                }
            },
        }
    }
}

/// The full work list of one context: the surviving table entries, the
/// cmdline-derived entry appended last in the initrd context.
pub open spec fn spec_work_list(
    entries: Seq<MountEntryView>,
    in_initrd: bool,
    cmdline: Seq<u8>,
) -> Result<Seq<ResolvedMountView>, GenError> {
    match spec_resolve_entries(entries, in_initrd) {
        Err(e) => Err(e),
        Ok(items) => Ok(
            if in_initrd {
                match spec_cmdline_root(cmdline) {
                    Some(t) => items.push(
                        ResolvedMountView { device: t.0, mountpoint: t.1, options: t.2 },
                    ),
                    None => items,
                }
            } else {
                items
            },
        ),
    }
}

/// The whole plan of one context: one generated unit per entry of the work
/// list, in table order, the cmdline-derived entry last.
pub open spec fn spec_plan_units(
    entries: Seq<MountEntryView>,
    in_initrd: bool,
    cmdline: Seq<u8>,
) -> Result<Seq<UnitArtifactView>, GenError> {
    match spec_work_list(entries, in_initrd, cmdline) {
        Err(e) => Err(e),
        Ok(all) => spec_plan_items(all),
    }
}

/// Rewrites a mountpoint for the initrd, exactly as `spec_initrd_prefix`
/// lays it out.
pub fn initrd_prefix(mountpoint: &[u8]) -> (r: Result<Vec<u8>, GenError>)
    ensures
        (r matches Ok(v) && spec_initrd_prefix(mountpoint@) == Ok::<Seq<u8>, GenError>(v@)) || (
        r matches Err(e) && spec_initrd_prefix(mountpoint@) == Err::<Seq<u8>, GenError>(e)),
{
    if mountpoint.len() == 0 || mountpoint[0] != B_SLASH {
        return Err(GenError::InvalidPath);
    }
    let mut out = str_bytes("/sysroot");
    if mountpoint.len() > 1 {
        out.extend_from_slice(mountpoint);
        proof {
            assert(out@ == "/sysroot".spec_bytes() + mountpoint@);
        }
    } else {
        proof {
            assert(out@ == "/sysroot".spec_bytes());
        }
    }
    Ok(out)
}

/// Whether an option list holds the given option.
fn contains_opt(opts: &Vec<Vec<u8>>, x: &[u8]) -> (r: bool)
    ensures
        r == byte_views(opts@).contains(x@),
{
    let mut i: usize = 0;
    while i < opts.len()
        invariant
            i <= opts.len(),
            forall|j: int| 0 <= j < i ==> byte_views(opts@)[j] != x@,
        decreases opts.len() - i,
    {
        if eq_bytes(opts[i].as_slice(), x) {
            proof {
                assert(byte_views(opts@)[i as int] == x@);
            }
            return true;
        }
        i = i + 1;
    }
    proof {
        assert(!byte_views(opts@).contains(x@));
    }
    false
}

/// A copy of a list of byte vectors.
fn clone_byte_vecs(v: &Vec<Vec<u8>>) -> (r: Vec<Vec<u8>>)
    ensures
        byte_views(r@) == byte_views(v@),
{
    let mut out: Vec<Vec<u8>> = Vec::new();
    let mut i: usize = 0;
    while i < v.len()
        invariant
            i <= v.len(),
            byte_views(out@) == byte_views(v@).take(i as int),
        decreases v.len() - i,
    {
        let ghost prev = byte_views(out@);
        out.push(slice_to_vec(v[i].as_slice()));
        proof {
            assert(byte_views(out@) =~= prev.push(v@[i as int]@));
            assert(byte_views(out@) =~= byte_views(v@).take(i + 1));
        }
        i = i + 1;
    }
    proof {
        assert(byte_views(v@).take(v@.len() as int) =~= byte_views(v@));
    }
    out
}

/// Law: an entry of the target type that lacks the `x-initrd.mount`
/// option contributes nothing to the initrd pass, yet still yields its
/// unit of work, unrewritten, in the real-root pass.
pub proof fn lemma_initrd_filter(s: Seq<MountEntryView>, e: MountEntryView)
    requires
        e.vfs_type == "bcachefs".spec_bytes(),
        !e.mount_options.contains("x-initrd.mount".spec_bytes()),
    ensures
        spec_resolve_entries(s.push(e), true) == spec_resolve_entries(s, true),
        spec_resolve_entries(s, false) matches Ok(rest) ==> spec_resolve_entries(s.push(e), false)
            == Ok::<Seq<ResolvedMountView>, GenError>(
            rest.push(
                ResolvedMountView {
                    device: e.fs_spec,
                    mountpoint: e.mountpoint,
                    options: e.mount_options,
                },
            ),
        ),
{
    assert(s.push(e).drop_last() =~= s);
    assert(s.push(e).last() == e);
}

/// A rewrite error of one entry stands for the whole table.
proof fn lemma_resolve_err_persists(s: Seq<MountEntryView>, in_initrd: bool, j: int, e: GenError)
    requires
        0 <= j <= s.len(),
        spec_resolve_entries(s.take(j), in_initrd) == Err::<Seq<ResolvedMountView>, GenError>(e),
    ensures
        spec_resolve_entries(s, in_initrd) == Err::<Seq<ResolvedMountView>, GenError>(e),
    decreases s.len() - j,
{
    if j == s.len() {
        assert(s.take(j) =~= s);
    } else {
        assert(s.take(j + 1).drop_last() =~= s.take(j));
        assert(spec_resolve_entries(s.take(j + 1), in_initrd) == Err::<
            Seq<ResolvedMountView>,
            GenError,
        >(e));
        lemma_resolve_err_persists(s, in_initrd, j + 1, e);
    }
}

/// A failing entry stands for the whole plan.
proof fn lemma_plan_err_persists(s: Seq<ResolvedMountView>, j: int, e: GenError)
    requires
        0 <= j <= s.len(),
        spec_plan_items(s.take(j)) == Err::<Seq<UnitArtifactView>, GenError>(e),
    ensures
        spec_plan_items(s) == Err::<Seq<UnitArtifactView>, GenError>(e),
    decreases s.len() - j,
{
    if j == s.len() {
        assert(s.take(j) =~= s);
    } else {
        assert(s.take(j + 1).drop_last() =~= s.take(j));
        assert(spec_plan_items(s.take(j + 1)) == Err::<Seq<UnitArtifactView>, GenError>(e));
        lemma_plan_err_persists(s, j + 1, e);
    }
}

/// Plans one context's generated units, exactly as `spec_plan_units` lays
/// them out; the command line is read only in the initrd context.
pub fn plan_units(entries: &Vec<MountEntry>, in_initrd: bool, cmdline: &[u8]) -> (r: Result<
    Vec<UnitArtifact>,
    GenError,
>)
    ensures
        (r matches Ok(us) && spec_plan_units(entry_views(entries@), in_initrd, cmdline@)
            == Ok::<Seq<UnitArtifactView>, GenError>(unit_views(us@))) || (r matches Err(e)
            && spec_plan_units(entry_views(entries@), in_initrd, cmdline@) == Err::<
            Seq<UnitArtifactView>,
            GenError,
        >(e)),
{
    let ghost evs = entry_views(entries@);
    let mut items: Vec<ResolvedMount> = Vec::new();
    proof {
        assert(evs.take(0) =~= Seq::<MountEntryView>::empty());
        assert(resolved_views(items@) =~= Seq::<ResolvedMountView>::empty());
    }
    let mut i: usize = 0;
    while i < entries.len()
        invariant
            i <= entries.len(),
            evs == entry_views(entries@),
            spec_resolve_entries(evs.take(i as int), in_initrd) == Ok::<
                Seq<ResolvedMountView>,
                GenError,
            >(resolved_views(items@)),
        decreases entries.len() - i,
    {
        proof {
            assert(evs.take(i + 1).drop_last() =~= evs.take(i as int));
            assert(evs.take(i + 1).last() == evs[i as int]);
        }
        let ghost prev = resolved_views(items@);
        let e = &entries[i];
        let selected = eq_bytes(e.vfs_type.as_slice(), "bcachefs".as_bytes()) && (!in_initrd
            || contains_opt(&e.mount_options, "x-initrd.mount".as_bytes()));
        if selected {
            let mp: Vec<u8> = if in_initrd {
                match initrd_prefix(e.mountpoint.as_slice()) {
                    Ok(mp) => mp,
                    Err(err) => {
                        proof {
                            assert(spec_resolve_entries(evs.take(i + 1), in_initrd) == Err::<
                                Seq<ResolvedMountView>,
                                GenError,
                            >(err));
                            lemma_resolve_err_persists(evs, in_initrd, i + 1, err);
                        }
                        return Err(err);
                    },
                }
            } else {
                slice_to_vec(e.mountpoint.as_slice())
            };
            let rm = ResolvedMount {
                device: slice_to_vec(e.fs_spec.as_slice()),
                mountpoint: mp,
                options: clone_byte_vecs(&e.mount_options),
            };
            items.push(rm);
            proof {
                assert(resolved_views(items@) =~= prev.push(items@.last()@));
            }
        }
        proof {
            assert(spec_resolve_entries(evs.take(i + 1), in_initrd) == Ok::<
                Seq<ResolvedMountView>,
                GenError,
            >(resolved_views(items@)));
        }
        i = i + 1;
    }
    proof {
        assert(evs.take(entries@.len() as int) =~= evs);
    }
    if in_initrd {
        if let Some(t) = cmdline_root(cmdline) {
            let ghost prev = resolved_views(items@);
            let (dev, mp, opts) = t;
            items.push(ResolvedMount { device: dev, mountpoint: mp, options: opts });
            proof {
                assert(resolved_views(items@) =~= prev.push(items@.last()@));
            }
        }
    }
    let ghost all = resolved_views(items@);
    proof {
        assert(spec_work_list(evs, in_initrd, cmdline@) == Ok::<Seq<ResolvedMountView>, GenError>(
            all,
        ));
    }
    let mut units: Vec<UnitArtifact> = Vec::new();
    proof {
        assert(all.take(0) =~= Seq::<ResolvedMountView>::empty());
        assert(unit_views(units@) =~= Seq::<UnitArtifactView>::empty());
    }
    let mut k: usize = 0;
    while k < items.len()
        invariant
            k <= items.len(),
            all == resolved_views(items@),
            evs == entry_views(entries@),
            spec_work_list(evs, in_initrd, cmdline@) == Ok::<Seq<ResolvedMountView>, GenError>(
                all,
            ),
            spec_plan_items(all.take(k as int)) == Ok::<Seq<UnitArtifactView>, GenError>(
                unit_views(units@),
            ),
        decreases items.len() - k,
    {
        proof {
            assert(all.take(k + 1).drop_last() =~= all.take(k as int));
            assert(all.take(k + 1).last() == all[k as int]);
        }
        let ghost prev = unit_views(units@);
        let it = &items[k];
        match gen_unit(it.device.as_slice(), it.mountpoint.as_slice(), &it.options) {
            Ok(u) => {
                units.push(u);
                proof {
                    assert(unit_views(units@) =~= prev.push(units@.last()@));
                    assert(spec_plan_items(all.take(k + 1)) == Ok::<
                        Seq<UnitArtifactView>,
                        GenError,
                    >(unit_views(units@)));
                }
            },
            Err(err) => {
                proof {
                    assert(spec_plan_items(all.take(k + 1)) == Err::<
                        Seq<UnitArtifactView>,
                        GenError,
                    >(err));
                    lemma_plan_err_persists(all, k + 1, err);
                }
                return Err(err);
            },
        }
        k = k + 1;
    }
    proof {
        assert(all.take(items@.len() as int) =~= all);
    }
    Ok(units)
}

} // verus!
