use bcachefs_units::cmdline::{cmdline_root, cmdline_vals};
use bcachefs_units::deps::extra_dependencies;
use bcachefs_units::device::device_to_path;
use bcachefs_units::escape::sd_escape_path;
use bcachefs_units::plan::{initrd_prefix, plan_units, MountEntry};
use bcachefs_units::unit::gen_unit;
use bcachefs_units::GenError;

fn bv(s: &str) -> Vec<u8> {
    s.as_bytes().to_vec()
}

fn bvv(ss: &[&str]) -> Vec<Vec<u8>> {
    ss.iter().map(|s| bv(s)).collect()
}

fn entry(fs_spec: &str, mountpoint: &str, vfs_type: &str, opts: &[&str]) -> MountEntry {
    MountEntry {
        fs_spec: bv(fs_spec),
        mountpoint: bv(mountpoint),
        vfs_type: bv(vfs_type),
        mount_options: bvv(opts),
    }
}

#[test]
fn escape_root_empty_suffix() {
    assert_eq!(sd_escape_path(b"/", b"").unwrap(), bv("-"));
}

#[test]
fn escape_root_mount_suffix() {
    assert_eq!(sd_escape_path(b"/", b".mount").unwrap(), bv("-.mount"));
}

#[test]
fn escape_plain_path() {
    assert_eq!(sd_escape_path(b"/mnt/data", b".mount").unwrap(), bv("mnt-data.mount"));
    assert_eq!(sd_escape_path(b"/dev/sda1", b".device").unwrap(), bv("dev-sda1.device"));
}

#[test]
fn escape_reserved_bytes() {
    assert_eq!(sd_escape_path(b"/foo-bar", b"").unwrap(), bv("foo\\x2dbar"));
    assert_eq!(sd_escape_path(b"/.hidden", b"").unwrap(), bv("\\x2ehidden"));
    assert_eq!(sd_escape_path(b"/a b", b"").unwrap(), bv("a\\x20b"));
    assert_eq!(sd_escape_path(b"/a.b:c_d", b"").unwrap(), bv("a.b:c_d"));
}

#[test]
fn escape_rejects_relative_path() {
    assert_eq!(sd_escape_path(b"relative", b""), Err(GenError::InvalidPath));
    assert_eq!(sd_escape_path(b"", b".mount"), Err(GenError::InvalidPath));
}

#[test]
fn escape_distinct_paths_differ() {
    let a = sd_escape_path(b"/a/b", b".mount").unwrap();
    let b = sd_escape_path(b"/a-b", b".mount").unwrap();
    assert_ne!(a, b);
}

#[test]
fn resolve_uuid() {
    assert_eq!(device_to_path(b"UUID=abcd-1234").unwrap(), bv("/dev/disk/by-uuid/abcd-1234"));
}

#[test]
fn resolve_label_and_part_forms() {
    assert_eq!(device_to_path(b"LABEL=root").unwrap(), bv("/dev/disk/by-label/root"));
    assert_eq!(device_to_path(b"PARTUUID=0a1b").unwrap(), bv("/dev/disk/by-partuuid/0a1b"));
    assert_eq!(device_to_path(b"PARTLABEL=boot").unwrap(), bv("/dev/disk/by-partlabel/boot"));
}

#[test]
fn resolve_literal_path() {
    assert_eq!(device_to_path(b"/dev/sda1").unwrap(), bv("/dev/sda1"));
}

#[test]
fn resolve_garbage_fails() {
    assert_eq!(device_to_path(b"garbage"), Err(GenError::UnrecognizedDeviceSpec));
}

#[test]
fn deps_requires_and_wants() {
    let opts = bvv(&["x-systemd.requires=/mnt/data", "x-systemd.wants=foo.service"]);
    let rendered = extra_dependencies(&opts).unwrap();
    assert_eq!(
        rendered,
        bv("After=mnt-data.mount foo.service\nRequires=mnt-data.mount\nWants=foo.service")
    );
}

#[test]
fn deps_device_and_mounts_for() {
    let opts = bvv(&[
        "x-systemd.after=/dev/sda1",
        "x-systemd.requires-mounts-for=/var /home",
        "noatime",
    ]);
    let rendered = extra_dependencies(&opts).unwrap();
    assert_eq!(
        rendered,
        bv("After=dev-sda1.device\nRequiresMountsFor=/var /home")
    );
}

#[test]
fn deps_unit_name_passes_through() {
    let opts = bvv(&["x-systemd.after=network.target"]);
    assert_eq!(extra_dependencies(&opts).unwrap(), bv("After=network.target"));
}

#[test]
fn deps_empty_options_render_nothing() {
    let opts: Vec<Vec<u8>> = Vec::new();
    assert_eq!(extra_dependencies(&opts).unwrap(), bv(""));
}

#[test]
fn deps_duplicates_accumulate() {
    let opts = bvv(&["x-systemd.wants=a.service", "x-systemd.wants=a.service"]);
    assert_eq!(
        extra_dependencies(&opts).unwrap(),
        bv("After=a.service a.service\nWants=a.service a.service")
    );
}

#[test]
fn cmdline_vals_collects_in_order() {
    let vals = cmdline_vals(b"root=/dev/a quiet root=/dev/b", b"root=");
    assert_eq!(vals, bvv(&["/dev/a", "/dev/b"]));
}

#[test]
fn cmdline_root_gpt_auto() {
    let r = cmdline_root(b"rootfstype=bcachefs root=gpt-auto rootflags=x-systemd.wants=foo.service")
        .unwrap();
    assert_eq!(r.0, bv("/dev/gpt-auto-root"));
    assert_eq!(r.1, bv("/sysroot"));
    assert_eq!(r.2, bvv(&["x-systemd.wants=foo.service"]));
}

#[test]
fn cmdline_root_literal_device() {
    let r = cmdline_root(b"rootfstype=bcachefs root=UUID=ab-cd").unwrap();
    assert_eq!(r.0, bv("UUID=ab-cd"));
    assert_eq!(r.1, bv("/sysroot"));
    assert_eq!(r.2, Vec::<Vec<u8>>::new());
}

#[test]
fn cmdline_root_fstab_defers() {
    assert!(cmdline_root(b"rootfstype=bcachefs root=fstab").is_none());
}

#[test]
fn cmdline_root_other_type_yields_nothing() {
    assert!(cmdline_root(b"rootfstype=ext4 root=/dev/sda1").is_none());
    assert!(cmdline_root(b"root=/dev/sda1").is_none());
}

#[test]
fn cmdline_root_last_occurrence_wins() {
    assert!(cmdline_root(b"rootfstype=bcachefs root=/dev/a rootfstype=ext4").is_none());
    let r = cmdline_root(b"rootfstype=ext4 rootfstype=bcachefs root=/dev/a root=/dev/b").unwrap();
    assert_eq!(r.0, bv("/dev/b"));
}

#[test]
fn cmdline_root_flags_comma_split() {
    let r = cmdline_root(b"rootfstype=bcachefs root=/dev/a rootflags=ro,noatime").unwrap();
    assert_eq!(r.2, bvv(&["ro", "noatime"]));
}

#[test]
fn initrd_prefix_root_maps_to_target() {
    assert_eq!(initrd_prefix(b"/").unwrap(), bv("/sysroot"));
}

#[test]
fn initrd_prefix_prepends_target() {
    assert_eq!(initrd_prefix(b"/mnt/data").unwrap(), bv("/sysroot/mnt/data"));
}

#[test]
fn initrd_prefix_rejects_relative() {
    assert_eq!(initrd_prefix(b"mnt"), Err(GenError::InvalidPath));
}

#[test]
fn gen_unit_exact_artifact() {
    let opts: Vec<Vec<u8>> = Vec::new();
    let a = gen_unit(b"/dev/sda1", b"/mnt/data", &opts).unwrap();
    assert_eq!(a.service_name, bv("bcachefs-unlock@dev-sda1.service"));
    assert_eq!(a.requires_dir, bv("mnt-data.mount.requires"));
    assert_eq!(a.symlink_target, bv("../bcachefs-unlock@dev-sda1.service"));
    let expected = "\
[Unit]
Description=Unlock bcachefs file system /mnt/data
Requires=%i.device
After=%i.device systemd-makefs@%i.service
Before=mnt-data.mount systemd-fsck@%i.service
DefaultDependencies=false


[Service]
Type=oneshot
ExecCondition=bcachefs unlock -c %f
ImportCredential=bcachefs-mnt-data.mount
ExecStart=/bin/sh -c 'systemd-ask-password --credential=bcachefs-mnt-data.mount Unlock bcachefs encryption: /mnt/data | exec bcachefs unlock %f'
RemainAfterExit=true
";
    assert_eq!(String::from_utf8(a.service_content).unwrap(), expected);
}

#[test]
fn gen_unit_renders_dependencies() {
    let opts = bvv(&["x-systemd.requires=/mnt/data"]);
    let a = gen_unit(b"UUID=ab", b"/srv", &opts).unwrap();
    let text = String::from_utf8(a.service_content).unwrap();
    assert!(text.contains("DefaultDependencies=false\nAfter=mnt-data.mount\nRequires=mnt-data.mount\n\n[Service]"));
    assert_eq!(a.service_name, bv("bcachefs-unlock@dev-disk-by\\x2duuid-ab.service"));
}

#[test]
fn gen_unit_bad_device_fails() {
    let opts: Vec<Vec<u8>> = Vec::new();
    assert_eq!(
        gen_unit(b"nfs:remote", b"/mnt", &opts).err(),
        Some(GenError::UnrecognizedDeviceSpec)
    );
}

#[test]
fn gen_unit_bad_mountpoint_fails() {
    let opts: Vec<Vec<u8>> = Vec::new();
    assert_eq!(gen_unit(b"/dev/sda1", b"mnt", &opts).err(), Some(GenError::InvalidPath));
}

#[test]
fn plan_single_entry_real_root() {
    let entries = vec![entry("/dev/sda1", "/mnt/data", "bcachefs", &[])];
    let units = plan_units(&entries, false, b"").unwrap();
    assert_eq!(units.len(), 1);
    assert_eq!(units[0].service_name, bv("bcachefs-unlock@dev-sda1.service"));
    assert_eq!(units[0].requires_dir, bv("mnt-data.mount.requires"));
}

#[test]
fn plan_is_deterministic() {
    let entries = vec![entry("/dev/sda1", "/mnt/data", "bcachefs", &["noatime"])];
    let first = plan_units(&entries, false, b"").unwrap();
    let second = plan_units(&entries, false, b"").unwrap();
    assert_eq!(first.len(), second.len());
    for (a, b) in first.iter().zip(second.iter()) {
        assert_eq!(a.service_name, b.service_name);
        assert_eq!(a.service_content, b.service_content);
        assert_eq!(a.requires_dir, b.requires_dir);
        assert_eq!(a.symlink_target, b.symlink_target);
    }
}

#[test]
fn plan_filters_other_types() {
    let entries = vec![entry("/dev/sda1", "/", "ext4", &[])];
    assert_eq!(plan_units(&entries, false, b"").unwrap().len(), 0);
}

#[test]
fn plan_initrd_skips_entry_without_initrd_option() {
    let entries = vec![entry("/dev/sda1", "/mnt/data", "bcachefs", &["noatime"])];
    let initrd_units = plan_units(&entries, true, b"").unwrap();
    assert_eq!(initrd_units.len(), 0);
    let real_units = plan_units(&entries, false, b"").unwrap();
    assert_eq!(real_units.len(), 1);
}

#[test]
fn plan_initrd_prefixes_mountpoint() {
    let entries = vec![entry("/dev/sda1", "/data", "bcachefs", &["x-initrd.mount"])];
    let units = plan_units(&entries, true, b"").unwrap();
    assert_eq!(units.len(), 1);
    assert_eq!(units[0].requires_dir, bv("sysroot-data.mount.requires"));
}

#[test]
fn plan_initrd_root_entry_maps_to_target() {
    let entries = vec![entry("UUID=ab", "/", "bcachefs", &["x-initrd.mount"])];
    let units = plan_units(&entries, true, b"").unwrap();
    assert_eq!(units.len(), 1);
    assert_eq!(units[0].requires_dir, bv("sysroot.mount.requires"));
}

#[test]
fn plan_initrd_merges_cmdline_entry_last() {
    let entries = vec![entry("/dev/sda1", "/data", "bcachefs", &["x-initrd.mount"])];
    let cmdline = b"rootfstype=bcachefs root=gpt-auto rootflags=x-systemd.wants=foo.service";
    let units = plan_units(&entries, true, cmdline).unwrap();
    assert_eq!(units.len(), 2);
    assert_eq!(units[0].service_name, bv("bcachefs-unlock@dev-sda1.service"));
    assert_eq!(units[1].service_name, bv("bcachefs-unlock@dev-gpt\\x2dauto\\x2droot.service"));
    assert_eq!(units[1].requires_dir, bv("sysroot.mount.requires"));
    let text = String::from_utf8(units[1].service_content.clone()).unwrap();
    assert!(text.contains("After=foo.service\nWants=foo.service"));
}

#[test]
fn plan_real_root_ignores_cmdline() {
    let entries: Vec<MountEntry> = Vec::new();
    let cmdline = b"rootfstype=bcachefs root=gpt-auto";
    assert_eq!(plan_units(&entries, false, cmdline).unwrap().len(), 0);
}

#[test]
fn plan_empty_table_yields_no_units() {
    let entries: Vec<MountEntry> = Vec::new();
    assert_eq!(plan_units(&entries, false, b"").unwrap().len(), 0);
    assert_eq!(plan_units(&entries, true, b"").unwrap().len(), 0);
}

#[test]
fn plan_bad_device_aborts() {
    let entries = vec![
        entry("garbage", "/a", "bcachefs", &[]),
        entry("/dev/sda1", "/b", "bcachefs", &[]),
    ];
    assert_eq!(plan_units(&entries, false, b"").err(), Some(GenError::UnrecognizedDeviceSpec));
}

#[test]
fn plan_bad_mountpoint_aborts() {
    let entries = vec![entry("/dev/sda1", "data", "bcachefs", &[])];
    assert_eq!(plan_units(&entries, false, b"").err(), Some(GenError::InvalidPath));
}
