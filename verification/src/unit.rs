//! The unit emitter's pure core: the name, content and symlink layout of
//! one generated unit.
//!
//! The device spec is resolved and escaped with no suffix to form the
//! service instance name; the mountpoint is escaped with the `.mount`
//! suffix to name the mount unit the service gates; the symlink under
//! `<mount unit>.requires/` points back at the service file relatively.
use vstd::prelude::*;
use vstd::string::StringSliceAdditionalSpecFns;
use crate::bytes::str_bytes;
use crate::deps::{byte_views, extra_dependencies, spec_render_deps};
use crate::device::{device_to_path, lemma_device_path_abs, spec_device_to_path};
use crate::escape::{is_abs_path, sd_escape_path, spec_escape_path};
use crate::GenError;

verus! {

/// One generated unit: the service file and the requirement symlink that
/// wires it into the mount unit's dependencies.
pub struct UnitArtifact {
    /// The service file's name.
    pub service_name: Vec<u8>,
    /// The service file's body.
    pub service_content: Vec<u8>,
    /// The `<mount unit>.requires` directory that holds the symlink.
    pub requires_dir: Vec<u8>,
    /// What the symlink (named like the service file) points at.
    pub symlink_target: Vec<u8>,
}

/// The mathematical shape of a generated unit.
pub struct UnitArtifactView {
    pub service_name: Seq<u8>,
    pub service_content: Seq<u8>,
    pub requires_dir: Seq<u8>,
    pub symlink_target: Seq<u8>,
}

impl View for UnitArtifact {
    type V = UnitArtifactView;

    open spec fn view(&self) -> UnitArtifactView {
        UnitArtifactView {
            service_name: self.service_name@,
            service_content: self.service_content@,
            requires_dir: self.requires_dir@,
            symlink_target: self.symlink_target@,
        }
    }
}

/// The service file's name for an escaped device.
pub open spec fn spec_service_name(dev_esc: Seq<u8>) -> Seq<u8> {
    "bcachefs-unlock@".spec_bytes() + dev_esc + ".service".spec_bytes()
}

/// The service file's body for a mountpoint, its escaped mount unit name,
/// and the rendered dependency lines.
#[verifier::opaque]
pub open spec fn spec_unit_content(mp: Seq<u8>, mp_esc: Seq<u8>, deps: Seq<u8>) -> Seq<u8> {
    "[Unit]\nDescription=Unlock bcachefs file system ".spec_bytes() + mp
        + "\nRequires=%i.device\nAfter=%i.device systemd-makefs@%i.service\nBefore=".spec_bytes()
        + mp_esc + " systemd-fsck@%i.service\nDefaultDependencies=false\n".spec_bytes() + deps
        + "\n\n[Service]\nType=oneshot\nExecCondition=bcachefs unlock -c %f\nImportCredential=bcachefs-".spec_bytes()
        + mp_esc + "\nExecStart=/bin/sh -c 'systemd-ask-password --credential=bcachefs-".spec_bytes()
        + mp_esc + " Unlock bcachefs encryption: ".spec_bytes() + mp
        + " | exec bcachefs unlock %f'\nRemainAfterExit=true\n".spec_bytes()
}

/// The whole generated unit for one mount entry, or the error of the first
/// step that rejects it: an unrecognized device spec, then a non-absolute
/// mountpoint.
#[verifier::opaque]
pub open spec fn spec_gen_unit(device: Seq<u8>, mp: Seq<u8>, opts: Seq<Seq<u8>>) -> Result<
    UnitArtifactView,
    GenError,
> {
    match spec_device_to_path(device) {
        Err(e) => Err(e),
        Ok(devpath) => if !is_abs_path(mp) {
            Err(GenError::InvalidPath)
        } else {
            let dev_esc = spec_escape_path(devpath);
            let mp_esc = spec_escape_path(mp) + ".mount".spec_bytes();
            Ok(
                UnitArtifactView {
                    service_name: spec_service_name(dev_esc),
                    service_content: spec_unit_content(mp, mp_esc, spec_render_deps(opts)),
                    requires_dir: mp_esc + ".requires".spec_bytes(),
                    symlink_target: "../".spec_bytes() + spec_service_name(dev_esc),
                },
            )
        },
    }
}

/// Builds the service file's body, exactly as `spec_unit_content` lays it
/// out.
fn build_content(mountpoint: &[u8], mountpoint_escaped: &[u8], extra_deps: &[u8]) -> (r: Vec<u8>)
    ensures
        r@ == spec_unit_content(mountpoint@, mountpoint_escaped@, extra_deps@),
{
    proof {
        reveal(spec_unit_content);
    }
    let mut content = str_bytes("[Unit]\nDescription=Unlock bcachefs file system ");
    content.extend_from_slice(mountpoint);
    content.extend_from_slice(
        "\nRequires=%i.device\nAfter=%i.device systemd-makefs@%i.service\nBefore=".as_bytes(),
    );
    content.extend_from_slice(mountpoint_escaped);
    content.extend_from_slice(
        " systemd-fsck@%i.service\nDefaultDependencies=false\n".as_bytes(),
    );
    content.extend_from_slice(extra_deps);
    content.extend_from_slice(
        "\n\n[Service]\nType=oneshot\nExecCondition=bcachefs unlock -c %f\nImportCredential=bcachefs-".as_bytes(),
    );
    content.extend_from_slice(mountpoint_escaped);
    content.extend_from_slice(
        "\nExecStart=/bin/sh -c 'systemd-ask-password --credential=bcachefs-".as_bytes(),
    );
    content.extend_from_slice(mountpoint_escaped);
    content.extend_from_slice(" Unlock bcachefs encryption: ".as_bytes());
    content.extend_from_slice(mountpoint);
    content.extend_from_slice(" | exec bcachefs unlock %f'\nRemainAfterExit=true\n".as_bytes());
    content
}

/// Computes the generated unit for one mount entry, exactly as
/// `spec_gen_unit` lays it out.
#[verifier::rlimit(100)]
pub fn gen_unit(device: &[u8], mountpoint: &[u8], opts: &Vec<Vec<u8>>) -> (r: Result<
    UnitArtifact,
    GenError,
>)
    ensures
        (r matches Ok(a) && spec_gen_unit(device@, mountpoint@, byte_views(opts@))
            == Ok::<UnitArtifactView, GenError>(a@)) || (r matches Err(e) && spec_gen_unit(
            device@,
            mountpoint@,
            byte_views(opts@),
        ) == Err::<UnitArtifactView, GenError>(e)),
{
    proof {
        reveal(spec_gen_unit);
    }
    let device_path = match device_to_path(device) {
        Ok(p) => p,
        Err(e) => {
            return Err(e);
        },
    };
    proof {
        lemma_device_path_abs(device@);
    }
    let no_suffix: Vec<u8> = Vec::new();
    let device_escaped = match sd_escape_path(device_path.as_slice(), no_suffix.as_slice()) {
        Ok(v) => v,
        Err(e) => {
            return Err(e);
        },
    };
    proof {
        assert(device_escaped@ =~= spec_escape_path(device_path@));
    }
    let mountpoint_escaped = match sd_escape_path(mountpoint, ".mount".as_bytes()) {
        Ok(v) => v,
        Err(e) => {
            return Err(e);
        },
    };
    let extra_deps = match extra_dependencies(opts) {
        Ok(v) => v,
        Err(e) => {
            return Err(e);
        },
    };
    let mut service_name = str_bytes("bcachefs-unlock@");
    service_name.extend_from_slice(device_escaped.as_slice());
    service_name.extend_from_slice(".service".as_bytes());
    let mut requires_dir = vstd::slice::slice_to_vec(mountpoint_escaped.as_slice());
    requires_dir.extend_from_slice(".requires".as_bytes());
    let mut symlink_target = str_bytes("../");
    symlink_target.extend_from_slice(service_name.as_slice());
    let content = build_content(mountpoint, mountpoint_escaped.as_slice(), extra_deps.as_slice());
    proof {
        let os = byte_views(opts@);
        let dev_esc = spec_escape_path(device_path@);
        let mp_esc = spec_escape_path(mountpoint@) + ".mount".spec_bytes();
        assert(spec_device_to_path(device@) == Ok::<Seq<u8>, GenError>(device_path@));
        assert(mountpoint_escaped@ == mp_esc);
        assert(service_name@ =~= spec_service_name(dev_esc));
        assert(requires_dir@ =~= mp_esc + ".requires".spec_bytes());
        assert(symlink_target@ =~= "../".spec_bytes() + spec_service_name(dev_esc));
        assert(content@ == spec_unit_content(mountpoint@, mp_esc, spec_render_deps(os)));
    }
    Ok(
        UnitArtifact {
            service_name,
            service_content: content,
            requires_dir,
            symlink_target,
        },
    )
}

} // verus!
