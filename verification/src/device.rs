//! The device spec resolver: maps a mount-table "what to mount" field to a
//! canonical device path.
//!
//! `KEY=value` forms go under a fixed well-known directory; a field that is
//! already an absolute path is returned unchanged; anything else is an
//! unrecognized device spec.
use vstd::prelude::*;
use vstd::string::StringSliceAdditionalSpecFns;
use vstd::utf8::is_ascii_chars;
use crate::bytes::{lemma_ascii_str_bytes, str_bytes, strip_prefix, B_SLASH};
use crate::escape::is_abs_path;
use crate::GenError;

verus! {

/// Where each recognized `KEY=value` form of a device field points.
pub open spec fn spec_device_to_path(d: Seq<u8>) -> Result<Seq<u8>, GenError> {
    if "UUID=".spec_bytes().is_prefix_of(d) {
        Ok("/dev/disk/by-uuid/".spec_bytes() + d.skip("UUID=".spec_bytes().len() as int))
    } else if "LABEL=".spec_bytes().is_prefix_of(d) {
        Ok("/dev/disk/by-label/".spec_bytes() + d.skip("LABEL=".spec_bytes().len() as int))
    } else if "PARTUUID=".spec_bytes().is_prefix_of(d) {
        Ok("/dev/disk/by-partuuid/".spec_bytes() + d.skip("PARTUUID=".spec_bytes().len() as int))
    } else if "PARTLABEL=".spec_bytes().is_prefix_of(d) {
        Ok("/dev/disk/by-partlabel/".spec_bytes() + d.skip("PARTLABEL=".spec_bytes().len() as int))
    } else if is_abs_path(d) {
        Ok(d)
    } else {
        Err(GenError::UnrecognizedDeviceSpec)
    }
}

/// A resolved device path is always absolute.
pub proof fn lemma_device_path_abs(d: Seq<u8>)
    ensures
        spec_device_to_path(d) matches Ok(p) ==> is_abs_path(p),
{
    reveal_strlit("/dev/disk/by-uuid/");
    reveal_strlit("/dev/disk/by-label/");
    reveal_strlit("/dev/disk/by-partuuid/");
    reveal_strlit("/dev/disk/by-partlabel/");
    assert(is_ascii_chars("/dev/disk/by-uuid/"@));
    assert(is_ascii_chars("/dev/disk/by-label/"@));
    assert(is_ascii_chars("/dev/disk/by-partuuid/"@));
    assert(is_ascii_chars("/dev/disk/by-partlabel/"@));
    lemma_ascii_str_bytes("/dev/disk/by-uuid/");
    lemma_ascii_str_bytes("/dev/disk/by-label/");
    lemma_ascii_str_bytes("/dev/disk/by-partuuid/");
    lemma_ascii_str_bytes("/dev/disk/by-partlabel/");
}

/// Resolves a device field, exactly as `spec_device_to_path` lays it out.
pub fn device_to_path(device: &[u8]) -> (r: Result<Vec<u8>, GenError>)
    ensures
        (r matches Ok(v) && spec_device_to_path(device@) == Ok::<Seq<u8>, GenError>(v@)) || (
        r matches Err(e) && spec_device_to_path(device@) == Err::<Seq<u8>, GenError>(e)),
{
    if let Some(rest) = strip_prefix(device, "UUID=".as_bytes()) {
        let mut out = str_bytes("/dev/disk/by-uuid/");
        out.extend_from_slice(rest);
        proof {
            assert(out@ == "/dev/disk/by-uuid/".spec_bytes() + device@.skip(
                "UUID=".spec_bytes().len() as int));
        }
        return Ok(out);
    }
    if let Some(rest) = strip_prefix(device, "LABEL=".as_bytes()) {
        let mut out = str_bytes("/dev/disk/by-label/");
        out.extend_from_slice(rest);
        proof {
            assert(out@ == "/dev/disk/by-label/".spec_bytes() + device@.skip(
                "LABEL=".spec_bytes().len() as int));
        }
        return Ok(out);
    }
    if let Some(rest) = strip_prefix(device, "PARTUUID=".as_bytes()) {
        let mut out = str_bytes("/dev/disk/by-partuuid/");
        out.extend_from_slice(rest);
        proof {
            assert(out@ == "/dev/disk/by-partuuid/".spec_bytes() + device@.skip(
                "PARTUUID=".spec_bytes().len() as int));
        }
        return Ok(out);
    }
    if let Some(rest) = strip_prefix(device, "PARTLABEL=".as_bytes()) {
        let mut out = str_bytes("/dev/disk/by-partlabel/");
        out.extend_from_slice(rest);
        proof {
            assert(out@ == "/dev/disk/by-partlabel/".spec_bytes() + device@.skip(
                "PARTLABEL=".spec_bytes().len() as int));
        }
        return Ok(out);
    }
    if device.len() > 0 && device[0] == B_SLASH {
        return Ok(slice_to_vec_u8(device));
    }
    Err(GenError::UnrecognizedDeviceSpec)
}

/// A `Vec` copy of a byte slice.
fn slice_to_vec_u8(s: &[u8]) -> (r: Vec<u8>)
    ensures
        r@ == s@,
{
    vstd::slice::slice_to_vec(s)
}

} // verus!
