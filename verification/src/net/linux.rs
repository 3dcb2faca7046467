//! Decisions of the Linux backend.
use vstd::prelude::*;
use vstd::string::*;

use crate::addr::{IpAddr, RouteEntry};
use crate::text;

verus! {

/// The largest packet of TAPs and bridges, in bytes. It leaves room for what
/// the tunnel adds.
pub const TAP_MTU: u32 = 1400;

/// The size of an interface name with its end mark, in bytes.
pub const IF_NAME_SIZE: usize = 16;

/// What the kernel answers where there is no such device.
pub const ENODEV: i32 = 19;

/// Whether a TAP may have a name, which takes `len` bytes.
pub fn check_tap_name(name: &str, len: usize) -> (r: Result<(), String>)
    ensures
        r is Ok <==> len < IF_NAME_SIZE,
        r matches Err(m) ==> m@ == "tap name too long: "@ + text::debug_chars(name@)
            + " (max 15 bytes)"@,
{
    if len >= IF_NAME_SIZE {
        let d = text::debug_text(name);
        Err(text::join3("tap name too long: ", d.as_str(), " (max 15 bytes)"))
    } else {
        Ok(())
    }
}

/// A name in the form the kernel takes it: its bytes, and zeros.
pub fn if_name(bytes: &Vec<u8>) -> (r: Vec<u8>)
    requires
        bytes.len() < IF_NAME_SIZE,
    ensures
        r.len() == IF_NAME_SIZE,
        r@.take(bytes.len() as int) == bytes@,
        forall|i: int| bytes.len() <= i < r.len() ==> r[i] == 0,
{
    let mut out: Vec<u8> = Vec::new();
    let mut i: usize = 0;
    while i < IF_NAME_SIZE
        invariant
            0 <= i <= IF_NAME_SIZE,
            bytes.len() < IF_NAME_SIZE,
            out.len() == i,
            forall|j: int|
                0 <= j < i ==> out[j] == (if j < bytes.len() {
                    bytes[j]
                } else {
                    0u8
                }),
        decreases IF_NAME_SIZE - i,
    {
        out.push(
            if i < bytes.len() {
                bytes[i]
            } else {
                0
            },
        );
        i += 1;
    }
    assert(out@.take(bytes.len() as int) =~= bytes@);
    out
}

/// Whether an answer of the kernel says that there is no such device.
pub fn is_missing(code: Option<i32>) -> (r: bool)
    ensures
        r == (code == Some(-ENODEV as i32)),
{
    match code {
        Some(c) => c == -ENODEV,
        None => false,
    }
}

/// What is said of a device that is not there.
pub fn missing_text(name: &str) -> (r: String)
    ensures
        r@ == "link "@ + text::debug_chars(name@) + " not found"@,
{
    let d = text::debug_text(name);
    text::join3("link ", d.as_str(), " not found")
}

/// Whether a route of the kernel is to be removed before others are installed
/// on the device `idx`: it leaves through the device, and the kernel did not
/// install it by itself.
pub fn is_flushed(oifs: &Vec<u32>, by_kernel: bool, idx: u32) -> (r: bool)
    ensures
        r == (oifs@.contains(idx) && !by_kernel),
{
    let mut i: usize = 0;
    while i < oifs.len()
        invariant
            0 <= i <= oifs.len(),
            forall|j: int| 0 <= j < i ==> oifs[j] != idx,
        decreases oifs.len() - i,
    {
        if oifs[i] == idx {
            assert(oifs@[i as int] == idx);
            return !by_kernel;
        }
        i += 1;
    }
    false
}

/// Whether a route can be installed: its destination and its gateway are of
/// the same family.
pub fn check_route(r: &RouteEntry) -> (c: Result<(), String>)
    ensures
        c is Ok <==> (r.dst.addr is V4 <==> r.via is V4),
        c matches Err(m) ==> m@ == "route family mismatch: dst="@ + r.dst.chars() + " via="@
            + crate::addr::ip_chars(r.via),
{
    match (r.dst.addr, r.via) {
        (IpAddr::V4(_), IpAddr::V4(_)) => Ok(()),
        (IpAddr::V6(_), IpAddr::V6(_)) => Ok(()),
        _ => {
            let d = r.dst.to_text();
            let v = r.via.to_text();
            let s = text::join3("route family mismatch: dst=", d.as_str(), " via=");
            Err(text::join2(s.as_str(), v.as_str()))
        },
    }
}

} // verus!
