//! The output formatter: given the two accumulated blobs and the
//! configured representation mode, decide which one becomes the output
//! line.  Exactly two modes are recognized; any other value selects
//! nothing, so the caller drops the line with a diagnostic instead of
//! aborting the stream.

use vstd::prelude::*;

verus! {

/// The bytes of the mode selector `"approximation"`.
pub open spec fn mode_approximation() -> Seq<u8> {
    seq![97u8, 112u8, 112u8, 114u8, 111u8, 120u8, 105u8, 109u8, 97u8, 116u8, 105u8, 111u8, 110u8]
}

/// The bytes of the mode selector `"hex"`.
pub open spec fn mode_hex() -> Seq<u8> {
    seq![104u8, 101u8, 120u8]
}

/// Exec value of `mode_approximation`.
fn mode_approximation_vec() -> (v: Vec<u8>)
    ensures
        v@ == mode_approximation(),
{
    let mut v: Vec<u8> = Vec::new();
    v.push(97);
    v.push(112);
    v.push(112);
    v.push(114);
    v.push(111);
    v.push(120);
    v.push(105);
    v.push(109);
    v.push(97);
    v.push(116);
    v.push(105);
    v.push(111);
    v.push(110);
    proof {
        assert(v@ =~= mode_approximation());
    }
    v
}

/// Exec value of `mode_hex`.
fn mode_hex_vec() -> (v: Vec<u8>)
    ensures
        v@ == mode_hex(),
{
    let mut v: Vec<u8> = Vec::new();
    v.push(104);
    v.push(101);
    v.push(120);
    proof {
        assert(v@ =~= mode_hex());
    }
    v
}

/// Select the line to emit for a flushed packet: the approximation
/// blob under `"approximation"`, the hex blob under `"hex"`, nothing
/// under any other mode (the line is then dropped with a diagnostic,
/// never fatally).
pub fn write_repr(approximation: &Vec<u8>, hex: &Vec<u8>, repr: &[u8]) -> (r: Option<Vec<u8>>)
    ensures
        repr@ == mode_approximation() ==> (r matches Some(v) && v@ == approximation@),
        repr@ == mode_hex() ==> (r matches Some(v) && v@ == hex@),
        repr@ != mode_approximation() && repr@ != mode_hex() ==> r is None,
{
    let ma = mode_approximation_vec();
    if crate::colors::bytes_eq(repr, ma.as_slice()) {
        return Some(vstd::slice::slice_to_vec(approximation.as_slice()));
    }
    let mh = mode_hex_vec();
    if crate::colors::bytes_eq(repr, mh.as_slice()) {
        return Some(vstd::slice::slice_to_vec(hex.as_slice()));
    }
    None
}

} // verus!
