use vstd::prelude::*;

verus! {

/// Bytes the output canvas needs, plus a fixed headroom of 100 MiB.
pub open spec fn required_canvas_bytes(out_width: int, out_height: int) -> int {
    out_width * out_height * 3 + 104857600
}

/// Relies on sysinfo's `System::refresh_memory` and
/// `System::available_memory`: the bytes of memory currently available
/// on this machine. The value depends on the machine and the moment,
/// so nothing is promised of it.
#[verifier::external_body]
pub fn system_available_memory_bytes() -> u64 {
    let mut sys = sysinfo::System::new();
    sys.refresh_memory();
    sys.available_memory()
}

/// Whether the available memory exceeds the output canvas plus
/// headroom.
pub fn memory_preflight(out_width: u32, out_height: u32, available_bytes: u64) -> (r: bool)
    ensures
        r == (available_bytes > required_canvas_bytes(out_width as int, out_height as int)),
{
    proof {
        assert(0 <= out_width * out_height
            && out_width * out_height * 3 <= 0xffff_ffffu64 * 0xffff_ffffu64 * 3)
            by (nonlinear_arith)
            requires
                0 <= out_width <= 0xffff_ffffu64,
                0 <= out_height <= 0xffff_ffffu64,
        ;
    }
    let need: u128 = (out_width as u128) * (out_height as u128) * 3 + 104857600;
    (available_bytes as u128) > need
}

} // verus!
