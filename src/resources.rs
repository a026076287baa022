//! Sizes of the GPU resources that back a radiance-cascade solver, and the admission limit
//! that a hierarchy has to fit under.

use crate::config::sat_u32;
use crate::config::RCConfig;
use vstd::prelude::*;

verus! {

/// Bytes per cascade-buffer element (a `vec2<u32>`).
pub const CASCADE_BUFFER_ELEM_SIZE: u32 = 8;

/// Threads per workgroup of the cascade passes.
pub const CASCADE_WORKGROUP_SIZE: u32 = 128;

/// Largest level size a device admits: `min(max_buffer_size / element size, max workgroups *
/// workgroup size)`, saturated at `u32::MAX`.
pub open spec fn admission_limit_spec(max_buffer_size: u64, max_workgroups: u32) -> nat {
    let by_buffer = max_buffer_size as nat / (CASCADE_BUFFER_ELEM_SIZE as nat);
    let by_dispatch = max_workgroups as nat * (CASCADE_WORKGROUP_SIZE as nat);
    sat_u32(
        if by_buffer < by_dispatch {
            by_buffer
        } else {
            by_dispatch
        },
    )
}

/// The admission limit for a device with the given buffer and dispatch limits.
pub fn admission_limit(max_buffer_size: u64, max_compute_workgroups_per_dimension: u32) -> (r: u32)
    ensures
        r == admission_limit_spec(max_buffer_size, max_compute_workgroups_per_dimension),
{
    let by_buffer: u64 = max_buffer_size / CASCADE_BUFFER_ELEM_SIZE as u64;
    let by_dispatch: u64 = max_compute_workgroups_per_dimension as u64
        * CASCADE_WORKGROUP_SIZE as u64;
    let m = if by_buffer < by_dispatch {
        by_buffer
    } else {
        by_dispatch
    };
    if m > u32::MAX as u64 {
        u32::MAX
    } else {
        m as u32
    }
}

/// Sizes of the resources of one solver: two ping-pong cascade buffers large enough for the
/// largest level, and a distance-field texture the size of the canvas.
#[derive(Debug, PartialEq, Eq, Clone, Copy, Structural)]
pub struct RCResources {
    /// Elements in each cascade buffer.
    pub cascade_buffer_elems: u32,
    /// Bytes in each cascade buffer.
    pub cascade_buffer_size: u64,
    pub sdf_width: u32,
    pub sdf_height: u32,
}

impl RCResources {
    /// These are the resources for `config` on a canvas of `window_size`.
    pub open spec fn describes(self, window_size: (u32, u32), config: RCConfig) -> bool {
        &&& self.cascade_buffer_elems == config.max_level_size(
            window_size,
            config.num_cascades as nat,
        )
        &&& self.cascade_buffer_size == self.cascade_buffer_elems as nat
            * CASCADE_BUFFER_ELEM_SIZE as nat
        &&& self.sdf_width == window_size.0
        &&& self.sdf_height == window_size.1
    }

    pub fn new(window_size: (u32, u32), config: RCConfig) -> (r: RCResources)
        requires
            config.well_formed(),
        ensures
            r.describes(window_size, config),
    {
        let elems = config.get_max_cascade_size(window_size);
        RCResources {
            cascade_buffer_elems: elems,
            cascade_buffer_size: elems as u64 * CASCADE_BUFFER_ELEM_SIZE as u64,
            sdf_width: window_size.0,
            sdf_height: window_size.1,
        }
    }

    /// Buffers `(read, write)` of ping-pong bind group `i`: it reads the other buffer and
    /// writes buffer `i`.
    pub fn temp_bind_group_buffers(i: usize) -> (r: (usize, usize))
        requires
            i < 2,
        ensures
            r.0 == 1 - i,
            r.1 == i,
            r.0 != r.1,
    {
        (1 - i, i)
    }
}

} // verus!
