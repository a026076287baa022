//! The radiance-cascade solver: committed and staged configuration, admission, resizing and
//! the per-frame pass plan.

use crate::config::sat_u32;
use crate::config::RCConfig;
use crate::config::ProbeLayout;
use crate::config::RingingFix;
use crate::config::FIXED_ONE;
use crate::jfa::div_ceil;
use crate::jfa::div_ceil_spec;
use crate::jfa::JfaError;
use crate::jfa::JfaPlan;
use crate::jfa::JFA;
use crate::jfa::JFA_TILE;
use crate::resources::RCResources;
use crate::resources::CASCADE_WORKGROUP_SIZE;
use vstd::prelude::*;

verus! {

impl RCConfig {
    /// The configuration a new solver starts from.
    pub open spec fn default_spec() -> RCConfig {
        RCConfig {
            c0_rays: 4,
            c0_spacing: FIXED_ONE,
            c0_raylength: FIXED_ONE,
            angular_scaling: 4,
            spatial_scaling: (2 * FIXED_ONE) as u32,
            probe_layout: ProbeLayout::Offset,
            ringing_fix: RingingFix::Bilinear,
            num_cascades: 7,
        }
    }

    /// `config` may back GPU resources on a canvas of `window_size` under `limit`: its geometry
    /// is defined, it has at least one cascade, and its largest level fits.
    pub open spec fn admissible(self, window_size: (u32, u32), limit: u32) -> bool {
        &&& self.well_formed()
        &&& self.num_cascades >= 1
        &&& self.max_level_size(window_size, self.num_cascades as nat) <= limit
    }

    /// Runs the admission check.
    pub fn is_admissible(&self, window_size: (u32, u32), limit: u32) -> (r: bool)
        ensures
            r == self.admissible(window_size, limit),
    {
        if self.c0_spacing < 1 || self.spatial_scaling < FIXED_ONE || self.num_cascades < 1 {
            return false;
        }
        self.get_max_cascade_size(window_size) <= limit
    }
}

/// A candidate whose largest level exceeds the limit is never admissible, so `apply_config`
/// leaves the solver exactly as it was.
pub proof fn lemma_oversized_rejected(candidate: RCConfig, window_size: (u32, u32), limit: u32)
    requires
        candidate.max_level_size(window_size, candidate.num_cascades as nat) > limit,
    ensures
        !candidate.admissible(window_size, limit),
{
}

impl Default for RCConfig {
    fn default() -> (r: RCConfig)
        ensures
            r == RCConfig::default_spec(),
    {
        RCConfig {
            c0_rays: 4,
            c0_spacing: FIXED_ONE,
            c0_raylength: FIXED_ONE,
            angular_scaling: 4,
            spatial_scaling: 2 * FIXED_ONE,
            probe_layout: ProbeLayout::Offset,
            ringing_fix: RingingFix::Bilinear,
            num_cascades: 7,
        }
    }
}

/// Values the cascade shaders read for one pass.
#[derive(Debug, PartialEq, Eq, Clone, Copy, Structural)]
pub struct CascadeUniform {
    pub config: RCConfig,
    pub probe_layout: u32,
    pub ringing_fix: u32,
    pub cur_cascade: u32,
}

impl RCConfig {
    /// The uniform block of a pass over cascade `cur_cascade`.
    pub fn uniform(&self, cur_cascade: u32) -> (r: CascadeUniform)
        ensures
            r.config == *self,
            r.probe_layout == self.probe_layout.code_spec(),
            r.ringing_fix == self.ringing_fix.code_spec(),
            r.cur_cascade == cur_cascade,
    {
        CascadeUniform {
            config: *self,
            probe_layout: self.probe_layout.code(),
            ringing_fix: self.ringing_fix.code(),
            cur_cascade,
        }
    }
}

/// One cascade pass: the logical cascade it computes, the ping-pong bind group it uses (bind
/// group `g` reads buffer `1 - g` and writes buffer `g`) and its workgroup count.
#[derive(Debug, PartialEq, Eq, Clone, Copy, Structural)]
pub struct CascadePass {
    pub cur_cascade: u32,
    pub bind_group: usize,
    pub workgroups: u32,
}

/// One frame of the solver: refresh the distance field, run the cascade passes from the
/// coarsest cascade to cascade 0, then merge cascade 0 from `final_buffer` into the image.
#[derive(Debug)]
pub struct CascadePlan {
    pub jfa: JfaPlan,
    pub passes: Vec<CascadePass>,
    pub final_buffer: usize,
    pub final_workgroups: (u32, u32),
}

/// Radiance-cascade solver state: the committed configuration that backs the resources, the
/// staged one being edited, and the canvas size.
#[derive(Debug)]
pub struct RadianceCascades {
    label: String,
    config: RCConfig,
    gui_config: RCConfig,
    window_size: (u32, u32),
    jfa: JFA,
    resources: RCResources,
}

impl RadianceCascades {
    pub closed spec fn label_spec(&self) -> String {
        self.label
    }

    pub closed spec fn config_spec(&self) -> RCConfig {
        self.config
    }

    pub closed spec fn gui_config_spec(&self) -> RCConfig {
        self.gui_config
    }

    pub closed spec fn window_size_spec(&self) -> (u32, u32) {
        self.window_size
    }

    pub closed spec fn resources_spec(&self) -> RCResources {
        self.resources
    }

    pub closed spec fn jfa_size(&self) -> (u32, u32) {
        self.jfa.size()
    }

    /// The committed configuration is usable and every resource matches it and the canvas.
    pub open spec fn inv(&self) -> bool {
        &&& self.config_spec().well_formed()
        &&& self.config_spec().num_cascades >= 1
        &&& self.resources_spec().describes(self.window_size_spec(), self.config_spec())
        &&& self.jfa_size() == self.window_size_spec()
    }

    /// A solver on a `window_size` canvas with the default configuration committed and staged.
    pub fn new(window_size: (u32, u32), label: String) -> (r: RadianceCascades)
        ensures
            r.inv(),
            r.config_spec() == RCConfig::default_spec(),
            r.gui_config_spec() == RCConfig::default_spec(),
            r.window_size_spec() == window_size,
            r.label_spec() == label,
    {
        let config = RCConfig::default();
        let resources = RCResources::new(window_size, config);
        let jfa = JFA::new(window_size);
        RadianceCascades { label, config, gui_config: config, window_size, jfa, resources }
    }

    pub fn config(&self) -> (r: RCConfig)
        ensures
            r == self.config_spec(),
    {
        self.config
    }

    pub fn gui_config(&self) -> (r: RCConfig)
        ensures
            r == self.gui_config_spec(),
    {
        self.gui_config
    }

    pub fn window_size(&self) -> (r: (u32, u32))
        ensures
            r == self.window_size_spec(),
    {
        self.window_size
    }

    pub fn resources(&self) -> (r: RCResources)
        ensures
            r == self.resources_spec(),
    {
        self.resources
    }

    pub fn label(&self) -> (r: String)
        ensures
            r == self.label_spec(),
    {
        self.label.clone()
    }

    /// Replaces the staged configuration; nothing committed changes.
    pub fn set_gui_config(&mut self, staged: RCConfig)
        ensures
            final(self).gui_config_spec() == staged,
            final(self).config_spec() == old(self).config_spec(),
            final(self).window_size_spec() == old(self).window_size_spec(),
            final(self).resources_spec() == old(self).resources_spec(),
            final(self).jfa_size() == old(self).jfa_size(),
            final(self).label_spec() == old(self).label_spec(),
    {
        self.gui_config = staged;
    }

    /// Largest level size of the staged configuration, for a live warning; `None` when its
    /// geometry is undefined.
    pub fn staged_max_cascade_size(&self) -> (r: Option<u32>)
        ensures
            self.gui_config_spec().well_formed() ==> r == Some(
                self.gui_config_spec().max_level_size(
                    self.window_size_spec(),
                    self.gui_config_spec().num_cascades as nat,
                ) as u32,
            ),
            !self.gui_config_spec().well_formed() ==> r.is_none(),
    {
        if self.gui_config.c0_spacing < 1 || self.gui_config.spatial_scaling < FIXED_ONE {
            None
        } else {
            Some(self.gui_config.get_max_cascade_size(self.window_size))
        }
    }

    /// Commits `candidate` when it is admissible on the current canvas under `limit`, rebuilding
    /// the resources for it; otherwise leaves the solver untouched. Returns whether it was
    /// committed.
    pub fn apply_config(&mut self, candidate: RCConfig, limit: u32) -> (r: bool)
        requires
            old(self).inv(),
        ensures
            r == candidate.admissible(old(self).window_size_spec(), limit),
            r ==> final(self).config_spec() == candidate,
            r ==> final(self).inv(),
            r ==> final(self).gui_config_spec() == old(self).gui_config_spec(),
            r ==> final(self).window_size_spec() == old(self).window_size_spec(),
            r ==> final(self).label_spec() == old(self).label_spec(),
            !r ==> *final(self) == *old(self),
    {
        if !candidate.is_admissible(self.window_size, limit) {
            return false;
        }
        let resources = RCResources::new(self.window_size, candidate);
        self.config = candidate;
        self.resources = resources;
        true
    }

    /// Commits the staged configuration, as `apply_config` does.
    pub fn apply_gui_config(&mut self, limit: u32) -> (r: bool)
        requires
            old(self).inv(),
        ensures
            r == old(self).gui_config_spec().admissible(old(self).window_size_spec(), limit),
            r ==> final(self).config_spec() == old(self).gui_config_spec(),
            r ==> final(self).inv(),
            r ==> final(self).gui_config_spec() == old(self).gui_config_spec(),
            r ==> final(self).window_size_spec() == old(self).window_size_spec(),
            r ==> final(self).label_spec() == old(self).label_spec(),
            !r ==> *final(self) == *old(self),
    {
        let staged = self.gui_config;
        self.apply_config(staged, limit)
    }

    /// Moves to a `new_size` canvas, rebuilding every resource under the committed
    /// configuration, and reports whether that configuration is still admissible there.
    pub fn resize(&mut self, new_size: (u32, u32), limit: u32) -> (r: bool)
        requires
            old(self).inv(),
        ensures
            final(self).inv(),
            final(self).window_size_spec() == new_size,
            final(self).config_spec() == old(self).config_spec(),
            final(self).gui_config_spec() == old(self).gui_config_spec(),
            final(self).label_spec() == old(self).label_spec(),
            r == old(self).config_spec().admissible(new_size, limit),
    {
        self.window_size = new_size;
        self.resources = RCResources::new(new_size, self.config);
        self.jfa = JFA::new(new_size);
        self.config.is_admissible(new_size, limit)
    }

    /// Plans one frame: the distance-field flood of a `canvas_size` canvas, then one pass per
    /// cascade from the coarsest down, alternating the ping-pong buffers, then the merge into an
    /// `out_size` image. Fails exactly when the flood cannot be planned.
    pub fn render(&self, canvas_size: (u32, u32), out_size: (u32, u32)) -> (r: Result<
        CascadePlan,
        JfaError,
    >)
        requires
            self.inv(),
        ensures
            (canvas_size.0 == 0 || canvas_size.1 == 0) ==> r == Err::<CascadePlan, JfaError>(
                JfaError::EmptyTarget,
            ),
            (canvas_size.0 > 0 && canvas_size.1 > 0 && canvas_size != self.window_size_spec())
                ==> r == Err::<CascadePlan, JfaError>(JfaError::SizeMismatch),
            (canvas_size.0 > 0 && canvas_size.1 > 0 && canvas_size == self.window_size_spec())
                ==> (match r {
                Ok(p) => self.plans(p, canvas_size, out_size),
                Err(_) => false,
            }),
    {
        let jfa = match self.jfa.render(canvas_size) {
            Ok(p) => p,
            Err(e) => {
                return Err(e);
            },
        };
        let n = self.config.num_cascades;
        let mut passes: Vec<CascadePass> = Vec::new();
        let mut i: u32 = 0;
        while i < n
            invariant
                self.inv(),
                n == self.config_spec().num_cascades,
                i <= n,
                passes@.len() == i,
                forall|j: int| 0 <= j < i ==> self.pass_ok(#[trigger] passes@[j], j),
            decreases n - i,
        {
            let cur = n - i - 1;
            let size = self.config.get_cascade_size(self.window_size, cur);
            passes.push(
                CascadePass {
                    cur_cascade: cur,
                    bind_group: (i % 2) as usize,
                    workgroups: div_ceil(size, CASCADE_WORKGROUP_SIZE),
                },
            );
            i = i + 1;
        }
        Ok(
            CascadePlan {
                jfa,
                passes,
                final_buffer: 1 - (n % 2) as usize,
                final_workgroups: (div_ceil(out_size.0, JFA_TILE), div_ceil(out_size.1, JFA_TILE)),
            },
        )
    }

    /// Pass `j` of a frame computes logical cascade `num_cascades - j - 1` through bind group
    /// `j % 2` with one workgroup per `CASCADE_WORKGROUP_SIZE` elements of that cascade.
    pub open spec fn pass_ok(&self, p: CascadePass, j: int) -> bool {
        let n = self.config_spec().num_cascades as int;
        &&& p.cur_cascade == n - j - 1
        &&& p.bind_group == j % 2
        &&& p.workgroups == div_ceil_spec(
            sat_u32(self.config_spec().level_size(self.window_size_spec(), (n - j - 1) as nat)),
            CASCADE_WORKGROUP_SIZE as nat,
        )
    }

    /// `p` is this solver's frame for a `canvas_size` canvas and an `out_size` image.
    pub open spec fn plans(&self, p: CascadePlan, canvas_size: (u32, u32), out_size: (u32, u32)) -> bool {
        &&& p.jfa.plans(canvas_size.0, canvas_size.1)
        &&& p.passes@.len() == self.config_spec().num_cascades
        &&& forall|j: int| 0 <= j < p.passes@.len() ==> self.pass_ok(#[trigger] p.passes@[j], j)
        &&& p.final_buffer == 1 - self.config_spec().num_cascades % 2
        &&& p.final_workgroups.0 == div_ceil_spec(out_size.0 as nat, JFA_TILE as nat)
        &&& p.final_workgroups.1 == div_ceil_spec(out_size.1 as nat, JFA_TILE as nat)
    }
}

/// An oversized candidate is rejected, `apply_config` then leaves the solver as it was, and so
/// every frame planned afterwards on a non-empty canvas of the solver's size still follows the
/// configuration committed before the attempt: its cascade count, its level sizes, and buffers
/// sized for it.
pub proof fn lemma_rejected_apply_keeps_frames(
    before: RadianceCascades,
    after: RadianceCascades,
    candidate: RCConfig,
    limit: u32,
    plan: CascadePlan,
    out_size: (u32, u32),
)
    requires
        before.inv(),
        candidate.max_level_size(before.window_size_spec(), candidate.num_cascades as nat) > limit,
        !candidate.admissible(before.window_size_spec(), limit) ==> after == before,
        before.window_size_spec().0 > 0,
        before.window_size_spec().1 > 0,
        after.plans(plan, after.window_size_spec(), out_size),
    ensures
        !candidate.admissible(before.window_size_spec(), limit),
        after.config_spec() == before.config_spec(),
        after.resources_spec() == before.resources_spec(),
        plan.passes@.len() == before.config_spec().num_cascades,
        forall|j: int| 0 <= j < plan.passes@.len() ==> before.pass_ok(#[trigger] plan.passes@[j], j),
        plan.jfa.plans(before.window_size_spec().0, before.window_size_spec().1),
{
    lemma_oversized_rejected(candidate, before.window_size_spec(), limit);
}

} // verus!
