//! Registry of interchangeable renderers with one active selection, or a pair of renderers
//! whose outputs are compared.

use crate::cascades::RadianceCascades;
use crate::config::RCConfig;
use crate::jfa::div_ceil;
use crate::jfa::div_ceil_spec;
use crate::jfa::JfaError;
use crate::jfa::JfaPlan;
use crate::jfa::JFA;
use crate::jfa::JFA_TILE;
use vstd::prelude::*;
use vstd::string::StringExecFns;

verus! {

/// How the comparison view combines two renderer outputs.
#[derive(Debug, PartialEq, Eq, Clone, Copy, Structural)]
pub enum DiffMode {
    Abs,
    FirstMinusSecond,
    SecondMinusFirst,
}

impl DiffMode {
    /// The value the comparison shader sees for this mode.
    pub open spec fn code_spec(self) -> u32 {
        match self {
            DiffMode::Abs => 0,
            DiffMode::FirstMinusSecond => 1,
            DiffMode::SecondMinusFirst => 2,
        }
    }

    pub fn code(self) -> (r: u32)
        ensures
            r == self.code_spec(),
    {
        match self {
            DiffMode::Abs => 0,
            DiffMode::FirstMinusSecond => 1,
            DiffMode::SecondMinusFirst => 2,
        }
    }
}

/// Rays a new raymarcher casts per texel.
pub const DEFAULT_RAYMARCH_RAYS: u32 = 64;

/// One frame of the raymarcher: refresh the distance field, then march `ray_count` rays per
/// texel in `workgroups` tiles.
#[derive(Debug)]
pub struct RaymarchPlan {
    pub jfa: JfaPlan,
    pub ray_count: u32,
    pub workgroups: (u32, u32),
}

/// Brute-force renderer that marches rays through the distance field.
#[derive(Debug)]
pub struct Raymarcher {
    label: String,
    ray_count: u32,
    window_size: (u32, u32),
    jfa: JFA,
}

impl Raymarcher {
    pub closed spec fn label_spec(&self) -> String {
        self.label
    }

    pub closed spec fn ray_count_spec(&self) -> u32 {
        self.ray_count
    }

    pub closed spec fn window_size_spec(&self) -> (u32, u32) {
        self.window_size
    }

    pub closed spec fn inv(&self) -> bool {
        self.jfa.size() == self.window_size
    }

    pub fn new(window_size: (u32, u32), label: String) -> (r: Raymarcher)
        ensures
            r.inv(),
            r.label_spec() == label,
            r.ray_count_spec() == DEFAULT_RAYMARCH_RAYS,
            r.window_size_spec() == window_size,
    {
        Raymarcher {
            label,
            ray_count: DEFAULT_RAYMARCH_RAYS,
            window_size,
            jfa: JFA::new(window_size),
        }
    }

    pub fn label(&self) -> (r: String)
        ensures
            r == self.label_spec(),
    {
        self.label.clone()
    }

    pub fn window_size(&self) -> (r: (u32, u32))
        ensures
            r == self.window_size_spec(),
    {
        self.window_size
    }

    pub fn ray_count(&self) -> (r: u32)
        ensures
            r == self.ray_count_spec(),
    {
        self.ray_count
    }

    pub fn set_ray_count(&mut self, ray_count: u32)
        ensures
            final(self).ray_count_spec() == ray_count,
            final(self).label_spec() == old(self).label_spec(),
            final(self).window_size_spec() == old(self).window_size_spec(),
            old(self).inv() ==> final(self).inv(),
    {
        self.ray_count = ray_count;
    }

    pub fn resize(&mut self, new_size: (u32, u32))
        ensures
            final(self).inv(),
            final(self).window_size_spec() == new_size,
            final(self).ray_count_spec() == old(self).ray_count_spec(),
            final(self).label_spec() == old(self).label_spec(),
    {
        self.window_size = new_size;
        self.jfa = JFA::new(new_size);
    }

    /// Plans one frame on a `canvas_size` canvas; fails exactly when the flood cannot be
    /// planned.
    pub fn render(&self, canvas_size: (u32, u32)) -> (r: Result<RaymarchPlan, JfaError>)
        requires
            self.inv(),
        ensures
            (canvas_size.0 == 0 || canvas_size.1 == 0) ==> r == Err::<RaymarchPlan, JfaError>(
                JfaError::EmptyTarget,
            ),
            (canvas_size.0 > 0 && canvas_size.1 > 0 && canvas_size != self.window_size_spec())
                ==> r == Err::<RaymarchPlan, JfaError>(JfaError::SizeMismatch),
            (canvas_size.0 > 0 && canvas_size.1 > 0 && canvas_size == self.window_size_spec())
                ==> (match r {
                Ok(p) => {
                    &&& p.jfa.plans(canvas_size.0, canvas_size.1)
                    &&& p.ray_count == self.ray_count_spec()
                    &&& p.workgroups.0 == div_ceil_spec(canvas_size.0 as nat, JFA_TILE as nat)
                    &&& p.workgroups.1 == div_ceil_spec(canvas_size.1 as nat, JFA_TILE as nat)
                },
                Err(_) => false,
            }),
    {
        let jfa = match self.jfa.render(canvas_size) {
            Ok(p) => p,
            Err(e) => {
                return Err(e);
            },
        };
        Ok(
            RaymarchPlan {
                jfa,
                ray_count: self.ray_count,
                workgroups: (
                    div_ceil(self.window_size.0, JFA_TILE),
                    div_ceil(self.window_size.1, JFA_TILE),
                ),
            },
        )
    }
}

/// Renderer that shows a loaded image and ignores the canvas.
#[derive(Debug)]
pub struct TextureRenderer {
    label: String,
}

impl TextureRenderer {
    pub closed spec fn label_spec(&self) -> String {
        self.label
    }

    pub fn new(label: String) -> (r: TextureRenderer)
        ensures
            r.label_spec() == label,
    {
        TextureRenderer { label }
    }

    pub fn label(&self) -> (r: String)
        ensures
            r == self.label_spec(),
    {
        self.label.clone()
    }
}

/// The renderer variants the registry can hold.
#[derive(Debug)]
pub enum Renderer {
    Raymarcher(Raymarcher),
    RadianceCascades(RadianceCascades),
    Texture(TextureRenderer),
}

impl Renderer {
    pub open spec fn inv(&self) -> bool {
        match self {
            Renderer::Raymarcher(r) => r.inv(),
            Renderer::RadianceCascades(r) => r.inv(),
            Renderer::Texture(_) => true,
        }
    }

    pub open spec fn label_spec(&self) -> String {
        match self {
            Renderer::Raymarcher(r) => r.label_spec(),
            Renderer::RadianceCascades(r) => r.label_spec(),
            Renderer::Texture(r) => r.label_spec(),
        }
    }

    /// The renderer, if it follows the canvas size, is at `size`.
    pub open spec fn sized_to(&self, size: (u32, u32)) -> bool {
        match self {
            Renderer::Raymarcher(r) => r.window_size_spec() == size,
            Renderer::RadianceCascades(r) => r.window_size_spec() == size,
            Renderer::Texture(_) => true,
        }
    }

    /// The renderer's committed configuration, if it has one, is admissible at `size`.
    pub open spec fn fits(&self, size: (u32, u32), limit: u32) -> bool {
        match self {
            Renderer::RadianceCascades(r) => r.config_spec().admissible(size, limit),
            _ => true,
        }
    }

    /// `self` is `prev` with possibly another canvas size: same kind, label and settings (the
    /// committed and staged configuration of a solver, the ray count of a raymarcher).
    pub open spec fn keeps_settings_of(&self, prev: Renderer) -> bool {
        match self {
            Renderer::Raymarcher(r) => prev is Raymarcher && r.label_spec()
                == prev->Raymarcher_0.label_spec() && r.ray_count_spec()
                == prev->Raymarcher_0.ray_count_spec(),
            Renderer::RadianceCascades(r) => prev is RadianceCascades && r.label_spec()
                == prev->RadianceCascades_0.label_spec() && r.config_spec()
                == prev->RadianceCascades_0.config_spec() && r.gui_config_spec()
                == prev->RadianceCascades_0.gui_config_spec(),
            Renderer::Texture(_) => prev == *self,
        }
    }

    pub fn label(&self) -> (r: String)
        ensures
            r == self.label_spec(),
    {
        match self {
            Renderer::Raymarcher(r) => r.label(),
            Renderer::RadianceCascades(r) => r.label(),
            Renderer::Texture(r) => r.label(),
        }
    }

    /// Moves the renderer to a `new_size` canvas; reports whether its configuration still fits
    /// under `limit` there.
    pub fn resize(&mut self, new_size: (u32, u32), limit: u32) -> (r: bool)
        requires
            old(self).inv(),
        ensures
            final(self).inv(),
            final(self).sized_to(new_size),
            final(self).label_spec() == old(self).label_spec(),
            final(self).keeps_settings_of(*old(self)),
            r == old(self).fits(new_size, limit),
            r == final(self).fits(new_size, limit),
    {
        match self {
            Renderer::Raymarcher(r) => {
                r.resize(new_size);
                true
            },
            Renderer::RadianceCascades(r) => r.resize(new_size, limit),
            Renderer::Texture(_) => true,
        }
    }
}

/// The active selection: one renderer, or the comparison of the two diff renderers.
#[derive(Debug, PartialEq, Eq, Clone, Copy, Structural)]
pub enum CurRenderer {
    Diff,
    Index(usize),
}

/// What a frame renders.
#[derive(Debug, PartialEq, Eq, Clone, Copy, Structural)]
pub enum RenderRoute {
    /// The output of renderer `i` is displayed.
    Single(usize),
    /// Renderers `a` and `b` both render and their outputs are compared.
    Diff(usize, usize),
}

/// Why a frame renders nothing.
#[derive(Debug, PartialEq, Eq, Clone, Copy, Structural)]
pub enum SelectionError {
    /// The selected renderer does not exist.
    InvalidIndex,
    /// One of the two compared renderers does not exist.
    InvalidDiffIndices,
}

/// The route a selection gives over `n` renderers.
pub open spec fn route_of(cur: CurRenderer, diff: (usize, usize), n: nat) -> Result<
    RenderRoute,
    SelectionError,
> {
    match cur {
        CurRenderer::Index(i) => if i < n {
            Ok(RenderRoute::Single(i))
        } else {
            Err(SelectionError::InvalidIndex)
        },
        CurRenderer::Diff => if diff.0 < n && diff.1 < n {
            Ok(RenderRoute::Diff(diff.0, diff.1))
        } else {
            Err(SelectionError::InvalidDiffIndices)
        },
    }
}

/// Where index `j` points once entry `removed` is gone: later entries move down by one, and
/// an index to the removed entry falls back to the first entry.
pub open spec fn shift_index(j: usize, removed: usize) -> usize {
    if j == removed {
        0
    } else if j > removed {
        (j - 1) as usize
    } else {
        j
    }
}

pub open spec fn shift_selection(cur: CurRenderer, removed: usize) -> CurRenderer {
    match cur {
        CurRenderer::Index(i) => CurRenderer::Index(shift_index(i, removed)),
        CurRenderer::Diff => CurRenderer::Diff,
    }
}

/// A selection naming a renderer at or past the end renders nothing and is reported; and
/// removing one of at least two renderers keeps a working selection working.
pub proof fn lemma_selection_never_dangles(
    cur: CurRenderer,
    diff: (usize, usize),
    n: nat,
    removed: usize,
)
    ensures
        (cur matches CurRenderer::Index(i) && i >= n) ==> route_of(cur, diff, n) == Err::<
            RenderRoute,
            SelectionError,
        >(SelectionError::InvalidIndex),
        (cur == CurRenderer::Diff && (diff.0 >= n || diff.1 >= n)) ==> route_of(cur, diff, n)
            == Err::<RenderRoute, SelectionError>(SelectionError::InvalidDiffIndices),
        (route_of(cur, diff, n).is_ok() && removed < n && n >= 2) ==> route_of(
            shift_selection(cur, removed),
            (shift_index(diff.0, removed), shift_index(diff.1, removed)),
            (n - 1) as nat,
        ).is_ok(),
{
}

fn shift_index_exec(j: usize, removed: usize) -> (r: usize)
    ensures
        r == shift_index(j, removed),
{
    if j == removed {
        0
    } else if j > removed {
        j - 1
    } else {
        j
    }
}

/// Every renderer, plus the selection of which one is displayed.
#[derive(Debug)]
pub struct GI {
    renderers: Vec<Renderer>,
    cur_renderer: CurRenderer,
    diff_indices: (usize, usize),
    cur_window_size: (u32, u32),
}

impl GI {
    pub closed spec fn renderers_spec(&self) -> Seq<Renderer> {
        self.renderers@
    }

    pub closed spec fn cur_renderer_spec(&self) -> CurRenderer {
        self.cur_renderer
    }

    pub closed spec fn diff_indices_spec(&self) -> (usize, usize) {
        self.diff_indices
    }

    pub closed spec fn window_size_spec(&self) -> (u32, u32) {
        self.cur_window_size
    }

    /// At least one renderer, each of them consistent and at the current canvas size.
    pub open spec fn inv(&self) -> bool {
        &&& self.renderers_spec().len() >= 1
        &&& forall|i: int|
            0 <= i < self.renderers_spec().len() ==> (#[trigger] self.renderers_spec()[i]).inv()
                && self.renderers_spec()[i].sized_to(self.window_size_spec())
    }

    /// What `render` answers for this state.
    pub open spec fn route(&self) -> Result<RenderRoute, SelectionError> {
        route_of(self.cur_renderer_spec(), self.diff_indices_spec(), self.renderers_spec().len())
    }

    /// A registry holding one radiance-cascade renderer, which is selected.
    pub fn new(window_size: (u32, u32)) -> (r: GI)
        ensures
            r.inv(),
            r.renderers_spec().len() == 1,
            r.cur_renderer_spec() == CurRenderer::Index(0),
            r.diff_indices_spec() == (0usize, 0usize),
            r.window_size_spec() == window_size,
            r.route() == Ok::<RenderRoute, SelectionError>(RenderRoute::Single(0)),
            r.renderers_spec()[0] matches Renderer::RadianceCascades(rc) && rc.label_spec()@
                == "RC 0"@ && rc.config_spec() == RCConfig::default_spec() && rc.gui_config_spec()
                == RCConfig::default_spec() && rc.window_size_spec() == window_size,
    {
        let rc = RadianceCascades::new(window_size, String::from_str("RC 0"));
        let mut renderers: Vec<Renderer> = Vec::new();
        renderers.push(Renderer::RadianceCascades(rc));
        GI {
            renderers,
            cur_renderer: CurRenderer::Index(0),
            diff_indices: (0, 0),
            cur_window_size: window_size,
        }
    }

    pub fn window_size(&self) -> (r: (u32, u32))
        ensures
            r == self.window_size_spec(),
    {
        self.cur_window_size
    }

    pub fn len(&self) -> (r: usize)
        ensures
            r == self.renderers_spec().len(),
    {
        self.renderers.len()
    }

    pub fn renderer(&self, i: usize) -> (r: &Renderer)
        requires
            i < self.renderers_spec().len(),
        ensures
            *r == self.renderers_spec()[i as int],
    {
        &self.renderers[i]
    }

    pub fn cur_renderer(&self) -> (r: CurRenderer)
        ensures
            r == self.cur_renderer_spec(),
    {
        self.cur_renderer
    }

    pub fn diff_indices(&self) -> (r: (usize, usize))
        ensures
            r == self.diff_indices_spec(),
    {
        self.diff_indices
    }

    /// Decides what this frame renders; a selection naming a missing renderer renders nothing
    /// and is reported.
    pub fn render(&self) -> (r: Result<RenderRoute, SelectionError>)
        ensures
            r == self.route(),
    {
        let n = self.renderers.len();
        match self.cur_renderer {
            CurRenderer::Index(i) => if i < n {
                Ok(RenderRoute::Single(i))
            } else {
                Err(SelectionError::InvalidIndex)
            },
            CurRenderer::Diff => if self.diff_indices.0 < n && self.diff_indices.1 < n {
                Ok(RenderRoute::Diff(self.diff_indices.0, self.diff_indices.1))
            } else {
                Err(SelectionError::InvalidDiffIndices)
            },
        }
    }

    /// Sets the selection as given; a missing index is reported by the next `render`.
    pub fn select(&mut self, cur: CurRenderer)
        ensures
            final(self).cur_renderer_spec() == cur,
            final(self).renderers_spec() == old(self).renderers_spec(),
            final(self).diff_indices_spec() == old(self).diff_indices_spec(),
            final(self).window_size_spec() == old(self).window_size_spec(),
    {
        self.cur_renderer = cur;
    }

    /// Sets the two renderers that the comparison view shows.
    pub fn set_diff_indices(&mut self, first: usize, second: usize)
        ensures
            final(self).diff_indices_spec() == (first, second),
            final(self).renderers_spec() == old(self).renderers_spec(),
            final(self).cur_renderer_spec() == old(self).cur_renderer_spec(),
            final(self).window_size_spec() == old(self).window_size_spec(),
    {
        self.diff_indices = (first, second);
    }

    /// Moves every renderer to a `new_size` canvas; returns whether every committed
    /// configuration still fits under `limit` there.
    pub fn resize(&mut self, new_size: (u32, u32), limit: u32) -> (r: bool)
        requires
            old(self).inv(),
        ensures
            final(self).inv(),
            final(self).window_size_spec() == new_size,
            final(self).renderers_spec().len() == old(self).renderers_spec().len(),
            forall|i: int|
                0 <= i < final(self).renderers_spec().len() ==> (#[trigger] final(self).renderers_spec()[i]).label_spec() == old(self).renderers_spec()[i].label_spec(),
            forall|i: int|
                0 <= i < final(self).renderers_spec().len() ==> (#[trigger] final(self).renderers_spec()[i]).keeps_settings_of(old(self).renderers_spec()[i]),
            final(self).cur_renderer_spec() == old(self).cur_renderer_spec(),
            final(self).diff_indices_spec() == old(self).diff_indices_spec(),
            r == forall|i: int|
                0 <= i < final(self).renderers_spec().len() ==> (#[trigger] final(self).renderers_spec()[i]).fits(new_size, limit),
    {
        self.cur_window_size = new_size;
        let n = self.renderers.len();
        let mut all_fit = true;
        let mut i: usize = 0;
        while i < n
            invariant
                n == self.renderers@.len(),
                n == old(self).renderers@.len(),
                n >= 1,
                i <= n,
                self.cur_window_size == new_size,
                self.cur_renderer == old(self).cur_renderer,
                self.diff_indices == old(self).diff_indices,
                forall|j: int|
                    0 <= j < n ==> (#[trigger] self.renderers@[j]).label_spec() == old(self).renderers@[j].label_spec(),
                forall|j: int| 0 <= j < n ==> (#[trigger] self.renderers@[j]).inv(),
                forall|j: int| 0 <= j < i ==> (#[trigger] self.renderers@[j]).keeps_settings_of(old(self).renderers@[j]),
                forall|j: int| i <= j < n ==> (#[trigger] self.renderers@[j]) == old(self).renderers@[j],
                forall|j: int| 0 <= j < i ==> (#[trigger] self.renderers@[j]).sized_to(new_size),
                all_fit == forall|j: int|
                    0 <= j < i ==> (#[trigger] self.renderers@[j]).fits(new_size, limit),
            decreases n - i,
        {
            let ghost before = self.renderers@;
            let fits = self.renderers[i].resize(new_size, limit);
            proof {
                assert forall|j: int| 0 <= j < n && j != i implies self.renderers@[j] == before[j] by {}
                if all_fit && fits {
                    assert forall|j: int| 0 <= j < i + 1 implies (#[trigger] self.renderers@[j]).fits(
                        new_size,
                        limit,
                    ) by {
                        if j < i {
                            assert(before[j].fits(new_size, limit));
                        }
                    }
                } else if !fits {
                    assert(!self.renderers@[i as int].fits(new_size, limit));
                } else {
                    let j = choose|j: int| 0 <= j < i && !(#[trigger] before[j]).fits(new_size, limit);
                    assert(!self.renderers@[j].fits(new_size, limit));
                }
            }
            all_fit = all_fit && fits;
            i = i + 1;
        }
        proof {
            assert(self.renderers_spec() == self.renderers@);
            if all_fit {
                assert forall|j: int| 0 <= j < self.renderers_spec().len() implies (
                #[trigger] self.renderers_spec()[j]).fits(new_size, limit) by {
                    assert(self.renderers@[j].fits(new_size, limit));
                }
            } else {
                let j = choose|j: int| 0 <= j < n && !(#[trigger] self.renderers@[j]).fits(new_size, limit);
                assert(!self.renderers_spec()[j].fits(new_size, limit));
            }
        }
        all_fit
    }

    /// Appends `renderer` and returns its index.
    pub fn push(&mut self, renderer: Renderer) -> (r: usize)
        requires
            old(self).inv(),
            renderer.inv(),
            renderer.sized_to(old(self).window_size_spec()),
            old(self).renderers_spec().len() < usize::MAX,
        ensures
            final(self).inv(),
            r == old(self).renderers_spec().len(),
            final(self).renderers_spec() == old(self).renderers_spec().push(renderer),
            final(self).cur_renderer_spec() == old(self).cur_renderer_spec(),
            final(self).diff_indices_spec() == old(self).diff_indices_spec(),
            final(self).window_size_spec() == old(self).window_size_spec(),
            old(self).route().is_ok() ==> final(self).route() == old(self).route(),
    {
        let n = self.renderers.len();
        self.renderers.push(renderer);
        n
    }

    /// Appends a raymarcher at the current canvas size.
    pub fn add_raymarcher(&mut self, label: String) -> (r: usize)
        requires
            old(self).inv(),
            old(self).renderers_spec().len() < usize::MAX,
        ensures
            final(self).inv(),
            r == old(self).renderers_spec().len(),
            final(self).renderers_spec().len() == r + 1,
            final(self).renderers_spec() == old(self).renderers_spec().push(final(self).renderers_spec()[r as int]),
            final(self).renderers_spec()[r as int] matches Renderer::Raymarcher(m) && m.ray_count_spec()
                == DEFAULT_RAYMARCH_RAYS && m.window_size_spec() == old(self).window_size_spec(),
            final(self).renderers_spec()[r as int].label_spec() == label,
            final(self).cur_renderer_spec() == old(self).cur_renderer_spec(),
            final(self).diff_indices_spec() == old(self).diff_indices_spec(),
            final(self).window_size_spec() == old(self).window_size_spec(),
    {
        let r = Raymarcher::new(self.cur_window_size, label);
        self.push(Renderer::Raymarcher(r))
    }

    /// Appends a radiance-cascade solver at the current canvas size.
    pub fn add_radiance_cascades(&mut self, label: String) -> (r: usize)
        requires
            old(self).inv(),
            old(self).renderers_spec().len() < usize::MAX,
        ensures
            final(self).inv(),
            r == old(self).renderers_spec().len(),
            final(self).renderers_spec().len() == r + 1,
            final(self).renderers_spec() == old(self).renderers_spec().push(final(self).renderers_spec()[r as int]),
            final(self).renderers_spec()[r as int] matches Renderer::RadianceCascades(rc)
                && rc.config_spec() == RCConfig::default_spec() && rc.gui_config_spec()
                == RCConfig::default_spec() && rc.window_size_spec() == old(self).window_size_spec(),
            final(self).renderers_spec()[r as int].label_spec() == label,
            final(self).cur_renderer_spec() == old(self).cur_renderer_spec(),
            final(self).diff_indices_spec() == old(self).diff_indices_spec(),
            final(self).window_size_spec() == old(self).window_size_spec(),
    {
        let r = RadianceCascades::new(self.cur_window_size, label);
        self.push(Renderer::RadianceCascades(r))
    }

    /// Appends an image renderer.
    pub fn add_texture_renderer(&mut self, label: String) -> (r: usize)
        requires
            old(self).inv(),
            old(self).renderers_spec().len() < usize::MAX,
        ensures
            final(self).inv(),
            r == old(self).renderers_spec().len(),
            final(self).renderers_spec().len() == r + 1,
            final(self).renderers_spec() == old(self).renderers_spec().push(final(self).renderers_spec()[r as int]),
            final(self).renderers_spec()[r as int] is Texture,
            final(self).renderers_spec()[r as int].label_spec() == label,
            final(self).cur_renderer_spec() == old(self).cur_renderer_spec(),
            final(self).diff_indices_spec() == old(self).diff_indices_spec(),
            final(self).window_size_spec() == old(self).window_size_spec(),
    {
        self.push(Renderer::Texture(TextureRenderer::new(label)))
    }

    /// Removes renderer `index` and re-points the selection and the compared pair so that no
    /// index dangles. A missing index, or the last remaining renderer, is left in place and
    /// reported with `false`.
    pub fn remove(&mut self, index: usize) -> (r: bool)
        requires
            old(self).inv(),
        ensures
            final(self).inv(),
            r == (index < old(self).renderers_spec().len() && old(self).renderers_spec().len()
                >= 2),
            !r ==> final(self).renderers_spec() == old(self).renderers_spec()
                && final(self).cur_renderer_spec() == old(self).cur_renderer_spec()
                && final(self).diff_indices_spec() == old(self).diff_indices_spec(),
            r ==> final(self).renderers_spec() == old(self).renderers_spec().remove(index as int),
            r ==> final(self).cur_renderer_spec() == shift_selection(
                old(self).cur_renderer_spec(),
                index,
            ),
            r ==> final(self).diff_indices_spec() == (
                shift_index(old(self).diff_indices_spec().0, index),
                shift_index(old(self).diff_indices_spec().1, index),
            ),
            final(self).window_size_spec() == old(self).window_size_spec(),
            old(self).route().is_ok() ==> final(self).route().is_ok(),
    {
        let n = self.renderers.len();
        if index >= n || n < 2 {
            return false;
        }
        let _removed = self.renderers.remove(index);
        self.cur_renderer = match self.cur_renderer {
            CurRenderer::Index(i) => CurRenderer::Index(shift_index_exec(i, index)),
            CurRenderer::Diff => CurRenderer::Diff,
        };
        self.diff_indices = (
            shift_index_exec(self.diff_indices.0, index),
            shift_index_exec(self.diff_indices.1, index),
        );
        proof {
            let old_s = old(self).renderers@;
            let new_s = self.renderers@;
            assert forall|i: int| 0 <= i < new_s.len() implies (#[trigger] new_s[i]).inv()
                && new_s[i].sized_to(self.cur_window_size) by {
                if i < index {
                    assert(new_s[i] == old_s[i]);
                } else {
                    assert(new_s[i] == old_s[i + 1]);
                }
            }
        }
        true
    }

    /// Puts `renderer` in place of renderer `index`; the selection is unchanged. A missing
    /// index is reported with `false` and nothing changes.
    pub fn replace(&mut self, index: usize, renderer: Renderer) -> (r: bool)
        requires
            old(self).inv(),
            renderer.inv(),
            renderer.sized_to(old(self).window_size_spec()),
        ensures
            final(self).inv(),
            r == (index < old(self).renderers_spec().len()),
            r ==> final(self).renderers_spec() == old(self).renderers_spec().update(
                index as int,
                renderer,
            ),
            !r ==> final(self).renderers_spec() == old(self).renderers_spec(),
            final(self).cur_renderer_spec() == old(self).cur_renderer_spec(),
            final(self).diff_indices_spec() == old(self).diff_indices_spec(),
            final(self).window_size_spec() == old(self).window_size_spec(),
            final(self).route() == old(self).route(),
    {
        if index >= self.renderers.len() {
            return false;
        }
        self.renderers.set(index, renderer);
        true
    }
    /// Stages `staged` on renderer `index` when it is a radiance-cascade solver; `false`, with
    /// nothing changed, otherwise.
    pub fn set_gui_config(&mut self, index: usize, staged: RCConfig) -> (r: bool)
        requires
            old(self).inv(),
        ensures
            final(self).inv(),
            r == (index < old(self).renderers_spec().len() && old(self).renderers_spec()[index as int] is RadianceCascades),
            final(self).renderers_spec().len() == old(self).renderers_spec().len(),
            forall|j: int| 0 <= j < old(self).renderers_spec().len() && j != index ==> #[trigger] final(self).renderers_spec()[j] == old(self).renderers_spec()[j],
            r ==> (final(self).renderers_spec()[index as int] matches Renderer::RadianceCascades(rc) && rc.gui_config_spec() == staged
                && rc.config_spec() == old(self).renderers_spec()[index as int]->RadianceCascades_0.config_spec()
                && rc.label_spec() == old(self).renderers_spec()[index as int]->RadianceCascades_0.label_spec()
                && rc.window_size_spec() == old(self).renderers_spec()[index as int]->RadianceCascades_0.window_size_spec()),
            !r ==> final(self).renderers_spec() == old(self).renderers_spec(),
            final(self).cur_renderer_spec() == old(self).cur_renderer_spec(),
            final(self).diff_indices_spec() == old(self).diff_indices_spec(),
            final(self).window_size_spec() == old(self).window_size_spec(),
    {
        if index >= self.renderers.len() {
            return false;
        }
        match &mut self.renderers[index] {
            Renderer::RadianceCascades(rc) => {
                rc.set_gui_config(staged);
                true
            },
            _ => false,
        }
    }

    /// Commits the staged configuration of renderer `index` when it is a radiance-cascade
    /// solver and the configuration is admissible under `limit`; `false`, with nothing
    /// changed, otherwise.
    pub fn apply_gui_config(&mut self, index: usize, limit: u32) -> (r: bool)
        requires
            old(self).inv(),
        ensures
            final(self).inv(),
            r == (index < old(self).renderers_spec().len() && old(self).renderers_spec()[index as int] is RadianceCascades
                && old(self).renderers_spec()[index as int]->RadianceCascades_0.gui_config_spec().admissible(old(self).window_size_spec(), limit)),
            final(self).renderers_spec().len() == old(self).renderers_spec().len(),
            forall|j: int| 0 <= j < old(self).renderers_spec().len() && j != index ==> #[trigger] final(self).renderers_spec()[j] == old(self).renderers_spec()[j],
            r ==> (final(self).renderers_spec()[index as int] matches Renderer::RadianceCascades(rc)
                && rc.config_spec() == old(self).renderers_spec()[index as int]->RadianceCascades_0.gui_config_spec()
                && rc.gui_config_spec() == old(self).renderers_spec()[index as int]->RadianceCascades_0.gui_config_spec()
                && rc.label_spec() == old(self).renderers_spec()[index as int]->RadianceCascades_0.label_spec()
                && rc.window_size_spec() == old(self).renderers_spec()[index as int]->RadianceCascades_0.window_size_spec()),
            !r ==> final(self).renderers_spec() == old(self).renderers_spec(),
            final(self).cur_renderer_spec() == old(self).cur_renderer_spec(),
            final(self).diff_indices_spec() == old(self).diff_indices_spec(),
            final(self).window_size_spec() == old(self).window_size_spec(),
    {
        if index >= self.renderers.len() {
            return false;
        }
        proof {
            assert(self.renderers@[index as int].sized_to(self.cur_window_size));
        }
        match &mut self.renderers[index] {
            Renderer::RadianceCascades(rc) => rc.apply_gui_config(limit),
            _ => false,
        }
    }

    /// Sets the ray count of renderer `index` when it is a raymarcher; `false`, with nothing
    /// changed, otherwise.
    pub fn set_ray_count(&mut self, index: usize, ray_count: u32) -> (r: bool)
        requires
            old(self).inv(),
        ensures
            final(self).inv(),
            r == (index < old(self).renderers_spec().len() && old(self).renderers_spec()[index as int] is Raymarcher),
            final(self).renderers_spec().len() == old(self).renderers_spec().len(),
            forall|j: int| 0 <= j < old(self).renderers_spec().len() && j != index ==> #[trigger] final(self).renderers_spec()[j] == old(self).renderers_spec()[j],
            r ==> (final(self).renderers_spec()[index as int] matches Renderer::Raymarcher(rm) && rm.ray_count_spec() == ray_count
                && rm.label_spec() == old(self).renderers_spec()[index as int]->Raymarcher_0.label_spec()
                && rm.window_size_spec() == old(self).renderers_spec()[index as int]->Raymarcher_0.window_size_spec()),
            !r ==> final(self).renderers_spec() == old(self).renderers_spec(),
            final(self).cur_renderer_spec() == old(self).cur_renderer_spec(),
            final(self).diff_indices_spec() == old(self).diff_indices_spec(),
            final(self).window_size_spec() == old(self).window_size_spec(),
    {
        if index >= self.renderers.len() {
            return false;
        }
        match &mut self.renderers[index] {
            Renderer::Raymarcher(rm) => {
                rm.set_ray_count(ray_count);
                true
            },
            _ => false,
        }
    }
}

} // verus!
