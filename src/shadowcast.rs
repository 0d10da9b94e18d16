use crate::geometry::{Coord, DirectionBitmap, CARDINAL_BITS};
use crate::grid::InputGrid;
use crate::octants::{
    BottomLeft, BottomRight, LeftBottom, LeftTop, Octant, RightBottom, RightTop, TopLeft,
    TopRight, LATERAL_LIMIT, SPAN,
};
use crate::vision_distance::VisionDistance;
use vstd::prelude::*;

verus! {

/// What one visible cell reports: where it is, which of its edges and
/// corners the eye sees, and the visibility that reached it.
pub type Sighting = (Coord, DirectionBitmap, u8);

/// The largest magnitude of a gradient component.
pub const GRADIENT_LIMIT: i64 = 0x10_0000_0000;

/// The largest depth a strip can have.
pub const DEPTH_LIMIT: i64 = 0x4_0000_0000;

/// The mathematical setting of a visibility computation: the eye, the grid's
/// extent, each cell's opacity and the vision-range test on offsets.
pub struct Scene {
    pub centre: Coord,
    pub width: int,
    pub height: int,
    pub opacity: spec_fn(Coord) -> u8,
    pub in_range: spec_fn(int, int) -> bool,
}

impl Scene {
    pub open spec fn in_grid(self, x: int, y: int) -> bool {
        0 <= x < self.width && 0 <= y < self.height
    }

    /// The eye stands on a cell of a grid whose cells have `i32` coordinates.
    pub open spec fn wf(self) -> bool {
        &&& 0 <= self.width <= i32::MAX
        &&& 0 <= self.height <= i32::MAX
        &&& self.in_grid(self.centre.x as int, self.centre.y as int)
    }
}

/// The scene that a grid and a vision distance describe around `centre`.
pub open spec fn scene_of<In: InputGrid, V: VisionDistance>(centre: Coord, grid: In, vd: V) -> Scene {
    Scene {
        centre,
        width: grid.spec_size().width as int,
        height: grid.spec_size().height as int,
        opacity: |c: Coord| grid.spec_opacity(c),
        in_range: |dx: int, dy: int| vd.spec_in_range(dx, dy),
    }
}

/// A product of two bounded naturals is bounded by the product of the bounds.
proof fn lemma_mul_bounded(a: int, b: int, la: int, lb: int)
    requires
        0 <= a <= la,
        0 <= b <= lb,
    ensures
        0 <= a * b <= la * lb,
{
    assert(0 <= a * b <= la * lb) by (nonlinear_arith)
        requires
            0 <= a <= la,
            0 <= b <= lb,
    ;
}

/// A signed factor keeps the product within the product of the bounds.
proof fn lemma_mul_signed_bounded(a: int, b: int, la: int, lb: int)
    requires
        -la <= a <= la,
        0 <= b <= lb,
    ensures
        -(la * lb) <= a * b <= la * lb,
{
    assert(-(la * lb) <= a * b <= la * lb) by (nonlinear_arith)
        requires
            -la <= a <= la,
            0 <= b <= lb,
    ;
}

/// The slope `lateral / depth` of a line from the eye, in half-cell units.
#[derive(Clone, Copy, Debug)]
pub(crate) struct Gradient {
    pub(crate) lateral: i64,
    pub(crate) depth: i64,
}

impl Gradient {
    pub(crate) open spec fn bounded(self) -> bool {
        0 <= self.lateral <= GRADIENT_LIMIT && 1 <= self.depth <= GRADIENT_LIMIT
    }

    /// Equal slopes, compared by cross-multiplication.
    pub(crate) open spec fn same_slope(self, other: Gradient) -> bool {
        self.lateral * other.depth == self.depth * other.lateral
    }

    fn new(lateral: i64, depth: i64) -> (r: Gradient)
        ensures
            r.lateral == lateral,
            r.depth == depth,
    {
        Gradient { lateral, depth }
    }

    fn equals(&self, other: &Gradient) -> (r: bool)
        requires
            self.bounded(),
            other.bounded(),
        ensures
            r == self.same_slope(*other),
    {
        proof {
            lemma_mul_bounded(self.lateral as int, other.depth as int, GRADIENT_LIMIT as int, GRADIENT_LIMIT as int);
            lemma_mul_bounded(self.depth as int, other.lateral as int, GRADIENT_LIMIT as int, GRADIENT_LIMIT as int);
        }
        (self.lateral as i128) * (other.depth as i128) == (self.depth as i128) * (other.lateral as i128)
    }
}

/// An angular interval of one octant at one depth, with the visibility
/// that enters it.
#[derive(Clone, Copy, Debug)]
pub(crate) struct ScanParams {
    pub(crate) min_gradient: Gradient,
    pub(crate) max_gradient: Gradient,
    pub(crate) min_inclusive: bool,
    pub(crate) depth: i64,
    pub(crate) visibility: u8,
}

impl ScanParams {
    pub(crate) open spec fn bounded(self) -> bool {
        &&& self.min_gradient.bounded()
        &&& self.max_gradient.bounded()
        &&& 1 <= self.depth <= DEPTH_LIMIT
    }

    pub(crate) open spec fn spec_octant_base(visibility: u8) -> ScanParams {
        ScanParams {
            min_gradient: Gradient { lateral: 0, depth: 1 },
            max_gradient: Gradient { lateral: 1, depth: 1 },
            min_inclusive: true,
            depth: 1,
            visibility,
        }
    }

    /// The whole octant, from the axis to the diagonal, at depth one.
    fn octant_base(visibility: u8) -> (r: ScanParams)
        ensures
            r == Self::spec_octant_base(visibility),
    {
        ScanParams {
            min_gradient: Gradient::new(0, 1),
            max_gradient: Gradient::new(1, 1),
            min_inclusive: true,
            depth: 1,
            visibility,
        }
    }

    /// The first lateral offset scanned.
    pub(crate) open spec fn lateral_lo(self) -> int {
        (self.min_gradient.depth + self.min_gradient.lateral * (2 * self.depth)) / (
        self.min_gradient.depth * 2) + if self.min_inclusive {
            0int
        } else {
            1int
        }
    }

    /// The last lateral offset that the interval reaches, before clamping
    /// to the octant.
    pub(crate) open spec fn lateral_hi(self) -> int {
        (self.max_gradient.depth + self.max_gradient.lateral * (2 * self.depth) - 1) / (
        self.max_gradient.depth * 2)
    }
}

/// The diagonal cell of a strip, held back for the octant pair to reconcile.
#[derive(Clone, Copy, Debug)]
pub(crate) struct CornerInfo {
    pub(crate) bitmap: DirectionBitmap,
    pub(crate) coord: Coord,
    pub(crate) visibility: u8,
}

/// What a strip scan carries from one cell to the next.
pub(crate) struct ScanState {
    pub(crate) min_gradient: Gradient,
    pub(crate) min_inclusive: bool,
    pub(crate) prev_visibility: u8,
    pub(crate) prev_opaque: bool,
}

/// The effect of scanning: the intervals queued for the next depth, the
/// sightings reported, and the held-back diagonal cell.
pub(crate) struct ScanOut {
    pub(crate) next: Seq<ScanParams>,
    pub(crate) seen: Seq<Sighting>,
    pub(crate) corner: Option<CornerInfo>,
}

/// The edges and corners of a cell that the eye sees.
pub(crate) open spec fn cell_bitmap<O: Octant>(
    o: O,
    max_gradient: Gradient,
    front_depth: int,
    gradient_lateral: int,
    transition: bool,
    opaque: bool,
) -> DirectionBitmap {
    let start = if transition {
        DirectionBitmap { raw: 0 }.spec_union(o.spec_across())
    } else {
        DirectionBitmap { raw: 0 }
    };
    if opaque {
        if max_gradient.lateral * front_depth > gradient_lateral * max_gradient.depth {
            start.spec_union(o.spec_facing())
        } else if start.raw == 0 {
            start.spec_union(o.spec_facing_corner())
        } else {
            start
        }
    } else {
        start.spec_union(DirectionBitmap { raw: 0xff })
    }
}

/// What scanning one cell on the grid does, whether or not it is in range:
/// the state carried on, the intervals queued, and the edges seen.
pub(crate) struct CellStep {
    pub(crate) state: ScanState,
    pub(crate) next: Seq<ScanParams>,
    pub(crate) coord: Coord,
    pub(crate) bitmap: DirectionBitmap,
}

/// Scans the cell at lateral offset `i`, which lies on the grid at `c`.
pub(crate) open spec fn cell_step<O: Octant>(
    o: O,
    s: Scene,
    p: ScanParams,
    lo: int,
    hi: int,
    st: ScanState,
    i: int,
    c: (int, int),
    next: Seq<ScanParams>,
) -> CellStep {
    let coord = Coord { x: c.0 as i32, y: c.1 as i32 };
    let opacity = (s.opacity)(coord);
    let gradient_lateral = 2 * i - 1;
    let opaque = !(p.visibility > opacity);
    let visibility: u8 = if opaque {
        0
    } else {
        (p.visibility - opacity) as u8
    };
    let transition = i != lo && visibility != st.prev_visibility;
    let gradient = Gradient {
        lateral: gradient_lateral as i64,
        depth: (if visibility < st.prev_visibility {
            2 * p.depth + 1
        } else {
            2 * p.depth - 1
        }) as i64,
    };
    let next1 = if transition && !st.prev_opaque {
        next.push(
            ScanParams {
                min_gradient: st.min_gradient,
                max_gradient: gradient,
                min_inclusive: st.min_inclusive,
                depth: (p.depth + 1) as i64,
                visibility: st.prev_visibility,
            },
        )
    } else {
        next
    };
    let min_gradient = if transition {
        gradient
    } else {
        st.min_gradient
    };
    let min_inclusive = if transition {
        false
    } else {
        st.min_inclusive
    };
    let bitmap = cell_bitmap(o, p.max_gradient, 2 * p.depth - 1, gradient_lateral, transition, opaque);
    let next2 = if i == hi && !opaque && !min_gradient.same_slope(p.max_gradient) {
        next1.push(
            ScanParams {
                min_gradient,
                max_gradient: p.max_gradient,
                min_inclusive,
                depth: (p.depth + 1) as i64,
                visibility,
            },
        )
    } else {
        next1
    };
    CellStep {
        state: ScanState { min_gradient, min_inclusive, prev_visibility: visibility, prev_opaque: opaque },
        next: next2,
        coord,
        bitmap,
    }
}

/// Scans the cells of a strip from lateral offset `i` to `hi`.
pub(crate) open spec fn scan_rest<O: Octant>(
    o: O,
    s: Scene,
    p: ScanParams,
    lo: int,
    hi: int,
    depth_index: int,
    st: ScanState,
    i: int,
    next: Seq<ScanParams>,
    seen: Seq<Sighting>,
) -> ScanOut
    decreases hi + 1 - i,
{
    if i > hi {
        ScanOut { next, seen, corner: None }
    } else {
        let c = o.spec_make_coord(s.centre, i, depth_index);
        if !s.in_grid(c.0, c.1) {
            ScanOut { next, seen, corner: None }
        } else {
            let step = cell_step(o, s, p, lo, hi, st, i, c, next);
            let in_range = (s.in_range)(c.0 - s.centre.x, c.1 - s.centre.y);
            if i == hi && in_range && i == p.depth {
                ScanOut {
                    next: step.next,
                    seen,
                    corner: Some(
                        CornerInfo { bitmap: step.bitmap, coord: step.coord, visibility: p.visibility },
                    ),
                }
            } else {
                let seen2 = if in_range && o.spec_should_see(i) {
                    seen.push((step.coord, step.bitmap, p.visibility))
                } else {
                    seen
                };
                scan_rest(o, s, p, lo, hi, depth_index, step.state, i + 1, step.next, seen2)
            }
        }
    }
}

/// Scans one strip: the cells of the interval `p` at its depth.
pub(crate) open spec fn scan_spec<O: Octant>(
    o: O,
    s: Scene,
    p: ScanParams,
    next: Seq<ScanParams>,
    seen: Seq<Sighting>,
) -> ScanOut {
    match o.spec_depth_index(s.centre, p.depth as int) {
        None => ScanOut { next, seen, corner: None },
        Some(depth_index) => {
            let lo = p.lateral_lo();
            let hi = if p.lateral_hi() < o.spec_lateral_max(s.centre) {
                p.lateral_hi()
            } else {
                o.spec_lateral_max(s.centre)
            };
            scan_rest(
                o,
                s,
                p,
                lo,
                hi,
                depth_index as int,
                ScanState {
                    min_gradient: p.min_gradient,
                    min_inclusive: p.min_inclusive,
                    prev_visibility: 0,
                    prev_opaque: false,
                },
                lo,
                next,
                seen,
            )
        }
    }
}

/// Every interval queued after `old` is bounded and lies one step deeper
/// than `depth`, and any queued at all means that `depth` lies within the
/// grid's reach.
pub(crate) open spec fn queued_deeper(
    old: Seq<ScanParams>,
    new: Seq<ScanParams>,
    depth: int,
    s: Scene,
) -> bool {
    &&& old.len() <= new.len()
    &&& new.subrange(0, old.len() as int) == old
    &&& forall|k: int|
        old.len() <= k < new.len() ==> (#[trigger] new[k]).bounded() && new[k].depth == depth + 1
    &&& new.len() > old.len() ==> depth < s.width + s.height
}

proof fn lemma_queued_deeper_trans(
    a: Seq<ScanParams>,
    b: Seq<ScanParams>,
    c: Seq<ScanParams>,
    depth: int,
    s: Scene,
)
    requires
        queued_deeper(a, b, depth, s),
        queued_deeper(b, c, depth, s),
    ensures
        queued_deeper(a, c, depth, s),
{
    assert(c.subrange(0, a.len() as int) =~= b.subrange(0, a.len() as int)) by {
        assert forall|k: int| 0 <= k < a.len() implies c[k] == b[k] by {
            assert(c.subrange(0, b.len() as int)[k] == c[k]);
        }
    }
    assert forall|k: int| a.len() <= k < c.len() implies (#[trigger] c[k]).bounded() && c[k].depth
        == depth + 1 by {
        if k < b.len() {
            assert(c.subrange(0, b.len() as int)[k] == c[k]);
            assert(b[k] == c[k]);
        }
    }
}

proof fn lemma_queued_deeper_push(
    old: Seq<ScanParams>,
    new: Seq<ScanParams>,
    depth: int,
    s: Scene,
    x: ScanParams,
)
    requires
        queued_deeper(old, new, depth, s),
        x.bounded(),
        x.depth == depth + 1,
        depth < s.width + s.height,
    ensures
        queued_deeper(old, new.push(x), depth, s),
{
    assert(new.push(x).subrange(0, old.len() as int) =~= new.subrange(0, old.len() as int));
    assert forall|k: int| old.len() <= k < new.push(x).len() implies (#[trigger] new.push(x)[k]).bounded()
        && new.push(x)[k].depth == depth + 1 by {
        if k < new.len() {
            assert(new.push(x)[k] == new[k]);
        }
    }
}

/// A reported cell lies on the grid, within vision range, and shows the eye
/// at least one edge or corner.
pub open spec fn sighting_ok(s: Scene, r: Sighting) -> bool {
    &&& s.in_grid(r.0.x as int, r.0.y as int)
    &&& (s.in_range)(r.0.x - s.centre.x, r.0.y - s.centre.y)
    &&& r.1.raw != 0
}

/// `new` is `old` with well-formed sightings appended.
pub(crate) open spec fn extends_ok(old: Seq<Sighting>, new: Seq<Sighting>, s: Scene) -> bool {
    &&& old.len() <= new.len()
    &&& new.subrange(0, old.len() as int) == old
    &&& forall|k: int| old.len() <= k < new.len() ==> sighting_ok(s, #[trigger] new[k])
}

proof fn lemma_extends_ok_refl(a: Seq<Sighting>, s: Scene)
    ensures
        extends_ok(a, a, s),
{
    assert(a.subrange(0, a.len() as int) =~= a);
}

proof fn lemma_extends_ok_trans(a: Seq<Sighting>, b: Seq<Sighting>, c: Seq<Sighting>, s: Scene)
    requires
        extends_ok(a, b, s),
        extends_ok(b, c, s),
    ensures
        extends_ok(a, c, s),
{
    assert(c.subrange(0, a.len() as int) =~= b.subrange(0, a.len() as int)) by {
        assert forall|k: int| 0 <= k < a.len() implies c[k] == b[k] by {
            assert(c.subrange(0, b.len() as int)[k] == c[k]);
        }
    }
    assert forall|k: int| a.len() <= k < c.len() implies sighting_ok(s, #[trigger] c[k]) by {
        if k < b.len() {
            assert(c.subrange(0, b.len() as int)[k] == c[k]);
        }
    }
}

proof fn lemma_extends_ok_push(a: Seq<Sighting>, b: Seq<Sighting>, s: Scene, x: Sighting)
    requires
        extends_ok(a, b, s),
        sighting_ok(s, x),
    ensures
        extends_ok(a, b.push(x), s),
{
    assert(b.push(x).subrange(0, a.len() as int) =~= b.subrange(0, a.len() as int));
    assert forall|k: int| a.len() <= k < b.push(x).len() implies sighting_ok(
        s,
        #[trigger] b.push(x)[k],
    ) by {
        if k < b.len() {
            assert(b.push(x)[k] == b[k]);
        }
    }
}

proof fn lemma_union_nonempty(a: u8, b: u8)
    requires
        a != 0 || b != 0,
    ensures
        a | b != 0,
{
    assert(a != 0 || b != 0 ==> a | b != 0) by (bit_vector);
}

/// The fixed inputs of one visibility computation.
pub(crate) struct StaticParams<'a, In: InputGrid, VisDist: VisionDistance> {
    pub(crate) centre: Coord,
    pub(crate) vision_distance: &'a VisDist,
    pub(crate) input_grid: &'a In,
    pub(crate) width: i64,
    pub(crate) height: i64,
}

impl<'a, In: InputGrid, VisDist: VisionDistance> StaticParams<'a, In, VisDist> {
    pub(crate) open spec fn scene(&self) -> Scene {
        scene_of(self.centre, *self.input_grid, *self.vision_distance)
    }

    pub(crate) open spec fn wf(&self) -> bool {
        &&& self.scene().wf()
        &&& self.width == self.scene().width
        &&& self.height == self.scene().height
    }
}

fn scan<In: InputGrid, VisDist: VisionDistance, O: Octant>(
    octant: &O,
    next: &mut Vec<ScanParams>,
    params: ScanParams,
    static_params: &StaticParams<In, VisDist>,
    out: &mut Vec<Sighting>,
) -> (r: Option<CornerInfo>)
    requires
        static_params.wf(),
        params.bounded(),
    ensures
        ({
            let s = scan_spec(*octant, static_params.scene(), params, old(next)@, old(out)@);
            &&& final(next)@ == s.next
            &&& final(out)@ == s.seen
            &&& r == s.corner
        }),
        queued_deeper(old(next)@, final(next)@, params.depth as int, static_params.scene()),
        extends_ok(old(out)@, final(out)@, static_params.scene()),
        r matches Some(c) ==> sighting_ok(static_params.scene(), (c.coord, c.bitmap, c.visibility)),
{
    let ghost s = static_params.scene();
    proof {
        lemma_extends_ok_refl(out@, s);
    }
    let ghost next0 = next@;
    let ghost out0 = out@;
    let depth_index = match octant.depth_index(static_params.centre, params.depth) {
        Some(d) => d,
        None => {
            assert(next@.subrange(0, next0.len() as int) =~= next0);
            return None;
        },
    };
    let mid_gradient_depth = params.depth * 2;
    let front_gradient_depth = mid_gradient_depth - 1;
    let back_gradient_depth = mid_gradient_depth + 1;
    let max_gradient = params.max_gradient;

    proof {
        lemma_mul_bounded(
            params.min_gradient.lateral as int,
            mid_gradient_depth as int,
            GRADIENT_LIMIT as int,
            2 * DEPTH_LIMIT,
        );
        lemma_mul_bounded(
            max_gradient.lateral as int,
            mid_gradient_depth as int,
            GRADIENT_LIMIT as int,
            2 * DEPTH_LIMIT,
        );
    }
    let min_depth = params.min_gradient.depth as i128;
    let lo_num = min_depth + (params.min_gradient.lateral as i128) * (mid_gradient_depth as i128);
    let lo_wide = ((lo_num as u128) / ((min_depth * 2) as u128)) as i128 + if params.min_inclusive {
        0i128
    } else {
        1i128
    };
    let max_depth = max_gradient.depth as i128;
    let hi_num = max_depth + (max_gradient.lateral as i128) * (mid_gradient_depth as i128) - 1;
    let hi_wide = ((hi_num as u128) / ((max_depth * 2) as u128)) as i128;
    let octant_max = octant.lateral_max(static_params.centre);
    let lateral_max: i64 = if hi_wide < octant_max as i128 {
        hi_wide as i64
    } else {
        octant_max
    };
    assert(lo_wide == params.lateral_lo());
    assert(hi_wide == params.lateral_hi());
    if lo_wide > lateral_max as i128 {
        assert(next@.subrange(0, next0.len() as int) =~= next0);
        return None;
    }
    let lateral_min = lo_wide as i64;

    let ghost lo = lateral_min as int;
    let ghost hi = lateral_max as int;
    let ghost target = scan_spec(*octant, s, params, next@, out@);
    let mut min_gradient = params.min_gradient;
    let mut min_inclusive = params.min_inclusive;
    let mut prev_visibility: u8 = 0;
    let mut prev_opaque = false;
    let mut lateral_index: i64 = lateral_min;
    assert(next@.subrange(0, next0.len() as int) =~= next0);
    while lateral_index <= lateral_max
        invariant
            static_params.wf(),
            params.bounded(),
            s == static_params.scene(),
            0 <= lo <= lateral_index <= hi + 1,
            hi <= LATERAL_LIMIT,
            lo == lateral_min,
            hi == lateral_max,
            octant.spec_depth_index(s.centre, params.depth as int) == Some(depth_index),
            i32::MIN <= depth_index <= i32::MAX,
            front_gradient_depth == 2 * params.depth - 1,
            back_gradient_depth == 2 * params.depth + 1,
            max_gradient == params.max_gradient,
            min_gradient.bounded(),
            scan_rest(
                *octant,
                s,
                params,
                lo,
                hi,
                depth_index as int,
                ScanState { min_gradient, min_inclusive, prev_visibility, prev_opaque },
                lateral_index as int,
                next@,
                out@,
            ) == target,
            queued_deeper(next0, next@, params.depth as int, s),
            next0 == old(next)@,
            out0 == old(out)@,
            target == scan_spec(*octant, s, params, next0, out0),
            extends_ok(out0, out@, s),
        decreases lateral_max + 1 - lateral_index,
    {
        let (x, y) = octant.make_coord(static_params.centre, lateral_index, depth_index);
        if x < 0 || x >= static_params.width || y < 0 || y >= static_params.height {
            assert(!s.in_grid(x as int, y as int));
            return None;
        }
        proof {
            octant.lemma_depth_offset(s.centre, lateral_index as int, params.depth as int);
        }
        let coord = Coord::new(x as i32, y as i32);
        let opacity = static_params.input_grid.get_opacity(coord);
        let in_range = static_params.vision_distance.in_range(coord.minus(static_params.centre));
        let gradient_lateral = lateral_index * 2 - 1;
        let mut direction_bitmap = DirectionBitmap::empty();
        let (cur_visibility, cur_opaque) = if params.visibility > opacity {
            (params.visibility - opacity, false)
        } else {
            (0u8, true)
        };
        if lateral_index != lateral_min && cur_visibility != prev_visibility {
            let gradient_depth = if cur_visibility < prev_visibility {
                back_gradient_depth
            } else {
                front_gradient_depth
            };
            let gradient = Gradient::new(gradient_lateral, gradient_depth);
            if !prev_opaque {
                let child = ScanParams {
                    min_gradient,
                    max_gradient: gradient,
                    min_inclusive,
                    depth: params.depth + 1,
                    visibility: prev_visibility,
                };
                proof {
                    lemma_queued_deeper_push(next0, next@, params.depth as int, s, child);
                }
                next.push(child);
            }
            min_gradient = gradient;
            min_inclusive = false;
            let across = octant.across_bitmap();
            proof {
                lemma_union_nonempty(direction_bitmap.raw, across.raw);
            }
            direction_bitmap = direction_bitmap.union(across);
        }
        proof {
            lemma_mul_bounded(
                max_gradient.lateral as int,
                front_gradient_depth as int,
                GRADIENT_LIMIT as int,
                GRADIENT_LIMIT as int,
            );
            lemma_mul_signed_bounded(
                gradient_lateral as int,
                max_gradient.depth as int,
                GRADIENT_LIMIT as int,
                GRADIENT_LIMIT as int,
            );
        }
        if cur_opaque {
            if (max_gradient.lateral as i128) * (front_gradient_depth as i128) > (
            gradient_lateral as i128) * (max_gradient.depth as i128) {
                let facing = octant.facing_bitmap();
                proof {
                    lemma_union_nonempty(direction_bitmap.raw, facing.raw);
                }
                direction_bitmap = direction_bitmap.union(facing);
            } else if direction_bitmap.is_empty() {
                let facing_corner = octant.facing_corner_bitmap();
                proof {
                    lemma_union_nonempty(direction_bitmap.raw, facing_corner.raw);
                }
                direction_bitmap = direction_bitmap.union(facing_corner);
            }
        } else {
            proof {
                lemma_union_nonempty(direction_bitmap.raw, 0xff);
            }
            direction_bitmap = direction_bitmap.union(DirectionBitmap::all());
        }
        if lateral_index == lateral_max {
            if !cur_opaque && !min_gradient.equals(&max_gradient) {
                let rest = ScanParams {
                    min_gradient,
                    max_gradient,
                    min_inclusive,
                    depth: params.depth + 1,
                    visibility: cur_visibility,
                };
                proof {
                    lemma_queued_deeper_push(next0, next@, params.depth as int, s, rest);
                }
                next.push(rest);
            }
            if in_range && lateral_index == params.depth {
                return Some(
                    CornerInfo { bitmap: direction_bitmap, coord, visibility: params.visibility },
                );
            }
        }
        if in_range && octant.should_see(lateral_index) {
            proof {
                lemma_extends_ok_push(out0, out@, s, (coord, direction_bitmap, params.visibility));
            }
            out.push((coord, direction_bitmap, params.visibility));
        }
        prev_visibility = cur_visibility;
        prev_opaque = cur_opaque;
        lateral_index = lateral_index + 1;
    }
    None
}

/// The diagonal cell of an octant pair as the two octants have seen it so far.
#[derive(Clone, Copy, Debug)]
pub(crate) struct CornerAcc {
    pub(crate) bitmap: DirectionBitmap,
    pub(crate) coord: Option<Coord>,
    pub(crate) visibility: u8,
}

pub(crate) open spec fn no_corner() -> CornerAcc {
    CornerAcc { bitmap: DirectionBitmap { raw: 0 }, coord: None, visibility: 0 }
}

/// Folds one strip's held-back diagonal cell into the pair's view of it.
pub(crate) open spec fn add_corner(acc: CornerAcc, corner: Option<CornerInfo>) -> CornerAcc {
    match corner {
        None => acc,
        Some(c) => CornerAcc {
            bitmap: acc.bitmap.spec_union(c.bitmap),
            coord: Some(c.coord),
            visibility: if c.visibility > acc.visibility {
                c.visibility
            } else {
                acc.visibility
            },
        },
    }
}

/// Drops corner-only bits when the pair saw a whole edge but not the whole cell.
pub(crate) open spec fn reconcile(b: DirectionBitmap) -> DirectionBitmap {
    let cardinal = DirectionBitmap { raw: CARDINAL_BITS };
    if !(b.raw == 0xff || b.spec_intersection(cardinal).raw == 0) {
        b.spec_intersection(cardinal)
    } else {
        b
    }
}

/// Reports the pair's diagonal cell, if either octant reached it.
pub(crate) open spec fn emit_corner(acc: CornerAcc, seen: Seq<Sighting>) -> Seq<Sighting> {
    match acc.coord {
        None => seen,
        Some(coord) => seen.push((coord, reconcile(acc.bitmap), acc.visibility)),
    }
}

/// Scans the intervals `q[k..]` of one octant in order.
pub(crate) open spec fn drain_spec<O: Octant>(
    o: O,
    s: Scene,
    q: Seq<ScanParams>,
    k: int,
    next: Seq<ScanParams>,
    seen: Seq<Sighting>,
    acc: CornerAcc,
) -> (Seq<ScanParams>, Seq<Sighting>, CornerAcc)
    decreases q.len() - k,
{
    if k < q.len() {
        let r = scan_spec(o, s, q[k], next, seen);
        drain_spec(o, s, q, k + 1, r.next, r.seen, add_corner(acc, r.corner))
    } else {
        (next, seen, acc)
    }
}

/// One depth after another, both octants of a pair scan their queued
/// intervals and then report their shared diagonal cell.
pub(crate) open spec fn rounds<A: Octant, B: Octant>(
    a: A,
    b: B,
    s: Scene,
    qa: Seq<ScanParams>,
    qb: Seq<ScanParams>,
    seen: Seq<Sighting>,
    depth: int,
) -> Seq<Sighting>
    decreases s.width + s.height - depth,
{
    let ra = drain_spec(a, s, qa, 0, Seq::empty(), seen, no_corner());
    let rb = drain_spec(b, s, qb, 0, Seq::empty(), ra.1, ra.2);
    let seen2 = emit_corner(rb.2, rb.1);
    if (ra.0.len() == 0 && rb.0.len() == 0) || depth >= s.width + s.height {
        seen2
    } else {
        rounds(a, b, s, ra.0, rb.0, seen2, depth + 1)
    }
}

/// Everything an octant pair reports.
pub(crate) open spec fn observe_spec<A: Octant, B: Octant>(
    a: A,
    b: B,
    s: Scene,
    initial_visibility: u8,
    seen: Seq<Sighting>,
) -> Seq<Sighting> {
    let base = seq![ScanParams::spec_octant_base(initial_visibility)];
    rounds(a, b, s, base, base, seen, 1)
}

/// Everything the eye reports: its own cell, then each octant pair.
pub closed spec fn shadowcast(s: Scene, initial_visibility: u8) -> Seq<Sighting> {
    let width = s.width as i32;
    let height = s.height as i32;
    let seen0 = seq![(s.centre, DirectionBitmap { raw: 0xff }, initial_visibility)];
    let seen1 = observe_spec(TopLeft, LeftTop, s, initial_visibility, seen0);
    let seen2 = observe_spec(RightTop { width }, TopRight { width }, s, initial_visibility, seen1);
    let seen3 = observe_spec(
        LeftBottom { height },
        BottomLeft { height },
        s,
        initial_visibility,
        seen2,
    );
    observe_spec(
        BottomRight { width, height },
        RightBottom { width, height },
        s,
        initial_visibility,
        seen3,
    )
}

/// The pair's diagonal cell, once reached, is on the grid, in range and seen.
pub(crate) open spec fn corner_ok(s: Scene, acc: CornerAcc) -> bool {
    acc.coord matches Some(c) ==> sighting_ok(s, (c, acc.bitmap, acc.visibility))
}

/// Scans every interval of `queue`, emptying it, and gathers the diagonal cell.
fn drain_queue<In: InputGrid, VisDist: VisionDistance, O: Octant>(
    octant: &O,
    queue: &mut Vec<ScanParams>,
    next: &mut Vec<ScanParams>,
    static_params: &StaticParams<In, VisDist>,
    out: &mut Vec<Sighting>,
    corner: &mut CornerAcc,
    depth: Ghost<int>,
)
    requires
        static_params.wf(),
        forall|k: int|
            0 <= k < old(queue)@.len() ==> (#[trigger] old(queue)@[k]).bounded() && old(
                queue,
            )@[k].depth == depth@,
        corner_ok(static_params.scene(), *old(corner)),
    ensures
        (final(next)@, final(out)@, *final(corner)) == drain_spec(
            *octant,
            static_params.scene(),
            old(queue)@,
            0,
            old(next)@,
            old(out)@,
            *old(corner),
        ),
        final(queue)@.len() == 0,
        queued_deeper(old(next)@, final(next)@, depth@, static_params.scene()),
        extends_ok(old(out)@, final(out)@, static_params.scene()),
        corner_ok(static_params.scene(), *final(corner)),
{
    let ghost s = static_params.scene();
    let ghost q = queue@;
    let ghost next0 = next@;
    let ghost target = drain_spec(*octant, s, q, 0, next@, out@, *corner);
    let ghost out0 = out@;
    proof {
        lemma_extends_ok_refl(out@, s);
    }
    assert(next@.subrange(0, next0.len() as int) =~= next0);
    let mut k: usize = 0;
    while k < queue.len()
        invariant
            static_params.wf(),
            s == static_params.scene(),
            queue@ == q,
            q == old(queue)@,
            next0 == old(next)@,
            target == drain_spec(*octant, s, q, 0, old(next)@, old(out)@, *old(corner)),
            0 <= k <= q.len(),
            forall|j: int| 0 <= j < q.len() ==> (#[trigger] q[j]).bounded() && q[j].depth == depth@,
            drain_spec(*octant, s, q, k as int, next@, out@, *corner) == target,
            queued_deeper(next0, next@, depth@, s),
            out0 == old(out)@,
            extends_ok(out0, out@, s),
            corner_ok(s, *corner),
        decreases q.len() - k,
    {
        let params = queue[k];
        let ghost next_before = next@;
        let ghost out_before = out@;
        let found = scan(octant, next, params, static_params, out);
        proof {
            lemma_queued_deeper_trans(next0, next_before, next@, depth@, s);
            lemma_extends_ok_trans(out0, out_before, out@, s);
        }
        match found {
            Some(c) => {
                proof {
                    lemma_union_nonempty(corner.bitmap.raw, c.bitmap.raw);
                }
                corner.bitmap = corner.bitmap.union(c.bitmap);
                corner.coord = Some(c.coord);
                if c.visibility > corner.visibility {
                    corner.visibility = c.visibility;
                }
            },
            None => {},
        }
        k = k + 1;
    }
    queue.clear();
}

/// Reusable scratch space for visibility computations: two queues of
/// intervals for each octant of a pair, the current depth and the next.
pub struct ShadowcastContext {
    queue_a: Vec<ScanParams>,
    queue_a_swap: Vec<ScanParams>,
    queue_b: Vec<ScanParams>,
    queue_b_swap: Vec<ScanParams>,
}

impl ShadowcastContext {
    /// All queues are empty, as they are between computations.
    pub closed spec fn is_idle(&self) -> bool {
        &&& self.queue_a@.len() == 0
        &&& self.queue_a_swap@.len() == 0
        &&& self.queue_b@.len() == 0
        &&& self.queue_b_swap@.len() == 0
    }

    pub fn new() -> (r: ShadowcastContext)
        ensures
            r.is_idle(),
    {
        ShadowcastContext {
            queue_a: Vec::new(),
            queue_a_swap: Vec::new(),
            queue_b: Vec::new(),
            queue_b_swap: Vec::new(),
        }
    }

    fn observe_octant<In: InputGrid, VisDist: VisionDistance, A: Octant, B: Octant>(
        &mut self,
        octant_a: A,
        octant_b: B,
        static_params: &StaticParams<In, VisDist>,
        initial_visibility: u8,
        out: &mut Vec<Sighting>,
    )
        requires
            old(self).is_idle(),
            static_params.wf(),
        ensures
            final(self).is_idle(),
            final(out)@ == observe_spec(
                octant_a,
                octant_b,
                static_params.scene(),
                initial_visibility,
                old(out)@,
            ),
            extends_ok(old(out)@, final(out)@, static_params.scene()),
    {
        let ghost s = static_params.scene();
        let ghost out0 = out@;
        proof {
            lemma_extends_ok_refl(out@, s);
        }
        let ghost target = observe_spec(octant_a, octant_b, s, initial_visibility, out@);
        self.queue_a.push(ScanParams::octant_base(initial_visibility));
        self.queue_b.push(ScanParams::octant_base(initial_visibility));
        assert(self.queue_a@ =~= seq![ScanParams::spec_octant_base(initial_visibility)]);
        assert(self.queue_b@ =~= seq![ScanParams::spec_octant_base(initial_visibility)]);
        let ghost mut depth: int = 1;
        loop
            invariant
                static_params.wf(),
                s == static_params.scene(),
                target == observe_spec(octant_a, octant_b, s, initial_visibility, old(out)@),
                self.queue_a_swap@.len() == 0,
                self.queue_b_swap@.len() == 0,
                1 <= depth <= s.width + s.height,
                forall|k: int|
                    0 <= k < self.queue_a@.len() ==> (#[trigger] self.queue_a@[k]).bounded()
                        && self.queue_a@[k].depth == depth,
                forall|k: int|
                    0 <= k < self.queue_b@.len() ==> (#[trigger] self.queue_b@[k]).bounded()
                        && self.queue_b@[k].depth == depth,
                rounds(octant_a, octant_b, s, self.queue_a@, self.queue_b@, out@, depth)
                    == target,
                out0 == old(out)@,
                extends_ok(out0, out@, s),
            ensures
                self.is_idle(),
                out@ == target,
                extends_ok(out0, out@, s),
            decreases s.width + s.height - depth,
        {
            let mut corner = CornerAcc {
                bitmap: DirectionBitmap::empty(),
                coord: None,
                visibility: 0,
            };
            assert(self.queue_a_swap@ =~= Seq::<ScanParams>::empty());
            assert(self.queue_b_swap@ =~= Seq::<ScanParams>::empty());
            let ghost out_round = out@;
            drain_queue(
                &octant_a,
                &mut self.queue_a,
                &mut self.queue_a_swap,
                static_params,
                out,
                &mut corner,
                Ghost(depth),
            );
            let ghost out_mid = out@;
            drain_queue(
                &octant_b,
                &mut self.queue_b,
                &mut self.queue_b_swap,
                static_params,
                out,
                &mut corner,
                Ghost(depth),
            );
            proof {
                lemma_extends_ok_trans(out_round, out_mid, out@, s);
                lemma_extends_ok_trans(out0, out_round, out@, s);
            }
            match corner.coord {
                Some(corner_coord) => {
                    let mut corner_bitmap = corner.bitmap;
                    if !(corner_bitmap.is_full() || corner_bitmap.intersection(
                        DirectionBitmap::all_cardinal(),
                    ).is_empty()) {
                        corner_bitmap = corner_bitmap.intersection(DirectionBitmap::all_cardinal());
                    }
                    proof {
                        lemma_extends_ok_push(
                            out0,
                            out@,
                            s,
                            (corner_coord, corner_bitmap, corner.visibility),
                        );
                    }
                    out.push((corner_coord, corner_bitmap, corner.visibility));
                },
                None => {},
            }
            if self.queue_a_swap.is_empty() && self.queue_b_swap.is_empty() {
                break ;
            }
            std::mem::swap(&mut self.queue_a, &mut self.queue_a_swap);
            std::mem::swap(&mut self.queue_b, &mut self.queue_b_swap);
            proof {
                depth = depth + 1;
            }
        }
    }

    /// Reports every cell that an eye at `coord` sees: first its own cell,
    /// seen from all sides with the initial visibility, then the cells of
    /// each octant pair in order of depth.
    pub fn for_each<In: InputGrid, VisDist: VisionDistance>(
        &mut self,
        coord: Coord,
        input_grid: &In,
        vision_distance: VisDist,
        initial_visibility: u8,
    ) -> (r: Vec<Sighting>)
        requires
            old(self).is_idle(),
            coord.spec_is_valid(input_grid.spec_size()),
            input_grid.spec_size().width <= i32::MAX,
            input_grid.spec_size().height <= i32::MAX,
        ensures
            final(self).is_idle(),
            r@ == shadowcast(scene_of(coord, *input_grid, vision_distance), initial_visibility),
            r@.len() >= 1,
            r@[0] == (coord, DirectionBitmap { raw: 0xff }, initial_visibility),
            forall|k: int|
                1 <= k < r@.len() ==> {
                    let (c, bitmap, _) = #[trigger] r@[k];
                    &&& c.spec_is_valid(input_grid.spec_size())
                    &&& vision_distance.spec_in_range(c.x - coord.x, c.y - coord.y)
                    &&& bitmap.raw != 0
                },
    {
        let mut out: Vec<Sighting> = Vec::new();
        out.push((coord, DirectionBitmap::all(), initial_visibility));
        let size = input_grid.size();
        let width = size.width as i32;
        let height = size.height as i32;
        let static_params = StaticParams {
            centre: coord,
            vision_distance: &vision_distance,
            input_grid,
            width: width as i64,
            height: height as i64,
        };
        let ghost s = static_params.scene();
        let ghost out0 = out@;
        assert(out@ =~= seq![(coord, DirectionBitmap { raw: 0xff }, initial_visibility)]);
        self.observe_octant(TopLeft, LeftTop, &static_params, initial_visibility, &mut out);
        let ghost out1 = out@;
        self.observe_octant(
            RightTop { width },
            TopRight { width },
            &static_params,
            initial_visibility,
            &mut out,
        );
        let ghost out2 = out@;
        self.observe_octant(
            LeftBottom { height },
            BottomLeft { height },
            &static_params,
            initial_visibility,
            &mut out,
        );
        let ghost out3 = out@;
        self.observe_octant(
            BottomRight { width, height },
            RightBottom { width, height },
            &static_params,
            initial_visibility,
            &mut out,
        );
        proof {
            lemma_extends_ok_trans(out0, out1, out2, s);
            lemma_extends_ok_trans(out0, out2, out3, s);
            lemma_extends_ok_trans(out0, out3, out@, s);
            assert(out@[0] == out@.subrange(0, 1)[0]);
            assert forall|k: int| 1 <= k < out@.len() implies sighting_ok(s, #[trigger] out@[k]) by {}
        }
        out
    }
}

/// The same scene with every offset in range.
pub open spec fn unlimited(s: Scene) -> Scene {
    Scene {
        centre: s.centre,
        width: s.width,
        height: s.height,
        opacity: s.opacity,
        in_range: |dx: int, dy: int| true,
    }
}

/// Whether scene `s` keeps a sighting: the eye's own cell, or a cell in range.
pub open spec fn kept_by(s: Scene) -> spec_fn(Sighting) -> bool {
    |r: Sighting| r.0 == s.centre || (s.in_range)(r.0.x - s.centre.x, r.0.y - s.centre.y)
}

pub(crate) open spec fn keep_corner(s: Scene, c: Option<CornerInfo>) -> Option<CornerInfo> {
    match c {
        Some(ci) => if (s.in_range)(ci.coord.x - s.centre.x, ci.coord.y - s.centre.y) {
            c
        } else {
            None
        },
        None => None,
    }
}

/// The cell on the diagonal edge of an octant at depth `d`.
pub(crate) open spec fn diagonal<O: Octant>(o: O, centre: Coord, d: int) -> Coord {
    let c = o.spec_make_coord(centre, d, o.spec_depth_index(centre, d).unwrap() as int);
    Coord { x: c.0 as i32, y: c.1 as i32 }
}

pub(crate) open spec fn all_at_depth(q: Seq<ScanParams>, d: int) -> bool {
    forall|k: int| 0 <= k < q.len() ==> (#[trigger] q[k]).depth == d
}

/// Two octants of a pair share the cell on their common diagonal.
pub(crate) open spec fn pair_agrees<A: Octant, B: Octant>(a: A, b: B, centre: Coord) -> bool {
    forall|d: int|
        1 <= d && a.spec_depth_index(centre, d) is Some && b.spec_depth_index(centre, d) is Some
            ==> #[trigger] diagonal(a, centre, d) == diagonal(b, centre, d)
}

proof fn lemma_scan_rest_filter<O: Octant>(
    o: O,
    s: Scene,
    p: ScanParams,
    lo: int,
    hi: int,
    di: int,
    st: ScanState,
    i: int,
    next: Seq<ScanParams>,
    seen_a: Seq<Sighting>,
    seen_b: Seq<Sighting>,
)
    requires
        s.wf(),
        1 <= p.depth <= SPAN,
        o.spec_depth_index(s.centre, p.depth as int) matches Some(v) && v as int == di,
        seen_a == seen_b.filter(kept_by(s)),
        all_at_depth(next, p.depth + 1),
    ensures
        ({
            let a = scan_rest(o, s, p, lo, hi, di, st, i, next, seen_a);
            let b = scan_rest(o, unlimited(s), p, lo, hi, di, st, i, next, seen_b);
            &&& a.next == b.next
            &&& a.seen == b.seen.filter(kept_by(s))
            &&& a.corner == keep_corner(s, b.corner)
            &&& all_at_depth(b.next, p.depth + 1)
            &&& (b.corner matches Some(c) ==> c.coord == diagonal(o, s.centre, p.depth as int)
                && c.coord != s.centre)
        }),
    decreases hi + 1 - i,
{
    let t = unlimited(s);
    if i <= hi {
        let c = o.spec_make_coord(s.centre, i, di);
        if s.in_grid(c.0, c.1) {
            o.lemma_depth_offset(s.centre, i, p.depth as int);
            let step = cell_step(o, s, p, lo, hi, st, i, c, next);
            assert(cell_step(o, t, p, lo, hi, st, i, c, next) == step);
            assert(all_at_depth(step.next, p.depth + 1));
            let in_range = (s.in_range)(c.0 - s.centre.x, c.1 - s.centre.y);
            let e = (step.coord, step.bitmap, p.visibility);
            assert(step.coord != s.centre);
            if i == hi && i == p.depth {
                if !in_range {
                    let sa2 = seen_a;
                    assert(scan_rest(o, s, p, lo, hi, di, step.state, i + 1, step.next, sa2)
                        == ScanOut { next: step.next, seen: sa2, corner: None });
                }
            } else {
                let sb2 = if o.spec_should_see(i) {
                    seen_b.push(e)
                } else {
                    seen_b
                };
                let sa2 = if in_range && o.spec_should_see(i) {
                    seen_a.push(e)
                } else {
                    seen_a
                };
                seen_b.lemma_filter_push(e, kept_by(s));
                assert(sa2 == sb2.filter(kept_by(s)));
                lemma_scan_rest_filter(o, s, p, lo, hi, di, step.state, i + 1, step.next, sa2, sb2);
            }
        }
    }
}

proof fn lemma_scan_filter<O: Octant>(
    o: O,
    s: Scene,
    p: ScanParams,
    next: Seq<ScanParams>,
    seen_a: Seq<Sighting>,
    seen_b: Seq<Sighting>,
)
    requires
        s.wf(),
        1 <= p.depth <= SPAN,
        seen_a == seen_b.filter(kept_by(s)),
        all_at_depth(next, p.depth + 1),
    ensures
        ({
            let a = scan_spec(o, s, p, next, seen_a);
            let b = scan_spec(o, unlimited(s), p, next, seen_b);
            &&& a.next == b.next
            &&& a.seen == b.seen.filter(kept_by(s))
            &&& a.corner == keep_corner(s, b.corner)
            &&& all_at_depth(b.next, p.depth + 1)
            &&& (b.corner matches Some(c) ==> o.spec_depth_index(s.centre, p.depth as int) is Some
                && c.coord == diagonal(o, s.centre, p.depth as int) && c.coord != s.centre)
        }),
{
    match o.spec_depth_index(s.centre, p.depth as int) {
        None => {},
        Some(di) => {
            let lo = p.lateral_lo();
            let hi = if p.lateral_hi() < o.spec_lateral_max(s.centre) {
                p.lateral_hi()
            } else {
                o.spec_lateral_max(s.centre)
            };
            lemma_scan_rest_filter(
                o,
                s,
                p,
                lo,
                hi,
                di as int,
                ScanState {
                    min_gradient: p.min_gradient,
                    min_inclusive: p.min_inclusive,
                    prev_visibility: 0,
                    prev_opaque: false,
                },
                lo,
                next,
                seen_a,
                seen_b,
            );
        },
    }
}

/// How the pair's view of its diagonal cell in `s` relates to the one with
/// every offset in range: the same when the cell is in range, else none.
pub(crate) open spec fn corner_rel(s: Scene, acc_a: CornerAcc, acc_b: CornerAcc, dg: Coord) -> bool {
    &&& (acc_b.coord matches Some(c) ==> c == dg && c != s.centre)
    &&& acc_a == if (s.in_range)(dg.x - s.centre.x, dg.y - s.centre.y) {
        acc_b
    } else {
        no_corner()
    }
}

proof fn lemma_drain_filter<O: Octant>(
    o: O,
    s: Scene,
    q: Seq<ScanParams>,
    k: int,
    next: Seq<ScanParams>,
    seen_a: Seq<Sighting>,
    seen_b: Seq<Sighting>,
    acc_a: CornerAcc,
    acc_b: CornerAcc,
    d: int,
    dg: Coord,
)
    requires
        s.wf(),
        1 <= d <= SPAN,
        0 <= k,
        all_at_depth(q, d),
        all_at_depth(next, d + 1),
        seen_a == seen_b.filter(kept_by(s)),
        corner_rel(s, acc_a, acc_b, dg),
        o.spec_depth_index(s.centre, d) is Some ==> diagonal(o, s.centre, d) == dg,
    ensures
        ({
            let a = drain_spec(o, s, q, k, next, seen_a, acc_a);
            let b = drain_spec(o, unlimited(s), q, k, next, seen_b, acc_b);
            &&& a.0 == b.0
            &&& a.1 == b.1.filter(kept_by(s))
            &&& corner_rel(s, a.2, b.2, dg)
            &&& all_at_depth(b.0, d + 1)
        }),
    decreases q.len() - k,
{
    if k < q.len() {
        let p = q[k];
        lemma_scan_filter(o, s, p, next, seen_a, seen_b);
        let ra = scan_spec(o, s, p, next, seen_a);
        let rb = scan_spec(o, unlimited(s), p, next, seen_b);
        lemma_drain_filter(
            o,
            s,
            q,
            k + 1,
            ra.next,
            ra.seen,
            rb.seen,
            add_corner(acc_a, ra.corner),
            add_corner(acc_b, rb.corner),
            d,
            dg,
        );
    }
}

proof fn lemma_emit_filter(
    s: Scene,
    acc_a: CornerAcc,
    acc_b: CornerAcc,
    dg: Coord,
    seen_a: Seq<Sighting>,
    seen_b: Seq<Sighting>,
)
    requires
        corner_rel(s, acc_a, acc_b, dg),
        seen_a == seen_b.filter(kept_by(s)),
    ensures
        emit_corner(acc_a, seen_a) == emit_corner(acc_b, seen_b).filter(kept_by(s)),
{
    if let Some(c) = acc_b.coord {
        seen_b.lemma_filter_push((c, reconcile(acc_b.bitmap), acc_b.visibility), kept_by(s));
    }
}

proof fn lemma_rounds_filter<A: Octant, B: Octant>(
    a: A,
    b: B,
    s: Scene,
    qa: Seq<ScanParams>,
    qb: Seq<ScanParams>,
    seen_a: Seq<Sighting>,
    seen_b: Seq<Sighting>,
    depth: int,
)
    requires
        s.wf(),
        1 <= depth <= s.width + s.height,
        all_at_depth(qa, depth),
        all_at_depth(qb, depth),
        seen_a == seen_b.filter(kept_by(s)),
        pair_agrees(a, b, s.centre),
    ensures
        rounds(a, b, s, qa, qb, seen_a, depth) == rounds(
            a,
            b,
            unlimited(s),
            qa,
            qb,
            seen_b,
            depth,
        ).filter(kept_by(s)),
    decreases s.width + s.height - depth,
{
    let t = unlimited(s);
    let dg = if a.spec_depth_index(s.centre, depth) is Some {
        diagonal(a, s.centre, depth)
    } else {
        diagonal(b, s.centre, depth)
    };
    assert(b.spec_depth_index(s.centre, depth) is Some ==> diagonal(b, s.centre, depth) == dg);
    let e: Seq<ScanParams> = Seq::empty();
    lemma_drain_filter(a, s, qa, 0, e, seen_a, seen_b, no_corner(), no_corner(), depth, dg);
    let ra_a = drain_spec(a, s, qa, 0, e, seen_a, no_corner());
    let ra_b = drain_spec(a, t, qa, 0, e, seen_b, no_corner());
    lemma_drain_filter(b, s, qb, 0, e, ra_a.1, ra_b.1, ra_a.2, ra_b.2, depth, dg);
    let rb_a = drain_spec(b, s, qb, 0, e, ra_a.1, ra_a.2);
    let rb_b = drain_spec(b, t, qb, 0, e, ra_b.1, ra_b.2);
    lemma_emit_filter(s, rb_a.2, rb_b.2, dg, rb_a.1, rb_b.1);
    if !((ra_a.0.len() == 0 && rb_a.0.len() == 0) || depth >= s.width + s.height) {
        lemma_rounds_filter(
            a,
            b,
            s,
            ra_a.0,
            rb_a.0,
            emit_corner(rb_a.2, rb_a.1),
            emit_corner(rb_b.2, rb_b.1),
            depth + 1,
        );
    }
}

proof fn lemma_observe_filter<A: Octant, B: Octant>(
    a: A,
    b: B,
    s: Scene,
    initial_visibility: u8,
    seen_a: Seq<Sighting>,
    seen_b: Seq<Sighting>,
)
    requires
        s.wf(),
        seen_a == seen_b.filter(kept_by(s)),
        pair_agrees(a, b, s.centre),
    ensures
        observe_spec(a, b, s, initial_visibility, seen_a) == observe_spec(
            a,
            b,
            unlimited(s),
            initial_visibility,
            seen_b,
        ).filter(kept_by(s)),
{
    let base = seq![ScanParams::spec_octant_base(initial_visibility)];
    lemma_rounds_filter(a, b, s, base, base, seen_a, seen_b, 1);
}

/// What an eye sees within a vision range is exactly what it would see with
/// unlimited range, less the cells out of range: vision range decides which
/// cells are reported, never how they look.
pub proof fn lemma_shadowcast_filter(s: Scene, initial_visibility: u8)
    requires
        s.wf(),
    ensures
        shadowcast(s, initial_visibility) == shadowcast(unlimited(s), initial_visibility).filter(
            kept_by(s),
        ),
{
    let width = s.width as i32;
    let height = s.height as i32;
    let origin = (s.centre, DirectionBitmap { raw: 0xff }, initial_visibility);
    let empty: Seq<Sighting> = Seq::empty();
    reveal(Seq::filter);
    empty.lemma_filter_push(origin, kept_by(s));
    assert(empty.filter(kept_by(s)) =~= empty);
    assert(seq![origin] =~= empty.push(origin));
    let seen0 = seq![origin];
    let t = unlimited(s);
    assert(pair_agrees(TopLeft, LeftTop, s.centre));
    assert(pair_agrees(RightTop { width }, TopRight { width }, s.centre));
    assert(pair_agrees(LeftBottom { height }, BottomLeft { height }, s.centre));
    assert(pair_agrees(BottomRight { width, height }, RightBottom { width, height }, s.centre));
    lemma_observe_filter(TopLeft, LeftTop, s, initial_visibility, seen0, seen0);
    let a1 = observe_spec(TopLeft, LeftTop, s, initial_visibility, seen0);
    let b1 = observe_spec(TopLeft, LeftTop, t, initial_visibility, seen0);
    lemma_observe_filter(RightTop { width }, TopRight { width }, s, initial_visibility, a1, b1);
    let a2 = observe_spec(RightTop { width }, TopRight { width }, s, initial_visibility, a1);
    let b2 = observe_spec(RightTop { width }, TopRight { width }, t, initial_visibility, b1);
    lemma_observe_filter(LeftBottom { height }, BottomLeft { height }, s, initial_visibility, a2, b2);
    let a3 = observe_spec(LeftBottom { height }, BottomLeft { height }, s, initial_visibility, a2);
    let b3 = observe_spec(LeftBottom { height }, BottomLeft { height }, t, initial_visibility, b2);
    lemma_observe_filter(
        BottomRight { width, height },
        RightBottom { width, height },
        s,
        initial_visibility,
        a3,
        b3,
    );
}

/// Widening the vision range never hides a cell: when every offset in range
/// of `narrow` is also in range of `wide`, every sighting reported in the
/// narrow scene is reported, unchanged, in the wide one.
pub proof fn lemma_wider_range_sees_more(narrow: Scene, wide: Scene, initial_visibility: u8)
    requires
        narrow.wf(),
        wide.centre == narrow.centre,
        wide.width == narrow.width,
        wide.height == narrow.height,
        wide.opacity == narrow.opacity,
        forall|dx: int, dy: int| #[trigger] (narrow.in_range)(dx, dy) ==> (wide.in_range)(dx, dy),
    ensures
        forall|r: Sighting|
            shadowcast(narrow, initial_visibility).contains(r) ==> shadowcast(
                wide,
                initial_visibility,
            ).contains(r),
{
    lemma_shadowcast_filter(narrow, initial_visibility);
    lemma_shadowcast_filter(wide, initial_visibility);
    assert(unlimited(narrow) == unlimited(wide));
    let all = shadowcast(unlimited(narrow), initial_visibility);
    assert forall|r: Sighting|
        shadowcast(narrow, initial_visibility).contains(r) implies shadowcast(
        wide,
        initial_visibility,
    ).contains(r) by {
        let seen = all.filter(kept_by(narrow));
        let i = choose|i: int| 0 <= i < seen.len() && seen[i] == r;
        all.lemma_filter_pred(kept_by(narrow), i);
        all.lemma_filter_contains_rev(kept_by(narrow), r);
        let j = choose|j: int| 0 <= j < all.len() && all[j] == r;
        all.lemma_filter_contains(kept_by(wide), j);
    }
}

/// A computation is repeatable: scenes that agree on the eye, the grid's
/// size, every opacity and every range test report the same sightings, in
/// the same order.
pub proof fn lemma_repeatable(s1: Scene, s2: Scene, initial_visibility: u8)
    requires
        s1.centre == s2.centre,
        s1.width == s2.width,
        s1.height == s2.height,
        forall|c: Coord| #[trigger] (s1.opacity)(c) == (s2.opacity)(c),
        forall|dx: int, dy: int| #[trigger] (s1.in_range)(dx, dy) == (s2.in_range)(dx, dy),
    ensures
        shadowcast(s1, initial_visibility) == shadowcast(s2, initial_visibility),
{
    assert(s1.opacity =~= s2.opacity);
    assert(s1.in_range =~= s2.in_range);
    assert(s1 == s2);
}

} // verus!
