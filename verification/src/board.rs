//! The spatial board: a grid of cells plus the live particle set.
//!
//! Cells are stored row-major (y outer, x inner). The board owns one flat
//! arena of particle records; each cell keeps the indices of the particles
//! whose rounded, clamped position falls on it. The membership invariant —
//! every particle is listed by exactly the cell matching its rendered
//! position, and by no other — is part of `wf` and is preserved by every
//! operation, including the two-pass step.

use vstd::prelude::*;
use crate::force::Force;
use crate::particle::Particle;
use crate::engine::{
    gravitational_force, spec_gravitational_force, ATTRACTOR_MASS, PARTICLE_MASS, MAX_COORD,
};
use crate::scalar::{
    is_nan_bits, is_nan, of_i32_bits, f_of_i32, eq_zero_bits, ge_zero_bits, le_zero_bits, eq_zero,
    ge_zero, le_zero, round_bits, sign_bits, is_zero_bits, gt_zero_bits,
};

verus! {

/// One grid position: its coordinates, the static force sample, and the
/// indices (into the board's particle arena) of the particles currently
/// rendered on it.
pub struct BoardCell {
    pub x: u32,
    pub y: u32,
    pub static_field: Force,
    pub particles: Vec<usize>,
}

impl BoardCell {
    /// An empty cell at the given coordinates with a zero field sample.
    pub fn new(x: u32, y: u32) -> (r: BoardCell)
        ensures
            r.x == x,
            r.y == y,
            r.static_field == Force::spec_zero(),
            r.particles@ == Seq::<usize>::empty(),
    {
        BoardCell { x, y, static_field: Force::default(), particles: Vec::new() }
    }

    /// Registers a particle index in this cell's membership set.
    pub fn add_particle(&mut self, particle: usize)
        ensures
            final(self).particles@ == old(self).particles@.push(particle),
            final(self).x == old(self).x,
            final(self).y == old(self).y,
            final(self).static_field == old(self).static_field,
    {
        self.particles.push(particle);
    }

    /// Unregisters a particle index: removes its first occurrence from the
    /// membership set (membership sets are duplicate-free under `Board::wf`,
    /// so the index is gone afterwards).
    pub fn remove_particle(&mut self, particle: usize)
        requires
            old(self).particles@.contains(particle),
        ensures
            exists|k: int|
                0 <= k < old(self).particles@.len() && old(self).particles@[k] == particle
                    && final(self).particles@ == old(self).particles@.remove(k),
            final(self).x == old(self).x,
            final(self).y == old(self).y,
            final(self).static_field == old(self).static_field,
    {
        let n = self.particles.len();
        let mut i: usize = 0;
        while i < n
            invariant
                n == self.particles@.len(),
                0 <= i <= n,
                forall|k: int| 0 <= k < i ==> self.particles@[k] != particle,
                self.particles@.contains(particle),
                self.x == old(self).x,
                self.y == old(self).y,
                self.static_field == old(self).static_field,
                self.particles@ == old(self).particles@,
            decreases n - i,
        {
            if self.particles[i] == particle {
                self.particles.remove(i);
                return ;
            }
            i += 1;
        }
        proof {
            let w = choose|k: int|
                0 <= k < self.particles@.len() && self.particles@[k] == particle;
            assert(false);
        }
    }
}

/// The simulation's spatial state: grid dimensions, the row-major cell grid,
/// and the flat particle arena.
pub struct Board {
    pub width: u32,
    pub height: u32,
    pub cells: Vec<BoardCell>,
    pub particles: Vec<Particle>,
}

/// A cell coordinate pair indexes strictly below `width * height` in the
/// row-major order.
pub proof fn lemma_cell_index_bound(w: int, h: int, cx: int, cy: int)
    requires
        1 <= w,
        1 <= h,
        0 <= cx < w,
        0 <= cy < h,
    ensures
        0 <= cx + cy * w < w * h,
{
    assert(0 <= cx + cy * w < w * h) by (nonlinear_arith)
        requires
            1 <= w,
            1 <= h,
            0 <= cx < w,
            0 <= cy < h,
    ;
}

/// Distinct cell coordinate pairs give distinct row-major indices.
pub proof fn lemma_cell_index_injective(w: int, x1: int, y1: int, x2: int, y2: int)
    requires
        1 <= w,
        0 <= x1 < w,
        0 <= x2 < w,
        0 <= y1,
        0 <= y2,
        x1 != x2 || y1 != y2,
    ensures
        x1 + y1 * w != x2 + y2 * w,
{
    assert(x1 + y1 * w != x2 + y2 * w) by (nonlinear_arith)
        requires
            1 <= w,
            0 <= x1 < w,
            0 <= x2 < w,
            0 <= y1,
            0 <= y2,
            x1 != x2 || y1 != y2,
    ;
}

/// A particle freshly seeded at integer coordinates: the converted position
/// and a zero velocity.
pub open spec fn spec_seeded_particle(x: u32, y: u32) -> Particle {
    Particle { x: of_i32_bits(x as i32), y: of_i32_bits(y as i32), velocity: Force::spec_zero() }
}

/// The particle was seeded at some integer position within `w x h`.
pub open spec fn is_seeded_within(p: Particle, w: u32, h: u32) -> bool {
    exists|sx: u32, sy: u32| sx < w && sy < h && p == spec_seeded_particle(sx, sy)
}

/// The RGBA color a field sample paints: black for a zero field, a quadrant
/// color for each sign combination, white for the uncovered combination (a
/// NaN component).
pub open spec fn spec_field_color(f: Force) -> (u8, u8, u8, u8) {
    if eq_zero_bits(f.x_component) && eq_zero_bits(f.y_component) {
        (0u8, 0u8, 0u8, 0xffu8)
    } else if ge_zero_bits(f.x_component) && ge_zero_bits(f.y_component) {
        (0xffu8, 0u8, 0u8, 0xffu8)
    } else if le_zero_bits(f.x_component) && ge_zero_bits(f.y_component) {
        (0u8, 0xffu8, 0u8, 0xffu8)
    } else if le_zero_bits(f.x_component) && le_zero_bits(f.y_component) {
        (0u8, 0u8, 0xffu8, 0xffu8)
    } else if ge_zero_bits(f.x_component) && le_zero_bits(f.y_component) {
        (0xffu8, 0xffu8, 0u8, 0xffu8)
    } else {
        (0xffu8, 0xffu8, 0xffu8, 0xffu8)
    }
}

/// The force at cell `(x, y)`: the base sample plus the contribution of each
/// attractor, accumulated left to right in IEEE-754 arithmetic.
pub open spec fn spec_field_sum(base: Force, x: u32, y: u32, attractors: Seq<(u32, u32)>) -> Force
    decreases attractors.len(),
{
    if attractors.len() == 0 {
        base
    } else {
        spec_field_sum(base, x, y, attractors.drop_last()).spec_add(
            spec_gravitational_force(
                x,
                y,
                PARTICLE_MASS,
                attractors.last().0,
                attractors.last().1,
                ATTRACTOR_MASS,
            ),
        )
    }
}

/// Relies on `rand::Rng::gen_range` over `0..n`: a value drawn below `n`
/// (nothing is assumed about its distribution).
#[verifier::external_body]
fn random_below(n: u32) -> (r: u32)
    requires
        n >= 1,
    ensures
        r < n,
{
    rand::Rng::gen_range(&mut rand::thread_rng(), 0..n)
}

/// Adds every attractor's contribution at cell `(cx, cy)` on top of `base`.
fn accumulate_cell(base: Force, cx: u32, cy: u32, attractors: &Vec<(u32, u32)>) -> (r: Force)
    requires
        cx <= MAX_COORD,
        cy <= MAX_COORD,
        forall|a: int|
            0 <= a < attractors@.len() ==> (#[trigger] attractors@[a]).0 <= MAX_COORD
                && attractors@[a].1 <= MAX_COORD,
    ensures
        r == spec_field_sum(base, cx, cy, attractors@),
{
    let na = attractors.len();
    let mut f = base;
    let mut a: usize = 0;
    while a < na
        invariant
            a <= na,
            na == attractors@.len(),
            cx <= MAX_COORD,
            cy <= MAX_COORD,
            forall|k: int|
                0 <= k < attractors@.len() ==> (#[trigger] attractors@[k]).0 <= MAX_COORD
                    && attractors@[k].1 <= MAX_COORD,
            f == spec_field_sum(base, cx, cy, attractors@.subrange(0, a as int)),
        decreases na - a,
    {
        let (ax, ay) = attractors[a];
        f = f.add(gravitational_force(cx, cy, PARTICLE_MASS, ax, ay, ATTRACTOR_MASS));
        proof {
            let prefix = attractors@.subrange(0, (a + 1) as int);
            assert(prefix.drop_last() =~= attractors@.subrange(0, a as int));
            assert(prefix.last() == attractors@[a as int]);
        }
        a += 1;
    }
    proof {
        assert(attractors@.subrange(0, na as int) =~= attractors@);
    }
    f
}

impl Board {
    /// Largest rendered x coordinate.
    pub open spec fn max_x(self) -> u32 {
        (self.width - 1) as u32
    }

    /// Largest rendered y coordinate.
    pub open spec fn max_y(self) -> u32 {
        (self.height - 1) as u32
    }

    /// Row-major index of the cell at `(x, y)`.
    pub open spec fn spec_cell_index(self, x: u32, y: u32) -> int {
        x + y * self.width
    }

    /// Row-major index of the cell matching a particle's rendered position.
    pub open spec fn cell_index_of(self, p: Particle) -> int {
        self.spec_cell_index(p.spec_render_x(self.max_x()), p.spec_render_y(self.max_y()))
    }

    /// The grid is well-formed: positive dimensions that fit `i32`, one cell
    /// per coordinate pair in row-major order.
    pub open spec fn grid_ok(self) -> bool {
        &&& 1 <= self.width <= 0x7fff_ffff
        &&& 1 <= self.height <= 0x7fff_ffff
        &&& self.cells@.len() == self.width * self.height
        &&& forall|i: int|
            0 <= i < self.cells@.len() ==> (#[trigger] self.cells@[i]).x == i % (
            self.width as int) && self.cells@[i].y == i / (self.width as int)
    }

    /// Every membership entry names an existing particle whose rendered
    /// position maps to exactly that cell.
    pub open spec fn entries_valid(self) -> bool {
        forall|ci: int, k: int|
            0 <= ci < self.cells@.len() && 0 <= k < self.cells@[ci].particles@.len() ==> {
                let j = #[trigger] self.cells@[ci].particles@[k];
                &&& (j as int) < self.particles@.len()
                &&& self.cell_index_of(self.particles@[j as int]) == ci
            }
    }

    /// No cell lists the same particle twice.
    pub open spec fn entries_unique(self) -> bool {
        forall|ci: int, k1: int, k2: int|
            0 <= ci < self.cells@.len() && 0 <= k1 < self.cells@[ci].particles@.len() && 0 <= k2
                < self.cells@[ci].particles@.len() && k1 != k2 ==> #[trigger] self.cells@[ci].particles@[k1]
                != #[trigger] self.cells@[ci].particles@[k2]
    }

    /// Every particle is listed by the cell matching its rendered position.
    pub open spec fn particles_registered(self) -> bool {
        forall|j: int|
            0 <= j < self.particles@.len() ==> #[trigger] self.cells@[self.cell_index_of(
                self.particles@[j],
            )].particles@.contains(j as usize)
    }

    /// Well-formedness: the grid shape plus the particle/cell membership
    /// invariant.
    pub open spec fn wf(self) -> bool {
        &&& self.grid_ok()
        &&& self.entries_valid()
        &&& self.entries_unique()
        &&& self.particles_registered()
    }

    /// A particle's cell index lies within the grid.
    pub proof fn lemma_cell_index_of_in_range(self, p: Particle)
        requires
            self.grid_ok(),
        ensures
            0 <= self.cell_index_of(p) < self.cells@.len(),
    {
        lemma_cell_index_bound(
            self.width as int,
            self.height as int,
            p.spec_render_x(self.max_x()) as int,
            p.spec_render_y(self.max_y()) as int,
        );
    }

    /// Well-formedness only reads the grid shape, the membership lists and
    /// the particle positions; a change that moves no particle and touches no
    /// membership list keeps it.
    pub proof fn lemma_wf_preserved_same_positions(pre: Board, post: Board)
        requires
            pre.wf(),
            post.width == pre.width,
            post.height == pre.height,
            post.particles@.len() == pre.particles@.len(),
            forall|j: int|
                0 <= j < pre.particles@.len() ==> (#[trigger] post.particles@[j]).x
                    == pre.particles@[j].x && post.particles@[j].y == pre.particles@[j].y,
            post.cells@.len() == pre.cells@.len(),
            forall|i: int|
                0 <= i < pre.cells@.len() ==> (#[trigger] post.cells@[i]).x == pre.cells@[i].x
                    && post.cells@[i].y == pre.cells@[i].y && post.cells@[i].particles@
                    == pre.cells@[i].particles@,
        ensures
            post.wf(),
    {
        assert forall|ci: int, k: int|
            0 <= ci < post.cells@.len() && 0 <= k
                < post.cells@[ci].particles@.len() implies ({
            let j = #[trigger] post.cells@[ci].particles@[k];
            (j as int) < post.particles@.len() && post.cell_index_of(post.particles@[j as int])
                == ci
        }) by {
            assert(post.cells@[ci].particles@ == pre.cells@[ci].particles@);
            let j = pre.cells@[ci].particles@[k];
            assert((j as int) < pre.particles@.len() && pre.cell_index_of(
                pre.particles@[j as int],
            ) == ci);
            assert(post.cell_index_of(post.particles@[j as int]) == pre.cell_index_of(
                pre.particles@[j as int],
            ));
        }
        assert forall|j: int| 0 <= j < post.particles@.len() implies #[trigger] post.cells@[post.cell_index_of(
            post.particles@[j],
        )].particles@.contains(j as usize) by {
            assert(pre.cells@[pre.cell_index_of(pre.particles@[j])].particles@.contains(
                j as usize,
            ));
            pre.lemma_cell_index_of_in_range(pre.particles@[j]);
            assert(post.cell_index_of(post.particles@[j]) == pre.cell_index_of(
                pre.particles@[j],
            ));
        }
        assert(post.entries_unique()) by {
            assert forall|ci: int, k1: int, k2: int|
                0 <= ci < post.cells@.len() && 0 <= k1 < post.cells@[ci].particles@.len() && 0
                    <= k2 < post.cells@[ci].particles@.len() && k1
                    != k2 implies #[trigger] post.cells@[ci].particles@[k1]
                != #[trigger] post.cells@[ci].particles@[k2] by {
                assert(post.cells@[ci].particles@ == pre.cells@[ci].particles@);
                assert(pre.cells@[ci].particles@[k1] != pre.cells@[ci].particles@[k2]);
            }
        }
    }

    /// A sequence without index `k` still contains every value it held at a
    /// different index.
    proof fn lemma_remove_still_contains(s: Seq<usize>, k: int, x: usize)
        requires
            0 <= k < s.len(),
            s[k] != x,
            s.contains(x),
        ensures
            s.remove(k).contains(x),
    {
        let i = choose|i: int| 0 <= i < s.len() && s[i] == x;
        s.remove_ensures(k);
        if i < k {
            assert(s.remove(k)[i] == x);
        } else {
            assert(s.remove(k)[i - 1] == x);
        }
    }

    /// Well-formedness survives moving one particle: its record changes, the
    /// cell matching its old position drops it, and the cell matching its new
    /// position gains it, while everything else stays.
    pub proof fn lemma_wf_after_particle_move(
        pre: Board,
        post: Board,
        j: usize,
        oci: int,
        nci: int,
        removed_k: int,
    )
        requires
            pre.wf(),
            pre.particles@.len() <= usize::MAX,
            (j as int) < pre.particles@.len(),
            post.width == pre.width,
            post.height == pre.height,
            post.particles@ == pre.particles@.update(j as int, post.particles@[j as int]),
            oci == pre.cell_index_of(pre.particles@[j as int]),
            nci == post.cell_index_of(post.particles@[j as int]),
            nci != oci,
            0 <= nci < pre.cells@.len(),
            0 <= removed_k < pre.cells@[oci].particles@.len(),
            pre.cells@[oci].particles@[removed_k] == j,
            post.cells@.len() == pre.cells@.len(),
            post.cells@[oci].particles@ == pre.cells@[oci].particles@.remove(removed_k),
            post.cells@[nci].particles@ == pre.cells@[nci].particles@.push(j),
            forall|i: int|
                0 <= i < pre.cells@.len() ==> (#[trigger] post.cells@[i]).x == pre.cells@[i].x
                    && post.cells@[i].y == pre.cells@[i].y,
            forall|i: int|
                0 <= i < pre.cells@.len() && i != oci && i != nci
                    ==> (#[trigger] post.cells@[i]).particles@ == pre.cells@[i].particles@,
        ensures
            post.wf(),
    {
        pre.lemma_cell_index_of_in_range(pre.particles@[j as int]);
        pre.cells@[oci].particles@.remove_ensures(removed_k);
        // Only the cell at `oci` can list `j` in the pre state.
        assert forall|ci: int, k: int|
            0 <= ci < pre.cells@.len() && 0 <= k < pre.cells@[ci].particles@.len() && ci != oci
                implies #[trigger] pre.cells@[ci].particles@[k] != j by {
            assert(pre.cell_index_of(pre.particles@[pre.cells@[ci].particles@[k] as int]) == ci);
        }
        assert forall|ci: int, k: int|
            0 <= ci < post.cells@.len() && 0 <= k
                < post.cells@[ci].particles@.len() implies ({
            let j2 = #[trigger] post.cells@[ci].particles@[k];
            (j2 as int) < post.particles@.len() && post.cell_index_of(post.particles@[j2 as int])
                == ci
        }) by {
            let j2 = post.cells@[ci].particles@[k];
            if ci == nci && k == post.cells@[ci].particles@.len() - 1 {
                assert(j2 == j);
            } else {
                let k_pre: int = if ci == oci && k >= removed_k {
                    k + 1
                } else {
                    k
                };
                assert(pre.cells@[ci].particles@[k_pre] == j2);
                assert((j2 as int) < pre.particles@.len() && pre.cell_index_of(
                    pre.particles@[j2 as int],
                ) == ci);
                if j2 == j {
                    assert(ci == oci);
                    assert(k_pre != removed_k);
                    assert(false);
                }
                assert(post.particles@[j2 as int] == pre.particles@[j2 as int]);
            }
        }
        assert forall|ci: int, k1: int, k2: int|
            0 <= ci < post.cells@.len() && 0 <= k1 < post.cells@[ci].particles@.len() && 0 <= k2
                < post.cells@[ci].particles@.len() && k1
                != k2 implies #[trigger] post.cells@[ci].particles@[k1]
            != #[trigger] post.cells@[ci].particles@[k2] by {
            let last = post.cells@[ci].particles@.len() - 1;
            if ci == nci && (k1 == last || k2 == last) {
                let other = if k1 == last {
                    k2
                } else {
                    k1
                };
                assert(post.cells@[ci].particles@[other] == pre.cells@[ci].particles@[other]);
                assert(pre.cells@[ci].particles@[other] != j);
            } else {
                let m1: int = if ci == oci && k1 >= removed_k {
                    k1 + 1
                } else {
                    k1
                };
                let m2: int = if ci == oci && k2 >= removed_k {
                    k2 + 1
                } else {
                    k2
                };
                assert(post.cells@[ci].particles@[k1] == pre.cells@[ci].particles@[m1]);
                assert(post.cells@[ci].particles@[k2] == pre.cells@[ci].particles@[m2]);
            }
        }
        assert forall|j2: int| 0 <= j2 < post.particles@.len() implies #[trigger] post.cells@[post.cell_index_of(
            post.particles@[j2],
        )].particles@.contains(j2 as usize) by {
            if j2 == j as int {
                assert(post.cells@[nci].particles@.last() == j);
            } else {
                assert(post.particles@[j2] == pre.particles@[j2]);
                let target = pre.cell_index_of(pre.particles@[j2]);
                pre.lemma_cell_index_of_in_range(pre.particles@[j2]);
                assert(post.cell_index_of(post.particles@[j2]) == target);
                assert(pre.cells@[target].particles@.contains(j2 as usize));
                if target == oci {
                    assert(j2 as usize != j);
                    Board::lemma_remove_still_contains(
                        pre.cells@[oci].particles@,
                        removed_k,
                        j2 as usize,
                    );
                } else if target == nci {
                    let k = choose|k: int|
                        0 <= k < pre.cells@[target].particles@.len()
                            && pre.cells@[target].particles@[k] == j2 as usize;
                    assert(post.cells@[target].particles@[k] == j2 as usize);
                }
            }
        }
    }

    /// The particle after the velocity pass, evaluated over the pre-step
    /// snapshot: the base velocity is kept when the particle is inside the
    /// bounds or heading back toward them and zeroed otherwise, and the force
    /// sampled at the particle's current rendered cell is then integrated.
    pub open spec fn spec_velocity_passed(self, p: Particle) -> Particle {
        let base = if p.spec_is_inside(self.max_x(), self.max_y()) || p.spec_is_heading_inside(
            self.max_x() as i32,
            self.max_y() as i32,
        ) {
            p.velocity
        } else {
            Force::spec_zero()
        };
        let sampled = self.cells@[self.cell_index_of(p)].static_field;
        Particle { x: p.x, y: p.y, velocity: Particle::spec_updated_velocity(base, sampled) }
    }

    /// Particle `j` after one full step over the pre-step snapshot: the
    /// velocity pass followed by the position pass.
    pub open spec fn spec_stepped_particle(self, j: int) -> Particle {
        self.spec_velocity_passed(self.particles@[j]).spec_advanced()
    }

    /// Boundary policy, escaping: a particle outside the bounds on either x
    /// side, in bounds on y, whose velocity points strictly further out has
    /// its accumulated velocity forgotten by the velocity pass — the new
    /// velocity integrates from zero, so nothing escapes with unbounded
    /// speed.
    pub proof fn lemma_boundary_outward_zeroed(self, p: Particle)
        requires
            self.grid_ok(),
            0 <= round_bits(p.y) <= self.max_y(),
            (round_bits(p.x) < 0 && sign_bits(p.velocity.x_component) && !is_nan_bits(
                p.velocity.x_component,
            ) && !is_zero_bits(p.velocity.x_component)) || (round_bits(p.x) > self.max_x()
                && gt_zero_bits(p.velocity.x_component)),
        ensures
            self.spec_velocity_passed(p).velocity == Particle::spec_updated_velocity(
                Force::spec_zero(),
                self.cells@[self.cell_index_of(p)].static_field,
            ),
    {
    }

    /// Boundary policy, returning: a particle outside the bounds on either x
    /// side, in bounds on y, whose velocity points back toward the grid
    /// keeps its accumulated velocity through the velocity pass.
    pub proof fn lemma_boundary_inward_kept(self, p: Particle)
        requires
            self.grid_ok(),
            0 <= round_bits(p.y) <= self.max_y(),
            (round_bits(p.x) < 0 && ge_zero_bits(p.velocity.x_component)) || (round_bits(p.x)
                > self.max_x() && le_zero_bits(p.velocity.x_component)),
        ensures
            self.spec_velocity_passed(p).velocity == Particle::spec_updated_velocity(
                p.velocity,
                self.cells@[self.cell_index_of(p)].static_field,
            ),
    {
    }

    /// One simulation tick: two sequential passes over the full particle
    /// list. The velocity pass integrates every velocity from the pre-step
    /// field and position snapshot (applying the boundary policy first); the
    /// position pass then advances every position and re-files each particle
    /// whose rendered cell changed. Keeping the passes separate means no
    /// particle ever samples a neighbour's already-updated state.
    pub fn update(&mut self)
        requires
            old(self).wf(),
        ensures
            final(self).wf(),
            final(self).width == old(self).width,
            final(self).height == old(self).height,
            final(self).cells@.len() == old(self).cells@.len(),
            forall|i: int|
                0 <= i < old(self).cells@.len() ==> {
                    let c = #[trigger] final(self).cells@[i];
                    &&& c.x == old(self).cells@[i].x
                    &&& c.y == old(self).cells@[i].y
                    &&& c.static_field == old(self).cells@[i].static_field
                },
            final(self).particles@.len() == old(self).particles@.len(),
            forall|j: int|
                0 <= j < old(self).particles@.len() ==> #[trigger] final(self).particles@[j]
                    == old(self).spec_stepped_particle(j),
    {
        let max_x = self.width - 1;
        let max_y = self.height - 1;
        let n = self.particles.len();

        // Velocity pass: positions do not move, so membership is untouched.
        let mut j: usize = 0;
        while j < n
            invariant
                old(self).wf(),
                n == self.particles@.len(),
                j <= n,
                max_x == old(self).max_x(),
                max_y == old(self).max_y(),
                self.width == old(self).width,
                self.height == old(self).height,
                self.cells@ == old(self).cells@,
                self.particles@.len() == old(self).particles@.len(),
                forall|k: int|
                    j <= k < n ==> #[trigger] self.particles@[k] == old(self).particles@[k],
                forall|k: int|
                    0 <= k < j ==> #[trigger] self.particles@[k] == old(
                        self,
                    ).spec_velocity_passed(old(self).particles@[k]),
            decreases n - j,
        {
            let mut p = self.particles[j];
            let inside = p.is_inside(max_x, max_y);
            let heading = p.is_heading_inside(max_x as i32, max_y as i32);
            if !inside && !heading {
                p.velocity = Force::default();
            }
            let (px, py) = p.get_render_position(max_x, max_y);
            proof {
                lemma_cell_index_bound(
                    self.width as int,
                    self.height as int,
                    px as int,
                    py as int,
                );
                assert(self.cells@.len() == self.cells.len());
            }
            let f = self.cells[(px as usize) + (py as usize) * (self.width as usize)].static_field;
            p.update_velocity(f);
            self.particles[j] = p;
            j += 1;
        }

        let ghost mid = *self;
        proof {
            Board::lemma_wf_preserved_same_positions(*old(self), mid);
        }

        // Position pass: advance each particle, then re-file it if its
        // rendered cell changed.
        let mut j: usize = 0;
        while j < n
            invariant
                self.wf(),
                mid.wf(),
                n == self.particles@.len(),
                n == mid.particles@.len(),
                j <= n,
                self.width == mid.width,
                self.height == mid.height,
                self.cells@.len() == mid.cells@.len(),
                forall|i: int|
                    0 <= i < mid.cells@.len() ==> (#[trigger] self.cells@[i]).x == mid.cells@[i].x
                        && self.cells@[i].y == mid.cells@[i].y && self.cells@[i].static_field
                        == mid.cells@[i].static_field,
                forall|k: int| j <= k < n ==> #[trigger] self.particles@[k] == mid.particles@[k],
                forall|k: int|
                    0 <= k < j ==> #[trigger] self.particles@[k]
                        == mid.particles@[k].spec_advanced(),
            decreases n - j,
        {
            let max_x = self.width - 1;
            let max_y = self.height - 1;
            let ghost pre = *self;
            let p = self.particles[j];
            let (ox, oy) = p.get_render_position(max_x, max_y);
            let mut p2 = p;
            p2.update_position();
            let (nx, ny) = p2.get_render_position(max_x, max_y);
            self.particles[j] = p2;

            if ox != nx || oy != ny {
                proof {
                    pre.lemma_cell_index_of_in_range(p);
                    let jj: int = j as int;
                    assert(pre.particles@[jj] == p);
                    assert(pre.cells@[pre.cell_index_of(pre.particles@[jj])].particles@.contains(
                        jj as usize,
                    ));
                    assert(pre.cell_index_of(p) == pre.spec_cell_index(ox, oy));
                    assert(self.grid_ok());
                }
                let old_cell = self.get_cell_mut(ox, oy);
                old_cell.remove_particle(j);
                let new_cell = self.get_cell_mut(nx, ny);
                new_cell.add_particle(j);
                proof {
                    let oci = pre.cell_index_of(p);
                    let nci = pre.spec_cell_index(nx, ny);
                    lemma_cell_index_bound(
                        pre.width as int,
                        pre.height as int,
                        nx as int,
                        ny as int,
                    );
                    lemma_cell_index_injective(
                        pre.width as int,
                        ox as int,
                        oy as int,
                        nx as int,
                        ny as int,
                    );
                    assert(nci != oci);
                    assert(self.cell_index_of(p2) == nci);
                    assert(self.cells@[oci].particles@.len() < pre.cells@[oci].particles@.len());
                    let removed_k = choose|k: int|
                        0 <= k < pre.cells@[oci].particles@.len() && pre.cells@[oci].particles@[k]
                            == j && self.cells@[oci].particles@ == pre.cells@[oci].particles@.remove(
                            k,
                        );
                    assert(self.particles@ =~= pre.particles@.update(
                        j as int,
                        self.particles@[j as int],
                    ));
                    Board::lemma_wf_after_particle_move(pre, *self, j, oci, nci, removed_k);
                }
            } else {
                proof {
                    assert(self.particles@ =~= pre.particles@.update(
                        j as int,
                        self.particles@[j as int],
                    ));
                    assert(self.cell_index_of(p2) == pre.cell_index_of(p));
                    Board::lemma_wf_preserved_same_cell(pre, *self, j);
                }
            }
            j += 1;
        }
        proof {
            assert forall|k: int| 0 <= k < n implies #[trigger] self.particles@[k] == old(
                self,
            ).spec_stepped_particle(k) by {
                assert(mid.particles@[k] == old(self).spec_velocity_passed(
                    old(self).particles@[k],
                ));
            }
        }
    }

    /// Well-formedness survives an update to one particle that keeps its
    /// rendered cell.
    pub proof fn lemma_wf_preserved_same_cell(pre: Board, post: Board, j: usize)
        requires
            pre.wf(),
            (j as int) < pre.particles@.len(),
            post.width == pre.width,
            post.height == pre.height,
            post.cells@ == pre.cells@,
            post.particles@ == pre.particles@.update(j as int, post.particles@[j as int]),
            post.cell_index_of(post.particles@[j as int]) == pre.cell_index_of(
                pre.particles@[j as int],
            ),
        ensures
            post.wf(),
    {
        assert forall|ci: int, k: int|
            0 <= ci < post.cells@.len() && 0 <= k
                < post.cells@[ci].particles@.len() implies ({
            let j2 = #[trigger] post.cells@[ci].particles@[k];
            (j2 as int) < post.particles@.len() && post.cell_index_of(post.particles@[j2 as int])
                == ci
        }) by {
            let j2 = post.cells@[ci].particles@[k];
            assert((j2 as int) < pre.particles@.len() && pre.cell_index_of(
                pre.particles@[j2 as int],
            ) == ci);
            if j2 != j {
                assert(post.particles@[j2 as int] == pre.particles@[j2 as int]);
            }
        }
        assert forall|j2: int| 0 <= j2 < post.particles@.len() implies #[trigger] post.cells@[post.cell_index_of(
            post.particles@[j2],
        )].particles@.contains(j2 as usize) by {
            if j2 != j as int {
                assert(post.particles@[j2] == pre.particles@[j2]);
            }
            assert(pre.cells@[pre.cell_index_of(pre.particles@[j2])].particles@.contains(
                j2 as usize,
            ));
        }
    }

    /// Builds an empty board: a row-major grid of zero-field cells and no
    /// particles.
    pub fn new(width: u32, height: u32) -> (r: Board)
        requires
            1 <= width <= 0x7fff_ffff,
            1 <= height <= 0x7fff_ffff,
            width * height <= usize::MAX,
        ensures
            r.wf(),
            r.width == width,
            r.height == height,
            r.particles@ == Seq::<Particle>::empty(),
            forall|i: int|
                0 <= i < r.cells@.len() ==> (#[trigger] r.cells@[i]).static_field
                    == Force::spec_zero() && r.cells@[i].particles@ == Seq::<usize>::empty(),
    {
        let total: usize = (width as usize) * (height as usize);
        let mut cells: Vec<BoardCell> = Vec::new();
        let mut i: usize = 0;
        while i < total
            invariant
                total == width * height,
                1 <= width <= 0x7fff_ffff,
                i <= total,
                cells@.len() == i,
                forall|k: int|
                    0 <= k < i ==> (#[trigger] cells@[k]).x == k % (width as int) && cells@[k].y
                        == k / (width as int) && cells@[k].static_field == Force::spec_zero()
                        && cells@[k].particles@ == Seq::<usize>::empty(),
            decreases total - i,
        {
            proof {
                assert((i as int) / (width as int) < height as int && 0 <= (i as int) / (
                width as int)) by (nonlinear_arith)
                    requires
                        1 <= width as int,
                        0 <= i as int,
                        (i as int) < (width as int) * (height as int),
                ;
            }
            let x = (i % (width as usize)) as u32;
            let y = (i / (width as usize)) as u32;
            cells.push(BoardCell::new(x, y));
            i += 1;
        }
        Board { width, height, cells, particles: Vec::new() }
    }

    /// The cell at `(x, y)`.
    pub fn get_cell(&self, x: u32, y: u32) -> (r: &BoardCell)
        requires
            self.grid_ok(),
            x < self.width,
            y < self.height,
        ensures
            *r == self.cells@[self.spec_cell_index(x, y)],
    {
        proof {
            lemma_cell_index_bound(
                self.width as int,
                self.height as int,
                x as int,
                y as int,
            );
            assert(self.cells@.len() == self.cells.len());
        }
        &self.cells[(x as usize) + (y as usize) * (self.width as usize)]
    }

    /// A mutable borrow of the cell at `(x, y)`.
    pub fn get_cell_mut(&mut self, x: u32, y: u32) -> (r: &mut BoardCell)
        requires
            old(self).grid_ok(),
            x < old(self).width,
            y < old(self).height,
        ensures
            *r == old(self).cells@[old(self).spec_cell_index(x, y)],
            final(self).cells@ == old(self).cells@.update(
                old(self).spec_cell_index(x, y),
                *final(r),
            ),
            final(self).width == old(self).width,
            final(self).height == old(self).height,
            final(self).particles@ == old(self).particles@,
    {
        proof {
            lemma_cell_index_bound(
                self.width as int,
                self.height as int,
                x as int,
                y as int,
            );
            assert(self.cells@.len() == self.cells.len());
        }
        &mut self.cells[(x as usize) + (y as usize) * (self.width as usize)]
    }

    /// Resets every cell's field sample to the zero vector; particles and
    /// membership are untouched.
    pub fn clear_static_field(&mut self)
        requires
            old(self).wf(),
        ensures
            final(self).wf(),
            final(self).width == old(self).width,
            final(self).height == old(self).height,
            final(self).particles@ == old(self).particles@,
            final(self).cells@.len() == old(self).cells@.len(),
            forall|i: int|
                0 <= i < old(self).cells@.len() ==> {
                    let c = #[trigger] final(self).cells@[i];
                    &&& c.static_field == Force::spec_zero()
                    &&& c.x == old(self).cells@[i].x
                    &&& c.y == old(self).cells@[i].y
                    &&& c.particles@ == old(self).cells@[i].particles@
                },
    {
        let n = self.cells.len();
        let mut i: usize = 0;
        while i < n
            invariant
                n == self.cells@.len(),
                i <= n,
                self.width == old(self).width,
                self.height == old(self).height,
                self.particles@ == old(self).particles@,
                forall|k: int|
                    i <= k < n ==> #[trigger] self.cells@[k] == old(self).cells@[k],
                forall|k: int|
                    0 <= k < i ==> {
                        let c = #[trigger] self.cells@[k];
                        &&& c.static_field == Force::spec_zero()
                        &&& c.x == old(self).cells@[k].x
                        &&& c.y == old(self).cells@[k].y
                        &&& c.particles@ == old(self).cells@[k].particles@
                    },
            decreases n - i,
        {
            self.cells[i].static_field = Force::default();
            i += 1;
        }
        proof {
            Board::lemma_wf_preserved_same_positions(*old(self), *self);
        }
    }

    /// Seeds a particle at an integer position with zero velocity and
    /// registers it in the matching cell and in the flat particle list.
    pub fn add_particle(&mut self, x: u32, y: u32)
        requires
            old(self).wf(),
            x < old(self).width,
            y < old(self).height,
            old(self).width <= 0x100_0000,
            old(self).height <= 0x100_0000,
        ensures
            final(self).wf(),
            final(self).width == old(self).width,
            final(self).height == old(self).height,
            final(self).particles@ == old(self).particles@.push(spec_seeded_particle(x, y)),
            final(self).cells@.len() == old(self).cells@.len(),
            forall|i: int|
                0 <= i < old(self).cells@.len() ==> {
                    let c = #[trigger] final(self).cells@[i];
                    &&& c.x == old(self).cells@[i].x
                    &&& c.y == old(self).cells@[i].y
                    &&& c.static_field == old(self).cells@[i].static_field
                    &&& (i != old(self).spec_cell_index(x, y) ==> c.particles@ == old(
                        self,
                    ).cells@[i].particles@)
                },
            final(self).cells@[old(self).spec_cell_index(x, y)].particles@ == old(
                self,
            ).cells@[old(self).spec_cell_index(x, y)].particles@.push(old(self).particles@.len()
                    as usize),
    {
        let px = f_of_i32(x as i32);
        let py = f_of_i32(y as i32);
        let particle = Particle { x: px, y: py, velocity: Force::default() };
        let j = self.particles.len();

        proof {
            lemma_cell_index_bound(
                self.width as int,
                self.height as int,
                x as int,
                y as int,
            );
            assert(particle.spec_render_x(self.max_x()) == x);
            assert(particle.spec_render_y(self.max_y()) == y);
        }
        let ghost pre = *self;
        let cell = self.get_cell_mut(x, y);
        cell.add_particle(j);
        self.particles.push(particle);

        proof {
            let ghost post = *self;
            let ci = pre.spec_cell_index(x, y);
            assert(post.cell_index_of(particle) == ci);
            assert forall|ci2: int, k: int|
                0 <= ci2 < post.cells@.len() && 0 <= k
                    < post.cells@[ci2].particles@.len() implies ({
                let j2 = #[trigger] post.cells@[ci2].particles@[k];
                (j2 as int) < post.particles@.len() && post.cell_index_of(
                    post.particles@[j2 as int],
                ) == ci2
            }) by {
                if ci2 == ci && k == post.cells@[ci2].particles@.len() - 1 {
                    assert(post.cells@[ci2].particles@[k] == j);
                } else {
                    let j2 = post.cells@[ci2].particles@[k];
                    assert(pre.cells@[ci2].particles@[k] == j2);
                    assert((j2 as int) < pre.particles@.len() && pre.cell_index_of(
                        pre.particles@[j2 as int],
                    ) == ci2);
                }
            }
            assert forall|ci2: int, k1: int, k2: int|
                0 <= ci2 < post.cells@.len() && 0 <= k1 < post.cells@[ci2].particles@.len() && 0
                    <= k2 < post.cells@[ci2].particles@.len() && k1
                    != k2 implies #[trigger] post.cells@[ci2].particles@[k1]
                != #[trigger] post.cells@[ci2].particles@[k2] by {
                let last = pre.cells@[ci].particles@.len() as int;
                if ci2 == ci && (k1 == last || k2 == last) {
                    let other = if k1 == last {
                        k2
                    } else {
                        k1
                    };
                    assert(pre.cells@[ci2].particles@[other] == post.cells@[ci2].particles@[other]);
                    assert((pre.cells@[ci2].particles@[other] as int) < pre.particles@.len());
                } else {
                    assert(pre.cells@[ci2].particles@[k1] == post.cells@[ci2].particles@[k1]);
                    assert(pre.cells@[ci2].particles@[k2] == post.cells@[ci2].particles@[k2]);
                }
            }
            assert forall|j2: int| 0 <= j2 < post.particles@.len() implies #[trigger] post.cells@[post.cell_index_of(
                post.particles@[j2],
            )].particles@.contains(j2 as usize) by {
                pre.lemma_cell_index_of_in_range(post.particles@[j2]);
                if j2 == pre.particles@.len() {
                    assert(post.cells@[ci].particles@.last() == j);
                } else {
                    let target = pre.cell_index_of(pre.particles@[j2]);
                    assert(pre.cells@[target].particles@.contains(j2 as usize));
                    let k = choose|k: int|
                        0 <= k < pre.cells@[target].particles@.len()
                            && pre.cells@[target].particles@[k] == j2 as usize;
                    assert(post.cells@[target].particles@[k] == j2 as usize);
                }
            }
        }
    }

    /// Seeds `count` particles at uniformly random integer positions within
    /// the bounds; every new particle starts with zero velocity.
    pub fn random_particles(&mut self, amount: u32)
        requires
            old(self).wf(),
            old(self).width <= 0x100_0000,
            old(self).height <= 0x100_0000,
        ensures
            final(self).wf(),
            final(self).width == old(self).width,
            final(self).height == old(self).height,
            final(self).particles@.len() == old(self).particles@.len() + amount,
            forall|j: int|
                0 <= j < old(self).particles@.len() ==> #[trigger] final(self).particles@[j] == old(
                    self,
                ).particles@[j],
            forall|j: int|
                old(self).particles@.len() <= j < final(self).particles@.len()
                    ==> #[trigger] is_seeded_within(
                    final(self).particles@[j],
                    old(self).width,
                    old(self).height,
                ),
            final(self).cells@.len() == old(self).cells@.len(),
            forall|i: int|
                0 <= i < old(self).cells@.len() ==> {
                    let c = #[trigger] final(self).cells@[i];
                    &&& c.x == old(self).cells@[i].x
                    &&& c.y == old(self).cells@[i].y
                    &&& c.static_field == old(self).cells@[i].static_field
                },
    {
        let mut done: u32 = 0;
        while done < amount
            invariant
                self.wf(),
                self.width == old(self).width,
                self.height == old(self).height,
                self.width <= 0x100_0000,
                self.height <= 0x100_0000,
                done <= amount,
                self.particles@.len() == old(self).particles@.len() + done,
                forall|j: int|
                    0 <= j < old(self).particles@.len() ==> #[trigger] self.particles@[j] == old(
                        self,
                    ).particles@[j],
                forall|j: int|
                    old(self).particles@.len() <= j < self.particles@.len()
                        ==> #[trigger] is_seeded_within(
                        self.particles@[j],
                        old(self).width,
                        old(self).height,
                    ),
                self.cells@.len() == old(self).cells@.len(),
                forall|i: int|
                    0 <= i < old(self).cells@.len() ==> {
                        let c = #[trigger] self.cells@[i];
                        &&& c.x == old(self).cells@[i].x
                        &&& c.y == old(self).cells@[i].y
                        &&& c.static_field == old(self).cells@[i].static_field
                    },
            decreases amount - done,
        {
            let x = random_below(self.width);
            let y = random_below(self.height);
            self.add_particle(x, y);
            proof {
                assert(self.particles@.last() == spec_seeded_particle(x, y));
                assert(is_seeded_within(
                    self.particles@[self.particles@.len() - 1],
                    old(self).width,
                    old(self).height,
                ));
            }
            done += 1;
        }
    }

    /// Computes the superposed attractor force for every cell and adds it on
    /// top of the cell's current field sample, row by row.
    pub fn generate_static_field(&mut self, attractors: Vec<(u32, u32)>)
        requires
            old(self).wf(),
            old(self).width <= MAX_COORD as u32 + 1,
            old(self).height <= MAX_COORD as u32 + 1,
            forall|a: int|
                0 <= a < attractors@.len() ==> (#[trigger] attractors@[a]).0 <= MAX_COORD
                    && attractors@[a].1 <= MAX_COORD,
        ensures
            final(self).wf(),
            final(self).width == old(self).width,
            final(self).height == old(self).height,
            final(self).particles@ == old(self).particles@,
            final(self).cells@.len() == old(self).cells@.len(),
            forall|i: int|
                0 <= i < old(self).cells@.len() ==> {
                    let c = #[trigger] final(self).cells@[i];
                    &&& c.x == old(self).cells@[i].x
                    &&& c.y == old(self).cells@[i].y
                    &&& c.particles@ == old(self).cells@[i].particles@
                    &&& c.static_field == spec_field_sum(
                        old(self).cells@[i].static_field,
                        old(self).cells@[i].x,
                        old(self).cells@[i].y,
                        attractors@,
                    )
                },
    {
        let n = self.cells.len();
        let mut ci: usize = 0;
        while ci < n
            invariant
                n == self.cells@.len(),
                ci <= n,
                old(self).grid_ok(),
                self.width == old(self).width,
                self.height == old(self).height,
                self.width <= MAX_COORD as u32 + 1,
                self.height <= MAX_COORD as u32 + 1,
                self.particles@ == old(self).particles@,
                self.cells@.len() == old(self).cells@.len(),
                forall|a: int|
                    0 <= a < attractors@.len() ==> (#[trigger] attractors@[a]).0 <= MAX_COORD
                        && attractors@[a].1 <= MAX_COORD,
                forall|k: int| ci <= k < n ==> #[trigger] self.cells@[k] == old(self).cells@[k],
                forall|k: int|
                    0 <= k < ci ==> {
                        let c = #[trigger] self.cells@[k];
                        &&& c.x == old(self).cells@[k].x
                        &&& c.y == old(self).cells@[k].y
                        &&& c.particles@ == old(self).cells@[k].particles@
                        &&& c.static_field == spec_field_sum(
                            old(self).cells@[k].static_field,
                            old(self).cells@[k].x,
                            old(self).cells@[k].y,
                            attractors@,
                        )
                    },
            decreases n - ci,
        {
            let cx = self.cells[ci].x;
            let cy = self.cells[ci].y;
            proof {
                assert((ci as int) % (self.width as int) < self.width as int && (ci as int) / (
                self.width as int) < self.height as int && 0 <= (ci as int) / (self.width as int))
                    by (nonlinear_arith)
                    requires
                        1 <= self.width as int,
                        0 <= ci as int,
                        (ci as int) < (self.width as int) * (self.height as int),
                ;
                assert(cx < self.width && cy < self.height);
            }
            let f = accumulate_cell(self.cells[ci].static_field, cx, cy, &attractors);
            self.cells[ci].static_field = f;
            ci += 1;
        }
        proof {
            Board::lemma_wf_preserved_same_positions(*old(self), *self);
        }
    }

    /// Assigns each cell's static force from an ordered field (one force per
    /// cell, row-major); no particle side effects.
    pub fn apply_field(&mut self, field: &Vec<Force>)
        requires
            old(self).wf(),
            field@.len() == old(self).cells@.len(),
        ensures
            final(self).wf(),
            final(self).width == old(self).width,
            final(self).height == old(self).height,
            final(self).particles@ == old(self).particles@,
            final(self).cells@.len() == old(self).cells@.len(),
            forall|i: int|
                0 <= i < old(self).cells@.len() ==> {
                    let c = #[trigger] final(self).cells@[i];
                    &&& c.x == old(self).cells@[i].x
                    &&& c.y == old(self).cells@[i].y
                    &&& c.particles@ == old(self).cells@[i].particles@
                    &&& c.static_field == field@[i]
                },
    {
        let n = self.cells.len();
        let mut i: usize = 0;
        while i < n
            invariant
                n == self.cells@.len(),
                i <= n,
                self.width == old(self).width,
                self.height == old(self).height,
                self.particles@ == old(self).particles@,
                self.cells@.len() == old(self).cells@.len(),
                field@.len() == n,
                forall|k: int| i <= k < n ==> #[trigger] self.cells@[k] == old(self).cells@[k],
                forall|k: int|
                    0 <= k < i ==> {
                        let c = #[trigger] self.cells@[k];
                        &&& c.x == old(self).cells@[k].x
                        &&& c.y == old(self).cells@[k].y
                        &&& c.particles@ == old(self).cells@[k].particles@
                        &&& c.static_field == field@[k]
                    },
            decreases n - i,
        {
            self.cells[i].static_field = field[i];
            i += 1;
        }
        proof {
            Board::lemma_wf_preserved_same_positions(*old(self), *self);
        }
    }

    /// Reassembles a field from separate per-component arrays laid out in
    /// row-major order — the shape in which an accelerator back-end returns
    /// its two device-resident output buffers.
    pub fn apply_field_components(&mut self, force_x: &Vec<u32>, force_y: &Vec<u32>)
        requires
            old(self).wf(),
            force_x@.len() == old(self).cells@.len(),
            force_y@.len() == old(self).cells@.len(),
        ensures
            final(self).wf(),
            final(self).width == old(self).width,
            final(self).height == old(self).height,
            final(self).particles@ == old(self).particles@,
            final(self).cells@.len() == old(self).cells@.len(),
            forall|i: int|
                0 <= i < old(self).cells@.len() ==> {
                    let c = #[trigger] final(self).cells@[i];
                    &&& c.x == old(self).cells@[i].x
                    &&& c.y == old(self).cells@[i].y
                    &&& c.particles@ == old(self).cells@[i].particles@
                    &&& c.static_field == (Force {
                        x_component: force_x@[i],
                        y_component: force_y@[i],
                    })
                },
    {
        let n = self.cells.len();
        let mut i: usize = 0;
        while i < n
            invariant
                n == self.cells@.len(),
                i <= n,
                self.width == old(self).width,
                self.height == old(self).height,
                self.particles@ == old(self).particles@,
                self.cells@.len() == old(self).cells@.len(),
                force_x@.len() == n,
                force_y@.len() == n,
                forall|k: int| i <= k < n ==> #[trigger] self.cells@[k] == old(self).cells@[k],
                forall|k: int|
                    0 <= k < i ==> {
                        let c = #[trigger] self.cells@[k];
                        &&& c.x == old(self).cells@[k].x
                        &&& c.y == old(self).cells@[k].y
                        &&& c.particles@ == old(self).cells@[k].particles@
                        &&& c.static_field == (Force {
                            x_component: force_x@[k],
                            y_component: force_y@[k],
                        })
                    },
            decreases n - i,
        {
            self.cells[i].static_field =
                Force { x_component: force_x[i], y_component: force_y[i] };
            i += 1;
        }
        proof {
            Board::lemma_wf_preserved_same_positions(*old(self), *self);
        }
    }

    /// The membership invariant, read out: a particle is listed by the cell
    /// matching its rendered position, and by no other cell.
    pub proof fn lemma_membership_unique(self, j: usize)
        requires
            self.wf(),
            (j as int) < self.particles@.len(),
        ensures
            self.cells@[self.cell_index_of(self.particles@[j as int])].particles@.contains(j),
            forall|ci: int|
                0 <= ci < self.cells@.len() && ci != self.cell_index_of(
                    self.particles@[j as int],
                ) ==> !(#[trigger] self.cells@[ci].particles@.contains(j)),
    {
        let jj = j as int;
        assert(self.cells@[self.cell_index_of(self.particles@[jj])].particles@.contains(
            jj as usize,
        ));
        assert forall|ci: int|
            0 <= ci < self.cells@.len() && ci != self.cell_index_of(
                self.particles@[j as int],
            ) implies !(#[trigger] self.cells@[ci].particles@.contains(j)) by {
            if self.cells@[ci].particles@.contains(j) {
                let k = choose|k: int|
                    0 <= k < self.cells@[ci].particles@.len() && self.cells@[ci].particles@[k]
                        == j;
                assert(self.cell_index_of(self.particles@[j as int]) == ci);
            }
        }
    }

    /// Renders the static field: one packed RGBA pixel per cell.
    ///
    /// A zero field paints black; otherwise the sign combination of the two
    /// components picks one of four quadrant colors (red, green, blue,
    /// yellow), and the one combination left uncovered — a NaN component —
    /// paints white as a visible edge case.
    pub fn draw_static_field(&self, pixels: &mut Vec<u8>)
        requires
            old(pixels)@.len() == self.cells@.len() * 4,
        ensures
            final(pixels)@.len() == old(pixels)@.len(),
            forall|i: int|
                0 <= i < self.cells@.len() ==> {
                    let c = spec_field_color(#[trigger] self.cells@[i].static_field);
                    &&& final(pixels)@[4 * i] == c.0
                    &&& final(pixels)@[4 * i + 1] == c.1
                    &&& final(pixels)@[4 * i + 2] == c.2
                    &&& final(pixels)@[4 * i + 3] == c.3
                },
    {
        let n = self.cells.len();
        let mut i: usize = 0;
        while i < n
            invariant
                n == self.cells@.len(),
                i <= n,
                pixels@.len() == n * 4,
                forall|k: int|
                    0 <= k < i ==> {
                        let c = spec_field_color(#[trigger] self.cells@[k].static_field);
                        &&& pixels@[4 * k] == c.0
                        &&& pixels@[4 * k + 1] == c.1
                        &&& pixels@[4 * k + 2] == c.2
                        &&& pixels@[4 * k + 3] == c.3
                    },
            decreases n - i,
        {
            let f = self.cells[i].static_field;
            let color: [u8; 4] = if eq_zero(f.x_component) && eq_zero(f.y_component) {
                [0, 0, 0, 0xff]
            } else if ge_zero(f.x_component) && ge_zero(f.y_component) {
                [0xff, 0, 0, 0xff]
            } else if le_zero(f.x_component) && ge_zero(f.y_component) {
                [0, 0xff, 0, 0xff]
            } else if le_zero(f.x_component) && le_zero(f.y_component) {
                [0, 0, 0xff, 0xff]
            } else if ge_zero(f.x_component) && le_zero(f.y_component) {
                [0xff, 0xff, 0, 0xff]
            } else {
                [0xff, 0xff, 0xff, 0xff]
            };
            proof {
                assert(pixels@.len() == pixels.len());
                assert(4 * (i as int) + 3 < pixels@.len()) by (nonlinear_arith)
                    requires
                        (i as int) < n as int,
                        pixels@.len() == (n as int) * 4,
                ;
            }
            pixels[4 * i] = color[0];
            pixels[4 * i + 1] = color[1];
            pixels[4 * i + 2] = color[2];
            pixels[4 * i + 3] = color[3];
            i += 1;
        }
    }

    /// Renders the particles: a cell with no particle paints black, an
    /// occupied cell paints white, one packed RGBA pixel per cell.
    pub fn draw_particles(&self, pixels: &mut Vec<u8>)
        requires
            old(pixels)@.len() == self.cells@.len() * 4,
        ensures
            final(pixels)@.len() == old(pixels)@.len(),
            forall|i: int|
                0 <= i < self.cells@.len() ==> {
                    let v: u8 = if (#[trigger] self.cells@[i].particles@).len() == 0 {
                        0u8
                    } else {
                        0xffu8
                    };
                    &&& final(pixels)@[4 * i] == v
                    &&& final(pixels)@[4 * i + 1] == v
                    &&& final(pixels)@[4 * i + 2] == v
                    &&& final(pixels)@[4 * i + 3] == 0xffu8
                },
    {
        let n = self.cells.len();
        let mut i: usize = 0;
        while i < n
            invariant
                n == self.cells@.len(),
                i <= n,
                pixels@.len() == n * 4,
                forall|k: int|
                    0 <= k < i ==> {
                        let v: u8 = if (#[trigger] self.cells@[k].particles@).len() == 0 {
                            0u8
                        } else {
                            0xffu8
                        };
                        &&& pixels@[4 * k] == v
                        &&& pixels@[4 * k + 1] == v
                        &&& pixels@[4 * k + 2] == v
                        &&& pixels@[4 * k + 3] == 0xffu8
                    },
            decreases n - i,
        {
            let v: u8 = if self.cells[i].particles.len() == 0 {
                0
            } else {
                0xff
            };
            proof {
                assert(pixels@.len() == pixels.len());
                assert(4 * (i as int) + 3 < pixels@.len()) by (nonlinear_arith)
                    requires
                        (i as int) < n as int,
                        pixels@.len() == (n as int) * 4,
                ;
            }
            pixels[4 * i] = v;
            pixels[4 * i + 1] = v;
            pixels[4 * i + 2] = v;
            pixels[4 * i + 3] = 0xff;
            i += 1;
        }
    }

    /// Whether any cell's field sample carries a NaN component — the
    /// semantic corruption check run after a structurally valid load.
    pub open spec fn spec_field_corrupted(self) -> bool {
        exists|i: int|
            0 <= i < self.cells@.len() && (is_nan_bits(
                (#[trigger] self.cells@[i]).static_field.x_component,
            ) || is_nan_bits(self.cells@[i].static_field.y_component))
    }

    /// Scans the field for NaN components.
    pub fn is_field_corrupted(&self) -> (r: bool)
        ensures
            r == self.spec_field_corrupted(),
    {
        let n = self.cells.len();
        let mut i: usize = 0;
        while i < n
            invariant
                n == self.cells@.len(),
                i <= n,
                forall|k: int|
                    0 <= k < i ==> !is_nan_bits(
                        (#[trigger] self.cells@[k]).static_field.x_component,
                    ) && !is_nan_bits(self.cells@[k].static_field.y_component),
            decreases n - i,
        {
            if is_nan(self.cells[i].static_field.x_component) || is_nan(
                self.cells[i].static_field.y_component,
            ) {
                return true;
            }
            i += 1;
        }
        false
    }
}

} // verus!
