//! Physics-facing checks: the force-law kernel against a plain floating-point
//! reference, the motion integrator, the boundary policy, and the
//! particle/cell membership invariant.

use particle_field::board::{Board, BoardCell};
use particle_field::engine::{gravitational_force, ATTRACTOR_MASS, PARTICLE_MASS};
use particle_field::force::Force;
use particle_field::particle::Particle;

/// The force law computed in ordinary `f32` arithmetic, mirroring the
/// library's evaluation order.
fn reference_contribution(x1: u32, y1: u32, m1: f32, x2: u32, y2: u32, m2: f32) -> (f32, f32) {
    let g: f32 = 1.0 / 1000.0;
    let rx = (x2 as i32) - (x1 as i32);
    let ry = (y2 as i32) - (y1 as i32);
    let r2 = rx * rx + ry * ry;
    if r2 == 0 {
        return (0.0, 0.0);
    }
    let r2f = r2 as f32;
    let cos_alpha = (rx as f32) / r2f;
    let sin_alpha = (ry as f32) / r2f;
    (g * m1 * m2 / r2f * cos_alpha, g * m1 * m2 / r2f * sin_alpha)
}

/// The reference field at one cell: contributions of all attractors
/// accumulated in order.
fn reference_field(x: u32, y: u32, attractors: &[(u32, u32)]) -> (f32, f32) {
    let mut fx = 0.0f32;
    let mut fy = 0.0f32;
    for &(ax, ay) in attractors {
        let (cx, cy) = reference_contribution(x, y, 1.0, ax, ay, 10.0);
        fx += cx;
        fy += cy;
    }
    (fx, fy)
}

#[test]
fn coincident_attractor_exerts_no_force() {
    let f = gravitational_force(5, 7, PARTICLE_MASS, 5, 7, ATTRACTOR_MASS);
    assert_eq!(f.x_component, 0);
    assert_eq!(f.y_component, 0);
}

#[test]
fn contribution_matches_hand_computed_example() {
    // One attractor one unit to the right: r = (1, 0), r2 = 1, so the
    // contribution is (G * m1 * m2, 0) = (0.01, 0).
    let f = gravitational_force(0, 0, PARTICLE_MASS, 1, 0, ATTRACTOR_MASS);
    let expected_x = 0.001f32 * 1.0 * 10.0 / 1.0 * 1.0;
    assert_eq!(f.x_component, expected_x.to_bits());
    assert_eq!(f.y_component, 0.0f32.to_bits());

    // One attractor at (1, 1): r2 = 2, direction scaled by a second 1/r2.
    let f = gravitational_force(0, 0, PARTICLE_MASS, 1, 1, ATTRACTOR_MASS);
    let magnitude = 0.001f32 * 1.0 * 10.0 / 2.0;
    let expected = magnitude * (1.0f32 / 2.0);
    assert_eq!(f.x_component, expected.to_bits());
    assert_eq!(f.y_component, expected.to_bits());
}

#[test]
fn contribution_direction_follows_displacement() {
    // Two attractors, four cells: every contribution's sign pattern matches
    // the displacement toward the attractor.
    let attractors = [(0u32, 0u32), (1u32, 1u32)];
    for cell in [(0u32, 0u32), (1, 0), (0, 1), (1, 1)] {
        for a in attractors {
            let f = gravitational_force(cell.0, cell.1, PARTICLE_MASS, a.0, a.1, ATTRACTOR_MASS);
            let (ex, ey) = reference_contribution(cell.0, cell.1, 1.0, a.0, a.1, 10.0);
            assert_eq!(f.x_component, ex.to_bits());
            assert_eq!(f.y_component, ey.to_bits());
            if a != cell {
                let fx = f32::from_bits(f.x_component);
                let fy = f32::from_bits(f.y_component);
                assert_eq!(fx > 0.0, a.0 > cell.0);
                assert_eq!(fx < 0.0, a.0 < cell.0);
                assert_eq!(fy > 0.0, a.1 > cell.1);
                assert_eq!(fy < 0.0, a.1 < cell.1);
            }
        }
    }
}

#[test]
fn generated_field_matches_reference_fixture() {
    // A 5x5 grid with three attractors, checked bit for bit against the
    // floating-point reference.
    let attractors = vec![(0u32, 0u32), (2, 3), (4, 4)];
    let mut board = Board::new(5, 5);
    board.generate_static_field(attractors.clone());
    for y in 0..5u32 {
        for x in 0..5u32 {
            let (ex, ey) = reference_field(x, y, &attractors);
            let cell = board.get_cell(x, y);
            assert_eq!(cell.static_field.x_component, ex.to_bits());
            assert_eq!(cell.static_field.y_component, ey.to_bits());
        }
    }
}

#[test]
fn force_operations_match_ieee_arithmetic() {
    let a = Force { x_component: 1.5f32.to_bits(), y_component: (-2.25f32).to_bits() };
    let b = Force { x_component: 0.375f32.to_bits(), y_component: 10.0f32.to_bits() };
    let sum = a.add(b);
    assert_eq!(sum.x_component, (1.5f32 + 0.375).to_bits());
    assert_eq!(sum.y_component, (-2.25f32 + 10.0).to_bits());
    let diff = a.sub(b);
    assert_eq!(diff.x_component, (1.5f32 - 0.375).to_bits());
    assert_eq!(diff.y_component, (-2.25f32 - 10.0).to_bits());
    let scaled = a.mul(3.0f32.to_bits());
    assert_eq!(scaled.x_component, (1.5f32 * 3.0).to_bits());
    assert_eq!(scaled.y_component, (-2.25f32 * 3.0).to_bits());
    let divided = a.div(4.0f32.to_bits());
    assert_eq!(divided.x_component, (1.5f32 / 4.0).to_bits());
    assert_eq!(divided.y_component, (-2.25f32 / 4.0).to_bits());
    let mut acc = Force::default();
    acc.add_assign(a);
    acc.add_assign(b);
    assert_eq!(acc.x_component, (0.0f32 + 1.5 + 0.375).to_bits());
    assert_eq!(acc.y_component, (0.0f32 + -2.25 + 10.0).to_bits());
}

#[test]
fn render_position_rounds_and_clamps() {
    let p = Particle {
        x: 3.6f32.to_bits(),
        y: (-0.4f32).to_bits(),
        velocity: Force { x_component: 0, y_component: 0 },
    };
    assert_eq!(p.get_render_position(9, 9), (4, 0));

    let p = Particle {
        x: (-2.7f32).to_bits(),
        y: 11.5f32.to_bits(),
        velocity: Force { x_component: 0, y_component: 0 },
    };
    // -2.7 rounds to -3 and clamps to 0; 11.5 rounds half away to 12 and
    // clamps to 9.
    assert_eq!(p.get_render_position(9, 9), (0, 9));
}

#[test]
fn kinetics_match_reference_integration() {
    let mut p = Particle {
        x: 2.0f32.to_bits(),
        y: 3.0f32.to_bits(),
        velocity: Force { x_component: 0.5f32.to_bits(), y_component: (-0.25f32).to_bits() },
    };
    let force = Force { x_component: 0.125f32.to_bits(), y_component: 1.0f32.to_bits() };
    p.update_velocity(force);
    // v' = v + (F / m) * dt with m = 1 and dt = 1.
    assert_eq!(p.velocity.x_component, (0.5f32 + 0.125).to_bits());
    assert_eq!(p.velocity.y_component, (-0.25f32 + 1.0).to_bits());
    p.update_position();
    assert_eq!(p.x, (2.0f32 + (0.5 + 0.125)).to_bits());
    assert_eq!(p.y, (3.0f32 + (-0.25 + 1.0)).to_bits());
}

#[test]
fn membership_invariant_holds_after_steps() {
    let mut board = Board::new(10, 10);
    board.generate_static_field(vec![(2, 2), (7, 4), (9, 9)]);
    board.random_particles(25);
    for _ in 0..40 {
        board.update();
    }
    assert_eq!(board.particles.len(), 25);
    // Every particle is listed by exactly the cell matching its rounded,
    // clamped position, and the listings cover the particles exactly once.
    let mut seen = vec![0u32; board.particles.len()];
    for cell_index in 0..board.cells.len() {
        let cell = &board.cells[cell_index];
        for &j in &cell.particles {
            let p = &board.particles[j];
            let (rx, ry) = p.get_render_position(9, 9);
            assert_eq!((rx + ry * 10) as usize, cell_index);
            seen[j] += 1;
        }
    }
    for count in seen {
        assert_eq!(count, 1);
    }
}

#[test]
fn escaping_particle_velocity_is_zeroed() {
    // A constant leftward field pushes the particle off the low x edge; once
    // it sits one unit outside with outward velocity, the next velocity pass
    // forgets its accumulated velocity.
    let mut board = Board::new(3, 3);
    board.add_particle(1, 1);
    let n = board.cells.len();
    let left = (-2.0f32).to_bits();
    board.apply_field_components(&vec![left; n], &vec![0u32; n]);
    board.update();
    // v = -2, x = 1 - 2 = -1: one unit outside, pointing further out.
    assert_eq!(board.particles[0].x, (-1.0f32).to_bits());
    assert_eq!(board.particles[0].velocity.x_component, (-2.0f32).to_bits());

    // Swap in a zero field: the boundary policy zeroes the velocity and the
    // zero field adds nothing back.
    board.apply_field_components(&vec![0u32; n], &vec![0u32; n]);
    board.update();
    assert_eq!(board.particles[0].velocity.x_component, 0.0f32.to_bits());
    assert_eq!(board.particles[0].velocity.y_component, 0.0f32.to_bits());
    assert_eq!(board.particles[0].x, (-1.0f32).to_bits());
}

#[test]
fn returning_particle_velocity_is_kept() {
    // Push the particle out to x = -1, then give it an inward velocity; the
    // boundary policy keeps an inward-heading velocity, so the field keeps
    // accumulating onto it.
    let mut board = Board::new(3, 3);
    board.add_particle(1, 1);
    let n = board.cells.len();
    board.apply_field_components(&vec![(-2.0f32).to_bits(); n], &vec![0u32; n]);
    board.update();
    assert_eq!(board.particles[0].x, (-1.0f32).to_bits());

    // One unit outside, outward: zeroed, then +3 accumulates; x = -1 + 3 = 2.
    board.apply_field_components(&vec![3.0f32.to_bits(); n], &vec![0u32; n]);
    board.update();
    assert_eq!(board.particles[0].velocity.x_component, 3.0f32.to_bits());
    assert_eq!(board.particles[0].x, 2.0f32.to_bits());

    // Drive it back out: inside at x = 2, so v = 3 - 6 = -3, x = 2 - 3 = -1.
    board.apply_field_components(&vec![(-6.0f32).to_bits(); n], &vec![0u32; n]);
    board.update();
    assert_eq!(board.particles[0].x, (-1.0f32).to_bits());
    assert_eq!(board.particles[0].velocity.x_component, (-3.0f32).to_bits());

    // Outside, outward: zeroed, +1 accumulates, x = -1 + 1 = 0.
    board.apply_field_components(&vec![1.0f32.to_bits(); n], &vec![0u32; n]);
    board.update();
    assert_eq!(board.particles[0].x, 0.0f32.to_bits());
    assert_eq!(board.particles[0].velocity.x_component, 1.0f32.to_bits());

    // Inside at x = 0: v = 1 - 3 = -2, x = 0 - 2 = -2.
    board.apply_field_components(&vec![(-3.0f32).to_bits(); n], &vec![0u32; n]);
    board.update();
    assert_eq!(board.particles[0].x, (-2.0f32).to_bits());
    assert_eq!(board.particles[0].velocity.x_component, (-2.0f32).to_bits());

    // Outside, outward: zeroed, +1 accumulates, x = -2 + 1 = -1: the
    // particle now sits one unit outside with velocity pointing back inward.
    board.apply_field_components(&vec![1.0f32.to_bits(); n], &vec![0u32; n]);
    board.update();
    assert_eq!(board.particles[0].x, (-1.0f32).to_bits());
    assert_eq!(board.particles[0].velocity.x_component, 1.0f32.to_bits());

    // Outside but heading inside: velocity is kept, the field adds on top.
    board.apply_field_components(&vec![1.0f32.to_bits(); n], &vec![0u32; n]);
    board.update();
    assert_eq!(board.particles[0].velocity.x_component, 2.0f32.to_bits());
    assert_eq!(board.particles[0].x, 1.0f32.to_bits());
}

#[test]
fn heading_inside_is_judged_per_axis() {
    // Outside on x only, velocity pointing back on x: heading inside even
    // though the y axis is quietly in bounds.
    let p = Particle {
        x: (-1.0f32).to_bits(),
        y: 1.0f32.to_bits(),
        velocity: Force { x_component: 0.5f32.to_bits(), y_component: 0.0f32.to_bits() },
    };
    assert!(p.is_heading_inside(2, 2));
    assert!(!p.is_inside(2, 2));

    let q = Particle {
        x: (-1.0f32).to_bits(),
        y: 1.0f32.to_bits(),
        velocity: Force { x_component: (-0.5f32).to_bits(), y_component: 0.0f32.to_bits() },
    };
    assert!(!q.is_heading_inside(2, 2));
}

#[test]
fn cell_membership_can_be_edited_directly() {
    let mut cell = BoardCell::new(2, 1);
    assert_eq!(cell.x, 2);
    assert_eq!(cell.y, 1);
    assert_eq!(cell.static_field.x_component, 0);
    cell.add_particle(3);
    cell.add_particle(5);
    cell.remove_particle(3);
    assert_eq!(cell.particles, vec![5]);
}

#[test]
fn cells_are_addressable_by_coordinates() {
    let mut board = Board::new(4, 3);
    let f = Force { x_component: 7.5f32.to_bits(), y_component: (-0.5f32).to_bits() };
    board.get_cell_mut(3, 2).static_field = f;
    assert_eq!(board.get_cell(3, 2).static_field, f);
    // Row-major: (x, y) lives at x + y * width.
    assert_eq!(board.cells[3 + 2 * 4].static_field, f);
    assert_eq!(board.get_cell(0, 0).static_field.x_component, 0);
}

#[test]
fn full_steps_match_reference_trajectory() {
    // A particle well inside the grid follows the reference two-pass
    // integration bit for bit across several steps.
    let attractors = vec![(0u32, 0u32), (3, 3)];
    let mut board = Board::new(4, 4);
    board.generate_static_field(attractors.clone());
    board.add_particle(1, 2);

    let mut rx = 1.0f32;
    let mut ry = 2.0f32;
    let mut rvx = 0.0f32;
    let mut rvy = 0.0f32;
    for _ in 0..5 {
        board.update();

        // Reference velocity pass: the particle stays inside, so its
        // velocity is kept and the force of its rounded cell is added.
        let cx = (rx.round() as i64).clamp(0, 3) as u32;
        let cy = (ry.round() as i64).clamp(0, 3) as u32;
        let (fx, fy) = reference_field(cx, cy, &attractors);
        rvx += fx;
        rvy += fy;
        rx += rvx;
        ry += rvy;

        let p = &board.particles[0];
        assert_eq!(p.velocity.x_component, rvx.to_bits());
        assert_eq!(p.velocity.y_component, rvy.to_bits());
        assert_eq!(p.x, rx.to_bits());
        assert_eq!(p.y, ry.to_bits());
    }
}

#[test]
fn apply_field_assigns_each_cell_in_order() {
    let mut board = Board::new(2, 2);
    board.add_particle(0, 0);
    let field = vec![
        Force { x_component: 1.0f32.to_bits(), y_component: 0 },
        Force { x_component: 2.0f32.to_bits(), y_component: 0 },
        Force { x_component: 3.0f32.to_bits(), y_component: 0 },
        Force { x_component: 4.0f32.to_bits(), y_component: 0 },
    ];
    board.apply_field(&field);
    for i in 0..4 {
        assert_eq!(board.cells[i].static_field, field[i]);
    }
    // No particle side effects.
    assert_eq!(board.particles.len(), 1);
    assert_eq!(board.cells[0].particles, vec![0]);
}
