//! Persistence, extraction, scheduling and naming checks: the binary field
//! codec and its two-phase corruption handling, the attractor filter, the
//! frame scheduler's claim discipline, and the sequence renderer.

use particle_field::attractors::{filter_white, get_attractors};
use particle_field::board::Board;
use particle_field::codec::FieldError;
use particle_field::ensure::{generate_board, update_static_field, FieldLoadOutcome};
use particle_field::scheduler::FrameScheduler;
use particle_field::sequence::Sequence;

fn board_with_field(width: u32, height: u32, attractors: Vec<(u32, u32)>) -> Board {
    let mut board = Board::new(width, height);
    board.generate_static_field(attractors);
    board
}

#[test]
fn save_uses_little_endian_row_major_pairs() {
    let mut board = Board::new(1, 1);
    board.apply_field_components(&vec![1.0f32.to_bits()], &vec![(-2.5f32).to_bits()]);
    let bytes = board.save_field();
    let mut expected = 1.0f32.to_le_bytes().to_vec();
    expected.extend_from_slice(&(-2.5f32).to_le_bytes());
    assert_eq!(bytes, expected);
}

#[test]
fn round_trip_reproduces_field_bit_for_bit() {
    for (w, h) in [(1u32, 1u32), (3, 2), (5, 5)] {
        let board = board_with_field(w, h, vec![(0, 0), (w - 1, h - 1)]);
        let bytes = board.save_field();
        assert_eq!(bytes.len(), (w * h * 8) as usize);
        let mut reloaded = Board::new(w, h);
        assert_eq!(reloaded.load_static_field(&bytes), Ok(()));
        for i in 0..board.cells.len() {
            assert_eq!(
                reloaded.cells[i].static_field.x_component,
                board.cells[i].static_field.x_component
            );
            assert_eq!(
                reloaded.cells[i].static_field.y_component,
                board.cells[i].static_field.y_component
            );
        }
    }
}

#[test]
fn truncated_blob_fails_with_truncation_error() {
    let board = board_with_field(3, 3, vec![(1, 1)]);
    let mut bytes = board.save_field();
    bytes.pop();
    let mut target = Board::new(3, 3);
    assert_eq!(target.load_static_field(&bytes), Err(FieldError::Truncated));
    // The failed load leaves the board untouched.
    for cell in &target.cells {
        assert_eq!(cell.static_field.x_component, 0);
        assert_eq!(cell.static_field.y_component, 0);
    }
}

#[test]
fn oversized_blob_fails_with_size_mismatch() {
    let board = board_with_field(2, 2, vec![(0, 1)]);
    let mut bytes = board.save_field();
    bytes.push(0);
    let mut target = Board::new(2, 2);
    assert_eq!(target.load_static_field(&bytes), Err(FieldError::SizeMismatch));
}

#[test]
fn whole_stored_field_is_reused() {
    let board = board_with_field(4, 3, vec![(1, 2), (3, 0)]);
    let bytes = board.save_field();
    let (loaded, outcome) = generate_board(4, 3, Some(&bytes), vec![(1, 2), (3, 0)]);
    assert_eq!(outcome, FieldLoadOutcome::FieldLoaded);
    for i in 0..board.cells.len() {
        assert_eq!(
            loaded.cells[i].static_field.x_component,
            board.cells[i].static_field.x_component
        );
        assert_eq!(
            loaded.cells[i].static_field.y_component,
            board.cells[i].static_field.y_component
        );
    }
}

#[test]
fn absent_field_is_generated() {
    let (board, outcome) = generate_board(3, 3, None, vec![(1, 1)]);
    assert_eq!(outcome, FieldLoadOutcome::FieldGenerated);
    let reference = board_with_field(3, 3, vec![(1, 1)]);
    for i in 0..board.cells.len() {
        assert_eq!(
            board.cells[i].static_field.x_component,
            reference.cells[i].static_field.x_component
        );
    }
}

#[test]
fn nan_component_triggers_regeneration() {
    let clean = board_with_field(3, 3, vec![(0, 2)]);
    let mut bytes = clean.save_field();
    // Force one component to a NaN pattern: structurally the blob stays
    // valid, semantically it is corrupt.
    let nan = f32::NAN.to_bits().to_le_bytes();
    bytes[8..12].copy_from_slice(&nan);

    let mut board = Board::new(3, 3);
    assert!(board.load_static_field(&bytes).is_ok());
    assert!(board.is_field_corrupted());

    let mut board = Board::new(3, 3);
    let outcome = update_static_field(&mut board, Some(&bytes), vec![(0, 2)]);
    assert_eq!(outcome, FieldLoadOutcome::FieldGenerated);
    assert!(!board.is_field_corrupted());
    for i in 0..board.cells.len() {
        assert_eq!(
            board.cells[i].static_field.x_component,
            clean.cells[i].static_field.x_component
        );
        assert_eq!(
            board.cells[i].static_field.y_component,
            clean.cells[i].static_field.y_component
        );
    }
}

#[test]
fn truncated_stored_field_is_regenerated() {
    let clean = board_with_field(2, 3, vec![(1, 1)]);
    let mut bytes = clean.save_field();
    bytes.pop();
    let mut board = Board::new(2, 3);
    let outcome = update_static_field(&mut board, Some(&bytes), vec![(1, 1)]);
    assert_eq!(outcome, FieldLoadOutcome::FieldGenerated);
    assert_eq!(
        board.cells[0].static_field.x_component,
        clean.cells[0].static_field.x_component
    );
}

#[test]
fn filter_white_requires_every_channel_bright() {
    assert!(filter_white([128, 128, 128, 128]));
    assert!(filter_white([255, 255, 255, 255]));
    assert!(!filter_white([127, 255, 255, 255]));
    assert!(!filter_white([255, 255, 255, 0]));
}

#[test]
fn attractors_are_bright_pixels_in_row_major_order() {
    // A 3x2 frame with bright pixels at (1, 0) and (2, 1).
    let mut rgba = vec![0u8; 3 * 2 * 4];
    for (x, y) in [(1u32, 0u32), (2, 1)] {
        let base = ((y * 3 + x) * 4) as usize;
        rgba[base..base + 4].copy_from_slice(&[200, 200, 200, 255]);
    }
    let attractors = get_attractors(3, 2, &rgba);
    assert_eq!(attractors, vec![(1, 0), (2, 1)]);
}

#[test]
fn scheduler_claims_each_index_exactly_once() {
    // Seven frames over three workers, interleaved pseudo-randomly: the union
    // of claimed indices is exactly {0, .., 6} with no duplicates.
    let mut scheduler = FrameScheduler::new(7);
    let mut claims_by_worker: Vec<Vec<usize>> = vec![Vec::new(), Vec::new(), Vec::new()];
    let mut active = [true; 3];
    let mut seed: u64 = 0x9e3779b97f4a7c15;
    while active.iter().any(|&a| a) {
        seed = seed.wrapping_mul(6364136223846793005).wrapping_add(1442695040888963407);
        let w = (seed >> 33) as usize % 3;
        if !active[w] {
            continue;
        }
        match scheduler.claim() {
            Some(k) => claims_by_worker[w].push(k),
            None => active[w] = false,
        }
    }
    let mut all: Vec<usize> = claims_by_worker.concat();
    all.sort();
    assert_eq!(all, vec![0, 1, 2, 3, 4, 5, 6]);
}

#[test]
fn scheduler_with_no_work_hands_out_nothing() {
    let mut scheduler = FrameScheduler::new(0);
    assert_eq!(scheduler.claim(), None);
    assert_eq!(scheduler.claim(), None);
}

#[test]
fn sequence_renders_padded_names() {
    let prefix = String::from("frame_");
    let suffix = String::from(".png");
    let mut seq = Sequence::new(&prefix, &suffix, 1, 99, true);
    assert_eq!(seq.next(), Some(String::from("frame_01.png")));
    assert_eq!(seq.next(), Some(String::from("frame_02.png")));
    seq.restart();
    assert_eq!(seq.next(), Some(String::from("frame_01.png")));
}

#[test]
fn sequence_without_padding_and_termination() {
    let prefix = String::from("f");
    let suffix = String::from("");
    let mut seq = Sequence::new(&prefix, &suffix, 8, 10, false);
    assert_eq!(seq.next(), Some(String::from("f8")));
    assert_eq!(seq.next(), Some(String::from("f9")));
    assert_eq!(seq.next(), Some(String::from("f10")));
    assert_eq!(seq.next(), None);
    assert_eq!(seq.next(), None);
}

#[test]
fn sequence_pads_to_width_of_largest_value() {
    let prefix = String::from("");
    let suffix = String::from("");
    let mut seq = Sequence::new(&prefix, &suffix, 0, 1000, true);
    assert_eq!(seq.next(), Some(String::from("0000")));
    assert_eq!(seq.next(), Some(String::from("0001")));
}

#[test]
fn field_colors_follow_sign_quadrants() {
    let mut board = Board::new(5, 1);
    let xs = vec![
        0.0f32.to_bits(),
        1.0f32.to_bits(),
        (-1.0f32).to_bits(),
        (-1.0f32).to_bits(),
        f32::NAN.to_bits(),
    ];
    let ys = vec![
        0.0f32.to_bits(),
        2.0f32.to_bits(),
        2.0f32.to_bits(),
        (-2.0f32).to_bits(),
        1.0f32.to_bits(),
    ];
    board.apply_field_components(&xs, &ys);
    let mut pixels = vec![0u8; 5 * 4];
    board.draw_static_field(&mut pixels);
    // Zero field: black. (+, +): red. (-, +): green. (-, -): blue. A NaN
    // component falls through every sign test: white.
    assert_eq!(&pixels[0..4], &[0, 0, 0, 0xff]);
    assert_eq!(&pixels[4..8], &[0xff, 0, 0, 0xff]);
    assert_eq!(&pixels[8..12], &[0, 0xff, 0, 0xff]);
    assert_eq!(&pixels[12..16], &[0, 0, 0xff, 0xff]);
    assert_eq!(&pixels[16..20], &[0xff, 0xff, 0xff, 0xff]);
}

#[test]
fn particle_rendering_marks_occupied_cells() {
    let mut board = Board::new(2, 2);
    board.add_particle(1, 0);
    let mut pixels = vec![0u8; 4 * 4];
    board.draw_particles(&mut pixels);
    assert_eq!(&pixels[0..4], &[0, 0, 0, 0xff]);
    assert_eq!(&pixels[4..8], &[0xff, 0xff, 0xff, 0xff]);
    assert_eq!(&pixels[8..12], &[0, 0, 0, 0xff]);
    assert_eq!(&pixels[12..16], &[0, 0, 0, 0xff]);
}

#[test]
fn random_particles_start_within_bounds_with_zero_velocity() {
    let mut board = Board::new(6, 4);
    board.random_particles(30);
    assert_eq!(board.particles.len(), 30);
    for p in &board.particles {
        let x = f32::from_bits(p.x);
        let y = f32::from_bits(p.y);
        assert_eq!(x.fract(), 0.0);
        assert_eq!(y.fract(), 0.0);
        assert!(x >= 0.0 && x < 6.0);
        assert!(y >= 0.0 && y < 4.0);
        assert_eq!(p.velocity.x_component, 0);
        assert_eq!(p.velocity.y_component, 0);
    }
}

#[test]
fn regeneration_replaces_a_stale_field() {
    // A board already holding one frame's field regenerates the next frame's
    // field from that frame's attractors alone: nothing of the old field
    // leaks into the regenerated samples.
    let reference = board_with_field(3, 3, vec![(2, 2)]);

    // Absent blob.
    let mut board = Board::new(3, 3);
    board.generate_static_field(vec![(0, 0)]);
    let outcome = update_static_field(&mut board, None, vec![(2, 2)]);
    assert_eq!(outcome, FieldLoadOutcome::FieldGenerated);
    for i in 0..board.cells.len() {
        assert_eq!(board.cells[i].static_field, reference.cells[i].static_field);
    }

    // Wrong-sized blob.
    let mut board = Board::new(3, 3);
    board.generate_static_field(vec![(0, 0)]);
    let mut bytes = board.save_field();
    bytes.pop();
    let outcome = update_static_field(&mut board, Some(&bytes), vec![(2, 2)]);
    assert_eq!(outcome, FieldLoadOutcome::FieldGenerated);
    for i in 0..board.cells.len() {
        assert_eq!(board.cells[i].static_field, reference.cells[i].static_field);
    }
}
