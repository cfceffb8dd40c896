//! The "ensure field" state machine: reuse a stored field when it is whole,
//! regenerate it otherwise.
//!
//! Per frame: a stored blob, when present, is loaded and checked in two
//! phases — structurally (exact byte count) and semantically (no NaN
//! component). A blob that fails either check is discarded and the field is
//! regenerated; every regeneration starts from cleared samples, so both
//! terminal outcomes leave the cells holding exactly the frame's field —
//! loaded or computed from its attractors alone — and callers treat them
//! identically except for bookkeeping.

use vstd::prelude::*;
use crate::board::{Board, spec_field_sum};
use crate::codec::{spec_decoded_force, FieldError};
use crate::engine::MAX_COORD;
use crate::force::Force;
use crate::scalar::is_nan_bits;

verus! {

/// How the board came to hold its field.
#[derive(Clone, Copy, PartialEq, Eq, Structural, Debug)]
pub enum FieldLoadOutcome {
    /// The static attraction field was just generated.
    FieldGenerated,
    /// An existing static attraction field was loaded.
    FieldLoaded,
}

/// The blob is a whole field for `ncells` cells: the exact byte count, and no
/// decoded component is a NaN.
pub open spec fn spec_blob_valid(bytes: Seq<u8>, ncells: int) -> bool {
    &&& bytes.len() == ncells * 8
    &&& forall|i: int|
        0 <= i < ncells ==> !is_nan_bits((#[trigger] spec_decoded_force(bytes, i)).x_component)
            && !is_nan_bits(spec_decoded_force(bytes, i).y_component)
}

/// Loads a stored field if one is present and whole.
///
/// Returns `true` exactly when the blob exists and is structurally and
/// semantically valid; the samples then hold the decoded field. On `false`
/// the board is cleared, ready for regeneration from a zero base.
pub fn try_load_field(board: &mut Board, stored: Option<&Vec<u8>>) -> (r: bool)
    requires
        old(board).wf(),
        old(board).cells@.len() * 8 <= usize::MAX,
    ensures
        final(board).wf(),
        final(board).width == old(board).width,
        final(board).height == old(board).height,
        final(board).particles@ == old(board).particles@,
        final(board).cells@.len() == old(board).cells@.len(),
        forall|i: int|
            0 <= i < old(board).cells@.len() ==> {
                let c = #[trigger] final(board).cells@[i];
                &&& c.x == old(board).cells@[i].x
                &&& c.y == old(board).cells@[i].y
                &&& c.particles@ == old(board).cells@[i].particles@
            },
        r <==> (stored matches Some(bytes) && spec_blob_valid(bytes@, old(board).cells@.len() as int)),
        r ==> (forall|i: int|
            0 <= i < old(board).cells@.len() ==> (#[trigger] final(board).cells@[i]).static_field
                == spec_decoded_force(stored->Some_0@, i)),
        !r ==> (forall|i: int|
            0 <= i < old(board).cells@.len() ==> (#[trigger] final(board).cells@[i]).static_field
                == Force::spec_zero()),
    {
        let ghost n = old(board).cells@.len() as int;
        match stored {
            None => {
                board.clear_static_field();
                false
            },
            Some(bytes) => {
                match board.load_static_field(bytes) {
                    Err(_) => {
                        proof {
                            assert(bytes@.len() != n * 8);
                            assert(!spec_blob_valid(bytes@, n));
                        }
                        board.clear_static_field();
                        false
                    },
                    Ok(()) => {
                        if board.is_field_corrupted() {
                            proof {
                                let i = choose|i: int|
                                    0 <= i < board.cells@.len() && (is_nan_bits(
                                        board.cells@[i].static_field.x_component,
                                    ) || is_nan_bits(board.cells@[i].static_field.y_component));
                                assert(board.cells@[i].static_field == spec_decoded_force(
                                    bytes@,
                                    i,
                                ));
                                assert(!spec_blob_valid(bytes@, n));
                            }
                            board.clear_static_field();
                            false
                        } else {
                            proof {
                                assert forall|i: int| 0 <= i < n implies !is_nan_bits(
                                    (#[trigger] spec_decoded_force(bytes@, i)).x_component,
                                ) && !is_nan_bits(spec_decoded_force(bytes@, i).y_component) by {
                                    assert(board.cells@[i].static_field == spec_decoded_force(
                                        bytes@,
                                        i,
                                    ));
                                }
                                assert(spec_blob_valid(bytes@, n));
                            }
                            true
                        }
                    },
                }
            },
        }
    }

/// Ensures the board holds the frame's field: reuses the stored blob when it
/// is whole, and otherwise clears the samples and computes the field from
/// the frame's attractors alone, so neither a discarded blob nor a previous
/// frame's field leaks into the regenerated one.
///
/// Returns `FieldLoaded` exactly when the stored blob was reused.
pub fn update_static_field(
    board: &mut Board,
    stored: Option<&Vec<u8>>,
    attractors: Vec<(u32, u32)>,
) -> (r: FieldLoadOutcome)
    requires
        old(board).wf(),
        old(board).cells@.len() * 8 <= usize::MAX,
        old(board).width <= MAX_COORD as u32 + 1,
        old(board).height <= MAX_COORD as u32 + 1,
        forall|a: int|
            0 <= a < attractors@.len() ==> (#[trigger] attractors@[a]).0 <= MAX_COORD
                && attractors@[a].1 <= MAX_COORD,
    ensures
        final(board).wf(),
        final(board).width == old(board).width,
        final(board).height == old(board).height,
        final(board).particles@ == old(board).particles@,
        final(board).cells@.len() == old(board).cells@.len(),
        forall|i: int|
            0 <= i < old(board).cells@.len() ==> {
                let c = #[trigger] final(board).cells@[i];
                &&& c.x == old(board).cells@[i].x
                &&& c.y == old(board).cells@[i].y
                &&& c.particles@ == old(board).cells@[i].particles@
            },
        r == FieldLoadOutcome::FieldLoaded <==> (stored matches Some(bytes) && spec_blob_valid(
            bytes@,
            old(board).cells@.len() as int,
        )),
        r == FieldLoadOutcome::FieldLoaded ==> (forall|i: int|
            0 <= i < old(board).cells@.len() ==> (#[trigger] final(board).cells@[i]).static_field
                == spec_decoded_force(stored->Some_0@, i)),
        r == FieldLoadOutcome::FieldGenerated ==> (forall|i: int|
            0 <= i < old(board).cells@.len() ==> (#[trigger] final(board).cells@[i]).static_field
                == spec_field_sum(
                Force::spec_zero(),
                old(board).cells@[i].x,
                old(board).cells@[i].y,
                attractors@,
            )),
    {
        if try_load_field(board, stored) {
            FieldLoadOutcome::FieldLoaded
        } else {
            board.generate_static_field(attractors);
            FieldLoadOutcome::FieldGenerated
        }
    }

/// Builds a board with the dimensions of a decoded frame and ensures it holds
/// that frame's field: the stored blob when it is whole, a freshly computed
/// field otherwise.
pub fn generate_board(
    width: u32,
    height: u32,
    stored: Option<&Vec<u8>>,
    attractors: Vec<(u32, u32)>,
) -> (r: (Board, FieldLoadOutcome))
    requires
        1 <= width,
        1 <= height,
        width <= MAX_COORD as u32 + 1,
        height <= MAX_COORD as u32 + 1,
        width * height * 8 <= usize::MAX,
        forall|a: int|
            0 <= a < attractors@.len() ==> (#[trigger] attractors@[a]).0 <= MAX_COORD
                && attractors@[a].1 <= MAX_COORD,
    ensures
        r.0.wf(),
        r.0.width == width,
        r.0.height == height,
        r.0.particles@ == Seq::<crate::particle::Particle>::empty(),
        r.0.cells@.len() == width * height,
        r.1 == FieldLoadOutcome::FieldLoaded <==> (stored matches Some(bytes) && spec_blob_valid(
            bytes@,
            (width * height) as int,
        )),
        r.1 == FieldLoadOutcome::FieldLoaded ==> (forall|i: int|
            0 <= i < r.0.cells@.len() ==> (#[trigger] r.0.cells@[i]).static_field
                == spec_decoded_force(stored->Some_0@, i)),
        r.1 == FieldLoadOutcome::FieldGenerated ==> (forall|i: int|
            0 <= i < r.0.cells@.len() ==> (#[trigger] r.0.cells@[i]).static_field == spec_field_sum(
                Force::spec_zero(),
                r.0.cells@[i].x,
                r.0.cells@[i].y,
                attractors@,
            )),
    {
        proof {
            assert(width * height <= usize::MAX) by (nonlinear_arith)
                requires
                    (width as int) * (height as int) * 8 <= usize::MAX as int,
                    1 <= width as int,
                    1 <= height as int,
            ;
        }
        let mut board = Board::new(width, height);
        proof {
            assert(board.cells@.len() * 8 <= usize::MAX);
        }
        let outcome = update_static_field(&mut board, stored, attractors);
        (board, outcome)
    }

} // verus!
