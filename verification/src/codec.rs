//! The field store: binary persistence of a computed field.
//!
//! A stored field is the ordered sequence of per-cell `(x, y)` component
//! pairs in row-major order, each component as four little-endian bytes of
//! its IEEE-754 binary32 pattern. The base format carries no header, magic or
//! version byte: a blob is a field for a `width x height` grid exactly when
//! it holds `width * height * 8` bytes. A load is a two-phase check — the
//! byte count decides structural validity here, and the caller then runs the
//! semantic NaN scan (`Board::is_field_corrupted`) on the loaded samples.

use vstd::prelude::*;
use crate::board::{Board, BoardCell};
use crate::force::Force;

verus! {

/// Why a stored field blob was rejected before any sample was taken.
#[derive(Clone, Copy, PartialEq, Eq, Structural, Debug)]
pub enum FieldError {
    /// Fewer bytes than the grid needs: the file was cut short.
    Truncated,
    /// More bytes than the grid needs: not a field for these dimensions.
    SizeMismatch,
}

/// The four little-endian bytes of a component's bit pattern.
pub open spec fn spec_le_bytes(b: u32) -> Seq<u8> {
    seq![
        (b & 0xff) as u8,
        ((b >> 8) & 0xff) as u8,
        ((b >> 16) & 0xff) as u8,
        ((b >> 24) & 0xff) as u8,
    ]
}

/// A component's bit pattern from its four little-endian bytes.
pub open spec fn spec_le_word(b0: u8, b1: u8, b2: u8, b3: u8) -> u32 {
    (b0 as u32) | ((b1 as u32) << 8) | ((b2 as u32) << 16) | ((b3 as u32) << 24)
}

/// The serialized field: each cell contributes its x component's bytes and
/// then its y component's bytes, in cell order.
pub open spec fn spec_field_bytes(cells: Seq<BoardCell>) -> Seq<u8>
    decreases cells.len(),
{
    if cells.len() == 0 {
        Seq::empty()
    } else {
        spec_field_bytes(cells.drop_last()) + spec_le_bytes(cells.last().static_field.x_component)
            + spec_le_bytes(cells.last().static_field.y_component)
    }
}

/// The force encoded at cell position `i` of a serialized field.
pub open spec fn spec_decoded_force(bytes: Seq<u8>, i: int) -> Force {
    Force {
        x_component: spec_le_word(bytes[8 * i], bytes[8 * i + 1], bytes[8 * i + 2], bytes[8 * i + 3]),
        y_component: spec_le_word(
            bytes[8 * i + 4],
            bytes[8 * i + 5],
            bytes[8 * i + 6],
            bytes[8 * i + 7],
        ),
    }
}

/// A serialized field holds eight bytes per cell.
pub proof fn lemma_field_bytes_len(cells: Seq<BoardCell>)
    ensures
        spec_field_bytes(cells).len() == 8 * cells.len(),
    decreases cells.len(),
{
    if cells.len() > 0 {
        lemma_field_bytes_len(cells.drop_last());
    }
}

/// Splitting a component into little-endian bytes and reassembling them gives
/// the component back.
proof fn lemma_le_word_of_bytes(b: u32)
    ensures
        spec_le_word(
            (b & 0xff) as u8,
            ((b >> 8) & 0xff) as u8,
            ((b >> 16) & 0xff) as u8,
            ((b >> 24) & 0xff) as u8,
        ) == b,
{
    assert((((b & 0xff) as u8) as u32) | (((((b >> 8) & 0xff) as u8) as u32) << 8) | (((((b >> 16)
        & 0xff) as u8) as u32) << 16) | (((((b >> 24) & 0xff) as u8) as u32) << 24) == b)
        by (bit_vector);
}

/// Round trip: decoding a serialized field at any cell position returns that
/// cell's force sample bit for bit, for any grid size.
pub proof fn lemma_field_round_trip(cells: Seq<BoardCell>, i: int)
    requires
        0 <= i < cells.len(),
    ensures
        spec_field_bytes(cells).len() == 8 * cells.len(),
        spec_decoded_force(spec_field_bytes(cells), i) == cells[i].static_field,
    decreases cells.len(),
{
    lemma_field_bytes_len(cells);
    let bytes = spec_field_bytes(cells);
    let prefix = spec_field_bytes(cells.drop_last());
    lemma_field_bytes_len(cells.drop_last());
    if i == cells.len() - 1 {
        let x = cells.last().static_field.x_component;
        let y = cells.last().static_field.y_component;
        lemma_le_word_of_bytes(x);
        lemma_le_word_of_bytes(y);
        assert(bytes == prefix + spec_le_bytes(x) + spec_le_bytes(y));
        assert(bytes[8 * i] == spec_le_bytes(x)[0]);
        assert(bytes[8 * i + 1] == spec_le_bytes(x)[1]);
        assert(bytes[8 * i + 2] == spec_le_bytes(x)[2]);
        assert(bytes[8 * i + 3] == spec_le_bytes(x)[3]);
        assert(bytes[8 * i + 4] == spec_le_bytes(y)[0]);
        assert(bytes[8 * i + 5] == spec_le_bytes(y)[1]);
        assert(bytes[8 * i + 6] == spec_le_bytes(y)[2]);
        assert(bytes[8 * i + 7] == spec_le_bytes(y)[3]);
    } else {
        lemma_field_round_trip(cells.drop_last(), i);
        assert(cells.drop_last()[i] == cells[i]);
        assert(bytes[8 * i] == prefix[8 * i]);
        assert(bytes[8 * i + 1] == prefix[8 * i + 1]);
        assert(bytes[8 * i + 2] == prefix[8 * i + 2]);
        assert(bytes[8 * i + 3] == prefix[8 * i + 3]);
        assert(bytes[8 * i + 4] == prefix[8 * i + 4]);
        assert(bytes[8 * i + 5] == prefix[8 * i + 5]);
        assert(bytes[8 * i + 6] == prefix[8 * i + 6]);
        assert(bytes[8 * i + 7] == prefix[8 * i + 7]);
    }
}

impl Board {
    /// Serializes the field: for each cell in row-major order, the x
    /// component's four little-endian bytes, then the y component's.
    pub fn save_field(&self) -> (r: Vec<u8>)
        ensures
            r@ == spec_field_bytes(self.cells@),
            r@.len() == self.cells@.len() * 8,
    {
        let n = self.cells.len();
        let mut bytes: Vec<u8> = Vec::new();
        let mut i: usize = 0;
        while i < n
            invariant
                n == self.cells@.len(),
                i <= n,
                bytes@ == spec_field_bytes(self.cells@.subrange(0, i as int)),
                bytes@.len() == 8 * i,
            decreases n - i,
        {
            let x = self.cells[i].static_field.x_component;
            let y = self.cells[i].static_field.y_component;
            bytes.push((x & 0xff) as u8);
            bytes.push(((x >> 8) & 0xff) as u8);
            bytes.push(((x >> 16) & 0xff) as u8);
            bytes.push(((x >> 24) & 0xff) as u8);
            bytes.push((y & 0xff) as u8);
            bytes.push(((y >> 8) & 0xff) as u8);
            bytes.push(((y >> 16) & 0xff) as u8);
            bytes.push(((y >> 24) & 0xff) as u8);
            proof {
                let prefix = self.cells@.subrange(0, i as int);
                let grown = self.cells@.subrange(0, i as int + 1);
                assert(grown.drop_last() =~= prefix);
                assert(grown.last() == self.cells@[i as int]);
                assert(bytes@ =~= spec_field_bytes(prefix) + spec_le_bytes(x) + spec_le_bytes(y));
            }
            i += 1;
        }
        proof {
            assert(self.cells@.subrange(0, n as int) =~= self.cells@);
            lemma_field_bytes_len(self.cells@);
        }
        bytes
    }

    /// Deserializes a field blob into the cells.
    ///
    /// The blob is structurally valid exactly when it holds `width * height`
    /// component pairs — eight bytes per cell. A short blob fails with
    /// `Truncated`, an oversized one with `SizeMismatch`, and in either case
    /// the board is left untouched. On success every cell's sample is
    /// replaced by the decoded pair; membership and particles never change.
    pub fn load_static_field(&mut self, bytes: &Vec<u8>) -> (r: Result<(), FieldError>)
        requires
            old(self).wf(),
            old(self).cells@.len() * 8 <= usize::MAX,
        ensures
            final(self).wf(),
            final(self).width == old(self).width,
            final(self).height == old(self).height,
            final(self).particles@ == old(self).particles@,
            final(self).cells@.len() == old(self).cells@.len(),
            forall|i: int|
                0 <= i < old(self).cells@.len() ==> {
                    let c = #[trigger] final(self).cells@[i];
                    &&& c.x == old(self).cells@[i].x
                    &&& c.y == old(self).cells@[i].y
                    &&& c.particles@ == old(self).cells@[i].particles@
                },
            r == Ok::<(), FieldError>(()) <==> bytes@.len() == old(self).cells@.len() * 8,
            bytes@.len() < old(self).cells@.len() * 8 <==> r == Err::<(), FieldError>(
                FieldError::Truncated,
            ),
            bytes@.len() > old(self).cells@.len() * 8 <==> r == Err::<(), FieldError>(
                FieldError::SizeMismatch,
            ),
            r is Err ==> final(self).cells@ == old(self).cells@,
            r is Ok ==> forall|i: int|
                0 <= i < old(self).cells@.len() ==> (#[trigger] final(self).cells@[i]).static_field
                    == spec_decoded_force(bytes@, i),
    {
        let n = self.cells.len();
        let expected = n * 8;
        if bytes.len() < expected {
            return Err(FieldError::Truncated);
        }
        if bytes.len() > expected {
            return Err(FieldError::SizeMismatch);
        }
        let mut i: usize = 0;
        while i < n
            invariant
                n == self.cells@.len(),
                i <= n,
                bytes@.len() == n * 8,
                self.width == old(self).width,
                self.height == old(self).height,
                self.particles@ == old(self).particles@,
                self.cells@.len() == old(self).cells@.len(),
                forall|k: int| i <= k < n ==> #[trigger] self.cells@[k] == old(self).cells@[k],
                forall|k: int|
                    0 <= k < i ==> {
                        let c = #[trigger] self.cells@[k];
                        &&& c.x == old(self).cells@[k].x
                        &&& c.y == old(self).cells@[k].y
                        &&& c.particles@ == old(self).cells@[k].particles@
                        &&& c.static_field == spec_decoded_force(bytes@, k)
                    },
            decreases n - i,
        {
            proof {
                assert(8 * (i as int) + 7 < bytes@.len()) by (nonlinear_arith)
                    requires
                        (i as int) < n as int,
                        bytes@.len() == (n as int) * 8,
                ;
                assert(bytes@.len() == bytes.len());
            }
            let base = 8 * i;
            let x = (bytes[base] as u32) | ((bytes[base + 1] as u32) << 8) | ((bytes[base
                + 2] as u32) << 16) | ((bytes[base + 3] as u32) << 24);
            let y = (bytes[base + 4] as u32) | ((bytes[base + 5] as u32) << 8) | ((bytes[base
                + 6] as u32) << 16) | ((bytes[base + 7] as u32) << 24);
            self.cells[i].static_field = Force { x_component: x, y_component: y };
            i += 1;
        }
        proof {
            Board::lemma_wf_preserved_same_positions(*old(self), *self);
        }
        Ok(())
    }
}

} // verus!
