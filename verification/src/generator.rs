//! The grid: a dense row-major buffer of per-pixel iteration counts.

use vstd::prelude::*;

use crate::escape::{
    coord, coord_bits, escape_count, escape_iterations, lemma_escape_count_le_fuel,
};
use crate::float64::{F64_POS_ZERO, f64_sub, sub_bits};
use vstd::arithmetic::div_mod::{
    lemma_div_pos_is_pos, lemma_fundamental_div_mod, lemma_mod_bound,
};

verus! {

/// The buffer entry of pixel `(row i, column j)`: index `i * width + j`.
pub open spec fn grid_entry(data: Seq<u16>, width: u32, i: u32, j: u32) -> u16 {
    data[i as int * width as int + j as int]
}

/// What one call of `generate` leaves in a buffer: one entry per pixel,
/// and the entry of pixel `(i, j)` is the escape count of the plane point
/// that the viewport maps that pixel to.
pub open spec fn generated(
    data: Seq<u16>,
    width: u32,
    height: u32,
    x_min: u64,
    x_max: u64,
    y_min: u64,
    y_max: u64,
    max_iterations: u16,
) -> bool {
    &&& data.len() == width as nat * height as nat
    &&& forall|i: u32, j: u32|
        i < height && j < width ==> #[trigger] grid_entry(data, width, i, j) as nat
            == escape_count(
            coord_bits(x_min, sub_bits(x_max, x_min), j, width),
            coord_bits(y_min, sub_bits(y_max, y_min), i, height),
            max_iterations,
        )
}

/// Owns a `width * height` row-major buffer of escape-iteration counts.
/// The entry for pixel `(row i, column j)` sits at index `i * width + j`.
pub struct Generator {
    width: u32,
    height: u32,
    data: Vec<u16>,
}

impl Generator {
    /// The grid's width in pixels.
    pub closed spec fn spec_width(&self) -> u32 {
        self.width
    }

    /// The grid's height in pixels.
    pub closed spec fn spec_height(&self) -> u32 {
        self.height
    }

    /// The buffer's contents.
    pub closed spec fn spec_data(&self) -> Seq<u16> {
        self.data@
    }

    /// The grid invariant: the buffer holds exactly one entry per pixel.
    pub open spec fn wf(&self) -> bool {
        self.spec_data().len() == self.spec_width() as nat * self.spec_height() as nat
    }

    /// Builds a `width * height` grid whose buffer is zero-filled.
    pub fn new(width: u32, height: u32) -> (g: Generator)
        requires
            width as nat * height as nat <= usize::MAX as nat,
        ensures
            g.wf(),
            g.spec_width() == width,
            g.spec_height() == height,
            forall|k: int| 0 <= k < g.spec_data().len() ==> g.spec_data()[k] == 0u16,
    {
        let size: usize = (width as usize) * (height as usize);
        let mut data: Vec<u16> = Vec::new();
        while data.len() < size
            invariant
                data@.len() <= size,
                forall|k: int| 0 <= k < data@.len() ==> data@[k] == 0u16,
            decreases size - data@.len(),
        {
            data.push(0);
        }
        Generator { width, height, data }
    }

    /// Element count of the buffer: always `width * height`.
    pub fn data_len(&self) -> (n: usize)
        ensures
            n == self.spec_data().len(),
    {
        self.data.len()
    }

    /// Read-only view of the buffer, valid while the grid is alive and not
    /// mutated: the zero-copy handoff to the caller.
    pub fn data(&self) -> (r: &Vec<u16>)
        ensures
            r@ == self.spec_data(),
    {
        &self.data
    }

    /// Recomputes every buffer entry in place: pixel `(i, j)` is mapped to
    /// the plane point `(x_min + (x_max - x_min) * j / width,
    /// y_min + (y_max - y_min) * i / height)` in binary64 arithmetic, and
    /// its entry becomes that point's escape count, at most
    /// `max_iterations`.
    pub fn generate(
        &mut self,
        x_min: u64,
        x_max: u64,
        y_min: u64,
        y_max: u64,
        max_iterations: u16,
    )
        requires
            old(self).wf(),
        ensures
            final(self).wf(),
            final(self).spec_width() == old(self).spec_width(),
            final(self).spec_height() == old(self).spec_height(),
            generated(
                final(self).spec_data(),
                old(self).spec_width(),
                old(self).spec_height(),
                x_min,
                x_max,
                y_min,
                y_max,
                max_iterations,
            ),
            forall|k: int|
                0 <= k < final(self).spec_data().len() ==> final(self).spec_data()[k]
                    <= max_iterations,
    {
        let width: u32 = self.width;
        let height: u32 = self.height;
        proof {
            assert(width as nat * height as nat <= usize::MAX as nat) by {
                assert(self.data.len() == self.data@.len());
            }
        }
        let x_diff: u64 = f64_sub(x_max, x_min);
        let y_diff: u64 = f64_sub(y_max, y_min);
        let mut i: u32 = 0;
        while i < height
            invariant
                i <= height,
                self.width == width,
                self.height == height,
                self.wf(),
                width as nat * height as nat <= usize::MAX as nat,
                x_diff == sub_bits(x_max, x_min),
                y_diff == sub_bits(y_max, y_min),
                forall|r: u32, c: u32|
                    r < i && c < width ==> #[trigger] grid_entry(self.data@, width, r, c) as nat
                        == escape_count(
                        coord_bits(x_min, x_diff, c, width),
                        coord_bits(y_min, y_diff, r, height),
                        max_iterations,
                    ),
            decreases height - i,
        {
            let y0: u64 = coord(y_min, y_diff, i, height);
            let mut j: u32 = 0;
            while j < width
                invariant
                    i < height,
                    j <= width,
                    self.width == width,
                    self.height == height,
                    self.wf(),
                    width as nat * height as nat <= usize::MAX as nat,
                    x_diff == sub_bits(x_max, x_min),
                    y_diff == sub_bits(y_max, y_min),
                    y0 == coord_bits(y_min, y_diff, i, height),
                    forall|r: u32, c: u32|
                        r < i && c < width ==> #[trigger] grid_entry(
                            self.data@,
                            width,
                            r,
                            c,
                        ) as nat == escape_count(
                            coord_bits(x_min, x_diff, c, width),
                            coord_bits(y_min, y_diff, r, height),
                            max_iterations,
                        ),
                    forall|c: u32|
                        c < j ==> #[trigger] grid_entry(self.data@, width, i, c) as nat
                            == escape_count(
                            coord_bits(x_min, x_diff, c, width),
                            coord_bits(y_min, y_diff, i, height),
                            max_iterations,
                        ),
                decreases width - j,
            {
                let x0: u64 = coord(x_min, x_diff, j, width);
                let count: u16 = escape_iterations(x0, y0, max_iterations);
                proof {
                    assert((i as int) * (width as int) + (j as int) < (width as int) * (
                    height as int)) by (nonlinear_arith)
                        requires
                            i < height,
                            j < width,
                    ;
                }
                let index: usize = (i as usize) * (width as usize) + (j as usize);
                let ghost prev = self.data@;
                self.data.set(index, count);
                proof {
                    assert forall|r: u32, c: u32| r < i && c < width implies #[trigger] grid_entry(
                        self.data@,
                        width,
                        r,
                        c,
                    ) == grid_entry(prev, width, r, c) by {
                        lemma_row_major_below(width, r, c, i, j);
                    }
                    assert forall|c: u32| c < j implies #[trigger] grid_entry(
                        self.data@,
                        width,
                        i,
                        c,
                    ) == grid_entry(prev, width, i, c) by {
                        lemma_row_major_below(width, i, c, i, j);
                    }
                    assert(grid_entry(self.data@, width, i, j) == count);
                }
                j = j + 1;
            }
            i = i + 1;
        }
        proof {
            lemma_generated_entries_bounded(
                self.data@,
                width,
                height,
                x_min,
                x_max,
                y_min,
                y_max,
                max_iterations,
            );
        }
    }
}

/// Row-major indices are ordered with the pixels: a pixel on an earlier
/// row, or on the same row in an earlier column, has the smaller index.
proof fn lemma_row_major_below(width: u32, r: u32, c: u32, i: u32, j: u32)
    requires
        c < width,
        r < i || (r == i && c < j),
    ensures
        (r as int * width as int + c as int) < (i as int * width as int + j as int),
{
    if r < i {
        assert((r as int * width as int + c as int) < (i as int * width as int))
            by (nonlinear_arith)
            requires
                r < i,
                c < width,
        ;
    }
}

/// From `generated`, the entry at linear index `k` is the escape count of
/// pixel `(k / width, k % width)`'s plane point, and lies within the cap.
proof fn lemma_generated_entry(
    data: Seq<u16>,
    width: u32,
    height: u32,
    x_min: u64,
    x_max: u64,
    y_min: u64,
    y_max: u64,
    max_iterations: u16,
    k: int,
)
    requires
        generated(data, width, height, x_min, x_max, y_min, y_max, max_iterations),
        0 <= k < data.len(),
    ensures
        data[k] as nat == escape_count(
            coord_bits(x_min, sub_bits(x_max, x_min), (k % (width as int)) as u32, width),
            coord_bits(y_min, sub_bits(y_max, y_min), (k / (width as int)) as u32, height),
            max_iterations,
        ),
        data[k] <= max_iterations,
{
    assert(width > 0) by (nonlinear_arith)
        requires
            0 < (width as nat) * (height as nat),
    ;
    let w = width as int;
    lemma_fundamental_div_mod(k, w);
    lemma_mod_bound(k, w);
    lemma_div_pos_is_pos(k, w);
    let i = k / w;
    let j = k % w;
    assert(i < height as int) by (nonlinear_arith)
        requires
            k == w * i + j,
            0 <= j < w,
            0 <= i,
            k < (width as int) * (height as int),
            w == width as int,
    ;
    assert((i as u32) as int == i && (j as u32) as int == j);
    assert((i as u32) as int * (width as int) + (j as u32) as int == k);
    assert(grid_entry(data, width, i as u32, j as u32) == data[k]);
    lemma_escape_count_le_fuel(
        F64_POS_ZERO,
        F64_POS_ZERO,
        F64_POS_ZERO,
        F64_POS_ZERO,
        coord_bits(x_min, sub_bits(x_max, x_min), j as u32, width),
        coord_bits(y_min, sub_bits(y_max, y_min), i as u32, height),
        max_iterations as nat,
    );
}

/// Law: every generated entry lies within the iteration cap — the buffer
/// holds values in `[0, max_iterations]` only.
pub proof fn lemma_generated_entries_bounded(
    data: Seq<u16>,
    width: u32,
    height: u32,
    x_min: u64,
    x_max: u64,
    y_min: u64,
    y_max: u64,
    max_iterations: u16,
)
    requires
        generated(data, width, height, x_min, x_max, y_min, y_max, max_iterations),
    ensures
        forall|k: int| 0 <= k < data.len() ==> data[k] <= max_iterations,
{
    assert forall|k: int| 0 <= k < data.len() implies data[k] <= max_iterations by {
        lemma_generated_entry(data, width, height, x_min, x_max, y_min, y_max, max_iterations, k);
    }
}

/// Law: generation is deterministic. Two buffers that both hold the result
/// of generating with identical dimensions, viewport and cap are equal.
pub proof fn lemma_generate_deterministic(
    d1: Seq<u16>,
    d2: Seq<u16>,
    width: u32,
    height: u32,
    x_min: u64,
    x_max: u64,
    y_min: u64,
    y_max: u64,
    max_iterations: u16,
)
    requires
        generated(d1, width, height, x_min, x_max, y_min, y_max, max_iterations),
        generated(d2, width, height, x_min, x_max, y_min, y_max, max_iterations),
    ensures
        d1 == d2,
{
    assert forall|k: int| 0 <= k < d1.len() implies d1[k] == d2[k] by {
        lemma_generated_entry(d1, width, height, x_min, x_max, y_min, y_max, max_iterations, k);
        lemma_generated_entry(d2, width, height, x_min, x_max, y_min, y_max, max_iterations, k);
    }
    assert(d1 =~= d2);
}

/// Law: with a zero iteration cap the escape loop never runs, so
/// generation zero-fills the whole buffer.
pub proof fn lemma_zero_cap_all_zero(
    data: Seq<u16>,
    width: u32,
    height: u32,
    x_min: u64,
    x_max: u64,
    y_min: u64,
    y_max: u64,
)
    requires
        generated(data, width, height, x_min, x_max, y_min, y_max, 0u16),
    ensures
        forall|k: int| 0 <= k < data.len() ==> data[k] == 0u16,
{
    assert forall|k: int| 0 <= k < data.len() implies data[k] == 0u16 by {
        lemma_generated_entry(data, width, height, x_min, x_max, y_min, y_max, 0u16, k);
    }
}

} // verus!
