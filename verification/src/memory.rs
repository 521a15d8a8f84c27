//! Raster memory: a bounds-checked two-dimensional grid of 24-bit words.
//!
//! Three instances back a run: the program grid (read-write, and the
//! instruction stream — the machine is self-modifying by design), an
//! optional read-only input grid, and an output grid materialised lazily.
//! Cells are stored in raster order: the cell at `(x, y)` has linear index
//! `y * width + x`.

use vstd::prelude::*;

use crate::error::Error;
use crate::word::word_wf;

verus! {

/// The mathematical value of a grid: its dimensions and its cells in raster
/// order.
#[verifier::ext_equal]
pub ghost struct GridModel {
    pub width: nat,
    pub height: nat,
    pub cells: Seq<u32>,
}

impl GridModel {
    /// A well-formed grid holds one 24-bit word per coordinate.
    pub open spec fn wf(self) -> bool {
        &&& self.cells.len() == self.width * self.height
        &&& forall|i: int| 0 <= i < self.cells.len() ==> word_wf(#[trigger] self.cells[i])
    }

    /// Whether the grid fits the machine's 4096-a-side address space.
    pub open spec fn within_limits(self) -> bool {
        self.width <= 4096 && self.height <= 4096
    }

    /// Whether `(x, y)` names a cell.
    pub open spec fn in_bounds(self, x: int, y: int) -> bool {
        0 <= x < self.width && 0 <= y < self.height
    }

    /// The linear raster index of `(x, y)`.
    pub open spec fn index_of(self, x: int, y: int) -> int {
        y * self.width + x
    }

    /// The word stored at `(x, y)`.
    pub open spec fn word_at(self, x: int, y: int) -> u32 {
        self.cells[self.index_of(x, y)]
    }

    /// The grid with the cell at `(x, y)` replaced by `w`.
    pub open spec fn with_word(self, x: int, y: int, w: u32) -> GridModel {
        GridModel { cells: self.cells.update(self.index_of(x, y), w), ..self }
    }

    /// A zero-filled grid of the given dimensions.
    pub open spec fn zeroed(width: nat, height: nat) -> GridModel {
        GridModel { width, height, cells: Seq::new(width * height, |i: int| 0u32) }
    }

    /// The raster index of an in-bounds coordinate names a cell.
    pub proof fn lemma_index_of(self, x: int, y: int)
        requires
            self.wf(),
            self.in_bounds(x, y),
        ensures
            0 <= self.index_of(x, y) < self.cells.len(),
    {
        assert(y * self.width + x < self.width * self.height) by (nonlinear_arith)
            requires
                0 <= x < self.width,
                0 <= y < self.height,
        ;
    }
}

/// A width×height grid of 24-bit words, stored in raster order.
pub struct RasterMemory {
    width: u32,
    height: u32,
    cells: Vec<u32>,
}

impl View for RasterMemory {
    type V = GridModel;

    closed spec fn view(&self) -> GridModel {
        GridModel { width: self.width as nat, height: self.height as nat, cells: self.cells@ }
    }
}

impl RasterMemory {
    /// A well-formed memory matches its model's invariant.
    pub open spec fn wf(self) -> bool {
        self@.wf()
    }

    /// Builds a grid from raw cells, checking that the cell count matches
    /// the dimensions and that every cell is a 24-bit word. The checked
    /// boundary for callers holding arbitrary data.
    pub fn new(width: u32, height: u32, cells: Vec<u32>) -> (r: Option<RasterMemory>)
        ensures
            match r {
                Some(m) => {
                    &&& m.wf()
                    &&& m@ == (GridModel {
                        width: width as nat,
                        height: height as nat,
                        cells: cells@,
                    })
                },
                None => !(GridModel {
                    width: width as nat,
                    height: height as nat,
                    cells: cells@,
                }).wf(),
            },
    {
        proof {
            assert(width as int * height as int <= 0xffff_ffff * 0xffff_ffff) by (nonlinear_arith)
                requires
                    width < 0x1_0000_0000,
                    height < 0x1_0000_0000,
            ;
        }
        if width as u64 * height as u64 != cells.len() as u64 {
            return None;
        }
        let mut i: usize = 0;
        while i < cells.len()
            invariant
                i <= cells@.len(),
                forall|j: int| 0 <= j < i ==> word_wf(#[trigger] cells@[j]),
            decreases cells@.len() - i,
        {
            if cells[i] >= crate::word::WORD_LIMIT {
                return None;
            }
            i += 1;
        }
        Some(RasterMemory { width, height, cells })
    }

    /// Builds a grid from cells already known to match the dimensions:
    /// the constructor verified callers use.
    pub fn from_words(width: u32, height: u32, cells: Vec<u32>) -> (r: RasterMemory)
        requires
            cells@.len() == width as int * height as int,
            forall|i: int| 0 <= i < cells@.len() ==> word_wf(#[trigger] cells@[i]),
        ensures
            r.wf(),
            r@ == (GridModel { width: width as nat, height: height as nat, cells: cells@ }),
    {
        RasterMemory { width, height, cells }
    }

    /// Builds a zero-filled grid of the given dimensions.
    pub fn zeroed(width: u32, height: u32) -> (r: RasterMemory)
        requires
            width as int * height as int <= usize::MAX,
        ensures
            r.wf(),
            r@ == GridModel::zeroed(width as nat, height as nat),
    {
        let n: usize = (width as u64 * height as u64) as usize;
        let mut cells: Vec<u32> = Vec::new();
        let mut i: usize = 0;
        while i < n
            invariant
                i <= n,
                cells@.len() == i,
                forall|j: int| 0 <= j < i ==> #[trigger] cells@[j] == 0u32,
            decreases n - i,
        {
            cells.push(0);
            i += 1;
        }
        let r = RasterMemory { width, height, cells };
        proof {
            assert(r@ =~= GridModel::zeroed(width as nat, height as nat));
        }
        r
    }

    /// The grid's width in cells.
    pub fn width(&self) -> (r: u32)
        ensures
            r as nat == self@.width,
    {
        self.width
    }

    /// The grid's height in cells.
    pub fn height(&self) -> (r: u32)
        ensures
            r as nat == self@.height,
    {
        self.height
    }

    /// The word at `(x, y)`, or `AddressOutOfBounds` past either dimension.
    pub fn get(&self, x: u32, y: u32) -> (r: Result<u32, Error>)
        requires
            self.wf(),
        ensures
            self@.in_bounds(x as int, y as int) ==> r == Ok::<u32, Error>(
                self@.word_at(x as int, y as int),
            ),
            !self@.in_bounds(x as int, y as int) ==> r == Err::<u32, Error>(
                Error::AddressOutOfBounds,
            ),
            r is Ok ==> word_wf(r->Ok_0),
    {
        match self.get_checked(x, y) {
            Some(w) => Ok(w),
            None => Err(Error::AddressOutOfBounds),
        }
    }

    /// The word at `(x, y)`, or `None` past either dimension: the
    /// non-failing probe the fetch uses to detect the end of the stream.
    pub fn get_checked(&self, x: u32, y: u32) -> (r: Option<u32>)
        requires
            self.wf(),
        ensures
            self@.in_bounds(x as int, y as int) ==> r == Some(self@.word_at(x as int, y as int)),
            !self@.in_bounds(x as int, y as int) ==> r is None,
            r is Some ==> word_wf(r->Some_0),
    {
        if x < self.width && y < self.height {
            proof {
                self@.lemma_index_of(x as int, y as int);
            }
            let n = self.cells.len();
            let idx: usize = y as usize * self.width as usize + x as usize;
            Some(self.cells[idx])
        } else {
            None
        }
    }

    /// Stores `w` at `(x, y)`, or fails with `AddressOutOfBounds` past
    /// either dimension, leaving the grid unchanged.
    pub fn set(&mut self, x: u32, y: u32, w: u32) -> (r: Result<(), Error>)
        requires
            old(self).wf(),
            word_wf(w),
        ensures
            final(self).wf(),
            old(self)@.in_bounds(x as int, y as int) ==> r == Ok::<(), Error>(()) && final(self)@ == old(
                self,
            )@.with_word(x as int, y as int, w),
            !old(self)@.in_bounds(x as int, y as int) ==> r == Err::<(), Error>(
                Error::AddressOutOfBounds,
            ) && final(self)@ == old(self)@,
    {
        if x < self.width && y < self.height {
            proof {
                self@.lemma_index_of(x as int, y as int);
            }
            let n = self.cells.len();
            let idx: usize = y as usize * self.width as usize + x as usize;
            self.cells.set(idx, w);
            proof {
                assert(self@ =~= old(self)@.with_word(x as int, y as int, w));
            }
            Ok(())
        } else {
            Err(Error::AddressOutOfBounds)
        }
    }

    /// The word at linear raster index `i`.
    pub fn word_at_index(&self, i: usize) -> (r: u32)
        requires
            self.wf(),
            i < self@.cells.len(),
        ensures
            r == self@.cells[i as int],
            word_wf(r),
    {
        self.cells[i]
    }

    /// Stores `w` at linear raster index `i`.
    pub fn set_index(&mut self, i: usize, w: u32)
        requires
            old(self).wf(),
            i < old(self)@.cells.len(),
            word_wf(w),
        ensures
            final(self).wf(),
            final(self)@ == (GridModel { cells: old(self)@.cells.update(i as int, w), ..old(self)@ }),
    {
        self.cells.set(i, w);
        proof {
            assert(self@ =~= (GridModel {
                cells: old(self)@.cells.update(i as int, w),
                ..old(self)@
            }));
        }
    }
}

} // verus!
