use crate::geometry::{Coord, Size};
use vstd::prelude::*;

verus! {

/// A grid of cells, each with an opacity, supplied by the caller.
pub trait InputGrid {
    spec fn spec_size(&self) -> Size;

    /// The opacity of a cell; only meaningful for cells inside the grid.
    spec fn spec_opacity(&self, coord: Coord) -> u8;

    fn size(&self) -> (r: Size)
        ensures
            r == self.spec_size(),
    ;

    fn get_opacity(&self, coord: Coord) -> (r: u8)
        requires
            coord.spec_is_valid(self.spec_size()),
        ensures
            r == self.spec_opacity(coord),
    ;
}

/// A dense grid of opacities stored row by row.
pub struct OpacityGrid {
    size: Size,
    cells: Vec<u8>,
}

impl OpacityGrid {
    pub closed spec fn spec_cells(&self) -> Seq<u8> {
        self.cells@
    }

    pub closed spec fn spec_grid_size(&self) -> Size {
        self.size
    }

    /// The index of a cell in row-major order.
    pub open spec fn spec_index(size: Size, coord: Coord) -> int {
        coord.y * size.width + coord.x
    }

    pub closed spec fn wf(&self) -> bool {
        self.cells@.len() == self.size.width * self.size.height
    }

    /// A grid of the given size in which every cell has the given opacity.
    pub fn new_filled(size: Size, opacity: u8) -> (r: OpacityGrid)
        requires
            size.width * size.height <= usize::MAX,
        ensures
            r.wf(),
            r.spec_grid_size() == size,
            forall|i: int| 0 <= i < r.spec_cells().len() ==> r.spec_cells()[i] == opacity,
    {
        let n: usize = (size.width as usize) * (size.height as usize);
        let mut cells: Vec<u8> = Vec::with_capacity(n);
        let mut i: usize = 0;
        while i < n
            invariant
                i <= n,
                cells@.len() == i,
                forall|j: int| 0 <= j < i ==> cells@[j] == opacity,
            decreases n - i,
        {
            cells.push(opacity);
            i = i + 1;
        }
        OpacityGrid { size, cells }
    }

    /// Sets the opacity of a cell inside the grid.
    pub fn set(&mut self, coord: Coord, opacity: u8)
        requires
            old(self).wf(),
            coord.spec_is_valid(old(self).spec_grid_size()),
        ensures
            final(self).wf(),
            final(self).spec_grid_size() == old(self).spec_grid_size(),
            final(self).spec_cells() == old(self).spec_cells().update(
                Self::spec_index(old(self).spec_grid_size(), coord),
                opacity,
            ),
    {
        let i = self.index(coord);
        self.cells.set(i, opacity);
    }

    fn index(&self, coord: Coord) -> (r: usize)
        requires
            self.wf(),
            coord.spec_is_valid(self.size),
        ensures
            r == Self::spec_index(self.size, coord),
            r < self.cells@.len(),
    {
        let w = self.size.width as usize;
        let x = coord.x as usize;
        let y = coord.y as usize;
        let h = self.size.height as usize;
        assert(y * w + x < w * h && 0 <= y * w) by (nonlinear_arith)
            requires
                y < h,
                x < w,
                0 <= y,
                0 <= x,
        ;
        let n = self.cells.len();
        assert(w * h == n);
        let row = y * w;
        row + x
    }
}

impl InputGrid for OpacityGrid {
    open spec fn spec_size(&self) -> Size {
        self.spec_grid_size()
    }

    open spec fn spec_opacity(&self, coord: Coord) -> u8 {
        if self.wf() {
            self.spec_cells()[Self::spec_index(self.spec_grid_size(), coord)]
        } else {
            0
        }
    }

    fn size(&self) -> (r: Size) {
        self.size
    }

    fn get_opacity(&self, coord: Coord) -> (r: u8) {
        let w = self.size.width as u64;
        let h = self.size.height as u64;
        assert(w * h <= u64::MAX) by (nonlinear_arith)
            requires
                w <= u32::MAX,
                h <= u32::MAX,
        ;
        let n = w * h;
        if self.cells.len() as u64 == n {
            let i = self.index(coord);
            self.cells[i]
        } else {
            0
        }
    }
}

} // verus!
