use vstd::prelude::*;

use crate::hex_coords::AxialCoord;

verus! {

/// A grid of hex tiles stored row by row, `width` cells to a row: the cell
/// at index `i` is the axial cell `(i % width, i / width)`. Each cell holds
/// what was placed on it, if anything.
pub struct HexGrid<T> {
    pub width: u16,
    pub cells: Vec<Option<T>>,
    pub sprite: String,
}

impl<T> HexGrid<T> {
    /// An empty grid of `width * height` cells, drawn with the default tile
    /// sprite.
    pub fn from_size(width: u16, height: u16) -> (grid: HexGrid<T>)
        requires
            width * height <= u16::MAX,
        ensures
            grid.width == width,
            grid.cells@.len() == width * height,
            forall|i: int| 0 <= i < grid.cells@.len() ==> grid.cells@[i].is_none(),
            grid.sprite@ == "cells/debug_w128.png"@,
    {
        let cell_count = (width * height) as usize;
        let mut cells: Vec<Option<T>> = Vec::new();
        let mut n: usize = 0;
        while n < cell_count
            invariant
                n <= cell_count,
                cells@.len() == n,
                forall|i: int| 0 <= i < cells@.len() ==> cells@[i].is_none(),
            decreases cell_count - n,
        {
            cells.push(None);
            n = n + 1;
        }
        let grid = HexGrid::<T>::default();
        HexGrid { width, cells, sprite: grid.sprite }
    }

    /// The axial cell stored at index `i`.
    pub fn axial_of_index(&self, i: usize) -> (axial: AxialCoord)
        requires
            self.width > 0,
            i <= i32::MAX,
        ensures
            axial.q == (i as int) % (self.width as int),
            axial.r == (i as int) / (self.width as int),
    {
        let w = self.width as usize;
        let q = i % w;
        let r = i / w;
        AxialCoord { q: q as i32, r: r as i32 }
    }

    /// The index at which the axial cell `(q, r)` is stored, `r * width + q`,
    /// if the grid holds a cell there.
    pub fn index_of_axial(&self, axial: AxialCoord) -> (index: Option<usize>)
        ensures
            ({
                let i = axial.r * self.width + axial.q;
                &&& 0 <= i < self.cells@.len() ==> index == Some(i as usize)
                &&& !(0 <= i < self.cells@.len()) ==> index.is_none()
            }),
    {
        let (r, w, q) = (axial.r as i64, self.width as i64, axial.q as i64);
        assert(-0x1000000000000 < r * w < 0x1000000000000) by (nonlinear_arith)
            requires
                i32::MIN <= r <= i32::MAX,
                0 <= w <= u16::MAX,
        ;
        let i = r * w + q;
        if i < 0 || i as u64 >= self.cells.len() as u64 {
            None
        } else {
            Some(i as usize)
        }
    }
}

impl<T> Default for HexGrid<T> {
    /// An empty grid, 8 cells wide, drawn with the default tile sprite.
    fn default() -> (grid: HexGrid<T>)
        ensures
            grid.width == 8,
            grid.cells@.len() == 0,
            grid.sprite@ == "cells/debug_w128.png"@,
    {
        proof {
            reveal_strlit("cells/debug_w128.png");
        }
        HexGrid { width: 8, cells: Vec::new(), sprite: "cells/debug_w128.png".to_owned() }
    }
}

} // verus!
