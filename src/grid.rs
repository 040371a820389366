//! A grid of equal rectangular fields centered on the origin, and the
//! association of boxes and points with the fields they occupy.

use vstd::prelude::*;
use vstd::arithmetic::div_mod::{lemma_fundamental_div_mod_converse_div, lemma_fundamental_div_mod_converse_mod};
use crate::aabb::AABB;
use crate::vector::{Vec3, WORLD_BOUND};

verus! {

/// Fields laid out row by row from the top row down, each row from left
/// to right. Rows and columns are numbered from 1; the cell `(0, 0)` stands
/// for "not in the grid".
#[derive(Debug)]
pub struct Grid {
    pub fields: Vec<AABB>,
    pub rows: usize,
    pub columns: usize,
}

/// The field at index `k` of a grid of `rows` by `columns` fields of the
/// given half-extents.
pub open spec fn field_spec(rows: int, columns: int, half_width: int, half_height: int, k: int) -> AABB {
    AABB {
        point: Vec3 {
            x: ((2 * (k % columns) + 1 - columns) * half_width) as i64,
            y: ((rows - 2 * (k / columns) - 1) * half_height) as i64,
            z: 0,
        },
        half_width: half_width as i64,
        half_height: half_height as i64,
    }
}

/// The (row, column) cell of the field at index `k`, numbered from 1.
pub open spec fn cell(k: int, columns: int) -> (usize, usize) {
    ((k / columns + 1) as usize, (k % columns + 1) as usize)
}

/// The cells, among the first `n` fields, whose field a resting box `b`
/// collides with, in field order.
pub open spec fn box_cells(fields: Seq<AABB>, columns: int, b: AABB, n: int) -> Seq<(usize, usize)>
    decreases n,
{
    if n <= 0 {
        seq![]
    } else if b.static_static_spec(fields[n - 1]).is_some() {
        box_cells(fields, columns, b, n - 1).push(cell(n - 1, columns))
    } else {
        box_cells(fields, columns, b, n - 1)
    }
}

/// The cell of the first field, from index `k` on, that holds `p` strictly
/// inside; `(0, 0)` when none does.
pub open spec fn point_cell_from(fields: Seq<AABB>, columns: int, p: Vec3, k: int) -> (usize, usize)
    decreases fields.len() - k,
{
    if k < 0 || k >= fields.len() {
        (0, 0)
    } else if fields[k].contains(p) {
        cell(k, columns)
    } else {
        point_cell_from(fields, columns, p, k + 1)
    }
}

impl Grid {
    pub open spec fn wf(&self) -> bool {
        &&& self.fields@.len() == self.rows * self.columns
        &&& forall|k: int| 0 <= k < self.fields@.len() ==> #[trigger] self.fields@[k].wf()
    }

    /// A grid of `rows` by `columns` fields with the given half-extents,
    /// centered on the origin.
    pub fn new(rows: usize, columns: usize, half_width: i64, half_height: i64) -> (r: Grid)
        requires
            rows <= WORLD_BOUND,
            columns <= WORLD_BOUND,
            0 <= half_width <= WORLD_BOUND,
            0 <= half_height <= WORLD_BOUND,
            columns * half_width <= WORLD_BOUND,
            rows * half_height <= WORLD_BOUND,
            rows * columns <= usize::MAX,
        ensures
            r.rows == rows,
            r.columns == columns,
            r.fields@.len() == rows * columns,
            forall|k: int|
                0 <= k < r.fields@.len() ==> #[trigger] r.fields@[k] == field_spec(
                    rows as int,
                    columns as int,
                    half_width as int,
                    half_height as int,
                    k,
                ),
            r.wf(),
    {
        let mut fields: Vec<AABB> = Vec::new();
        let mut row: usize = 0;
        while row < rows
            invariant
                row <= rows,
                rows <= WORLD_BOUND,
                columns <= WORLD_BOUND,
                0 <= half_width <= WORLD_BOUND,
                0 <= half_height <= WORLD_BOUND,
                columns * half_width <= WORLD_BOUND,
                rows * half_height <= WORLD_BOUND,
                rows * columns <= usize::MAX,
                fields@.len() == row * columns,
                forall|k: int|
                    0 <= k < fields@.len() ==> #[trigger] fields@[k] == field_spec(
                        rows as int,
                        columns as int,
                        half_width as int,
                        half_height as int,
                        k,
                    ),
                forall|k: int| 0 <= k < fields@.len() ==> #[trigger] fields@[k].wf(),
            decreases rows - row,
        {
            let mut column: usize = 0;
            while column < columns
                invariant
                    row < rows,
                    column <= columns,
                    rows <= WORLD_BOUND,
                    columns <= WORLD_BOUND,
                    0 <= half_width <= WORLD_BOUND,
                    0 <= half_height <= WORLD_BOUND,
                    columns * half_width <= WORLD_BOUND,
                    rows * half_height <= WORLD_BOUND,
                    fields@.len() == row * columns + column,
                    forall|k: int|
                        0 <= k < fields@.len() ==> #[trigger] fields@[k] == field_spec(
                            rows as int,
                            columns as int,
                            half_width as int,
                            half_height as int,
                            k,
                        ),
                    forall|k: int| 0 <= k < fields@.len() ==> #[trigger] fields@[k].wf(),
                decreases columns - column,
            {
                let xs: i64 = 2 * (column as i64) + 1 - (columns as i64);
                let ys: i64 = (rows as i64) - 2 * (row as i64) - 1;
                assert(-(columns * half_width) <= xs * half_width <= columns * half_width) by (nonlinear_arith)
                    requires
                        -(columns as int) <= xs <= columns,
                        half_width >= 0,
                ;
                assert(-(rows * half_height) <= ys * half_height <= rows * half_height) by (nonlinear_arith)
                    requires
                        -(rows as int) <= ys <= rows,
                        half_height >= 0,
                ;
                let field = AABB {
                    point: Vec3 { x: xs * half_width, y: ys * half_height, z: 0 },
                    half_width,
                    half_height,
                };
                proof {
                    let k = row * columns + column;
                    lemma_fundamental_div_mod_converse_div(k, columns as int, row as int, column as int);
                    lemma_fundamental_div_mod_converse_mod(k, columns as int, row as int, column as int);
                }
                fields.push(field);
                column += 1;
            }
            assert(row * columns + columns == (row + 1) * columns) by (nonlinear_arith);
            row += 1;
        }
        Grid { fields, rows, columns }
    }

    /// The cells whose field the resting box `bounding_box` collides with,
    /// in field order; `[(0, 0)]` when there is none.
    pub fn associate_aabb(&self, bounding_box: &AABB) -> (r: Vec<(usize, usize)>)
        requires
            self.wf(),
            bounding_box.wf(),
        ensures
            ({
                let cells = box_cells(self.fields@, self.columns as int, *bounding_box, self.fields@.len() as int);
                r@ == if cells.len() == 0 { seq![(0usize, 0usize)] } else { cells }
            }),
    {
        let mut containing: Vec<(usize, usize)> = Vec::new();
        let mut k: usize = 0;
        while k < self.fields.len()
            invariant
                self.wf(),
                bounding_box.wf(),
                k <= self.fields@.len(),
                containing@ == box_cells(self.fields@, self.columns as int, *bounding_box, k as int),
            decreases self.fields.len() - k,
        {
            assert(self.fields@[k as int].wf());
            if bounding_box.static_static(&self.fields[k]).is_some() {
                containing.push((k / self.columns + 1, k % self.columns + 1));
            }
            k += 1;
        }
        if containing.len() == 0 {
            containing.push((0, 0));
        }
        containing
    }

    /// The cell of the first field that holds `point` strictly inside;
    /// `[(0, 0)]` when none does.
    pub fn associate_point(&self, point: &Vec3) -> (r: Vec<(usize, usize)>)
        requires
            self.wf(),
        ensures
            r@ == seq![point_cell_from(self.fields@, self.columns as int, *point, 0)],
    {
        let mut k: usize = 0;
        while k < self.fields.len()
            invariant
                self.wf(),
                k <= self.fields@.len(),
                point_cell_from(self.fields@, self.columns as int, *point, k as int) == point_cell_from(
                    self.fields@,
                    self.columns as int,
                    *point,
                    0,
                ),
            decreases self.fields.len() - k,
        {
            assert(self.fields@[k as int].wf());
            if self.fields[k].point_collision(*point) {
                return vec![(k / self.columns + 1, k % self.columns + 1)];
            }
            k += 1;
        }
        vec![(0, 0)]
    }
}

} // verus!
