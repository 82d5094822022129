//! Index data of triangle meshes: the vertices and triangles of a square
//! grid, the edges of an indexed triangle list, and the flat index list of a
//! set of faces of which some are removed.
use vstd::prelude::*;

verus! {

/// The index of the grid vertex in column `x` and row `y` of a grid `n`
/// vertices wide.
pub open spec fn grid_id(n: int, x: int, y: int) -> int {
    y * n + x
}

proof fn lemma_grid_id_bounds(n: int, x: int, y: int)
    requires
        0 <= x < n,
        0 <= y < n,
    ensures
        0 <= grid_id(n, x, y) < n * n,
        grid_id(n, x, y) + 1 == grid_id(n, x + 1, y),
        grid_id(n, x, y) + n == grid_id(n, x, y + 1),
{
    assert(0 <= y * n + x < n * n) by (nonlinear_arith)
        requires
            0 <= x < n,
            0 <= y < n,
    ;
    assert((y + 1) * n == y * n + n) by (nonlinear_arith);
}

/// The grid coordinates of the vertices of an `n` by `n` grid, row by row.
pub fn grid_vertices(n: usize) -> (r: Vec<(usize, usize)>)
    requires
        n * n <= usize::MAX,
    ensures
        r.len() == n * n,
        forall|x: int, y: int|
            0 <= x < n && 0 <= y < n ==> #[trigger] r@[grid_id(n as int, x, y)] == (x as usize, y as usize),
{
    let mut r: Vec<(usize, usize)> = Vec::new();
    let mut y: usize = 0;
    while y < n
        invariant
            0 <= y <= n,
            n * n <= usize::MAX,
            r.len() == y * n,
            forall|xx: int, yy: int|
                0 <= xx < n && 0 <= yy < y ==> #[trigger] r@[grid_id(n as int, xx, yy)] == (xx as usize, yy as usize),
        decreases n - y,
    {
        let mut x: usize = 0;
        while x < n
            invariant
                0 <= x <= n,
                0 <= y < n,
                n * n <= usize::MAX,
                r.len() == y * n + x,
                forall|xx: int, yy: int|
                    0 <= xx < n && 0 <= yy < y ==> #[trigger] r@[grid_id(n as int, xx, yy)] == (xx as usize, yy as usize),
                forall|xx: int|
                    0 <= xx < x ==> #[trigger] r@[grid_id(n as int, xx, y as int)] == (xx as usize, y),
            decreases n - x,
        {
            proof {
                lemma_grid_id_bounds(n as int, x as int, y as int);
            }
            let ghost before = r@;
            r.push((x, y));
            proof {
                assert forall|xx: int, yy: int|
                    0 <= xx < n && 0 <= yy < y implies #[trigger] r@[grid_id(n as int, xx, yy)] == (xx as usize, yy as usize) by {
                    lemma_grid_id_bounds(n as int, xx, yy);
                    assert(grid_id(n as int, xx, yy) < grid_id(n as int, 0, y as int)) by (nonlinear_arith)
                        requires
                            0 <= xx < n,
                            0 <= yy < y,
                    ;
                    assert(r@[grid_id(n as int, xx, yy)] == before[grid_id(n as int, xx, yy)]);
                }
                assert forall|xx: int|
                    0 <= xx < x + 1 implies #[trigger] r@[grid_id(n as int, xx, y as int)] == (xx as usize, y) by {
                    if xx < x {
                        assert(r@[grid_id(n as int, xx, y as int)] == before[grid_id(n as int, xx, y as int)]);
                    }
                }
            }
            x = x + 1;
        }
        proof {
            assert((y + 1) * n == y * n + n) by (nonlinear_arith);
        }
        y = y + 1;
    }
    r
}

/// The two triangles of the grid cell whose lower corner is at column `x`,
/// row `y`, wound the same way.
pub open spec fn grid_cell_triangles(n: int, x: int, y: int) -> ((usize, usize, usize), (usize, usize, usize)) {
    let v00 = grid_id(n, x, y) as usize;
    let v10 = grid_id(n, x + 1, y) as usize;
    let v01 = grid_id(n, x, y + 1) as usize;
    let v11 = grid_id(n, x + 1, y + 1) as usize;
    ((v00, v10, v11), (v00, v11, v01))
}

/// The index of the cell at column `x`, row `y` among the `(n - 1)` by
/// `(n - 1)` cells of the grid.
pub open spec fn cell_index(n: int, x: int, y: int) -> int {
    y * (n - 1) + x
}

/// The triangles of an `n` by `n` vertex grid: two per cell, the cells row by
/// row.
pub fn grid_triangles(n: usize) -> (r: Vec<(usize, usize, usize)>)
    requires
        1 <= n,
        n * n <= usize::MAX,
    ensures
        r.len() == 2 * ((n - 1) * (n - 1)),
        forall|x: int, y: int|
            0 <= x < n - 1 && 0 <= y < n - 1 ==> {
                &&& #[trigger] r@[2 * cell_index(n as int, x, y)] == grid_cell_triangles(n as int, x, y).0
                &&& r@[2 * cell_index(n as int, x, y) + 1] == grid_cell_triangles(n as int, x, y).1
            },
{
    let cells: usize = n - 1;
    let mut r: Vec<(usize, usize, usize)> = Vec::new();
    let mut y: usize = 0;
    while y < cells
        invariant
            cells == n - 1,
            1 <= n,
            n * n <= usize::MAX,
            0 <= y <= cells,
            r.len() == 2 * (y * cells),
            forall|xx: int, yy: int|
                0 <= xx < cells && 0 <= yy < y ==> {
                    &&& #[trigger] r@[2 * cell_index(n as int, xx, yy)] == grid_cell_triangles(n as int, xx, yy).0
                    &&& r@[2 * cell_index(n as int, xx, yy) + 1] == grid_cell_triangles(n as int, xx, yy).1
                },
        decreases cells - y,
    {
        let mut x: usize = 0;
        while x < cells
            invariant
                cells == n - 1,
                1 <= n,
                n * n <= usize::MAX,
                0 <= y < cells,
                0 <= x <= cells,
                r.len() == 2 * (y * cells + x),
                forall|xx: int, yy: int|
                    0 <= xx < cells && 0 <= yy < y ==> {
                        &&& #[trigger] r@[2 * cell_index(n as int, xx, yy)] == grid_cell_triangles(n as int, xx, yy).0
                        &&& r@[2 * cell_index(n as int, xx, yy) + 1] == grid_cell_triangles(n as int, xx, yy).1
                    },
                forall|xx: int|
                    0 <= xx < x ==> {
                        &&& #[trigger] r@[2 * cell_index(n as int, xx, y as int)] == grid_cell_triangles(n as int, xx, y as int).0
                        &&& r@[2 * cell_index(n as int, xx, y as int) + 1] == grid_cell_triangles(n as int, xx, y as int).1
                    },
            decreases cells - x,
        {
            proof {
                lemma_grid_id_bounds(n as int, x as int + 1, y as int + 1);
                lemma_grid_id_bounds(n as int, x as int, y as int);
                lemma_grid_id_bounds(n as int, x as int, y as int + 1);
                lemma_grid_id_bounds(n as int, x as int + 1, y as int);
            }
            let v00 = y * n + x;
            let v10 = v00 + 1;
            let v01 = v00 + n;
            let v11 = v01 + 1;
            let ghost before = r@;
            r.push((v00, v10, v11));
            r.push((v00, v11, v01));
            proof {
                assert(before.len() == 2 * cell_index(n as int, x as int, y as int));
                assert forall|xx: int, yy: int|
                    0 <= xx < cells && 0 <= yy < y implies {
                        &&& #[trigger] r@[2 * cell_index(n as int, xx, yy)] == grid_cell_triangles(n as int, xx, yy).0
                        &&& r@[2 * cell_index(n as int, xx, yy) + 1] == grid_cell_triangles(n as int, xx, yy).1
                    } by {
                    assert(cell_index(n as int, xx, yy) < cell_index(n as int, 0, y as int)) by (nonlinear_arith)
                        requires
                            0 <= xx < n - 1,
                            0 <= yy < y,
                    ;
                    assert(r@[2 * cell_index(n as int, xx, yy)] == before[2 * cell_index(n as int, xx, yy)]);
                    assert(r@[2 * cell_index(n as int, xx, yy) + 1] == before[2 * cell_index(n as int, xx, yy) + 1]);
                }
                assert forall|xx: int|
                    0 <= xx < x + 1 implies {
                        &&& #[trigger] r@[2 * cell_index(n as int, xx, y as int)] == grid_cell_triangles(n as int, xx, y as int).0
                        &&& r@[2 * cell_index(n as int, xx, y as int) + 1] == grid_cell_triangles(n as int, xx, y as int).1
                    } by {
                    if xx < x {
                        assert(r@[2 * cell_index(n as int, xx, y as int)] == before[2 * cell_index(n as int, xx, y as int)]);
                        assert(r@[2 * cell_index(n as int, xx, y as int) + 1] == before[2 * cell_index(n as int, xx, y as int) + 1]);
                    }
                }
            }
            x = x + 1;
        }
        proof {
            assert((y + 1) * cells == y * cells + cells) by (nonlinear_arith);
            assert forall|xx: int, yy: int|
                0 <= xx < cells && 0 <= yy < y + 1 implies {
                    &&& #[trigger] r@[2 * cell_index(n as int, xx, yy)] == grid_cell_triangles(n as int, xx, yy).0
                    &&& r@[2 * cell_index(n as int, xx, yy) + 1] == grid_cell_triangles(n as int, xx, yy).1
                } by {
                if yy == y {
                    assert(r@[2 * cell_index(n as int, xx, y as int)] == grid_cell_triangles(n as int, xx, y as int).0);
                }
            }
        }
        y = y + 1;
    }
    r
}

/// The three edges of each triangle of an indexed triangle list, in winding
/// order: for triangle `t`, from corner 0 to 1, 1 to 2 and 2 back to 0.
pub fn triangle_edges(indices: &Vec<u32>) -> (r: Vec<(u32, u32)>)
    requires
        indices.len() % 3 == 0,
    ensures
        r.len() == indices.len(),
        forall|t: int|
            0 <= t < indices.len() / 3 ==> {
                &&& #[trigger] r@[3 * t] == (indices@[3 * t], indices@[3 * t + 1])
                &&& r@[3 * t + 1] == (indices@[3 * t + 1], indices@[3 * t + 2])
                &&& r@[3 * t + 2] == (indices@[3 * t + 2], indices@[3 * t])
            },
{
    let mut r: Vec<(u32, u32)> = Vec::new();
    let mut i: usize = 0;
    let ghost mut k: int = 0;
    while i < indices.len()
        invariant
            indices.len() % 3 == 0,
            i == 3 * k,
            0 <= i <= indices.len(),
            r.len() == i,
            forall|t: int|
                0 <= t < k ==> {
                    &&& #[trigger] r@[3 * t] == (indices@[3 * t], indices@[3 * t + 1])
                    &&& r@[3 * t + 1] == (indices@[3 * t + 1], indices@[3 * t + 2])
                    &&& r@[3 * t + 2] == (indices@[3 * t + 2], indices@[3 * t])
                },
        decreases indices.len() - i,
    {
        assert(i + 3 <= indices.len());
        let a = indices[i];
        let b = indices[i + 1];
        let c = indices[i + 2];
        let ghost before = r@;
        r.push((a, b));
        r.push((b, c));
        r.push((c, a));
        proof {
            assert forall|t: int|
                0 <= t < k + 1 implies {
                    &&& #[trigger] r@[3 * t] == (indices@[3 * t], indices@[3 * t + 1])
                    &&& r@[3 * t + 1] == (indices@[3 * t + 1], indices@[3 * t + 2])
                    &&& r@[3 * t + 2] == (indices@[3 * t + 2], indices@[3 * t])
                } by {
                if t < k {
                    assert(r@[3 * t] == before[3 * t]);
                    assert(r@[3 * t + 1] == before[3 * t + 1]);
                    assert(r@[3 * t + 2] == before[3 * t + 2]);
                }
            }
            k = k + 1;
        }
        i = i + 3;
    }
    assert(k == indices.len() / 3);
    r
}

/// The indices of the faces that are still present, three per face, in face
/// order; a removed face is `None`. An index is narrowed to 32 bits.
pub open spec fn face_index_list(faces: Seq<Option<(usize, usize, usize)>>) -> Seq<u32>
    decreases faces.len(),
{
    if faces.len() == 0 {
        Seq::empty()
    } else {
        face_index_list(faces.drop_last()) + match faces.last() {
            Some(t) => seq![t.0 as u32, t.1 as u32, t.2 as u32],
            None => Seq::empty(),
        }
    }
}

/// Flattens the corners of the faces that are still present into one index
/// list for a triangle mesh.
pub fn face_indices(faces: &Vec<Option<(usize, usize, usize)>>) -> (r: Vec<u32>)
    ensures
        r@ == face_index_list(faces@),
{
    let mut r: Vec<u32> = Vec::new();
    let mut i: usize = 0;
    while i < faces.len()
        invariant
            0 <= i <= faces.len(),
            r@ == face_index_list(faces@.take(i as int)),
        decreases faces.len() - i,
    {
        let ghost before = r@;
        proof {
            assert(faces@.take(i as int + 1).drop_last() == faces@.take(i as int));
        }
        match faces[i] {
            Some(t) => {
                r.push(t.0 as u32);
                r.push(t.1 as u32);
                r.push(t.2 as u32);
                proof {
                    assert(r@ == before + seq![t.0 as u32, t.1 as u32, t.2 as u32]);
                }
            },
            None => {
                proof {
                    assert(r@ == before + Seq::<u32>::empty());
                }
            },
        }
        i = i + 1;
    }
    proof {
        assert(faces@.take(faces.len() as int) == faces@);
    }
    r
}

} // verus!
