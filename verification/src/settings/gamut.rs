//! The edge of the sRGB gamut within the saturation and value square.

use vstd::prelude::*;

verus! {

/// A piece of the edge, in cells from the square's upper left corner.
#[derive(Debug, Clone, Copy, PartialEq, Eq, Structural)]
pub struct Segment {
    pub x1: u32,
    pub y1: u32,
    pub x2: u32,
    pub y2: u32,
}

/// Whether a cell's colour is in the gamut.
pub open spec fn inside(gamut: Seq<bool>, cells: int, x: int, y: int) -> bool {
    gamut[y * cells + x]
}

/// The edge beside a cell: to its right where the next cell differs, and below
/// it where the cell there differs.
pub open spec fn edges_at(gamut: Seq<bool>, cells: int, x: int, y: int) -> Seq<Segment> {
    let here = inside(gamut, cells, x, y);
    (if here != inside(gamut, cells, x + 1, y) {
        seq![
            Segment {
                x1: (x + 1) as u32,
                y1: y as u32,
                x2: (x + 1) as u32,
                y2: (y + 1) as u32,
            },
        ]
    } else {
        Seq::empty()
    }) + (if here != inside(gamut, cells, x, y + 1) {
        seq![
            Segment {
                x1: x as u32,
                y1: (y + 1) as u32,
                x2: (x + 1) as u32,
                y2: (y + 1) as u32,
            },
        ]
    } else {
        Seq::empty()
    })
}

/// The edges beside the first `n` cells of a row.
pub open spec fn edges_of_row(gamut: Seq<bool>, cells: int, y: int, n: int) -> Seq<Segment>
    decreases n,
{
    if n <= 0 {
        Seq::empty()
    } else {
        edges_of_row(gamut, cells, y, n - 1) + edges_at(gamut, cells, n - 1, y)
    }
}

/// The edges beside the cells of the first `n` rows. The last cell of a row and
/// the last row have no neighbour to differ from.
pub open spec fn edges_of_rows(gamut: Seq<bool>, cells: int, n: int) -> Seq<Segment>
    decreases n,
{
    if n <= 0 {
        Seq::empty()
    } else {
        edges_of_rows(gamut, cells, n - 1) + edges_of_row(gamut, cells, n - 1, cells - 1)
    }
}

/// The edge of the gamut in a square of cells.
pub open spec fn boundary(gamut: Seq<bool>, cells: int) -> Seq<Segment> {
    if cells < 2 {
        Seq::empty()
    } else {
        edges_of_rows(gamut, cells, cells - 1)
    }
}

proof fn lemma_cell(x: int, y: int, cells: int)
    requires
        0 <= x < cells,
        0 <= y < cells,
    ensures
        0 <= y * cells + x < cells * cells,
        0 <= y * cells <= cells * cells,
{
    assert(y * cells + cells <= cells * cells) by (nonlinear_arith)
        requires
            y + 1 <= cells,
            0 <= cells,
    ;
    assert(0 <= y * cells) by (nonlinear_arith)
        requires
            0 <= y,
            0 <= cells,
    ;
}

/// The edge of the gamut in a square of cells, row by row; `gamut` says for
/// each cell whether its colour is in the gamut.
pub fn srgb_gamut_boundary_segments(gamut: &Vec<bool>, cells: u32) -> (r: Vec<Segment>)
    requires
        gamut.len() == cells * cells,
    ensures
        r@ == boundary(gamut@, cells as int),
{
    let mut out: Vec<Segment> = Vec::new();
    if cells < 2 {
        assert(out@ =~= Seq::empty());
        return out;
    }
    let n: usize = cells as usize;
    let ghost c = cells as int;
    assert(out@ =~= edges_of_rows(gamut@, c, 0));
    let mut y: u32 = 0;
    while y < cells - 1
        invariant
            y <= cells - 1,
            2 <= cells,
            n == cells,
            c == cells,
            gamut.len() == cells * cells,
            out@ == edges_of_rows(gamut@, c, y as int),
        decreases cells - y,
    {
        let ghost rows = out@;
        let mut x: u32 = 0;
        assert(out@ =~= rows + edges_of_row(gamut@, c, y as int, 0));
        while x < cells - 1
            invariant
                x <= cells - 1,
                y < cells - 1,
                2 <= cells,
                n == cells,
                c == cells,
                gamut.len() == cells * cells,
                out@ == rows + edges_of_row(gamut@, c, y as int, x as int),
            decreases cells - x,
        {
            proof {
                lemma_cell(x as int, y as int, c);
                lemma_cell(x + 1, y as int, c);
                lemma_cell(x as int, y + 1, c);
                assert((y + 1) * c == y * c + c) by (nonlinear_arith);
            }
            let ghost before = out@;
            let row: usize = y as usize * n;
            let here = gamut[row + x as usize];
            if here != gamut[row + x as usize + 1] {
                out.push(Segment { x1: x + 1, y1: y, x2: x + 1, y2: y + 1 });
            }
            if here != gamut[row + n + x as usize] {
                out.push(Segment { x1: x, y1: y + 1, x2: x + 1, y2: y + 1 });
            }
            assert(out@ =~= before + edges_at(gamut@, c, x as int, y as int));
            x += 1;
            assert(out@ =~= rows + edges_of_row(gamut@, c, y as int, x as int));
        }
        y += 1;
    }
    out
}

/// A piece of an edge within the square, between a cell of the gamut and one
/// that is not.
pub open spec fn is_edge(gamut: Seq<bool>, cells: int, s: Segment) -> bool {
    ||| (s.x1 == s.x2 && s.y2 == s.y1 + 1 && 1 <= s.x1 < cells && s.y2 <= cells && inside(
        gamut,
        cells,
        s.x1 - 1,
        s.y1 as int,
    ) != inside(gamut, cells, s.x1 as int, s.y1 as int))
    ||| (s.y1 == s.y2 && s.x2 == s.x1 + 1 && 1 <= s.y1 < cells && s.x2 <= cells && inside(
        gamut,
        cells,
        s.x1 as int,
        s.y1 - 1,
    ) != inside(gamut, cells, s.x1 as int, s.y1 as int))
}

proof fn lemma_row(gamut: Seq<bool>, cells: int, y: int, n: int, i: int)
    requires
        0 <= y < cells - 1,
        0 <= n <= cells - 1,
        cells <= u32::MAX,
        0 <= i < edges_of_row(gamut, cells, y, n).len(),
    ensures
        is_edge(gamut, cells, edges_of_row(gamut, cells, y, n)[i]),
    decreases n,
{
    if n > 0 && i < edges_of_row(gamut, cells, y, n - 1).len() {
        lemma_row(gamut, cells, y, n - 1, i);
    }
}

proof fn lemma_rows(gamut: Seq<bool>, cells: int, n: int, i: int)
    requires
        0 <= n <= cells - 1,
        cells <= u32::MAX,
        0 <= i < edges_of_rows(gamut, cells, n).len(),
    ensures
        is_edge(gamut, cells, edges_of_rows(gamut, cells, n)[i]),
    decreases n,
{
    if n > 0 {
        let before = edges_of_rows(gamut, cells, n - 1).len();
        if i < before {
            lemma_rows(gamut, cells, n - 1, i);
        } else {
            lemma_row(gamut, cells, n - 1, cells - 1, i - before);
        }
    }
}

/// Every piece lies within the square, and parts a cell of the gamut from one
/// that is not.
pub proof fn law_boundary_parts_the_gamut(gamut: Seq<bool>, cells: u32, i: int)
    requires
        0 <= i < boundary(gamut, cells as int).len(),
    ensures
        ({
            let s = boundary(gamut, cells as int)[i];
            &&& is_edge(gamut, cells as int, s)
            &&& s.x1 <= s.x2 <= cells
            &&& s.y1 <= s.y2 <= cells
        }),
{
    if cells >= 2 {
        lemma_rows(gamut, cells as int, cells - 1, i);
    }
}

/// The boundary has no gaps: wherever two neighbouring cells differ there is a
/// piece of it between them.
pub proof fn law_boundary_is_complete(gamut: Seq<bool>, cells: u32, x: int, y: int)
    requires
        0 <= x < cells - 1,
        0 <= y < cells - 1,
    ensures
        inside(gamut, cells as int, x, y) != inside(gamut, cells as int, x + 1, y) ==> boundary(
            gamut,
            cells as int,
        ).contains(
            Segment {
                x1: (x + 1) as u32,
                y1: y as u32,
                x2: (x + 1) as u32,
                y2: (y + 1) as u32,
            },
        ),
        inside(gamut, cells as int, x, y) != inside(gamut, cells as int, x, y + 1) ==> boundary(
            gamut,
            cells as int,
        ).contains(
            Segment {
                x1: x as u32,
                y1: (y + 1) as u32,
                x2: (x + 1) as u32,
                y2: (y + 1) as u32,
            },
        ),
{
    let n = cells as int;
    let across = Segment {
        x1: (x + 1) as u32,
        y1: y as u32,
        x2: (x + 1) as u32,
        y2: (y + 1) as u32,
    };
    let below = Segment {
        x1: x as u32,
        y1: (y + 1) as u32,
        x2: (x + 1) as u32,
        y2: (y + 1) as u32,
    };
    let here = edges_at(gamut, n, x, y);
    if inside(gamut, n, x, y) != inside(gamut, n, x + 1, y) {
        assert(here[0] == across);
        lemma_edge_in_row(gamut, n, y, n - 1, x, across);
        lemma_edge_in_rows(gamut, n, n - 1, y, across);
    }
    if inside(gamut, n, x, y) != inside(gamut, n, x, y + 1) {
        assert(here.last() == below);
        assert(here[here.len() - 1] == below);
        lemma_edge_in_row(gamut, n, y, n - 1, x, below);
        lemma_edge_in_rows(gamut, n, n - 1, y, below);
    }
}

proof fn lemma_edge_in_row(gamut: Seq<bool>, cells: int, y: int, n: int, x: int, s: Segment)
    requires
        0 <= x < n,
        edges_at(gamut, cells, x, y).contains(s),
    ensures
        edges_of_row(gamut, cells, y, n).contains(s),
    decreases n,
{
    let before = edges_of_row(gamut, cells, y, n - 1);
    let last = edges_at(gamut, cells, n - 1, y);
    if x == n - 1 {
        let i = choose|i: int| 0 <= i < last.len() && last[i] == s;
        assert((before + last)[before.len() + i] == s);
    } else {
        lemma_edge_in_row(gamut, cells, y, n - 1, x, s);
        let i = choose|i: int| 0 <= i < before.len() && before[i] == s;
        assert((before + last)[i] == s);
    }
}

proof fn lemma_edge_in_rows(gamut: Seq<bool>, cells: int, n: int, y: int, s: Segment)
    requires
        0 <= y < n,
        edges_of_row(gamut, cells, y, cells - 1).contains(s),
    ensures
        edges_of_rows(gamut, cells, n).contains(s),
    decreases n,
{
    let before = edges_of_rows(gamut, cells, n - 1);
    let last = edges_of_row(gamut, cells, n - 1, cells - 1);
    if y == n - 1 {
        let i = choose|i: int| 0 <= i < last.len() && last[i] == s;
        assert((before + last)[before.len() + i] == s);
    } else {
        lemma_edge_in_rows(gamut, cells, n - 1, y, s);
        let i = choose|i: int| 0 <= i < before.len() && before[i] == s;
        assert((before + last)[i] == s);
    }
}

} // verus!
