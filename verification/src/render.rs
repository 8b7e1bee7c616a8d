//! Matrices as text.

use crate::matrix::lemma_cell_index;
use crate::matrix::lemma_row_bounds;
use crate::matrix::Matrix;
use crate::text::decimal;
use crate::text::decimal_string;
use vstd::prelude::*;

verus! {

/// The views of the strings of `cells`.
pub open spec fn texts(cells: Seq<String>) -> Seq<Seq<char>> {
    cells.map_values(|c: String| c@)
}

/// One row of a matrix as text: each cell followed by a space.
pub open spec fn row_text(cells: Seq<Seq<char>>) -> Seq<char>
    decreases cells.len(),
{
    if cells.len() == 0 {
        Seq::empty()
    } else {
        row_text(cells.drop_last()) + cells.last() + seq![' ']
    }
}

/// The first `n` rows of a matrix of `rows` rows and `cols` columns as text:
/// the rows one after the other, a comma after each but the last of the matrix.
pub open spec fn rows_text(cells: Seq<Seq<char>>, rows: nat, cols: nat, n: nat) -> Seq<char>
    decreases n,
{
    if n == 0 {
        Seq::empty()
    } else {
        rows_text(cells, rows, cols, (n - 1) as nat) + row_text(
            cells.subrange((n - 1) * cols, (n * cols) as int),
        ) + if n != rows {
            seq![',']
        } else {
            Seq::empty()
        }
    }
}

/// A matrix as text, from the texts of its cells: the rows between braces.
pub open spec fn matrix_text(cells: Seq<Seq<char>>, rows: nat, cols: nat) -> Seq<char> {
    seq!['{'] + rows_text(cells, rows, cols, rows) + seq!['}']
}

/// A matrix as text with its dimensions in front.
pub open spec fn matrix_debug_text(cells: Seq<Seq<char>>, rows: nat, cols: nat) -> Seq<char> {
    "Matrix(row="@ + decimal(rows) + ", col="@ + decimal(cols) + ", "@ + matrix_text(
        cells,
        rows,
        cols,
    ) + ")"@
}

/// Lays the texts of a matrix's cells out as the matrix's text.
pub fn layout(cells: &Vec<String>, rows: usize, cols: usize) -> (s: String)
    requires
        cells@.len() == rows * cols,
    ensures
        s@ == matrix_text(texts(cells@), rows as nat, cols as nat),
{
    proof {
        reveal_strlit("{");
        reveal_strlit("}");
        reveal_strlit(" ");
        reveal_strlit(",");
    }
    let ghost t = texts(cells@);
    let mut s = "{".to_owned();
    assert(s@ =~= seq!['{'] + rows_text(t, rows as nat, cols as nat, 0));
    let mut i: usize = 0;
    while i < rows
        invariant
            cells@.len() == rows * cols,
            t == texts(cells@),
            i <= rows,
            s@ == seq!['{'] + rows_text(t, rows as nat, cols as nat, i as nat),
        decreases rows - i,
    {
        let ghost before = s@;
        let mut j: usize = 0;
        proof {
            lemma_row_bounds(i as int, rows as int, cols as int);
            assert(cells@.len() == cells.len());
        }
        assert(t.subrange(i * cols, i * cols + 0) =~= Seq::<Seq<char>>::empty());
        assert(s@ =~= before + row_text(t.subrange(i * cols, i * cols + j)));
        while j < cols
            invariant
                cells@.len() == rows * cols,
                t == texts(cells@),
                i < rows,
                j <= cols,
                s@ == before + row_text(t.subrange(i * cols, i * cols + j)),
            decreases cols - j,
        {
            proof {
                lemma_cell_index(i as int, j as int, rows as int, cols as int);
                lemma_row_bounds(i as int, rows as int, cols as int);
                assert(cells@.len() == cells.len());
                let cur = t.subrange(i * cols, i * cols + j + 1);
                assert(cur.drop_last() =~= t.subrange(i * cols, i * cols + j));
                assert(cur.last() == cells@[i * cols + j]@);
            }
            s.append(cells[i * cols + j].as_str());
            s.append(" ");
            proof {
                reveal_strlit(" ");
                let cur = t.subrange(i * cols, i * cols + j + 1);
                assert(" "@ =~= seq![' ']);
                assert(row_text(cur) == row_text(cur.drop_last()) + cur.last() + seq![' ']);
                assert(s@ =~= before + row_text(cur));
            }
            j = j + 1;
        }
        if i != rows - 1 {
            s.append(",");
        }
        proof {
            reveal_strlit(",");
            assert(","@ =~= seq![',']);
            lemma_row_bounds(i as int, rows as int, cols as int);
            assert(((i + 1) as nat - 1) * (cols as nat) == i * cols);
            assert(((i + 1) as nat) * (cols as nat) == i * cols + cols);
            assert(s@ =~= seq!['{'] + rows_text(t, rows as nat, cols as nat, (i + 1) as nat));
        }
        i = i + 1;
    }
    s.append("}");
    assert(s@ =~= matrix_text(t, rows as nat, cols as nat));
    s
}

/// Lays the texts of a matrix's cells out as the matrix's text with its
/// dimensions in front: `Matrix(row=R, col=C, {..})`.
pub fn debug_layout(cells: &Vec<String>, rows: usize, cols: usize) -> (s: String)
    requires
        cells@.len() == rows * cols,
    ensures
        s@ == matrix_debug_text(texts(cells@), rows as nat, cols as nat),
{
    let mut s = "Matrix(row=".to_owned();
    s.append(decimal_string(rows as u64).as_str());
    s.append(", col=");
    s.append(decimal_string(cols as u64).as_str());
    s.append(", ");
    s.append(layout(cells, rows, cols).as_str());
    s.append(")");
    s
}

/// `format!("{:?}", x)`: the text that `T`'s own `Debug` writes for `x`.
/// Nothing is claimed of it.
#[verifier::external_body]
fn debug_text<T: core::fmt::Debug>(x: &T) -> (s: String) {
    format!("{:?}", x)
}

impl<T: core::fmt::Debug> Matrix<T> {
    fn cell_texts(&self) -> (cells: Vec<String>)
        ensures
            cells@.len() == self@.len(),
    {
        let mut cells: Vec<String> = Vec::new();
        let mut k: usize = 0;
        while k < self.data().len()
            invariant
                k <= self@.len(),
                cells@.len() == k,
            decreases self@.len() - k,
        {
            cells.push(debug_text(&self.data()[k]));
            k = k + 1;
        }
        cells
    }

    /// The matrix as text: `{v00 v01 ,v10 v11 }`, each cell as `T`'s `Debug`
    /// writes it and followed by a space, the rows parted by commas.
    pub fn to_string(&self) -> (s: String)
        requires
            self.wf(),
        ensures
            exists|cells: Seq<Seq<char>>|
                cells.len() == self@.len() && s@ == #[trigger] matrix_text(
                    cells,
                    self.nrows(),
                    self.ncols(),
                ),
    {
        let cells = self.cell_texts();
        let s = layout(&cells, self.rows(), self.cols());
        assert(s@ == matrix_text(texts(cells@), self.nrows(), self.ncols()));
        s
    }

    /// The matrix as text with its dimensions: `Matrix(row=R, col=C, {..})`.
    pub fn to_debug_string(&self) -> (s: String)
        requires
            self.wf(),
        ensures
            exists|cells: Seq<Seq<char>>|
                cells.len() == self@.len() && s@ == #[trigger] matrix_debug_text(
                    cells,
                    self.nrows(),
                    self.ncols(),
                ),
    {
        let cells = self.cell_texts();
        let s = debug_layout(&cells, self.rows(), self.cols());
        assert(s@ == matrix_debug_text(texts(cells@), self.nrows(), self.ncols()));
        s
    }
}

} // verus!
