use crate::error::MatrixError;
use crate::vector::dot;
use crate::vector::dot_computable;
use crate::vector::dot_product;
use crate::vector::is_dot;
use crate::vector::is_zero;
use crate::vector::Vector;
use vstd::arithmetic::div_mod::lemma_fundamental_div_mod;
use vstd::arithmetic::div_mod::lemma_fundamental_div_mod_converse;
use vstd::arithmetic::div_mod::lemma_mod_bound;
use vstd::prelude::*;
use vstd::std_specs::ops::AddSpec;
use vstd::std_specs::ops::MulSpec;

verus! {

/// The number of workers that a pool of this engine runs.
pub const NUM_THREAD: usize = 4;

/// A dense matrix: `row * col` elements in one buffer, row after row.
pub struct Matrix<T> {
    data: Vec<T>,
    row: usize,
    col: usize,
}

/// What a worker needs to compute one cell of a product: the cell's place
/// in the output buffer, a row of the left matrix, a column of the right.
pub struct MsgInput<T> {
    pub idx: usize,
    pub row: Vector<T>,
    pub col: Vector<T>,
}

/// A computed cell: its place in the output buffer and its value.
pub struct MsgOutput<T> {
    pub idx: usize,
    pub result: T,
}

/// A task on its way to a worker: the input, and the sending end of the
/// channel on which the worker replies, once.
#[verifier::reject_recursive_types(T)]
pub struct Msg<T> {
    input: MsgInput<T>,
    sender: oneshot::Sender<MsgOutput<T>>,
}

impl<T> View for Matrix<T> {
    type V = Seq<T>;

    /// The buffer, row after row.
    closed spec fn view(&self) -> Seq<T> {
        self.data@
    }
}

/// A cell's place in the buffer of a matrix of `rows` rows and `cols` columns
/// is inside the buffer, and gives the cell's row and column back.
pub proof fn lemma_cell_index(i: int, j: int, rows: int, cols: int)
    requires
        0 <= i < rows,
        0 <= j < cols,
    ensures
        0 <= i * cols + j < rows * cols,
        (i * cols + j) / cols == i,
        (i * cols + j) % cols == j,
{
    assert(0 <= i * cols && (i + 1) * cols <= rows * cols) by (nonlinear_arith)
        requires
            0 <= i < rows,
            0 < cols,
    ;
    assert((i + 1) * cols == i * cols + cols) by (nonlinear_arith);
    lemma_fundamental_div_mod_converse(i * cols + j, cols, i, j);
}

/// A place in the buffer of a matrix of `rows` rows and `cols` columns is the
/// place of a cell: its quotient by `cols` is a row, the remainder a column.
pub proof fn lemma_place(k: int, rows: int, cols: int)
    requires
        0 <= k < rows * cols,
        0 <= rows,
        0 <= cols,
    ensures
        0 < cols,
        0 <= k / cols < rows,
        0 <= k % cols < cols,
        k == (k / cols) * cols + k % cols,
{
    assert(0 < cols) by (nonlinear_arith)
        requires
            0 <= k < rows * cols,
            0 <= cols,
    ;
    lemma_fundamental_div_mod(k, cols);
    lemma_mod_bound(k, cols);
    let q = k / cols;
    assert(q * cols == cols * q) by (nonlinear_arith);
    assert(0 <= q < rows) by (nonlinear_arith)
        requires
            0 <= k < rows * cols,
            0 < cols,
            k == q * cols + k % cols,
            0 <= k % cols < cols,
    ;
}

/// Row `i` of a buffer of `rows` rows starts and ends inside the buffer.
pub proof fn lemma_row_bounds(i: int, rows: int, cols: int)
    requires
        0 <= i < rows,
        0 <= cols,
    ensures
        0 <= i * cols,
        i * cols + cols <= rows * cols,
        (i + 1) * cols == i * cols + cols,
{
    assert(0 <= i * cols && (i + 1) * cols <= rows * cols) by (nonlinear_arith)
        requires
            0 <= i < rows,
            0 <= cols,
    ;
    assert((i + 1) * cols == i * cols + cols) by (nonlinear_arith);
}

impl<T> Matrix<T> {
    /// The number of rows.
    pub closed spec fn nrows(&self) -> nat {
        self.row as nat
    }

    /// The number of columns.
    pub closed spec fn ncols(&self) -> nat {
        self.col as nat
    }

    /// The buffer holds exactly `nrows() * ncols()` elements.
    pub open spec fn wf(&self) -> bool {
        self@.len() == self.nrows() * self.ncols()
    }

    /// The element in row `i`, column `j`.
    pub open spec fn at(&self, i: int, j: int) -> T {
        self@[i * self.ncols() + j]
    }

    /// Row `i`, from left to right.
    pub open spec fn row_seq(&self, i: int) -> Seq<T> {
        Seq::new(self.ncols(), |j: int| self.at(i, j))
    }

    /// Column `j`, from top to bottom.
    pub open spec fn col_seq(&self, j: int) -> Seq<T> {
        Seq::new(self.nrows(), |i: int| self.at(i, j))
    }

    /// Builds a matrix from a buffer and its dimensions. Nothing is checked:
    /// that the buffer has `row * col` elements is the caller's to see to,
    /// and `is_well_formed` tells.
    pub fn new(data: Vec<T>, row: usize, col: usize) -> (m: Self)
        ensures
            m@ == data@,
            m.nrows() == row,
            m.ncols() == col,
    {
        Matrix { data, row, col }
    }

    /// The number of rows.
    pub fn rows(&self) -> (n: usize)
        ensures
            n == self.nrows(),
    {
        self.row
    }

    /// The number of columns.
    pub fn cols(&self) -> (n: usize)
        ensures
            n == self.ncols(),
    {
        self.col
    }

    /// The buffer, row after row.
    pub fn data(&self) -> (d: &Vec<T>)
        ensures
            d@ == self@,
    {
        &self.data
    }

    /// Tells whether the buffer's length fits the dimensions.
    pub fn is_well_formed(&self) -> (ok: bool)
        ensures
            ok == self.wf(),
    {
        assert(self@.len() == self.data.len());
        match self.rows().checked_mul(self.cols()) {
            Some(n) => n == self.data.len(),
            None => false,
        }
    }

    /// The element in row `i`, column `j`.
    pub fn get(&self, i: usize, j: usize) -> (x: T) where T: Copy
        requires
            self.wf(),
            i < self.nrows(),
            j < self.ncols(),
        ensures
            x == self.at(i as int, j as int),
    {
        proof {
            lemma_cell_index(i as int, j as int, self.nrows() as int, self.ncols() as int);
            assert(self@.len() == self.data.len());
        }
        self.data[i * self.cols() + j]
    }

    /// Copies row `i` out.
    pub fn row(&self, i: usize) -> (v: Vector<T>) where T: Copy
        requires
            self.wf(),
            i < self.nrows(),
        ensures
            v@ == self.row_seq(i as int),
    {
        let mut out: Vec<T> = Vec::new();
        let mut j: usize = 0;
        while j < self.col
            invariant
                self.wf(),
                i < self.nrows(),
                j <= self.col,
                out@.len() == j,
                forall|k: int| 0 <= k < j ==> out@[k] == self.at(i as int, k),
            decreases self.col - j,
        {
            out.push(self.get(i, j));
            j = j + 1;
        }
        assert(out@ =~= self.row_seq(i as int));
        Vector::new(out)
    }

    /// Gathers column `j`.
    pub fn column(&self, j: usize) -> (v: Vector<T>) where T: Copy
        requires
            self.wf(),
            j < self.ncols(),
        ensures
            v@ == self.col_seq(j as int),
    {
        let mut out: Vec<T> = Vec::new();
        let mut i: usize = 0;
        while i < self.row
            invariant
                self.wf(),
                j < self.ncols(),
                i <= self.row,
                out@.len() == i,
                forall|k: int| 0 <= k < i ==> out@[k] == self.at(k, j as int),
            decreases self.row - i,
        {
            out.push(self.get(i, j));
            i = i + 1;
        }
        assert(out@ =~= self.col_seq(j as int));
        Vector::new(out)
    }
}

/// `v` is the value of the cell at place `k` of the product's buffer: the dot
/// product of the cell's row of `a` and the cell's column of `b`.
pub open spec fn is_cell<
    T: core::default::Default + core::ops::Add<Output = T> + core::ops::Mul<Output = T>,
>(a: Matrix<T>, b: Matrix<T>, k: int, v: T) -> bool {
    is_dot(v, a.row_seq(k / (b.ncols() as int)), b.col_seq(k % (b.ncols() as int)))
}

/// `data` is the buffer of the product of `a` and `b`.
pub open spec fn is_product_buffer<
    T: core::default::Default + core::ops::Add<Output = T> + core::ops::Mul<Output = T>,
>(a: Matrix<T>, b: Matrix<T>, data: Seq<T>) -> bool {
    &&& data.len() == a.nrows() * b.ncols()
    &&& forall|k: int| 0 <= k < data.len() ==> is_cell(a, b, k, #[trigger] data[k])
}

/// `c` is the product of `a` and `b`: it has the rows of `a`, the columns of
/// `b`, and the product's buffer.
pub open spec fn is_product<
    T: core::default::Default + core::ops::Add<Output = T> + core::ops::Mul<Output = T>,
>(a: Matrix<T>, b: Matrix<T>, c: Matrix<T>) -> bool {
    &&& c.wf()
    &&& c.nrows() == a.nrows()
    &&& c.ncols() == b.ncols()
    &&& is_product_buffer(a, b, c@)
}

/// `a` can be multiplied by `b`: `a` has as many columns as `b` has rows, and
/// the buffer of each holds what its dimensions say.
pub open spec fn fits<T>(a: Matrix<T>, b: Matrix<T>) -> bool {
    &&& a.ncols() == b.nrows()
    &&& a.wf()
    &&& b.wf()
}

/// The machine can compute the product of `a` and `b`: the product's buffer
/// has a length that `usize` holds, and the dot product of every row of `a`
/// with every column of `b` can be computed.
pub open spec fn computable<
    T: core::default::Default + core::ops::Add<Output = T> + core::ops::Mul<Output = T>,
>(a: Matrix<T>, b: Matrix<T>) -> bool {
    &&& a.nrows() * b.ncols() <= usize::MAX
    &&& forall|i: int, j: int|
        0 <= i < a.nrows() && 0 <= j < b.ncols() ==> #[trigger] dot_computable(
            a.row_seq(i),
            b.col_seq(j),
        )
}

/// Tells whether `a` can be multiplied by `b`.
pub fn matrices_fit<T>(a: &Matrix<T>, b: &Matrix<T>) -> (ok: bool)
    ensures
        ok == fits(*a, *b),
{
    a.cols() == b.rows() && a.is_well_formed() && b.is_well_formed()
}

/// What `multiply` returns for `a` and `b`.
pub open spec fn multiplied<
    T: core::default::Default + core::ops::Add<Output = T> + core::ops::Mul<Output = T>,
>(a: Matrix<T>, b: Matrix<T>, r: Result<Matrix<T>, MatrixError>) -> bool {
    &&& !fits(a, b) ==> r == Err::<Matrix<T>, MatrixError>(MatrixError::DimensionMismatch)
    &&& fits(a, b) ==> r is Ok && is_product(a, b, r->Ok_0)
}

impl<T> MsgInput<T> {
    /// The task for place `idx`, with the row and the column to multiply.
    pub fn new(idx: usize, row: Vector<T>, col: Vector<T>) -> (input: Self)
        ensures
            input.idx == idx,
            input.row == row,
            input.col == col,
    {
        MsgInput { idx, row, col }
    }

    /// Does the task's work: the dot product of its row and column, tagged
    /// with the task's place in the output.
    pub fn compute(self) -> (r: Result<MsgOutput<T>, MatrixError>) where
        T: Copy + core::default::Default + core::ops::Add<Output = T> + core::ops::Mul<Output = T>,

        requires
            self.row@.len() == self.col@.len() ==> dot_computable(self.row@, self.col@),
        ensures
            self.row@.len() == self.col@.len() ==> r is Ok && r->Ok_0.idx == self.idx && is_dot(
                r->Ok_0.result,
                self.row@,
                self.col@,
            ),
            self.row@.len() != self.col@.len() ==> r == Err::<MsgOutput<T>, MatrixError>(
                MatrixError::VectorLengthMismatch,
            ),
    {
        let idx = self.idx;
        match dot_product(self.row, self.col) {
            Ok(result) => Ok(MsgOutput { idx, result }),
            Err(e) => Err(e),
        }
    }
}

impl<T> Msg<T> {
    /// The task that the message carries.
    pub closed spec fn input(&self) -> MsgInput<T> {
        self.input
    }

    /// The sending end of the channel on which the task is answered.
    pub closed spec fn sender(&self) -> oneshot::Sender<MsgOutput<T>> {
        self.sender
    }

    /// A task with the channel on which to answer it.
    pub fn new(input: MsgInput<T>, sender: oneshot::Sender<MsgOutput<T>>) -> (msg: Self)
        ensures
            msg.input() == input,
            msg.sender() == sender,
    {
        Msg { input, sender }
    }

    /// A worker's step for one task: computes the task and sends the result
    /// on the task's own channel. `Ok(true)` says that the reply was taken,
    /// `Ok(false)` that nobody waits for it any more, which is no reason for
    /// the worker to stop. A task whose row and column differ in length is
    /// not answered.
    pub fn serve(self) -> (r: Result<bool, MatrixError>) where
        T: Copy + core::default::Default + core::ops::Add<Output = T> + core::ops::Mul<Output = T>,

        requires
            self.input().row@.len() == self.input().col@.len() ==> dot_computable(
                self.input().row@,
                self.input().col@,
            ),
        ensures
            self.input().row@.len() == self.input().col@.len() ==> r is Ok,
            self.input().row@.len() != self.input().col@.len() ==> r == Err::<bool, MatrixError>(
                MatrixError::VectorLengthMismatch,
            ),
    {
        match self.input.compute() {
            Ok(output) => match self.sender.send(output) {
                Ok(_) => Ok(true),
                Err(_) => Ok(false),
            },
            Err(e) => Err(e),
        }
    }
}

/// The task for the cell in row `i`, column `j` of the product of `a` and `b`.
pub fn task<T: Copy>(a: &Matrix<T>, b: &Matrix<T>, i: usize, j: usize) -> (input: MsgInput<T>)
    requires
        a.wf(),
        b.wf(),
        i < a.nrows(),
        j < b.ncols(),
        a.nrows() * b.ncols() <= usize::MAX,
    ensures
        input.idx == i * b.ncols() + j,
        input.row@ == a.row_seq(i as int),
        input.col@ == b.col_seq(j as int),
{
    proof {
        lemma_cell_index(i as int, j as int, a.nrows() as int, b.ncols() as int);
    }
    let row = a.row(i);
    let col = b.column(j);
    MsgInput::new(i * b.cols() + j, row, col)
}

/// `input` is the task for place `k` of the product of `a` and `b`.
pub open spec fn is_task<T>(a: Matrix<T>, b: Matrix<T>, k: int, input: MsgInput<T>) -> bool {
    &&& input.idx == k
    &&& input.row@ == a.row_seq(k / (b.ncols() as int))
    &&& input.col@ == b.col_seq(k % (b.ncols() as int))
}

/// The tasks of the product of `a` and `b`, one for each cell, row by row:
/// the task at `k` is the task for place `k`.
pub fn tasks<T: Copy>(a: &Matrix<T>, b: &Matrix<T>) -> (list: Vec<MsgInput<T>>)
    requires
        fits(*a, *b),
        a.nrows() * b.ncols() <= usize::MAX,
    ensures
        list@.len() == a.nrows() * b.ncols(),
        forall|k: int| 0 <= k < list@.len() ==> is_task(*a, *b, k, #[trigger] list@[k]),
{
    let mut list: Vec<MsgInput<T>> = Vec::new();
    let mut i: usize = 0;
    while i < a.rows()
        invariant
            fits(*a, *b),
            a.nrows() * b.ncols() <= usize::MAX,
            i <= a.nrows(),
            list@.len() == i * b.ncols(),
            forall|k: int| 0 <= k < list@.len() ==> is_task(*a, *b, k, #[trigger] list@[k]),
        decreases a.nrows() - i,
    {
        let mut j: usize = 0;
        while j < b.cols()
            invariant
                fits(*a, *b),
                a.nrows() * b.ncols() <= usize::MAX,
                i < a.nrows(),
                j <= b.ncols(),
                list@.len() == i * b.ncols() + j,
                forall|k: int| 0 <= k < list@.len() ==> is_task(*a, *b, k, #[trigger] list@[k]),
            decreases b.ncols() - j,
        {
            proof {
                lemma_cell_index(i as int, j as int, a.nrows() as int, b.ncols() as int);
            }
            list.push(task(a, b, i, j));
            j = j + 1;
        }
        proof {
            lemma_row_bounds(i as int, a.nrows() as int, b.ncols() as int);
        }
        i = i + 1;
    }
    list
}

/// A buffer of `len` zeros.
pub fn zeros<T: core::default::Default>(len: usize) -> (data: Vec<T>)
    ensures
        data@.len() == len,
        forall|k: int| 0 <= k < len ==> is_zero(#[trigger] data@[k]),
{
    let mut data: Vec<T> = Vec::new();
    let mut k: usize = 0;
    while k < len
        invariant
            k <= len,
            data@.len() == k,
            forall|p: int| 0 <= p < k ==> is_zero(#[trigger] data@[p]),
        decreases len - k,
    {
        let z = T::default();
        assert(is_zero(z));
        data.push(z);
        k = k + 1;
    }
    data
}

/// Writes a computed cell into the buffer at the place that the cell itself
/// names. A cell that names no place of the buffer is not written.
pub fn place<T: Copy>(data: &mut Vec<T>, output: &MsgOutput<T>) -> (placed: bool)
    ensures
        placed == (output.idx < old(data)@.len()),
        placed ==> final(data)@ == old(data)@.update(output.idx as int, output.result),
        !placed ==> final(data)@ == old(data)@,
{
    if output.idx < data.len() {
        data.set(output.idx, output.result);
        true
    } else {
        false
    }
}

/// The value that the last of `outputs` to name place `k` carries, if one
/// of them names it.
pub open spec fn last_written<T>(outputs: Seq<MsgOutput<T>>, k: int) -> Option<T>
    decreases outputs.len(),
{
    if outputs.len() == 0 {
        None
    } else if outputs.last().idx == k {
        Some(outputs.last().result)
    } else {
        last_written(outputs.drop_last(), k)
    }
}

/// `data` is the buffer of `len` places that `outputs` assemble to: each
/// place holds the value of the last output that names it, and a zero if
/// none does.
pub open spec fn assembles<T: core::default::Default>(
    outputs: Seq<MsgOutput<T>>,
    len: nat,
    data: Seq<T>,
) -> bool {
    &&& data.len() == len
    &&& forall|k: int|
        0 <= k < len ==> match last_written(outputs, k) {
            Some(v) => #[trigger] data[k] == v,
            None => is_zero(data[k]),
        }
}

/// Every cell of `outputs` names a place in a buffer of `len` elements.
pub open spec fn all_in_range<T>(outputs: Seq<MsgOutput<T>>, len: nat) -> bool {
    forall|p: int| 0 <= p < outputs.len() ==> (#[trigger] outputs[p]).idx < len
}

/// Builds the output buffer from computed cells, in whatever order they
/// come. Fails if one of them names a place outside the buffer.
pub fn assemble<T: Copy + core::default::Default>(outputs: &Vec<MsgOutput<T>>, len: usize) -> (r:
    Result<Vec<T>, MatrixError>)
    ensures
        all_in_range(outputs@, len as nat) ==> r is Ok && assembles(
            outputs@,
            len as nat,
            r->Ok_0@,
        ),
        !all_in_range(outputs@, len as nat) ==> r == Err::<Vec<T>, MatrixError>(
            MatrixError::ReceiveFailure,
        ),
{
    let mut data = zeros::<T>(len);
    assert(outputs@.take(0).len() == 0);
    let mut p: usize = 0;
    while p < outputs.len()
        invariant
            p <= outputs.len(),
            all_in_range(outputs@.take(p as int), len as nat),
            assembles(outputs@.take(p as int), len as nat, data@),
        decreases outputs.len() - p,
    {
        let ghost before = data@;
        proof {
            assert(outputs@.take(p + 1).drop_last() =~= outputs@.take(p as int));
            assert(outputs@.take(p + 1).last() == outputs@[p as int]);
        }
        if !place(&mut data, &outputs[p]) {
            return Err(MatrixError::ReceiveFailure);
        }
        proof {
            let cur = outputs@.take(p + 1);
            assert forall|q: int| 0 <= q < p + 1 implies (#[trigger] cur[q]).idx < len by {
                if q < p {
                    assert(outputs@.take(p as int)[q] == cur[q]);
                }
            }
            assert forall|k: int| 0 <= k < len implies match last_written(cur, k) {
                Some(v) => #[trigger] data@[k] == v,
                None => is_zero(data@[k]),
            } by {
                if k != outputs@[p as int].idx {
                    assert(data@[k] == before[k]);
                }
            }
        }
        p = p + 1;
    }
    assert(outputs@.take(p as int) =~= outputs@);
    Ok(data)
}

/// Does every task of `list`, in its order.
pub fn compute_all<T>(list: Vec<MsgInput<T>>) -> (r: Result<Vec<MsgOutput<T>>, MatrixError>) where
    T: Copy + core::default::Default + core::ops::Add<Output = T> + core::ops::Mul<Output = T>,

    requires
        forall|k: int|
            0 <= k < list@.len() && (#[trigger] list@[k]).row@.len() == list@[k].col@.len()
                ==> dot_computable(list@[k].row@, list@[k].col@),
    ensures
        match r {
            Ok(outputs) => {
                &&& outputs@.len() == list@.len()
                &&& forall|k: int|
                    0 <= k < list@.len() ==> (#[trigger] outputs@[k]).idx == list@[k].idx && is_dot(
                        outputs@[k].result,
                        list@[k].row@,
                        list@[k].col@,
                    )
            },
            Err(e) => e == MatrixError::VectorLengthMismatch,
        },
        r is Err <==> exists|k: int|
            0 <= k < list@.len() && (#[trigger] list@[k]).row@.len() != list@[k].col@.len(),
{
    let mut outputs: Vec<MsgOutput<T>> = Vec::new();
    for input in it: list
        invariant
            it.seq() == list@,
            forall|k: int|
                0 <= k < list@.len() && (#[trigger] list@[k]).row@.len() == list@[k].col@.len()
                    ==> dot_computable(list@[k].row@, list@[k].col@),
            outputs@.len() == it.index(),
            forall|k: int|
                0 <= k < it.index() ==> (#[trigger] list@[k]).row@.len() == list@[k].col@.len(),
            forall|k: int|
                0 <= k < it.index() ==> (#[trigger] outputs@[k]).idx == list@[k].idx && is_dot(
                    outputs@[k].result,
                    list@[k].row@,
                    list@[k].col@,
                ),
    {
        assert(input == list@[it.index() as int]);
        match input.compute() {
            Ok(output) => {
                outputs.push(output);
            },
            Err(e) => {
                return Err(e);
            },
        }
    }
    Ok(outputs)
}

/// Multiplies `a` by `b`, one task per cell of the output: the tasks are
/// built, each is computed, and the results are assembled, each at the place
/// that it names. All of it happens on the calling thread. Matrices that do
/// not fit are refused before anything is computed.
pub fn multiply<T>(a: &Matrix<T>, b: &Matrix<T>) -> (r: Result<Matrix<T>, MatrixError>) where
    T: Copy + core::default::Default + core::ops::Add<Output = T> + core::ops::Mul<Output = T>,

    requires
        fits(*a, *b) ==> computable(*a, *b),
    ensures
        multiplied(*a, *b, r),
        a.ncols() != b.nrows() ==> r == Err::<Matrix<T>, MatrixError>(
            MatrixError::DimensionMismatch,
        ),
{
    if !matrices_fit(a, b) {
        return Err(MatrixError::DimensionMismatch);
    }
    let len = a.rows() * b.cols();
    let list = tasks(a, b);
    proof {
        assert forall|k: int|
            0 <= k < list@.len() implies (#[trigger] list@[k]).row@.len() == list@[k].col@.len()
            && dot_computable(list@[k].row@, list@[k].col@) by {
            lemma_place(k, a.nrows() as int, b.ncols() as int);
            assert(is_task(*a, *b, k, list@[k]));
        }
    }
    // No task has a row and a column of different lengths, and every result
    // names a place of the buffer: neither step fails.
    let outputs = match compute_all(list) {
        Ok(outputs) => outputs,
        Err(e) => {
            return Err(e);
        },
    };
    proof {
        assert forall|k: int| 0 <= k < len implies #[trigger] names(outputs@, k) by {
            assert(outputs@[k].idx == k);
        }
    }
    match assemble(&outputs, len) {
        Ok(data) => {
            proof {
                lemma_assembled_is_product(*a, *b, outputs@, data@);
            }
            Ok(Matrix { data, row: a.row, col: b.col })
        },
        Err(e) => Err(e),
    }
}

impl<T> vstd::std_specs::ops::MulSpecImpl for Matrix<T> where
    T: Copy + core::default::Default + core::ops::Add<Output = T> + core::ops::Mul<Output = T>,
 {
    /// The product is stated by `mul`'s own `ensures`, not by `mul_spec`.
    open spec fn obeys_mul_spec() -> bool {
        false
    }

    open spec fn mul_req(self, rhs: Matrix<T>) -> bool {
        fits(self, rhs) && computable(self, rhs)
    }

    open spec fn mul_spec(self, rhs: Matrix<T>) -> Matrix<T> {
        arbitrary()
    }
}

impl<T> core::ops::Mul for Matrix<T> where
    T: Copy + core::default::Default + core::ops::Add<Output = T> + core::ops::Mul<Output = T>,
 {
    type Output = Matrix<T>;

    /// The operator form of `multiply`, for matrices that fit. On others it
    /// panics, and `mul_req` leaves them out.
    fn mul(self, rhs: Matrix<T>) -> (c: Matrix<T>)
        ensures
            is_product(self, rhs, c),
    {
        multiply(&self, &rhs).expect("Failed to multiply matrices")
    }
}

/// The cell in row `i`, column `j` of the product as three nested loops
/// compute it: the products `a[i][k] * b[k][j]` for `k` below `n`, added to
/// the zero `z` in the order of `k`.
pub open spec fn naive_cell<T: core::ops::Add<Output = T> + core::ops::Mul<Output = T>>(
    z: T,
    a: Matrix<T>,
    b: Matrix<T>,
    i: int,
    j: int,
    n: nat,
) -> T
    decreases n,
{
    if n == 0 {
        z
    } else {
        naive_cell(z, a, b, i, j, (n - 1) as nat).add_spec(a.at(i, n - 1).mul_spec(b.at(n - 1, j)))
    }
}

proof fn lemma_dot_is_naive<T: core::ops::Add<Output = T> + core::ops::Mul<Output = T>>(
    z: T,
    a: Matrix<T>,
    b: Matrix<T>,
    i: int,
    j: int,
    n: nat,
)
    requires
        n <= a.ncols(),
        n <= b.nrows(),
    ensures
        dot(z, a.row_seq(i).take(n as int), b.col_seq(j).take(n as int)) == naive_cell(
            z,
            a,
            b,
            i,
            j,
            n,
        ),
    decreases n,
{
    if n > 0 {
        lemma_dot_is_naive(z, a, b, i, j, (n - 1) as nat);
        let r = a.row_seq(i).take(n as int);
        let c = b.col_seq(j).take(n as int);
        assert(r.drop_last() =~= a.row_seq(i).take(n - 1));
        assert(c.drop_last() =~= b.col_seq(j).take(n - 1));
        assert(r.last() == a.at(i, n - 1));
        assert(c.last() == b.at(n - 1, j));
    }
}

/// Each cell of a product is what the naive triple loop computes for it,
/// from a zero of `T`.
pub proof fn lemma_product_is_naive<
    T: core::default::Default + core::ops::Add<Output = T> + core::ops::Mul<Output = T>,
>(a: Matrix<T>, b: Matrix<T>, c: Matrix<T>, i: int, j: int)
    requires
        fits(a, b),
        is_product(a, b, c),
        0 <= i < c.nrows(),
        0 <= j < c.ncols(),
    ensures
        exists|z: T| #[trigger] is_zero(z) && c.at(i, j) == naive_cell(z, a, b, i, j, a.ncols()),
{
    lemma_cell_index(i, j, a.nrows() as int, b.ncols() as int);
    let k = i * b.ncols() + j;
    assert(is_cell(a, b, k, c@[k]));
    let z = choose|z: T| #[trigger] is_zero(z) && c@[k] == dot(z, a.row_seq(i), b.col_seq(j));
    lemma_dot_is_naive(z, a, b, i, j, a.ncols());
    assert(a.row_seq(i).take(a.ncols() as int) =~= a.row_seq(i));
    assert(b.col_seq(j).take(a.ncols() as int) =~= b.col_seq(j));
}

/// A matrix is the product of `a` and `b` in one way only: two products have
/// the same dimensions and the same buffer.
pub proof fn lemma_product_is_one<
    T: core::default::Default + core::ops::Add<Output = T> + core::ops::Mul<Output = T>,
>(a: Matrix<T>, b: Matrix<T>, c1: Matrix<T>, c2: Matrix<T>)
    requires
        fits(a, b),
        computable(a, b),
        is_product(a, b, c1),
        is_product(a, b, c2),
    ensures
        c1.nrows() == c2.nrows(),
        c1.ncols() == c2.ncols(),
        c1@ == c2@,
{
    assert forall|k: int| 0 <= k < c1@.len() implies c1@[k] == c2@[k] by {
        lemma_place(k, a.nrows() as int, b.ncols() as int);
        assert(dot_computable(
            a.row_seq(k / (b.ncols() as int)),
            b.col_seq(k % (b.ncols() as int)),
        ));
        assert(is_cell(a, b, k, c1@[k]));
        assert(is_cell(a, b, k, c2@[k]));
    }
    assert(c1@ =~= c2@);
}

/// Two calls of `multiply` on the same matrices return the same: the same
/// error, or matrices with the same dimensions and the same buffer, element
/// for element.
pub proof fn lemma_multiply_repeatable<
    T: core::default::Default + core::ops::Add<Output = T> + core::ops::Mul<Output = T>,
>(a: Matrix<T>, b: Matrix<T>, r1: Result<Matrix<T>, MatrixError>, r2: Result<Matrix<T>, MatrixError>)
    requires
        fits(a, b) ==> computable(a, b),
        multiplied(a, b, r1),
        multiplied(a, b, r2),
    ensures
        r1 is Err ==> r1 == r2,
        r1 is Ok ==> r2 is Ok && r1->Ok_0.nrows() == r2->Ok_0.nrows() && r1->Ok_0.ncols()
            == r2->Ok_0.ncols() && r1->Ok_0@ == r2->Ok_0@,
        fits(a, b) <==> r1 is Ok,
{
    if fits(a, b) {
        lemma_product_is_one(a, b, r1->Ok_0, r2->Ok_0);
    }
}

/// The operator form and `multiply` agree: where `*` may be used, `multiply`
/// returns `Ok`, and the matrix of `*` has the dimensions and the buffer of
/// the one that `multiply` returns. `*` may be used on no matrices on which
/// `multiply` returns an error.
pub proof fn lemma_operator_is_multiply<
    T: Copy + core::default::Default + core::ops::Add<Output = T> + core::ops::Mul<Output = T>,
>(a: Matrix<T>, b: Matrix<T>, r: Result<Matrix<T>, MatrixError>, c: Matrix<T>)
    requires
        fits(a, b) ==> computable(a, b),
        multiplied(a, b, r),
        a.mul_req(b) ==> is_product(a, b, c),
    ensures
        r is Err ==> !a.mul_req(b),
        a.mul_req(b) <==> r is Ok,
        a.mul_req(b) ==> c.nrows() == r->Ok_0.nrows() && c.ncols() == r->Ok_0.ncols() && c@
            == r->Ok_0@,
{
    if a.mul_req(b) {
        lemma_product_is_one(a, b, c, r->Ok_0);
    }
}

/// One of `outputs` names place `k`.
pub open spec fn names<T>(outputs: Seq<MsgOutput<T>>, k: int) -> bool {
    exists|p: int| 0 <= p < outputs.len() && (#[trigger] outputs[p]).idx == k
}

proof fn lemma_last_written<T>(outputs: Seq<MsgOutput<T>>, k: int)
    requires
        names(outputs, k),
    ensures
        exists|p: int|
            0 <= p < outputs.len() && (#[trigger] outputs[p]).idx == k && last_written(outputs, k)
                == Some(outputs[p].result),
    decreases outputs.len(),
{
    let rest = outputs.drop_last();
    if outputs.last().idx == k {
        assert(outputs[outputs.len() - 1].idx == k);
    } else {
        let p = choose|p: int| 0 <= p < outputs.len() && (#[trigger] outputs[p]).idx == k;
        assert(rest[p] == outputs[p]);
        assert(names(rest, k));
        lemma_last_written(rest, k);
        let q = choose|q: int|
            0 <= q < rest.len() && (#[trigger] rest[q]).idx == k && last_written(rest, k) == Some(
                rest[q].result,
            );
        assert(outputs[q] == rest[q]);
    }
}

/// The order of the replies does not matter: if every reply carries the
/// value of the cell that it names, and every cell of the product is named
/// by a reply, the buffer that the replies assemble to is the product's.
pub proof fn lemma_assembled_is_product<
    T: core::default::Default + core::ops::Add<Output = T> + core::ops::Mul<Output = T>,
>(a: Matrix<T>, b: Matrix<T>, outputs: Seq<MsgOutput<T>>, data: Seq<T>)
    requires
        assembles(outputs, a.nrows() * b.ncols(), data),
        forall|p: int|
            0 <= p < outputs.len() ==> is_cell(
                a,
                b,
                (#[trigger] outputs[p]).idx as int,
                outputs[p].result,
            ),
        forall|k: int| 0 <= k < a.nrows() * b.ncols() ==> #[trigger] names(outputs, k),
    ensures
        is_product_buffer(a, b, data),
{
    assert forall|k: int| 0 <= k < data.len() implies is_cell(a, b, k, #[trigger] data[k]) by {
        assert(names(outputs, k));
        lemma_last_written(outputs, k);
    }
}

} // verus!
