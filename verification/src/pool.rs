//! The dispatcher and the collector of a pool of workers: tasks go out on
//! the workers' queues, replies come back on one channel per task.

use crate::error::MatrixError;
use crate::matrix::all_in_range;
use crate::matrix::assemble;
use crate::matrix::assembles;
use crate::matrix::fits;
use crate::matrix::matrices_fit;
use crate::matrix::tasks;
use crate::matrix::Matrix;
use crate::matrix::Msg;
use crate::matrix::MsgInput;
use crate::matrix::MsgOutput;
use vstd::prelude::*;

verus! {

/// The worker that the task for place `idx` goes to, of `workers` workers.
pub fn worker_of(idx: usize, workers: usize) -> (w: usize)
    requires
        workers > 0,
    ensures
        w == idx % workers,
{
    idx % workers
}

/// Hands each task of `list` to a worker, the task for place `idx` to worker
/// `worker_of(idx, workers.len())`, in the order of the list, and returns the receiving
/// ends of the tasks' reply channels in the same order. The first task that
/// its worker's queue does not take ends the posting, and so does a task for
/// which there is no worker.
pub fn post<T>(list: Vec<MsgInput<T>>, workers: &Vec<std::sync::mpsc::Sender<Msg<T>>>) -> (r:
    Result<Vec<oneshot::Receiver<MsgOutput<T>>>, MatrixError>)
    ensures
        match r {
            Ok(receivers) => receivers@.len() == list@.len(),
            Err(e) => e == MatrixError::DispatchFailure && list@.len() > 0,
        },
        list@.len() > 0 && workers@.len() == 0 ==> r is Err,
{
    let mut receivers: Vec<oneshot::Receiver<MsgOutput<T>>> = Vec::new();
    for input in it: list
        invariant
            it.seq() == list@,
            receivers@.len() == it.index(),
            receivers@.len() > 0 ==> workers@.len() > 0,
    {
        if workers.len() == 0 {
            return Err(MatrixError::DispatchFailure);
        }
        let worker = worker_of(input.idx, workers.len());
        let (reply_tx, reply_rx) = oneshot::channel::<MsgOutput<T>>();
        let msg = Msg::new(input, reply_tx);
        match workers[worker].send(msg) {
            Ok(_) => {
                receivers.push(reply_rx);
            },
            Err(_) => {
                return Err(MatrixError::DispatchFailure);
            },
        }
    }
    Ok(receivers)
}

/// Hands the tasks of the product of `a` and `b` to the workers behind
/// `workers`, and returns the receiving ends of the tasks' reply channels,
/// the one for place `k` at `k`. Nothing is sent if the matrices do not fit.
pub fn dispatch<T: Copy>(
    a: &Matrix<T>,
    b: &Matrix<T>,
    workers: &Vec<std::sync::mpsc::Sender<Msg<T>>>,
) -> (r: Result<Vec<oneshot::Receiver<MsgOutput<T>>>, MatrixError>)
    requires
        fits(*a, *b) ==> a.nrows() * b.ncols() <= usize::MAX,
    ensures
        !fits(*a, *b) ==> r is Err && r->Err_0 == MatrixError::DimensionMismatch,
        fits(*a, *b) ==> match r {
            Ok(receivers) => receivers@.len() == a.nrows() * b.ncols(),
            Err(e) => e == MatrixError::DispatchFailure && a.nrows() * b.ncols() > 0,
        },
        fits(*a, *b) && a.nrows() * b.ncols() > 0 && workers@.len() == 0 ==> r is Err,
{
    if !matrices_fit(a, b) {
        return Err(MatrixError::DimensionMismatch);
    }
    post(tasks(a, b), workers)
}

/// Waits for every reply, in the order of `receivers`. A reply that never
/// comes, because its sender was dropped, ends the wait.
pub fn gather<T>(receivers: Vec<oneshot::Receiver<MsgOutput<T>>>) -> (r: Result<
    Vec<MsgOutput<T>>,
    MatrixError,
>)
    ensures
        match r {
            Ok(outputs) => outputs@.len() == receivers@.len(),
            Err(e) => e == MatrixError::ReceiveFailure && receivers@.len() > 0,
        },
{
    let mut outputs: Vec<MsgOutput<T>> = Vec::new();
    for reply_rx in it: receivers
        invariant
            outputs@.len() == it.index(),
    {
        match reply_rx.recv() {
            Ok(output) => {
                outputs.push(output);
            },
            Err(_) => {
                return Err(MatrixError::ReceiveFailure);
            },
        }
    }
    Ok(outputs)
}

/// Waits for every reply and builds the output buffer of `len` places from
/// them: each reply is written at the place that it names, whatever the
/// order in which the workers finished.
pub fn collect<T: Copy + core::default::Default>(
    receivers: Vec<oneshot::Receiver<MsgOutput<T>>>,
    len: usize,
) -> (r: Result<Vec<T>, MatrixError>)
    ensures
        match r {
            Ok(data) => exists|outputs: Seq<MsgOutput<T>>|
                outputs.len() == receivers@.len() && all_in_range(outputs, len as nat)
                    && #[trigger] assembles(outputs, len as nat, data@),
            Err(e) => e == MatrixError::ReceiveFailure && receivers@.len() > 0,
        },
{
    match gather(receivers) {
        Ok(outputs) => assemble(&outputs, len),
        Err(e) => Err(e),
    }
}

} // verus!
