use concurrency::dot_product;
use concurrency::matrix::assemble;
use concurrency::matrix::compute_all;
use concurrency::matrix::matrices_fit;
use concurrency::pool::collect;
use concurrency::pool::dispatch;
use concurrency::pool::gather;
use concurrency::pool::post;
use concurrency::pool::worker_of;
use concurrency::render::debug_layout;
use concurrency::render::layout;
use concurrency::matrix::place;
use concurrency::matrix::task;
use concurrency::matrix::tasks;
use concurrency::matrix::zeros;
use concurrency::matrix::NUM_THREAD;
use concurrency::multiply;
use concurrency::Matrix;
use concurrency::MatrixError;
use concurrency::Msg;
use concurrency::MsgInput;
use concurrency::MsgOutput;
use concurrency::Vector;

fn naive(a: &[i64], b: &[i64], m: usize, k: usize, n: usize) -> Vec<i64> {
    let mut c = vec![0i64; m * n];
    for i in 0..m {
        for j in 0..n {
            let mut sum = 0i64;
            for x in 0..k {
                sum += a[i * k + x] * b[x * n + j];
            }
            c[i * n + j] = sum;
        }
    }
    c
}

#[test]
fn test_multiply_matrix() {
    let a = Matrix::new(vec![1, 2, 3, 4, 5, 6], 2, 3);
    let b = Matrix::new(vec![1, 2, 3, 4, 5, 6], 3, 2);
    println!("{:?}", a.to_debug_string());
    println!("{:?}", b.to_debug_string());
    let c = a * b;
    println!("{:?}", c.to_debug_string());
    assert!(c.data() == &vec![22, 28, 49, 64]);
}

#[test]
fn test_matrix_new() {
    let a = Matrix::new(vec![1, 2, 3, 4, 5, 6], 2, 3);
    println!("{:?}", a.to_debug_string());
    assert!(a.data() == &vec![1, 2, 3, 4, 5, 6]);
}

#[test]
fn test_a_can_not_multiply_b() {
    let a = Matrix::new(vec![1, 2, 3, 4, 5, 6], 2, 3);
    let b = Matrix::new(vec![1, 2, 3, 4, 5, 6], 3, 3);
    let c = multiply(&a, &b);
    assert!(c.is_err());
}

#[test]
#[should_panic]
fn text_a_can_not_multiply_b_panic() {
    let a = Matrix::new(vec![1, 2, 3, 4, 5, 6], 2, 3);
    let b = Matrix::new(vec![1, 2, 3, 4, 5, 6], 2, 3);
    let _ = a * b;
}

#[test]
fn product_of_two_by_three_and_three_by_two() {
    let a = Matrix::new(vec![1, 2, 3, 4, 5, 6], 2, 3);
    let b = Matrix::new(vec![1, 2, 3, 4, 5, 6], 3, 2);
    let c = multiply(&a, &b).unwrap();
    assert_eq!(c.rows(), 2);
    assert_eq!(c.cols(), 2);
    assert_eq!(c.data(), &vec![22, 28, 49, 64]);
    assert_eq!(c.to_string(), "{22 28 ,49 64 }");
    assert_eq!(c.to_debug_string(), "Matrix(row=2, col=2, {22 28 ,49 64 })");
}

#[test]
fn product_equals_the_naive_triple_loop() {
    let shapes: [(usize, usize, usize); 6] =
        [(1, 1, 1), (2, 3, 2), (3, 2, 4), (4, 4, 4), (1, 5, 1), (5, 1, 5)];
    for (m, k, n) in shapes {
        let a: Vec<i64> = (0..m * k).map(|x| (x as i64) * 3 - 7).collect();
        let b: Vec<i64> = (0..k * n).map(|x| 11 - (x as i64) * 2).collect();
        let expected = naive(&a, &b, m, k, n);
        let c = multiply(&Matrix::new(a, m, k), &Matrix::new(b, k, n)).unwrap();
        assert_eq!(c.rows(), m);
        assert_eq!(c.cols(), n);
        assert_eq!(c.data(), &expected);
    }
}

#[test]
fn product_with_an_empty_inner_dimension_is_all_zeros() {
    let a: Matrix<i32> = Matrix::new(vec![], 2, 0);
    let b: Matrix<i32> = Matrix::new(vec![], 0, 3);
    let c = multiply(&a, &b).unwrap();
    assert_eq!(c.rows(), 2);
    assert_eq!(c.cols(), 3);
    assert_eq!(c.data(), &vec![0; 6]);
}

#[test]
fn product_without_rows_is_empty() {
    let a: Matrix<i32> = Matrix::new(vec![], 0, 2);
    let b: Matrix<i32> = Matrix::new(vec![1, 2, 3, 4], 2, 2);
    let c = multiply(&a, &b).unwrap();
    assert_eq!(c.rows(), 0);
    assert_eq!(c.cols(), 2);
    assert!(c.data().is_empty());
    assert_eq!(c.to_string(), "{}");
    assert_eq!(c.to_debug_string(), "Matrix(row=0, col=2, {})");
}

#[test]
fn mismatched_dimensions_are_refused() {
    let a = Matrix::new(vec![1, 2, 3, 4, 5, 6], 2, 3);
    let b = Matrix::new(vec![1, 2, 3, 4], 2, 2);
    assert!(matches!(multiply(&a, &b), Err(MatrixError::DimensionMismatch)));
    let one = Matrix::new(vec![7], 1, 1);
    let two = Matrix::new(vec![1, 2], 2, 1);
    assert!(matches!(multiply(&one, &two), Err(MatrixError::DimensionMismatch)));
    assert!(matches!(multiply(&two, &two), Err(MatrixError::DimensionMismatch)));
    assert_eq!(a.data(), &vec![1, 2, 3, 4, 5, 6]);
    assert_eq!(b.data(), &vec![1, 2, 3, 4]);
}

#[test]
fn a_buffer_that_does_not_fill_its_dimensions_is_refused() {
    let a = Matrix::new(vec![1, 2, 3, 4, 5], 2, 3);
    let b = Matrix::new(vec![1, 2, 3, 4, 5, 6], 3, 2);
    assert!(!a.is_well_formed());
    assert!(b.is_well_formed());
    assert!(matches!(multiply(&a, &b), Err(MatrixError::DimensionMismatch)));
    let huge: Matrix<i32> = Matrix::new(vec![], usize::MAX, 2);
    assert!(!huge.is_well_formed());
}

#[test]
fn multiply_twice_gives_the_same() {
    let a = Matrix::new(vec![3, -1, 4, 1, -5, 9, 2, 6, -5], 3, 3);
    let b = Matrix::new(vec![3, 5, 8, -9, 7, 9, 3, 2, -3], 3, 3);
    let first = multiply(&a, &b).unwrap();
    let second = multiply(&a, &b).unwrap();
    assert_eq!(first.rows(), second.rows());
    assert_eq!(first.cols(), second.cols());
    assert_eq!(first.data(), second.data());
    assert_eq!(first.data(), &vec![30, 16, 3, 75, -12, -64, -63, 42, 85]);
}

#[test]
fn operator_form_multiplies() {
    let a = Matrix::new(vec![2u64, 0, 0, 2], 2, 2);
    let b = Matrix::new(vec![1u64, 2, 3, 4], 2, 2);
    let c = a * b;
    assert_eq!(c.data(), &vec![2, 4, 6, 8]);
}

#[test]
fn dot_product_adds_the_products() {
    let r = dot_product(Vector::new(vec![1, 2, 3]), Vector::new(vec![4, 5, 6]));
    assert_eq!(r, Ok(32));
    let r = dot_product(Vector::new(vec![-2i64]), Vector::new(vec![21i64]));
    assert_eq!(r, Ok(-42));
    let r = dot_product(Vector::<u8>::new(vec![]), Vector::<u8>::new(vec![]));
    assert_eq!(r, Ok(0));
}

#[test]
fn dot_product_refuses_different_lengths() {
    let r = dot_product(Vector::new(vec![1, 2, 3]), Vector::new(vec![4, 5]));
    assert_eq!(r, Err(MatrixError::VectorLengthMismatch));
    let r = dot_product(Vector::new(vec![]), Vector::new(vec![4]));
    assert_eq!(r, Err(MatrixError::VectorLengthMismatch));
}

#[test]
fn vector_hands_its_elements_out() {
    let v = Vector::new(vec![5, 6, 7]);
    assert_eq!(v.len(), 3);
    assert_eq!(v.get(0), 5);
    assert_eq!(v.get(2), 7);
}

#[test]
fn matrix_rows_columns_and_cells() {
    let m = Matrix::new(vec![1, 2, 3, 4, 5, 6], 2, 3);
    assert!(m.is_well_formed());
    assert_eq!(m.rows(), 2);
    assert_eq!(m.cols(), 3);
    assert_eq!(m.get(0, 0), 1);
    assert_eq!(m.get(1, 2), 6);
    assert_eq!(m.get(1, 0), 4);
    let row = m.row(1);
    assert_eq!((row.len(), row.get(0), row.get(1), row.get(2)), (3, 4, 5, 6));
    let col = m.column(1);
    assert_eq!((col.len(), col.get(0), col.get(1)), (2, 2, 5));
}

#[test]
fn matrix_text_has_no_comma_after_the_last_row() {
    let m = Matrix::new(vec![1, 2, 3, 4, 5, 6], 2, 3);
    assert_eq!(m.to_string(), "{1 2 3 ,4 5 6 }");
    assert_eq!(m.to_debug_string(), "Matrix(row=2, col=3, {1 2 3 ,4 5 6 })");
    let tall = Matrix::new(vec![1, 2, 3, 4, 5, 6], 3, 2);
    assert_eq!(tall.to_string(), "{1 2 ,3 4 ,5 6 }");
    let words = Matrix::new(vec!["a", "b"], 1, 2);
    assert_eq!(words.to_string(), "{\"a\" \"b\" }");
}

#[test]
fn layout_joins_the_cells() {
    let cells: Vec<String> = vec!["x".to_string(), "yy".to_string(), "".to_string(), "z".to_string()];
    assert_eq!(layout(&cells, 2, 2), "{x yy , z }");
    assert_eq!(layout(&cells, 4, 1), "{x ,yy , ,z }");
    assert_eq!(layout(&cells, 1, 4), "{x yy  z }");
    assert_eq!(layout(&Vec::new(), 0, 0), "{}");
    assert_eq!(layout(&Vec::new(), 3, 0), "{,,}");
}

#[test]
fn task_carries_its_row_column_and_place() {
    let a = Matrix::new(vec![1, 2, 3, 4, 5, 6], 2, 3);
    let b = Matrix::new(vec![7, 8, 9, 10, 11, 12], 3, 2);
    let t = task(&a, &b, 1, 0);
    assert_eq!(t.idx, 2);
    assert_eq!((t.row.get(0), t.row.get(1), t.row.get(2)), (4, 5, 6));
    assert_eq!((t.col.get(0), t.col.get(1), t.col.get(2)), (7, 9, 11));
    let out = t.compute().unwrap();
    assert_eq!(out.idx, 2);
    assert_eq!(out.result, 4 * 7 + 5 * 9 + 6 * 11);
}

#[test]
fn compute_refuses_a_task_of_different_lengths() {
    let input = MsgInput::new(3, Vector::new(vec![1, 2]), Vector::new(vec![1]));
    assert!(matches!(input.compute(), Err(MatrixError::VectorLengthMismatch)));
}

#[test]
fn place_writes_where_the_cell_says() {
    let mut data = zeros::<i32>(3);
    assert_eq!(data, vec![0, 0, 0]);
    assert!(place(&mut data, &MsgOutput { idx: 1, result: 9 }));
    assert_eq!(data, vec![0, 9, 0]);
    assert!(!place(&mut data, &MsgOutput { idx: 3, result: 5 }));
    assert_eq!(data, vec![0, 9, 0]);
}

#[test]
fn assemble_does_not_depend_on_the_order() {
    let in_order = vec![
        MsgOutput { idx: 0, result: 22 },
        MsgOutput { idx: 1, result: 28 },
        MsgOutput { idx: 2, result: 49 },
        MsgOutput { idx: 3, result: 64 },
    ];
    let shuffled = vec![
        MsgOutput { idx: 2, result: 49 },
        MsgOutput { idx: 0, result: 22 },
        MsgOutput { idx: 3, result: 64 },
        MsgOutput { idx: 1, result: 28 },
    ];
    assert_eq!(assemble(&in_order, 4), Ok(vec![22, 28, 49, 64]));
    assert_eq!(assemble(&shuffled, 4), Ok(vec![22, 28, 49, 64]));
    let partial = vec![MsgOutput { idx: 2, result: 5 }];
    assert_eq!(assemble(&partial, 3), Ok(vec![0, 0, 5]));
}

#[test]
fn assemble_refuses_a_cell_outside_the_buffer() {
    let outputs = vec![MsgOutput { idx: 0, result: 1 }, MsgOutput { idx: 4, result: 2 }];
    assert_eq!(assemble(&outputs, 4), Err(MatrixError::ReceiveFailure));
}

#[test]
fn dispatch_serve_and_collect_give_the_product() {
    let a = Matrix::new(vec![1, 2, 3, 4, 5, 6], 2, 3);
    let b = Matrix::new(vec![1, 2, 3, 4, 5, 6], 3, 2);
    let mut senders = Vec::new();
    let mut queues = Vec::new();
    for _ in 0..NUM_THREAD {
        let (tx, rx) = std::sync::mpsc::channel::<Msg<i32>>();
        senders.push(tx);
        queues.push(rx);
    }
    let receivers = dispatch(&a, &b, &senders).unwrap();
    assert_eq!(receivers.len(), 4);
    drop(senders);
    let mut served = 0;
    for queue in queues.iter().rev() {
        let mut here = 0;
        for msg in queue.iter() {
            assert_eq!(msg.serve(), Ok(true));
            here += 1;
        }
        assert_eq!(here, 1);
        served += here;
    }
    assert_eq!(served, 4);
    assert_eq!(collect(receivers, 4), Ok(vec![22, 28, 49, 64]));
}

#[test]
fn dispatch_sends_task_idx_to_worker_idx_modulo_pool() {
    let a = Matrix::new(vec![1, 2, 3], 3, 1);
    let b = Matrix::new(vec![1, 2], 1, 2);
    let (tx0, rx0) = std::sync::mpsc::channel::<Msg<i32>>();
    let (tx1, rx1) = std::sync::mpsc::channel::<Msg<i32>>();
    let senders = vec![tx0, tx1];
    let receivers = dispatch(&a, &b, &senders).unwrap();
    drop(senders);
    assert_eq!(rx0.iter().count(), 3);
    assert_eq!(rx1.iter().count(), 3);
    assert!(matches!(gather(receivers), Err(MatrixError::ReceiveFailure)));
}

#[test]
fn dispatch_refuses_matrices_that_do_not_fit() {
    let a = Matrix::new(vec![1, 2, 3, 4, 5, 6], 2, 3);
    let b = Matrix::new(vec![1, 2, 3, 4], 2, 2);
    let (tx, rx) = std::sync::mpsc::channel::<Msg<i32>>();
    let r = dispatch(&a, &b, &vec![tx]);
    assert!(matches!(r, Err(MatrixError::DimensionMismatch)));
    assert!(rx.try_recv().is_err());
}

#[test]
fn dispatch_fails_when_a_queue_is_closed() {
    let a = Matrix::new(vec![1, 2], 1, 2);
    let b = Matrix::new(vec![3, 4], 2, 1);
    let (tx, rx) = std::sync::mpsc::channel::<Msg<i32>>();
    drop(rx);
    let r = dispatch(&a, &b, &vec![tx]);
    assert!(matches!(r, Err(MatrixError::DispatchFailure)));
}

#[test]
fn dispatch_fails_without_workers_unless_there_is_nothing_to_do() {
    let a = Matrix::new(vec![1, 2], 1, 2);
    let b = Matrix::new(vec![3, 4], 2, 1);
    let none: Vec<std::sync::mpsc::Sender<Msg<i32>>> = Vec::new();
    assert!(matches!(dispatch(&a, &b, &none), Err(MatrixError::DispatchFailure)));
    let empty: Matrix<i32> = Matrix::new(vec![], 0, 2);
    let r = dispatch(&empty, &b, &none).unwrap();
    assert!(r.is_empty());
}

#[test]
fn serve_tells_when_nobody_waits_for_the_reply() {
    let (reply_tx, reply_rx) = oneshot::channel::<MsgOutput<i32>>();
    drop(reply_rx);
    let input = MsgInput::new(0, Vector::new(vec![1, 2]), Vector::new(vec![3, 4]));
    assert_eq!(Msg::new(input, reply_tx).serve(), Ok(false));
}

#[test]
fn serve_replies_with_the_dot_product() {
    let (reply_tx, reply_rx) = oneshot::channel::<MsgOutput<i32>>();
    let input = MsgInput::new(5, Vector::new(vec![1, 2]), Vector::new(vec![3, 4]));
    assert_eq!(Msg::new(input, reply_tx).serve(), Ok(true));
    let out = reply_rx.recv().unwrap();
    assert_eq!((out.idx, out.result), (5, 11));
}

#[test]
fn serve_does_not_answer_a_task_of_different_lengths() {
    let (reply_tx, reply_rx) = oneshot::channel::<MsgOutput<i32>>();
    let input = MsgInput::new(0, Vector::new(vec![1, 2]), Vector::new(vec![3]));
    assert_eq!(Msg::new(input, reply_tx).serve(), Err(MatrixError::VectorLengthMismatch));
    assert!(reply_rx.recv().is_err());
}

#[test]
fn collect_fails_when_a_reply_never_comes() {
    let (first_tx, first_rx) = oneshot::channel::<MsgOutput<i32>>();
    let (second_tx, second_rx) = oneshot::channel::<MsgOutput<i32>>();
    first_tx.send(MsgOutput { idx: 0, result: 1 }).unwrap();
    drop(second_tx);
    assert_eq!(collect(vec![first_rx, second_rx], 2), Err(MatrixError::ReceiveFailure));
}

#[test]
fn collect_places_replies_by_their_own_index() {
    let (first_tx, first_rx) = oneshot::channel::<MsgOutput<i32>>();
    let (second_tx, second_rx) = oneshot::channel::<MsgOutput<i32>>();
    second_tx.send(MsgOutput { idx: 0, result: 10 }).unwrap();
    first_tx.send(MsgOutput { idx: 1, result: 20 }).unwrap();
    assert_eq!(collect(vec![first_rx, second_rx], 2), Ok(vec![10, 20]));
    assert_eq!(collect(Vec::<oneshot::Receiver<MsgOutput<i32>>>::new(), 2), Ok(vec![0, 0]));
}

#[test]
fn collect_refuses_a_reply_for_a_cell_outside_the_buffer() {
    let (tx, rx) = oneshot::channel::<MsgOutput<i32>>();
    tx.send(MsgOutput { idx: 2, result: 10 }).unwrap();
    assert_eq!(collect(vec![rx], 2), Err(MatrixError::ReceiveFailure));
}

#[test]
fn tasks_list_every_cell_row_by_row() {
    let a = Matrix::new(vec![1, 2, 3, 4, 5, 6], 2, 3);
    let b = Matrix::new(vec![7, 8, 9, 10, 11, 12], 3, 2);
    let list = tasks(&a, &b);
    assert_eq!(list.len(), 4);
    for (k, t) in list.iter().enumerate() {
        assert_eq!(t.idx, k);
        assert_eq!(t.row.len(), 3);
        assert_eq!(t.col.len(), 3);
        for x in 0..3 {
            assert_eq!(t.row.get(x), a.get(k / 2, x));
            assert_eq!(t.col.get(x), b.get(x, k % 2));
        }
    }
    let none = tasks(&Matrix::<i32>::new(vec![], 0, 3), &Matrix::<i32>::new(vec![], 3, 0));
    assert!(none.is_empty());
}

#[test]
fn compute_all_does_every_task_in_order() {
    let a = Matrix::new(vec![1, 2, 3, 4, 5, 6], 2, 3);
    let b = Matrix::new(vec![1, 2, 3, 4, 5, 6], 3, 2);
    let outputs = compute_all(tasks(&a, &b)).unwrap();
    let cells: Vec<(usize, i32)> = outputs.iter().map(|o| (o.idx, o.result)).collect();
    assert_eq!(cells, vec![(0, 22), (1, 28), (2, 49), (3, 64)]);
    assert!(compute_all(Vec::<MsgInput<i32>>::new()).unwrap().is_empty());
}

#[test]
fn compute_all_refuses_a_task_of_different_lengths() {
    let list = vec![
        MsgInput::new(0, Vector::new(vec![1]), Vector::new(vec![2])),
        MsgInput::new(1, Vector::new(vec![1, 2]), Vector::new(vec![2])),
    ];
    assert!(matches!(compute_all(list), Err(MatrixError::VectorLengthMismatch)));
}

#[test]
fn post_hands_each_task_to_its_worker() {
    let list = vec![
        MsgInput::new(0, Vector::new(vec![1]), Vector::new(vec![2])),
        MsgInput::new(5, Vector::new(vec![3]), Vector::new(vec![4])),
        MsgInput::new(2, Vector::new(vec![5]), Vector::new(vec![6])),
    ];
    let (tx0, rx0) = std::sync::mpsc::channel::<Msg<i32>>();
    let (tx1, rx1) = std::sync::mpsc::channel::<Msg<i32>>();
    let senders = vec![tx0, tx1];
    let receivers = post(list, &senders).unwrap();
    assert_eq!(receivers.len(), 3);
    drop(senders);
    let even: Vec<Msg<i32>> = rx0.iter().collect();
    let odd: Vec<Msg<i32>> = rx1.iter().collect();
    assert_eq!((even.len(), odd.len()), (2, 1));
    for msg in odd {
        assert_eq!(msg.serve(), Ok(true));
    }
    for msg in even.into_iter().rev() {
        assert_eq!(msg.serve(), Ok(true));
    }
    let outputs = gather(receivers).unwrap();
    let cells: Vec<(usize, i32)> = outputs.iter().map(|o| (o.idx, o.result)).collect();
    assert_eq!(cells, vec![(0, 2), (5, 12), (2, 30)]);
}

#[test]
fn post_without_tasks_needs_no_worker() {
    let none: Vec<std::sync::mpsc::Sender<Msg<i32>>> = Vec::new();
    assert!(post(Vec::<MsgInput<i32>>::new(), &none).unwrap().is_empty());
    let one = vec![MsgInput::new(0, Vector::new(vec![1]), Vector::new(vec![2]))];
    assert!(matches!(post(one, &none), Err(MatrixError::DispatchFailure)));
}

#[test]
fn worker_of_is_the_place_modulo_the_pool() {
    assert_eq!(worker_of(0, 4), 0);
    assert_eq!(worker_of(3, 4), 3);
    assert_eq!(worker_of(4, 4), 0);
    assert_eq!(worker_of(6, 4), 2);
    assert_eq!(worker_of(7, 1), 0);
    assert_eq!(worker_of(usize::MAX, 2), 1);
}

#[test]
fn post_spreads_the_tasks_over_the_pool() {
    let a = Matrix::new(vec![1, 2, 3], 3, 1);
    let b = Matrix::new(vec![1, 2, 3], 1, 3);
    let mut senders = Vec::new();
    let mut queues = Vec::new();
    for _ in 0..NUM_THREAD {
        let (tx, rx) = std::sync::mpsc::channel::<Msg<i32>>();
        senders.push(tx);
        queues.push(rx);
    }
    let receivers = post(tasks(&a, &b), &senders).unwrap();
    drop(senders);
    let counts: Vec<usize> = queues.iter().map(|q| q.iter().count()).collect();
    assert_eq!(counts, vec![3, 2, 2, 2]);
    assert_eq!(receivers.len(), 9);
}

#[test]
fn debug_layout_frames_the_matrix_text() {
    let cells: Vec<String> = vec!["22".to_string(), "28".to_string(), "49".to_string(), "64".to_string()];
    assert_eq!(debug_layout(&cells, 2, 2), "Matrix(row=2, col=2, {22 28 ,49 64 })");
    assert_eq!(debug_layout(&cells, 1, 4), "Matrix(row=1, col=4, {22 28 49 64 })");
    assert_eq!(debug_layout(&Vec::new(), 0, 12), "Matrix(row=0, col=12, {})");
}

#[test]
fn matrices_fit_when_dimensions_and_buffers_agree() {
    let a = Matrix::new(vec![1, 2, 3, 4, 5, 6], 2, 3);
    let b = Matrix::new(vec![1, 2, 3, 4, 5, 6], 3, 2);
    let short = Matrix::new(vec![1, 2, 3, 4, 5], 3, 2);
    assert!(matrices_fit(&a, &b));
    assert!(matrices_fit(&b, &a));
    assert!(!matrices_fit(&a, &a));
    assert!(!matrices_fit(&a, &short));
    assert!(!matrices_fit(&short, &a));
}
