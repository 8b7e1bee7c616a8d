//! A dense-matrix multiplication engine that computes one dot product per
//! output cell, and three small counter stores.
//!
//! `matrix` holds the matrix, the tasks that a product is cut into, and
//! `multiply`, which does the tasks on the calling thread. `pool` holds the
//! same steps cut at the channels of a worker pool: `dispatch` sends the
//! tasks, `Msg::serve` is a worker's step, `collect` waits for the replies
//! and assembles them. Running the workers is left to the caller.
//!
//! `metrics` holds the counter stores. Each is owned by one caller at a
//! time; sharing one between threads takes a lock around it.

pub mod channel;
pub mod error;
pub mod matrix;
pub mod metrics;
pub mod pool;
pub mod render;
pub mod text;
pub mod vector;

pub use error::MatrixError;
pub use error::MetricsError;
pub use matrix::multiply;
pub use matrix::Matrix;
pub use matrix::Msg;
pub use matrix::MsgInput;
pub use matrix::MsgOutput;
pub use metrics::amap::AmapMetrics;
pub use metrics::cmap::CmapMetrics;
pub use metrics::Metrics;
pub use vector::dot_product;
pub use vector::Vector;
