//! dudero: a chi-square goodness-of-fit test on the nibbles of a byte buffer,
//! telling whether a random number generator's output looks obviously broken.
//!
//! This is the "Poker test" (Test 2 of AIS-31): the 4-bit halves of every byte
//! are counted into 16 bins, and the normalized chi-square statistic of that
//! histogram is compared with a fixed threshold.
pub mod check;
pub mod context;
pub mod laws;
pub mod lemmas;
pub mod model;

pub use check::{check_buffer, check_iter};
pub use context::{DuderoContext, Tally};
pub use model::{DuderoError, DuderoResult, MAX_LEN, MIN_LEN};
