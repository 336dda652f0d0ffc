//! Cursors that let list endpoints resume where the previous page ended.

pub mod by_id;
pub mod keyset;
