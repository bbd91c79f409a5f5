//! Small verified building blocks.
//!
//! The core is a family of synchronization primitives: a spin lock on one
//! atomic flag ([`spin_lock`]), a value reached only under a spin lock
//! ([`locked_data`]), a single-use hand-off channel ([`channel`]) and a value
//! initialized at most once ([`once_cell`]). Around it stand sorting and array
//! routines, string utilities, a `key=value` settings format, a line search,
//! small containers and the logic of a number-guessing game.

pub mod locked_data;
pub mod spin_lock;
pub mod channel;
pub mod once_cell;

pub mod text;
pub mod number;
pub mod basic_algorithm;
pub mod minigrep;
pub mod file_format;

pub mod sort;
pub mod sorting;
pub mod arrays;
pub mod recursion;
pub mod rectangles;

pub mod a_hash;
pub mod indexed_list;
pub mod linked_list;
pub mod word_counter;
pub mod lru_cache;

pub mod bank_account;
pub mod library;
pub mod product;
pub mod gardener;
pub mod guess;
