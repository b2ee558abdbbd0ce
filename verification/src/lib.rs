//! Small studies of Rust: a doubly linked list and a vector with their own
//! storage policy, assignment, closures, lifetimes, enums, cells, defaults
//! and a handler router that parses its arguments from a string.
pub mod assign;
pub mod async_executor;
pub mod box_example;
pub mod cases;
pub mod closure;
pub mod custom_vec;
pub mod doc;
pub mod enum_example;
pub mod fill_default;
pub mod fn_shadow;
pub mod gat;
pub mod lifecycle;
pub mod lifetime;
pub mod linked_list;
pub mod memory;
