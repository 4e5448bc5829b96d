//! Heap management for an embeddable dynamic-language runtime: unique
//! bindings, tagged values, heap payloads, and a tri-color mark-and-sweep
//! collector over them.

pub mod alloc_box;
pub mod assoc;
pub mod ast;
pub mod gc_error;
pub mod js_error;
pub mod pretty;
pub mod test_utils;
pub mod text;
pub mod types;
