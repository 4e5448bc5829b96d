//! The binding and value model that the collector manages.

pub mod allocator;
pub mod binding;
pub mod coerce;
pub mod display;
pub mod js_fn;
pub mod js_obj;
pub mod js_str;
pub mod js_var;
pub mod native_fn;
pub mod native_var;
pub mod number;
