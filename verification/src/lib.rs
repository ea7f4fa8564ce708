//! The object model and run-time services of a Dylan implementation: tagged
//! words, classes, generic dispatch, collections, conditions, functions and
//! closures, the start-up of compiled programs, crash reports, and the shims for
//! windows and graphics.

pub mod aot;
pub mod bitvectors;
pub mod c_types;
pub mod callbacks;
pub mod checks;
pub mod class_pins;
pub mod classes;
pub mod closures;
pub mod collections;
pub mod com;
pub mod conditions;
pub mod crash_dump;
pub mod declare;
pub mod dispatch;
pub mod dylan_layout;
pub mod format_out;
pub mod functions;
pub mod generics;
pub mod graphics;
pub mod handlers;
pub mod heap;
pub mod iteration;
pub mod layouts;
pub mod library_ids;
pub mod literals;
pub mod lookup;
pub mod operators;
pub mod pin_rows;
pub mod ranges;
pub mod safepoints;
pub mod stack_buf;
pub mod text;
pub mod utf16;
pub mod windowing;
pub mod winffi;
pub mod word;
pub mod wrapper;
