//! An instrumented Fibonacci computation.
//!
//! The core is a naive doubly-recursive Fibonacci function that, as a side
//! effect, appends a fixed alphabet block to an accumulator string once per
//! non-base-case call.  Around it stand a decimal numeral parser for the
//! optional `N` environment input and a renderer for the metrics report
//! lines that a host program prints after sampling process telemetry.

pub mod fib;
pub mod numerals;
pub mod report;
