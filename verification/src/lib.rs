//! Shipping cost benchmarks: orders are classed by destination region,
//! shipping method and weight, grouped, and averaged for a report.
//!
//! Amounts are kept as the numerals that they were given as. What is
//! worked out here is which orders count and where; the arithmetic on the
//! amounts is left to the caller.

pub mod aggregate;
pub mod columns;
pub mod method;
pub mod numeral;
pub mod order;
pub mod region;
pub mod report;
pub mod text;
pub mod weight;
pub mod zip;
