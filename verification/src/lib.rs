//! Verified emission of color strings.
//!
//! A color resolved to four 8-bit channels (red, green, blue, alpha) can be
//! written out as a CSS hex string (`#rrggbb` or `#rrggbbaa`) or as a CSS
//! functional string (`rgb(r,g,b)` or `rgba(r,g,b,a)`). This crate proves the
//! emitted text correct, character by character, against spec functions that
//! describe both formats, and proves that neither format loses channel
//! information.

pub mod css;
pub mod hex;
