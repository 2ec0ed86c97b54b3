//! Parser and mesh builder for Wavefront-style plain-text 3D model
//! descriptions.
//!
//! The library turns the lines of such a description into typed directives,
//! resolves face corners against the growing attribute pools, and emits a
//! deduplicated vertex pool together with a triangle index list, ready for
//! upload to a graphics device.
//!
//! All floating-point components are carried as the bit patterns of IEEE 754
//! single-precision values (`u32`). The format's semantics never compute with
//! the numbers — they are parsed, stored, compared for bit-for-bit equality
//! during deduplication, and handed onward — so the bit pattern is a faithful
//! representation; a consumer reinterprets the bits as 32-bit floats when
//! uploading.
//!
//! Decisions this implementation fixes, where the format leaves room:
//! - Face-corner indices are 1-based: index 1 names the first recorded
//!   attribute, and the builder subtracts one before indexing its pools; a
//!   position index of zero is out of range.
//! - Directives that carry no geometry for this builder (points, line
//!   segments, smoothing groups, groups, material references, names,
//!   comments) are accepted and ignored, and the builder reports them as
//!   such rather than failing or dropping them silently.
//! - Negative (relative) indices are not resolved; a `-` in an index field
//!   is a parse failure.

pub mod builder;
pub mod laws;
pub mod mesh;
pub mod numbers;
pub mod obj;
pub mod text;

use vstd::prelude::*;

verus! {

/// Bit pattern of the single-precision value one, the default for an absent
/// trailing `w` component.
pub const ONE_BITS: u32 = 0x3F80_0000;

} // verus!
