//! Reverse-lookup generation for enumerated types with integer tags.
//!
//! Given the declaration of an enumerated type — an ordered sequence of
//! members, each optionally carrying an explicit 64-bit signed tag — this
//! crate resolves the tag of every member (implicit tags follow the
//! "previous tag plus one, starting at zero" rule, with two's-complement
//! wraparound) and, for each requested integer representation (a width of
//! 8, 16, 32 or 64 bits, signed or unsigned), builds a total reverse
//! mapping from a raw integer value of that representation back to the
//! matching member, or to "no match".
//!
//! Tags are narrowed into a representation before comparison, using
//! standard two's-complement truncation, so two tags that are
//! indistinguishable at a smaller width collide there; the member declared
//! earliest wins such a collision.

pub mod lookup;
pub mod repr;
pub mod resolve;
