//! Procedural flag generation: a seeded xorshift generator drives the choice
//! of a flag layout and of a palette that keeps the heraldic rule of tincture;
//! the integer parts of rendering, describing and filtering are verified here.

pub mod describe;
pub mod filter;
pub mod layout;
pub mod palette;
pub mod rng;
pub mod texture;
