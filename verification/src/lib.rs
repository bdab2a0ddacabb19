//! Verified core of the myocyte cell engine: grid indexing and placement,
//! authored patterns, the integer side of the Gray-Scott influencer, the
//! sphere mesh topology, back-to-front ordering of splats, and the event
//! loop's drag and frame-failure decisions.

pub mod cell;
pub mod grid;
pub mod influencer;
pub mod sphere;
pub mod sort;
pub mod window;
pub mod uniform;
