//! Procedural drivers of cell parameters: authored (static) patterns, and the
//! integer side of the Gray-Scott reaction-diffusion field.

pub mod authored;
pub mod gray_scott;
