//! Layout of 3D scenes described as nested spaces: a style language with lengths,
//! percentages and `auto`, and a flexbox-like resolver that works out the size and
//! place of every node along three axes.

pub mod api;
pub mod base;
pub mod dim3;
pub mod error;
pub mod flex;
pub mod package;
pub mod placement;
pub mod render_tree;
pub mod style;
pub mod text;
pub mod xml;
