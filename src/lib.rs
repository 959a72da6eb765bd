//! Building blocks for feed-forward network stages: the computation-unit
//! abstraction and a verified fully-connected stage.
pub mod block;
pub mod dense;
