//! Shared-ownership and interior-mutability primitives built from first
//! principles, with machine-checked contracts: a single-owner mutable cell,
//! a reference-counted shared pointer whose control block is freed exactly
//! once, and a runtime-checked shared/exclusive borrow cell, together with
//! a delimiter-driven string splitter and a vector-filling constructor.

pub mod cell;
pub mod rc;
pub mod refcell;
pub mod strsplit;
pub mod vecmac;
