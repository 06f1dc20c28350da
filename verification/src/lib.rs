//! A small planar-geometry toolkit built around exact integer arithmetic:
//! a validated scalar type, points with orientation predicates, triangles
//! with a strict interior test, and two convex-hull solvers (an exhaustive
//! interior-point elimination and an angular sweep).
//!
//! Alongside the geometry stack the crate carries a few self-contained
//! algorithm exercises: an insertion sort, a divide-and-conquer maximum
//! finder, a Needleman-Wunsch sequence aligner, and a modular-arithmetic
//! wrapper.

pub mod definite_num;
pub mod greedy_convex_hull;
pub mod insertion_sort;
pub mod ordered;
pub mod max_elem;
pub mod naive_convex_hull;
pub mod needleman_wunsch;
pub mod point;
pub mod triangle;
pub mod zm;
