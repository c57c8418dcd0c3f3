//! Verified core of a CAD kernel binding: colour parsing, per-face colour
//! maps and how they travel through topology-changing operations, mesh
//! index bookkeeping, tool-face selection after boolean operations, and the
//! decisions of folding swept tool faces into one result.

pub mod error;
pub mod color;
pub mod colormap;
pub mod mesh;
pub mod boolean;
pub mod sweep;
