use vstd::prelude::*;

pub mod archive;
pub mod candidate_mem_plan;
pub mod checkpoint;
pub mod compact;
pub mod compact_checkpoint;
pub mod context_materialization;
pub mod debug_audit;
pub mod fast_fail;
pub mod host_bridge;
pub mod host_materialization;
pub mod ids;
pub mod instructions;
pub mod io;
pub mod items;
pub mod keyed;
pub mod lexer;
pub mod mem_install;
pub mod model;
pub mod numfmt;
pub mod pi_render;
pub mod prompt;
pub mod replacement;
pub mod replay;
pub mod segment;
pub mod suffix_fold;
pub mod text;
pub mod tree_projection;
pub mod tool_group;
pub mod toolcall_prepare;

verus! {
} // verus!
