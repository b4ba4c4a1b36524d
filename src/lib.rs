//! Structural summaries of workflow-description documents: a semantic model
//! (versions, tasks, workflows, structs, imports) and a dependency graph
//! rendered as flowchart text, both extracted from a concrete syntax tree.

pub mod cst;
pub mod info;
pub mod mermaid;
pub mod metadata;
pub mod parse;
pub mod semantic;
