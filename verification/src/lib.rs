//! Latency measurement toolkit: a heuristic parser for echo-probe output,
//! a classifier for captured probe runs, and an orchestrator that picks the
//! most reliable measurement technique (TCP handshake first, echo probe as
//! fallback) and normalizes the result into a report string.

pub mod measure;
pub mod parser;
pub mod probe;
pub mod text;
