//! Parsing, inspection, dependency tracing and small edits of Blender `.blend` files.
//!
//! The crate reads a `.blend` file from its bytes: the file header, the block
//! headers, the SDNA type catalogue and the fields of single blocks; it follows
//! pointer fields from block to block to list the dependencies of a block, and it
//! can rewrite ID names and emit minimal files.
pub mod binary;
pub mod block;
pub mod bpath;
pub mod buf;
pub mod cli;
pub mod blendfile;
pub mod policy;
pub mod pretty;
pub mod scan;
pub mod dna;
pub mod editor;
pub mod sdna;
pub mod error;
pub mod events;
pub mod expanders;
pub mod fieldview;
pub mod formatting;
pub mod header;
pub mod index;
pub mod text;
pub mod traversal;
pub mod tracer;
pub mod writer;
