//! In-place patching of a byte range inside a large object held by an
//! S3-compatible store.
//!
//! The store offers whole-object reads and writes plus multipart uploads, so
//! an edit is expressed as a fresh multipart upload whose parts are either
//! copied server-side from the existing object or carry the replacement
//! bytes. This crate holds the part that decides: it plans the segments,
//! says which request follows which reply, and assembles the completion. A
//! driver performs the requests and feeds the replies back.
pub mod assembler;
pub mod edit;
pub mod error;
pub mod config;
pub mod object;
pub mod patch;
pub mod planner;
pub mod request;
pub mod sdk;
pub mod segment;
pub mod session;
pub mod text;
pub mod tiling;

pub use assembler::{assemble, PartResult};
pub use config::S3Config;
pub use edit::Part;
pub use error::ModifyError;
pub use object::ObjectDescriptor;
pub use planner::{plan_segments, PART_SIZE};
pub use request::{part_request, PartRequest};
pub use segment::Segment;
pub use session::{Closing, Lookup, Opening, Progress, Transfer};
pub use text::{copy_source, copy_source_range};
