//! A compact wire format for changes to a tree of nodes held on the other
//! side of an execution boundary, and the string formatter that renders the
//! dynamic parts of templates before they are sent.
//!
//! - [`encoder`]: the sending-side encoder, one method per mutation kind, with
//!   identifier width negotiation and batch flushing.
//! - [`mutation`]: mutations as values and the stream a sequence encodes to.
//! - [`diffable_arguments`]: static template text interleaved with values.
//! - [`images`]: build-time options of image assets.
//! - [`convert`]: conversion between counterpart representations.
pub mod convert;
pub mod diffable_arguments;
pub mod encoder;
pub mod images;
pub mod mutation;
