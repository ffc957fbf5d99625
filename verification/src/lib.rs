//! The expand-convolute (ExConv) linear code used by silent-OT style
//! pseudorandom-correlation generators.
//!
//! An [`ExConvCode`] compresses a buffer of `code_size` elements down to
//! `message_size` elements through two deterministic pseudorandom stages:
//! a convolutional *accumulator* that spreads each position over the prefix
//! before it, followed by a bipartite *expander* that XOR-sums a fixed number
//! of accumulated positions into each output. Both stages derive their
//! position-selection graphs from the four configuration parameters alone, so
//! two parties that configure identical encoders evaluate the exact same
//! linear map without any communication.

pub mod block;
pub mod block_encode;
pub mod byte_encode;
pub mod code;
pub mod paired;
pub mod select;

pub use block::Block;
pub use code::CodeError;
pub use code::ExConvCode;
