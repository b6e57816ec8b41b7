//! AMQP 0-9-1 client core: framing, channel bookkeeping, frame routing and
//! content reassembly.
pub mod basic;
pub mod channel_id_repo;
pub mod channel_manager;
pub mod content;
pub mod dispatcher;
pub mod error;
pub mod frame;
pub mod handshake;
pub mod methods;
pub mod queue;
pub mod reader;
pub mod tune;
pub mod writer;
