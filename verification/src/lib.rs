//! A reverse TCP tunnel library: a framed multiplexing protocol that carries
//! many independent user-connection byte streams over one authenticated
//! control link, together with the bookkeeping around it (stream table,
//! client registry with round-robin selection, paired connection pool,
//! handshake, exact-transfer accounting).

pub mod client_pool;
pub mod connection_manager;
pub mod connections;
pub mod destination;
pub mod dispatch;
pub mod error;
pub mod handshake;
pub mod keygen;
pub mod message;
pub mod pool;
pub mod registry;
pub mod strategy;
pub mod transfer;

pub use client_pool::Pool;
pub use connection_manager::ConnectionManager;
pub use connections::close_user_connection;
pub use connections::Connections;
pub use destination::Destination;
pub use error::Error;
pub use error::RecvError;
pub use error::SendError;
pub use handshake::ClientHandshake;
pub use handshake::ServerHandshake;
pub use keygen::generate_key;
pub use message::Message;
pub use message::MessageHeader;
pub use message::MessageType;
pub use pool::ConnectionType;
pub use pool::PairPool;
pub use registry::ClientManager;
pub use strategy::parse_strategy;
pub use strategy::Strategy;
