//! A TFTP server core: the wire codec, the netascii translator, the block
//! oriented file adapter and the lock-step session state machines.

pub mod error;
pub mod filename;
pub mod netascii;
pub mod packet;
pub mod file;
pub mod server;
pub mod temp;
pub mod text;
