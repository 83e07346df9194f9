//! Acquisition-and-streaming core of a sampling device: the command codec
//! shared by device and host, the circular capture buffer, the framing of
//! sample packets, and the decision logic of the outbound and inbound tasks.

pub mod codec;
pub mod packet;
pub mod ring;
pub mod tasks;
