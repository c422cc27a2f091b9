//! Host-side protocol core for XBee mesh radios: the API-mode frame codec,
//! the packetizer and reframer, the start-up dialogue, and the address
//! caches of the Ethernet and IP bridges. Nothing here performs I/O; callers
//! move bytes between these types and the serial port or network device.

pub mod bytebuf;
pub mod ping;
pub mod pipe;
pub mod ser;
pub mod tap;
pub mod text;
pub mod tun;
pub mod wire;
pub mod xb;
pub mod xbrx;
pub mod xbpacket;
