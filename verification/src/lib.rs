//! Client side of a VPN tunnel that speaks MTProto: the key exchange with the
//! server, the packets that travel under the agreed key, the proxy settings and
//! the state of the tunnel.

pub mod address;
pub mod agreement;
pub mod bignum;
pub mod bridge;
pub mod bytes;
pub mod dh;
pub mod digest;
pub mod handshake;
pub mod msg_id;
pub mod packet;
pub mod proxy;
pub mod random;
pub mod rsa_pad;
pub mod server_key;
pub mod session;
pub mod state;
pub mod text;
pub mod tl;
