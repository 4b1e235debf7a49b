//! What the bridge does with what it reads from the device and from the server.

use vstd::prelude::*;

verus! {

/// The length of the buffer that packets of the device are read into.
pub const TUN_BUFFER: usize = 8192;

/// What follows a read from the device.
#[derive(Debug)]
pub enum TunStep {
    /// The device is at its end or failed: the bridge ends.
    Stop,
    /// The packet goes to the server.
    Forward(Vec<u8>),
}

/// The packet that a read of `read` bytes into `buf` gives to the server; nothing
/// where the bridge ends.
pub open spec fn forwarded(read: Option<usize>, buf: Seq<u8>) -> Option<Seq<u8>> {
    match read {
        Some(n) => if n == 0 {
            None
        } else {
            Some(buf.take(n as int))
        },
        None => None,
    }
}

/// What follows a read of `read` bytes into `buf`; nothing was read where the
/// read failed.
pub fn tun_step(read: Option<usize>, buf: &[u8]) -> (r: TunStep)
    requires
        read matches Some(n) ==> n <= buf@.len(),
    ensures
        match r {
            TunStep::Stop => read is None || read == Some(0usize),
            TunStep::Forward(packet) => read matches Some(n) && n > 0 && packet@ == buf@.take(n as int),
        },
        forwarded(read, buf@) == match r {
            TunStep::Stop => None::<Seq<u8>>,
            TunStep::Forward(packet) => Some(packet@),
        },
{
    match read {
        Some(n) if n > 0 => {
            let packet: Vec<u8> = crate::bytes::copy_range(buf, 0, n);
            assert(packet@ =~= buf@.take(n as int));
            TunStep::Forward(packet)
        },
        _ => TunStep::Stop,
    }
}

/// What follows a packet from the server.
#[derive(Debug)]
pub enum ServerStep<E> {
    /// The packet goes to the device.
    Write(Vec<u8>),
    /// It was a service message: the bridge reads on.
    PassOver,
    /// It was refused: the bridge ends.
    Stop(E),
}

/// The packet for the device in a message from the server, if any, and whether the
/// bridge reads on.
pub open spec fn handed_on<E>(message: Result<Option<Vec<u8>>, E>) -> (Option<Seq<u8>>, bool) {
    match message {
        Ok(Some(packet)) => (Some(packet@), true),
        Ok(None) => (None, true),
        Err(_) => (None, false),
    }
}

/// What follows a packet from the server that was read as `message`: the packet
/// for the device, nothing for a service message, or why it was refused.
pub fn server_step<E>(message: Result<Option<Vec<u8>>, E>) -> (r: ServerStep<E>)
    ensures
        r == match message {
            Ok(Some(packet)) => ServerStep::Write(packet),
            Ok(None) => ServerStep::PassOver,
            Err(e) => ServerStep::Stop(e),
        },
        handed_on(message) == match r {
            ServerStep::Write(packet) => (Some(packet@), true),
            ServerStep::PassOver => (None::<Seq<u8>>, true),
            ServerStep::Stop(_) => (None::<Seq<u8>>, false),
        },
{
    match message {
        Ok(Some(packet)) => ServerStep::Write(packet),
        Ok(None) => ServerStep::PassOver,
        Err(e) => ServerStep::Stop(e),
    }
}

/// Whatever was read goes to the server whole, and nothing more: with the rest of
/// the buffer it is the buffer. The bridge ends at the end of the device and on a
/// failed read, and at no other read.
pub proof fn reads_are_forwarded_whole(n: usize, buf: Seq<u8>)
    requires
        n <= buf.len(),
    ensures
        n > 0 ==> (forwarded(Some(n), buf) matches Some(packet) && packet.len() == n && packet + buf.skip(n as int)
            == buf),
        forwarded(Some(0), buf) is None,
        forwarded(None, buf) is None,
{
    if n > 0 {
        assert(buf.take(n as int) + buf.skip(n as int) =~= buf);
    }
}

/// Every packet from the server reaches the device as it is, a service message
/// changes nothing, and only a refused message ends the bridge.
pub proof fn packets_are_handed_on<E>(packet: Vec<u8>, e: E)
    ensures
        handed_on(Ok::<Option<Vec<u8>>, E>(Some(packet))) == (Some(packet@), true),
        handed_on(Ok::<Option<Vec<u8>>, E>(None)) == (None::<Seq<u8>>, true),
        handed_on(Err::<Option<Vec<u8>>, E>(e)) == (None::<Seq<u8>>, false),
{
}

} // verus!
