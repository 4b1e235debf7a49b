//! The state of the tunnel: the prepared socket, the connection, and the bridge
//! between the connection and the device.

use vstd::prelude::*;

use crate::proxy::{endpoint, ProxyConfig, Target, TargetError};
use crate::text::text_of;

verus! {

/// What the tunnel holds. `S` is the session, `W` the way to the writer, `T` the
/// reader of packets, `R` the read half of the connection under it and `H` the
/// handle of a running bridge.
#[derive(Debug)]
pub struct TunnelState<S, W, T, R, H> {
    pub session: Option<S>,
    pub assigned_ipv4: Option<[u8; 4]>,
    pub assigned_ipv6: Option<[u8; 16]>,
    pub write_tx: Option<W>,
    /// Taken out when the bridge starts.
    pub transport_reader: Option<T>,
    /// Taken out when the bridge starts.
    pub tcp_reader: Option<R>,
    pub connected: bool,
    /// The route that the last connection took.
    pub active_route: Option<String>,
    pub bridge_task: Option<H>,
    /// The descriptor of a socket that was made but not connected yet; negative
    /// where there is none.
    pub prepared_socket: i32,
}

/// What a successful connection brings.
pub struct Connection<S, W, T, R> {
    pub session: S,
    pub ipv4: [u8; 4],
    pub ipv6: [u8; 16],
    pub write_tx: W,
    pub transport_reader: T,
    pub tcp_reader: R,
    pub route: String,
}

/// How to reach the tunnel's endpoint.
pub enum Dial {
    /// Connect the prepared socket with the given descriptor.
    Prepared { fd: i32, target: Target },
    /// Make a new connection.
    Fresh { target: Target },
}

/// The system made no socket.
#[derive(Clone, Copy, Debug, PartialEq, Eq, Structural)]
pub struct NoSocket;

impl<S, W, T, R, H> TunnelState<S, W, T, R, H> {
    /// Whether nothing is held: no connection, no bridge and no socket.
    pub open spec fn idle(self) -> bool {
        &&& self.session is None
        &&& self.assigned_ipv4 is None
        &&& self.assigned_ipv6 is None
        &&& self.write_tx is None
        &&& self.transport_reader is None
        &&& self.tcp_reader is None
        &&& !self.connected
        &&& self.active_route is None
        &&& self.bridge_task is None
        &&& self.prepared_socket == -1
    }

    /// Whether all that a bridge needs is there.
    pub open spec fn bridgeable(self) -> bool {
        &&& self.session is Some
        &&& self.write_tx is Some
        &&& self.transport_reader is Some
        &&& self.tcp_reader is Some
    }

    /// The descriptor of the prepared socket, if there is one.
    pub open spec fn prepared(self) -> Option<i32> {
        if self.prepared_socket >= 0 {
            Some(self.prepared_socket)
        } else {
            None
        }
    }

    /// The state without a prepared socket.
    pub open spec fn without_socket(self) -> Self {
        TunnelState { prepared_socket: (-1) as i32, ..self }
    }

    /// The state with a connection that was made.
    pub open spec fn established(self, c: Connection<S, W, T, R>) -> Self {
        TunnelState {
            session: Some(c.session),
            assigned_ipv4: Some(c.ipv4),
            assigned_ipv6: Some(c.ipv6),
            write_tx: Some(c.write_tx),
            transport_reader: Some(c.transport_reader),
            tcp_reader: Some(c.tcp_reader),
            connected: true,
            active_route: Some(c.route),
            ..self
        }
    }

    /// The state without the readers.
    pub open spec fn without_readers(self) -> Self {
        TunnelState { transport_reader: None, tcp_reader: None, ..self }
    }

    /// The route that the active connection took.
    pub open spec fn status(self) -> Option<Seq<char>> {
        if self.connected {
            text_of(self.active_route)
        } else {
            None
        }
    }

    /// The readers that a bridge gets.
    pub open spec fn bridge_readers(self) -> Option<(T, R)> {
        match (self.session, self.write_tx, self.transport_reader, self.tcp_reader) {
            (Some(_), Some(_), Some(transport_reader), Some(tcp_reader)) => Some((transport_reader, tcp_reader)),
            _ => None,
        }
    }

    /// The socket, if one was prepared, and the endpoint of the next connection.
    pub open spec fn next_dial(self, config: ProxyConfig) -> Result<(Option<i32>, Seq<u8>, int), TargetError> {
        match endpoint(config) {
            Ok((ip, port)) => Ok((self.prepared(), ip, port)),
            Err(e) => Err(e),
        }
    }

    /// A tunnel that holds nothing.
    pub fn new() -> (r: Self)
        ensures
            r.idle(),
    {
        TunnelState {
            session: None,
            assigned_ipv4: None,
            assigned_ipv6: None,
            write_tx: None,
            transport_reader: None,
            tcp_reader: None,
            connected: false,
            active_route: None,
            bridge_task: None,
            prepared_socket: -1,
        }
    }

    /// Takes the prepared socket out: whoever gets its descriptor owns it.
    pub fn take_prepared(&mut self) -> (r: Option<i32>)
        ensures
            r == old(self).prepared(),
            *final(self) == old(self).without_socket(),
    {
        let fd: i32 = self.prepared_socket;
        self.prepared_socket = -1;
        if fd >= 0 {
            Some(fd)
        } else {
            None
        }
    }

    /// Keeps the socket that the system made, to be connected later; a negative
    /// descriptor says that it made none.
    pub fn prepare_socket(&mut self, fd: i32) -> (r: Result<i32, NoSocket>)
        ensures
            if fd < 0 {
                r == Err::<i32, NoSocket>(NoSocket) && *final(self) == *old(self)
            } else {
                r == Ok::<i32, NoSocket>(fd) && *final(self) == (TunnelState {
                    prepared_socket: fd,
                    ..*old(self)
                })
            },
    {
        if fd < 0 {
            return Err(NoSocket);
        }
        self.prepared_socket = fd;
        Ok(fd)
    }

    /// How to reach the endpoint that the settings lead to. A prepared socket is
    /// taken out for it; where the settings lead nowhere, it stays.
    pub fn plan_connection(&mut self, config: &ProxyConfig) -> (r: Result<Dial, TargetError>)
        ensures
            match endpoint(*config) {
                Err(e) => r == Err::<Dial, TargetError>(e) && *final(self) == *old(self),
                Ok((ip, port)) => {
                    &&& *final(self) == old(self).without_socket()
                    &&& match r {
                        Ok(Dial::Prepared { fd, target }) => {
                            &&& old(self).prepared() == Some(fd)
                            &&& target.ip@ == ip
                            &&& target.port == port
                        },
                        Ok(Dial::Fresh { target }) => {
                            &&& old(self).prepared() is None
                            &&& target.ip@ == ip
                            &&& target.port == port
                        },
                        Err(_) => false,
                    }
                },
            },
            old(self).next_dial(*config) == match r {
                Ok(Dial::Prepared { fd, target }) => Ok::<(Option<i32>, Seq<u8>, int), TargetError>(
                    (Some(fd), target.ip@, target.port as int),
                ),
                Ok(Dial::Fresh { target }) => Ok((None, target.ip@, target.port as int)),
                Err(e) => Err(e),
            },
    {
        let target: Target = match crate::proxy::tunnel_target(config) {
            Ok(t) => t,
            Err(e) => return Err(e),
        };
        match self.take_prepared() {
            Some(fd) => Ok(Dial::Prepared { fd, target }),
            None => Ok(Dial::Fresh { target }),
        }
    }

    /// Takes over a connection that was made.
    pub fn establish(&mut self, c: Connection<S, W, T, R>)
        ensures
            *final(self) == old(self).established(c),
    {
        self.session = Some(c.session);
        self.assigned_ipv4 = Some(c.ipv4);
        self.assigned_ipv6 = Some(c.ipv6);
        self.write_tx = Some(c.write_tx);
        self.transport_reader = Some(c.transport_reader);
        self.tcp_reader = Some(c.tcp_reader);
        self.active_route = Some(c.route);
        set_connected(self, true);
    }

    /// Takes the readers out for a bridge. It gets both, and finds the session
    /// and the writer in the state, where all four are there; else it gets none,
    /// and the readers are gone all the same.
    pub fn start_bridge(&mut self) -> (r: Option<(T, R)>)
        ensures
            *final(self) == old(self).without_readers(),
            match r {
                Some((transport_reader, tcp_reader)) => {
                    &&& old(self).bridgeable()
                    &&& old(self).transport_reader == Some(transport_reader)
                    &&& old(self).tcp_reader == Some(tcp_reader)
                },
                None => !old(self).bridgeable(),
            },
            r == old(self).bridge_readers(),
    {
        let transport_reader: Option<T> = self.transport_reader.take();
        let tcp_reader: Option<R> = self.tcp_reader.take();
        if self.session.is_none() || self.write_tx.is_none() {
            return None;
        }
        match (transport_reader, tcp_reader) {
            (Some(tr), Some(rd)) => Some((tr, rd)),
            _ => None,
        }
    }

    /// Keeps the handle of a bridge that was started. The handle of the bridge
    /// before it, if any, comes out, to be stopped.
    pub fn bridge_started(&mut self, handle: H) -> (r: Option<H>)
        ensures
            r == old(self).bridge_task,
            *final(self) == (TunnelState { bridge_task: Some(handle), ..*old(self) }),
    {
        let previous: Option<H> = self.bridge_task.take();
        self.bridge_task = Some(handle);
        previous
    }

    /// Lets go of everything. The handle of the running bridge and the prepared
    /// socket, if any, come out, to be stopped and closed.
    pub fn disconnect(&mut self) -> (r: (Option<H>, Option<i32>))
        ensures
            r.0 == old(self).bridge_task,
            r.1 == old(self).prepared(),
            final(self).idle(),
    {
        let handle: Option<H> = self.bridge_task.take();
        let socket: Option<i32> = self.take_prepared();
        *self = TunnelState::new();
        (handle, socket)
    }

    /// The route that the active connection took; nothing while there is no
    /// connection.
    pub fn proxy_status(&self) -> (r: Option<String>)
        ensures
            text_of(r) == if self.connected {
                text_of(self.active_route)
            } else {
                None
            },
            text_of(r) == self.status(),
    {
        if !self.connected {
            return None;
        }
        match &self.active_route {
            Some(route) => Some(route.clone()),
            None => None,
        }
    }
}

/// Says whether the tunnel is connected.
pub fn set_connected<S, W, T, R, H>(state: &mut TunnelState<S, W, T, R, H>, value: bool)
    ensures
        *final(state) == (TunnelState { connected: value, ..*old(state) }),
{
    state.connected = value;
}

/// Whether the tunnel is connected.
pub fn is_connected<S, W, T, R, H>(state: &TunnelState<S, W, T, R, H>) -> (r: bool)
    ensures
        r == state.connected,
{
    state.connected
}

/// A bridge starts on every connection that was made, and no more than once; it
/// does not start before there is one. Neither the prepared socket nor a change
/// of the connected mark has a say in that.
pub proof fn bridge_starts_once<S, W, T, R, H>(
    s: TunnelState<S, W, T, R, H>,
    c: Connection<S, W, T, R>,
    value: bool,
)
    ensures
        s.idle() ==> !s.bridgeable(),
        s.established(c).bridgeable(),
        !s.without_readers().bridgeable(),
        !s.established(c).without_readers().bridgeable(),
        s.without_socket().bridgeable() == s.bridgeable(),
        (TunnelState { connected: value, ..s }).bridgeable() == s.bridgeable(),
{
}

/// A prepared socket is given out once: after it was taken, by a connection or by
/// its maker, there is none.
pub proof fn prepared_socket_is_taken_once<S, W, T, R, H>(s: TunnelState<S, W, T, R, H>)
    ensures
        s.without_socket().prepared() is None,
        s.idle() ==> s.prepared() is None,
        s.without_socket().without_socket() == s.without_socket(),
{
}

/// What each change of the state leaves as it was, and what it puts in place.
pub proof fn changes_of_the_state<S, W, T, R, H>(s: TunnelState<S, W, T, R, H>, c: Connection<S, W, T, R>)
    ensures
        ({
            let e = s.established(c);
            &&& e.session == Some(c.session)
            &&& e.assigned_ipv4 == Some(c.ipv4)
            &&& e.assigned_ipv6 == Some(c.ipv6)
            &&& e.write_tx == Some(c.write_tx)
            &&& e.transport_reader == Some(c.transport_reader)
            &&& e.tcp_reader == Some(c.tcp_reader)
            &&& e.connected
            &&& e.active_route == Some(c.route)
            &&& e.bridge_task == s.bridge_task
            &&& e.prepared_socket == s.prepared_socket
        }),
        ({
            let e = s.without_readers();
            &&& e.session == s.session
            &&& e.assigned_ipv4 == s.assigned_ipv4
            &&& e.assigned_ipv6 == s.assigned_ipv6
            &&& e.write_tx == s.write_tx
            &&& e.transport_reader is None
            &&& e.tcp_reader is None
            &&& e.connected == s.connected
            &&& e.active_route == s.active_route
            &&& e.bridge_task == s.bridge_task
            &&& e.prepared_socket == s.prepared_socket
        }),
        ({
            let e = s.without_socket();
            &&& e.session == s.session
            &&& e.assigned_ipv4 == s.assigned_ipv4
            &&& e.assigned_ipv6 == s.assigned_ipv6
            &&& e.write_tx == s.write_tx
            &&& e.transport_reader == s.transport_reader
            &&& e.tcp_reader == s.tcp_reader
            &&& e.connected == s.connected
            &&& e.active_route == s.active_route
            &&& e.bridge_task == s.bridge_task
            &&& e.prepared_socket == -1
        }),
{
}

/// A bridge needs the session, the writer and both readers, and nothing else.
pub proof fn what_a_bridge_needs<S, W, T, R, H>(s: TunnelState<S, W, T, R, H>)
    ensures
        s.bridgeable() <==> s.session is Some && s.write_tx is Some && s.transport_reader is Some
            && s.tcp_reader is Some,
{
}

/// Any descriptor that is not negative is a prepared socket.
pub proof fn prepared_descriptors<S, W, T, R, H>(s: TunnelState<S, W, T, R, H>, fd: i32)
    ensures
        s.prepared() == Some(fd) <==> s.prepared_socket == fd && fd >= 0,
        s.prepared() is None <==> s.prepared_socket < 0,
{
}

/// An idle tunnel holds nothing at all.
pub proof fn idle_holds_nothing<S, W, T, R, H>(s: TunnelState<S, W, T, R, H>)
    ensures
        s.idle() <==> s.session is None && s.assigned_ipv4 is None && s.assigned_ipv6 is None && s.write_tx is None
            && s.transport_reader is None && s.tcp_reader is None && !s.connected && s.active_route is None
            && s.bridge_task is None && s.prepared_socket == -1,
{
}

/// The route is told from the moment a connection was made until the tunnel is no
/// longer connected, whole and unchanged; neither a started bridge nor a socket
/// that was taken changes it.
pub proof fn route_is_told_while_connected<S, W, T, R, H>(
    s: TunnelState<S, W, T, R, H>,
    c: Connection<S, W, T, R>,
    connected: bool,
)
    ensures
        s.established(c).status() == Some(c.route@),
        s.established(c).without_readers().status() == Some(c.route@),
        s.established(c).without_socket().status() == Some(c.route@),
        (TunnelState { connected, ..s.established(c) }).status() == if connected {
            Some(c.route@)
        } else {
            None
        },
        s.idle() ==> s.status() is None,
        !s.connected ==> s.status() is None,
{
}

/// A bridge on a connection that was made gets that connection's own readers,
/// whatever was there before and whether or not the tunnel still counts as
/// connected; a second one gets none, and none starts while a part is missing.
pub proof fn bridge_gets_the_readers<S, W, T, R, H>(
    s: TunnelState<S, W, T, R, H>,
    c: Connection<S, W, T, R>,
    connected: bool,
)
    ensures
        s.established(c).bridge_readers() == Some((c.transport_reader, c.tcp_reader)),
        (TunnelState { connected, ..s.established(c) }).bridge_readers() == Some((c.transport_reader, c.tcp_reader)),
        s.established(c).without_readers().bridge_readers() is None,
        s.session is None || s.write_tx is None || s.transport_reader is None || s.tcp_reader is None
            ==> s.bridge_readers() is None,
{
}

/// A connection goes to the endpoint of the settings: over the prepared socket
/// where there is one, over none where it was taken. Settings that lead nowhere
/// give no connection.
pub proof fn connections_go_to_the_endpoint<S, W, T, R, H>(s: TunnelState<S, W, T, R, H>, config: ProxyConfig)
    ensures
        match (endpoint(config), s.next_dial(config)) {
            (Ok((ip, port)), Ok((fd, to_ip, to_port))) => to_ip == ip && to_port == port && (s.prepared_socket >= 0
                ==> fd == Some(s.prepared_socket)) && (s.prepared_socket < 0 ==> fd is None),
            (Err(e), Err(f)) => e == f,
            _ => false,
        },
        s.without_socket().next_dial(config) matches Ok((fd, _, _)) ==> fd is None,
{
}

} // verus!
