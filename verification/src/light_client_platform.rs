//! The network platform of the embedded relay-chain light client.
//!
//! To connect, the client hands over a multiaddress; only an IP address or a
//! domain name followed by a TCP port, optionally followed by WebSocket, is
//! supported. Each connection then has a read buffer, filled from the
//! chunks the socket task received and consumed by the client, and a write
//! queue, filled by the client and drained by the socket task.
//!
//! The node parses addresses, opens sockets and runs the socket task; which
//! addresses are dialled and the buffers' contents are decided here.
use vstd::prelude::*;

verus! {

/// A protocol of a multiaddress, as far as dialling reads it.
pub enum Protocol {
    Ip4([u8; 4]),
    Ip6([u16; 8]),
    Tcp(u16),
    Ws,
    Dns(String),
    Dns4(String),
    Dns6(String),
    /// Any other protocol.
    Other,
}

/// What to dial.
pub enum DialAddress {
    Ip4([u8; 4], u16),
    Ip6([u16; 8], u16),
    /// A domain name to resolve, and the port.
    Dns(String, u16),
}

/// The address to dial, and whether to negotiate WebSocket on the socket.
pub struct DialTarget {
    pub address: DialAddress,
    pub websocket: bool,
}

/// Why a connection could not be opened.
#[derive(Clone, Copy, Debug, PartialEq, Eq, Structural)]
pub enum ConnectError {
    /// The address is not a multiaddress.
    BadAddress,
    /// The multiaddress is not an IP or DNS address, a TCP port and maybe WebSocket.
    UnknownProtocols,
    /// The peer could not be reached.
    Unreachable,
    /// The WebSocket handshake failed.
    WebSocketFailed,
}

impl ConnectError {
    /// Whether the address itself is at fault, rather than the peer.
    pub fn is_bad_addr(&self) -> (r: bool)
        ensures
            r == (*self == ConnectError::BadAddress || *self == ConnectError::UnknownProtocols),
    {
        match *self {
            ConnectError::BadAddress => true,
            ConnectError::UnknownProtocols => true,
            _ => false,
        }
    }

    /// The error in words; the node appends the underlying error to the last two.
    pub fn message(&self) -> (s: &'static str)
        ensures
            s@ == match *self {
                ConnectError::BadAddress => "Failed to parse address"@,
                ConnectError::UnknownProtocols => "Unknown protocols combination"@,
                ConnectError::Unreachable => "Failed to reach peer"@,
                ConnectError::WebSocketFailed => "Failed to negotiate WebSocket"@,
            },
    {
        match *self {
            ConnectError::BadAddress => "Failed to parse address",
            ConnectError::UnknownProtocols => "Unknown protocols combination",
            ConnectError::Unreachable => "Failed to reach peer",
            ConnectError::WebSocketFailed => "Failed to negotiate WebSocket",
        }
    }
}

/// The kind of a protocol.
pub open spec fn is_ip(p: Protocol) -> bool {
    p is Ip4 || p is Ip6
}

pub open spec fn is_dns(p: Protocol) -> bool {
    p is Dns || p is Dns4 || p is Dns6
}

/// Whether a multiaddress's protocols can be dialled: an IP address or a
/// domain name, a TCP port, and maybe WebSocket, nothing else.
pub open spec fn dialable(ps: Seq<Protocol>) -> bool {
    &&& 2 <= ps.len() <= 3
    &&& (is_ip(ps[0]) || is_dns(ps[0]))
    &&& ps[1] is Tcp
    &&& (ps.len() == 3 ==> ps[2] is Ws)
}

/// The dial target of a dialable multiaddress.
pub open spec fn target_matches(ps: Seq<Protocol>, t: DialTarget) -> bool {
    let port = ps[1]->Tcp_0;
    &&& t.websocket == (ps.len() == 3)
    &&& match ps[0] {
        Protocol::Ip4(ip) => t.address == DialAddress::Ip4(ip, port),
        Protocol::Ip6(ip) => t.address == DialAddress::Ip6(ip, port),
        Protocol::Dns(name) => t.address matches DialAddress::Dns(n, p) && n@ == name@ && p == port,
        Protocol::Dns4(name) => t.address matches DialAddress::Dns(n, p) && n@ == name@ && p == port,
        Protocol::Dns6(name) => t.address matches DialAddress::Dns(n, p) && n@ == name@ && p == port,
        _ => false,
    }
}

/// What to dial for a multiaddress, given its protocols as parsed (`None`
/// when it did not parse).
pub fn dial_target(parsed: Option<Vec<Protocol>>) -> (r: Result<DialTarget, ConnectError>)
    ensures
        match parsed {
            None => r == Err::<DialTarget, ConnectError>(ConnectError::BadAddress),
            Some(ps) => if dialable(ps@) {
                r matches Ok(t) && target_matches(ps@, t)
            } else {
                r == Err::<DialTarget, ConnectError>(ConnectError::UnknownProtocols)
            },
        },
{
    let mut ps = match parsed {
        None => return Err(ConnectError::BadAddress),
        Some(ps) => ps,
    };
    let ghost all = ps@;
    if ps.len() < 2 || ps.len() > 3 {
        return Err(ConnectError::UnknownProtocols);
    }
    let websocket = ps.len() == 3;
    if websocket {
        match &ps[2] {
            Protocol::Ws => {},
            _ => return Err(ConnectError::UnknownProtocols),
        }
    }
    let port = match &ps[1] {
        Protocol::Tcp(port) => *port,
        _ => return Err(ConnectError::UnknownProtocols),
    };
    let first = ps.remove(0);
    assert(first == all[0]);
    let address = match first {
        Protocol::Ip4(ip) => DialAddress::Ip4(ip, port),
        Protocol::Ip6(ip) => DialAddress::Ip6(ip, port),
        Protocol::Dns(name) => DialAddress::Dns(name, port),
        Protocol::Dns4(name) => DialAddress::Dns(name, port),
        Protocol::Dns6(name) => DialAddress::Dns(name, port),
        _ => return Err(ConnectError::UnknownProtocols),
    };
    Ok(DialTarget { address, websocket })
}

/// What the client finds when it reads.
#[derive(Clone, Copy, Debug, PartialEq, Eq, Structural)]
pub enum ReadState {
    /// The read buffer holds the bytes received and not yet consumed.
    Open,
    /// The connection is gone.
    Reset,
}

/// The buffers of one connection.
pub struct StreamBuffers {
    /// Received bytes not yet consumed; `None` once the connection is gone.
    pub read_buffer: Option<Vec<u8>>,
    /// Bytes the client sent that the socket has not written yet.
    pub write_queue: Vec<u8>,
}

/// The bytes of the chunks, in order.
pub open spec fn concat(chunks: Seq<Vec<u8>>) -> Seq<u8>
    decreases chunks.len(),
{
    if chunks.len() == 0 {
        Seq::empty()
    } else {
        concat(chunks.drop_last()) + chunks.last()@
    }
}

impl StreamBuffers {
    /// A fresh connection.
    pub fn new() -> (s: Self)
        ensures
            s.read_buffer matches Some(b) && b@.len() == 0,
            s.write_queue@.len() == 0,
    {
        StreamBuffers { read_buffer: Some(Vec::new()), write_queue: Vec::new() }
    }

    /// Whether the client can read without waiting: there are bytes, or the
    /// connection is gone.
    pub fn has_data_or_reset(&self) -> (r: bool)
        ensures
            r == match self.read_buffer {
                None => true,
                Some(b) => b@.len() > 0,
            },
    {
        match &self.read_buffer {
            None => true,
            Some(b) => b.len() > 0,
        }
    }

    /// The client reads: the chunks the socket task received since (the end
    /// of the channel, `None`, if it closed) join the read buffer.
    pub fn read(&mut self, received: Vec<Vec<u8>>, channel_closed: bool) -> (state: ReadState)
        ensures
            final(self).write_queue == old(self).write_queue,
            match old(self).read_buffer {
                None => state == ReadState::Reset && final(self).read_buffer is None,
                Some(b) => if channel_closed {
                    &&& state == ReadState::Reset
                    &&& final(self).read_buffer is None
                } else {
                    &&& state == ReadState::Open
                    &&& final(self).read_buffer matches Some(nb) && nb@ == b@ + concat(received@)
                },
            },
    {
        let mut buffer = match self.read_buffer.take() {
            None => return ReadState::Reset,
            Some(b) => b,
        };
        if channel_closed {
            return ReadState::Reset;
        }
        let ghost start = buffer@;
        let ghost all = received@;
        assert(all.len() == received.len());
        let mut rest = received;
        let mut i: usize = 0;
        while rest.len() > 0
            invariant
                all.len() <= usize::MAX,
                i + rest.len() == all.len(),
                rest@ == all.skip(i as int),
                buffer@ == start + concat(all.take(i as int)),
            decreases rest.len(),
        {
            let chunk = rest.remove(0);
            proof {
                assert(all.take(i + 1).drop_last() =~= all.take(i as int));
                assert(rest@ =~= all.skip(i + 1));
            }
            let mut k: usize = 0;
            let ghost before = buffer@;
            while k < chunk.len()
                invariant
                    k <= chunk.len(),
                    buffer@ == before + chunk@.take(k as int),
                    all.len() <= usize::MAX,
                    i + 1 + rest.len() == all.len(),
                decreases chunk.len() - k,
            {
                buffer.push(chunk[k]);
                k = k + 1;
                proof {
                    assert(buffer@ =~= before + chunk@.take(k as int));
                }
            }
            proof {
                assert(chunk@.take(chunk.len() as int) =~= chunk@);
                assert(buffer@ =~= start + concat(all.take(i + 1)));
            }
            i = i + 1;
        }
        proof {
            assert(all.take(i as int) =~= all);
        }
        self.read_buffer = Some(buffer);
        ReadState::Open
    }

    /// The client consumed the first `bytes` bytes of the read buffer.
    pub fn advance_read_cursor(&mut self, bytes: usize)
        requires
            old(self).read_buffer matches Some(b) ==> bytes <= b@.len(),
        ensures
            final(self).write_queue == old(self).write_queue,
            match old(self).read_buffer {
                None => final(self).read_buffer is None,
                Some(b) => final(self).read_buffer matches Some(nb) && nb@ == b@.skip(bytes as int),
            },
    {
        match self.read_buffer.take() {
            None => {},
            Some(b) => {
                let mut nb: Vec<u8> = Vec::new();
                let mut k: usize = bytes;
                while k < b.len()
                    invariant
                        bytes <= k <= b.len(),
                        nb@ == b@.subrange(bytes as int, k as int),
                    decreases b.len() - k,
                {
                    nb.push(b[k]);
                    k = k + 1;
                    proof {
                        assert(nb@ =~= b@.subrange(bytes as int, k as int));
                    }
                }
                proof {
                    assert(nb@ =~= b@.skip(bytes as int));
                }
                self.read_buffer = Some(nb);
            },
        }
    }

    /// The client sends bytes: they join the write queue.
    pub fn send(&mut self, data: &Vec<u8>)
        ensures
            final(self).read_buffer == old(self).read_buffer,
            final(self).write_queue@ == old(self).write_queue@ + data@,
    {
        let mut k: usize = 0;
        let ghost before = self.write_queue@;
        while k < data.len()
            invariant
                k <= data.len(),
                self.write_queue@ == before + data@.take(k as int),
                self.read_buffer == old(self).read_buffer,
            decreases data.len() - k,
        {
            self.write_queue.push(data[k]);
            k = k + 1;
            proof {
                assert(self.write_queue@ =~= before + data@.take(k as int));
            }
        }
        proof {
            assert(data@.take(data.len() as int) =~= data@);
        }
    }

    /// The socket wrote the first `bytes` bytes of the write queue.
    pub fn written(&mut self, bytes: usize)
        requires
            bytes <= old(self).write_queue@.len(),
        ensures
            final(self).read_buffer == old(self).read_buffer,
            final(self).write_queue@ == old(self).write_queue@.skip(bytes as int),
    {
        let mut k: usize = 0;
        while k < bytes
            invariant
                k <= bytes <= old(self).write_queue@.len(),
                self.write_queue@ == old(self).write_queue@.skip(k as int),
                self.read_buffer == old(self).read_buffer,
            decreases bytes - k,
        {
            self.write_queue.remove(0);
            k = k + 1;
            proof {
                assert(self.write_queue@ =~= old(self).write_queue@.skip(k as int));
            }
        }
    }
}

/// Bytes are written in the order they were sent: sending `data` and then
/// writing as many bytes as were queued before leaves exactly `data` queued.
pub proof fn law_write_queue_is_fifo(queued: Seq<u8>, data: Seq<u8>)
    ensures
        (queued + data).skip(queued.len() as int) == data,
{
    assert((queued + data).skip(queued.len() as int) =~= data);
}

} // verus!
