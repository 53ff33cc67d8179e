//! The workers behind the relay-chain RPC clients.
//!
//! A worker hands every relay-chain header that arrives on one of its three
//! subscriptions (imported, best and finalized heads) to the listeners
//! registered for that stream, forwards requests to the RPC server, and
//! decides what happens when a subscription fails: the pooled worker
//! switches to the next RPC server, the others stop.
//!
//! The node owns the channels and the connections; it asks the worker what to
//! do with each event and performs the action. The urls are tried in turn,
//! starting after the one in use and wrapping around.
use vstd::prelude::*;
use vstd::arithmetic::div_mod::{lemma_add_mod_noop, lemma_mod_add_multiples_vanish, lemma_mod_bound, lemma_small_mod};

verus! {

/// The three header streams of a worker.
#[derive(Clone, Copy, Debug, PartialEq, Eq, Structural)]
pub enum HeaderStream {
    Imported,
    Best,
    Finalized,
}

/// How handing a header to one listener went.
#[derive(Clone, Copy, Debug, PartialEq, Eq, Structural)]
pub enum SendOutcome {
    Delivered,
    /// The listener's channel is full.
    Full,
    /// The listener dropped its receiver.
    Disconnected,
}

/// The worker variants.
#[derive(Clone, Copy, Debug, PartialEq, Eq, Structural)]
pub enum WorkerKind {
    /// One websocket connection; listeners only.
    Direct,
    /// A pool of RPC servers, switched when a subscription or request fails.
    Pooled,
    /// An embedded light client.
    LightClient,
}

/// What arrived on the worker's own channel.
pub enum WorkerMessage<L, Q> {
    Register(HeaderStream, L),
    Request(Q),
    /// Every sender of the channel is gone.
    Closed,
}

/// What arrived on a subscription.
#[derive(Clone, Copy, Debug, PartialEq, Eq, Structural)]
pub enum Notification {
    /// A header, handed to the stream's listeners.
    Header,
    /// The subscription ended.
    Closed,
    /// The subscription reported an error.
    Failed,
}

/// What the node does next.
pub enum WorkerAction<Q> {
    /// Wait for the next event.
    Continue,
    /// Send the request to the RPC server in use.
    Dispatch(Q),
    /// Put the request back on the worker's channel.
    Resend(Q),
    /// End the worker.
    Stop,
}

/// Whether a listener stays registered after a send.
pub open spec fn stays(kind: WorkerKind, outcome: SendOutcome) -> bool {
    match outcome {
        SendOutcome::Delivered => true,
        SendOutcome::Full => kind != WorkerKind::Direct,
        SendOutcome::Disconnected => false,
    }
}

/// The listeners that stay, in their order.
pub open spec fn retained<L>(kind: WorkerKind, listeners: Seq<L>, outcomes: Seq<SendOutcome>) -> Seq<L>
    decreases listeners.len(),
{
    if listeners.len() == 0 {
        Seq::empty()
    } else {
        let rest = retained(kind, listeners.drop_last(), outcomes);
        if stays(kind, outcomes[listeners.len() - 1]) {
            rest.push(listeners.last())
        } else {
            rest
        }
    }
}

/// Keeps the listeners that a header reached or, except for the direct
/// worker, whose channel was only full.
pub fn retain_listeners<L>(kind: WorkerKind, listeners: Vec<L>, outcomes: &Vec<SendOutcome>) -> (r: Vec<L>)
    requires
        outcomes.len() == listeners.len(),
    ensures
        r@ == retained(kind, listeners@, outcomes@),
{
    let ghost all = listeners@;
    let mut rest = listeners;
    let mut kept: Vec<L> = Vec::new();
    let mut i: usize = 0;
    while rest.len() > 0
        invariant
            i + rest.len() == all.len(),
            outcomes.len() == all.len(),
            rest@ == all.skip(i as int),
            kept@ == retained(kind, all.take(i as int), outcomes@),
        decreases rest.len(),
    {
        let l = rest.remove(0);
        proof {
            assert(all.take(i + 1).drop_last() =~= all.take(i as int));
            assert(all.take(i + 1).last() == l);
            assert(rest@ =~= all.skip(i + 1));
        }
        let keep = match outcomes[i] {
            SendOutcome::Delivered => true,
            SendOutcome::Full => match kind {
                WorkerKind::Direct => false,
                _ => true,
            },
            SendOutcome::Disconnected => false,
        };
        if keep {
            kept.push(l);
        }
        i = i + 1;
    }
    proof {
        assert(all.take(i as int) =~= all);
    }
    kept
}

/// The order in which the urls are tried: each once, starting at the given
/// position and wrapping around.
pub open spec fn rotation(url_count: nat, start: int) -> Seq<int> {
    Seq::new(url_count, |c: int| (start + c) % (url_count as int))
}

/// The indices of the urls to try, from the starting position on.
pub fn rotation_order(url_count: usize, starting_position: usize) -> (order: Vec<usize>)
    ensures
        order@.map_values(|i: usize| i as int) == rotation(url_count as nat, starting_position as int),
{
    let mut order: Vec<usize> = Vec::new();
    if url_count == 0 {
        proof {
            assert(order@.map_values(|i: usize| i as int) =~= rotation(url_count as nat, starting_position as int));
        }
        return order;
    }
    let s = starting_position % url_count;
    let mut c: usize = 0;
    while c < url_count
        invariant
            0 < url_count,
            c <= url_count,
            s == starting_position % url_count,
            order@.len() == c,
            forall|k: int| 0 <= k < c ==> order@[k] == (starting_position + k) % (url_count as int),
        decreases url_count - c,
    {
        proof {
            lemma_rotation_step(url_count as int, starting_position as int, c as int);
        }
        let index = if c < url_count - s {
            s + c
        } else {
            c - (url_count - s)
        };
        order.push(index);
        c = c + 1;
    }
    proof {
        assert(order@.map_values(|i: usize| i as int) =~= rotation(url_count as nat, starting_position as int));
    }
    order
}

proof fn lemma_rotation_step(n: int, start: int, c: int)
    requires
        0 < n,
        0 <= start,
        0 <= c < n,
    ensures
        (start + c) % n == if start % n + c < n {
            start % n + c
        } else {
            start % n + c - n
        },
{
    lemma_add_mod_noop(start, c, n);
    lemma_small_mod(c as nat, n as nat);
    lemma_mod_bound(start, n);
    let s = start % n;
    if s + c < n {
        lemma_small_mod((s + c) as nat, n as nat);
    } else {
        let b = s + c - n;
        lemma_mod_add_multiples_vanish(b, n);
        lemma_small_mod(b as nat, n as nat);
    }
}

/// Every url is tried exactly once, whatever the starting position.
pub proof fn law_rotation_tries_each_url_once(url_count: nat, start: nat)
    requires
        url_count > 0,
    ensures
        rotation(url_count, start as int).len() == url_count,
        rotation(url_count, start as int).no_duplicates(),
        forall|i: int| 0 <= i < url_count ==> #[trigger] rotation(url_count, start as int).contains(i),
        rotation(url_count, start as int)[0] == (start as int) % (url_count as int),
{
    let n = url_count as int;
    let r = rotation(url_count, start as int);
    assert forall|a: int, b: int| 0 <= a < r.len() && 0 <= b < r.len() && a != b implies r[a] != r[b] by {
        lemma_rotation_step(n, start as int, a);
        lemma_rotation_step(n, start as int, b);
    }
    assert forall|i: int| 0 <= i < n implies #[trigger] r.contains(i) by {
        lemma_mod_bound(start as int, n);
        let s = start as int % n;
        let c = if i >= s { i - s } else { i - s + n };
        lemma_rotation_step(n, start as int, c);
        assert(r[c] == i);
    }
    lemma_rotation_step(n, start as int, 0);
}

/// The listeners of a worker, by stream, and whether the pooled worker must
/// switch servers before it waits again.
pub struct HeaderWorker<L> {
    pub kind: WorkerKind,
    pub imported_header_listeners: Vec<L>,
    pub best_header_listeners: Vec<L>,
    pub finalized_header_listeners: Vec<L>,
    pub reset_streams: bool,
}

impl<L> HeaderWorker<L> {
    /// The listeners of one stream.
    pub open spec fn listeners(&self, stream: HeaderStream) -> Seq<L> {
        match stream {
            HeaderStream::Imported => self.imported_header_listeners@,
            HeaderStream::Best => self.best_header_listeners@,
            HeaderStream::Finalized => self.finalized_header_listeners@,
        }
    }

    /// The listeners of every stream other than the given one are those of `other`.
    pub open spec fn others_unchanged(&self, other: &Self, stream: HeaderStream) -> bool {
        forall|s: HeaderStream| s != stream ==> #[trigger] self.listeners(s) == other.listeners(s)
    }

    /// A worker with no listeners.
    pub fn new(kind: WorkerKind) -> (w: Self)
        ensures
            w.kind == kind,
            !w.reset_streams,
            forall|s: HeaderStream| #[trigger] w.listeners(s) == Seq::<L>::empty(),
    {
        HeaderWorker {
            kind,
            imported_header_listeners: Vec::new(),
            best_header_listeners: Vec::new(),
            finalized_header_listeners: Vec::new(),
            reset_streams: false,
        }
    }

    fn push_listener(&mut self, stream: HeaderStream, listener: L)
        ensures
            final(self).kind == old(self).kind,
            final(self).reset_streams == old(self).reset_streams,
            final(self).listeners(stream) == old(self).listeners(stream).push(listener),
            final(self).others_unchanged(old(self), stream),
    {
        match stream {
            HeaderStream::Imported => self.imported_header_listeners.push(listener),
            HeaderStream::Best => self.best_header_listeners.push(listener),
            HeaderStream::Finalized => self.finalized_header_listeners.push(listener),
        }
    }

    /// A message on the worker's channel: a listener is registered, a request
    /// goes to the server; when the channel closes, the pooled and light-client
    /// workers stop and the direct worker carries on.
    pub fn on_message<Q>(&mut self, message: WorkerMessage<L, Q>) -> (action: WorkerAction<Q>)
        requires
            !(old(self).kind == WorkerKind::Direct && message is Request),
        ensures
            final(self).kind == old(self).kind,
            final(self).reset_streams == old(self).reset_streams,
            match message {
                WorkerMessage::Register(stream, listener) => {
                    &&& final(self).listeners(stream) == old(self).listeners(stream).push(listener)
                    &&& final(self).others_unchanged(old(self), stream)
                    &&& action is Continue
                },
                WorkerMessage::Request(q) => {
                    &&& forall|s: HeaderStream| #[trigger] final(self).listeners(s) == old(self).listeners(s)
                    &&& action == WorkerAction::Dispatch(q)
                },
                WorkerMessage::Closed => {
                    &&& forall|s: HeaderStream| #[trigger] final(self).listeners(s) == old(self).listeners(s)
                    &&& (old(self).kind == WorkerKind::Direct ==> action is Continue)
                    &&& (old(self).kind != WorkerKind::Direct ==> action is Stop)
                },
            },
    {
        match message {
            WorkerMessage::Register(stream, listener) => {
                self.push_listener(stream, listener);
                WorkerAction::Continue
            },
            WorkerMessage::Request(q) => WorkerAction::Dispatch(q),
            WorkerMessage::Closed => match self.kind {
                WorkerKind::Direct => WorkerAction::Continue,
                _ => WorkerAction::Stop,
            },
        }
    }

    /// A request came back; the pooled worker hands back a request whose
    /// server must be replaced: it is sent again and the streams are reset.
    pub fn on_request_done<Q>(&mut self, retry: Option<Q>) -> (action: WorkerAction<Q>)
        requires
            old(self).kind != WorkerKind::Pooled ==> retry is None,
        ensures
            final(self).kind == old(self).kind,
            forall|s: HeaderStream| #[trigger] final(self).listeners(s) == old(self).listeners(s),
            match retry {
                Some(q) => final(self).reset_streams && action == WorkerAction::Resend(q),
                None => final(self).reset_streams == old(self).reset_streams && action is Continue,
            },
    {
        match retry {
            Some(q) => {
                self.reset_streams = true;
                WorkerAction::Resend(q)
            },
            None => WorkerAction::Continue,
        }
    }

    /// Something arrived on a subscription. A header was offered to each
    /// listener of the stream, with the given outcomes, and the listeners
    /// that stay are kept; a closed or failed subscription makes the pooled
    /// worker switch servers and the others stop.
    pub fn on_notification<Q>(
        &mut self,
        stream: HeaderStream,
        notification: Notification,
        outcomes: &Vec<SendOutcome>,
    ) -> (action: WorkerAction<Q>)
        requires
            notification == Notification::Header ==> outcomes.len() == old(self).listeners(stream).len(),
        ensures
            final(self).kind == old(self).kind,
            final(self).others_unchanged(old(self), stream),
            notification == Notification::Header ==> {
                &&& final(self).listeners(stream) == retained(old(self).kind, old(self).listeners(stream), outcomes@)
                &&& final(self).reset_streams == old(self).reset_streams
                &&& action is Continue
            },
            notification != Notification::Header ==> {
                &&& final(self).listeners(stream) == old(self).listeners(stream)
                &&& (old(self).kind == WorkerKind::Pooled ==> final(self).reset_streams && action is Continue)
                &&& (old(self).kind != WorkerKind::Pooled ==> final(self).reset_streams == old(self).reset_streams
                    && action is Stop)
            },
    {
        match notification {
            Notification::Header => {
                let kind = self.kind;
                match stream {
                    HeaderStream::Imported => {
                        let mut ls: Vec<L> = Vec::new();
                        std::mem::swap(&mut ls, &mut self.imported_header_listeners);
                        self.imported_header_listeners = retain_listeners(kind, ls, outcomes);
                    },
                    HeaderStream::Best => {
                        let mut ls: Vec<L> = Vec::new();
                        std::mem::swap(&mut ls, &mut self.best_header_listeners);
                        self.best_header_listeners = retain_listeners(kind, ls, outcomes);
                    },
                    HeaderStream::Finalized => {
                        let mut ls: Vec<L> = Vec::new();
                        std::mem::swap(&mut ls, &mut self.finalized_header_listeners);
                        self.finalized_header_listeners = retain_listeners(kind, ls, outcomes);
                    },
                }
                WorkerAction::Continue
            },
            _ => match self.kind {
                WorkerKind::Pooled => {
                    self.reset_streams = true;
                    WorkerAction::Continue
                },
                _ => WorkerAction::Stop,
            },
        }
    }

    /// Before waiting: whether the servers must be switched first. The flag
    /// is cleared; if no server can be reached the worker stops anyway.
    pub fn take_reset(&mut self) -> (reset: bool)
        ensures
            reset == old(self).reset_streams,
            !final(self).reset_streams,
            final(self).kind == old(self).kind,
            forall|s: HeaderStream| #[trigger] final(self).listeners(s) == old(self).listeners(s),
    {
        let r = self.reset_streams;
        self.reset_streams = false;
        r
    }
}

/// The server in use among the urls of the pooled worker.
pub struct ClientManager {
    pub url_count: usize,
    pub active: usize,
}

impl ClientManager {
    pub open spec fn wf(&self) -> bool {
        self.active < self.url_count
    }

    /// The urls to try when the worker starts, from the first; none when
    /// there are no urls, and the worker does not start.
    pub fn initial_order(url_count: usize) -> (order: Option<Vec<usize>>)
        ensures
            order is None <==> url_count == 0,
            order matches Some(o) ==> o@.map_values(|i: usize| i as int) == rotation(url_count as nat, 0),
    {
        if url_count == 0 {
            None
        } else {
            Some(rotation_order(url_count, 0))
        }
    }

    /// The manager once the url at `index` answered.
    pub fn connected(url_count: usize, index: usize) -> (m: Self)
        requires
            index < url_count,
        ensures
            m.wf(),
            m.url_count == url_count,
            m.active == index,
    {
        ClientManager { url_count, active: index }
    }

    /// The urls to try when the server in use fails: from the next one on,
    /// wrapping around, the one in use last.
    pub fn reconnect_order(&self) -> (order: Vec<usize>)
        requires
            self.wf(),
        ensures
            order@.map_values(|i: usize| i as int) == rotation(self.url_count as nat, self.active + 1),
    {
        rotation_order(self.url_count, self.active + 1)
    }

    /// The url at `index` answered and is used from now on.
    pub fn switch_to(&mut self, index: usize)
        requires
            index < old(self).url_count,
        ensures
            final(self).wf(),
            final(self).url_count == old(self).url_count,
            final(self).active == index,
    {
        self.active = index;
    }
}

} // verus!
