//! The parachain's message broker: it takes the downward and horizontal
//! messages that the collator put into the ingestion inherent, hands them to
//! the runtime's handlers, and records how many downward messages were
//! processed and up to which relay block horizontal messages were read; and
//! it queues the parachain's upward messages, of which each block carries at
//! most a fixed number to the relay chain.
use vstd::prelude::*;
use std::collections::BTreeMap;
use vstd::std_specs::btree::{increasing_seq, spec_keys_iter};
use vstd::std_specs::iter::IteratorSpec;
use crate::origin::Origin;

verus! {

/// Relay-chain block numbers.
pub type RelayBlockNumber = u32;

/// Parachain identifiers.
pub type ParaId = u32;

/// A message from the parachain to the relay chain.
pub type UpwardMessage = Vec<u8>;

/// The most upward messages one block carries.
pub const UMP_MSG_NUM_PER_CANDIDATE: usize = 5;

/// A message from the relay chain.
pub struct InboundDownwardMessage {
    pub sent_at: RelayBlockNumber,
    pub msg: Vec<u8>,
}

/// A message from another parachain.
pub struct InboundHrmpMessage {
    pub sent_at: RelayBlockNumber,
    pub data: Vec<u8>,
}

/// The content of the ingestion inherent: the downward messages, and the
/// horizontal messages by sender.
pub struct MessageIngestion {
    pub dmp: Vec<InboundDownwardMessage>,
    pub hrmp: BTreeMap<ParaId, Vec<InboundHrmpMessage>>,
}

/// The runtime's handler of downward messages.
pub trait DownwardMessageHandler {
    /// The messages handed to the handler so far, in order. Each verified
    /// handler defines it; the default body only lets handlers written
    /// outside verified code compile, and nothing is proved of those.
    open spec fn handled(&self) -> Seq<InboundDownwardMessage> {
        Seq::empty()
    }

    /// Takes one message.
    fn handle_downward_message(&mut self, msg: InboundDownwardMessage)
        ensures
            final(self).handled() == old(self).handled().push(msg),
    ;
}

/// The runtime's handler of horizontal messages.
pub trait HrmpMessageHandler {
    /// The messages handed to the handler so far, with their senders, in
    /// order. Each verified handler defines it; the default body only lets
    /// handlers written outside verified code compile, and nothing is proved
    /// of those.
    open spec fn handled(&self) -> Seq<(ParaId, InboundHrmpMessage)> {
        Seq::empty()
    }

    /// Takes one message of `sender`.
    fn handle_hrmp_message(&mut self, sender: ParaId, msg: InboundHrmpMessage)
        ensures
            final(self).handled() == old(self).handled().push((sender, msg)),
    ;
}

/// The messages of one sender, each with the sender.
pub open spec fn from_sender(sender: ParaId, msgs: Seq<InboundHrmpMessage>) -> Seq<(ParaId, InboundHrmpMessage)> {
    msgs.map_values(|m: InboundHrmpMessage| (sender, m))
}

/// The horizontal messages in the order they are handed over: sender by
/// sender, each sender's messages in order.
pub open spec fn hrmp_in_order(hrmp: Seq<(ParaId, Vec<InboundHrmpMessage>)>) -> Seq<(ParaId, InboundHrmpMessage)>
    decreases hrmp.len(),
{
    if hrmp.len() == 0 {
        Seq::empty()
    } else {
        hrmp_in_order(hrmp.drop_last()) + from_sender(hrmp.last().0, hrmp.last().1@)
    }
}

/// Each sender once, in increasing order.
pub open spec fn senders_ordered(hrmp: Seq<(ParaId, Vec<InboundHrmpMessage>)>) -> bool {
    forall|i: int, j: int| 0 <= i < j < hrmp.len() ==> hrmp[i].0 < hrmp[j].0
}

/// `listing` holds each sender of `by_sender` once, in increasing order,
/// with its messages.
pub open spec fn lists_senders(
    by_sender: Map<ParaId, Vec<InboundHrmpMessage>>,
    listing: Seq<(ParaId, Vec<InboundHrmpMessage>)>,
) -> bool {
    &&& senders_ordered(listing)
    &&& forall|i: int|
        0 <= i < listing.len() ==> #[trigger] by_sender.contains_key(listing[i].0) && by_sender[listing[i].0]
            == listing[i].1
    &&& forall|k: ParaId| #[trigger]
        by_sender.contains_key(k) ==> exists|i: int| 0 <= i < listing.len() && listing[i].0 == k
}

/// A map of senders has one listing only: the listing that the ingestion
/// inherent hands the horizontal messages over in is fixed by the messages.
pub proof fn law_listing_is_unique(
    by_sender: Map<ParaId, Vec<InboundHrmpMessage>>,
    a: Seq<(ParaId, Vec<InboundHrmpMessage>)>,
    b: Seq<(ParaId, Vec<InboundHrmpMessage>)>,
)
    requires
        lists_senders(by_sender, a),
        lists_senders(by_sender, b),
    ensures
        a == b,
{
    assert forall|i: int| 0 <= i < a.len() && 0 <= i < b.len() implies a[i] == b[i] by {
        lemma_listings_agree_up_to(by_sender, a, b, i);
    }
    if a.len() > b.len() {
        let n = b.len() as int;
        assert(by_sender.contains_key(a[n].0));
        let p = choose|p: int| 0 <= p < b.len() && b[p].0 == a[n].0;
        lemma_listings_agree_up_to(by_sender, a, b, p);
        assert(a[p].0 < a[n].0);
    } else if b.len() > a.len() {
        let n = a.len() as int;
        assert(by_sender.contains_key(b[n].0));
        let p = choose|p: int| 0 <= p < a.len() && a[p].0 == b[n].0;
        lemma_listings_agree_up_to(by_sender, a, b, p);
        assert(b[p].0 < b[n].0);
    }
    assert(a =~= b);
}

proof fn lemma_listings_agree_up_to(
    by_sender: Map<ParaId, Vec<InboundHrmpMessage>>,
    a: Seq<(ParaId, Vec<InboundHrmpMessage>)>,
    b: Seq<(ParaId, Vec<InboundHrmpMessage>)>,
    i: int,
)
    requires
        lists_senders(by_sender, a),
        lists_senders(by_sender, b),
        0 <= i < a.len(),
        0 <= i < b.len(),
    ensures
        forall|j: int| 0 <= j <= i ==> a[j] == b[j],
    decreases i,
{
    if i > 0 {
        lemma_listings_agree_up_to(by_sender, a, b, i - 1);
    }
    assert(by_sender.contains_key(a[i].0));
    assert(by_sender.contains_key(b[i].0));
    let p = choose|p: int| 0 <= p < b.len() && b[p].0 == a[i].0;
    let q = choose|q: int| 0 <= q < a.len() && a[q].0 == b[i].0;
    if p < i {
        assert(a[p].0 == b[p].0);
        assert(a[p].0 < a[i].0);
    }
    if q < i {
        assert(a[q].0 == b[q].0);
        assert(b[q].0 < b[i].0);
    }
    if p > i {
        assert(b[i].0 < b[p].0);
        if q > i {
            assert(a[i].0 < a[q].0);
        }
    }
    assert(p == i);
    assert(a[i].0 == b[i].0);
}

/// The entries of `by_sender`, in increasing order of sender.
fn listing_by_sender(by_sender: BTreeMap<ParaId, Vec<InboundHrmpMessage>>) -> (listing: Vec<
    (ParaId, Vec<InboundHrmpMessage>),
>)
    ensures
        lists_senders(by_sender@, listing@),
{
    broadcast use vstd::std_specs::btree::group_btree_axioms;
    broadcast use vstd::laws_cmp::group_laws_cmp;

    let mut senders: Vec<ParaId> = Vec::new();
    for k in it: by_sender.keys()
        invariant
            senders@ == it.seq().take(it.index()).map_values(|r: &ParaId| *r),
    {
        senders.push(*k);
    }
    let ghost ks = IteratorSpec::remaining(&spec_keys_iter(&by_sender));
    assert(senders@ =~= ks.map_values(|r: &ParaId| *r));
    assert(increasing_seq(ks));
    assert forall|i: int, j: int| 0 <= i < j < senders@.len() implies senders@[i] < senders@[j] by {
        assert(vstd::std_specs::cmp::OrdSpec::cmp_spec(&ks[i], &ks[j]) is Less);
    }
    assert forall|k: ParaId| by_sender@.contains_key(k) implies senders@.contains(k) by {
        assert(ks.unref().to_set().contains(k));
        assert(ks.unref() =~= senders@);
    }
    assert forall|i: int| 0 <= i < senders@.len() implies by_sender@.contains_key(senders@[i]) by {
        assert(ks.unref() =~= senders@);
        assert(ks.unref().to_set().contains(senders@[i]));
    }
    let ghost all = by_sender@;
    let mut rest = by_sender;
    let mut listing: Vec<(ParaId, Vec<InboundHrmpMessage>)> = Vec::new();
    let mut i: usize = 0;
    while i < senders.len()
        invariant
            i <= senders@.len(),
            forall|a: int, b: int| 0 <= a < b < senders@.len() ==> senders@[a] < senders@[b],
            forall|k: ParaId| all.contains_key(k) ==> senders@.contains(k),
            forall|a: int| 0 <= a < senders@.len() ==> all.contains_key(#[trigger] senders@[a]),
            forall|a: int|
                i <= a < senders@.len() ==> rest@.contains_key(#[trigger] senders@[a]) && rest@[senders@[a]]
                    == all[senders@[a]],
            listing@.len() == i,
            forall|a: int|
                0 <= a < i ==> (#[trigger] listing@[a]).0 == senders@[a] && listing@[a].1 == all[senders@[a]],
        decreases senders.len() - i,
    {
        let sender = senders[i];
        let msgs = rest.remove(&sender).unwrap();
        proof {
            assert forall|a: int| i < a < senders@.len() implies rest@.contains_key(#[trigger] senders@[a])
                && rest@[senders@[a]] == all[senders@[a]] by {
                assert(sender < senders@[a]);
            }
        }
        listing.push((sender, msgs));
        i = i + 1;
    }
    assert forall|k: ParaId| #[trigger] all.contains_key(k) implies exists|a: int|
        0 <= a < listing@.len() && listing@[a].0 == k by {
        let a = senders@.index_of(k);
        assert(listing@[a].0 == k);
    }
    listing
}

/// The relay block at which the last horizontal message read was sent, if
/// any was read: the last message of the last sender with messages.
pub open spec fn hrmp_watermark(hrmp: Seq<(ParaId, Vec<InboundHrmpMessage>)>) -> Option<RelayBlockNumber>
    decreases hrmp.len(),
{
    if hrmp.len() == 0 {
        None
    } else if hrmp.last().1@.len() > 0 {
        Some(hrmp.last().1@.last().sent_at)
    } else {
        hrmp_watermark(hrmp.drop_last())
    }
}

/// The weights of storage accesses.
#[derive(Clone, Copy, Debug, PartialEq, Eq, Structural)]
pub struct RuntimeDbWeight {
    pub read: u64,
    pub write: u64,
}

/// The weight of initializing a block: one write, then the read and the two
/// writes of finalizing it.
pub open spec fn initialize_weight(db: RuntimeDbWeight) -> int {
    db.write + db.read + 2 * db.write
}

/// The broker's storage.
pub struct MessageBroker {
    /// Upward messages that wait for a block to carry them.
    pub pending_upward_messages: Vec<UpwardMessage>,
    /// The upward messages this block carries.
    pub upward_messages: Option<Vec<UpwardMessage>>,
    /// How many downward messages this block processed.
    pub processed_downward_messages: Option<u32>,
    /// The relay block up to which horizontal messages were read.
    pub hrmp_watermark: Option<RelayBlockNumber>,
}

/// The origin of an inherent is not unsigned.
#[derive(Clone, Copy, Debug, PartialEq, Eq, Structural)]
pub struct BadOrigin;

/// An error that can be raised upon sending an upward message.
#[derive(Clone, Copy, Debug, PartialEq, Eq, Structural)]
pub enum SendUpErr {
    /// The message sent is too big.
    TooBig,
}

impl MessageBroker {
    /// Empty storage.
    pub fn new() -> (b: Self)
        ensures
            b.pending_upward_messages@.len() == 0,
            b.upward_messages is None,
            b.processed_downward_messages is None,
            b.hrmp_watermark is None,
    {
        MessageBroker {
            pending_upward_messages: Vec::new(),
            upward_messages: None,
            processed_downward_messages: None,
            hrmp_watermark: None,
        }
    }

    /// The ingestion inherent: every downward message goes to `dmp_handler`,
    /// then every horizontal message to `hrmp_handler`, sender by sender in increasing order of sender; the
    /// number of downward messages is recorded, and the watermark moves to
    /// the last horizontal message read, if any. Only an unsigned call may do
    /// this.
    pub fn ingest_inbound_messages<D: DownwardMessageHandler, H: HrmpMessageHandler>(
        &mut self,
        origin: Origin,
        messages: MessageIngestion,
        dmp_handler: &mut D,
        hrmp_handler: &mut H,
    ) -> (r: Result<(), BadOrigin>)
        ensures
            origin != Origin::Unsigned ==> {
                &&& r is Err
                &&& *final(self) == *old(self)
                &&& final(dmp_handler).handled() == old(dmp_handler).handled()
                &&& final(hrmp_handler).handled() == old(hrmp_handler).handled()
            },
            origin == Origin::Unsigned ==> {
                &&& r is Ok
                &&& final(dmp_handler).handled() == old(dmp_handler).handled() + messages.dmp@
                &&& exists|listing: Seq<(ParaId, Vec<InboundHrmpMessage>)>|
                    {
                        &&& lists_senders(messages.hrmp@, listing)
                        &&& final(hrmp_handler).handled() == old(hrmp_handler).handled() + hrmp_in_order(listing)
                        &&& final(self).hrmp_watermark == match hrmp_watermark(listing) {
                            Some(w) => Some(w),
                            None => old(self).hrmp_watermark,
                        }
                    }
                &&& final(self).processed_downward_messages == Some(#[verifier::truncate] (messages.dmp@.len() as u32))
                &&& final(self).pending_upward_messages == old(self).pending_upward_messages
                &&& final(self).upward_messages == old(self).upward_messages
            },
    {
        if origin != Origin::Unsigned {
            return Err(BadOrigin);
        }
        let MessageIngestion { dmp, hrmp } = messages;
        let dmp_count = #[verifier::truncate] (dmp.len() as u32);
        let ghost d0 = dmp_handler.handled();
        let ghost h0 = hrmp_handler.handled();
        let ghost dall = dmp@;
        let mut dmp = dmp;
        proof {
            assert(dall.skip(0) =~= dall);
            assert(d0 + dall.take(0) =~= d0);
        }
        while dmp.len() > 0
            invariant
                dmp@.len() <= dall.len(),
                dmp@ == dall.skip(dall.len() - dmp@.len()),
                dmp_handler.handled() == d0 + dall.take(dall.len() - dmp@.len()),
                hrmp_handler.handled() == h0,
            decreases dmp.len(),
        {
            let ghost k = dall.len() - dmp@.len();
            let m = dmp.remove(0);
            dmp_handler.handle_downward_message(m);
            proof {
                assert(dmp@ =~= dall.skip(k + 1));
                assert(d0 + dall.take(k + 1) =~= (d0 + dall.take(k)).push(m));
            }
        }
        proof {
            assert(dall.take(dall.len() as int) =~= dall);
        }
        self.processed_downward_messages = Some(dmp_count);
        let hrmp = listing_by_sender(hrmp);
        let ghost all = hrmp@;
        assert(all.len() == hrmp.len());
        let mut watermark: Option<RelayBlockNumber> = None;
        let mut rest = hrmp;
        let mut i: usize = 0;
        while rest.len() > 0
            invariant
                all.len() <= usize::MAX,
                i + rest.len() == all.len(),
                rest@ == all.skip(i as int),
                watermark == hrmp_watermark(all.take(i as int)),
                dmp_handler.handled() == d0 + dall,
                hrmp_handler.handled() == h0 + hrmp_in_order(all.take(i as int)),
            decreases rest.len(),
        {
            let (sender, channel) = rest.remove(0);
            proof {
                assert(all.take(i + 1).drop_last() =~= all.take(i as int));
                assert(rest@ =~= all.skip(i + 1));
            }
            let ghost channel_view = channel@;
            proof {
                assert(all.take(i + 1).last().1@ == channel_view);
                assert(all.take(i + 1).last().0 == sender);
                assert(h0 + hrmp_in_order(all.take(i as int)) + from_sender(sender, channel_view.take(0)) =~= h0
                    + hrmp_in_order(all.take(i as int)));
            }
            let mut msgs = channel;
            while msgs.len() > 0
                invariant
                    all.len() <= usize::MAX,
                    i + 1 + rest.len() == all.len(),
                    rest@ == all.skip(i + 1),
                    all.take(i + 1).drop_last() == all.take(i as int),
                    all.take(i + 1).last().1@ == channel_view,
                    msgs@.len() <= channel_view.len(),
                    msgs@ == channel_view.skip(channel_view.len() - msgs@.len()),
                    msgs@.len() < channel_view.len() ==> watermark == Some(
                        channel_view[channel_view.len() - msgs@.len() - 1].sent_at,
                    ),
                    msgs@.len() == channel_view.len() ==> watermark == hrmp_watermark(all.take(i as int)),
                    all.take(i + 1).last().0 == sender,
                    dmp_handler.handled() == d0 + dall,
                    hrmp_handler.handled() == h0 + hrmp_in_order(all.take(i as int)) + from_sender(
                        sender,
                        channel_view.take(channel_view.len() - msgs@.len()),
                    ),
                decreases msgs.len(),
            {
                let ghost k = channel_view.len() - msgs@.len();
                let m = msgs.remove(0);
                watermark = Some(m.sent_at);
                hrmp_handler.handle_hrmp_message(sender, m);
                proof {
                    assert(msgs@ =~= channel_view.skip(channel_view.len() - msgs@.len()));
                    assert(m == channel_view[k]);
                    assert(from_sender(sender, channel_view.take(k + 1)) =~= from_sender(sender, channel_view.take(k)).push(
                        (sender, m),
                    ));
                    assert(h0 + hrmp_in_order(all.take(i as int)) + from_sender(sender, channel_view.take(k + 1)) =~= (h0
                        + hrmp_in_order(all.take(i as int)) + from_sender(sender, channel_view.take(k))).push((sender, m)));
                }
            }
            proof {
                if channel_view.len() > 0 {
                    assert(watermark == Some(channel_view.last().sent_at));
                }
                assert(channel_view.take(channel_view.len() as int) =~= channel_view);
                assert(hrmp_in_order(all.take(i + 1)) == hrmp_in_order(all.take(i as int)) + from_sender(
                    sender,
                    channel_view,
                ));
                assert(h0 + hrmp_in_order(all.take(i + 1)) =~= h0 + hrmp_in_order(all.take(i as int)) + from_sender(
                    sender,
                    channel_view,
                ));
            }
            i = i + 1;
        }
        proof {
            assert(all.take(i as int) =~= all);
        }
        match watermark {
            Some(w) => {
                self.hrmp_watermark = Some(w);
            },
            None => {},
        }
        Ok(())
    }

    /// At the start of a block the watermark is cleared; returns the weight
    /// of that and of finalizing the block.
    pub fn on_initialize(&mut self, db: RuntimeDbWeight) -> (weight: u64)
        requires
            initialize_weight(db) <= u64::MAX,
        ensures
            weight == initialize_weight(db),
            final(self).hrmp_watermark is None,
            final(self).pending_upward_messages == old(self).pending_upward_messages,
            final(self).upward_messages == old(self).upward_messages,
            final(self).processed_downward_messages == old(self).processed_downward_messages,
    {
        self.hrmp_watermark = None;
        db.write + (db.read + 2 * db.write)
    }

    /// At the end of a block, the first pending upward messages, at most
    /// [`UMP_MSG_NUM_PER_CANDIDATE`], are the block's; the rest wait.
    pub fn on_finalize(&mut self)
        ensures
            ({
                let pending = old(self).pending_upward_messages@;
                let n = if pending.len() < UMP_MSG_NUM_PER_CANDIDATE {
                    pending.len() as int
                } else {
                    UMP_MSG_NUM_PER_CANDIDATE as int
                };
                &&& final(self).upward_messages matches Some(up) && up@ == pending.take(n)
                &&& final(self).pending_upward_messages@ == pending.skip(n)
            }),
            final(self).processed_downward_messages == old(self).processed_downward_messages,
            final(self).hrmp_watermark == old(self).hrmp_watermark,
    {
        let num = if self.pending_upward_messages.len() < UMP_MSG_NUM_PER_CANDIDATE {
            self.pending_upward_messages.len()
        } else {
            UMP_MSG_NUM_PER_CANDIDATE
        };
        let ghost pending = self.pending_upward_messages@;
        let mut up: Vec<UpwardMessage> = Vec::new();
        let mut k: usize = 0;
        while k < num
            invariant
                num <= pending.len(),
                k <= num,
                up@ == pending.take(k as int),
                self.pending_upward_messages@ == pending.skip(k as int),
                self.processed_downward_messages == old(self).processed_downward_messages,
                self.hrmp_watermark == old(self).hrmp_watermark,
                pending == old(self).pending_upward_messages@,
            decreases num - k,
        {
            let m = self.pending_upward_messages.remove(0);
            up.push(m);
            k = k + 1;
            proof {
                assert(up@ =~= pending.take(k as int));
                assert(self.pending_upward_messages@ =~= pending.skip(k as int));
            }
        }
        self.upward_messages = Some(up);
    }

    /// Queues an upward message; no limit on its size is applied.
    pub fn send_upward_message(&mut self, message: UpwardMessage) -> (r: Result<(), SendUpErr>)
        ensures
            r is Ok,
            final(self).pending_upward_messages@ == old(self).pending_upward_messages@.push(message),
            final(self).upward_messages == old(self).upward_messages,
            final(self).processed_downward_messages == old(self).processed_downward_messages,
            final(self).hrmp_watermark == old(self).hrmp_watermark,
    {
        self.pending_upward_messages.push(message);
        Ok(())
    }
}

/// The broker's calls.
pub enum Call {
    IngestInboundMessages(MessageIngestion),
}

/// The ingestion inherent for a block, from the ingestion data the collator
/// put into the inherent data (`None` when it put none).
pub fn create_inherent(data: Option<MessageIngestion>) -> (call: Option<Call>)
    ensures
        data is None <==> call is None,
        call matches Some(Call::IngestInboundMessages(m)) ==> data == Some(m),
{
    match data {
        Some(messages) => Some(Call::IngestInboundMessages(messages)),
        None => None,
    }
}

/// Blocks carry the queued upward messages in the order they were sent, none
/// lost: what a block carries followed by what still waits is the queue.
pub proof fn law_upward_messages_keep_their_order(pending: Seq<UpwardMessage>, n: int)
    requires
        0 <= n <= pending.len(),
    ensures
        pending.take(n) + pending.skip(n) == pending,
{
    assert(pending.take(n) + pending.skip(n) =~= pending);
}

} // verus!
