use std::collections::VecDeque;
use vstd::prelude::*;

use crate::media::DEFAULT_BRIDGE_CAPACITY;

verus! {

/// What a bridge is, mathematically: a bound, the buffered samples in the
/// order they were sent, and whether the consumer has gone.
pub struct BridgeView {
    pub capacity: nat,
    pub queue: Seq<Seq<u8>>,
    pub closed: bool,
}

/// What one `send` meets.
pub enum SendOutcome {
    /// The sample was buffered.
    Accepted,
    /// The bridge is open and holds `capacity` samples: the producer waits.
    Full,
    /// The consumer is gone: the producer stops.
    Closed,
}

/// What one `receive` meets.
pub enum ReceiveOutcome {
    /// The oldest buffered sample.
    Sample(Seq<u8>),
    /// Nothing is buffered and the bridge is open: the consumer waits.
    Pending,
    /// Nothing is buffered and the bridge is closed: the sequence has ended.
    Finished,
}

impl BridgeView {
    /// No more samples are buffered than the bound allows.
    pub open spec fn wf(self) -> bool {
        self.queue.len() <= self.capacity
    }

    pub open spec fn send_outcome(self) -> SendOutcome {
        if self.closed {
            SendOutcome::Closed
        } else if self.queue.len() >= self.capacity {
            SendOutcome::Full
        } else {
            SendOutcome::Accepted
        }
    }

    /// The bridge after a `send` of `data`: it grows at the back when the
    /// sample is accepted and is unchanged otherwise.
    pub open spec fn send(self, data: Seq<u8>) -> BridgeView {
        if self.send_outcome() is Accepted {
            BridgeView { queue: self.queue.push(data), ..self }
        } else {
            self
        }
    }

    pub open spec fn receive_outcome(self) -> ReceiveOutcome {
        if self.queue.len() > 0 {
            ReceiveOutcome::Sample(self.queue[0])
        } else if self.closed {
            ReceiveOutcome::Finished
        } else {
            ReceiveOutcome::Pending
        }
    }

    /// The bridge after a `receive`: it loses its oldest sample, if any.
    pub open spec fn receive(self) -> BridgeView {
        if self.queue.len() > 0 {
            BridgeView { queue: self.queue.drop_first(), ..self }
        } else {
            self
        }
    }

    pub open spec fn close(self) -> BridgeView {
        BridgeView { closed: true, ..self }
    }

    /// The bridge after sending `items` one after the other.
    pub open spec fn send_all(self, items: Seq<Seq<u8>>) -> BridgeView
        decreases items.len(),
    {
        if items.len() == 0 {
            self
        } else {
            self.send_all(items.drop_last()).send(items.last())
        }
    }

    /// The bridge after `n` receives.
    pub open spec fn receive_n(self, n: nat) -> BridgeView
        decreases n,
    {
        if n == 0 {
            self
        } else {
            self.receive_n((n - 1) as nat).receive()
        }
    }
}

/// Why a `send` did not buffer its sample. Either way the sample comes back.
#[derive(Debug)]
pub enum SendError {
    /// The bridge is full: wait for a `receive`, then send again.
    Full(Vec<u8>),
    /// The bridge is closed: stop producing for this slot.
    Closed(Vec<u8>),
}

/// The result of one `receive`.
#[derive(Debug)]
pub enum Received {
    Sample(Vec<u8>),
    Pending,
    Finished,
}

impl Received {
    pub open spec fn outcome(self) -> ReceiveOutcome {
        match self {
            Received::Sample(data) => ReceiveOutcome::Sample(data@),
            Received::Pending => ReceiveOutcome::Pending,
            Received::Finished => ReceiveOutcome::Finished,
        }
    }
}

/// A bounded, ordered conduit for encoded samples of one media kind.
///
/// The bridge never waits. A producer that meets `Full` waits for the
/// consumer and sends again; a consumer that meets `Pending` waits for the
/// producer. Both waits belong to the caller.
#[derive(Debug)]
pub struct Bridge {
    capacity: usize,
    queue: VecDeque<Vec<u8>>,
    closed: bool,
}

impl View for Bridge {
    type V = BridgeView;

    closed spec fn view(&self) -> BridgeView {
        BridgeView {
            capacity: self.capacity as nat,
            queue: self.queue@.map_values(|data: Vec<u8>| data@),
            closed: self.closed,
        }
    }
}

impl Bridge {
    /// An open, empty bridge that buffers up to `capacity` samples.
    pub fn new(capacity: usize) -> (bridge: Bridge)
        ensures
            bridge@ == (BridgeView { capacity: capacity as nat, queue: Seq::empty(), closed: false }),
            bridge@.wf(),
    {
        let bridge = Bridge { capacity, queue: VecDeque::new(), closed: false };
        assert(bridge@.queue =~= Seq::empty());
        bridge
    }

    /// An open, empty bridge with the default bound.
    pub fn with_default_capacity() -> (bridge: Bridge)
        ensures
            bridge@ == (BridgeView {
                capacity: DEFAULT_BRIDGE_CAPACITY as nat,
                queue: Seq::empty(),
                closed: false,
            }),
    {
        Bridge::new(DEFAULT_BRIDGE_CAPACITY)
    }

    /// Offers one sample. It is buffered behind all earlier ones if the
    /// bridge is open and has room; otherwise it is handed back.
    pub fn send(&mut self, data: Vec<u8>) -> (result: Result<(), SendError>)
        ensures
            old(self)@.wf() ==> final(self)@.wf(),
            final(self)@ == old(self)@.send(data@),
            match result {
                Ok(()) => old(self)@.send_outcome() is Accepted,
                Err(SendError::Full(back)) => old(self)@.send_outcome() is Full && back == data,
                Err(SendError::Closed(back)) => old(self)@.send_outcome() is Closed && back
                    == data,
            },
    {
        if self.closed {
            Err(SendError::Closed(data))
        } else if self.queue.len() >= self.capacity {
            Err(SendError::Full(data))
        } else {
            let ghost before = self@;
            self.queue.push_back(data);
            assert(self@.queue =~= before.queue.push(data@));
            Ok(())
        }
    }

    /// Takes the oldest buffered sample, or says why there is none.
    pub fn receive(&mut self) -> (result: Received)
        ensures
            old(self)@.wf() ==> final(self)@.wf(),
            final(self)@ == old(self)@.receive(),
            result.outcome() == old(self)@.receive_outcome(),
    {
        let ghost before = self@;
        match self.queue.pop_front() {
            Some(data) => {
                assert(self@.queue =~= before.queue.drop_first());
                Received::Sample(data)
            },
            None => {
                assert(self@.queue =~= before.queue);
                if self.closed {
                    Received::Finished
                } else {
                    Received::Pending
                }
            },
        }
    }

    /// Closes the bridge. Buffered samples stay for the consumer to drain.
    pub fn close(&mut self)
        ensures
            old(self)@.wf() ==> final(self)@.wf(),
            final(self)@ == old(self)@.close(),
    {
        self.closed = true;
    }

    pub fn is_closed(&self) -> (closed: bool)
        ensures
            closed == self@.closed,
    {
        self.closed
    }

    /// Number of buffered samples.
    pub fn len(&self) -> (len: usize)
        ensures
            len == self@.queue.len(),
    {
        self.queue.len()
    }

    pub fn capacity(&self) -> (capacity: usize)
        ensures
            capacity == self@.capacity,
    {
        self.capacity
    }
}

/// Sending to an open bridge that has room for all of `items` buffers every
/// one of them, in order, behind what was there.
pub proof fn lemma_sends_within_capacity(bridge: BridgeView, items: Seq<Seq<u8>>)
    requires
        !bridge.closed,
        bridge.queue.len() + items.len() <= bridge.capacity,
    ensures
        bridge.send_all(items) == (BridgeView { queue: bridge.queue + items, ..bridge }),
        forall|k: int|
            0 <= k < items.len() ==> #[trigger] bridge.send_all(
                items.take(k),
            ).send_outcome() is Accepted,
    decreases items.len(),
{
    if items.len() == 0 {
        assert(bridge.queue + items =~= bridge.queue);
    } else {
        let front = items.drop_last();
        lemma_sends_within_capacity(bridge, front);
        assert(bridge.queue + items =~= (bridge.queue + front).push(items.last()));
        assert forall|k: int| 0 <= k < items.len() implies #[trigger] bridge.send_all(
            items.take(k),
        ).send_outcome() is Accepted by {
            if k < front.len() {
                assert(items.take(k) =~= front.take(k));
            } else {
                assert(items.take(k) =~= front);
            }
        }
    }
}

/// Bounded backpressure: an open, empty bridge of capacity `n` accepts `n`
/// sends; the next send meets `Full` and changes nothing; and as soon as one
/// sample has been received, a send is accepted again.
pub proof fn lemma_bounded_backpressure(bridge: BridgeView, items: Seq<Seq<u8>>, extra: Seq<u8>)
    requires
        !bridge.closed,
        bridge.queue.len() == 0,
        items.len() == bridge.capacity,
    ensures
        forall|k: int|
            0 <= k < items.len() ==> #[trigger] bridge.send_all(
                items.take(k),
            ).send_outcome() is Accepted,
        bridge.send_all(items).queue == items,
        bridge.send_all(items).send_outcome() is Full,
        bridge.send_all(items).send(extra) == bridge.send_all(items),
        bridge.capacity > 0 ==> bridge.send_all(items).receive().send_outcome() is Accepted,
{
    lemma_sends_within_capacity(bridge, items);
    assert(bridge.queue + items =~= items);
}

/// Once a bridge is closed, no send is accepted, whatever is sent and
/// however often: the bridge stays as it is.
pub proof fn lemma_closed_rejects_sends(bridge: BridgeView, items: Seq<Seq<u8>>)
    requires
        bridge.closed,
    ensures
        bridge.send_outcome() is Closed,
        bridge.send_all(items) == bridge,
    decreases items.len(),
{
    if items.len() > 0 {
        lemma_closed_rejects_sends(bridge, items.drop_last());
    }
}

/// Receiving `n` times takes the `n` oldest samples, or all of them.
pub proof fn lemma_receive_n(bridge: BridgeView, n: nat)
    ensures
        bridge.receive_n(n).capacity == bridge.capacity,
        bridge.receive_n(n).closed == bridge.closed,
        n <= bridge.queue.len() ==> bridge.receive_n(n).queue == bridge.queue.skip(n as int),
        n >= bridge.queue.len() ==> bridge.receive_n(n).queue == Seq::<Seq<u8>>::empty(),
    decreases n,
{
    if n == 0 {
        assert(bridge.queue.skip(0) =~= bridge.queue);
        if bridge.queue.len() == 0 {
            assert(bridge.queue =~= Seq::<Seq<u8>>::empty());
        }
    } else {
        let m = (n - 1) as nat;
        lemma_receive_n(bridge, m);
        if n <= bridge.queue.len() {
            assert(bridge.queue.skip(m as int).drop_first() =~= bridge.queue.skip(n as int));
        }
        if n >= bridge.queue.len() {
            if m <= bridge.queue.len() {
                assert(bridge.queue.skip(m as int).len() <= 1);
            }
            assert(bridge.receive_n(n).queue =~= Seq::<Seq<u8>>::empty());
        }
    }
}

/// Finite after close: when a bridge is closed with `n` samples buffered,
/// every later send meets `Closed`, the consumer receives exactly those `n`
/// samples in the order they were sent, and every receive after them meets
/// `Finished`.
pub proof fn lemma_finite_after_close(bridge: BridgeView, later: Seq<Seq<u8>>, k: nat)
    ensures
        bridge.close().send_all(later) == bridge.close(),
        bridge.close().send_outcome() is Closed,
        k < bridge.queue.len() ==> bridge.close().receive_n(k).receive_outcome()
            == ReceiveOutcome::Sample(bridge.queue[k as int]),
        k >= bridge.queue.len() ==> bridge.close().receive_n(k).receive_outcome()
            == ReceiveOutcome::Finished,
{
    lemma_closed_rejects_sends(bridge.close(), later);
    lemma_receive_n(bridge.close(), k);
}

/// First in, first out: what was sent to an open, empty bridge with room
/// for it comes out in the order it went in.
pub proof fn lemma_fifo(bridge: BridgeView, items: Seq<Seq<u8>>, k: nat)
    requires
        !bridge.closed,
        bridge.queue.len() == 0,
        items.len() <= bridge.capacity,
        k < items.len(),
    ensures
        bridge.send_all(items).receive_n(k).receive_outcome() == ReceiveOutcome::Sample(
            items[k as int],
        ),
{
    lemma_sends_within_capacity(bridge, items);
    assert(bridge.queue + items =~= items);
    lemma_receive_n(bridge.send_all(items), k);
}

} // verus!
