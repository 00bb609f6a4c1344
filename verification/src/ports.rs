//! What the transaction status manager sees of the overlay: the gossiped
//! pre-confirmations as a sequence that is read item by item, and the way
//! to report a verdict on each.

use crate::ids::{MessageId, PeerId};
use crate::p2p_service::FuelP2PEvent;
use crate::gossipsub::messages::GossipsubMessage;
use crate::types::{GossipsubMessageAcceptance, PreConfirmationMessage};
use std::collections::VecDeque;
use vstd::prelude::*;

verus! {

/// A pre-confirmation as it is gossiped.
pub type P2PPreConfirmationMessage = PreConfirmationMessage;

/// A gossiped value with the message that carried it and the peer that
/// sent it.
#[derive(Debug)]
pub struct GossipData<T> {
    pub data: Option<T>,
    pub peer_id: PeerId,
    pub message_id: MessageId,
}

/// A gossiped pre-confirmation with its message and its sender.
pub type P2PPreConfirmationGossipData = GossipData<P2PPreConfirmationMessage>;

/// The message and the peer that a verdict is about.
#[derive(Clone, Copy, Debug, PartialEq, Eq)]
pub struct GossipsubMessageInfo {
    pub message_id: MessageId,
    pub peer_id: PeerId,
}

/// A sequence of items that is read one by one, oldest first. Reading
/// gives nothing when no item waits.
pub trait AsyncReturner {
    type Item;

    /// The items that wait to be read, oldest first.
    spec fn waiting(&self) -> Seq<Self::Item>;

    /// Takes the oldest item that waits, if one does; the others keep
    /// their order.
    fn next(&mut self) -> (item: Option<Self::Item>)
        ensures
            match item {
                Some(first) => old(self).waiting().len() > 0 && first == old(self).waiting()[0]
                    && final(self).waiting() == old(self).waiting().drop_first(),
                None => old(self).waiting().len() == 0 && final(self).waiting() == old(
                    self,
                ).waiting(),
            },
    ;
}

/// The reading end of a bounded queue: items are read in the order in
/// which they were put in, and a queue that is full or closed takes no
/// more.
pub struct MyReturner<T> {
    stream: VecDeque<T>,
    capacity: usize,
    closed: bool,
}

/// What a [`MyReturner`] stands for.
pub struct ReturnerView<T> {
    /// The items that wait, oldest first.
    pub items: Seq<T>,
    pub capacity: usize,
    pub closed: bool,
}

impl<T> View for MyReturner<T> {
    type V = ReturnerView<T>;

    closed spec fn view(&self) -> ReturnerView<T> {
        ReturnerView { items: self.stream@, capacity: self.capacity, closed: self.closed }
    }
}

impl<T> MyReturner<T> {
    /// An open queue for at most `capacity` items, with none in it.
    pub fn new(capacity: usize) -> (returner: MyReturner<T>)
        ensures
            returner@ == (ReturnerView::<T> { items: Seq::<T>::empty(), capacity, closed: false }),
    {
        MyReturner { stream: VecDeque::new(), capacity, closed: false }
    }

    /// How many items wait.
    pub fn len(&self) -> (n: usize)
        ensures
            n == self@.items.len(),
    {
        self.stream.len()
    }

    /// How many items the queue holds at most.
    pub fn capacity(&self) -> (capacity: usize)
        ensures
            capacity == self@.capacity,
    {
        self.capacity
    }

    /// Whether the queue has been closed.
    pub fn is_closed(&self) -> (closed: bool)
        ensures
            closed == self@.closed,
    {
        self.closed
    }

    /// Puts `item` at the end of the queue, or hands it back where the
    /// queue is closed or full.
    pub fn offer(&mut self, item: T) -> (r: Result<(), T>)
        ensures
            match r {
                Ok(_) => !old(self)@.closed && old(self)@.items.len() < old(self)@.capacity
                    && final(self)@ == (ReturnerView {
                    items: old(self)@.items.push(item),
                    ..old(self)@
                }),
                Err(back) => (old(self)@.closed || old(self)@.items.len() >= old(self)@.capacity)
                    && back == item && final(self)@ == old(self)@,
            },
    {
        if self.closed || self.stream.len() >= self.capacity {
            return Err(item);
        }
        self.stream.push_back(item);
        Ok(())
    }

    /// Closes the queue: what waits can still be read, nothing more is
    /// taken.
    pub fn close(&mut self)
        ensures
            final(self)@ == (ReturnerView { closed: true, ..old(self)@ }),
    {
        self.closed = true;
    }

    /// Takes the oldest item out of the queue, if one waits.
    pub fn poll_next(&mut self) -> (item: Option<T>)
        ensures
            match item {
                Some(first) => old(self)@.items.len() > 0 && first == old(self)@.items[0]
                    && final(self)@ == (ReturnerView {
                    items: old(self)@.items.drop_first(),
                    ..old(self)@
                }),
                None => old(self)@.items.len() == 0 && final(self)@ == old(self)@,
            },
    {
        let item = self.stream.pop_front();
        proof {
            if item is Some {
                assert(self.stream@ =~= old(self).stream@.drop_first());
            }
        }
        item
    }
}

impl<T> AsyncReturner for MyReturner<T> {
    type Item = T;

    open spec fn waiting(&self) -> Seq<T> {
        self@.items
    }

    fn next(&mut self) -> (item: Option<T>)
        ensures
            final(self)@.capacity == old(self)@.capacity,
            final(self)@.closed == old(self)@.closed,
    {
        self.poll_next()
    }
}

impl<S: AsyncReturner> AsyncReturner for Box<S> {
    type Item = S::Item;

    open spec fn waiting(&self) -> Seq<S::Item> {
        (**self).waiting()
    }

    fn next(&mut self) -> (item: Option<S::Item>) {
        let inner: &mut S = &mut *self;
        inner.next()
    }
}

/// Why a verdict could not be reported.
#[derive(Clone, Copy, Debug, PartialEq, Eq, Structural)]
pub enum NotifyError {
    /// The queue to the service is closed or full.
    Closed,
}

/// The overlay as the transaction status manager uses it.
pub trait P2PSubscriptions {
    type GossipedStatuses;

    /// The gossiped pre-confirmations, as a sequence to read from.
    fn gossiped_tx_statuses(&mut self) -> MyReturner<Self::GossipedStatuses>;

    /// Report the validity of a transaction received from the network.
    fn notify_gossip_transaction_validity(
        &mut self,
        message_info: GossipsubMessageInfo,
        validity: GossipsubMessageAcceptance,
    ) -> Result<(), NotifyError>;
}

/// A verdict of the transaction status manager that awaits the service.
#[derive(Clone, Copy, Debug, PartialEq, Eq)]
pub struct Verdict {
    pub message_info: GossipsubMessageInfo,
    pub validity: GossipsubMessageAcceptance,
}

/// The two queues between the service and the transaction status manager:
/// gossiped pre-confirmations one way, verdicts on them the other way.
pub struct P2PAdapter {
    statuses: MyReturner<P2PPreConfirmationGossipData>,
    verdicts: MyReturner<Verdict>,
}

/// What a [`P2PAdapter`] stands for.
pub struct AdapterView {
    /// The pre-confirmations that the manager has not taken yet.
    pub statuses: ReturnerView<P2PPreConfirmationGossipData>,
    /// The verdicts that the service has not taken yet.
    pub verdicts: ReturnerView<Verdict>,
}

impl View for P2PAdapter {
    type V = AdapterView;

    closed spec fn view(&self) -> AdapterView {
        AdapterView { statuses: self.statuses@, verdicts: self.verdicts@ }
    }
}

impl P2PAdapter {
    /// An adapter whose queues hold at most `capacity` items each.
    pub fn new(capacity: usize) -> (adapter: P2PAdapter)
        ensures
            adapter@.statuses == (ReturnerView::<P2PPreConfirmationGossipData> {
                items: Seq::empty(),
                capacity,
                closed: false,
            }),
            adapter@.verdicts == (ReturnerView::<Verdict> {
                items: Seq::empty(),
                capacity,
                closed: false,
            }),
    {
        P2PAdapter { statuses: MyReturner::new(capacity), verdicts: MyReturner::new(capacity) }
    }

    /// Sorts an event of the service: a gossiped pre-confirmation goes
    /// into the queue for the manager, and is dropped where the queue is
    /// full or closed; any other event is handed back.
    pub fn sort_event(&mut self, event: FuelP2PEvent) -> (other: Option<FuelP2PEvent>)
        ensures
            final(self)@.verdicts == old(self)@.verdicts,
            match event {
                FuelP2PEvent::GossipsubMessage {
                    peer_id,
                    message_id,
                    message: GossipsubMessage::TxPreConfirmations(confirmation),
                    ..
                } => other is None && final(self)@.statuses == (if old(self)@.statuses.closed
                    || old(self)@.statuses.items.len() >= old(self)@.statuses.capacity {
                    old(self)@.statuses
                } else {
                    ReturnerView {
                        items: old(self)@.statuses.items.push(
                            GossipData { data: Some(confirmation), peer_id, message_id },
                        ),
                        ..old(self)@.statuses
                    }
                }),
                _ => other == Some(event) && final(self)@ == old(self)@,
            },
    {
        match event {
            FuelP2PEvent::GossipsubMessage {
                peer_id,
                message_id,
                message: GossipsubMessage::TxPreConfirmations(confirmation),
                ..
            } => {
                let _ = self.statuses.offer(
                    GossipData { data: Some(confirmation), peer_id, message_id },
                );
                None
            },
            other => Some(other),
        }
    }

    /// Takes the oldest verdict that awaits the service, if one does.
    pub fn next_verdict(&mut self) -> (verdict: Option<Verdict>)
        ensures
            final(self)@.statuses == old(self)@.statuses,
            match verdict {
                Some(first) => old(self)@.verdicts.items.len() > 0 && first
                    == old(self)@.verdicts.items[0] && final(self)@.verdicts == (ReturnerView {
                    items: old(self)@.verdicts.items.drop_first(),
                    ..old(self)@.verdicts
                }),
                None => old(self)@.verdicts.items.len() == 0 && final(self)@ == old(self)@,
            },
    {
        self.verdicts.poll_next()
    }

    /// Closes both queues: the service is gone.
    pub fn close(&mut self)
        ensures
            final(self)@.statuses == (ReturnerView { closed: true, ..old(self)@.statuses }),
            final(self)@.verdicts == (ReturnerView { closed: true, ..old(self)@.verdicts }),
    {
        self.statuses.close();
        self.verdicts.close();
    }

    /// Hands out the pre-confirmations gossiped so far as a sequence of
    /// their own, oldest first, and starts the queue afresh.
    pub fn take_statuses(&mut self) -> (taken: MyReturner<P2PPreConfirmationGossipData>)
        ensures
            taken@ == old(self)@.statuses,
            final(self)@.verdicts == old(self)@.verdicts,
            final(self)@.statuses == (ReturnerView {
                items: Seq::empty(),
                ..old(self)@.statuses
            }),
    {
        let mut taken: MyReturner<P2PPreConfirmationGossipData> = MyReturner::new(
            self.statuses.capacity(),
        );
        if self.statuses.is_closed() {
            taken.close();
        }
        core::mem::swap(&mut self.statuses, &mut taken);
        taken
    }

    /// Queues a verdict of the manager for the service. A verdict that
    /// finds the queue closed or full is refused.
    pub fn report(&mut self, message_info: GossipsubMessageInfo, validity: GossipsubMessageAcceptance) -> (r:
        Result<(), NotifyError>)
        ensures
            final(self)@.statuses == old(self)@.statuses,
            match r {
                Ok(_) => !old(self)@.verdicts.closed && old(self)@.verdicts.items.len()
                    < old(self)@.verdicts.capacity && final(self)@.verdicts == (ReturnerView {
                    items: old(self)@.verdicts.items.push(Verdict { message_info, validity }),
                    ..old(self)@.verdicts
                }),
                Err(e) => e == NotifyError::Closed && (old(self)@.verdicts.closed
                    || old(self)@.verdicts.items.len() >= old(self)@.verdicts.capacity)
                    && final(self)@ == old(self)@,
            },
    {
        match self.verdicts.offer(Verdict { message_info, validity }) {
            Ok(_) => Ok(()),
            Err(_) => Err(NotifyError::Closed),
        }
    }
}

impl P2PSubscriptions for P2PAdapter {
    type GossipedStatuses = P2PPreConfirmationGossipData;

    fn gossiped_tx_statuses(&mut self) -> (taken: MyReturner<P2PPreConfirmationGossipData>)
        ensures
            taken@ == old(self)@.statuses,
            final(self)@.verdicts == old(self)@.verdicts,
            final(self)@.statuses == (ReturnerView {
                items: Seq::empty(),
                ..old(self)@.statuses
            }),
    {
        self.take_statuses()
    }

    fn notify_gossip_transaction_validity(
        &mut self,
        message_info: GossipsubMessageInfo,
        validity: GossipsubMessageAcceptance,
    ) -> (r: Result<(), NotifyError>)
        ensures
            final(self)@.statuses == old(self)@.statuses,
            match r {
                Ok(_) => !old(self)@.verdicts.closed && old(self)@.verdicts.items.len()
                    < old(self)@.verdicts.capacity && final(self)@.verdicts == (ReturnerView {
                    items: old(self)@.verdicts.items.push(Verdict { message_info, validity }),
                    ..old(self)@.verdicts
                }),
                Err(e) => e == NotifyError::Closed && (old(self)@.verdicts.closed
                    || old(self)@.verdicts.items.len() >= old(self)@.verdicts.capacity)
                    && final(self)@ == old(self)@,
            },
    {
        self.report(message_info, validity)
    }
}

/// What of `event` belongs to the sequence of gossiped pre-confirmations:
/// the pre-confirmation of a gossip message that carries one, with its
/// message and its sender; of any other event nothing.
pub fn pre_confirmation_gossip(event: FuelP2PEvent) -> (data: Option<P2PPreConfirmationGossipData>)
    ensures
        match data {
            Some(gossip) => event matches FuelP2PEvent::GossipsubMessage {
                peer_id,
                message_id,
                message: GossipsubMessage::TxPreConfirmations(confirmation),
                ..
            } && gossip.peer_id == peer_id && gossip.message_id == message_id && gossip.data
                == Some(confirmation),
            None => !(event matches FuelP2PEvent::GossipsubMessage {
                message: GossipsubMessage::TxPreConfirmations(_),
                ..
            }),
        },
{
    match event {
        FuelP2PEvent::GossipsubMessage {
            peer_id,
            message_id,
            message: GossipsubMessage::TxPreConfirmations(confirmation),
            ..
        } => Some(GossipData { data: Some(confirmation), peer_id, message_id }),
        _ => None,
    }
}

} // verus!
