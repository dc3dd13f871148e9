//! The in-process fan-out broadcaster behind one broker subscription.
//!
//! The broker consumer itself lives outside this crate; its pump feeds every
//! received payload into [`Listener::on_message`]. A successfully decoded
//! envelope is copied onto the bounded queue of every registered receiver
//! (fan-out, not load balancing). When a receiver's queue is full its
//! oldest pending message is evicted to make room for the new one: a slow
//! receiver lags and loses old messages rather than backpressuring the
//! pump. A message that fails to deserialize halts the pump for good — a
//! deliberate, documented reliability gap of this design. A transport-level
//! failure is reported and the pump carries on.

use crate::event::Event;
use crate::events::OrderPlacedEvent;
use crate::wire::{decode_envelope, env_view, parse_wire, EnvelopeView};
use vstd::prelude::*;

verus! {

/// Why the pump did not deliver a message.
#[derive(Clone, Copy, Debug, PartialEq, Eq, Structural)]
pub enum ConsumeError {
    /// A transport-level failure: reported, the pump continues.
    Transport,
    /// The payload did not deserialize: fatal, the pump halts.
    Deserialization,
    /// The pump already halted on an earlier malformed payload.
    Halted,
}

/// One broker subscription with any number of local receivers, each holding
/// its own bounded queue of decoded envelopes.
pub struct Listener {
    receivers: Vec<Vec<Event<OrderPlacedEvent>>>,
    capacity: usize,
    halted: bool,
}

/// Copies a metadata vector; the copy has the same entries.
fn clone_pairs(m: &Vec<(String, String)>) -> (r: Vec<(String, String)>)
    ensures
        r@ == m@,
{
    let mut r: Vec<(String, String)> = Vec::new();
    let mut i: usize = 0;
    while i < m.len()
        invariant
            i <= m@.len(),
            r@ == m@.take(i as int),
        decreases m@.len() - i,
    {
        let pair = &m[i];
        r.push((pair.0.clone(), pair.1.clone()));
        proof {
            assert(r@ =~= m@.take(i + 1 as int));
        }
        i += 1;
    }
    proof {
        assert(m@.take(m@.len() as int) =~= m@);
    }
    r
}

/// Copies an envelope; the copy carries the same content.
fn clone_order_event(e: &Event<OrderPlacedEvent>) -> (r: Event<OrderPlacedEvent>)
    ensures
        env_view(r) == env_view(*e),
{
    Event {
        event_type: e.event_type.clone(),
        payload: e.payload,
        timestamp: e.timestamp,
        source: e.source.clone(),
        correlation_id: match &e.correlation_id {
            Option::Some(c) => Some(c.clone()),
            Option::None => None,
        },
        metadata: match &e.metadata {
            Option::Some(m) => Some(clone_pairs(m)),
            Option::None => None,
        },
    }
}

impl Listener {
    /// The queued messages of each receiver, oldest first.
    pub closed spec fn queues(&self) -> Seq<Seq<EnvelopeView>> {
        self.receivers@.map_values(
            |q: Vec<Event<OrderPlacedEvent>>|
                q@.map_values(|e: Event<OrderPlacedEvent>| env_view(e)),
        )
    }

    /// How many messages one receiver's queue can hold.
    pub closed spec fn capacity_spec(&self) -> nat {
        self.capacity as nat
    }

    /// The pump saw a malformed payload and delivers nothing any more.
    pub closed spec fn is_halted(&self) -> bool {
        self.halted
    }

    /// A fresh listener: no receivers, nothing queued, running.
    pub fn new(capacity: usize) -> (l: Listener)
        requires
            capacity >= 1,
        ensures
            l.queues() == Seq::<Seq<EnvelopeView>>::empty(),
            l.capacity_spec() == capacity,
            !l.is_halted(),
    {
        let l = Listener { receivers: Vec::new(), capacity, halted: false };
        proof {
            assert(l.queues() =~= Seq::<Seq<EnvelopeView>>::empty());
        }
        l
    }

    /// Registers a new receiver and returns its handle. The new queue
    /// starts empty: messages broadcast earlier are not replayed.
    pub fn get_receiver(&mut self) -> (id: usize)
        ensures
            id == old(self).queues().len(),
            final(self).queues() == old(self).queues().push(Seq::<EnvelopeView>::empty()),
            final(self).capacity_spec() == old(self).capacity_spec(),
            final(self).is_halted() == old(self).is_halted(),
    {
        let id = self.receivers.len();
        self.receivers.push(Vec::new());
        proof {
            assert(self.queues() =~~= old(self).queues().push(Seq::<EnvelopeView>::empty()));
        }
        id
    }

    /// Handles one payload received from the broker. A halted pump ignores
    /// it. A payload that decodes is delivered to every receiver — the
    /// same message to all of them; a receiver whose queue is full loses
    /// its oldest pending message to make room (it lags; the pump never
    /// waits). A payload that does not decode halts the pump and nothing
    /// is delivered, now or later.
    pub fn on_message(&mut self, payload: &str) -> (r: Result<(), ConsumeError>)
        requires
            old(self).capacity_spec() >= 1,
        ensures
            final(self).capacity_spec() == old(self).capacity_spec(),
            old(self).is_halted() ==> *final(self) == *old(self) && r == Err::<(), ConsumeError>(
                ConsumeError::Halted,
            ),
            !old(self).is_halted() && parse_wire(payload@) is None ==> final(self).is_halted()
                && final(self).queues() == old(self).queues() && r == Err::<(), ConsumeError>(
                ConsumeError::Deserialization,
            ),
            !old(self).is_halted() ==> (parse_wire(payload@) matches Some(m) ==> {
                &&& !final(self).is_halted()
                &&& r is Ok
                &&& final(self).queues().len() == old(self).queues().len()
                &&& forall|i: int|
                    0 <= i < old(self).queues().len() ==> final(self).queues()[i] == (
                    if old(self).queues()[i].len() < old(self).capacity_spec() {
                        old(self).queues()[i].push(m)
                    } else {
                        old(self).queues()[i].drop_first().push(m)
                    })
            }),
    {
        if self.halted {
            return Err(ConsumeError::Halted);
        }
        let e = match decode_envelope(payload) {
            Ok(e) => e,
            Err(_) => {
                self.halted = true;
                proof {
                    assert(self.queues() =~= old(self).queues());
                }
                return Err(ConsumeError::Deserialization);
            },
        };
        let ghost m = env_view(e);
        let n = self.receivers.len();
        let mut i: usize = 0;
        while i < n
            invariant
                i <= n,
                n == self.receivers@.len(),
                self.capacity == old(self).capacity,
                self.capacity >= 1,
                self.halted == old(self).halted,
                self.queues().len() == old(self).queues().len(),
                env_view(e) == m,
                forall|k: int|
                    0 <= k < i ==> self.queues()[k] == (
                    if (#[trigger] old(self).queues()[k]).len() < old(self).capacity_spec() {
                        old(self).queues()[k].push(m)
                    } else {
                        old(self).queues()[k].drop_first().push(m)
                    }),
                forall|k: int| i <= k < n ==> self.queues()[k] == #[trigger] old(self).queues()[k],
                forall|k: int|
                    i <= k < n ==> self.receivers@[k] == #[trigger] old(self).receivers@[k],
            decreases n - i,
        {
            proof {
                assert(self.receivers@[i as int] == old(self).receivers@[i as int]);
                assert(old(self).queues()[i as int] == old(self).receivers@[i as int]@.map_values(
                    |ev: Event<OrderPlacedEvent>| env_view(ev),
                ));
                assert(old(self).queues()[i as int].len() == old(self).receivers@[i as int]@.len());
            }
            let room = self.receivers[i].len() < self.capacity;
            let copy = clone_order_event(&e);
            if room {
                let q = &mut self.receivers[i];
                q.push(copy);
                proof {
                    assert(self.queues()[i as int] =~= old(self).queues()[i as int].push(m));
                }
            } else {
                // The queue is full: evict the oldest pending message so
                // the receiver keeps up with recent traffic instead.
                let q = &mut self.receivers[i];
                q.remove(0);
                q.push(copy);
                proof {
                    assert(self.queues()[i as int] =~= old(self).queues()[
                        i as int
                    ].drop_first().push(m));
                }
            }
            i += 1;
        }
        Ok(())
    }

    /// Reports a transport-level failure seen by the broker consumer. The
    /// policy is log-and-continue: the pump state does not change.
    pub fn on_transport_error(&mut self) -> (r: Result<(), ConsumeError>)
        ensures
            *final(self) == *old(self),
            r == Err::<(), ConsumeError>(ConsumeError::Transport),
    {
        Err(ConsumeError::Transport)
    }

    /// Takes the oldest queued message of one receiver, if any.
    pub fn recv(&mut self, receiver: usize) -> (r: Option<Event<OrderPlacedEvent>>)
        requires
            receiver < old(self).queues().len(),
        ensures
            final(self).capacity_spec() == old(self).capacity_spec(),
            final(self).is_halted() == old(self).is_halted(),
            final(self).queues().len() == old(self).queues().len(),
            forall|i: int|
                0 <= i < old(self).queues().len() && i != receiver ==> final(self).queues()[i]
                    == old(self).queues()[i],
            old(self).queues()[receiver as int].len() == 0 ==> r is None && final(self).queues()[
                receiver as int
            ] == old(self).queues()[receiver as int],
            old(self).queues()[receiver as int].len() > 0 ==> r is Some && env_view(r->Some_0)
                == old(self).queues()[receiver as int][0] && final(self).queues()[receiver as int]
                == old(self).queues()[receiver as int].drop_first(),
    {
        let q = &mut self.receivers[receiver];
        if q.len() == 0 {
            proof {
                assert(final(self).queues() =~= old(self).queues());
            }
            None
        } else {
            let e = q.remove(0);
            proof {
                assert(self.queues()[receiver as int] =~= old(self).queues()[
                    receiver as int
                ].drop_first());
                assert(forall|i: int|
                    0 <= i < old(self).queues().len() && i != receiver ==> final(self).queues()[i]
                        == old(self).queues()[i]);
            }
            Some(e)
        }
    }
}

} // verus!
