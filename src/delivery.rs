use vstd::prelude::*;

verus! {

/// What became of one offered value.
#[derive(Clone, Copy, PartialEq, Eq, Debug, Structural)]
pub enum Delivery {
    /// The slot was empty and now holds the value.
    Stored,
    /// The slot held an undelivered value, which the new one replaced.
    Replaced,
    /// The receiving side is gone; the value was dropped.
    Disconnected,
}

/// A hand-off of capacity one between a producer that must never wait and a
/// consumer that may fall behind: a new value replaces an undelivered one, so
/// the consumer always gets the latest.
pub struct LatestSlot<T> {
    item: Option<T>,
    receiver_closed: bool,
    sender_closed: bool,
}

/// What a slot holds and which of its sides are gone.
pub struct SlotState<T> {
    pub held: Option<T>,
    pub receiver_gone: bool,
    pub sender_gone: bool,
}

/// The slot state after `x` is offered, and what became of `x`.
pub open spec fn offered<T>(st: SlotState<T>, x: T) -> (SlotState<T>, Delivery) {
    if st.receiver_gone {
        (st, Delivery::Disconnected)
    } else {
        (
            SlotState { held: Some(x), ..st },
            if st.held.is_some() {
                Delivery::Replaced
            } else {
                Delivery::Stored
            },
        )
    }
}

/// The slot state after each of `xs` is offered in turn, with no take between.
pub open spec fn offered_all<T>(st: SlotState<T>, xs: Seq<T>) -> SlotState<T>
    decreases xs.len(),
{
    if xs.len() == 0 {
        st
    } else {
        offered(offered_all(st, xs.drop_last()), xs.last()).0
    }
}

impl<T> LatestSlot<T> {
    pub closed spec fn state(&self) -> SlotState<T> {
        SlotState {
            held: self.item,
            receiver_gone: self.receiver_closed,
            sender_gone: self.sender_closed,
        }
    }

    /// An empty slot with both sides present.
    pub fn new() -> (r: Self)
        ensures
            r.state() == (SlotState::<T> { held: None, receiver_gone: false, sender_gone: false }),
    {
        LatestSlot { item: None, receiver_closed: false, sender_closed: false }
    }

    /// Offers `x` without waiting: it replaces whatever undelivered value the
    /// slot holds, unless the receiver is gone.
    pub fn offer(&mut self, x: T) -> (r: Delivery)
        ensures
            (final(self).state(), r) == offered(old(self).state(), x),
    {
        if self.receiver_closed {
            Delivery::Disconnected
        } else if self.item.is_some() {
            self.item = Some(x);
            Delivery::Replaced
        } else {
            self.item = Some(x);
            Delivery::Stored
        }
    }

    /// Takes the value waiting in the slot, leaving it empty.
    pub fn take(&mut self) -> (r: Option<T>)
        ensures
            r == old(self).state().held,
            final(self).state() == (SlotState { held: None, ..old(self).state() }),
    {
        self.item.take()
    }

    /// Marks the receiving side as gone: later offers are refused.
    pub fn close_receiver(&mut self)
        ensures
            final(self).state() == (SlotState { receiver_gone: true, ..old(self).state() }),
    {
        self.receiver_closed = true;
    }

    /// Marks the sending side as gone: once the slot is empty nothing more comes.
    pub fn close_sender(&mut self)
        ensures
            final(self).state() == (SlotState { sender_gone: true, ..old(self).state() }),
    {
        self.sender_closed = true;
    }

    pub fn is_receiver_closed(&self) -> (r: bool)
        ensures
            r == self.state().receiver_gone,
    {
        self.receiver_closed
    }

    pub fn is_sender_closed(&self) -> (r: bool)
        ensures
            r == self.state().sender_gone,
    {
        self.sender_closed
    }
}

/// Offering values one after another to a slot whose receiver is present,
/// with nothing taken in between: no offer is refused, every offer after the
/// first replaces its predecessor, and the slot then holds exactly the last
/// value offered, which is what the next take returns.
pub proof fn lemma_latest_offer_wins<T>(st: SlotState<T>, xs: Seq<T>)
    requires
        !st.receiver_gone,
        xs.len() >= 1,
    ensures
        offered_all(st, xs).held == Some(xs.last()),
        !offered_all(st, xs).receiver_gone,
        forall|i: int|
            1 <= i < xs.len() ==> #[trigger] offered(offered_all(st, xs.take(i)), xs[i]).1
                == Delivery::Replaced,
    decreases xs.len(),
{
    if xs.len() > 1 {
        let ys = xs.drop_last();
        lemma_latest_offer_wins(st, ys);
        assert forall|i: int| 1 <= i < xs.len() implies #[trigger] offered(
            offered_all(st, xs.take(i)),
            xs[i],
        ).1 == Delivery::Replaced by {
            assert(xs.take(i) =~= ys.take(i));
            if i < ys.len() {
                assert(ys[i] == xs[i]);
            } else {
                assert(ys.take(i) =~= ys);
            }
        }
    } else {
        assert(xs.drop_last() =~= Seq::<T>::empty());
        assert(offered_all(st, xs.drop_last()) == st);
    }
}

} // verus!
