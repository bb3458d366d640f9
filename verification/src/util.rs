//! A message that must not get lost.

use vstd::prelude::*;

verus! {

/// What happens to a message that is held.
pub enum HolderEvent<T> {
    /// It is changed into another one.
    Changed(T),
    /// It was dealt with.
    Consumed,
    /// The holder is done with, and gives back what it still holds.
    Dropped,
}

/// What is held after an event.
pub open spec fn held_after<T>(held: Option<T>, event: HolderEvent<T>) -> Option<T> {
    match event {
        HolderEvent::Changed(message) => if held is Some {
            Some(message)
        } else {
            None
        },
        HolderEvent::Consumed | HolderEvent::Dropped => None,
    }
}

/// The messages that are given back in the course of some events.
pub open spec fn given_back<T>(held: Option<T>, events: Seq<HolderEvent<T>>) -> Seq<T>
    decreases events.len(),
{
    if events.len() == 0 {
        Seq::empty()
    } else {
        let rest = given_back(held_after(held, events[0]), events.drop_first());
        match (events[0], held) {
            (HolderEvent::Dropped, Some(message)) => seq![message] + rest,
            _ => rest,
        }
    }
}

/// Holds a message until it is known to have been dealt with. What is still held when the holder is
/// done with it goes back to where it came from.
#[derive(Debug)]
pub struct DropSend<T>(Option<T>);

impl<T> DropSend<T> {
    /// The message, while it has not been dealt with.
    pub closed spec fn held(self) -> Option<T> {
        self.0
    }

    /// Holds `message`.
    pub fn new(message: T) -> (r: Self)
        ensures
            r.held() == Some(message),
    {
        DropSend(Some(message))
    }

    /// The message was dealt with.
    pub fn consume(self) -> (r: T)
        requires
            self.held() is Some,
        ensures
            self.held() == Some(r),
    {
        let mut this = self;
        this.0.take().unwrap()
    }

    /// The message that is held.
    pub fn as_ref(&self) -> (r: &T)
        requires
            self.held() is Some,
        ensures
            self.held() == Some(*r),
    {
        self.0.as_ref().unwrap()
    }

    /// The message that is held, for changing it.
    pub fn as_mut(&mut self) -> (r: &mut T)
        requires
            old(self).held() is Some,
        ensures
            old(self).held() == Some(*r),
            final(self).held() == Some(*final(r)),
            final(self).held() == held_after(
                old(self).held(),
                HolderEvent::Changed(*final(r)),
            ),
    {
        self.0.as_mut().unwrap()
    }

    /// Takes back the message, unless it was dealt with. From then on nothing is held, so that it is
    /// given back once only.
    pub fn unsent(&mut self) -> (r: Option<T>)
        ensures
            r == old(self).held(),
            final(self).held() is None,
            final(self).held() == held_after(old(self).held(), HolderEvent::Dropped),
    {
        self.0.take()
    }
}

proof fn lemma_nothing_left_to_give_back<T>(events: Seq<HolderEvent<T>>)
    ensures
        given_back(None, events) == Seq::<T>::empty(),
    decreases events.len(),
{
    if events.len() > 0 {
        lemma_nothing_left_to_give_back(events.drop_first());
    }
}

/// A message that was not dealt with is given back once, as it is by then, and one that was dealt with
/// is not given back, whatever happens to the holder afterwards.
pub proof fn law_given_back_unless_consumed<T>(
    message: T,
    changes: Seq<T>,
    rest: Seq<HolderEvent<T>>,
)
    ensures
        ({
            let changed = changes.map_values(|m: T| HolderEvent::Changed(m));
            let current = if changes.len() > 0 {
                changes.last()
            } else {
                message
            };
            &&& given_back(Some(message), changed + seq![HolderEvent::Dropped] + rest) == seq![current]
            &&& given_back(Some(message), changed + seq![HolderEvent::Consumed] + rest)
                == Seq::<T>::empty()
        }),
    decreases changes.len(),
{
    let changed = changes.map_values(|m: T| HolderEvent::Changed(m));
    let dropped = changed + seq![HolderEvent::Dropped] + rest;
    let consumed = changed + seq![HolderEvent::Consumed] + rest;
    if changes.len() == 0 {
        lemma_nothing_left_to_give_back(rest);
        assert(dropped.drop_first() =~= rest);
        assert(consumed.drop_first() =~= rest);
        assert(seq![message] + Seq::<T>::empty() =~= seq![message]);
    } else {
        let later = changes.drop_first();
        let later_changed = later.map_values(|m: T| HolderEvent::Changed(m));
        law_given_back_unless_consumed(changes[0], later, rest);
        assert(changed.drop_first() =~= later_changed);
        assert(dropped.drop_first() =~= later_changed + seq![HolderEvent::Dropped] + rest);
        assert(consumed.drop_first() =~= later_changed + seq![HolderEvent::Consumed] + rest);
    }
}

} // verus!
