use vstd::prelude::*;

use crate::token::Token;

verus! {

/// The outcome of checking a conversion once: done, with the event it made
/// (if any), or still waiting, handing the suspended conversion back.
pub enum Step<F, E> {
    Ready(Option<E>),
    Pending(F),
}

/// A conversion in flight, the ticket its slot was filled under, and the
/// item it works for, if any.
pub struct Slot<F> {
    pub ticket: u64,
    pub owner: Option<Token>,
    pub conversion: F,
}

/// Whether a slot holds a conversion that works for the item at `address`.
pub open spec fn owned_by<F>(s: Option<Slot<F>>, address: Seq<char>) -> bool {
    s is Some && (s->0.owner) is Some && (s->0.owner)->0@ == address
}

/// The slots with every conversion that works for the item at `address`
/// taken out.
pub open spec fn released<F>(slots: Seq<Option<Slot<F>>>, address: Seq<char>) -> Seq<Option<Slot<F>>> {
    slots.map_values(|s: Option<Slot<F>>| if owned_by(s, address) { None } else { s })
}

/// A table of suspended conversions. A slot holds a conversion while it is in
/// flight, together with the ticket the slot was filled under; a freed slot is
/// reused before the table grows.
pub struct FutureMap<F> {
    map: Vec<Option<Slot<F>>>,
    next_ticket: u64,
}

impl<F> FutureMap<F> {
    /// The slots, in index order.
    pub closed spec fn slots(&self) -> Seq<Option<Slot<F>>> {
        self.map@
    }

    /// The ticket the next stored conversion receives.
    pub closed spec fn next(&self) -> u64 {
        self.next_ticket
    }

    /// Every ticket in a slot was handed out before the current one.
    pub open spec fn wf(&self) -> bool {
        forall|i: int|
            0 <= i < self.slots().len() && self.slots()[i] is Some ==> (#[trigger] self.slots()[i])->0.ticket
                < self.next()
    }

    /// Whether a tag for slot `index` with `ticket` finds its conversion there.
    pub open spec fn holds(&self, index: int, ticket: u64) -> bool {
        0 <= index < self.slots().len() && self.slots()[index] is Some && (self.slots()[index])->0.ticket
            == ticket
    }

    /// An empty table.
    pub fn new() -> (m: FutureMap<F>)
        ensures
            m.wf(),
            m.slots() == Seq::<Option<Slot<F>>>::empty(),
            m.next() == 0,
    {
        FutureMap { map: Vec::new(), next_ticket: 0 }
    }

    /// The number of slots, free or not.
    pub fn len(&self) -> (r: usize)
        ensures
            r == self.slots().len(),
    {
        self.map.len()
    }

    /// The ticket the next stored conversion receives.
    pub fn next_ticket(&self) -> (r: u64)
        ensures
            r == self.next(),
    {
        self.next_ticket
    }

    /// Whether a tag for slot `index` with `ticket` finds its conversion there.
    pub fn is_waiting(&self, index: usize, ticket: u64) -> (r: bool)
        ensures
            r == self.holds(index as int, ticket),
    {
        if index >= self.map.len() {
            return false;
        }
        match &self.map[index] {
            Some(s) => s.ticket == ticket,
            None => false,
        }
    }

    /// Finds a free slot: the first free one if there is any, else a new one
    /// at the end.
    pub fn preserve_space(&mut self) -> (r: usize)
        ensures
            final(self).next() == old(self).next(),
            r <= old(self).slots().len(),
            r < final(self).slots().len(),
            final(self).slots()[r as int] is None,
            forall|j: int| 0 <= j < r ==> old(self).slots()[j] is Some,
            r < old(self).slots().len() ==> final(self).slots() == old(self).slots(),
            r == old(self).slots().len() ==> final(self).slots() == old(self).slots().push(None),
            old(self).wf() ==> final(self).wf(),
    {
        let mut i: usize = 0;
        while i < self.map.len()
            invariant
                self.map@ == old(self).map@,
                self.next_ticket == old(self).next_ticket,
                0 <= i <= self.map@.len(),
                forall|j: int| 0 <= j < i ==> self.map@[j] is Some,
            decreases self.map@.len() - i,
        {
            if self.map[i].is_none() {
                return i;
            }
            i = i + 1;
        }
        self.map.push(None);
        i
    }

    /// The slot at `index`.
    pub fn get(&self, index: usize) -> (r: &Option<Slot<F>>)
        requires
            index < self.slots().len(),
        ensures
            *r == self.slots()[index as int],
    {
        &self.map[index]
    }

    /// Settles the first check of a conversion placed at the free slot
    /// `index`: a finished one leaves the slot free and its event is returned;
    /// a waiting one is stored there under the next ticket.
    pub fn try_put<E>(&mut self, index: usize, owner: Option<Token>, step: Step<F, E>) -> (r: Option<E>)
        requires
            old(self).wf(),
            index < old(self).slots().len(),
            old(self).slots()[index as int] is None,
            old(self).next() < u64::MAX,
        ensures
            final(self).wf(),
            match step {
                Step::Ready(e) => r == e && final(self).slots() == old(self).slots()
                    && final(self).next() == old(self).next(),
                Step::Pending(f) => r is None && final(self).slots() == old(self).slots().update(
                    index as int,
                    Some(Slot { ticket: old(self).next(), owner, conversion: f }),
                ) && final(self).next() == old(self).next() + 1,
            },
    {
        match step {
            Step::Ready(e) => e,
            Step::Pending(f) => {
                let ticket = self.next_ticket;
                self.map.set(index, Some(Slot { ticket, owner, conversion: f }));
                self.next_ticket = ticket + 1;
                None
            },
        }
    }

    /// Frees every slot whose conversion works for the item at `address`;
    /// the other slots stay as they are.
    pub fn release_owned_by(&mut self, address: &Token)
        ensures
            final(self).next() == old(self).next(),
            old(self).wf() ==> final(self).wf(),
            final(self).slots() == released(old(self).slots(), address@),
    {
        let mut i: usize = 0;
        while i < self.map.len()
            invariant
                0 <= i <= self.map@.len(),
                self.map@.len() == old(self).map@.len(),
                self.next_ticket == old(self).next_ticket,
                forall|j: int|
                    0 <= j < i ==> #[trigger] self.map@[j] == if owned_by(old(self).map@[j], address@) {
                        None
                    } else {
                        old(self).map@[j]
                    },
                forall|j: int| i <= j < self.map@.len() ==> #[trigger] self.map@[j] == old(self).map@[j],
            decreases self.map@.len() - i,
        {
            let hit = match &self.map[i] {
                Some(s) => match &s.owner {
                    Some(t) => t.same_as(address),
                    None => false,
                },
                None => false,
            };
            if hit {
                self.map.set(i, None);
            }
            i = i + 1;
        }
        proof {
            assert(self.map@ =~= released(old(self).map@, address@));
        }
    }

    /// Takes out the slot whose conversion a tag for slot `index` with `ticket`
    /// names. A freed slot, or one filled again under a later ticket, gives
    /// nothing and is left as it is.
    pub fn take(&mut self, index: usize, ticket: u64) -> (r: Option<Slot<F>>)
        ensures
            final(self).next() == old(self).next(),
            old(self).wf() ==> final(self).wf(),
            old(self).holds(index as int, ticket) ==> r == old(self).slots()[index as int]
                && final(self).slots() == old(self).slots().update(index as int, None),
            !old(self).holds(index as int, ticket) ==> r is None && final(self).slots()
                == old(self).slots(),
    {
        if index >= self.map.len() {
            return None;
        }
        let hit = match &self.map[index] {
            Some(s) => s.ticket == ticket,
            None => false,
        };
        if !hit {
            return None;
        }
        let mut out: Option<Slot<F>> = None;
        self.map.set_and_swap(index, &mut out);
        out
    }
}

/// A freed slot resumes nothing, whatever ticket the tag carries.
pub proof fn freed_slot_resumes_nothing<F>(m: FutureMap<F>, index: int, ticket: u64)
    requires
        index < 0 || index >= m.slots().len() || m.slots()[index] is None,
    ensures
        !m.holds(index, ticket),
{
}

/// A recycled slot is never resumed by a tag of an earlier occupant: once a
/// new conversion is stored in a free slot, a tag holding any ticket handed
/// out before finds nothing there.
pub proof fn recycled_slot_ignores_old_tags<F>(
    before: FutureMap<F>,
    after: FutureMap<F>,
    index: int,
    owner: Option<Token>,
    f: F,
    old_ticket: u64,
)
    requires
        before.wf(),
        0 <= index < before.slots().len(),
        before.slots()[index] is None,
        old_ticket < before.next(),
        after.slots() == before.slots().update(index, Some(Slot { ticket: before.next(), owner, conversion: f })),
    ensures
        !after.holds(index, old_ticket),
        after.holds(index, before.next()),
{
}

} // verus!
