use vstd::prelude::*;

use crate::slots::{owned_by, released, FutureMap, Slot, Step};
use crate::token::Token;
use crate::wake::{keys_of, ItemWakeFrom, WakeFrom, WakeKey};

verus! {

/// What a drained tag asks the loop to do.
#[derive(Debug)]
pub enum Route {
    /// Drain the source that announces new items.
    DrainNewItems,
    /// Check again the conversion waiting in this slot under this ticket.
    Resume { index: usize, ticket: u64 },
    /// Drain this one source of this one live item.
    DrainItem { token: Token, kind: ItemWakeFrom },
    /// The tag names a freed slot or an item that is gone: nothing to do.
    Stale,
}

/// A route, with the token seen through its address.
pub enum RouteKey {
    DrainNewItems,
    Resume { index: usize, ticket: u64 },
    DrainItem { address: Seq<char>, kind: ItemWakeFrom },
    Stale,
}

impl View for Route {
    type V = RouteKey;

    open spec fn view(&self) -> RouteKey {
        match self {
            Route::DrainNewItems => RouteKey::DrainNewItems,
            Route::Resume { index, ticket } => RouteKey::Resume { index: *index, ticket: *ticket },
            Route::DrainItem { token, kind } => RouteKey::DrainItem { address: token@, kind: *kind },
            Route::Stale => RouteKey::Stale,
        }
    }
}

/// What one check hands the consumer.
#[derive(Debug, Clone, Copy, PartialEq, Eq, Structural)]
pub enum CheckOutcome {
    /// A non-empty batch of events.
    Batch,
    /// Nothing yet; a wake will come.
    NotReady,
    /// No event will ever come again.
    Ended,
}

/// The three sources of one item, in the order they are drained.
pub open spec fn item_drains(address: Seq<char>) -> Seq<WakeKey> {
    seq![
        WakeKey::ItemUpdate { address, kind: ItemWakeFrom::Disconnect },
        WakeKey::ItemUpdate { address, kind: ItemWakeFrom::PropertyChange },
        WakeKey::ItemUpdate { address, kind: ItemWakeFrom::LayoutUpdate },
    ]
}

/// The sources of all the given items, item after item.
pub open spec fn drains_of(addresses: Seq<Seq<char>>) -> Seq<WakeKey>
    decreases addresses.len(),
{
    if addresses.len() == 0 {
        Seq::empty()
    } else {
        drains_of(addresses.drop_last()) + item_drains(addresses.last())
    }
}

/// The first check drains every source of every known item, then the source
/// of new items.
pub open spec fn sweep_plan(addresses: Seq<Seq<char>>) -> Seq<WakeKey> {
    drains_of(addresses).push(WakeKey::NewItem)
}

/// What a check makes of `batch_len` events.
pub open spec fn outcome_of(terminated: bool, batch_len: nat) -> CheckOutcome {
    if terminated {
        CheckOutcome::Ended
    } else if batch_len == 0 {
        CheckOutcome::NotReady
    } else {
        CheckOutcome::Batch
    }
}

/// The part of the loop that decides: which items are live, whether the first
/// check has happened, whether the loop has ended, and the conversions in
/// flight.
pub struct LoopCore<F> {
    polled: bool,
    terminated: bool,
    items: Vec<Token>,
    futures: FutureMap<F>,
}

impl<F> LoopCore<F> {
    /// The addresses of the live items.
    pub closed spec fn addresses(&self) -> Seq<Seq<char>> {
        self.items@.map_values(|t: Token| t@)
    }

    /// The conversions in flight.
    pub closed spec fn table(&self) -> FutureMap<F> {
        self.futures
    }

    /// Whether the first check has happened.
    pub closed spec fn was_polled(&self) -> bool {
        self.polled
    }

    /// Whether the loop has ended for good.
    pub closed spec fn has_ended(&self) -> bool {
        self.terminated
    }

    /// No address is live twice, and the slot table is sound.
    pub open spec fn wf(&self) -> bool {
        self.addresses().no_duplicates() && self.table().wf()
    }

    /// Where a tag leads, given the live items and the slots.
    pub open spec fn route_of(&self, key: WakeKey) -> RouteKey {
        match key {
            WakeKey::NewItem => RouteKey::DrainNewItems,
            WakeKey::FutureEvent { index, ticket } => if self.table().holds(index as int, ticket) {
                RouteKey::Resume { index, ticket }
            } else {
                RouteKey::Stale
            },
            WakeKey::ItemUpdate { address, kind } => if self.addresses().contains(address) {
                RouteKey::DrainItem { address, kind }
            } else {
                RouteKey::Stale
            },
        }
    }

    /// A loop over the given items that has not been checked yet.
    pub fn new(items: Vec<Token>) -> (r: LoopCore<F>)
        requires
            items@.map_values(|t: Token| t@).no_duplicates(),
        ensures
            r.wf(),
            r.addresses() == items@.map_values(|t: Token| t@),
            !r.was_polled(),
            !r.has_ended(),
            r.table().slots().len() == 0,
            r.table().next() == 0,
    {
        LoopCore { polled: false, terminated: false, items, futures: FutureMap::new() }
    }

    /// Marks the start of a check; true on the very first one.
    pub fn begin_check(&mut self) -> (first: bool)
        ensures
            first == !old(self).was_polled(),
            final(self).was_polled(),
            final(self).has_ended() == old(self).has_ended(),
            final(self).addresses() == old(self).addresses(),
            final(self).table() == old(self).table(),
    {
        let first = !self.polled;
        self.polled = true;
        first
    }

    /// Whether the item at this address is live.
    pub fn contains(&self, token: &Token) -> (r: bool)
        ensures
            r == self.addresses().contains(token@),
    {
        match self.position(token) {
            Some(_) => true,
            None => false,
        }
    }

    fn position(&self, token: &Token) -> (r: Option<usize>)
        ensures
            r matches Some(i) ==> i < self.addresses().len() && self.addresses()[i as int]
                == token@,
            r is None ==> !self.addresses().contains(token@),
    {
        let mut i: usize = 0;
        while i < self.items.len()
            invariant
                0 <= i <= self.items@.len(),
                forall|j: int| 0 <= j < i ==> self.addresses()[j] != token@,
            decreases self.items@.len() - i,
        {
            if self.items[i].same_as(token) {
                return Some(i);
            }
            i = i + 1;
        }
        None
    }

    /// The tags that the first check dispatches: each source of each known
    /// item, then the source of new items.
    pub fn first_sweep(&self) -> (r: Vec<WakeFrom>)
        ensures
            keys_of(r@) == sweep_plan(self.addresses()),
    {
        let mut r: Vec<WakeFrom> = Vec::new();
        let mut i: usize = 0;
        while i < self.items.len()
            invariant
                0 <= i <= self.items@.len(),
                keys_of(r@) == drains_of(self.addresses().take(i as int)),
            decreases self.items@.len() - i,
        {
            let mut more = item_wakes(&self.items[i]);
            r.append(&mut more);
            proof {
                let a = self.addresses();
                assert(a.take(i + 1).drop_last() =~= a.take(i as int));
                assert(keys_of(r@) =~= drains_of(a.take(i as int)) + item_drains(a[i as int]));
            }
            i = i + 1;
        }
        r.push(WakeFrom::NewItem);
        proof {
            assert(self.addresses().take(self.items@.len() as int) =~= self.addresses());
            assert(keys_of(r@) =~= sweep_plan(self.addresses()));
        }
        r
    }

    /// Where a drained tag leads. Only the source the tag names is ever
    /// drained; a tag for a freed slot or a removed item leads nowhere.
    pub fn route(&self, tag: &WakeFrom) -> (r: Route)
        ensures
            r@ == self.route_of(tag@),
    {
        match tag {
            WakeFrom::NewItem => Route::DrainNewItems,
            WakeFrom::FutureEvent { index, ticket } => {
                if self.futures.is_waiting(*index, *ticket) {
                    Route::Resume { index: *index, ticket: *ticket }
                } else {
                    Route::Stale
                }
            },
            WakeFrom::ItemUpdate { token, item_wake_from } => {
                if self.contains(token) {
                    Route::DrainItem { token: token.duplicate(), kind: *item_wake_from }
                } else {
                    Route::Stale
                }
            },
        }
    }

    /// Makes a newly announced item live (an address already live stays
    /// once) and returns the tags of its first drain.
    pub fn add_item(&mut self, token: Token) -> (r: Vec<WakeFrom>)
        requires
            old(self).wf(),
        ensures
            final(self).wf(),
            keys_of(r@) == item_drains(token@),
            old(self).addresses().contains(token@) ==> final(self).addresses() == old(
                self,
            ).addresses(),
            !old(self).addresses().contains(token@) ==> final(self).addresses() == old(
                self,
            ).addresses().push(token@),
            final(self).was_polled() == old(self).was_polled(),
            final(self).has_ended() == old(self).has_ended(),
            final(self).table() == old(self).table(),
    {
        let r = item_wakes(&token);
        if !self.contains(&token) {
            self.items.push(token);
            proof {
                assert(self.addresses() =~= old(self).addresses().push(token@));
                assert forall|a: int, b: int|
                    0 <= a < b < self.addresses().len() implies self.addresses()[a]
                    != self.addresses()[b] by {
                    if b == self.addresses().len() - 1 {
                        assert(old(self).addresses().contains(old(self).addresses()[a]));
                    }
                }
            }
        }
        r
    }

    /// Drops the item at this address after its peer left the bus, with the
    /// conversions still in flight for it. True when it was live.
    pub fn remove_item(&mut self, token: &Token) -> (r: bool)
        requires
            old(self).wf(),
        ensures
            final(self).wf(),
            r == old(self).addresses().contains(token@),
            !final(self).addresses().contains(token@),
            r ==> exists|i: int|
                0 <= i < old(self).addresses().len() && old(self).addresses()[i] == token@
                    && final(self).addresses() == old(self).addresses().remove(i),
            !r ==> final(self).addresses() == old(self).addresses(),
            final(self).was_polled() == old(self).was_polled(),
            final(self).has_ended() == old(self).has_ended(),
            final(self).table().next() == old(self).table().next(),
            final(self).table().slots() == released(old(self).table().slots(), token@),
    {
        self.futures.release_owned_by(token);
        match self.position(token) {
            Some(i) => {
                let ghost before = self.addresses();
                let _gone = self.items.remove(i);
                proof {
                    assert(self.addresses() =~= before.remove(i as int));
                    assert forall|j: int| 0 <= j < self.addresses().len() implies self.addresses()[j]
                        != token@ by {
                        if j < i {
                            assert(before[j] != before[i as int]);
                        } else {
                            assert(before[j + 1] != before[i as int]);
                        }
                    }
                    assert forall|a: int, b: int|
                        0 <= a < b < self.addresses().len() implies self.addresses()[a]
                        != self.addresses()[b] by {
                        let a0 = if a < i { a } else { a + 1 };
                        let b0 = if b < i { b } else { b + 1 };
                        assert(before[a0] != before[b0]);
                    }
                }
                true
            },
            None => false,
        }
    }

    /// The source of new items has ended: every later check reports the end.
    pub fn end_announcements(&mut self)
        ensures
            final(self).has_ended(),
            final(self).was_polled() == old(self).was_polled(),
            final(self).addresses() == old(self).addresses(),
            final(self).table() == old(self).table(),
    {
        self.terminated = true;
    }

    /// A free slot for a new conversion (see `FutureMap::preserve_space`).
    pub fn reserve_slot(&mut self) -> (r: usize)
        requires
            old(self).wf(),
        ensures
            final(self).wf(),
            final(self).table().next() == old(self).table().next(),
            r <= old(self).table().slots().len(),
            r < final(self).table().slots().len(),
            final(self).table().slots()[r as int] is None,
            forall|j: int| 0 <= j < r ==> old(self).table().slots()[j] is Some,
            r < old(self).table().slots().len() ==> final(self).table().slots() == old(
                self,
            ).table().slots(),
            r == old(self).table().slots().len() ==> final(self).table().slots() == old(
                self,
            ).table().slots().push(None),
            final(self).addresses() == old(self).addresses(),
            final(self).was_polled() == old(self).was_polled(),
            final(self).has_ended() == old(self).has_ended(),
    {
        self.futures.preserve_space()
    }

    /// The ticket the next stored conversion receives.
    pub fn next_ticket(&self) -> (r: u64)
        ensures
            r == self.table().next(),
    {
        self.futures.next_ticket()
    }

    /// Settles a check of a conversion placed at the free slot `index` (see
    /// `FutureMap::try_put`).
    pub fn settle<E>(&mut self, index: usize, owner: Option<Token>, step: Step<F, E>) -> (r: Option<E>)
        requires
            old(self).wf(),
            index < old(self).table().slots().len(),
            old(self).table().slots()[index as int] is None,
            old(self).table().next() < u64::MAX,
        ensures
            final(self).wf(),
            match step {
                Step::Ready(e) => r == e && final(self).table().slots() == old(self).table().slots()
                    && final(self).table().next() == old(self).table().next(),
                Step::Pending(f) => r is None && final(self).table().slots() == old(
                    self,
                ).table().slots().update(index as int, Some(Slot { ticket: old(self).table().next(), owner, conversion: f }))
                    && final(self).table().next() == old(self).table().next() + 1,
            },
            final(self).addresses() == old(self).addresses(),
            final(self).was_polled() == old(self).was_polled(),
            final(self).has_ended() == old(self).has_ended(),
    {
        self.futures.try_put(index, owner, step)
    }

    /// Takes out the slot whose conversion a tag names, leaving its slot free; nothing
    /// for a freed or refilled slot (see `FutureMap::take`).
    pub fn take_waiting(&mut self, index: usize, ticket: u64) -> (r: Option<Slot<F>>)
        requires
            old(self).wf(),
        ensures
            final(self).wf(),
            final(self).table().next() == old(self).table().next(),
            old(self).table().holds(index as int, ticket) ==> r == old(self).table().slots()[index as int]
                && final(self).table().slots() == old(self).table().slots().update(index as int, None),
            !old(self).table().holds(index as int, ticket) ==> r is None && final(self).table().slots()
                == old(self).table().slots(),
            final(self).addresses() == old(self).addresses(),
            final(self).was_polled() == old(self).was_polled(),
            final(self).has_ended() == old(self).has_ended(),
    {
        self.futures.take(index, ticket)
    }

    /// Whether the loop has ended.
    pub fn is_terminated(&self) -> (r: bool)
        ensures
            r == self.has_ended(),
    {
        self.terminated
    }

    /// What a check that gathered `batch_len` events reports.
    pub fn finish(&self, batch_len: usize) -> (r: CheckOutcome)
        ensures
            r == outcome_of(self.has_ended(), batch_len as nat),
    {
        if self.terminated {
            CheckOutcome::Ended
        } else if batch_len == 0 {
            CheckOutcome::NotReady
        } else {
            CheckOutcome::Batch
        }
    }
}

/// The tags of the three sources of one item.
pub fn item_wakes(token: &Token) -> (r: Vec<WakeFrom>)
    ensures
        keys_of(r@) == item_drains(token@),
{
    let mut r: Vec<WakeFrom> = Vec::new();
    r.push(WakeFrom::ItemUpdate { token: token.duplicate(), item_wake_from: ItemWakeFrom::Disconnect });
    r.push(
        WakeFrom::ItemUpdate { token: token.duplicate(), item_wake_from: ItemWakeFrom::PropertyChange },
    );
    r.push(WakeFrom::ItemUpdate { token: token.duplicate(), item_wake_from: ItemWakeFrom::LayoutUpdate });
    proof {
        assert(keys_of(r@) =~= item_drains(token@));
    }
    r
}

/// Each source of each listed item is among the drains, at its own place.
proof fn drains_hold_each_source(addresses: Seq<Seq<char>>, i: int, kind: ItemWakeFrom)
    requires
        0 <= i < addresses.len(),
    ensures
        drains_of(addresses).contains(WakeKey::ItemUpdate { address: addresses[i], kind }),
    decreases addresses.len(),
{
    let key = WakeKey::ItemUpdate { address: addresses[i], kind };
    let init = addresses.drop_last();
    let head = drains_of(init);
    if i == addresses.len() - 1 {
        let k: int = match kind {
            ItemWakeFrom::Disconnect => 0,
            ItemWakeFrom::PropertyChange => 1,
            ItemWakeFrom::LayoutUpdate => 2,
        };
        assert(drains_of(addresses)[head.len() + k] == key);
    } else {
        drains_hold_each_source(init, i, kind);
        let j = choose|j: int| 0 <= j < head.len() && head[j] == key;
        assert(drains_of(addresses)[j] == key);
    }
}

/// The first check leaves no source out: it drains every source of every
/// item known before it, and the source of new items.
pub proof fn baseline_covers_every_source(addresses: Seq<Seq<char>>, i: int, kind: ItemWakeFrom)
    requires
        0 <= i < addresses.len(),
    ensures
        sweep_plan(addresses).contains(WakeKey::ItemUpdate { address: addresses[i], kind }),
        sweep_plan(addresses).contains(WakeKey::NewItem),
{
    let key = WakeKey::ItemUpdate { address: addresses[i], kind };
    drains_hold_each_source(addresses, i, kind);
    let j = choose|j: int| 0 <= j < drains_of(addresses).len() && drains_of(addresses)[j] == key;
    assert(sweep_plan(addresses)[j] == key);
    assert(sweep_plan(addresses)[drains_of(addresses).len() as int] == WakeKey::NewItem);
}

/// Dispatch is targeted: a tag for one source of one item leads to that
/// source alone or to nothing, and two loops that agree on whether that item
/// is live route it alike, however many other items either one holds.
pub proof fn targeted_dispatch<F>(
    a: LoopCore<F>,
    b: LoopCore<F>,
    address: Seq<char>,
    kind: ItemWakeFrom,
)
    requires
        a.addresses().contains(address) == b.addresses().contains(address),
    ensures
        a.route_of((WakeKey::ItemUpdate { address, kind })) == b.route_of(
            (WakeKey::ItemUpdate { address, kind }),
        ),
        a.route_of((WakeKey::ItemUpdate { address, kind })) == (RouteKey::DrainItem {
            address,
            kind,
        }) || a.route_of((WakeKey::ItemUpdate { address, kind })) == RouteKey::Stale,
{
}

/// Stale tags do nothing: a tag for an item that is no longer live, or for a
/// slot whose conversion is gone, routes nowhere.
pub proof fn stale_dispatch_is_noop<F>(core: LoopCore<F>, key: WakeKey)
    requires
        (match key {
            WakeKey::ItemUpdate { address, .. } => !core.addresses().contains(address),
            WakeKey::FutureEvent { index, ticket } => !core.table().holds(index as int, ticket),
            WakeKey::NewItem => false,
        }),
    ensures
        core.route_of(key) == RouteKey::Stale,
{
}

/// Removing an item leaves none of its conversions to resume: every tag of
/// a conversion that worked for it is stale afterwards, and the conversions
/// of other items stay where they were.
pub proof fn removed_item_conversions_are_stale<F>(
    before: LoopCore<F>,
    after: LoopCore<F>,
    address: Seq<char>,
    index: usize,
    ticket: u64,
)
    requires
        after.table().slots() == released(before.table().slots(), address),
        index < before.table().slots().len(),
    ensures
        owned_by(before.table().slots()[index as int], address) ==> after.route_of(
            (WakeKey::FutureEvent { index, ticket }),
        ) == RouteKey::Stale,
        !owned_by(before.table().slots()[index as int], address) ==> after.table().slots()[index as int]
            == before.table().slots()[index as int],
{
    assert(after.table().slots()[index as int] == released(before.table().slots(), address)[index as int]);
}

} // verus!
