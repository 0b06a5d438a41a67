use std::task::Waker;
use vstd::prelude::*;

use crate::token::Token;

verus! {

#[verifier::external_type_specification]
#[verifier::external_body]
pub struct ExWaker(Waker);

/// Which notification source of an item asked for attention.
#[derive(Debug, Clone, Copy, PartialEq, Eq, Structural)]
pub enum ItemWakeFrom {
    Disconnect,
    PropertyChange,
    LayoutUpdate,
}

/// Why the loop was woken.
///
/// A conversion tag carries the slot it lives in and the ticket that the slot
/// was filled under, so a tag left over from an earlier occupant of the slot
/// can be told apart from the current one.
#[derive(Debug)]
pub enum WakeFrom {
    NewItem,
    FutureEvent { index: usize, ticket: u64 },
    ItemUpdate { token: Token, item_wake_from: ItemWakeFrom },
}

/// The source a tag names, with the token seen through its address.
pub enum WakeKey {
    NewItem,
    FutureEvent { index: usize, ticket: u64 },
    ItemUpdate { address: Seq<char>, kind: ItemWakeFrom },
}

impl View for WakeFrom {
    type V = WakeKey;

    open spec fn view(&self) -> WakeKey {
        match self {
            WakeFrom::NewItem => WakeKey::NewItem,
            WakeFrom::FutureEvent { index, ticket } => WakeKey::FutureEvent {
                index: *index,
                ticket: *ticket,
            },
            WakeFrom::ItemUpdate { token, item_wake_from } => WakeKey::ItemUpdate {
                address: token@,
                kind: *item_wake_from,
            },
        }
    }
}

impl WakeFrom {
    /// A copy that names the same source.
    pub fn duplicate(&self) -> (r: WakeFrom)
        ensures
            r@ == self@,
    {
        match self {
            WakeFrom::NewItem => WakeFrom::NewItem,
            WakeFrom::FutureEvent { index, ticket } => WakeFrom::FutureEvent {
                index: *index,
                ticket: *ticket,
            },
            WakeFrom::ItemUpdate { token, item_wake_from } => WakeFrom::ItemUpdate {
                token: token.duplicate(),
                item_wake_from: *item_wake_from,
            },
        }
    }
}

/// The views of a list of tags, in order.
pub open spec fn keys_of(tags: Seq<WakeFrom>) -> Seq<WakeKey> {
    tags.map_values(|t: WakeFrom| t@)
}

/// Relies on `std::task::Waker::wake_by_ref`: asks the executor to poll the
/// owning task again. Nothing about the waker's value changes.
#[verifier::external_body]
fn notify(waker: &Waker) {
    waker.wake_by_ref()
}

/// The state shared by every wake handle of one loop: the tags recorded since
/// the last drain, in the order they were recorded, and the handle that wakes
/// the consumer.
#[derive(Debug)]
pub struct WakerData {
    ready_tokens: Vec<WakeFrom>,
    root_waker: Waker,
}

impl WakerData {
    /// The tags waiting to be dispatched.
    pub closed spec fn pending(&self) -> Seq<WakeKey> {
        keys_of(self.ready_tokens@)
    }

    /// The handle that wakes the consumer.
    pub closed spec fn consumer(&self) -> Waker {
        self.root_waker
    }

    /// Empty pending list, waking `root_waker` when a tag arrives.
    pub fn new(root_waker: Waker) -> (d: WakerData)
        ensures
            d.pending() == Seq::<WakeKey>::empty(),
            d.consumer() == root_waker,
    {
        let d = WakerData { ready_tokens: Vec::new(), root_waker };
        proof {
            assert(keys_of(d.ready_tokens@) =~= Seq::<WakeKey>::empty());
        }
        d
    }

    /// Records why the loop was woken and wakes the consumer. The tag is kept
    /// after every tag recorded before it.
    pub fn record(&mut self, tag: WakeFrom)
        ensures
            final(self).pending() == old(self).pending().push(tag@),
            final(self).consumer() == old(self).consumer(),
    {
        self.ready_tokens.push(tag);
        proof {
            assert(keys_of(self.ready_tokens@) =~= keys_of(old(self).ready_tokens@).push(tag@));
        }
        notify(&self.root_waker);
    }

    /// Points later wakes at a new consumer handle; the pending tags stay.
    pub fn set_root_waker(&mut self, root_waker: Waker)
        ensures
            final(self).pending() == old(self).pending(),
            final(self).consumer() == root_waker,
    {
        self.root_waker = root_waker;
    }

    /// Takes the whole pending list at once and leaves it empty, so a tag
    /// recorded afterwards belongs to the next drain.
    pub fn take_ready(&mut self) -> (r: Vec<WakeFrom>)
        ensures
            keys_of(r@) == old(self).pending(),
            final(self).pending() == Seq::<WakeKey>::empty(),
            final(self).consumer() == old(self).consumer(),
    {
        let mut r: Vec<WakeFrom> = Vec::new();
        std::mem::swap(&mut r, &mut self.ready_tokens);
        proof {
            assert(keys_of(self.ready_tokens@) =~= Seq::<WakeKey>::empty());
        }
        r
    }
}

/// The pending list after recording `tags` one by one, starting from `start`.
pub open spec fn after_records(start: Seq<WakeKey>, tags: Seq<WakeKey>) -> Seq<WakeKey>
    decreases tags.len(),
{
    if tags.len() == 0 {
        start
    } else {
        after_records(start, tags.drop_last()).push(tags.last())
    }
}

/// No wake is lost: however many tags are recorded between two drains, the
/// next drain hands out every one of them, after whatever was already pending.
pub proof fn no_lost_wake(start: Seq<WakeKey>, tags: Seq<WakeKey>)
    ensures
        after_records(start, tags) == start + tags,
        forall|i: int| 0 <= i < tags.len() ==> after_records(start, tags).contains(tags[i]),
    decreases tags.len(),
{
    if tags.len() > 0 {
        no_lost_wake(start, tags.drop_last());
        assert(start + tags =~= (start + tags.drop_last()).push(tags.last()));
    }
    assert(after_records(start, tags) == start + tags);
    assert forall|i: int| 0 <= i < tags.len() implies after_records(start, tags).contains(
        tags[i],
    ) by {
        assert((start + tags)[start.len() + i] == tags[i]);
    }
}

} // verus!
