use tray_loop::engine::{CheckOutcome, LoopCore, Route};
use tray_loop::slots::{FutureMap, Step};
use tray_loop::token::Token;
use tray_loop::wake::{ItemWakeFrom, WakeFrom, WakerData};

fn tok(s: &str) -> Token {
    Token::new(s.to_string())
}

fn item_tag(t: &WakeFrom) -> Option<(String, ItemWakeFrom)> {
    match t {
        WakeFrom::ItemUpdate { token, item_wake_from } => {
            Some((token.destination.as_str().to_string(), *item_wake_from))
        }
        _ => None,
    }
}

#[test]
fn token_compares_by_address() {
    let a = tok(":1.52");
    let b = tok(":1.52");
    let c = tok(":1.53");
    assert!(a.same_as(&b));
    assert!(!a.same_as(&c));
    assert_eq!(a.duplicate().destination.as_str(), ":1.52");
}

#[test]
fn every_recorded_wake_is_drained_in_order() {
    let mut data = WakerData::new(futures::task::noop_waker());
    data.record(WakeFrom::NewItem);
    data.record(WakeFrom::FutureEvent { index: 3, ticket: 9 });
    data.record(WakeFrom::ItemUpdate { token: tok(":1.7"), item_wake_from: ItemWakeFrom::Disconnect });
    data.record(WakeFrom::NewItem);
    let got = data.take_ready();
    assert_eq!(got.len(), 4);
    assert!(matches!(got[0], WakeFrom::NewItem));
    assert!(matches!(got[1], WakeFrom::FutureEvent { index: 3, ticket: 9 }));
    assert_eq!(item_tag(&got[2]), Some((":1.7".to_string(), ItemWakeFrom::Disconnect)));
    assert!(matches!(got[3], WakeFrom::NewItem));
    assert!(data.take_ready().is_empty());
    data.record(WakeFrom::NewItem);
    assert_eq!(data.take_ready().len(), 1);
}

#[test]
fn slot_table_reuses_first_free_slot() {
    let mut m: FutureMap<u32> = FutureMap::new();
    assert_eq!(m.preserve_space(), 0);
    assert_eq!(m.len(), 1);
    assert_eq!(m.preserve_space(), 0);
    assert_eq!(m.len(), 1);
    assert_eq!(m.try_put::<String>(0, None, Step::Pending(10)), None);
    assert_eq!(m.preserve_space(), 1);
    assert_eq!(m.try_put::<String>(1, None, Step::Pending(11)), None);
    assert_eq!(m.preserve_space(), 2);
    assert_eq!(m.len(), 3);
    assert_eq!(m.take(0, 0).map(|s| s.conversion), Some(10));
    assert_eq!(m.preserve_space(), 0);
}

#[test]
fn finished_conversion_returns_its_event_and_frees_the_slot() {
    let mut m: FutureMap<u32> = FutureMap::new();
    let i = m.preserve_space();
    assert_eq!(m.try_put(i, None, Step::Ready(Some("update".to_string()))), Some("update".to_string()));
    assert!(m.get(i).is_none());
    assert_eq!(m.next_ticket(), 0);
    assert_eq!(m.try_put::<String>(i, None, Step::Ready(None)), None);
    assert!(m.get(i).is_none());
}

#[test]
fn resuming_a_freed_slot_gives_nothing() {
    let mut m: FutureMap<u32> = FutureMap::new();
    assert!(m.take(0, 0).is_none());
    let i = m.preserve_space();
    assert_eq!(m.try_put::<String>(i, None, Step::Pending(5)), None);
    assert!(m.is_waiting(i, 0));
    assert_eq!(m.take(i, 0).map(|s| s.conversion), Some(5));
    assert!(m.take(i, 0).is_none());
    assert!(!m.is_waiting(i, 0));
    assert!(m.take(40, 0).is_none());
}

#[test]
fn recycled_slot_ignores_tag_of_earlier_conversion() {
    let mut m: FutureMap<u32> = FutureMap::new();
    let i = m.preserve_space();
    m.try_put::<String>(i, None, Step::Pending(1));
    let first_ticket = 0u64;
    assert_eq!(m.take(i, first_ticket).map(|s| s.conversion), Some(1));
    let j = m.preserve_space();
    assert_eq!(j, i);
    m.try_put::<String>(j, None, Step::Pending(2));
    assert_eq!(m.get(j).as_ref().map(|s| s.ticket), Some(1));
    assert!(m.take(j, first_ticket).is_none());
    assert!(m.is_waiting(j, 1));
    assert_eq!(m.take(j, 1).map(|s| s.conversion), Some(2));
}

#[test]
fn first_check_is_reported_once() {
    let mut core: LoopCore<u32> = LoopCore::new(vec![tok(":1.1")]);
    assert!(core.begin_check());
    assert!(!core.begin_check());
    assert!(!core.begin_check());
}

#[test]
fn first_sweep_drains_every_source_of_every_item() {
    let core: LoopCore<u32> = LoopCore::new(vec![tok(":1.1"), tok(":1.2")]);
    let plan = core.first_sweep();
    assert_eq!(plan.len(), 7);
    let kinds = [ItemWakeFrom::Disconnect, ItemWakeFrom::PropertyChange, ItemWakeFrom::LayoutUpdate];
    for (n, addr) in [":1.1", ":1.2"].iter().enumerate() {
        for (k, kind) in kinds.iter().enumerate() {
            assert_eq!(item_tag(&plan[3 * n + k]), Some((addr.to_string(), *kind)));
        }
    }
    assert!(matches!(plan[6], WakeFrom::NewItem));
    let empty: LoopCore<u32> = LoopCore::new(vec![]);
    let plan = empty.first_sweep();
    assert_eq!(plan.len(), 1);
    assert!(matches!(plan[0], WakeFrom::NewItem));
}

#[test]
fn route_targets_only_the_named_source() {
    let core: LoopCore<u32> = LoopCore::new(vec![tok(":1.1"), tok(":1.2"), tok(":1.3")]);
    let tag = WakeFrom::ItemUpdate { token: tok(":1.2"), item_wake_from: ItemWakeFrom::PropertyChange };
    match core.route(&tag) {
        Route::DrainItem { token, kind } => {
            assert_eq!(token.destination.as_str(), ":1.2");
            assert_eq!(kind, ItemWakeFrom::PropertyChange);
        }
        other => panic!("unexpected route {:?}", other),
    }
    assert!(matches!(core.route(&WakeFrom::NewItem), Route::DrainNewItems));
}

#[test]
fn stale_tags_route_nowhere() {
    let mut core: LoopCore<u32> = LoopCore::new(vec![tok(":1.1")]);
    let gone = WakeFrom::ItemUpdate { token: tok(":1.9"), item_wake_from: ItemWakeFrom::Disconnect };
    assert!(matches!(core.route(&gone), Route::Stale));
    let freed = WakeFrom::FutureEvent { index: 0, ticket: 0 };
    assert!(matches!(core.route(&freed), Route::Stale));
    let i = core.reserve_slot();
    core.settle::<String>(i, None, Step::Pending(3));
    assert!(matches!(core.route(&freed), Route::Resume { index: 0, ticket: 0 }));
    assert_eq!(core.take_waiting(0, 0).map(|s| s.conversion), Some(3));
    assert!(matches!(core.route(&freed), Route::Stale));
    assert!(core.take_waiting(0, 0).is_none());
}

#[test]
fn add_item_keeps_addresses_unique() {
    let mut core: LoopCore<u32> = LoopCore::new(vec![tok(":1.1")]);
    let plan = core.add_item(tok(":1.4"));
    assert_eq!(plan.len(), 3);
    assert_eq!(item_tag(&plan[0]), Some((":1.4".to_string(), ItemWakeFrom::Disconnect)));
    assert_eq!(item_tag(&plan[1]), Some((":1.4".to_string(), ItemWakeFrom::PropertyChange)));
    assert_eq!(item_tag(&plan[2]), Some((":1.4".to_string(), ItemWakeFrom::LayoutUpdate)));
    assert!(core.contains(&tok(":1.4")));
    core.add_item(tok(":1.4"));
    assert!(core.remove_item(&tok(":1.4")));
    assert!(!core.contains(&tok(":1.4")));
    assert!(core.contains(&tok(":1.1")));
}

#[test]
fn remove_item_of_unknown_address_changes_nothing() {
    let mut core: LoopCore<u32> = LoopCore::new(vec![tok(":1.1")]);
    assert!(!core.remove_item(&tok(":1.2")));
    assert!(core.contains(&tok(":1.1")));
}

#[test]
fn outcome_follows_batch_and_end() {
    let mut core: LoopCore<u32> = LoopCore::new(vec![]);
    assert_eq!(core.finish(0), CheckOutcome::NotReady);
    assert_eq!(core.finish(2), CheckOutcome::Batch);
    assert!(!core.is_terminated());
    core.end_announcements();
    assert!(core.is_terminated());
    assert_eq!(core.finish(0), CheckOutcome::Ended);
    assert_eq!(core.finish(5), CheckOutcome::Ended);
}

#[test]
fn scenario_buffered_property_change_at_startup() {
    let mut core: LoopCore<u32> = LoopCore::new(vec![tok(":1.1"), tok(":1.2")]);
    assert!(core.begin_check());
    let mut batch: Vec<String> = Vec::new();
    for tag in core.first_sweep() {
        if let Some((addr, ItemWakeFrom::PropertyChange)) = item_tag(&tag) {
            if addr == ":1.1" {
                let i = core.reserve_slot();
                if let Some(e) = core.settle(i, None, Step::Ready(Some(format!("update {}", addr)))) {
                    batch.push(e);
                }
            }
        }
    }
    assert_eq!(batch, vec!["update :1.1".to_string()]);
    assert_eq!(core.finish(batch.len()), CheckOutcome::Batch);
}

#[test]
fn scenario_disconnect_removes_item() {
    let mut core: LoopCore<u32> = LoopCore::new(vec![tok(":1.1"), tok(":1.2")]);
    core.begin_check();
    let i = core.reserve_slot();
    core.settle::<String>(i, Some(tok(":1.1")), Step::Pending(7));
    let j = core.reserve_slot();
    core.settle::<String>(j, Some(tok(":1.2")), Step::Pending(8));
    let in_flight = WakeFrom::FutureEvent { index: i, ticket: 0 };
    assert!(matches!(core.route(&in_flight), Route::Resume { .. }));
    let tag = WakeFrom::ItemUpdate { token: tok(":1.1"), item_wake_from: ItemWakeFrom::Disconnect };
    let mut batch: Vec<String> = Vec::new();
    if let Route::DrainItem { token, kind: ItemWakeFrom::Disconnect } = core.route(&tag) {
        if core.remove_item(&token) {
            batch.push(format!("remove {}", token.destination.as_str()));
        }
    }
    assert_eq!(batch, vec!["remove :1.1".to_string()]);
    assert!(!core.contains(&tok(":1.1")));
    assert!(core.contains(&tok(":1.2")));
    let later = WakeFrom::ItemUpdate { token: tok(":1.1"), item_wake_from: ItemWakeFrom::PropertyChange };
    assert!(matches!(core.route(&later), Route::Stale));
    assert!(matches!(core.route(&tag), Route::Stale));
    assert!(matches!(core.route(&in_flight), Route::Stale));
    assert!(core.take_waiting(i, 0).is_none());
    assert_eq!(core.take_waiting(j, 1).map(|s| s.conversion), Some(8));
}

#[test]
fn release_frees_only_slots_of_that_item() {
    let mut m: FutureMap<u32> = FutureMap::new();
    for (n, owner) in [Some(":1.1"), Some(":1.2"), None, Some(":1.1")].iter().enumerate() {
        let i = m.preserve_space();
        assert_eq!(i, n);
        m.try_put::<String>(i, owner.map(tok), Step::Pending(n as u32));
    }
    m.release_owned_by(&tok(":1.1"));
    assert_eq!(m.len(), 4);
    assert!(m.get(0).is_none());
    assert!(m.is_waiting(1, 1));
    assert!(m.is_waiting(2, 2));
    assert!(m.get(3).is_none());
    assert_eq!(m.next_ticket(), 4);
    assert_eq!(m.preserve_space(), 0);
}

#[test]
fn scenario_new_item_is_onboarded_and_drained() {
    let mut core: LoopCore<u32> = LoopCore::new(vec![]);
    core.begin_check();
    let mut batch: Vec<String> = Vec::new();
    assert!(matches!(core.route(&WakeFrom::NewItem), Route::DrainNewItems));
    let fresh = tok(":1.60");
    batch.push("add :1.60".to_string());
    let plan = core.add_item(fresh);
    for tag in plan {
        if let Route::DrainItem { kind: ItemWakeFrom::PropertyChange, .. } = core.route(&tag) {
            let i = core.reserve_slot();
            if let Some(e) = core.settle(i, None, Step::Ready(Some("update :1.60".to_string()))) {
                batch.push(e);
            }
        }
    }
    assert_eq!(batch, vec!["add :1.60".to_string(), "update :1.60".to_string()]);
    assert_eq!(core.finish(batch.len()), CheckOutcome::Batch);
    assert!(core.contains(&tok(":1.60")));
}
