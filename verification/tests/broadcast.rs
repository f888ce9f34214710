use futures::channel::mpsc::Receiver;
use multistream::registry::SubscriptionRegistry;
use multistream::stage::{BroadcastStage, DeliveryPolicy};

fn drain(r: &mut Receiver<i16>) -> Vec<i16> {
    let mut out = Vec::new();
    while let Ok(v) = r.try_recv() {
        out.push(v);
    }
    out
}

#[test]
fn tick_with_zero_subscribers_never_stalls() {
    let mut stage: BroadcastStage<i16> = BroadcastStage::new(DeliveryPolicy::NoDrop);
    let items: Vec<i16> = vec![1, 2, 3, 4];
    let (consumed, finished) = stage.tick(&items, false);
    assert_eq!(consumed, items.len());
    assert!(!finished);
    let (consumed, finished) = stage.tick(&items, true);
    assert_eq!(consumed, items.len());
    assert!(finished);
}

#[test]
fn tick_with_no_items_finishes_when_upstream_is_done() {
    let mut stage: BroadcastStage<i16> = BroadcastStage::new(DeliveryPolicy::NoDrop);
    let empty: Vec<i16> = Vec::new();
    let (consumed, finished) = stage.tick(&empty, true);
    assert_eq!(consumed, 0);
    assert!(finished);
}

#[test]
fn no_drop_delivers_full_stream_to_every_subscriber() {
    let mut stage: BroadcastStage<i16> = BroadcastStage::new(DeliveryPolicy::NoDrop);
    let mut receivers: Vec<Receiver<i16>> = Vec::new();
    for _ in 0..3 {
        receivers.push(stage.build_new_stream(8));
    }
    let items: Vec<i16> = vec![1, 2, 3, 4, 5];
    let (consumed, finished) = stage.tick(&items, false);
    assert_eq!(consumed, 5);
    assert!(!finished);
    for r in receivers.iter_mut() {
        assert_eq!(drain(r), vec![1, 2, 3, 4, 5]);
    }
    assert_eq!(stage.subscriber_count(), 3);
}

#[test]
fn join_yields_independent_subscribers_with_distinct_ids() {
    let mut stage: BroadcastStage<i16> = BroadcastStage::new(DeliveryPolicy::NoDrop);
    let mut r0 = stage.build_new_stream(4);
    let mut r1 = stage.build_new_stream(4);
    let mut r2 = stage.build_new_stream(4);
    let ids = stage.snapshot();
    assert_eq!(ids.len(), 3);
    assert!(ids[0] < ids[1] && ids[1] < ids[2]);
    // one subscriber's closure leaves the others' streams untouched
    r1.close();
    let (consumed, _) = stage.tick(&vec![9i16, 8], false);
    assert_eq!(consumed, 2);
    assert_eq!(drain(&mut r0), vec![9, 8]);
    assert_eq!(drain(&mut r1), vec![]);
    assert_eq!(drain(&mut r2), vec![9, 8]);
    assert_eq!(stage.subscriber_count(), 2);
}

#[test]
fn closed_subscriber_is_pruned_and_gets_nothing_after_closure() {
    let mut stage: BroadcastStage<i16> = BroadcastStage::new(DeliveryPolicy::NoDrop);
    let mut ra = stage.build_new_stream(8);
    let mut rb = stage.build_new_stream(8);
    let mut rc = stage.build_new_stream(8);
    let ids = stage.snapshot();
    let (c1, _) = stage.tick(&vec![1i16, 2, 3], false);
    assert_eq!(c1, 3);
    // the second subscriber accepts the first three items, then its channel
    // closes before the rest of the stream arrives
    assert_eq!(drain(&mut rb), vec![1, 2, 3]);
    rb.close();
    let (c2, _) = stage.tick(&vec![4i16, 5], false);
    assert_eq!(c2, 2);
    // the registry shrank by exactly the one closure detected
    assert_eq!(stage.subscriber_count(), 2);
    assert_eq!(stage.snapshot(), vec![ids[0], ids[2]]);
    // survivors received the whole input; the closed one nothing further
    assert_eq!(drain(&mut ra), vec![1, 2, 3, 4, 5]);
    assert_eq!(drain(&mut rb), vec![]);
    assert_eq!(drain(&mut rc), vec![1, 2, 3, 4, 5]);
}

#[test]
fn drop_if_full_skips_backpressured_subscriber_and_keeps_it() {
    let mut stage: BroadcastStage<i16> = BroadcastStage::new(DeliveryPolicy::DropIfFull);
    // zero buffer: exactly one guaranteed slot for the sender
    let mut slow = stage.build_new_stream(0);
    let mut fast = stage.build_new_stream(8);
    let (consumed, _) = stage.tick(&vec![7i16, 8, 9], false);
    // every attempted item counts once attempted
    assert_eq!(consumed, 3);
    // backpressure is not closure: the slow subscriber stays registered
    assert_eq!(stage.subscriber_count(), 2);
    // the slow subscriber lost items but kept input order
    assert_eq!(drain(&mut slow), vec![7]);
    assert_eq!(drain(&mut fast), vec![7, 8, 9]);
}

#[test]
fn drop_if_full_prunes_closed_subscriber() {
    let mut stage: BroadcastStage<i16> = BroadcastStage::new(DeliveryPolicy::DropIfFull);
    let mut gone = stage.build_new_stream(4);
    let mut live = stage.build_new_stream(4);
    gone.close();
    let (consumed, _) = stage.tick(&vec![1i16, 2], false);
    assert_eq!(consumed, 2);
    assert_eq!(stage.subscriber_count(), 1);
    assert_eq!(drain(&mut gone), vec![]);
    assert_eq!(drain(&mut live), vec![1, 2]);
}

#[test]
fn registry_join_snapshot_prune() {
    let mut reg: SubscriptionRegistry<i16> = SubscriptionRegistry::new();
    assert_eq!(reg.len(), 0);
    let _r0 = reg.join(4);
    let _r1 = reg.join(4);
    let _r2 = reg.join(4);
    assert_eq!(reg.len(), 3);
    let ids = reg.snapshot();
    assert_eq!(ids.len(), 3);
    assert!(ids[0] < ids[1] && ids[1] < ids[2]);
    reg.prune(&vec![ids[1]]);
    assert_eq!(reg.len(), 2);
    assert_eq!(reg.snapshot(), vec![ids[0], ids[2]]);
    // pruning an id that is not present removes nothing
    reg.prune(&vec![ids[1]]);
    assert_eq!(reg.len(), 2);
    // membership grows only via join: a fresh id, even after pruning
    let _r3 = reg.join(4);
    let ids_after = reg.snapshot();
    assert_eq!(ids_after.len(), 3);
    assert!(ids_after[2] > ids[2]);
}

#[test]
fn delivery_reaches_the_real_channel() {
    // the delivered values observed by the receiving half are the input
    // values, not placeholders: a send that did nothing would fail here
    let mut stage: BroadcastStage<i16> = BroadcastStage::new(DeliveryPolicy::NoDrop);
    let mut r = stage.build_new_stream(4);
    assert_eq!(drain(&mut r), vec![]);
    let (consumed, _) = stage.tick(&vec![-7i16], false);
    assert_eq!(consumed, 1);
    assert_eq!(drain(&mut r), vec![-7]);
}
