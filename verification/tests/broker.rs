use wilds::broker::EventBroker;

#[test]
fn broker_reads_events_in_order() {
    let mut broker = EventBroker::new();
    broker.add(1u32);
    broker.add(2u32);
    let mut iter = broker.read();
    assert_eq!(*iter.next().unwrap().get(), 1);
    assert_eq!(*iter.next().unwrap().get(), 2);
    assert!(iter.next().is_none());
}

#[test]
fn broker_consumed_event_is_gone_for_later_readers() {
    let mut broker = EventBroker::new();
    broker.add(10u32);
    broker.add(20u32);
    {
        let mut iter = broker.read();
        let first = iter.next().unwrap();
        assert_eq!(first.consume(), 10);
    }
    let mut iter = broker.read();
    assert_eq!(*iter.next().unwrap().get(), 20);
    assert!(iter.next().is_none());
}

#[test]
fn broker_clear_drops_all_events() {
    let mut broker = EventBroker::with_capacity(4);
    broker.add("a");
    broker.add("b");
    broker.clear();
    assert!(broker.read().next().is_none());
}

#[test]
fn broker_reading_without_consuming_keeps_events() {
    let mut broker = EventBroker::with_capacity(0);
    for i in 0..5u32 {
        broker.add(i);
    }
    {
        let mut iter = broker.read();
        while let Some(r) = iter.next() {
            let _ = r.get();
        }
    }
    let mut iter = broker.read();
    let mut seen = Vec::new();
    while let Some(r) = iter.next() {
        seen.push(*r.get());
    }
    assert_eq!(seen, vec![0, 1, 2, 3, 4]);
}

#[test]
fn broker_clear_then_add_reads_only_new_event() {
    let mut broker = EventBroker::new();
    broker.add(1u32);
    broker.clear();
    broker.add(2u32);
    let mut iter = broker.read();
    assert_eq!(*iter.next().unwrap().get(), 2);
    assert!(iter.next().is_none());
}
