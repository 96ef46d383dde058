use localstorage::datastore::{DataStore, Listener};
use localstorage::op::Op;

fn s(x: &str) -> String {
    x.to_string()
}

fn drain<B: Clone + Default>(listener: &Listener<B>, n: usize) {
    for _ in 0..n {
        assert!(listener.step());
    }
}

#[test]
fn upsert_upsert_remove_leaves_b() {
    let ds: DataStore<String> = DataStore::new();
    let listener = ds.listener().unwrap();
    ds.send(Op::Upsert(s("a"), s("1"))).unwrap();
    ds.send(Op::Upsert(s("b"), s("2"))).unwrap();
    ds.send(Op::Remove(s("a"))).unwrap();
    drain(&listener, 3);
    let all = ds.all();
    assert_eq!(all.len(), 1);
    assert_eq!(all.get(&s("b")), Some(s("2")));
    assert_eq!(all.get(&s("a")), None);
    assert_eq!(all.key_list(), vec![s("b")]);
}

#[test]
fn remove_random_on_empty_store_is_noop() {
    let ds: DataStore<String> = DataStore::new();
    let listener = ds.listener().unwrap();
    ds.send(Op::RemoveRandom).unwrap();
    drain(&listener, 1);
    assert_eq!(ds.all().len(), 0);
}

#[test]
fn remove_random_on_single_key_empties_store() {
    let ds: DataStore<u64> = DataStore::new();
    let listener = ds.listener().unwrap();
    ds.send(Op::Upsert(s("only"), 7)).unwrap();
    ds.send(Op::RemoveRandom).unwrap();
    drain(&listener, 2);
    assert_eq!(ds.all().len(), 0);
    assert_eq!(ds.get(s("only")), None);
}

#[test]
fn remove_random_removes_exactly_one_present_key() {
    let ds: DataStore<u64> = DataStore::new();
    let listener = ds.listener().unwrap();
    for (i, k) in ["p", "q", "r"].iter().enumerate() {
        ds.send(Op::Upsert(s(k), i as u64)).unwrap();
    }
    ds.send(Op::RemoveRandom).unwrap();
    drain(&listener, 4);
    let all = ds.all();
    assert_eq!(all.len(), 2);
    for k in all.key_list() {
        assert!(["p", "q", "r"].contains(&k.as_str()));
    }
}

#[test]
fn upsert_then_get_and_remove_then_get() {
    let ds: DataStore<String> = DataStore::new();
    let listener = ds.listener().unwrap();
    ds.send(Op::Upsert(s("k"), s("v"))).unwrap();
    drain(&listener, 1);
    assert_eq!(ds.get(s("k")), Some(s("v")));
    ds.send(Op::Upsert(s("k"), s("w"))).unwrap();
    drain(&listener, 1);
    assert_eq!(ds.get(s("k")), Some(s("w")));
    ds.send(Op::Remove(s("k"))).unwrap();
    drain(&listener, 1);
    assert_eq!(ds.get(s("k")), None);
}

#[test]
fn remove_of_absent_key_is_noop() {
    let ds: DataStore<String> = DataStore::new();
    let listener = ds.listener().unwrap();
    ds.send(Op::Upsert(s("x"), s("1"))).unwrap();
    ds.send(Op::Remove(s("missing"))).unwrap();
    drain(&listener, 2);
    assert_eq!(ds.all().len(), 1);
    assert_eq!(ds.get(s("x")), Some(s("1")));
}

#[test]
fn new_tab_resets_to_default() {
    let ds: DataStore<u64> = DataStore::new();
    let listener = ds.listener().unwrap();
    ds.send(Op::NewTab(s("x"))).unwrap();
    drain(&listener, 1);
    assert_eq!(ds.get(s("tab_x")), Some(0));
    ds.send(Op::Upsert(s("tab_x"), 9)).unwrap();
    drain(&listener, 1);
    assert_eq!(ds.get(s("tab_x")), Some(9));
    ds.send(Op::NewTab(s("x"))).unwrap();
    drain(&listener, 1);
    assert_eq!(ds.get(s("tab_x")), Some(0));
    assert_eq!(ds.get(s("x")), None);
    assert_eq!(ds.all().len(), 1);
}

#[test]
fn distinct_producers_lose_no_update() {
    let ds: DataStore<u64> = DataStore::new();
    let listener = ds.listener().unwrap();
    let producers: Vec<DataStore<u64>> = (0..4).map(|_| ds.clone()).collect();
    for m in 0..25u64 {
        for (n, p) in producers.iter().enumerate() {
            p.send(Op::Upsert(format!("p{}-{}", n, m), m)).unwrap();
        }
    }
    drain(&listener, 100);
    let all = ds.all();
    assert_eq!(all.len(), 100);
    assert_eq!(all.get(&s("p3-24")), Some(24));
    assert_eq!(producers[1].get(s("p0-7")), Some(7));
}

#[test]
fn per_producer_order_is_kept() {
    let ds: DataStore<u64> = DataStore::new();
    let listener = ds.listener().unwrap();
    let other = ds.clone();
    for v in 0..10u64 {
        other.send(Op::Upsert(s("k"), v)).unwrap();
    }
    drain(&listener, 10);
    assert_eq!(ds.get(s("k")), Some(9));
}

#[test]
fn listener_is_handed_out_once() {
    let ds: DataStore<u64> = DataStore::new();
    let first = ds.listener();
    assert!(first.is_some());
    assert!(ds.listener().is_none());
    assert!(ds.clone().listener().is_none());
}

#[test]
fn listener_stops_when_every_handle_is_gone() {
    let ds: DataStore<u64> = DataStore::new();
    let listener = ds.listener().unwrap();
    ds.send(Op::Upsert(s("a"), 1)).unwrap();
    drop(ds);
    assert!(listener.step());
    assert!(!listener.step());
}

#[test]
fn send_hands_message_back_without_listener() {
    let ds: DataStore<u64> = DataStore::new();
    let listener = ds.listener().unwrap();
    drop(listener);
    match ds.send(Op::Upsert(s("a"), 5)) {
        Err(Op::Upsert(k, v)) => {
            assert_eq!(k, "a");
            assert_eq!(v, 5);
        }
        _ => panic!("send should fail once the listener is gone"),
    }
}

#[test]
fn snapshot_is_independent_of_later_writes() {
    let ds: DataStore<String> = DataStore::new();
    let listener = ds.listener().unwrap();
    ds.send(Op::Upsert(s("a"), s("1"))).unwrap();
    drain(&listener, 1);
    let before = ds.all();
    ds.send(Op::Upsert(s("a"), s("2"))).unwrap();
    ds.send(Op::Upsert(s("b"), s("3"))).unwrap();
    drain(&listener, 2);
    assert_eq!(before.get(&s("a")), Some(s("1")));
    assert_eq!(before.len(), 1);
    assert_eq!(ds.all().len(), 2);
}

#[test]
fn listener_matches_serial_replay() {
    let ops = || {
        vec![
            Op::Upsert(s("a"), s("1")),
            Op::NewTab(s("a")),
            Op::Upsert(s("b"), s("2")),
            Op::Remove(s("a")),
            Op::Upsert(s("tab_a"), s("x")),
            Op::Upsert(s("c"), s("3")),
            Op::Remove(s("zz")),
        ]
    };
    let ds: DataStore<String> = DataStore::new();
    let listener = ds.listener().unwrap();
    for op in ops() {
        ds.send(op).unwrap();
    }
    drain(&listener, 7);
    let mut serial = localstorage::store::Store::new();
    serial.apply_all(ops());
    let live = ds.all();
    assert_eq!(live.key_list(), serial.key_list());
    for k in serial.key_list() {
        assert_eq!(live.get(&k), serial.get(&k));
    }
    assert_eq!(serial.key_list(), vec![s("tab_a"), s("b"), s("c")]);
    assert_eq!(serial.get(&s("tab_a")), Some(s("x")));
}
