use commander_engine::datastream::{DataChange, DataStream, DataStreamSnapshot};
use commander_engine::events::Gap;
use commander_engine::list::{ListChange, ListStream};
use commander_engine::scalar::{ValueChange, ValueStream};
use commander_engine::tree::{TreeChange, TreeStream, TreeStreamNode};
use commander_engine::value::{StreamError, StreamKind, Value};
use commander_engine::ProgramSource;

fn text(s: &str) -> Value {
    Value::Text(s.to_string())
}

fn leaf(v: Value) -> TreeStreamNode {
    TreeStreamNode { value: v, children: Vec::new() }
}

fn replay_list(start: Vec<Value>, changes: &[&ListChange]) -> Vec<Value> {
    let mut s = start;
    for c in changes {
        match c {
            ListChange::Insert { index, value } => s.insert(*index, value.duplicate()),
            ListChange::Remove { index } => {
                s.remove(*index);
            }
            ListChange::Replace { index, value } => s[*index] = value.duplicate(),
        }
    }
    s
}

#[test]
fn list_snapshot_reflects_every_mutation() {
    let mut l = ListStream::new();
    l.push(Value::Int(1)).unwrap();
    l.push(Value::Int(2)).unwrap();
    l.apply(ListChange::Insert { index: 0, value: Value::Int(0) }).unwrap();
    l.apply(ListChange::Replace { index: 2, value: text("two") }).unwrap();
    l.apply(ListChange::Remove { index: 1 }).unwrap();
    assert_eq!(l.snapshot(), vec![Value::Int(0), text("two")]);
    assert_eq!(l.len(), 2);
    assert_eq!(l.get(1), Some(&text("two")));
    assert_eq!(l.get(2), None);
}

#[test]
fn list_out_of_range_changes_nothing() {
    let mut l = ListStream::new();
    l.push(Value::Bool(true)).unwrap();
    let before = l.changes().subscribe();
    assert_eq!(
        l.apply(ListChange::Remove { index: 1 }),
        Err(StreamError::OutOfRange { index: 1, len: 1 })
    );
    assert_eq!(
        l.apply(ListChange::Insert { index: 3, value: Value::Int(9) }),
        Err(StreamError::OutOfRange { index: 3, len: 1 })
    );
    assert_eq!(l.snapshot(), vec![Value::Bool(true)]);
    assert_eq!(l.changes().subscribe(), before);
}

#[test]
fn list_subscriber_replay_matches_snapshot() {
    let mut l = ListStream::new();
    let cursor = l.changes().subscribe();
    let start = l.snapshot();
    l.push(text("a")).unwrap();
    l.push(text("b")).unwrap();
    l.apply(ListChange::Insert { index: 1, value: text("c") }).unwrap();
    l.apply(ListChange::Remove { index: 0 }).unwrap();
    l.apply(ListChange::Replace { index: 1, value: text("d") }).unwrap();
    let mut received = Vec::new();
    let mut at = cursor;
    while let Ok(Some(e)) = l.changes().read(at) {
        received.push(e);
        at += 1;
    }
    assert_eq!(received.len(), 5);
    assert_eq!(replay_list(start, &received), l.snapshot());
    assert_eq!(l.changes().read(at), Ok(None));
}

#[test]
fn late_subscriber_sees_only_later_changes() {
    let mut l = ListStream::new();
    l.push(Value::Int(1)).unwrap();
    let cursor = l.changes().subscribe();
    assert_eq!(cursor, 1);
    let start = l.snapshot();
    l.push(Value::Int(2)).unwrap();
    let e = l.changes().read(cursor).unwrap().unwrap();
    assert_eq!(e, &ListChange::Insert { index: 1, value: Value::Int(2) });
    assert_eq!(replay_list(start, &[e]), l.snapshot());
}

#[test]
fn lagging_subscriber_detects_gap_and_resyncs() {
    let mut l = ListStream::new();
    let cursor = l.changes().subscribe();
    for i in 0..300i64 {
        l.push(Value::Int(i)).unwrap();
    }
    assert_eq!(l.changes().read(cursor), Err(Gap { requested: 0, resume_at: 44 }));
    let resynced = l.snapshot();
    assert_eq!(resynced.len(), 300);
    let at = l.changes().subscribe();
    l.push(Value::Int(300)).unwrap();
    let e = l.changes().read(at).unwrap().unwrap();
    assert_eq!(replay_list(resynced, &[e]), l.snapshot());
    assert!(l.changes().read(44).is_err());
    assert!(matches!(l.changes().read(45), Ok(Some(_))));
}

#[test]
fn value_stream_set_and_clear() {
    let mut v = ValueStream::new();
    assert_eq!(v.snapshot(), None);
    let cursor = v.changes().subscribe();
    v.set(Value::Int(5));
    assert_eq!(v.snapshot(), Some(Value::Int(5)));
    v.apply(ValueChange::Assign(text("x")));
    assert_eq!(v.snapshot(), Some(text("x")));
    v.clear();
    assert_eq!(v.snapshot(), None);
    assert_eq!(v.changes().read(cursor), Ok(Some(&ValueChange::Assign(Value::Int(5)))));
    assert_eq!(v.changes().read(cursor + 2), Ok(Some(&ValueChange::Clear)));
    assert_eq!(v.changes().read(cursor + 3), Ok(None));
    assert!(v.destroy().is_ok());
}

#[test]
fn tree_mutations_at_paths() {
    let mut t = TreeStream::new();
    t.apply(TreeChange::Add { path: vec![0], node: leaf(text("root")) }).unwrap();
    t.apply(TreeChange::Add { path: vec![0, 0], node: leaf(text("a")) }).unwrap();
    t.apply(TreeChange::Add { path: vec![0, 1], node: leaf(text("b")) }).unwrap();
    t.apply(TreeChange::Add { path: vec![0, 1, 0], node: leaf(text("b1")) }).unwrap();
    t.apply(TreeChange::Replace { path: vec![0, 0], node: leaf(text("A")) }).unwrap();
    t.apply(TreeChange::Add { path: vec![1], node: leaf(text("second")) }).unwrap();
    t.apply(TreeChange::Remove { path: vec![1] }).unwrap();
    let expected = vec![TreeStreamNode {
        value: text("root"),
        children: vec![
            leaf(text("A")),
            TreeStreamNode { value: text("b"), children: vec![leaf(text("b1"))] },
        ],
    }];
    assert_eq!(t.snapshot(), expected);
    assert_eq!(t.changes().subscribe(), 7);
}

#[test]
fn tree_invalid_paths_change_nothing() {
    let mut t = TreeStream::new();
    assert_eq!(t.apply(TreeChange::Remove { path: vec![] }), Err(StreamError::InvalidPath));
    assert_eq!(t.apply(TreeChange::Remove { path: vec![0] }), Err(StreamError::InvalidPath));
    assert_eq!(
        t.apply(TreeChange::Add { path: vec![1], node: leaf(Value::Int(1)) }),
        Err(StreamError::InvalidPath)
    );
    t.apply(TreeChange::Add { path: vec![0], node: leaf(Value::Int(1)) }).unwrap();
    assert_eq!(
        t.apply(TreeChange::Add { path: vec![0, 2], node: leaf(Value::Int(2)) }),
        Err(StreamError::InvalidPath)
    );
    assert_eq!(
        t.apply(TreeChange::Replace { path: vec![1, 0], node: leaf(Value::Int(2)) }),
        Err(StreamError::InvalidPath)
    );
    assert_eq!(t.snapshot(), vec![leaf(Value::Int(1))]);
    assert_eq!(t.changes().subscribe(), 1);
}

#[test]
fn list_accessor_on_scalar_reports_both_kinds() {
    let mut d = DataStream::Value(ValueStream::new());
    d.mutate(DataChange::Value(ValueChange::Assign(Value::Int(7)))).unwrap();
    let mismatch = StreamError::VariantMismatch { expected: StreamKind::List, actual: StreamKind::Value };
    assert_eq!(d.try_get_list().err(), Some(mismatch));
    assert_eq!(d.try_get_list_mut().err(), Some(mismatch));
    assert_eq!(
        d.try_get_tree().err(),
        Some(StreamError::VariantMismatch { expected: StreamKind::Tree, actual: StreamKind::Value })
    );
    assert_eq!(d.snapshot(), DataStreamSnapshot::Value(Some(Value::Int(7))));
    assert!(d.try_get_value().is_ok());
}

#[test]
fn mutate_with_wrong_kind_is_refused() {
    let mut d = DataStream::List(ListStream::new());
    assert_eq!(
        d.mutate(DataChange::Value(ValueChange::Clear)),
        Err(StreamError::VariantMismatch { expected: StreamKind::List, actual: StreamKind::Value })
    );
    assert_eq!(d.snapshot(), DataStreamSnapshot::List(vec![]));
    d.mutate(DataChange::List(ListChange::Insert { index: 0, value: Value::Int(3) })).unwrap();
    assert_eq!(d.snapshot(), DataStreamSnapshot::List(vec![Value::Int(3)]));
    assert_eq!(d.kind(), StreamKind::List);
}

#[test]
fn typed_mut_accessors_reach_the_stream() {
    let mut d = DataStream::Tree(TreeStream::new());
    d.try_get_tree_mut()
        .unwrap()
        .apply(TreeChange::Add { path: vec![0], node: leaf(Value::Bool(false)) })
        .unwrap();
    assert_eq!(d.snapshot(), DataStreamSnapshot::Tree(vec![leaf(Value::Bool(false))]));
    assert!(d.try_get_value_mut().is_err());
    let mut v = DataStream::Value(ValueStream::new());
    v.try_get_value_mut().unwrap().set(Value::Int(1));
    assert_eq!(v.snapshot(), DataStreamSnapshot::Value(Some(Value::Int(1))));
    assert!(v.try_get_list_mut().is_err());
    assert!(d.destroy().is_ok());
    assert!(v.destroy().is_ok());
}

#[test]
fn program_source_path() {
    let p = ProgramSource::FilePath("plugins/echo.wasm".to_string());
    assert_eq!(p.path(), "plugins/echo.wasm");
}

#[test]
fn data_stream_subscription_sees_only_later_changes() {
    let mut d = DataStream::List(ListStream::new());
    d.mutate(DataChange::List(ListChange::Insert { index: 0, value: Value::Int(1) })).unwrap();
    let cursor = d.subscribe();
    assert_eq!(cursor, 1);
    assert!(d.can_record());
    d.mutate(DataChange::List(ListChange::Insert { index: 1, value: Value::Int(2) })).unwrap();
    assert_eq!(
        d.try_get_list().unwrap().changes().read(cursor),
        Ok(Some(&ListChange::Insert { index: 1, value: Value::Int(2) }))
    );
    assert_eq!(d.try_get_list().unwrap().changes().read(cursor + 1), Ok(None));
    assert_eq!(
        d.mutate(DataChange::List(ListChange::Replace { index: 5, value: Value::Int(0) })),
        Err(StreamError::OutOfRange { index: 5, len: 2 })
    );
}
