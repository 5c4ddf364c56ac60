use commander_engine::datastream::{DataChange, DataStream, DataStreamSnapshot};
use commander_engine::list::{ListChange, ListStream};
use commander_engine::outputs::{OutputId, OutputSpec, Outputs, SpecChange};
use commander_engine::run::{fold_outcome, Outcome, OutcomeSlot};
use commander_engine::scalar::ValueStream;
use commander_engine::value::{StreamError, StreamKind, Value};

fn id(s: &str) -> OutputId {
    OutputId(s.to_string())
}

fn list_spec(name: &str) -> OutputSpec {
    OutputSpec { name: name.to_string(), stream: DataStream::List(ListStream::new()) }
}

#[test]
fn insert_then_remove_leaves_id_unknown() {
    let mut o = Outputs::new();
    let cursor = o.subscribe();
    o.insert(id("log"), list_spec("Log")).unwrap();
    assert!(o.get(&id("log")).is_ok());
    let removed = o.remove(&id("log")).unwrap();
    assert_eq!(removed.name, "Log");
    assert!(removed.stream.destroy().is_ok());
    assert_eq!(o.get(&id("log")).err(), Some(StreamError::NotFound));
    assert_eq!(o.len(), 0);
    assert_eq!(
        o.changes().read(cursor),
        Ok(Some(&SpecChange::Added { id: id("log"), name: "Log".to_string(), kind: StreamKind::List }))
    );
    assert_eq!(o.changes().read(cursor + 1), Ok(Some(&SpecChange::Removed { id: id("log") })));
    assert_eq!(o.changes().read(cursor + 2), Ok(None));
}

#[test]
fn registry_errors() {
    let mut o = Outputs::new();
    o.insert(id("a"), list_spec("A")).unwrap();
    assert_eq!(o.insert(id("a"), list_spec("again")), Err(StreamError::AlreadyPresent));
    assert_eq!(o.remove(&id("b")).err(), Some(StreamError::NotFound));
    assert_eq!(o.replace(id("b"), list_spec("B")).err(), Some(StreamError::NotFound));
    assert_eq!(
        o.mutate(&id("b"), DataChange::List(ListChange::Remove { index: 0 })),
        Err(StreamError::NotFound)
    );
    assert_eq!(
        o.mutate(&id("a"), DataChange::List(ListChange::Remove { index: 0 })),
        Err(StreamError::OutOfRange { index: 0, len: 0 })
    );
    assert_eq!(o.get(&id("a")).unwrap().name, "A");
    assert_eq!(o.changes().subscribe(), 1);
}

#[test]
fn replace_keeps_position_and_publishes() {
    let mut o = Outputs::new();
    o.insert(id("a"), list_spec("A")).unwrap();
    o.insert(id("b"), list_spec("B")).unwrap();
    let cursor = o.subscribe();
    let spec = OutputSpec { name: "B2".to_string(), stream: DataStream::Value(ValueStream::new()) };
    let prev = o.replace(id("b"), spec).unwrap();
    assert_eq!(prev.name, "B");
    let snap = o.snapshot();
    assert_eq!(snap.len(), 2);
    assert_eq!(snap[0].id, id("a"));
    assert_eq!(snap[1].id, id("b"));
    assert_eq!(snap[1].name, "B2");
    assert_eq!(snap[1].data, DataStreamSnapshot::Value(None));
    assert_eq!(
        o.changes().read(cursor),
        Ok(Some(&SpecChange::Replaced { id: id("b"), name: "B2".to_string(), kind: StreamKind::Value }))
    );
}

#[test]
fn run_with_one_list_output_completes_with_done() {
    let mut outputs = Outputs::new();
    let mut slot = OutcomeSlot::new();
    assert!(!slot.is_completed());
    outputs.insert(id("log"), list_spec("log")).unwrap();
    for v in [1i64, 2, 3] {
        let len = match outputs.get(&id("log")).unwrap().stream.snapshot() {
            DataStreamSnapshot::List(l) => l.len(),
            _ => unreachable!(),
        };
        outputs
            .mutate(&id("log"), DataChange::List(ListChange::Insert { index: len, value: Value::Int(v) }))
            .unwrap();
    }
    slot.complete(fold_outcome(Ok(Ok("done".to_string())))).unwrap();
    assert_eq!(slot.get(), Some(&Outcome::Success("done".to_string())));
    let snap = outputs.snapshot();
    assert_eq!(snap.len(), 1);
    assert_eq!(snap[0].id, id("log"));
    assert_eq!(
        snap[0].data,
        DataStreamSnapshot::List(vec![Value::Int(1), Value::Int(2), Value::Int(3)])
    );
}

#[test]
fn faulting_program_resolves_to_error() {
    let mut slot = OutcomeSlot::new();
    assert_eq!(slot.get(), None);
    slot.complete(fold_outcome(Err("wasm trap: unreachable".to_string()))).unwrap();
    assert!(slot.is_completed());
    assert_eq!(slot.get(), Some(&Outcome::ExecutionFault("wasm trap: unreachable".to_string())));
}

#[test]
fn declared_error_passes_through() {
    assert_eq!(
        fold_outcome(Ok(Err("bad input".to_string()))),
        Outcome::DeclaredError("bad input".to_string())
    );
    assert_eq!(fold_outcome(Ok(Ok("ok".to_string()))), Outcome::Success("ok".to_string()));
}

#[test]
fn every_reader_sees_the_first_outcome() {
    let mut slot = OutcomeSlot::new();
    let early = slot.get().map(|o| o.duplicate());
    assert_eq!(early, None);
    slot.complete(Outcome::Success("first".to_string())).unwrap();
    let readers: Vec<Outcome> = (0..5).map(|_| slot.get().unwrap().duplicate()).collect();
    assert_eq!(
        slot.complete(Outcome::ExecutionFault("late".to_string())).err(),
        Some(commander_engine::run::SlotError::AlreadyCompleted)
    );
    for r in readers {
        assert_eq!(r, Outcome::Success("first".to_string()));
    }
    assert_eq!(slot.get(), Some(&Outcome::Success("first".to_string())));
}
