use fuse_engine::error::EngineError;
use fuse_engine::fanout::{SegmentLoadScheduler, DEFAULT_SEGMENT_FANOUT};
use fuse_engine::io::snapshot_location;
use fuse_engine::locations::{LocationGenerator, PresetLocations};
use fuse_engine::plan::{Extras, PlanNode, ScanPlan, SelectPlan};
use fuse_engine::value::{ColumnType, DataField, DataSchema};
use std::sync::Arc;

fn names(n: usize) -> Vec<String> {
    (0..n).map(|i| format!("seg_{}", i)).collect()
}

#[test]
fn scheduler_caps_in_flight_loads_at_the_fan_out() {
    let mut sched = SegmentLoadScheduler::new(names(100), DEFAULT_SEGMENT_FANOUT);
    let mut started = Vec::new();
    let mut max_in_flight = 0;
    let mut done = 0;
    while done < 100 {
        while let Some(loc) = sched.start_next() {
            started.push(loc);
            assert!(sched.in_flight_count() <= 10);
            max_in_flight = max_in_flight.max(sched.in_flight_count());
        }
        let loc = started.pop().unwrap();
        assert!(sched.complete(&loc));
        done += 1;
    }
    assert_eq!(max_in_flight, 10);
    assert_eq!(sched.in_flight_count(), 0);
}

#[test]
fn scheduler_bound_is_the_smaller_of_fan_out_and_segment_count() {
    let mut small = SegmentLoadScheduler::new(names(3), DEFAULT_SEGMENT_FANOUT);
    let mut handed = 0;
    while small.start_next().is_some() {
        handed += 1;
    }
    assert_eq!(handed, 3);
    assert_eq!(small.in_flight_count(), 3);

    let mut large = SegmentLoadScheduler::new(names(25), DEFAULT_SEGMENT_FANOUT);
    let mut handed = 0;
    while large.start_next().is_some() {
        handed += 1;
    }
    assert_eq!(handed, 10);
}

#[test]
fn scheduler_rejects_a_completion_it_never_started() {
    let mut sched = SegmentLoadScheduler::new(names(2), DEFAULT_SEGMENT_FANOUT);
    assert!(!sched.complete("seg_0"));
    let loc = sched.start_next().unwrap();
    assert!(sched.complete(&loc));
    assert!(!sched.complete(&loc));
}

#[test]
fn preset_locations_hand_out_each_name_once() {
    let mut gen = PresetLocations::from_list(names(3)).unwrap();
    let a = gen.generate_location();
    let b = gen.generate_location();
    let c = gen.generate_location();
    let mut all = vec![a, b, c];
    all.sort();
    all.dedup();
    assert_eq!(all.len(), 3);
}

#[test]
fn preset_locations_refuse_duplicates() {
    let list = vec!["dup".to_string(), "other".to_string(), "dup".to_string()];
    assert!(PresetLocations::from_list(list).is_none());
}

#[test]
fn snapshot_locations_derive_from_the_identifier() {
    assert_eq!(snapshot_location("abc"), "_ss/abc");
    assert_eq!(snapshot_location(""), "_ss/");
}

fn scan_node() -> PlanNode {
    PlanNode::Scan(ScanPlan {
        schema: DataSchema {
            fields: vec![DataField { name: "x".to_string(), data_type: ColumnType::Int64 }],
        },
        push_down: Some(Extras { filters: vec![] }),
    })
}

#[test]
fn select_plan_exposes_and_replaces_its_input() {
    let mut plan = SelectPlan { input: Arc::new(scan_node()) };
    assert_eq!(plan.schema().fields.len(), 1);
    assert_eq!(plan.schema().fields[0].name, "x");

    let got = plan.input();
    match &*got {
        PlanNode::Scan(s) => assert_eq!(s.schema.fields[0].name, "x"),
        _ => panic!("expected the scan"),
    }

    let wider = PlanNode::Scan(ScanPlan {
        schema: DataSchema {
            fields: vec![
                DataField { name: "x".to_string(), data_type: ColumnType::Int64 },
                DataField { name: "y".to_string(), data_type: ColumnType::UInt64 },
            ],
        },
        push_down: None,
    });
    plan.set_input(&wider).unwrap();
    assert_eq!(plan.schema().fields.len(), 2);
    assert_eq!(plan.schema().fields[1].name, "y");

    let nested = SelectPlan { input: Arc::new(PlanNode::Select(plan)) };
    assert_eq!(nested.schema().fields.len(), 2);
}

#[test]
fn errors_carry_their_context() {
    let e = EngineError::StorageIo("a/loc".to_string());
    assert_eq!(e.context(), "a/loc");
    let e = EngineError::PredicateCompilation("col".to_string());
    assert_eq!(e.context(), "col");
    let e = EngineError::Serialization("seg".to_string());
    assert_eq!(e.context(), "seg");
    let e = EngineError::UnsupportedType("f".to_string());
    assert_eq!(e.context(), "f");
}
