use script_host::context::{build, Capability, CapabilityRegistry, ExecutionContext};
use script_host::effects::{GuestEffects, Settlement, Task};
use script_host::executor::{
    Completion, EvalReport, HarnessError, ModuleCompletion, ModuleHandle, ModuleRun,
};
use script_host::marshal::{from_dynamic, to_dynamic, Mismatch, PathSeg};
use script_host::module::ModuleState;
use script_host::shape::{Kind, Shape};
use script_host::value::{DynValue, HostValue};

fn no_effects() -> GuestEffects {
    GuestEffects { writes: Vec::new(), scheduled: Vec::new(), settled: Vec::new() }
}

fn value_report(v: DynValue) -> EvalReport {
    EvalReport { effects: no_effects(), completion: Completion::Value(v) }
}

fn fresh_context() -> ExecutionContext {
    build(CapabilityRegistry { capabilities: Vec::new() }).unwrap()
}

fn sample_host_value() -> HostValue {
    HostValue::Object(vec![
        ("age".to_string(), HostValue::Int(41)),
        ("name".to_string(), HostValue::Str("ada".to_string())),
        (
            "tags".to_string(),
            HostValue::Array(vec![HostValue::Bool(true), HostValue::Null]),
        ),
    ])
}

#[test]
fn round_trip_preserves_host_values() {
    let v = sample_host_value();
    let shape = Shape::Object(vec![
        ("age".to_string(), Shape::Int),
        ("name".to_string(), Shape::Str),
    ]);
    // Project the two primitive fields through the guest representation.
    let d = to_dynamic(&v).unwrap();
    let back = from_dynamic(&d, &shape).unwrap();
    assert_eq!(
        back,
        HostValue::Object(vec![
            ("age".to_string(), HostValue::Int(41)),
            ("name".to_string(), HostValue::Str("ada".to_string())),
        ])
    );
}

#[test]
fn round_trip_full_shape() {
    let v = sample_host_value();
    let shape = Shape::Object(vec![
        ("age".to_string(), Shape::Int),
        ("name".to_string(), Shape::Str),
        (
            "tags".to_string(),
            Shape::Array(Box::new(Shape::Bool)),
        ),
    ]);
    let d = to_dynamic(&v).unwrap();
    // The second tag is Null, not Bool, so the full shape must reject it
    // with the exact path.
    let err = from_dynamic(&d, &shape).unwrap_err();
    assert_eq!(
        err.path,
        vec![PathSeg::Field("tags".to_string()), PathSeg::Index(1)]
    );
    assert_eq!(
        err.mismatch,
        Mismatch::WrongKind { expected: Kind::Bool, actual: Kind::Null }
    );
}

#[test]
fn round_trip_scalar_values() {
    for v in [
        HostValue::Null,
        HostValue::Bool(false),
        HostValue::Int(-7),
        HostValue::Str("hej".to_string()),
    ] {
        let shape = match &v {
            HostValue::Null => Shape::Null,
            HostValue::Bool(_) => Shape::Bool,
            HostValue::Int(_) => Shape::Int,
            _ => Shape::Str,
        };
        let d = to_dynamic(&v).unwrap();
        assert_eq!(from_dynamic(&d, &shape).unwrap(), v);
    }
}

#[test]
fn missing_field_is_named_in_the_path() {
    let d = DynValue::Object(vec![("x".to_string(), DynValue::Int(1))]);
    let shape = Shape::Object(vec![
        ("x".to_string(), Shape::Int),
        ("y".to_string(), Shape::Str),
    ]);
    let err = from_dynamic(&d, &shape).unwrap_err();
    assert_eq!(err.path, vec![PathSeg::Field("y".to_string())]);
    assert_eq!(err.mismatch, Mismatch::MissingField);
}

#[test]
fn unsafe_integers_are_rejected_not_truncated() {
    let err = from_dynamic(&DynValue::Int(i64::MAX), &Shape::Int).unwrap_err();
    assert_eq!(err.mismatch, Mismatch::UnsafeInt);
    assert!(err.path.is_empty());
    let err = to_dynamic(&HostValue::Int(i64::MIN)).unwrap_err();
    assert_eq!(err.mismatch, Mismatch::UnsafeInt);
    // The largest exactly-representable integer still crosses.
    assert_eq!(
        from_dynamic(&DynValue::Int(9007199254740991), &Shape::Int).unwrap(),
        HostValue::Int(9007199254740991)
    );
}

#[test]
fn safe_integer_boundaries_cross_exactly() {
    assert_eq!(
        from_dynamic(&DynValue::Int(-9007199254740991), &Shape::Int).unwrap(),
        HostValue::Int(-9007199254740991)
    );
    let err = from_dynamic(&DynValue::Int(-9007199254740992), &Shape::Int).unwrap_err();
    assert_eq!(err.mismatch, Mismatch::UnsafeInt);
    let err = from_dynamic(&DynValue::Int(9007199254740992), &Shape::Int).unwrap_err();
    assert_eq!(err.mismatch, Mismatch::UnsafeInt);
}

#[test]
fn guest_only_kinds_do_not_marshal() {
    let err = from_dynamic(&DynValue::Function(3), &Shape::Int).unwrap_err();
    assert_eq!(
        err.mismatch,
        Mismatch::WrongKind { expected: Kind::Int, actual: Kind::Function }
    );
    let err = from_dynamic(&DynValue::Pending(4), &Shape::Str).unwrap_err();
    assert_eq!(
        err.mismatch,
        Mismatch::WrongKind { expected: Kind::Str, actual: Kind::Pending }
    );
}

#[test]
fn repeated_global_writes_update_in_place() {
    let mut ctx = fresh_context();
    let report = EvalReport {
        effects: GuestEffects {
            writes: vec![
                ("x".to_string(), DynValue::Int(1)),
                ("y".to_string(), DynValue::Int(2)),
                ("x".to_string(), DynValue::Int(3)),
            ],
            scheduled: Vec::new(),
            settled: Vec::new(),
        },
        completion: Completion::Value(DynValue::Null),
    };
    ctx.run_script(report, &Shape::Null).unwrap();
    assert_eq!(ctx.global(&"x".to_string()), Some(&DynValue::Int(3)));
    assert_eq!(ctx.global(&"y".to_string()), Some(&DynValue::Int(2)));
}

#[test]
fn wrong_kind_in_array_carries_the_index() {
    let d = DynValue::Array(vec![DynValue::Int(1), DynValue::Str("x".to_string())]);
    let err = from_dynamic(&d, &Shape::Array(Box::new(Shape::Int))).unwrap_err();
    assert_eq!(err.path, vec![PathSeg::Index(1)]);
    assert_eq!(
        err.mismatch,
        Mismatch::WrongKind { expected: Kind::Int, actual: Kind::Str }
    );
}

#[test]
fn build_installs_capability_bindings_in_order() {
    let registry = CapabilityRegistry {
        capabilities: vec![
            Capability {
                name: "web".to_string(),
                bindings: vec![("fetch".to_string(), DynValue::Function(1))],
            },
            Capability {
                name: "crypto".to_string(),
                bindings: vec![("digest".to_string(), DynValue::Function(2))],
            },
        ],
    };
    let ctx = build(registry).unwrap();
    assert_eq!(ctx.global(&"fetch".to_string()), Some(&DynValue::Function(1)));
    assert_eq!(ctx.global(&"digest".to_string()), Some(&DynValue::Function(2)));
    assert_eq!(ctx.global(&"absent".to_string()), None);
}

#[test]
fn build_rejects_duplicate_bindings() {
    let registry = CapabilityRegistry {
        capabilities: vec![
            Capability {
                name: "one".to_string(),
                bindings: vec![("shared".to_string(), DynValue::Int(1))],
            },
            Capability {
                name: "two".to_string(),
                bindings: vec![("shared".to_string(), DynValue::Int(2))],
            },
        ],
    };
    let err = build(registry).unwrap_err();
    assert_eq!(err.binding, "shared".to_string());
}

#[test]
fn scripts_share_one_global_namespace() {
    let mut ctx = fresh_context();
    // First script: `globalThis.x = 1`, completing with undefined.
    let first = EvalReport {
        effects: GuestEffects {
            writes: vec![("x".to_string(), DynValue::Int(1))],
            scheduled: Vec::new(),
            settled: Vec::new(),
        },
        completion: Completion::Value(DynValue::Null),
    };
    assert_eq!(ctx.run_script(first, &Shape::Null).unwrap(), HostValue::Null);
    // Second script: `x + 1`. The engine reads the shared namespace the
    // first run left behind; this test plays the engine.
    let x = match ctx.global(&"x".to_string()).unwrap() {
        DynValue::Int(n) => *n,
        other => panic!("expected an integer binding, got {:?}", other),
    };
    let second = value_report(DynValue::Int(x + 1));
    assert_eq!(ctx.run_script(second, &Shape::Int).unwrap(), HostValue::Int(2));
}

#[test]
fn unknown_global_on_fresh_context_surfaces_as_script_failure() {
    let mut ctx = fresh_context();
    // `x + 1` alone: the engine finds no binding and throws.
    assert_eq!(ctx.global(&"x".to_string()), None);
    let report = EvalReport {
        effects: no_effects(),
        completion: Completion::Threw("ReferenceError: x is not defined".to_string()),
    };
    match ctx.run_script(report, &Shape::Int).unwrap_err() {
        HarnessError::ScriptExecution { message } => {
            assert_eq!(message, "ReferenceError: x is not defined".to_string());
        }
        other => panic!("expected a script failure, got {:?}", other),
    }
}

#[test]
fn pending_value_settles_while_draining() {
    let mut ctx = fresh_context();
    // The script completes with a pending handle; a scheduled
    // continuation settles it.
    let report = EvalReport {
        effects: GuestEffects {
            writes: Vec::new(),
            scheduled: vec![Task {
                effects: GuestEffects {
                    writes: Vec::new(),
                    scheduled: Vec::new(),
                    settled: vec![(7, Settlement::Fulfilled(DynValue::Str("done".to_string())))],
                },
            }],
            settled: Vec::new(),
        },
        completion: Completion::Value(DynValue::Pending(7)),
    };
    assert_eq!(
        ctx.run_script(report, &Shape::Str).unwrap(),
        HostValue::Str("done".to_string())
    );
}

#[test]
fn pending_value_settles_through_nested_scheduling() {
    let mut ctx = fresh_context();
    // The settling continuation is itself scheduled by another task.
    let inner = Task {
        effects: GuestEffects {
            writes: vec![("done".to_string(), DynValue::Bool(true))],
            scheduled: Vec::new(),
            settled: vec![(3, Settlement::Fulfilled(DynValue::Int(12)))],
        },
    };
    let outer = Task {
        effects: GuestEffects {
            writes: Vec::new(),
            scheduled: vec![inner],
            settled: Vec::new(),
        },
    };
    let report = EvalReport {
        effects: GuestEffects {
            writes: Vec::new(),
            scheduled: vec![outer],
            settled: Vec::new(),
        },
        completion: Completion::Value(DynValue::Pending(3)),
    };
    assert_eq!(ctx.run_script(report, &Shape::Int).unwrap(), HostValue::Int(12));
    // Effects of nested tasks are fully visible once the call returns.
    assert_eq!(ctx.global(&"done".to_string()), Some(&DynValue::Bool(true)));
}

#[test]
fn unsettled_pending_value_is_a_script_failure() {
    let mut ctx = fresh_context();
    let report = value_report(DynValue::Pending(9));
    match ctx.run_script(report, &Shape::Int).unwrap_err() {
        HarnessError::ScriptExecution { message } => {
            assert_eq!(message, "pending value did not settle before quiescence".to_string());
        }
        other => panic!("expected a script failure, got {:?}", other),
    }
}

#[test]
fn rejected_settlement_surfaces_the_cause() {
    let mut ctx = fresh_context();
    let report = EvalReport {
        effects: GuestEffects {
            writes: Vec::new(),
            scheduled: vec![Task {
                effects: GuestEffects {
                    writes: Vec::new(),
                    scheduled: Vec::new(),
                    settled: vec![(1, Settlement::Rejected("boom".to_string()))],
                },
            }],
            settled: Vec::new(),
        },
        completion: Completion::Value(DynValue::Pending(1)),
    };
    match ctx.run_script(report, &Shape::Int).unwrap_err() {
        HarnessError::ScriptExecution { message } => assert_eq!(message, "boom".to_string()),
        other => panic!("expected a script failure, got {:?}", other),
    }
}

#[test]
fn settled_value_of_wrong_shape_is_a_conversion_error() {
    let mut ctx = fresh_context();
    let report = value_report(DynValue::Str("not a number".to_string()));
    match ctx.run_script(report, &Shape::Int).unwrap_err() {
        HarnessError::Conversion(e) => {
            assert_eq!(e.mismatch, Mismatch::WrongKind { expected: Kind::Int, actual: Kind::Str });
        }
        other => panic!("expected a conversion error, got {:?}", other),
    }
}

#[test]
fn executor_calls_are_rejected_while_busy() {
    let mut ctx = fresh_context();
    ctx.begin_execution().unwrap();
    assert!(ctx.is_busy());
    match ctx.run_script(value_report(DynValue::Null), &Shape::Null).unwrap_err() {
        HarnessError::ContextBusy => {}
        other => panic!("expected the busy rejection, got {:?}", other),
    }
    let run = ModuleRun {
        deps: Vec::new(),
        effects: no_effects(),
        completion: ModuleCompletion::Evaluated(Vec::new()),
    };
    match ctx.run_module("m.js".to_string(), "".to_string(), run).unwrap_err() {
        HarnessError::ContextBusy => {}
        other => panic!("expected the busy rejection, got {:?}", other),
    }
    match ctx.begin_execution().unwrap_err() {
        HarnessError::ContextBusy => {}
        other => panic!("expected the busy rejection, got {:?}", other),
    }
    ctx.end_execution();
    assert!(!ctx.is_busy());
    assert_eq!(ctx.run_script(value_report(DynValue::Null), &Shape::Null).unwrap(), HostValue::Null);
}

#[test]
fn module_exports_are_retrievable_and_stable() {
    let mut ctx = fresh_context();
    // `export const greeting = "hi"`
    let run = ModuleRun {
        deps: Vec::new(),
        effects: no_effects(),
        completion: ModuleCompletion::Evaluated(vec![(
            "greeting".to_string(),
            DynValue::Str("hi".to_string()),
        )]),
    };
    let handle = ctx.run_module("mod.js".to_string(), "export const greeting = 'hi';".to_string(), run).unwrap();
    assert_eq!(handle.state, ModuleState::Evaluated);
    let name = "greeting".to_string();
    let first = ctx.get_export(handle, &name, &Shape::Str).unwrap();
    let second = ctx.get_export(handle, &name, &Shape::Str).unwrap();
    assert_eq!(first, HostValue::Str("hi".to_string()));
    assert_eq!(first, second);
    match ctx.get_export(handle, &"missing".to_string(), &Shape::Str).unwrap_err() {
        HarnessError::ExportNotFound { name } => assert_eq!(name, "missing".to_string()),
        other => panic!("expected a missing export, got {:?}", other),
    }
}

#[test]
fn failed_module_is_isolated_from_later_modules() {
    let mut ctx = fresh_context();
    let failing = ModuleRun {
        deps: Vec::new(),
        effects: no_effects(),
        completion: ModuleCompletion::Threw("TypeError: broken".to_string()),
    };
    match ctx.run_module("a.js".to_string(), "throw new TypeError('broken');".to_string(), failing)
        .unwrap_err()
    {
        HarnessError::ModuleEvaluation { message } => {
            assert_eq!(message, "TypeError: broken".to_string());
        }
        other => panic!("expected a module failure, got {:?}", other),
    }
    // The same context still evaluates an independent module.
    let ok = ModuleRun {
        deps: Vec::new(),
        effects: no_effects(),
        completion: ModuleCompletion::Evaluated(vec![(
            "answer".to_string(),
            DynValue::Int(42),
        )]),
    };
    let handle = ctx.run_module("b.js".to_string(), "export const answer = 42;".to_string(), ok)
        .unwrap();
    assert_eq!(handle.state, ModuleState::Evaluated);
    assert_eq!(
        ctx.get_export(handle, &"answer".to_string(), &Shape::Int).unwrap(),
        HostValue::Int(42)
    );
}

#[test]
fn reading_exports_of_a_failed_module_is_an_invalid_state() {
    let mut ctx = fresh_context();
    let failing = ModuleRun {
        deps: Vec::new(),
        effects: no_effects(),
        completion: ModuleCompletion::Threw("boom".to_string()),
    };
    ctx.run_module("a.js".to_string(), "throw 'boom';".to_string(), failing).unwrap_err();
    // The failed module sits at index 0 of the table.
    let stale = ModuleHandle { index: 0, state: ModuleState::Failed };
    match ctx.get_export(stale, &"x".to_string(), &Shape::Int).unwrap_err() {
        HarnessError::InvalidState { state } => assert_eq!(state, ModuleState::Failed),
        other => panic!("expected an invalid state, got {:?}", other),
    }
    // A handle past the table's end is a programming error too.
    let dangling = ModuleHandle { index: 9, state: ModuleState::Evaluated };
    assert!(matches!(
        ctx.get_export(dangling, &"x".to_string(), &Shape::Int),
        Err(HarnessError::InvalidState { .. })
    ));
}

#[test]
fn module_identifiers_are_unique_per_context() {
    let mut ctx = fresh_context();
    let run = ModuleRun {
        deps: Vec::new(),
        effects: no_effects(),
        completion: ModuleCompletion::Evaluated(Vec::new()),
    };
    ctx.run_module("m.js".to_string(), "".to_string(), run).unwrap();
    let again = ModuleRun {
        deps: Vec::new(),
        effects: no_effects(),
        completion: ModuleCompletion::Evaluated(Vec::new()),
    };
    match ctx.run_module("m.js".to_string(), "".to_string(), again).unwrap_err() {
        HarnessError::DuplicateModule { id } => assert_eq!(id, "m.js".to_string()),
        other => panic!("expected a duplicate identifier, got {:?}", other),
    }
}

#[test]
fn missing_dependency_fails_the_module_during_linking() {
    let mut ctx = fresh_context();
    let run = ModuleRun {
        deps: vec!["lib.js".to_string()],
        effects: no_effects(),
        completion: ModuleCompletion::Evaluated(Vec::new()),
    };
    match ctx.run_module("app.js".to_string(), "import 'lib.js';".to_string(), run).unwrap_err() {
        HarnessError::ModuleEvaluation { message } => assert_eq!(message, "lib.js".to_string()),
        other => panic!("expected a module failure, got {:?}", other),
    }
}

#[test]
fn evaluated_dependencies_satisfy_linking() {
    let mut ctx = fresh_context();
    let dep = ModuleRun {
        deps: Vec::new(),
        effects: no_effects(),
        completion: ModuleCompletion::Evaluated(vec![(
            "helper".to_string(),
            DynValue::Function(5),
        )]),
    };
    ctx.run_module("lib.js".to_string(), "export function helper() {}".to_string(), dep).unwrap();
    let run = ModuleRun {
        deps: vec!["lib.js".to_string()],
        effects: no_effects(),
        completion: ModuleCompletion::Evaluated(vec![("ok".to_string(), DynValue::Bool(true))]),
    };
    let handle = ctx.run_module("app.js".to_string(), "import 'lib.js';".to_string(), run).unwrap();
    assert_eq!(
        ctx.get_export(handle, &"ok".to_string(), &Shape::Bool).unwrap(),
        HostValue::Bool(true)
    );
}

#[test]
fn module_evaluation_drains_scheduled_work_before_returning() {
    let mut ctx = fresh_context();
    let run = ModuleRun {
        deps: Vec::new(),
        effects: GuestEffects {
            writes: vec![("phase".to_string(), DynValue::Int(1))],
            scheduled: vec![Task {
                effects: GuestEffects {
                    writes: vec![("phase".to_string(), DynValue::Int(2))],
                    scheduled: Vec::new(),
                    settled: Vec::new(),
                },
            }],
            settled: Vec::new(),
        },
        completion: ModuleCompletion::Evaluated(Vec::new()),
    };
    ctx.run_module("m.js".to_string(), "".to_string(), run).unwrap();
    // The queued continuation ran before the call returned: the later
    // write to the same binding won.
    assert_eq!(ctx.global(&"phase".to_string()), Some(&DynValue::Int(2)));
}
