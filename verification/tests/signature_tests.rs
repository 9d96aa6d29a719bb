use brane_host::error::HostError;
use brane_host::lifecycle::InstanceEvent::{Call, Drop, Instantiate, Link, Return, Trap};
use brane_host::lifecycle::InstanceState::{
    Compiled, Dropped, Instantiated, Linked, Running, Trapped,
};
use brane_host::lifecycle::{callable, step};
use brane_host::linker::{Import, ImportLinker, Shape};
use brane_host::sandbox::{call_outcome, numbers_of};
use brane_host::signature::{
    check_export, copy_kinds, same_kinds, signature_of, Native, Signature, Value, ValueKind,
};

fn function(params: Vec<ValueKind>, results: Vec<ValueKind>) -> Signature {
    Signature { params, results }
}

#[test]
fn host_types_stand_for_guest_kinds() {
    assert_eq!(signature_of::<u32, u32>(), function(vec![ValueKind::I32], vec![ValueKind::I32]));
    assert_eq!(signature_of::<i32, i32>(), signature_of::<u32, u32>());
    assert_eq!(signature_of::<u64, u32>(), function(vec![ValueKind::I64], vec![ValueKind::I32]));
    assert_eq!(signature_of::<(), u32>(), function(vec![], vec![ValueKind::I32]));
    assert_eq!(signature_of::<i64, ()>(), function(vec![ValueKind::I64], vec![]));
    assert_eq!(<() as Native>::value_kinds(), vec![]);
}

#[test]
fn signatures_match_only_kind_by_kind() {
    let declared = function(vec![ValueKind::I32], vec![ValueKind::I32]);
    assert!(signature_of::<u32, u32>().matches(&declared));
    assert!(signature_of::<i32, u32>().matches(&declared));
    assert!(!signature_of::<u64, u32>().matches(&declared));
    assert!(!signature_of::<u32, u64>().matches(&declared));
    assert!(!signature_of::<(), u32>().matches(&declared));
    assert!(!signature_of::<u32, ()>().matches(&declared));
    assert!(same_kinds(&vec![], &vec![]));
    assert!(!same_kinds(&vec![ValueKind::F32], &vec![ValueKind::I32]));
    assert!(!same_kinds(&vec![ValueKind::I32, ValueKind::I32], &vec![ValueKind::I32]));
    assert!(same_kinds(
        &vec![ValueKind::F64, ValueKind::V128, ValueKind::Ref],
        &vec![ValueKind::F64, ValueKind::V128, ValueKind::Ref]
    ));
}

#[test]
fn values_carry_host_integers_in_twos_complement() {
    assert_eq!(42u32.to_values(), vec![Value::I32(42)]);
    assert_eq!(u32::MAX.to_values(), vec![Value::I32(-1)]);
    assert_eq!(0x8000_0000u32.to_values(), vec![Value::I32(i32::MIN)]);
    assert_eq!((-5i32).to_values(), vec![Value::I32(-5)]);
    assert_eq!(u64::MAX.to_values(), vec![Value::I64(-1)]);
    assert_eq!(7i64.to_values(), vec![Value::I64(7)]);
    assert_eq!(().to_values(), vec![]);
    assert_eq!(u32::from_values(&vec![Value::I32(-1)]), Some(u32::MAX));
    assert_eq!(i32::from_values(&vec![Value::I32(-1)]), Some(-1));
    assert_eq!(u64::from_values(&vec![Value::I64(i64::MIN)]), Some(0x8000_0000_0000_0000));
    assert_eq!(i64::from_values(&vec![Value::I64(9)]), Some(9));
    assert_eq!(<() as Native>::from_values(&vec![]), Some(()));
}

#[test]
fn values_of_another_kind_or_count_are_not_read() {
    assert_eq!(u32::from_values(&vec![Value::I64(1)]), None);
    assert_eq!(u32::from_values(&vec![Value::F32(1)]), None);
    assert_eq!(u32::from_values(&vec![]), None);
    assert_eq!(u32::from_values(&vec![Value::I32(1), Value::I32(2)]), None);
    assert_eq!(i64::from_values(&vec![Value::I32(1)]), None);
    assert_eq!(u64::from_values(&vec![Value::F64(1)]), None);
    assert_eq!(<() as Native>::from_values(&vec![Value::I32(0)]), None);
}

#[test]
fn export_check_tells_missing_from_mismatched() {
    let declared = function(vec![ValueKind::I32], vec![ValueKind::I32]);
    assert_eq!(check_export::<u32, u32>(Some(&declared), "f"), Ok(()));
    assert_eq!(
        check_export::<u64, u32>(Some(&declared), "f"),
        Err(HostError::SignatureMismatch { name: "f".to_string() })
    );
    assert_eq!(
        check_export::<u32, u32>(None, "f"),
        Err(HostError::ExportNotFound { name: "f".to_string() })
    );
    let float = function(vec![ValueKind::F32], vec![ValueKind::I32]);
    assert_eq!(
        check_export::<u32, u32>(Some(&float), "g"),
        Err(HostError::SignatureMismatch { name: "g".to_string() })
    );
}

#[test]
fn call_outcome_reads_results_and_reports_traps() {
    assert_eq!(call_outcome::<u32>(Ok(vec![Some(Value::I32(-1))]), "f"), Ok(u32::MAX));
    assert_eq!(call_outcome::<()>(Ok(vec![]), "f"), Ok(()));
    assert_eq!(
        call_outcome::<u32>(Err("wasm trap: integer divide by zero".to_string()), "f"),
        Err(HostError::Trap { detail: "wasm trap: integer divide by zero".to_string() })
    );
    assert_eq!(
        call_outcome::<u32>(Ok(vec![Some(Value::I64(1))]), "f"),
        Err(HostError::SignatureMismatch { name: "f".to_string() })
    );
    assert_eq!(
        call_outcome::<u32>(Ok(vec![None]), "f"),
        Err(HostError::SignatureMismatch { name: "f".to_string() })
    );
    assert_eq!(
        call_outcome::<u32>(Ok(vec![]), "f"),
        Err(HostError::SignatureMismatch { name: "f".to_string() })
    );
    assert_eq!(numbers_of(&vec![Some(Value::I32(1)), Some(Value::F64(2))]), Some(vec![Value::I32(1), Value::F64(2)]));
    assert_eq!(numbers_of(&vec![Some(Value::I32(1)), None]), None);
    assert_eq!(numbers_of(&vec![]), Some(vec![]));
}

fn memory(minimum: u64, maximum: Option<u64>, shared: bool) -> Shape {
    Shape::Memory { minimum, maximum, shared }
}

fn import(namespace: &str, name: &str, shape: Shape) -> Import {
    Import { namespace: namespace.to_string(), name: name.to_string(), shape }
}

fn print_shape() -> Shape {
    Shape::Function(function(vec![ValueKind::I32, ValueKind::I32], vec![]))
}

#[test]
fn linker_resolves_what_was_defined() {
    let mut linker = ImportLinker::new();
    assert_eq!(linker.resolve("env", "memory"), None);
    linker.define("env", "memory", memory(50, Some(32768), true));
    linker.define("BraneEngine", "extern_be_print", print_shape());
    assert_eq!(linker.resolve("env", "memory"), Some(&memory(50, Some(32768), true)));
    assert_eq!(linker.resolve("BraneEngine", "extern_be_print"), Some(&print_shape()));
    assert_eq!(linker.resolve("env", "extern_be_print"), None);
    assert_eq!(linker.resolve("BraneEngine", "memory"), None);
}

#[test]
fn latest_definition_of_a_name_counts() {
    let mut linker = ImportLinker::new();
    linker.define("env", "memory", memory(1, Some(2), true));
    linker.define("env", "other", memory(7, None, false));
    linker.define("env", "memory", memory(50, Some(32768), true));
    assert_eq!(linker.resolve("env", "memory"), Some(&memory(50, Some(32768), true)));
    assert_eq!(linker.resolve("env", "other"), Some(&memory(7, None, false)));
}

#[test]
fn module_links_when_every_import_is_bound_exactly() {
    let mut linker = ImportLinker::new();
    linker.define("env", "memory", memory(50, Some(32768), true));
    linker.define("BraneEngine", "extern_be_print", print_shape());
    let imports = vec![
        import("BraneEngine", "extern_be_print", print_shape()),
        import("env", "memory", memory(50, Some(32768), true)),
    ];
    assert_eq!(linker.check(&imports), Ok(()));
    assert_eq!(linker.check(&vec![]), Ok(()));
    assert_eq!(ImportLinker::new().check(&vec![]), Ok(()));
}

#[test]
fn missing_import_is_a_link_error() {
    let mut linker = ImportLinker::new();
    linker.define("env", "memory", memory(50, Some(32768), true));
    let imports = vec![
        import("env", "memory", memory(50, Some(32768), true)),
        import("BraneEngine", "extern_be_print", print_shape()),
        import("BraneEngine", "other", print_shape()),
    ];
    assert_eq!(
        linker.check(&imports),
        Err(HostError::LinkError {
            namespace: "BraneEngine".to_string(),
            name: "extern_be_print".to_string(),
            detail: "not defined".to_string(),
        })
    );
}

#[test]
fn mismatched_import_is_a_link_error() {
    let mut linker = ImportLinker::new();
    linker.define("env", "memory", memory(50, Some(32768), true));
    linker.define("BraneEngine", "extern_be_print", print_shape());
    let wrong = |shape: Shape, namespace: &str, name: &str| {
        assert_eq!(
            linker.check(&vec![import(namespace, name, shape)]),
            Err(HostError::LinkError {
                namespace: namespace.to_string(),
                name: name.to_string(),
                detail: "defined with another shape".to_string(),
            })
        );
    };
    wrong(memory(49, Some(32768), true), "env", "memory");
    wrong(memory(50, Some(32767), true), "env", "memory");
    wrong(memory(50, None, true), "env", "memory");
    wrong(memory(50, Some(32768), false), "env", "memory");
    wrong(print_shape(), "env", "memory");
    wrong(memory(50, Some(32768), true), "BraneEngine", "extern_be_print");
    wrong(
        Shape::Function(function(vec![ValueKind::I32, ValueKind::I64], vec![])),
        "BraneEngine",
        "extern_be_print",
    );
    wrong(
        Shape::Function(function(vec![ValueKind::I32, ValueKind::I32], vec![ValueKind::I32])),
        "BraneEngine",
        "extern_be_print",
    );
    wrong(Shape::Other, "env", "memory");
}

#[test]
fn nothing_satisfies_an_import_the_host_does_not_provide() {
    let mut linker = ImportLinker::new();
    linker.define("env", "table", Shape::Other);
    assert!(!Shape::Other.satisfies(&Shape::Other));
    assert!(print_shape().satisfies(&print_shape()));
    assert!(memory(1, None, false).satisfies(&memory(1, None, false)));
    assert_eq!(
        linker.check(&vec![import("env", "table", Shape::Other)]),
        Err(HostError::LinkError {
            namespace: "env".to_string(),
            name: "table".to_string(),
            detail: "defined with another shape".to_string(),
        })
    );
}

#[test]
fn instance_follows_its_lifecycle() {
    assert_eq!(step(Compiled, Link), Some(Linked));
    assert_eq!(step(Linked, Instantiate), Some(Instantiated));
    assert_eq!(step(Instantiated, Call), Some(Running));
    assert_eq!(step(Running, Return), Some(Instantiated));
    assert_eq!(step(Running, Trap), Some(Trapped));
    assert_eq!(step(Trapped, Call), Some(Running));
    assert_eq!(step(Instantiated, Drop), Some(Dropped));
    assert_eq!(step(Trapped, Drop), Some(Dropped));
    assert_eq!(step(Compiled, Drop), Some(Dropped));
    assert_eq!(step(Linked, Drop), Some(Dropped));
}

#[test]
fn events_out_of_turn_are_refused() {
    assert_eq!(step(Compiled, Call), None);
    assert_eq!(step(Compiled, Instantiate), None);
    assert_eq!(step(Linked, Call), None);
    assert_eq!(step(Linked, Link), None);
    assert_eq!(step(Instantiated, Return), None);
    assert_eq!(step(Instantiated, Trap), None);
    assert_eq!(step(Running, Call), None);
    assert_eq!(step(Running, Drop), None);
    assert_eq!(step(Trapped, Return), None);
    for event in [Link, Instantiate, Call, Return, Trap, Drop] {
        assert_eq!(step(Dropped, event), None);
    }
    assert!(callable(Instantiated));
    assert!(callable(Trapped));
    for state in [Compiled, Linked, Running, Dropped] {
        assert!(!callable(state));
    }
}

#[test]
fn copies_say_the_same() {
    let kinds = vec![ValueKind::I32, ValueKind::F64, ValueKind::Ref];
    assert_eq!(copy_kinds(&kinds), kinds);
    assert_eq!(copy_kinds(&vec![]), vec![]);
    let signature = function(vec![ValueKind::I64], vec![ValueKind::I32, ValueKind::V128]);
    assert_eq!(signature.duplicate(), signature);
    assert_eq!(print_shape().duplicate(), print_shape());
    assert_eq!(memory(1, Some(2), true).duplicate(), memory(1, Some(2), true));
    assert_eq!(memory(1, None, false).duplicate(), memory(1, None, false));
    assert_eq!(Shape::Other.duplicate(), Shape::Other);
}
