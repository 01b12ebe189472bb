use rinf_cli::format::{to_type_format, ArrayLen, Primitive, TypeExpr, TypeFormat};
use rinf_cli::scan::{process_items, scan, FieldDecl, ScanError, SourceFile, SourceItem};
use rinf_cli::signal::{extract_signal_attribute, Attribute, SignalRole};

fn path(ident: &str, args: Vec<TypeExpr>) -> TypeExpr {
    TypeExpr::Path { ident: ident.to_string(), type_args: args }
}

fn derive(items: &[&str]) -> Attribute {
    Attribute { path: "derive".to_string(), items: items.iter().map(|s| s.to_string()).collect() }
}

fn field(name: &str, ty: TypeExpr) -> FieldDecl {
    FieldDecl { name: Some(name.to_string()), ty }
}

fn record(name: &str, attrs: Vec<Attribute>, fields: Vec<FieldDecl>) -> SourceItem {
    SourceItem::Struct { name: name.to_string(), attrs, fields }
}

fn file(path: &str, items: Vec<SourceItem>) -> SourceFile {
    SourceFile { path: path.to_string(), parsed: Ok(items) }
}

#[test]
fn primitives_resolve_by_exact_name() {
    let cases = [
        ("u8", Primitive::U8),
        ("u16", Primitive::U16),
        ("u32", Primitive::U32),
        ("u64", Primitive::U64),
        ("u128", Primitive::U128),
        ("i8", Primitive::I8),
        ("i16", Primitive::I16),
        ("i32", Primitive::I32),
        ("i64", Primitive::I64),
        ("i128", Primitive::I128),
        ("f32", Primitive::F32),
        ("f64", Primitive::F64),
        ("bool", Primitive::Bool),
        ("char", Primitive::Char),
        ("String", Primitive::Str),
    ];
    for (name, p) in cases {
        match to_type_format(&path(name, vec![])) {
            TypeFormat::Primitive(q) => assert_eq!(q, p),
            other => panic!("{name} resolved to {other:?}"),
        }
    }
    match to_type_format(&path("U32", vec![])) {
        TypeFormat::NamedReference(n) => assert_eq!(n, "U32"),
        other => panic!("case folded: {other:?}"),
    }
}

#[test]
fn generics_resolve_recursively() {
    let ty = path("Option", vec![path("Vec", vec![path("u8", vec![])])]);
    let f = to_type_format(&ty);
    assert_eq!(f.signature(), "Option<Vec<u8>>");
    let map = path("BTreeMap", vec![path("String", vec![]), path("Pong", vec![])]);
    match to_type_format(&map) {
        TypeFormat::Dictionary { key, value } => {
            assert!(matches!(*key, TypeFormat::Primitive(Primitive::Str)));
            assert!(matches!(*value, TypeFormat::NamedReference(ref n) if n == "Pong"));
        }
        other => panic!("not a map: {other:?}"),
    }
}

#[test]
fn malformed_generics_become_unresolved_placeholders() {
    match to_type_format(&path("Option", vec![])) {
        TypeFormat::Unresolved(t) => assert_eq!(t, "Option<?>"),
        other => panic!("{other:?}"),
    }
    match to_type_format(&path("Vec", vec![])) {
        TypeFormat::Unresolved(t) => assert_eq!(t, "Vec<?>"),
        other => panic!("{other:?}"),
    }
    match to_type_format(&path("BTreeMap", vec![path("u8", vec![])])) {
        TypeFormat::Unresolved(t) => assert_eq!(t, "BTreeMap<?, ?>"),
        other => panic!("{other:?}"),
    }
}

#[test]
fn arrays_and_tuples_resolve() {
    let arr = TypeExpr::Array {
        elem: Box::new(path("u32", vec![])),
        len: ArrayLen::Int(Some(16)),
        text: "[u32 ; 16]".to_string(),
    };
    match to_type_format(&arr) {
        TypeFormat::FixedArray { content, size } => {
            assert_eq!(size, 16);
            assert!(matches!(*content, TypeFormat::Primitive(Primitive::U32)));
        }
        other => panic!("{other:?}"),
    }
    let odd = TypeExpr::Array {
        elem: Box::new(path("u32", vec![])),
        len: ArrayLen::Expr,
        text: "[u32 ; N]".to_string(),
    };
    match to_type_format(&odd) {
        TypeFormat::NamedReference(t) => assert_eq!(t, "[u32 ; N]"),
        other => panic!("{other:?}"),
    }
    let tuple = TypeExpr::Tuple { elems: vec![path("u8", vec![]), path("bool", vec![])] };
    assert_eq!(to_type_format(&tuple).signature(), "(u8, bool)");
    let other = TypeExpr::Other { text: "& 'static str".to_string() };
    match to_type_format(&other) {
        TypeFormat::NamedReference(t) => assert_eq!(t, "& 'static str"),
        f => panic!("{f:?}"),
    }
}

#[test]
fn plain_signatures_round_trip() {
    let ty = path(
        "BTreeMap",
        vec![
            path("String", vec![]),
            TypeExpr::Tuple {
                elems: vec![
                    path("Option", vec![path("i64", vec![])]),
                    TypeExpr::Array {
                        elem: Box::new(path("u8", vec![])),
                        len: ArrayLen::Int(Some(120)),
                        text: "[u8 ; 120]".to_string(),
                    },
                ],
            },
        ],
    );
    assert_eq!(to_type_format(&ty).signature(), "BTreeMap<String, (Option<i64>, [u8; 120])>");
    let empty = TypeExpr::Tuple { elems: vec![] };
    assert_eq!(to_type_format(&empty).signature(), "()");
}

#[test]
fn markers_map_to_roles() {
    let roles = extract_signal_attribute(&vec![
        derive(&["Debug", "SignalPiece", "DartSignal"]),
        derive(&["DartSignalBinary", "RustSignal", "RustSignalBinary", "DartSignal"]),
    ]);
    assert!(roles.contains(SignalRole::Piece));
    assert!(roles.contains(SignalRole::InboundRequest));
    assert!(roles.contains(SignalRole::InboundRequestWithPayload));
    assert!(roles.contains(SignalRole::OutboundEvent));
    assert!(roles.contains(SignalRole::OutboundEventWithPayload));

    let only_rust = extract_signal_attribute(&vec![derive(&["RustSignal"])]);
    assert!(only_rust.contains(SignalRole::OutboundEvent));
    assert!(!only_rust.contains(SignalRole::OutboundEventWithPayload));
}

#[test]
fn markers_outside_derive_are_ignored() {
    let attr = Attribute { path: "serde".to_string(), items: vec!["DartSignal".to_string()] };
    let roles = extract_signal_attribute(&vec![attr, derive(&["Clone", "FutureMarker"])]);
    assert!(roles.is_empty());
}

#[test]
fn only_marked_records_are_registered() {
    let items = vec![
        record("Ping", vec![derive(&["DartSignal"])], vec![field("value", path("u32", vec![]))]),
        record("Plain", vec![derive(&["Debug"])], vec![field("value", path("u32", vec![]))]),
        SourceItem::Module {
            items: vec![SourceItem::Module {
                items: vec![record("Deep", vec![derive(&["SignalPiece"])], vec![])],
            }],
        },
        SourceItem::Other,
    ];
    let reg = scan(&vec![file("src/lib.rs", items)]).unwrap();
    let names: Vec<&str> = reg.declarations.iter().map(|d| d.name.as_str()).collect();
    assert_eq!(names, vec!["Ping", "Deep"]);
    assert!(reg.get("Plain").is_none());
    assert!(reg.get("ping").is_none());
    assert_eq!(reg.get("Deep").unwrap().fields.len(), 0);
    assert_eq!(reg.len(), 2);
}

#[test]
fn fields_keep_declaration_order() {
    let items = vec![record(
        "Order",
        vec![derive(&["RustSignal"])],
        vec![
            field("zeta", path("u8", vec![])),
            field("alpha", path("String", vec![])),
            FieldDecl { name: None, ty: path("bool", vec![]) },
            field("mid", path("Vec", vec![path("i32", vec![])])),
        ],
    )];
    let mut out = Vec::new();
    process_items(&items, &mut out);
    let names: Vec<&str> = out[0].fields.iter().map(|f| f.name.as_str()).collect();
    assert_eq!(names, vec!["zeta", "alpha", "mid"]);
    assert_eq!(out[0].fields[2].format.signature(), "Vec<i32>");
}

#[test]
fn registry_follows_file_order() {
    let a = file("a.rs", vec![record("Zed", vec![derive(&["SignalPiece"])], vec![])]);
    let b = file("b.rs", vec![record("Alpha", vec![derive(&["SignalPiece"])], vec![])]);
    let reg = scan(&vec![a, b]).unwrap();
    let names: Vec<&str> = reg.declarations.iter().map(|d| d.name.as_str()).collect();
    assert_eq!(names, vec!["Zed", "Alpha"]);
}

#[test]
fn parse_failure_aborts_scan() {
    let good = file("a.rs", vec![record("Ping", vec![derive(&["DartSignal"])], vec![])]);
    let bad = SourceFile { path: "b.rs".to_string(), parsed: Err("expected `;`".to_string()) };
    let worse = SourceFile { path: "c.rs".to_string(), parsed: Err("unexpected end".to_string()) };
    match scan(&vec![good, bad, worse]) {
        Err(ScanError::Parse { path, message }) => {
            assert_eq!(path, "b.rs");
            assert_eq!(message, "expected `;`");
        }
        other => panic!("{other:?}"),
    }
}

#[test]
fn duplicate_names_are_a_scan_error() {
    let a = file("a.rs", vec![record("Ping", vec![derive(&["DartSignal"])], vec![])]);
    let b = file(
        "b.rs",
        vec![
            record("Ping", vec![derive(&["RustSignal"])], vec![]),
            record("Pong", vec![derive(&["RustSignal"])], vec![]),
        ],
    );
    match scan(&vec![a, b]) {
        Err(ScanError::DuplicateName(n)) => assert_eq!(n, "Ping"),
        other => panic!("{other:?}"),
    }
    let unmarked_twin = file("c.rs", vec![record("Ping", vec![], vec![])]);
    let a2 = file("a.rs", vec![record("Ping", vec![derive(&["DartSignal"])], vec![])]);
    assert!(scan(&vec![a2, unmarked_twin]).is_ok());
}

#[test]
fn empty_tree_gives_empty_registry() {
    let reg = scan(&vec![]).unwrap();
    assert_eq!(reg.len(), 0);
}
