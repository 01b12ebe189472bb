use rinf_cli::codegen::{
    generate_class_extension_code, generate_class_interface_code, generate_interface_code,
    generate_shared_code, generate_top_code,
};
use rinf_cli::format::{Primitive, TypeExpr, TypeFormat};
use rinf_cli::scan::{scan, FieldDecl, Registry, SourceFile, SourceItem};
use rinf_cli::signal::{extract_signal_attribute, Attribute, RoleSet, SignalRole};

const TOP: &str = "// generated\nexport '../serde/serde.dart';\n\npart 'ping.dart';\n";

fn record(name: &str, markers: &[&str]) -> SourceItem {
    SourceItem::Struct {
        name: name.to_string(),
        attrs: vec![Attribute {
            path: "derive".to_string(),
            items: markers.iter().map(|s| s.to_string()).collect(),
        }],
        fields: vec![FieldDecl {
            name: Some("value".to_string()),
            ty: TypeExpr::Path { ident: "u32".to_string(), type_args: vec![] },
        }],
    }
}

fn registry(items: Vec<SourceItem>) -> Registry {
    scan(&vec![SourceFile { path: "lib.rs".to_string(), parsed: Ok(items) }]).unwrap()
}

fn class_source(name: &str) -> String {
    format!("part of 'generated.dart';\n\nclass {name} {{\n  const {name}();\n}}\n")
}

#[test]
fn ping_scenario() {
    let reg = registry(vec![record("Ping", &["DartSignal"])]);
    let d = &reg.declarations[0];
    assert_eq!(d.name, "Ping");
    assert_eq!(d.fields.len(), 1);
    assert_eq!(d.fields[0].name, "value");
    assert!(matches!(d.fields[0].format, TypeFormat::Primitive(Primitive::U32)));
    assert!(d.roles.contains(SignalRole::InboundRequest));
    assert!(!d.roles.contains(SignalRole::InboundRequestWithPayload));
    assert!(!d.roles.contains(SignalRole::OutboundEvent));
    assert!(!d.roles.contains(SignalRole::OutboundEventWithPayload));
    assert!(!d.roles.contains(SignalRole::Piece));

    let files = generate_interface_code(&reg, &vec![class_source("Ping")], TOP);
    let paths: Vec<&str> = files.iter().map(|f| f.path.as_str()).collect();
    assert_eq!(
        paths,
        vec![
            "lib/src/generated/ping_os.dart",
            "lib/src/generated/ping_web.dart",
            "lib/src/generated/ping.dart",
            "lib/src/generated/generated.dart",
            "lib/src/generated/signal_handlers.dart",
        ]
    );
    let os = &files[0].contents;
    assert_eq!(os.matches("void sendSignalToRust()").count(), 1);
    assert!(os.contains("symbol: 'rinf_send_dart_signal_ping'"));
    assert!(os.contains("final binary = Uint8List(0);"));
    assert!(files[1].contents.contains("'rinf_send_dart_signal_ping'"));
    assert_eq!(files[2].contents, class_source("Ping"));
    let shared = &files[4].contents;
    assert!(!shared.contains("Ping"));
    assert!(shared.ends_with("<String, void Function(Uint8List, Uint8List)>{\n};\n"));
}

#[test]
fn pong_scenario() {
    let reg = registry(vec![record("Pong", &["RustSignal"])]);
    let files = generate_interface_code(&reg, &vec![class_source("Pong")], TOP);
    let shared = &files[4].contents;
    assert!(shared.contains("\n  'Pong': (Uint8List messageBytes, Uint8List binary) {"));
    assert!(shared.contains("final message = Pong.bincodeDeserialize(messageBytes);"));
    assert!(shared.contains("pongStreamController.add(rustSignal);"));
    let class = &files[2].contents;
    assert!(class.contains(
        "class Pong {\n  static final rustSignalStream =\n      pongStreamController.stream.asBroadcastStream();\n"
    ));
    assert!(class.ends_with("\nfinal pongStreamController =\n    StreamController<RustSignal<Pong>>();\n"));
    assert!(!files[0].contents.contains("sendSignalToRust"));
}

#[test]
fn generation_is_repeatable() {
    let make = || registry(vec![record("Ping", &["DartSignal"]), record("Pong", &["RustSignal"])]);
    let sources = vec![class_source("Ping"), class_source("Pong")];
    let first = generate_interface_code(&make(), &sources, TOP);
    let second = generate_interface_code(&make(), &sources, TOP);
    assert_eq!(first.len(), second.len());
    for (a, b) in first.iter().zip(second.iter()) {
        assert_eq!(a.path, b.path);
        assert_eq!(a.contents, b.contents);
    }
}

#[test]
fn two_way_signal_gets_both_bindings() {
    let roles = extract_signal_attribute(&vec![Attribute {
        path: "derive".to_string(),
        items: vec!["DartSignalBinary".to_string(), "RustSignal".to_string()],
    }]);
    assert!(roles.is_inbound() && roles.is_outbound());
    let reg = registry(vec![record("Chat", &["DartSignalBinary", "RustSignal"])]);
    let files = generate_interface_code(&reg, &vec![class_source("Chat")], TOP);
    assert!(files[0].contents.contains("void sendSignalToRust(Uint8List binary)"));
    assert!(!files[0].contents.contains("Uint8List(0)"));
    assert!(files[4].contents.contains("'Chat': (Uint8List messageBytes"));
    assert!(files[2].contents.contains("static final rustSignalStream"));
}

#[test]
fn piece_only_gets_no_binding() {
    let reg = registry(vec![record("Shape", &["SignalPiece"])]);
    let files = generate_interface_code(&reg, &vec![class_source("Shape")], TOP);
    assert!(!files[0].contents.contains("extension"));
    assert!(!files[1].contents.contains("extension"));
    assert_eq!(files[2].contents, class_source("Shape"));
    assert!(!files[4].contents.contains("Shape"));
    assert!(files[3].contents.contains("export 'shape_os.dart'"));
}

#[test]
fn names_are_converted_for_files_and_symbols() {
    let mut roles = RoleSet::empty();
    roles.insert(SignalRole::InboundRequest);
    let (os, web) = generate_class_extension_code("MyMessage", roles);
    assert!(os.contains("extension MyMessageDartSignalExt on MyMessage {"));
    assert!(os.contains("'rinf_send_dart_signal_my_message'"));
    assert!(web.contains("'rinf_send_dart_signal_my_message'"));
    let mut out = RoleSet::empty();
    out.insert(SignalRole::OutboundEventWithPayload);
    let class = generate_class_interface_code("class MyMessage {\n}\n", "MyMessage", out);
    assert!(class.contains("myMessageStreamController.stream.asBroadcastStream()"));
    assert!(class.contains("StreamController<RustSignal<MyMessage>>"));
}

#[test]
fn class_head_is_patched_once() {
    let mut out = RoleSet::empty();
    out.insert(SignalRole::OutboundEvent);
    let existing = "class Pong {\n}\n// class Pong {\n";
    let class = generate_class_interface_code(existing, "Pong", out);
    assert_eq!(class.matches("static final rustSignalStream").count(), 1);
    assert!(class.starts_with("class Pong {\n  static final rustSignalStream"));
    let none = generate_class_interface_code("no class here\n", "Pong", out);
    assert!(none.starts_with("no class here\n\nfinal pongStreamController"));
}

#[test]
fn top_file_exports_every_declaration() {
    let reg = registry(vec![record("Ping", &["DartSignal"]), record("Pong", &["RustSignal"])]);
    let top = generate_top_code(TOP, &reg);
    assert_eq!(
        top,
        "// generated\nimport 'dart:async';\nimport 'package:rinf/rinf.dart';\n\nexport '../serde/serde.dart';\n\n\
export 'ping_os.dart'\n    if (dart.library.js_interop) 'ping_web.dart';\n\
export 'pong_os.dart'\n    if (dart.library.js_interop) 'pong_web.dart';\n\
\npart 'ping.dart';\npart 'signal_handlers.dart';\n"
    );
}

#[test]
fn dispatch_table_follows_registry_order() {
    let reg = registry(vec![
        record("Zed", &["RustSignal"]),
        record("Mid", &["DartSignal"]),
        record("Alpha", &["RustSignalBinary"]),
    ]);
    let shared = generate_shared_code(&reg);
    let zed = shared.find("'Zed'").unwrap();
    let alpha = shared.find("'Alpha'").unwrap();
    assert!(zed < alpha);
    assert!(!shared.contains("'Mid'"));
    assert!(shared.starts_with("part of 'generated.dart';\n"));
}
