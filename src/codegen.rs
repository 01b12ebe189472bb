//! Renders the Dart binding files for a schema registry. Rendering is a pure
//! function of the registry and of the files that the serialization
//! generator wrote before; writing the results out is left to the caller.

use vstd::prelude::*;
use crate::naming::{camel_of, snake_of, to_camel_case, to_snake_case};
use crate::scan::{DeclView, Declaration, Registry};
use crate::signal::{Attribute, RoleSet, roles_of};
use crate::text::{replace_first, replaced_first};

verus! {

broadcast use vstd::std_specs::vec::group_vec_axioms;

pub const OS_HEADER: &'static str = "// ignore_for_file:unused_import,unused_element
import 'dart:ffi';
import 'dart:typed_data';
import 'package:rinf/rinf.dart';
import 'generated.dart';

typedef _SendDartSignalExtern = Void Function(
  Pointer<Uint8>,
  UintPtr,
  Pointer<Uint8>,
  UintPtr,
);
";

pub const WEB_HEADER: &'static str = "// ignore_for_file:unused_import,unused_element
import 'dart:typed_data';
import 'package:rinf/rinf.dart';
import 'generated.dart';
";

pub const EXT_OPEN: &'static str = "\nextension ";

pub const EXT_ON: &'static str = "DartSignalExt on ";

pub const OS_EXT_NATIVE: &'static str = " {
  @Native<_SendDartSignalExtern>(
    isLeaf: true,
    symbol: 'rinf_send_dart_signal_";

pub const OS_EXT_EXTERN: &'static str = "',
  )
  external static void sendDartSignalExtern(
    Pointer<Uint8> messageBytesAddress,
    int messageBytesLength,
    Pointer<Uint8> binaryAddress,
    int binaryLength,
  );
";

pub const WEB_EXT_BODY: &'static str = " {";

pub const SEND_WITH_PAYLOAD: &'static str = "
  void sendSignalToRust(Uint8List binary) {
    final messageBytes = this.bincodeSerialize();
";

pub const SEND_WITHOUT_PAYLOAD: &'static str = "
  void sendSignalToRust() {
    final messageBytes = this.bincodeSerialize();
    final binary = Uint8List(0);
";

pub const OS_SEND_LOCAL: &'static str = "    if (useLocalSpaceSymbols) {
      sendDartSignal(
        'rinf_send_dart_signal_";

pub const OS_SEND_EXTERN: &'static str = "',
        messageBytes,
        binary,
      );
    } else {
      sendDartSignalExtern(
        messageBytes.address,
        messageBytes.length,
        binary.address,
        binary.length,
      );
    }
  }
}
";

pub const WEB_SEND: &'static str = "    sendDartSignal(
      'rinf_send_dart_signal_";

pub const WEB_SEND_END: &'static str = "',
      messageBytes,
      binary,
    );
  }
}
";

pub const STREAM_OPEN: &'static str = "\nfinal ";

pub const STREAM_CONTROLLER: &'static str = "StreamController =\n    StreamController<RustSignal<";

pub const STREAM_CLOSE: &'static str = ">>();\n";

pub const CLASS_OPEN: &'static str = "class ";

pub const CLASS_BRACE: &'static str = " {";

pub const CLASS_STREAM: &'static str = " {\n  static final rustSignalStream =\n      ";

pub const CLASS_STREAM_END: &'static str = "StreamController.stream.asBroadcastStream();\n";

pub const HANDLERS_HEAD: &'static str = "part of 'generated.dart';\n\nfinal assignRustSignal = <String, void Function(Uint8List, Uint8List)>{";

pub const HANDLER_OPEN: &'static str = "\n  '";

pub const HANDLER_PARAMS: &'static str = "': (Uint8List messageBytes, Uint8List binary) {\n    final message = ";

pub const HANDLER_DECODE: &'static str = ".bincodeDeserialize(messageBytes);\n    final rustSignal = RustSignal(\n      message,\n      binary,\n    );\n    ";

pub const HANDLER_ADD: &'static str = "StreamController.add(rustSignal);\n  },";

pub const HANDLERS_TAIL: &'static str = "\n};\n";

pub const SERDE_EXPORT: &'static str = "export '../serde/serde.dart';";

pub const SERDE_EXPORT_WITH_IMPORTS: &'static str = "import 'dart:async';\nimport 'package:rinf/rinf.dart';\n\nexport '../serde/serde.dart';";

pub const SERDE_EXPORT_LINE: &'static str = "export '../serde/serde.dart';\n";

pub const SERDE_EXPORT_LINE_BLANK: &'static str = "export '../serde/serde.dart';\n\n";

pub const EXPORT_OPEN: &'static str = "export '";

pub const EXPORT_OS: &'static str = "_os.dart'\n    if (dart.library.js_interop) '";

pub const EXPORT_WEB: &'static str = "_web.dart';\n";

pub const PART_HANDLERS: &'static str = "part 'signal_handlers.dart';\n";

pub const GENERATED_DIR: &'static str = "lib/src/generated/";

pub const OS_SUFFIX: &'static str = "_os.dart";

pub const WEB_SUFFIX: &'static str = "_web.dart";

pub const DART_SUFFIX: &'static str = ".dart";

pub const TOP_FILE: &'static str = "lib/src/generated/generated.dart";

pub const HANDLERS_FILE: &'static str = "lib/src/generated/signal_handlers.dart";

/// A file to write, by its path under the project root.
#[derive(Debug)]
pub struct GeneratedFile {
    pub path: String,
    pub contents: String,
}

impl View for GeneratedFile {
    type V = (Seq<char>, Seq<char>);

    open spec fn view(&self) -> (Seq<char>, Seq<char>) {
        (self.path@, self.contents@)
    }
}

/// Whether the send binding carries a binary payload; `None` where the
/// declaration is not sent from Dart at all. The payload form wins where
/// both markers are present.
pub open spec fn send_payload(roles: RoleSet) -> Option<bool> {
    if roles.inbound_with_payload {
        Some(true)
    } else if roles.inbound {
        Some(false)
    } else {
        None
    }
}

pub open spec fn send_head(payload: bool) -> Seq<char> {
    if payload {
        SEND_WITH_PAYLOAD@
    } else {
        SEND_WITHOUT_PAYLOAD@
    }
}

/// The native send binding: it serializes the message and hands it, with
/// the payload, to the symbol named after the declaration.
pub open spec fn os_extension(class: Seq<char>, snake: Seq<char>, payload: bool) -> Seq<char> {
    EXT_OPEN@ + class + EXT_ON@ + class + OS_EXT_NATIVE@ + snake + OS_EXT_EXTERN@ + send_head(
        payload,
    ) + OS_SEND_LOCAL@ + snake + OS_SEND_EXTERN@
}

/// The web send binding.
pub open spec fn web_extension(class: Seq<char>, snake: Seq<char>, payload: bool) -> Seq<char> {
    EXT_OPEN@ + class + EXT_ON@ + class + WEB_EXT_BODY@ + send_head(payload) + WEB_SEND@ + snake
        + WEB_SEND_END@
}

/// The native binding file of a declaration.
pub open spec fn os_code(class: Seq<char>, roles: RoleSet) -> Seq<char> {
    match send_payload(roles) {
        Some(p) => OS_HEADER@ + os_extension(class, snake_of(class), p),
        None => OS_HEADER@,
    }
}

/// The web binding file of a declaration.
pub open spec fn web_code(class: Seq<char>, roles: RoleSet) -> Seq<char> {
    match send_payload(roles) {
        Some(p) => WEB_HEADER@ + web_extension(class, snake_of(class), p),
        None => WEB_HEADER@,
    }
}

fn send_head_text(payload: bool) -> (r: &'static str)
    ensures
        r@ == send_head(payload),
{
    if payload {
        SEND_WITH_PAYLOAD
    } else {
        SEND_WITHOUT_PAYLOAD
    }
}

/// Renders the native and the web binding files of one declaration. A
/// declaration sent from Dart gets a `sendSignalToRust` binding; the others
/// get the imports alone.
pub fn generate_class_extension_code(class: &str, roles: RoleSet) -> (r: (String, String))
    ensures
        r.0@ == os_code(class@, roles),
        r.1@ == web_code(class@, roles),
{
    let mut os = String::from_str(OS_HEADER);
    let mut web = String::from_str(WEB_HEADER);
    let payload: bool;
    if roles.inbound_with_payload {
        payload = true;
    } else if roles.inbound {
        payload = false;
    } else {
        return (os, web);
    }
    let snake = to_snake_case(class);
    let head = send_head_text(payload);
    os.append(EXT_OPEN);
    os.append(class);
    os.append(EXT_ON);
    os.append(class);
    os.append(OS_EXT_NATIVE);
    os.append(snake.as_str());
    os.append(OS_EXT_EXTERN);
    os.append(head);
    os.append(OS_SEND_LOCAL);
    os.append(snake.as_str());
    os.append(OS_SEND_EXTERN);
    web.append(EXT_OPEN);
    web.append(class);
    web.append(EXT_ON);
    web.append(class);
    web.append(WEB_EXT_BODY);
    web.append(head);
    web.append(WEB_SEND);
    web.append(snake.as_str());
    web.append(WEB_SEND_END);
    proof {
        let c = class@;
        let sn = snake_of(class@);
        assert(os@ =~= OS_HEADER@ + os_extension(c, sn, payload));
        assert(web@ =~= WEB_HEADER@ + web_extension(c, sn, payload));
    }
    (os, web)
}

/// The broadcast stream controller of a declaration sent from Rust.
pub open spec fn stream_decl(class: Seq<char>, camel: Seq<char>) -> Seq<char> {
    STREAM_OPEN@ + camel + STREAM_CONTROLLER@ + class + STREAM_CLOSE@
}

/// The class head with the declaration's broadcast stream added.
pub open spec fn stream_head(class: Seq<char>, camel: Seq<char>) -> Seq<char> {
    CLASS_OPEN@ + class + CLASS_STREAM@ + camel + CLASS_STREAM_END@
}

/// The class file of a declaration: for a declaration sent from Rust, the
/// serialization generator's class with a broadcast stream scoped to it;
/// for any other, that class unchanged.
pub open spec fn class_code(existing: Seq<char>, class: Seq<char>, roles: RoleSet) -> Seq<char> {
    if roles.spec_is_outbound() {
        replaced_first(
            existing + stream_decl(class, camel_of(class)),
            CLASS_OPEN@ + class + CLASS_BRACE@,
            stream_head(class, camel_of(class)),
        )
    } else {
        existing
    }
}

/// Adds the broadcast stream of a declaration sent from Rust to the class
/// that the serialization generator wrote for it.
pub fn generate_class_interface_code(existing: &str, class: &str, roles: RoleSet) -> (r: String)
    ensures
        r@ == class_code(existing@, class@, roles),
{
    if !roles.is_outbound() {
        return String::from_str(existing);
    }
    let camel = to_camel_case(class);
    let mut code = String::from_str(existing);
    code.append(STREAM_OPEN);
    code.append(camel.as_str());
    code.append(STREAM_CONTROLLER);
    code.append(class);
    code.append(STREAM_CLOSE);
    let mut head = String::from_str(CLASS_OPEN);
    head.append(class);
    head.append(CLASS_BRACE);
    let mut with_stream = String::from_str(CLASS_OPEN);
    with_stream.append(class);
    with_stream.append(CLASS_STREAM);
    with_stream.append(camel.as_str());
    with_stream.append(CLASS_STREAM_END);
    proof {
        assert(code@ =~= existing@ + stream_decl(class@, camel_of(class@)));
        assert(with_stream@ =~= stream_head(class@, camel_of(class@)));
    }
    replace_first(code.as_str(), head.as_str(), with_stream.as_str())
}

/// The dispatch-table entry of a declaration sent from Rust: it decodes the
/// message and publishes it, with its payload, on the declaration's stream.
pub open spec fn handler_entry(class: Seq<char>, camel: Seq<char>) -> Seq<char> {
    HANDLER_OPEN@ + class + HANDLER_PARAMS@ + class + HANDLER_DECODE@ + camel + HANDLER_ADD@
}

/// The dispatch-table entries, in registry order.
pub open spec fn handler_entries(reg: Seq<DeclView>) -> Seq<char>
    decreases reg.len(),
{
    if reg.len() == 0 {
        Seq::empty()
    } else {
        let d = reg.last();
        handler_entries(reg.drop_last()) + if d.roles.spec_is_outbound() {
            handler_entry(d.name, camel_of(d.name))
        } else {
            Seq::empty()
        }
    }
}

/// The names that the dispatch table routes, in registry order.
pub open spec fn dispatch_names(reg: Seq<DeclView>) -> Seq<Seq<char>>
    decreases reg.len(),
{
    if reg.len() == 0 {
        Seq::empty()
    } else {
        let d = reg.last();
        if d.roles.spec_is_outbound() {
            dispatch_names(reg.drop_last()).push(d.name)
        } else {
            dispatch_names(reg.drop_last())
        }
    }
}

/// The shared file that holds the dispatch table.
pub open spec fn shared_code(reg: Seq<DeclView>) -> Seq<char> {
    HANDLERS_HEAD@ + handler_entries(reg) + HANDLERS_TAIL@
}

/// Renders the dispatch table: one entry, keyed by the declaration's name,
/// for each declaration sent from Rust.
pub fn generate_shared_code(registry: &Registry) -> (r: String)
    ensures
        r@ == shared_code(registry@),
{
    let mut code = String::from_str(HANDLERS_HEAD);
    let mut i: usize = 0;
    while i < registry.declarations.len()
        invariant
            0 <= i <= registry@.len(),
            code@ == HANDLERS_HEAD@ + handler_entries(registry@.subrange(0, i as int)),
        decreases registry.declarations.len() - i,
    {
        let d = &registry.declarations[i];
        let ghost before = code@;
        proof {
            assert(registry@.subrange(0, i + 1).drop_last() =~= registry@.subrange(0, i as int));
            assert(registry@[i as int] == d@);
        }
        if d.roles.is_outbound() {
            let camel = to_camel_case(d.name.as_str());
            code.append(HANDLER_OPEN);
            code.append(d.name.as_str());
            code.append(HANDLER_PARAMS);
            code.append(d.name.as_str());
            code.append(HANDLER_DECODE);
            code.append(camel.as_str());
            code.append(HANDLER_ADD);
            proof {
                assert(code@ =~= before + handler_entry(d.name@, camel_of(d.name@)));
            }
        }
        proof {
            assert(code@ =~= HANDLERS_HEAD@ + handler_entries(registry@.subrange(0, i + 1)));
        }
        i += 1;
    }
    code.append(HANDLERS_TAIL);
    proof {
        assert(registry@.subrange(0, registry@.len() as int) =~= registry@);
    }
    code
}

/// The export lines of the binding files, in registry order.
pub open spec fn export_lines(reg: Seq<DeclView>) -> Seq<char>
    decreases reg.len(),
{
    if reg.len() == 0 {
        Seq::empty()
    } else {
        let sn = snake_of(reg.last().name);
        export_lines(reg.drop_last()) + EXPORT_OPEN@ + sn + EXPORT_OS@ + sn + EXPORT_WEB@
    }
}

/// The top-level file: the serialization generator's file with the imports
/// that the bindings need, an export of every binding file, and the shared
/// dispatch file as a part.
pub open spec fn top_code(existing: Seq<char>, reg: Seq<DeclView>) -> Seq<char> {
    replaced_first(
        replaced_first(existing, SERDE_EXPORT@, SERDE_EXPORT_WITH_IMPORTS@),
        SERDE_EXPORT_LINE@,
        SERDE_EXPORT_LINE_BLANK@ + export_lines(reg),
    ) + PART_HANDLERS@
}

/// Renders the top-level file from the one the serialization generator wrote.
pub fn generate_top_code(existing: &str, registry: &Registry) -> (r: String)
    ensures
        r@ == top_code(existing@, registry@),
{
    let mut exports = String::from_str(SERDE_EXPORT_LINE_BLANK);
    let mut i: usize = 0;
    while i < registry.declarations.len()
        invariant
            0 <= i <= registry@.len(),
            exports@ == SERDE_EXPORT_LINE_BLANK@ + export_lines(registry@.subrange(0, i as int)),
        decreases registry.declarations.len() - i,
    {
        let d = &registry.declarations[i];
        proof {
            assert(registry@.subrange(0, i + 1).drop_last() =~= registry@.subrange(0, i as int));
            assert(registry@[i as int] == d@);
        }
        let snake = to_snake_case(d.name.as_str());
        exports.append(EXPORT_OPEN);
        exports.append(snake.as_str());
        exports.append(EXPORT_OS);
        exports.append(snake.as_str());
        exports.append(EXPORT_WEB);
        proof {
            assert(exports@ =~= SERDE_EXPORT_LINE_BLANK@ + export_lines(registry@.subrange(0, i + 1)));
        }
        i += 1;
    }
    proof {
        assert(registry@.subrange(0, registry@.len() as int) =~= registry@);
    }
    let with_imports = replace_first(existing, SERDE_EXPORT, SERDE_EXPORT_WITH_IMPORTS);
    let mut top = replace_first(with_imports.as_str(), SERDE_EXPORT_LINE, exports.as_str());
    top.append(PART_HANDLERS);
    top
}

/// The path of one of a declaration's files.
pub open spec fn class_path(class: Seq<char>, suffix: Seq<char>) -> Seq<char> {
    GENERATED_DIR@ + snake_of(class) + suffix
}

/// The native binding, web binding and class file of each declaration, in
/// registry order; `sources` holds the class files that the serialization
/// generator wrote, in the same order.
pub open spec fn class_files(reg: Seq<DeclView>, sources: Seq<Seq<char>>) -> Seq<
    (Seq<char>, Seq<char>),
>
    decreases reg.len(),
{
    if reg.len() == 0 || sources.len() == 0 {
        Seq::empty()
    } else {
        let d = reg.last();
        class_files(reg.drop_last(), sources.drop_last()) + seq![
            (class_path(d.name, OS_SUFFIX@), os_code(d.name, d.roles)),
            (class_path(d.name, WEB_SUFFIX@), web_code(d.name, d.roles)),
            (class_path(d.name, DART_SUFFIX@), class_code(sources.last(), d.name, d.roles)),
        ]
    }
}

/// Every file of one generation: the files of each declaration, then the
/// top-level file, then the shared dispatch file.
pub open spec fn interface_files(reg: Seq<DeclView>, sources: Seq<Seq<char>>, top: Seq<char>) -> Seq<
    (Seq<char>, Seq<char>),
> {
    class_files(reg, sources) + seq![
        (TOP_FILE@, top_code(top, reg)),
        (HANDLERS_FILE@, shared_code(reg)),
    ]
}

pub open spec fn file_views(files: Seq<GeneratedFile>) -> Seq<(Seq<char>, Seq<char>)> {
    files.map_values(|f: GeneratedFile| f@)
}

pub open spec fn text_views(texts: Seq<String>) -> Seq<Seq<char>> {
    texts.map_values(|t: String| t@)
}

fn class_file_path(snake: &String, suffix: &str) -> (r: String)
    ensures
        r@ == GENERATED_DIR@ + snake@ + suffix@,
{
    let mut path = String::from_str(GENERATED_DIR);
    path.append(snake.as_str());
    path.append(suffix);
    path
}

/// Where the serialization generator writes the class of a declaration.
pub fn class_source_path(class: &str) -> (r: String)
    ensures
        r@ == class_path(class@, DART_SUFFIX@),
{
    let snake = to_snake_case(class);
    class_file_path(&snake, DART_SUFFIX)
}

/// Renders every binding file of one generation. `class_sources` holds,
/// for each declaration of the registry in order, the class file that the
/// serialization generator wrote; `top_source` its top-level file.
pub fn generate_interface_code(
    registry: &Registry,
    class_sources: &Vec<String>,
    top_source: &str,
) -> (r: Vec<GeneratedFile>)
    requires
        class_sources@.len() == registry@.len(),
    ensures
        file_views(r@) == interface_files(registry@, text_views(class_sources@), top_source@),
{
    let ghost sources = text_views(class_sources@);
    let mut files: Vec<GeneratedFile> = Vec::new();
    let mut i: usize = 0;
    while i < registry.declarations.len()
        invariant
            0 <= i <= registry@.len(),
            class_sources@.len() == registry@.len(),
            sources == text_views(class_sources@),
            file_views(files@) == class_files(
                registry@.subrange(0, i as int),
                sources.subrange(0, i as int),
            ),
        decreases registry.declarations.len() - i,
    {
        let d = &registry.declarations[i];
        proof {
            assert(registry@.subrange(0, i + 1).drop_last() =~= registry@.subrange(0, i as int));
            assert(sources.subrange(0, i + 1).drop_last() =~= sources.subrange(0, i as int));
            assert(registry@[i as int] == d@);
        }
        let snake = to_snake_case(d.name.as_str());
        let (os, web) = generate_class_extension_code(d.name.as_str(), d.roles);
        let class = generate_class_interface_code(class_sources[i].as_str(), d.name.as_str(), d.roles);
        let ghost before = files@;
        files.push(GeneratedFile { path: class_file_path(&snake, OS_SUFFIX), contents: os });
        files.push(GeneratedFile { path: class_file_path(&snake, WEB_SUFFIX), contents: web });
        files.push(GeneratedFile { path: class_file_path(&snake, DART_SUFFIX), contents: class });
        proof {
            let sub = registry@.subrange(0, i + 1);
            let srcs = sources.subrange(0, i + 1);
            assert(sub.last() == d@);
            assert(srcs.last() == class_sources@[i as int]@);
            assert(file_views(files@) =~= file_views(before) + seq![
                files@[before.len() as int]@,
                files@[before.len() as int + 1]@,
                files@[before.len() as int + 2]@,
            ]);
            assert(file_views(files@) =~= class_files(sub, srcs));
        }
        i += 1;
    }
    proof {
        assert(registry@.subrange(0, registry@.len() as int) =~= registry@);
        assert(sources.subrange(0, sources.len() as int) =~= sources);
    }
    let top = generate_top_code(top_source, registry);
    let shared = generate_shared_code(registry);
    let ghost before = files@;
    files.push(GeneratedFile { path: String::from_str(TOP_FILE), contents: top });
    files.push(GeneratedFile { path: String::from_str(HANDLERS_FILE), contents: shared });
    proof {
        assert(file_views(files@) =~= file_views(before) + seq![
            files@[before.len() as int]@,
            files@[before.len() as int + 1]@,
        ]);
    }
    files
}

/// Generation is a function of its inputs: run twice on the same registry
/// and the same files of the serialization generator, it renders the same
/// files, byte for byte.
pub proof fn lemma_generation_repeatable(
    first: Registry,
    second: Registry,
    sources: Seq<Seq<char>>,
    top: Seq<char>,
)
    requires
        first@ == second@,
    ensures
        interface_files(first@, sources, top) == interface_files(second@, sources, top),
{
}

proof fn lemma_handler_entry_present(reg: Seq<DeclView>, k: int)
    requires
        0 <= k < reg.len(),
        reg[k].roles.spec_is_outbound(),
    ensures
        exists|a: Seq<char>, b: Seq<char>|
            handler_entries(reg) == a + handler_entry(reg[k].name, camel_of(reg[k].name)) + b,
    decreases reg.len(),
{
    let entry = handler_entry(reg[k].name, camel_of(reg[k].name));
    let pre = reg.drop_last();
    if k == reg.len() - 1 {
        let a = handler_entries(pre);
        assert(handler_entries(reg) == a + entry + Seq::<char>::empty());
    } else {
        assert(pre[k] == reg[k]);
        lemma_handler_entry_present(pre, k);
        let (a, b) = choose|a: Seq<char>, b: Seq<char>|
            handler_entries(pre) == a + handler_entry(pre[k].name, camel_of(pre[k].name)) + b;
        let d = reg.last();
        let tail = if d.roles.spec_is_outbound() {
            handler_entry(d.name, camel_of(d.name))
        } else {
            Seq::empty()
        };
        assert(handler_entries(reg) =~= a + entry + (b + tail));
    }
}

proof fn lemma_dispatch_name_present(reg: Seq<DeclView>, k: int)
    requires
        0 <= k < reg.len(),
        reg[k].roles.spec_is_outbound(),
    ensures
        dispatch_names(reg).contains(reg[k].name),
    decreases reg.len(),
{
    let pre = reg.drop_last();
    if k == reg.len() - 1 {
        assert(dispatch_names(reg).last() == reg[k].name);
    } else {
        assert(pre[k] == reg[k]);
        lemma_dispatch_name_present(pre, k);
        let j = choose|j: int| 0 <= j < dispatch_names(pre).len() && dispatch_names(pre)[j] == reg[k].name;
        if reg.last().roles.spec_is_outbound() {
            assert(dispatch_names(reg)[j] == dispatch_names(pre)[j]);
        }
    }
}

/// A declaration marked both to be sent from Dart and from Rust has at least
/// two roles, and generation gives it both a send binding toward Rust and an
/// entry, keyed by its name, in the dispatch table.
pub proof fn lemma_two_way_signal(attrs: Seq<Attribute>, reg: Seq<DeclView>, k: int)
    requires
        roles_of(attrs).spec_is_inbound(),
        roles_of(attrs).spec_is_outbound(),
        0 <= k < reg.len(),
        reg[k].roles == roles_of(attrs),
    ensures
        roles_of(attrs).size() >= 2,
        send_payload(reg[k].roles) is Some,
        os_code(reg[k].name, reg[k].roles) == OS_HEADER@ + os_extension(
            reg[k].name,
            snake_of(reg[k].name),
            send_payload(reg[k].roles)->Some_0,
        ),
        dispatch_names(reg).contains(reg[k].name),
        exists|a: Seq<char>, b: Seq<char>|
            shared_code(reg) == a + handler_entry(reg[k].name, camel_of(reg[k].name)) + b,
{
    lemma_dispatch_name_present(reg, k);
    lemma_handler_entry_present(reg, k);
    let (a, b) = choose|a: Seq<char>, b: Seq<char>|
        handler_entries(reg) == a + handler_entry(reg[k].name, camel_of(reg[k].name)) + b;
    let entry = handler_entry(reg[k].name, camel_of(reg[k].name));
    assert(shared_code(reg) =~= (HANDLERS_HEAD@ + a) + entry + (b + HANDLERS_TAIL@));
}

} // verus!
