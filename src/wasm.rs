//! The commands that prepare the web toolchain and compile the hub crate to
//! WebAssembly. Running them is left to the caller.

use vstd::prelude::*;

verus! {

/// A program and its arguments.
#[derive(Debug)]
pub struct ToolCommand {
    pub program: String,
    pub args: Vec<String>,
}

pub open spec fn texts_of(words: Seq<&str>) -> Seq<Seq<char>> {
    words.map_values(|w: &str| w@)
}

pub open spec fn strings_of(words: Seq<String>) -> Seq<Seq<char>> {
    words.map_values(|w: String| w@)
}

impl View for ToolCommand {
    type V = (Seq<char>, Seq<Seq<char>>);

    open spec fn view(&self) -> (Seq<char>, Seq<Seq<char>>) {
        (self.program@, strings_of(self.args@))
    }
}

fn owned_words(words: &Vec<&str>) -> (r: Vec<String>)
    ensures
        strings_of(r@) == texts_of(words@),
{
    let mut out: Vec<String> = Vec::new();
    let mut i: usize = 0;
    while i < words.len()
        invariant
            0 <= i <= words.len(),
            out@.len() == i,
            strings_of(out@) == texts_of(words@.subrange(0, i as int)),
        decreases words.len() - i,
    {
        let ghost before = out@;
        out.push(String::from_str(words[i]));
        proof {
            assert forall|j: int| 0 <= j < i + 1 implies #[trigger] strings_of(out@)[j] == texts_of(
                words@.subrange(0, i + 1),
            )[j] by {
                if j < i {
                    assert(out@[j] == before[j]);
                    assert(strings_of(before)[j] == texts_of(words@.subrange(0, i as int))[j]);
                }
            }
            assert(strings_of(out@) =~= texts_of(words@.subrange(0, i + 1)));
        }
        i += 1;
    }
    proof {
        assert(words@.subrange(0, words@.len() as int) =~= words@);
    }
    out
}

fn command(program: &str, args: Vec<&str>) -> (r: ToolCommand)
    ensures
        r@ == (program@, texts_of(args@)),
{
    ToolCommand { program: String::from_str(program), args: owned_words(&args) }
}

/// The toolchain commands, in the order they run.
pub open spec fn toolchain_commands() -> Seq<(Seq<char>, Seq<Seq<char>>)> {
    seq![
        ("rustup"@, seq!["toolchain"@, "install"@, "nightly"@]),
        ("rustup"@, seq!["+nightly"@, "component"@, "add"@, "rust-src"@]),
        ("rustup"@, seq!["+nightly"@, "target"@, "add"@, "wasm32-unknown-unknown"@]),
        ("rustup"@, seq!["target"@, "add"@, "wasm32-unknown-unknown"@]),
        ("cargo"@, seq!["install"@, "wasm-pack"@]),
        ("cargo"@, seq!["install"@, "wasm-bindgen-cli"@]),
    ]
}

pub open spec fn command_views(cs: Seq<ToolCommand>) -> Seq<(Seq<char>, Seq<Seq<char>>)> {
    cs.map_values(|c: ToolCommand| c@)
}

/// The commands that install the nightly toolchain, its sources, the
/// WebAssembly target and the packaging tools.
pub fn install_wasm_toolchain() -> (r: Vec<ToolCommand>)
    ensures
        command_views(r@) == toolchain_commands(),
{
    let mut cs: Vec<ToolCommand> = Vec::new();
    cs.push(command("rustup", vec!["toolchain", "install", "nightly"]));
    cs.push(command("rustup", vec!["+nightly", "component", "add", "rust-src"]));
    cs.push(command("rustup", vec!["+nightly", "target", "add", "wasm32-unknown-unknown"]));
    cs.push(command("rustup", vec!["target", "add", "wasm32-unknown-unknown"]));
    cs.push(command("cargo", vec!["install", "wasm-pack"]));
    cs.push(command("cargo", vec!["install", "wasm-bindgen-cli"]));
    proof {
        assert(command_views(cs@) =~~= toolchain_commands());
    }
    cs
}

/// The arguments of `wasm-pack` that build the hub crate for the web into
/// `output_path`; a debug build adds `--dev` after the output name.
pub open spec fn wasm_pack_args(output_path: Seq<char>, release: bool) -> Seq<Seq<char>> {
    let head = seq![
        "--quiet"@,
        "build"@,
        "./native/hub"@,
        "--out-dir"@,
        output_path,
        "--out-name"@,
        "hub"@,
    ];
    let tail = seq![
        "--no-typescript"@,
        "--target"@,
        "web"@,
        "--"@,
        "-Z"@,
        "build-std=std,panic_abort"@,
    ];
    if release {
        head + tail
    } else {
        head + seq!["--dev"@] + tail
    }
}

/// The `wasm-pack` command line that compiles the hub crate.
pub fn compile_wasm_args(output_path: &str, is_release_mode: bool) -> (r: Vec<String>)
    ensures
        strings_of(r@) == wasm_pack_args(output_path@, is_release_mode),
{
    let mut words: Vec<&str> = vec!["--quiet", "build", "./native/hub", "--out-dir", output_path, "--out-name", "hub"];
    if !is_release_mode {
        words.push("--dev");
    }
    words.push("--no-typescript");
    words.push("--target");
    words.push("web");
    words.push("--");
    words.push("-Z");
    words.push("build-std=std,panic_abort");
    let r = owned_words(&words);
    proof {
        assert(texts_of(words@) =~= wasm_pack_args(output_path@, is_release_mode));
    }
    r
}

} // verus!
