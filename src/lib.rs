//! Scans annotated record declarations, resolves their field types into a
//! language-neutral schema, classifies how each record crosses the language
//! boundary, and renders the Dart binding code that goes with it.

pub mod text;
pub mod format;
pub mod signal;
pub mod scan;
pub mod naming;
pub mod codegen;
pub mod watch;
pub mod config;
pub mod fractal;
pub mod wasm;

pub use config::{
    is_flutter_app_project, load_verified_rinf_config, RinfCommandError, RinfConfig,
    RinfConfigMessage,
};
pub use fractal::write_line;
pub use wasm::install_wasm_toolchain;
