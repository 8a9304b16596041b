//! The verified core of the Java tooling for the Zed editor: reading run and test
//! task commands, naming classes, correcting them from the language server's
//! symbols or from the sources in the workspace, building debug adapter
//! configurations and scenarios, and building the Gradle commands that run
//! classes and tests.
pub mod command_line;
pub mod dap;
pub mod debug_config;
pub mod gradle;
pub mod jdwp;
pub mod lsp_lookup;
pub mod text;
pub mod workspace;
