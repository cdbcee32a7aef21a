//! Configuration and orchestration layer of the chisel command-line
//! front end in its one-line mode: the module/option specification
//! parser, the injection of file bindings, the engine driver protocol,
//! output encoding selection and the mapping of failures to exit status.

pub mod text;
pub mod options;
pub mod config;
pub mod driver;
pub mod codec;
pub mod oneliner;
