//! The verified core of a command line tool for ECHONET Lite.
//!
//! ECHONET Lite is a protocol of smart homes: small frames over UDP, in which a controller reads and
//! writes the properties of devices and devices announce their changes. This library holds all that
//! is decided and computed for it; sockets, clocks and printing are left to the program around it.
//!
//! - `codec` reads and writes frames, without loss.
//! - `properties` is the dictionary: names, value ranges and decoded values. What it does not know
//!   stays raw.
//! - `commands`, `discover` and `listen` make the requests and the output of the subcommands.
//! - `schema` is the JSON Schema of each output.
//! - `cli` gives the words of a subcommand their meaning.
//! - `net` decides which datagrams to accept, how long to wait and when to try again.
//! - `cidr`, `error`, `json` and `text` are what the others are built on.
//!
//! The modules that end in `_laws` state what holds of a part as a whole, and `conformance` says
//! when a value conforms to a schema.

pub mod cidr;
pub mod cli;
pub mod cli_laws;
pub mod codec;
pub mod codec_laws;
pub mod command_laws;
pub mod commands;
pub mod conformance;
pub mod decoding_laws;
pub mod dictionary_laws;
pub mod discover;
pub mod discover_laws;
pub mod error;
pub mod json;
pub mod listen;
pub mod listen_laws;
pub mod net;
pub mod node_laws;
pub mod notification_laws;
pub mod output_laws;
pub mod properties;
pub mod property_laws;
pub mod request_laws;
pub mod schema;
pub mod schema_laws;
pub mod sweep_laws;
pub mod text;
pub mod text_laws;
pub mod view_laws;
pub mod wait_laws;
pub mod wire_laws;
