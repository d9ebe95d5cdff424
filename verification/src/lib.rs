//! A clipboard-driven text-transformation engine: a closed set of named
//! commands, each mapping an optional text input to a text output, together
//! with the dispatcher that resolves a command name and runs it, and the
//! snippet emitter that renders text-expansion bindings for every command.

pub mod errors;
pub mod command;
pub mod strutil;
pub mod binary;
pub mod casing;
pub mod password;
pub mod jsonfmt;
pub mod redditurl;
pub mod timeid;
pub mod espanso;
pub mod dispatch;

pub use errors::TransformError;
pub use command::Command;
pub use command::InputKind;
pub use binary::binary_decode;
pub use binary::binary_encode;
pub use casing::spongebob;
pub use dispatch::dispatch;
pub use dispatch::execute;
pub use espanso::config_espanso;
pub use jsonfmt::format_json;
pub use password::gen_password;
pub use redditurl::reddit_top;
pub use timeid::gen_uuid4;
pub use timeid::gen_uuid7;
pub use timeid::get_iso_timestamp;
pub use timeid::make_uuid7;
pub use timeid::now;
