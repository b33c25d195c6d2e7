//! Translating a crate with GetText, by macros.
//!
//! A crate says once, with [`init_i18n`], which languages it is translated into. It marks its
//! messages with [`t`], or marks them and translates them at run time with [`i18n`]; each message is
//! listed in a template of translations, the `.pot` file. [`compile_i18n`] makes the files with the
//! translations into each language from that template, and [`include_i18n`] embeds them into the
//! program.
//!
//! This library holds what the macros decide and compute. It reads and writes no file, runs no
//! program and knows nothing of the compiler: who calls it turns the compiler's tokens into
//! [`token::TokenTree`]s and [`code::Fragment`]s into tokens, and does what it is told to do.

pub mod code;
pub mod compile;
pub mod config;
pub mod embed;
pub mod fault;
pub mod init;
pub mod laws;
pub mod macros;
pub mod message;
pub mod paths;
pub mod text;
pub mod token;

pub use compile::compile_i18n;
pub use embed::include_i18n;
pub use init::init_i18n;
pub use macros::i18n;
pub use macros::i18n_domain;
pub use macros::t;
