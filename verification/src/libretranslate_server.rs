//! The local LibreTranslate server: how it is started.
use vstd::prelude::*;

verus! {

/// The program that runs the server.
pub const LIBRETRANSLATE_COMMAND: &'static str = "libretranslate";
/// Its arguments: only the English and Russian models are loaded.
pub const LIBRETRANSLATE_ARGS: [&'static str; 2] = ["--load-only", "en,ru"];

} // verus!
