//! Descriptions of the external processes that the helper starts.
use vstd::prelude::*;

use crate::text::texts;

verus! {

/// How to start an external process: the program, its arguments, the
/// environment variables to set, and the file whose bytes are streamed to
/// its standard input once it has been spawned (standard input is empty
/// otherwise).
pub struct Invocation {
    pub program: String,
    pub args: Vec<String>,
    pub env: Vec<(String, String)>,
    pub stdin_file: Option<String>,
}

/// The text of each environment variable's name and value.
pub open spec fn env_texts(env: Seq<(String, String)>) -> Seq<(Seq<char>, Seq<char>)> {
    env.map_values(|p: (String, String)| (p.0@, p.1@))
}

/// The text of an optional string.
pub open spec fn opt_text(s: Option<String>) -> Option<Seq<char>> {
    match s {
        Some(t) => Some(t@),
        None => None,
    }
}

impl Invocation {
    /// The arguments as text.
    pub open spec fn arg_texts(&self) -> Seq<Seq<char>> {
        texts(self.args@)
    }

    /// The environment as text.
    pub open spec fn env_view(&self) -> Seq<(Seq<char>, Seq<char>)> {
        env_texts(self.env@)
    }
}

} // verus!
