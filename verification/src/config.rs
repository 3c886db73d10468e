//! The standard locations of the runtimes' authentication files.
use vstd::prelude::*;
use crate::text::{chars_of, concat2, concat3};

verus! {

/// A path joined to a relative one, `/`-separated as on Unix.
pub open spec fn join_path(base: Seq<char>, rel: Seq<char>) -> Seq<char> {
    if base.len() == 0 {
        rel
    } else if base.last() == '/' {
        base + rel
    } else {
        base + "/"@ + rel
    }
}

fn join(base: &str, rel: &str) -> (r: String)
    ensures
        r@ == join_path(base@, rel@),
{
    let cs = chars_of(base);
    if cs.len() == 0 {
        crate::text::owned(rel)
    } else if cs[cs.len() - 1] == '/' {
        concat2(base, rel)
    } else {
        concat3(base, "/", rel)
    }
}

/// The Codex and Pi Agent authentication files.
pub struct Paths {
    pub codex: String,
    pub pi: String,
}

impl Paths {
    /// The standard files under a home directory: `~/.codex/auth.json` and
    /// `~/.pi/agent/auth.json`.
    pub fn from_home(home: &str) -> (r: Paths)
        ensures
            r.codex@ == join_path(home@, ".codex/auth.json"@),
            r.pi@ == join_path(home@, ".pi/agent/auth.json"@),
    {
        Paths { codex: join(home, ".codex/auth.json"), pi: join(home, ".pi/agent/auth.json") }
    }
}

} // verus!
