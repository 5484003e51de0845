//! Command-execution core of a line-oriented shell.
//!
//! A raw input line is split into words, parsed into a [`parse::Pipeline`]
//! of stages with an optional trailing redirection, and turned into an
//! execution plan ([`plan::ExecPlan`]) that says, for every stage, whether
//! it runs as a builtin in-process or is spawned with which stream
//! bindings.  Builtin behaviour itself is decided by [`builtins`], and
//! command names are resolved through a [`resolver::Resolver`].
//!
//! Everything that touches the operating system — reading lines, scanning
//! search-path directories, opening files, spawning and waiting on
//! children — is left to the surrounding program, which feeds plain values
//! in and carries the returned plans and actions out.

use vstd::prelude::*;

pub mod builtins;
pub mod digits;
pub mod parse;
pub mod plan;
pub mod resolver;

verus! {

/// Reports whether a directory entry counts as a runnable program, given
/// what the operating system said about it: whether it is a regular file,
/// and whether its permissions are read-only (`None` when the metadata
/// could not be read at all).
pub fn is_executable(is_file: bool, readonly: Option<bool>) -> (r: bool)
    ensures
        r == (is_file && readonly == Some(false)),
{
    is_file && readonly == Some(false)
}

/// Compares a word against a string literal by contents.
pub(crate) fn word_eq(w: &String, lit: &str) -> (r: bool)
    ensures
        r == (w@ == lit@),
{
    let s: String = lit.to_owned();
    *w == s
}

/// Copies a word list; the copy holds the very same word values.
pub(crate) fn clone_words(v: &Vec<String>) -> (r: Vec<String>)
    ensures
        r@ == v@,
{
    let mut r: Vec<String> = Vec::new();
    let mut i: usize = 0;
    while i < v.len()
        invariant
            0 <= i <= v.len(),
            r@ == v@.subrange(0, i as int),
        decreases v.len() - i,
    {
        r.push(v[i].clone());
        proof {
            assert(r@ =~= v@.subrange(0, i as int + 1));
        }
        i = i + 1;
    }
    proof {
        assert(r@ =~= v@);
    }
    r
}

} // verus!
