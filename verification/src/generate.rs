//! `roadmap generate`: which manual pages and shell completions to write,
//! and under which names.

use vstd::prelude::*;
use crate::text::{push_str};

verus! {

/// What to generate.
pub enum GenerateType {
    /// Manual pages.
    Man,
    /// Shell completions (bash, zsh, fish, PowerShell).
    Completions,
    /// Both.
    All,
}

impl GenerateType {
    /// Whether manual pages are generated.
    pub fn wants_man(&self) -> (r: bool)
        ensures
            r == !(self is Completions),
    {
        match self {
            GenerateType::Completions => false,
            _ => true,
        }
    }

    /// Whether shell completions are generated.
    pub fn wants_completions(&self) -> (r: bool)
        ensures
            r == !(self is Man),
    {
        match self {
            GenerateType::Man => false,
            _ => true,
        }
    }
}

/// The file of a manual page: `roadmap-cli.1` for the command, and
/// `roadmap-cli-<sub>.1` for a subcommand.
pub open spec fn man_page_file(sub: Option<Seq<char>>) -> Seq<char> {
    match sub {
        None => "roadmap-cli.1"@,
        Some(s) => "roadmap-cli-"@ + s + ".1"@,
    }
}

/// The file of a manual page (see `man_page_file`).
pub fn man_page_name(sub: Option<&str>) -> (r: String)
    ensures
        r@ == man_page_file(
            match sub {
                Some(s) => Some(s@),
                None => None,
            },
        ),
{
    let mut r = String::new();
    match sub {
        None => push_str(&mut r, "roadmap-cli.1"),
        Some(s) => {
            push_str(&mut r, "roadmap-cli-");
            push_str(&mut r, s);
            push_str(&mut r, ".1");
        },
    }
    r
}

} // verus!
