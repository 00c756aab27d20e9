//! The presenter: what one lookup prints, as a function of its inputs.

use vstd::prelude::*;
use crate::json::{json_of, json_of_error};
use crate::record::{derived_view, error_line_of, text_of, ErrorView, Output, OutputError};
use crate::timestamp::{stamp_local, Stamped, Timestamp};

verus! {

/// The outcome of resolving one command and inspecting the result.
#[derive(Debug)]
pub enum Lookup {
    /// The resolution facility ran but reported no path.
    NotFound,
    /// One metadata snapshot of the resolved path.
    Found { created: Stamped, modified: Stamped, accessed: Stamped },
    /// The resolved path's metadata could not be read.
    MetadataError { message: String },
}

/// Packs one metadata snapshot, rendering each instant for display in the
/// local time zone.
pub fn found(created: Timestamp, modified: Timestamp, accessed: Timestamp) -> (r: Lookup)
    ensures
        r matches Lookup::Found { created: c, modified: m, accessed: a } && c.at == created && m.at
            == modified && a.at == accessed,
{
    Lookup::Found {
        created: stamp_local(created),
        modified: stamp_local(modified),
        accessed: stamp_local(accessed),
    }
}

/// What one invocation prints: nothing for an unresolved command; nothing for
/// a metadata error unless verbose or structured output was requested; and
/// otherwise exactly one rendering of the one record the lookup produced.
pub open spec fn rendered_of(
    command: Seq<char>,
    path: Seq<char>,
    lookup: Lookup,
    verbose: bool,
    structured: bool,
) -> Option<Seq<char>> {
    match lookup {
        Lookup::NotFound => None,
        Lookup::Found { created, modified, accessed } => {
            let ov = derived_view(command, path, created, modified, accessed, verbose);
            Some(
                if structured {
                    json_of(ov)
                } else {
                    text_of(ov, verbose)
                },
            )
        },
        Lookup::MetadataError { message } => if verbose || structured {
            let ev = ErrorView { command: command, path: path, error: message@ };
            Some(
                if structured {
                    json_of_error(ev)
                } else {
                    error_line_of(ev)
                },
            )
        } else {
            None
        },
    }
}

/// Runs the presenter for one lookup.
pub fn present(command: String, path: String, lookup: Lookup, verbose: bool, structured: bool) -> (r:
    Option<String>)
    ensures
        match r {
            Some(s) => rendered_of(command@, path@, lookup, verbose, structured) == Some(s@),
            None => rendered_of(command@, path@, lookup, verbose, structured) is None,
        },
{
    match lookup {
        Lookup::NotFound => None,
        Lookup::Found { created, modified, accessed } => {
            let out = Output::new(command, path, created, modified, accessed, verbose);
            Some(
                if structured {
                    out.to_json()
                } else {
                    out.to_string(verbose)
                },
            )
        },
        Lookup::MetadataError { message } => {
            if verbose || structured {
                let e = OutputError { command: command, path: path, error: message };
                Some(
                    if structured {
                        e.to_json()
                    } else {
                        e.to_string()
                    },
                )
            } else {
                None
            }
        },
    }
}

/// Rendering is a function of the inputs alone: two invocations that see the
/// same command, path, lookup outcome and flags print the same bytes. Across
/// two real runs this leaves only what the platform feeds in — the resolved
/// path, the metadata snapshot and its local-time display text — to vary.
pub proof fn lemma_present_deterministic(
    command1: Seq<char>,
    path1: Seq<char>,
    lookup1: Lookup,
    verbose1: bool,
    structured1: bool,
    command2: Seq<char>,
    path2: Seq<char>,
    lookup2: Lookup,
    verbose2: bool,
    structured2: bool,
)
    requires
        command1 == command2,
        path1 == path2,
        lookup1 == lookup2,
        verbose1 == verbose2,
        structured1 == structured2,
    ensures
        rendered_of(command1, path1, lookup1, verbose1, structured1) == rendered_of(
            command2,
            path2,
            lookup2,
            verbose2,
            structured2,
        ),
{
}

} // verus!
