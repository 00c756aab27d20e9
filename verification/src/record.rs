//! The two result records of a lookup and their text-mode renderings.

use vstd::prelude::*;
use vstd::string::StringExecFns;
use crate::chars::{push_str_chars, string_from_chars};
use crate::timestamp::{Stamped, ts_lt};

verus! {

/// The fields of a success record, as character sequences.
#[verifier::ext_equal]
pub ghost struct OutputView {
    pub command: Seq<char>,
    pub path: Seq<char>,
    pub created: Seq<char>,
    pub updated: Option<Seq<char>>,
    pub modified: Option<Seq<char>>,
    pub accessed: Seq<char>,
    pub legend: Option<Seq<char>>,
}

/// A successful lookup: the requested command, the path it resolved to, and
/// the display text of the three timestamps. `updated` holds the modification
/// time when it precedes creation, `modified` holds it when it follows
/// creation; at most one of the two is ever populated. `legend` is populated
/// only under verbose mode.
#[derive(Debug)]
pub struct Output {
    pub command: String,
    pub path: String,
    pub created: String,
    pub updated: Option<String>,
    pub modified: Option<String>,
    pub accessed: String,
    pub legend: Option<String>,
}

impl View for Output {
    type V = OutputView;

    open spec fn view(&self) -> OutputView {
        OutputView {
            command: self.command@,
            path: self.path@,
            created: self.created@,
            updated: match self.updated {
                Some(s) => Some(s@),
                None => None,
            },
            modified: match self.modified {
                Some(s) => Some(s@),
                None => None,
            },
            accessed: self.accessed@,
            legend: match self.legend {
                Some(s) => Some(s@),
                None => None,
            },
        }
    }
}

/// The verbose legend: four lines explaining the displayed fields.
pub open spec fn legend_text() -> Seq<char> {
    "Updated: This is when the command was likely last modified by its developers before being added to your computer.\nCreated: This is when the command was first added to your computer.\nModified: This is when the command was last changed or updated on your computer.\nAccessed: This is when the command was last accessed or executed on your computer.\n"@
}

/// The record derived from one metadata snapshot: `updated` is populated
/// exactly when modification strictly precedes creation, `modified` exactly
/// when it strictly follows it, and `legend` exactly under verbose mode.
pub open spec fn derived_view(
    command: Seq<char>,
    path: Seq<char>,
    created: Stamped,
    modified: Stamped,
    accessed: Stamped,
    verbose: bool,
) -> OutputView {
    OutputView {
        command: command,
        path: path,
        created: created.shown@,
        updated: if ts_lt(modified.at, created.at) {
            Some(modified.shown@)
        } else {
            None
        },
        modified: if ts_lt(created.at, modified.at) {
            Some(modified.shown@)
        } else {
            None
        },
        accessed: accessed.shown@,
        legend: if verbose {
            Some(legend_text())
        } else {
            None
        },
    }
}

/// Exactly one of the two derived fields is populated when creation and
/// modification differ, and neither is when they coincide.
pub proof fn lemma_derived_fields_exclusive(
    command: Seq<char>,
    path: Seq<char>,
    created: Stamped,
    modified: Stamped,
    accessed: Stamped,
    verbose: bool,
)
    ensures
        ({
            let ov = derived_view(command, path, created, modified, accessed, verbose);
            &&& !(ov.updated is Some && ov.modified is Some)
            &&& (created.at == modified.at <==> ov.updated is None && ov.modified is None)
            &&& (created.at != modified.at <==> (ov.updated is Some) != (ov.modified is Some))
        }),
{
}

impl Output {
    /// Builds the success record for one metadata snapshot.
    pub fn new(
        command: String,
        path: String,
        created: Stamped,
        modified: Stamped,
        accessed: Stamped,
        verbose: bool,
    ) -> (out: Output)
        ensures
            out@ == derived_view(command@, path@, created, modified, accessed, verbose),
    {
        let updated = if modified.at.is_before(&created.at) {
            Some(modified.shown.clone())
        } else {
            None
        };
        let modified_after = if created.at.is_before(&modified.at) {
            Some(modified.shown.clone())
        } else {
            None
        };
        let legend = if verbose {
            Some(
                String::from_str(
                    "Updated: This is when the command was likely last modified by its developers before being added to your computer.\nCreated: This is when the command was first added to your computer.\nModified: This is when the command was last changed or updated on your computer.\nAccessed: This is when the command was last accessed or executed on your computer.\n",
                ),
            )
        } else {
            None
        };
        Output {
            command,
            path,
            created: created.shown,
            updated,
            modified: modified_after,
            accessed: accessed.shown,
            legend,
        }
    }

    /// Renders the record as fixed-label text lines: under verbose the legend
    /// block and the command line come first; the optional timestamp lines
    /// appear only when populated.
    pub fn to_string(&self, verbose: bool) -> (r: String)
        ensures
            r@ == text_of(self@, verbose),
    {
        let mut out: Vec<char> = Vec::new();
        if verbose {
            match &self.legend {
                Some(l) => {
                    push_str_chars(&mut out, "Legend\n");
                    push_str_chars(&mut out, l.as_str());
                    push_str_chars(&mut out, "\n");
                },
                None => {},
            }
            push_str_chars(&mut out, "Command       : ");
            push_str_chars(&mut out, self.command.as_str());
            push_str_chars(&mut out, "\n");
        }
        push_str_chars(&mut out, "Path          : ");
        push_str_chars(&mut out, self.path.as_str());
        push_str_chars(&mut out, "\n");
        match &self.updated {
            Some(u) => {
                push_str_chars(&mut out, "Updated   : ");
                push_str_chars(&mut out, u.as_str());
                push_str_chars(&mut out, "\n");
            },
            None => {},
        }
        push_str_chars(&mut out, "Created       : ");
        push_str_chars(&mut out, self.created.as_str());
        push_str_chars(&mut out, "\n");
        match &self.modified {
            Some(m) => {
                push_str_chars(&mut out, "Modified  : ");
                push_str_chars(&mut out, m.as_str());
                push_str_chars(&mut out, "\n");
            },
            None => {},
        }
        push_str_chars(&mut out, "Accessed      : ");
        push_str_chars(&mut out, self.accessed.as_str());
        push_str_chars(&mut out, "\n");
        proof {
            assert(out@ =~= text_of(self@, verbose));
        }
        string_from_chars(&out)
    }
}

/// The text-mode rendering of a success record.
pub open spec fn text_of(o: OutputView, verbose: bool) -> Seq<char> {
    (if verbose {
        (match o.legend {
            Some(l) => "Legend\n"@ + l + "\n"@,
            None => Seq::<char>::empty(),
        }) + "Command       : "@ + o.command + "\n"@
    } else {
        Seq::<char>::empty()
    }) + "Path          : "@ + o.path + "\n"@ + (match o.updated {
        Some(u) => "Updated   : "@ + u + "\n"@,
        None => Seq::<char>::empty(),
    }) + "Created       : "@ + o.created + "\n"@ + (match o.modified {
        Some(m) => "Modified  : "@ + m + "\n"@,
        None => Seq::<char>::empty(),
    }) + "Accessed      : "@ + o.accessed + "\n"@
}

/// The fields of an error record, as character sequences.
#[verifier::ext_equal]
pub ghost struct ErrorView {
    pub command: Seq<char>,
    pub path: Seq<char>,
    pub error: Seq<char>,
}

/// A failed lookup: the requested command, the path whose metadata could not
/// be read, and the cause as reported by the platform.
#[derive(Debug)]
pub struct OutputError {
    pub command: String,
    pub path: String,
    pub error: String,
}

impl View for OutputError {
    type V = ErrorView;

    open spec fn view(&self) -> ErrorView {
        ErrorView { command: self.command@, path: self.path@, error: self.error@ }
    }
}

/// The single text-mode line of an error record.
pub open spec fn error_line_of(e: ErrorView) -> Seq<char> {
    "Error: could not get the metadata for command: "@ + e.command + " at path: "@ + e.path
        + ". Error: "@ + e.error
}

impl OutputError {
    /// Renders the error as its single text line.
    pub fn to_string(&self) -> (r: String)
        ensures
            r@ == error_line_of(self@),
    {
        let mut out: Vec<char> = Vec::new();
        push_str_chars(&mut out, "Error: could not get the metadata for command: ");
        push_str_chars(&mut out, self.command.as_str());
        push_str_chars(&mut out, " at path: ");
        push_str_chars(&mut out, self.path.as_str());
        push_str_chars(&mut out, ". Error: ");
        push_str_chars(&mut out, self.error.as_str());
        proof {
            assert(out@ =~= error_line_of(self@));
        }
        string_from_chars(&out)
    }
}

} // verus!
