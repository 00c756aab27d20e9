//! The canonical structured rendering of the two records, and its decoder.
//!
//! A success record is written as one object with the keys `command`, `path`,
//! `created`, `updated`, `modified`, `accessed`, `legend`, in that order, two
//! spaces of indentation and one field per line; an optional field whose value
//! is absent is omitted entirely. An error record carries exactly `command`,
//! `path` and `error`. `from_json` decodes exactly this shape, and the two
//! round-trip lemmas show that it reconstructs every encoded record.

use vstd::prelude::*;
use crate::chars::{chars_of, push_str_chars, string_from_chars};
use crate::escape::{
    escape, escape_push, expect, expect_at, lemma_expect_prefix, lemma_parse_escaped, parse_string,
    parse_string_at,
};
use crate::record::{ErrorView, Output, OutputError, OutputView};

verus! {

pub open spec fn lit_head() -> Seq<char> {
    "{\n  \"command\": \""@
}

pub open spec fn lit_path() -> Seq<char> {
    ",\n  \"path\": \""@
}

pub open spec fn lit_created() -> Seq<char> {
    ",\n  \"created\": \""@
}

pub open spec fn lit_updated() -> Seq<char> {
    ",\n  \"updated\": \""@
}

pub open spec fn lit_modified() -> Seq<char> {
    ",\n  \"modified\": \""@
}

pub open spec fn lit_accessed() -> Seq<char> {
    ",\n  \"accessed\": \""@
}

pub open spec fn lit_legend() -> Seq<char> {
    ",\n  \"legend\": \""@
}

pub open spec fn lit_error() -> Seq<char> {
    ",\n  \"error\": \""@
}

pub open spec fn lit_end() -> Seq<char> {
    "\n}"@
}

/// One quoted field value, closed by its quote, and what follows it.
pub open spec fn fld(v: Seq<char>, rest: Seq<char>) -> Seq<char> {
    escape(v) + seq!['"'] + rest
}

/// An optional field: when the value is absent, nothing is emitted at all.
pub open spec fn opt_fld(v: Option<Seq<char>>, lit: Seq<char>, rest: Seq<char>) -> Seq<char> {
    match v {
        Some(x) => lit + fld(x, rest),
        None => rest,
    }
}

/// The canonical structured rendering of a success record.
pub open spec fn json_of(o: OutputView) -> Seq<char> {
    lit_head() + fld(
        o.command,
        lit_path() + fld(
            o.path,
            lit_created() + fld(
                o.created,
                opt_fld(
                    o.updated,
                    lit_updated(),
                    opt_fld(
                        o.modified,
                        lit_modified(),
                        lit_accessed() + fld(o.accessed, opt_fld(o.legend, lit_legend(), lit_end())),
                    ),
                ),
            ),
        ),
    )
}

/// The canonical structured rendering of an error record: exactly the fields
/// `command`, `path` and `error`, and no others.
pub open spec fn json_of_error(e: ErrorView) -> Seq<char> {
    lit_head() + fld(e.command, lit_path() + fld(e.path, lit_error() + fld(e.error, lit_end())))
}

/// A mandatory field: its key literal, then a quoted value.
pub open spec fn parse_field(s: Seq<char>, lit: Seq<char>) -> Option<(Seq<char>, Seq<char>)> {
    match expect(s, lit) {
        Some(s2) => parse_string(s2),
        None => None,
    }
}

/// An optional field: absent when the key literal does not follow.
pub open spec fn parse_opt_field(s: Seq<char>, lit: Seq<char>) -> Option<
    (Option<Seq<char>>, Seq<char>),
> {
    match expect(s, lit) {
        Some(s2) => match parse_string(s2) {
            Some(p) => Some((Some(p.0), p.1)),
            None => None,
        },
        None => Some((None, s)),
    }
}

/// Decodes the canonical structured rendering of a success record.
pub open spec fn parse_output(s: Seq<char>) -> Option<OutputView> {
    match parse_field(s, lit_head()) {
        None => None,
        Some((command, s1)) => match parse_field(s1, lit_path()) {
            None => None,
            Some((path, s2)) => match parse_field(s2, lit_created()) {
                None => None,
                Some((created, s3)) => match parse_opt_field(s3, lit_updated()) {
                    None => None,
                    Some((updated, s4)) => match parse_opt_field(s4, lit_modified()) {
                        None => None,
                        Some((modified, s5)) => match parse_field(s5, lit_accessed()) {
                            None => None,
                            Some((accessed, s6)) => match parse_opt_field(s6, lit_legend()) {
                                None => None,
                                Some((legend, s7)) => if s7 == lit_end() {
                                    Some(
                                        OutputView {
                                            command,
                                            path,
                                            created,
                                            updated,
                                            modified,
                                            accessed,
                                            legend,
                                        },
                                    )
                                } else {
                                    None
                                },
                            },
                        },
                    },
                },
            },
        },
    }
}

/// Decodes the canonical structured rendering of an error record.
pub open spec fn parse_error(s: Seq<char>) -> Option<ErrorView> {
    match parse_field(s, lit_head()) {
        None => None,
        Some((command, s1)) => match parse_field(s1, lit_path()) {
            None => None,
            Some((path, s2)) => match parse_field(s2, lit_error()) {
                None => None,
                Some((error, s3)) => if s3 == lit_end() {
                    Some(ErrorView { command, path, error })
                } else {
                    None
                },
            },
        },
    }
}

proof fn lemma_parse_field_of(v: Seq<char>, lit: Seq<char>, rest: Seq<char>)
    ensures
        parse_field(lit + fld(v, rest), lit) == Some((v, rest)),
{
    lemma_expect_prefix(lit, fld(v, rest));
    lemma_parse_escaped(v, rest);
}

proof fn lemma_expect_differs(s: Seq<char>, lit: Seq<char>, j: int)
    requires
        0 <= j < lit.len(),
        j < s.len(),
        s[j] != lit[j],
    ensures
        expect(s, lit) is None,
{
    if lit.len() <= s.len() && s.take(lit.len() as int) == lit {
        assert(s.take(lit.len() as int)[j] == s[j]);
        assert(false);
    }
}

/// Decoding inverts the structured rendering of a success record: every field
/// that was present comes back exactly, and the absent ones stay absent.
pub proof fn lemma_output_json_round_trip(o: OutputView)
    ensures
        parse_output(json_of(o)) == Some(o),
{
    reveal_strlit(",\n  \"updated\": \"");
    reveal_strlit(",\n  \"modified\": \"");
    reveal_strlit(",\n  \"accessed\": \"");
    reveal_strlit(",\n  \"legend\": \"");
    reveal_strlit("\n}");
    let r6 = opt_fld(o.legend, lit_legend(), lit_end());
    let r5 = lit_accessed() + fld(o.accessed, r6);
    let r4 = opt_fld(o.modified, lit_modified(), r5);
    let r3 = opt_fld(o.updated, lit_updated(), r4);
    let r2 = lit_created() + fld(o.created, r3);
    let r1 = lit_path() + fld(o.path, r2);
    lemma_parse_field_of(o.command, lit_head(), r1);
    lemma_parse_field_of(o.path, lit_path(), r2);
    lemma_parse_field_of(o.created, lit_created(), r3);
    match o.updated {
        Some(u) => {
            lemma_expect_prefix(lit_updated(), fld(u, r4));
            lemma_parse_escaped(u, r4);
            assert(parse_opt_field(r3, lit_updated()) == Some((Some(u), r4)));
        },
        None => {
            match o.modified {
                Some(m) => {
                    assert(r4[5] == 'm');
                    lemma_expect_differs(r4, lit_updated(), 5);
                },
                None => {
                    assert(r4[5] == 'a');
                    lemma_expect_differs(r4, lit_updated(), 5);
                },
            }
            assert(parse_opt_field(r3, lit_updated()) == Some((None::<Seq<char>>, r3)));
        },
    }
    match o.modified {
        Some(m) => {
            lemma_expect_prefix(lit_modified(), fld(m, r5));
            lemma_parse_escaped(m, r5);
            assert(parse_opt_field(r4, lit_modified()) == Some((Some(m), r5)));
        },
        None => {
            assert(r5[5] == 'a');
            lemma_expect_differs(r5, lit_modified(), 5);
            assert(parse_opt_field(r4, lit_modified()) == Some((None::<Seq<char>>, r4)));
        },
    }
    lemma_parse_field_of(o.accessed, lit_accessed(), r6);
    match o.legend {
        Some(l) => {
            lemma_expect_prefix(lit_legend(), fld(l, lit_end()));
            lemma_parse_escaped(l, lit_end());
            assert(parse_opt_field(r6, lit_legend()) == Some((Some(l), lit_end())));
        },
        None => {
            assert(lit_end().len() == 2);
            assert(lit_legend().len() == 15);
            assert(expect(lit_end(), lit_legend()) is None);
            assert(parse_opt_field(r6, lit_legend()) == Some((None::<Seq<char>>, r6)));
        },
    }
    assert(parse_output(json_of(o)) == Some(
        OutputView {
            command: o.command,
            path: o.path,
            created: o.created,
            updated: o.updated,
            modified: o.modified,
            accessed: o.accessed,
            legend: o.legend,
        },
    ));
    assert(OutputView {
        command: o.command,
        path: o.path,
        created: o.created,
        updated: o.updated,
        modified: o.modified,
        accessed: o.accessed,
        legend: o.legend,
    } =~= o);
}

/// Decoding inverts the structured rendering of an error record, which holds
/// exactly the fields `command`, `path` and `error`.
pub proof fn lemma_error_json_round_trip(e: ErrorView)
    ensures
        parse_error(json_of_error(e)) == Some(e),
{
    let r2 = lit_error() + fld(e.error, lit_end());
    let r1 = lit_path() + fld(e.path, r2);
    lemma_parse_field_of(e.command, lit_head(), r1);
    lemma_parse_field_of(e.path, lit_path(), r2);
    lemma_parse_field_of(e.error, lit_error(), lit_end());
    assert(parse_error(json_of_error(e)) == Some(
        ErrorView { command: e.command, path: e.path, error: e.error },
    ));
    assert(ErrorView { command: e.command, path: e.path, error: e.error } =~= e);
}


/// Builds one key literal, the escaped value and its closing quote in front
/// of an already rendered tail.
fn prepend_quoted(lit: &str, v: &str, tail: Vec<char>) -> (r: Vec<char>)
    ensures
        r@ == lit@ + fld(v@, tail@),
{
    let mut out: Vec<char> = Vec::new();
    push_str_chars(&mut out, lit);
    escape_push(&mut out, v);
    out.push('"');
    let n: usize = tail.len();
    let mut k: usize = 0;
    while k < n
        invariant
            k <= n,
            n == tail@.len(),
            out@ == lit@ + escape(v@) + seq!['"'] + tail@.take(k as int),
        decreases n - k,
    {
        out.push(tail[k]);
        k = k + 1;
        proof {
            assert(out@ =~= lit@ + escape(v@) + seq!['"'] + tail@.take(k as int));
        }
    }
    proof {
        assert(tail@.take(n as int) =~= tail@);
        assert(lit@ + escape(v@) + seq!['"'] + tail@ =~= lit@ + fld(v@, tail@));
    }
    out
}

impl Output {
    /// Renders the record in the canonical structured format.
    pub fn to_json(&self) -> (r: String)
        ensures
            r@ == json_of(self@),
    {
        let ghost v = self@;
        let mut out: Vec<char> = chars_of("\n}");
        let ghost t6 = opt_fld(v.legend, lit_legend(), lit_end());
        match &self.legend {
            Some(l) => {
                out = prepend_quoted(",\n  \"legend\": \"", l.as_str(), out);
            },
            None => {},
        }
        proof {
            assert(out@ == t6);
        }
        let ghost t5 = lit_accessed() + fld(v.accessed, t6);
        out = prepend_quoted(",\n  \"accessed\": \"", self.accessed.as_str(), out);
        let ghost t4 = opt_fld(v.modified, lit_modified(), t5);
        match &self.modified {
            Some(m) => {
                out = prepend_quoted(",\n  \"modified\": \"", m.as_str(), out);
            },
            None => {},
        }
        proof {
            assert(out@ == t4);
        }
        let ghost t3 = opt_fld(v.updated, lit_updated(), t4);
        match &self.updated {
            Some(u) => {
                out = prepend_quoted(",\n  \"updated\": \"", u.as_str(), out);
            },
            None => {},
        }
        proof {
            assert(out@ == t3);
        }
        let ghost t2 = lit_created() + fld(v.created, t3);
        out = prepend_quoted(",\n  \"created\": \"", self.created.as_str(), out);
        let ghost t1 = lit_path() + fld(v.path, t2);
        out = prepend_quoted(",\n  \"path\": \"", self.path.as_str(), out);
        out = prepend_quoted("{\n  \"command\": \"", self.command.as_str(), out);
        proof {
            assert(out@ == json_of(v));
        }
        string_from_chars(&out)
    }

    /// Decodes the canonical structured rendering of a success record.
    pub fn from_json(s: &str) -> (r: Option<Output>)
        ensures
            match r {
                Some(o) => parse_output(s@) == Some(o@),
                None => parse_output(s@) is None,
            },
    {
        let cs = chars_of(s);
        let n: usize = cs.len();
        proof {
            assert(cs@.skip(0) =~= s@);
        }
        let j1 = match expect_at(&cs, 0, "{\n  \"command\": \"") {
            Some(j) => j,
            None => {
                return None;
            },
        };
        let (command, j2) = match parse_string_at(&cs, j1) {
            Some(p) => p,
            None => {
                return None;
            },
        };
        proof {
            assert(parse_field(s@, lit_head()) == Some((command@, cs@.skip(j2 as int))));
        }
        let j3 = match expect_at(&cs, j2, ",\n  \"path\": \"") {
            Some(j) => j,
            None => {
                return None;
            },
        };
        let (path, j4) = match parse_string_at(&cs, j3) {
            Some(p) => p,
            None => {
                return None;
            },
        };
        proof {
            assert(parse_field(cs@.skip(j2 as int), lit_path()) == Some(
                (path@, cs@.skip(j4 as int)),
            ));
        }
        let j5 = match expect_at(&cs, j4, ",\n  \"created\": \"") {
            Some(j) => j,
            None => {
                return None;
            },
        };
        let (created, j6) = match parse_string_at(&cs, j5) {
            Some(p) => p,
            None => {
                return None;
            },
        };
        proof {
            assert(parse_field(cs@.skip(j4 as int), lit_created()) == Some(
                (created@, cs@.skip(j6 as int)),
            ));
        }
        let (updated, j7): (Option<Vec<char>>, usize) = match expect_at(
            &cs,
            j6,
            ",\n  \"updated\": \"",
        ) {
            Some(k) => match parse_string_at(&cs, k) {
                Some(p) => (Some(p.0), p.1),
                None => {
                    return None;
                },
            },
            None => (None, j6),
        };
        proof {
            assert(parse_opt_field(cs@.skip(j6 as int), lit_updated()) == Some(
                (
                    match updated {
                        Some(v) => Some(v@),
                        None => None,
                    },
                    cs@.skip(j7 as int),
                ),
            ));
        }
        let (modified, j8): (Option<Vec<char>>, usize) = match expect_at(
            &cs,
            j7,
            ",\n  \"modified\": \"",
        ) {
            Some(k) => match parse_string_at(&cs, k) {
                Some(p) => (Some(p.0), p.1),
                None => {
                    return None;
                },
            },
            None => (None, j7),
        };
        proof {
            assert(parse_opt_field(cs@.skip(j7 as int), lit_modified()) == Some(
                (
                    match modified {
                        Some(v) => Some(v@),
                        None => None,
                    },
                    cs@.skip(j8 as int),
                ),
            ));
        }
        let j9 = match expect_at(&cs, j8, ",\n  \"accessed\": \"") {
            Some(j) => j,
            None => {
                return None;
            },
        };
        let (accessed, j10) = match parse_string_at(&cs, j9) {
            Some(p) => p,
            None => {
                return None;
            },
        };
        proof {
            assert(parse_field(cs@.skip(j8 as int), lit_accessed()) == Some(
                (accessed@, cs@.skip(j10 as int)),
            ));
        }
        let (legend, j11): (Option<Vec<char>>, usize) = match expect_at(
            &cs,
            j10,
            ",\n  \"legend\": \"",
        ) {
            Some(k) => match parse_string_at(&cs, k) {
                Some(p) => (Some(p.0), p.1),
                None => {
                    return None;
                },
            },
            None => (None, j10),
        };
        proof {
            assert(parse_opt_field(cs@.skip(j10 as int), lit_legend()) == Some(
                (
                    match legend {
                        Some(v) => Some(v@),
                        None => None,
                    },
                    cs@.skip(j11 as int),
                ),
            ));
        }
        let j12 = match expect_at(&cs, j11, "\n}") {
            Some(j) => j,
            None => {
                proof {
                    if cs@.skip(j11 as int) == lit_end() {
                        lemma_expect_prefix(lit_end(), Seq::<char>::empty());
                        assert(lit_end() + Seq::<char>::empty() =~= lit_end());
                        assert(false);
                    }
                }
                return None;
            },
        };
        if j12 != n {
            proof {
                assert(cs@.skip(j11 as int).len() == n - j11);
                if cs@.skip(j11 as int) == lit_end() {
                    assert(false);
                }
            }
            return None;
        }
        proof {
            assert(cs@.skip(j12 as int) =~= Seq::<char>::empty());
            assert(cs@.skip(j11 as int) =~= lit_end());
        }
        Some(
            Output {
                command: string_from_chars(&command),
                path: string_from_chars(&path),
                created: string_from_chars(&created),
                updated: match &updated {
                    Some(v) => Some(string_from_chars(v)),
                    None => None,
                },
                modified: match &modified {
                    Some(v) => Some(string_from_chars(v)),
                    None => None,
                },
                accessed: string_from_chars(&accessed),
                legend: match &legend {
                    Some(v) => Some(string_from_chars(v)),
                    None => None,
                },
            },
        )
    }
}

impl OutputError {
    /// Renders the error in the canonical structured format: exactly the
    /// fields `command`, `path` and `error`.
    pub fn to_json(&self) -> (r: String)
        ensures
            r@ == json_of_error(self@),
    {
        let ghost v = self@;
        let mut out: Vec<char> = chars_of("\n}");
        out = prepend_quoted(",\n  \"error\": \"", self.error.as_str(), out);
        out = prepend_quoted(",\n  \"path\": \"", self.path.as_str(), out);
        out = prepend_quoted("{\n  \"command\": \"", self.command.as_str(), out);
        proof {
            assert(out@ == json_of_error(v));
        }
        string_from_chars(&out)
    }

    /// Decodes the canonical structured rendering of an error record.
    pub fn from_json(s: &str) -> (r: Option<OutputError>)
        ensures
            match r {
                Some(e) => parse_error(s@) == Some(e@),
                None => parse_error(s@) is None,
            },
    {
        let cs = chars_of(s);
        let n: usize = cs.len();
        proof {
            assert(cs@.skip(0) =~= s@);
        }
        let j1 = match expect_at(&cs, 0, "{\n  \"command\": \"") {
            Some(j) => j,
            None => {
                return None;
            },
        };
        let (command, j2) = match parse_string_at(&cs, j1) {
            Some(p) => p,
            None => {
                return None;
            },
        };
        proof {
            assert(parse_field(s@, lit_head()) == Some((command@, cs@.skip(j2 as int))));
        }
        let j3 = match expect_at(&cs, j2, ",\n  \"path\": \"") {
            Some(j) => j,
            None => {
                return None;
            },
        };
        let (path, j4) = match parse_string_at(&cs, j3) {
            Some(p) => p,
            None => {
                return None;
            },
        };
        proof {
            assert(parse_field(cs@.skip(j2 as int), lit_path()) == Some(
                (path@, cs@.skip(j4 as int)),
            ));
        }
        let j5 = match expect_at(&cs, j4, ",\n  \"error\": \"") {
            Some(j) => j,
            None => {
                return None;
            },
        };
        let (error, j6) = match parse_string_at(&cs, j5) {
            Some(p) => p,
            None => {
                return None;
            },
        };
        proof {
            assert(parse_field(cs@.skip(j4 as int), lit_error()) == Some(
                (error@, cs@.skip(j6 as int)),
            ));
        }
        let j7 = match expect_at(&cs, j6, "\n}") {
            Some(j) => j,
            None => {
                proof {
                    if cs@.skip(j6 as int) == lit_end() {
                        lemma_expect_prefix(lit_end(), Seq::<char>::empty());
                        assert(lit_end() + Seq::<char>::empty() =~= lit_end());
                        assert(false);
                    }
                }
                return None;
            },
        };
        if j7 != n {
            proof {
                assert(cs@.skip(j6 as int).len() == n - j6);
                if cs@.skip(j6 as int) == lit_end() {
                    assert(false);
                }
            }
            return None;
        }
        proof {
            assert(cs@.skip(j7 as int) =~= Seq::<char>::empty());
            assert(cs@.skip(j6 as int) =~= lit_end());
        }
        Some(
            OutputError {
                command: string_from_chars(&command),
                path: string_from_chars(&path),
                error: string_from_chars(&error),
            },
        )
    }
}

} // verus!
