//! Rendering the report for display and flattening its warnings and errors.

use vstd::prelude::*;
use vstd::string::StringExecFns;
use crate::types::CombineReport;
use crate::types::Error;
use crate::types::GroupSummary;
use crate::types::Warning;
use crate::text::dec_rep;
use crate::text::fmt_usize;

verus! {

/// A line break.
pub open spec fn nl() -> Seq<char> {
    "\n"@
}

/// The display line of one group: its output path, or a note that none was
/// created, and its data-line count.
pub open spec fn group_text(summary: Option<GroupSummary>, label: Seq<char>) -> Seq<char> {
    match summary {
        Some(gs) => label + " output: "@ + (match gs.output_path {
            Some(p) => p@,
            None => "(not created)"@,
        }) + " (lines: "@ + dec_rep(gs.data_lines as nat) + ")"@,
        None => label + " output: (not created)"@,
    }
}

/// All warnings of the report: the bead group's, then the motor group's.
pub open spec fn warnings_of_report(r: CombineReport) -> Seq<Warning> {
    (match r.bead {
        Some(gs) => gs.warnings@,
        None => Seq::empty(),
    }) + (match r.motor {
        Some(gs) => gs.warnings@,
        None => Seq::empty(),
    })
}

/// All errors of the report: folder-level first, then the bead group's,
/// then the motor group's.
pub open spec fn errors_of_report(r: CombineReport) -> Seq<Error> {
    r.errors@ + (match r.bead {
        Some(gs) => gs.errors@,
        None => Seq::empty(),
    }) + (match r.motor {
        Some(gs) => gs.errors@,
        None => Seq::empty(),
    })
}

/// One display line per warning.
pub open spec fn warnings_text(ws: Seq<Warning>) -> Seq<char>
    decreases ws.len(),
{
    if ws.len() == 0 {
        Seq::empty()
    } else {
        warnings_text(ws.drop_last()) + "- "@ + ws.last().file@ + ": "@ + ws.last().message@
            + nl()
    }
}

/// One display line per error, with the file named when there is one.
pub open spec fn errors_text(es: Seq<Error>) -> Seq<char>
    decreases es.len(),
{
    if es.len() == 0 {
        Seq::empty()
    } else {
        errors_text(es.drop_last()) + (match es.last().file {
            Some(f) => "- "@ + f@ + ": "@ + es.last().message@ + nl(),
            None => "- "@ + es.last().message@ + nl(),
        })
    }
}

/// The warnings section, absent when there is no warning.
pub open spec fn warnings_block(ws: Seq<Warning>) -> Seq<char> {
    if ws.len() == 0 {
        Seq::empty()
    } else {
        "Warnings:"@ + nl() + warnings_text(ws)
    }
}

/// The errors section, absent when there is no error.
pub open spec fn errors_block(es: Seq<Error>) -> Seq<char> {
    if es.len() == 0 {
        Seq::empty()
    } else {
        "Errors:"@ + nl() + errors_text(es)
    }
}

/// The whole displayed report: folder, counts, and — unless no file matched
/// at all — both group lines and the warning and error sections.
pub open spec fn report_text(r: CombineReport) -> Seq<char> {
    let head = "Folder: "@ + r.folder@ + nl() + "Bead files: "@ + dec_rep(r.bead_files as nat)
        + nl() + "Motor files: "@ + dec_rep(r.motor_files as nat) + nl();
    if r.bead_files == 0 && r.motor_files == 0 {
        head + "No matching files found."@ + nl()
    } else {
        head + group_text(r.bead, "Bead"@) + nl() + group_text(r.motor, "Motor"@) + nl()
            + warnings_block(warnings_of_report(r)) + errors_block(errors_of_report(r))
    }
}

/// The summary behind an optional reference, as a value.
pub open spec fn copied_summary(summary: Option<&GroupSummary>) -> Option<GroupSummary> {
    match summary {
        Some(gs) => Some(*gs),
        None => None,
    }
}

fn clone_warning(w: &Warning) -> (r: Warning)
    ensures
        r == *w,
{
    Warning { file: w.file.clone(), message: w.message.clone() }
}

fn clone_error(e: &Error) -> (r: Error)
    ensures
        r == *e,
{
    let file = match &e.file {
        Some(f) => Some(f.clone()),
        None => None,
    };
    Error { file, message: e.message.clone() }
}

fn push_warnings(out: &mut Vec<Warning>, ws: &Vec<Warning>)
    ensures
        final(out)@ == old(out)@ + ws@,
{
    let mut i: usize = 0;
    while i < ws.len()
        invariant
            i <= ws@.len(),
            out@ == old(out)@ + ws@.take(i as int),
        decreases ws@.len() - i,
    {
        out.push(clone_warning(&ws[i]));
        proof {
            assert(old(out)@ + ws@.take(i as int + 1) =~= (old(out)@ + ws@.take(i as int)).push(
                ws@[i as int],
            ));
        }
        i = i + 1;
    }
    proof {
        assert(ws@.take(ws@.len() as int) =~= ws@);
    }
}

fn push_errors(out: &mut Vec<Error>, es: &Vec<Error>)
    ensures
        final(out)@ == old(out)@ + es@,
{
    let mut i: usize = 0;
    while i < es.len()
        invariant
            i <= es@.len(),
            out@ == old(out)@ + es@.take(i as int),
        decreases es@.len() - i,
    {
        out.push(clone_error(&es[i]));
        proof {
            assert(old(out)@ + es@.take(i as int + 1) =~= (old(out)@ + es@.take(i as int)).push(
                es@[i as int],
            ));
        }
        i = i + 1;
    }
    proof {
        assert(es@.take(es@.len() as int) =~= es@);
    }
}

/// Flattens the report's warnings: the bead group's, then the motor group's.
pub fn collect_warnings(report: &CombineReport) -> (r: Vec<Warning>)
    ensures
        r@ == warnings_of_report(*report),
{
    let mut out: Vec<Warning> = Vec::new();
    proof {
        assert(out@ + Seq::<Warning>::empty() =~= out@);
    }
    match &report.bead {
        Some(gs) => push_warnings(&mut out, &gs.warnings),
        None => {},
    }
    match &report.motor {
        Some(gs) => push_warnings(&mut out, &gs.warnings),
        None => {},
    }
    proof {
        assert(out@ =~= warnings_of_report(*report));
    }
    out
}

/// Flattens the report's errors: folder-level, then the bead group's, then
/// the motor group's.
pub fn collect_errors(report: &CombineReport) -> (r: Vec<Error>)
    ensures
        r@ == errors_of_report(*report),
{
    let mut out: Vec<Error> = Vec::new();
    push_errors(&mut out, &report.errors);
    match &report.bead {
        Some(gs) => push_errors(&mut out, &gs.errors),
        None => {},
    }
    match &report.motor {
        Some(gs) => push_errors(&mut out, &gs.errors),
        None => {},
    }
    proof {
        assert(out@ =~= errors_of_report(*report));
    }
    out
}

/// Renders one group's display line, without a line break.
pub fn format_group_output(summary: Option<&GroupSummary>, label: &str) -> (r: String)
    ensures
        r@ == group_text(copied_summary(summary), label@),
{
    match summary {
        Some(gs) => {
            let mut s = label.to_owned();
            s.append(" output: ");
            match &gs.output_path {
                Some(p) => s.append(p.as_str()),
                None => s.append("(not created)"),
            }
            s.append(" (lines: ");
            let count = fmt_usize(gs.data_lines);
            s.append(count.as_str());
            s.append(")");
            s
        },
        None => {
            let mut s = label.to_owned();
            s.append(" output: (not created)");
            s
        },
    }
}

/// Renders the whole report for display.
pub fn render_report(report: &CombineReport) -> (r: String)
    ensures
        r@ == report_text(*report),
{
    let mut s = "Folder: ".to_owned();
    s.append(report.folder.as_str());
    s.append("\n");
    s.append("Bead files: ");
    let bead_count = fmt_usize(report.bead_files);
    s.append(bead_count.as_str());
    s.append("\n");
    s.append("Motor files: ");
    let motor_count = fmt_usize(report.motor_files);
    s.append(motor_count.as_str());
    s.append("\n");
    if report.bead_files == 0 && report.motor_files == 0 {
        s.append("No matching files found.");
        s.append("\n");
        proof {
            assert(s@ =~= report_text(*report));
        }
        return s;
    }
    let bead_line = format_group_output(report.bead.as_ref(), "Bead");
    s.append(bead_line.as_str());
    s.append("\n");
    let motor_line = format_group_output(report.motor.as_ref(), "Motor");
    s.append(motor_line.as_str());
    s.append("\n");
    let warnings = collect_warnings(report);
    if warnings.len() > 0 {
        s.append("Warnings:");
        s.append("\n");
        let mut i: usize = 0;
        let ghost base = s@;
        proof {
            assert(s@ =~= base + warnings_text(warnings@.take(0)));
        }
        while i < warnings.len()
            invariant
                i <= warnings@.len(),
                s@ == base + warnings_text(warnings@.take(i as int)),
            decreases warnings@.len() - i,
        {
            let ghost cur = warnings@.take(i as int + 1);
            s.append("- ");
            s.append(warnings[i].file.as_str());
            s.append(": ");
            s.append(warnings[i].message.as_str());
            s.append("\n");
            proof {
                assert(cur.drop_last() =~= warnings@.take(i as int));
                assert(cur.last() == warnings@[i as int]);
                assert(s@ =~= base + warnings_text(cur));
            }
            i = i + 1;
        }
        proof {
            assert(warnings@.take(warnings@.len() as int) =~= warnings@);
        }
    }
    let errors = collect_errors(report);
    if errors.len() > 0 {
        s.append("Errors:");
        s.append("\n");
        let mut i: usize = 0;
        let ghost base = s@;
        proof {
            assert(s@ =~= base + errors_text(errors@.take(0)));
        }
        while i < errors.len()
            invariant
                i <= errors@.len(),
                s@ == base + errors_text(errors@.take(i as int)),
            decreases errors@.len() - i,
        {
            let ghost cur = errors@.take(i as int + 1);
            s.append("- ");
            match &errors[i].file {
                Some(f) => {
                    s.append(f.as_str());
                    s.append(": ");
                },
                None => {},
            }
            s.append(errors[i].message.as_str());
            s.append("\n");
            proof {
                assert(cur.drop_last() =~= errors@.take(i as int));
                assert(cur.last() == errors@[i as int]);
                assert(s@ =~= base + errors_text(cur));
            }
            i = i + 1;
        }
        proof {
            assert(errors@.take(errors@.len() as int) =~= errors@);
        }
    }
    proof {
        assert(s@ =~= report_text(*report));
    }
    s
}

} // verus!
