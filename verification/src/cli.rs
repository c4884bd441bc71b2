//! The command-line decision logic: argument validation, exit code, and the
//! exact text written to each stream. The caller performs the folder check,
//! the directory listing and the file reads, and hands their outcomes in.

use vstd::prelude::*;
use vstd::string::StringExecFns;
use crate::types::CombineReport;
use crate::types::FileRead;
use crate::types::view_of_opt_str;
use crate::folder::combine_folder;
use crate::folder::combine_folder_spec;
use crate::report::nl;
use crate::report::render_report;
use crate::report::report_text;

verus! {

/// What one command-line run produces: the process exit code, the text for
/// the output and error streams, the report when a run happened, and the
/// combined output bytes to write for each category.
pub struct CliRun {
    pub exit_code: i32,
    pub out_text: String,
    pub err_text: String,
    pub report: Option<CombineReport>,
    pub bead_output: Option<Vec<u8>>,
    pub motor_output: Option<Vec<u8>>,
}

/// Decides one command-line invocation. The caller passes the arguments,
/// whether the named folder is a directory, and — when it is — the listing
/// and read outcomes. A wrong argument count or a non-directory argument
/// exits with code 2 and writes only to the error stream; otherwise the run
/// proceeds and the formatted report goes to the output stream with code 0.
pub fn run_cli(
    args: &Vec<String>,
    folder_is_dir: bool,
    scan_error: Option<&str>,
    bead_reads: &Vec<FileRead>,
    motor_reads: &Vec<FileRead>,
) -> (r: CliRun)
    requires
        bead_reads@.len() + motor_reads@.len() <= usize::MAX,
    ensures
        args@.len() != 2 ==> {
            &&& r.exit_code == 2
            &&& r.out_text@ == Seq::<char>::empty()
            &&& r.err_text@ == "Usage: magmerge_cli <folder>"@ + nl()
            &&& r.report is None
            &&& r.bead_output is None
            &&& r.motor_output is None
        },
        args@.len() == 2 && !folder_is_dir ==> {
            &&& r.exit_code == 2
            &&& r.out_text@ == Seq::<char>::empty()
            &&& r.err_text@ == "Error: not a folder: "@ + args@[1]@ + nl()
            &&& r.report is None
            &&& r.bead_output is None
            &&& r.motor_output is None
        },
        args@.len() == 2 && folder_is_dir ==> {
            &&& r.exit_code == 0
            &&& r.err_text@ == Seq::<char>::empty()
            &&& match r.report {
                Some(rep) => {
                    &&& combine_folder_spec(
                        args@[1]@,
                        view_of_opt_str(scan_error),
                        bead_reads@,
                        motor_reads@,
                        rep,
                        r.bead_output,
                        r.motor_output,
                    )
                    &&& r.out_text@ == report_text(rep)
                },
                None => false,
            }
        },
{
    if args.len() != 2 {
        let mut err_text = "Usage: magmerge_cli <folder>".to_owned();
        err_text.append("\n");
        return CliRun {
            exit_code: 2,
            out_text: String::new(),
            err_text,
            report: None,
            bead_output: None,
            motor_output: None,
        };
    }
    if !folder_is_dir {
        let mut err_text = "Error: not a folder: ".to_owned();
        err_text.append(args[1].as_str());
        err_text.append("\n");
        return CliRun {
            exit_code: 2,
            out_text: String::new(),
            err_text,
            report: None,
            bead_output: None,
            motor_output: None,
        };
    }
    let (report, bead_output, motor_output) = combine_folder(
        args[1].as_str(),
        scan_error,
        bead_reads,
        motor_reads,
    );
    let out_text = render_report(&report);
    CliRun {
        exit_code: 0,
        out_text,
        err_text: String::new(),
        report: Some(report),
        bead_output,
        motor_output,
    }
}

} // verus!
