//! The folder orchestrator: combining both categories' files, aggregating
//! the two group summaries into one report, and producing the per-file
//! progress notifications.

use vstd::prelude::*;
use vstd::string::StringExecFns;
use crate::types::CombineReport;
use crate::types::Error;
use crate::types::FileRead;
use crate::types::FileType;
use crate::types::GroupSummary;
use crate::types::ProgressEvent;
use crate::types::error_is;
use crate::types::view_of_opt_str;
use crate::classify::bead_output_name;
use crate::classify::motor_output_name;
use crate::classify::output_filename;
use crate::combine::combine_group;
use crate::combine::combine_group_spec;
use crate::text::join_path;
use crate::text::joined_path;

verus! {

/// What combining a folder returns, given what the caller observed: the scan
/// error if the folder could not be listed, else each category's reads. The
/// two optional byte vectors are the outputs to write, present exactly when
/// the category's summary names an output path.
pub open spec fn combine_folder_spec(
    folder: Seq<char>,
    scan_error: Option<Seq<char>>,
    bead_reads: Seq<FileRead>,
    motor_reads: Seq<FileRead>,
    report: CombineReport,
    bead_out: Option<Vec<u8>>,
    motor_out: Option<Vec<u8>>,
) -> bool {
    &&& report.folder@ == folder
    &&& match scan_error {
        Some(e) => {
            &&& report.bead_files == 0
            &&& report.motor_files == 0
            &&& report.bead is None
            &&& report.motor is None
            &&& report.errors@.len() == 1
            &&& error_is(report.errors@[0], None, "Failed to scan folder: "@ + e)
            &&& bead_out is None
            &&& motor_out is None
        },
        None => {
            &&& report.bead_files == bead_reads.len()
            &&& report.motor_files == motor_reads.len()
            &&& report.errors@.len() == 0
            &&& match report.bead {
                Some(gs) => bead_reads.len() > 0 && combine_group_spec(
                    FileType::Bead,
                    bead_reads,
                    joined_path(folder, bead_output_name()),
                    gs,
                    bead_out,
                ),
                None => bead_reads.len() == 0 && bead_out is None,
            }
            &&& match report.motor {
                Some(gs) => motor_reads.len() > 0 && combine_group_spec(
                    FileType::Motor,
                    motor_reads,
                    joined_path(folder, motor_output_name()),
                    gs,
                    motor_out,
                ),
                None => motor_reads.len() == 0 && motor_out is None,
            }
        },
    }
}

/// The event is the per-file combine notification with the given fields.
pub open spec fn is_combine_event(
    e: ProgressEvent,
    processed: int,
    total: int,
    ft: FileType,
    path: Seq<char>,
) -> bool {
    match e {
        ProgressEvent::Combine { processed_files, total_files, file_type, current_file } => {
            &&& processed_files == processed
            &&& total_files == total
            &&& file_type == ft
            &&& current_file@ == path
        },
        _ => false,
    }
}

/// The combine notifications: one per file, bead files first in list order,
/// then motor files, carrying a running count across both categories whose
/// total is fixed before combining starts.
pub open spec fn combine_events_spec(
    bead_reads: Seq<FileRead>,
    motor_reads: Seq<FileRead>,
    events: Seq<ProgressEvent>,
) -> bool {
    let total = bead_reads.len() + motor_reads.len();
    &&& events.len() == total
    &&& (forall|i: int|
        0 <= i < bead_reads.len() ==> is_combine_event(
            events[i],
            i + 1,
            total as int,
            FileType::Bead,
            bead_reads[i].path@,
        ))
    &&& (forall|j: int|
        0 <= j < motor_reads.len() ==> is_combine_event(
            events[bead_reads.len() + j],
            bead_reads.len() + j + 1,
            total as int,
            FileType::Motor,
            motor_reads[j].path@,
        ))
}

/// Combines a whole folder: both categories, aggregated into one report,
/// together with the output bytes to write for each category.
pub fn combine_folder(
    folder: &str,
    scan_error: Option<&str>,
    bead_reads: &Vec<FileRead>,
    motor_reads: &Vec<FileRead>,
) -> (r: (CombineReport, Option<Vec<u8>>, Option<Vec<u8>>))
    requires
        bead_reads@.len() + motor_reads@.len() <= usize::MAX,
    ensures
        combine_folder_spec(
            folder@,
            view_of_opt_str(scan_error),
            bead_reads@,
            motor_reads@,
            r.0,
            r.1,
            r.2,
        ),
{
    let (report, bead_out, motor_out, _events) = combine_folder_with_progress(
        folder,
        scan_error,
        bead_reads,
        motor_reads,
    );
    (report, bead_out, motor_out)
}

/// Like [`combine_folder`], and also returns the per-file combine
/// notifications in the order they would be shown.
pub fn combine_folder_with_progress(
    folder: &str,
    scan_error: Option<&str>,
    bead_reads: &Vec<FileRead>,
    motor_reads: &Vec<FileRead>,
) -> (r: (CombineReport, Option<Vec<u8>>, Option<Vec<u8>>, Vec<ProgressEvent>))
    requires
        bead_reads@.len() + motor_reads@.len() <= usize::MAX,
    ensures
        combine_folder_spec(
            folder@,
            view_of_opt_str(scan_error),
            bead_reads@,
            motor_reads@,
            r.0,
            r.1,
            r.2,
        ),
        view_of_opt_str(scan_error) is None ==> combine_events_spec(
            bead_reads@,
            motor_reads@,
            r.3@,
        ),
{
    let folder_string = folder.to_owned();
    match scan_error {
        Some(e) => {
            let mut message = "Failed to scan folder: ".to_owned();
            message.append(e);
            let mut errors: Vec<Error> = Vec::new();
            errors.push(Error { file: None, message });
            let report = CombineReport {
                folder: folder_string,
                bead_files: 0,
                motor_files: 0,
                bead: None,
                motor: None,
                errors,
            };
            (report, None, None, Vec::new())
        },
        None => {
            let total = bead_reads.len() + motor_reads.len();
            let mut events: Vec<ProgressEvent> = Vec::new();
            let mut i: usize = 0;
            while i < bead_reads.len()
                invariant
                    i <= bead_reads@.len(),
                    bead_reads@.len() + motor_reads@.len() <= usize::MAX,
                    total == bead_reads@.len() + motor_reads@.len(),
                    events@.len() == i,
                    forall|m: int|
                        0 <= m < i ==> is_combine_event(
                            events@[m],
                            m + 1,
                            total as int,
                            FileType::Bead,
                            bead_reads@[m].path@,
                        ),
                decreases bead_reads@.len() - i,
            {
                events.push(
                    ProgressEvent::Combine {
                        processed_files: i + 1,
                        total_files: total,
                        file_type: FileType::Bead,
                        current_file: bead_reads[i].path.clone(),
                    },
                );
                i = i + 1;
            }
            let mut j: usize = 0;
            while j < motor_reads.len()
                invariant
                    j <= motor_reads@.len(),
                    bead_reads@.len() + motor_reads@.len() <= usize::MAX,
                    total == bead_reads@.len() + motor_reads@.len(),
                    events@.len() == bead_reads@.len() + j,
                    forall|m: int|
                        0 <= m < bead_reads@.len() ==> is_combine_event(
                            events@[m],
                            m + 1,
                            total as int,
                            FileType::Bead,
                            bead_reads@[m].path@,
                        ),
                    forall|m: int|
                        0 <= m < j ==> is_combine_event(
                            events@[bead_reads@.len() + m],
                            bead_reads@.len() + m + 1,
                            total as int,
                            FileType::Motor,
                            motor_reads@[m].path@,
                        ),
                decreases motor_reads@.len() - j,
            {
                events.push(
                    ProgressEvent::Combine {
                        processed_files: bead_reads.len() + j + 1,
                        total_files: total,
                        file_type: FileType::Motor,
                        current_file: motor_reads[j].path.clone(),
                    },
                );
                j = j + 1;
            }
            let (bead, bead_out): (Option<GroupSummary>, Option<Vec<u8>>) = if bead_reads.len() > 0 {
                let path = join_path(folder, output_filename(FileType::Bead));
                let (gs, out) = combine_group(FileType::Bead, bead_reads, path.as_str());
                (Some(gs), out)
            } else {
                (None, None)
            };
            let (motor, motor_out): (Option<GroupSummary>, Option<Vec<u8>>) = if motor_reads.len() > 0 {
                let path = join_path(folder, output_filename(FileType::Motor));
                let (gs, out) = combine_group(FileType::Motor, motor_reads, path.as_str());
                (Some(gs), out)
            } else {
                (None, None)
            };
            let report = CombineReport {
                folder: folder_string,
                bead_files: bead_reads.len(),
                motor_files: motor_reads.len(),
                bead,
                motor,
                errors: Vec::new(),
            };
            (report, bead_out, motor_out, events)
        },
    }
}

} // verus!
