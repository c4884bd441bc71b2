use magscope_file_combiner::combine_folder;
use magscope_file_combiner::combine_folder_with_progress;
use magscope_file_combiner::combine_group;
use magscope_file_combiner::discover_files;
use magscope_file_combiner::discover_files_with_progress;
use magscope_file_combiner::output_filename;
use magscope_file_combiner::FileRead;
use magscope_file_combiner::FileType;
use magscope_file_combiner::FolderEntry;
use magscope_file_combiner::ProgressEvent;

fn entry(name: &str) -> FolderEntry {
    FolderEntry { name: name.to_string(), is_file: true }
}

fn read(path: &str, content: &str) -> FileRead {
    FileRead { path: path.to_string(), content: content.as_bytes().to_vec(), error: None }
}

fn unreadable(path: &str, message: &str) -> FileRead {
    FileRead { path: path.to_string(), content: Vec::new(), error: Some(message.to_string()) }
}

fn text(bytes: &Option<Vec<u8>>) -> String {
    String::from_utf8(bytes.clone().expect("output bytes")).expect("utf8")
}

#[test]
fn discover_files_sorts_and_groups() {
    let entries = vec![
        entry("Bead Positions 2.txt"),
        entry("Bead Positions 1.txt"),
        entry("Motor Positions 1.txt"),
    ];
    let discovered = discover_files("/data", &entries);
    assert_eq!(discovered.bead_files.len(), 2);
    assert_eq!(discovered.motor_files.len(), 1);
    assert!(discovered.bead_files[0].contains("Bead Positions 1"));
}

#[test]
fn combine_group_uses_first_header_and_concatenates() {
    let reads = vec![
        read("/d/Bead Positions 1.txt", "# H1\n1\n2\n"),
        read("/d/Bead Positions 2.txt", "# H2\n3\n4\n"),
    ];
    let (summary, output) = combine_group(
        FileType::Bead,
        &reads,
        "/d/Bead Positions Combined.txt",
    );
    let content = text(&output);
    assert!(content.starts_with("# H1\n"));
    assert!(content.contains("1\n"));
    assert!(content.contains("4\n"));
    assert_eq!(summary.data_lines, 4);
    assert_eq!(summary.warnings.len(), 1);
}

#[test]
fn combine_group_warns_on_header_mismatch() {
    let reads = vec![
        read("/d/Motor Positions 1.txt", "# A\n1\n"),
        read("/d/Motor Positions 2.txt", "# B\n2\n"),
    ];
    let (summary, _output) = combine_group(
        FileType::Motor,
        &reads,
        "/d/Motor Positions Combined.txt",
    );
    assert_eq!(summary.warnings.len(), 1);
    assert!(summary.warnings.iter().any(|w| w.message.contains("Header mismatch")));
}

#[test]
fn combine_folder_handles_empty_groups() {
    let (report, bead_out, motor_out) = combine_folder("/empty", None, &Vec::new(), &Vec::new());
    assert_eq!(report.bead_files, 0);
    assert_eq!(report.motor_files, 0);
    assert!(report.bead.is_none());
    assert!(report.motor.is_none());
    assert!(report.errors.is_empty());
    assert!(bead_out.is_none());
    assert!(motor_out.is_none());
}

#[test]
fn discovery_counts_match_eligible_files() {
    let entries = vec![
        entry("Bead Positions 3.txt"),
        entry("Motor Positions 1.txt"),
        entry("Bead Positions 1.txt"),
        entry("notes.txt"),
        entry("Bead Positions 2.csv"),
        FolderEntry { name: "Bead Positions sub".to_string(), is_file: false },
        entry("Bead Positions Combined.txt"),
        entry("Motor Positions Combined.txt"),
    ];
    let discovered = discover_files("/d", &entries);
    assert_eq!(discovered.bead_files.len() + discovered.motor_files.len(), 3);
    for path in discovered.bead_files.iter().chain(discovered.motor_files.iter()) {
        assert!(!path.ends_with("Combined.txt"));
    }
}

#[test]
fn discovery_ordering_is_sorted() {
    let entries = vec![
        entry("Bead Positions 10.txt"),
        entry("Bead Positions 02.txt"),
        entry("Bead Positions 1.txt"),
        entry("Bead Positions 01.txt"),
    ];
    let first = discover_files("/d", &entries);
    let names: Vec<&str> = first.bead_files.iter().map(|p| p.as_str()).collect();
    let mut expected = names.clone();
    expected.sort();
    assert_eq!(names, expected);
    let second = discover_files("/d", &entries);
    assert_eq!(first.bead_files, second.bead_files);
    assert_eq!(first.motor_files, second.motor_files);
}

#[test]
fn second_run_sees_the_same_inputs() {
    let entries = vec![entry("Bead Positions 1.txt"), entry("Bead Positions 2.txt")];
    let after_first_run = vec![
        entry("Bead Positions 1.txt"),
        entry("Bead Positions 2.txt"),
        entry("Bead Positions Combined.txt"),
        entry("Motor Positions Combined.txt"),
    ];
    let reads = vec![
        read("/d/Bead Positions 1.txt", "# H\n1\n"),
        read("/d/Bead Positions 2.txt", "2\n"),
    ];
    let first_discovery = discover_files("/d", &entries);
    let second_discovery = discover_files("/d", &after_first_run);
    assert_eq!(first_discovery.bead_files, second_discovery.bead_files);
    let (s1, o1) = combine_group(FileType::Bead, &reads, "/d/Bead Positions Combined.txt");
    let (s2, o2) = combine_group(FileType::Bead, &reads, "/d/Bead Positions Combined.txt");
    assert_eq!(s1.data_lines, s2.data_lines);
    assert_eq!(s1.header, s2.header);
    assert_eq!(o1, o2);
}

#[test]
fn header_selection_buffers_early_data() {
    let reads = vec![
        read("/d/Bead Positions A.txt", "1\n2\n"),
        read("/d/Bead Positions B.txt", "#H1\n3\n"),
        read("/d/Bead Positions C.txt", "#H2\n4\n"),
    ];
    let (summary, output) = combine_group(
        FileType::Bead,
        &reads,
        "/d/Bead Positions Combined.txt",
    );
    assert_eq!(text(&output), "#H1\n1\n2\n3\n4\n");
    assert_eq!(summary.warnings.len(), 1);
    assert_eq!(summary.warnings[0].file, "/d/Bead Positions C.txt");
}

#[test]
fn blank_lines_are_skipped() {
    let reads = vec![read("/d/Bead Positions 1.txt", "   \n\t\n\n7\n  \n")];
    let (summary, output) = combine_group(
        FileType::Bead,
        &reads,
        "/d/Bead Positions Combined.txt",
    );
    assert_eq!(summary.data_lines, 1);
    assert!(summary.header.is_none());
    assert_eq!(text(&output), "7\n");
}

#[test]
fn all_unreadable_group_creates_no_output() {
    let reads = vec![
        unreadable("/d/Bead Positions 1.txt", "permission denied"),
        unreadable("/d/Bead Positions 2.txt", "no such file"),
    ];
    let (summary, output) = combine_group(
        FileType::Bead,
        &reads,
        "/d/Bead Positions Combined.txt",
    );
    assert!(summary.output_path.is_none());
    assert!(output.is_none());
    assert_eq!(summary.data_lines, 0);
    assert_eq!(summary.errors.len(), 2);
    assert_eq!(summary.errors[0].message, "Failed to read file: permission denied");
    assert_eq!(summary.errors[0].file.as_deref(), Some("/d/Bead Positions 1.txt"));
}

#[test]
fn read_failure_skips_rest_of_file_only() {
    let reads = vec![
        FileRead {
            path: "/d/Bead Positions 1.txt".to_string(),
            content: b"# H\n1\n".to_vec(),
            error: Some("interrupted".to_string()),
        },
        read("/d/Bead Positions 2.txt", "2\n"),
    ];
    let (summary, output) = combine_group(
        FileType::Bead,
        &reads,
        "/d/Bead Positions Combined.txt",
    );
    assert_eq!(summary.errors.len(), 1);
    assert_eq!(summary.errors[0].message, "Failed to read file: interrupted");
    assert_eq!(summary.data_lines, 2);
    assert_eq!(text(&output), "# H\n1\n2\n");
}

#[test]
fn scan_failure_yields_one_folder_error() {
    let (report, bead_out, motor_out) = combine_folder(
        "/gone",
        Some("permission denied"),
        &Vec::new(),
        &Vec::new(),
    );
    assert_eq!(report.bead_files, 0);
    assert_eq!(report.motor_files, 0);
    assert!(report.bead.is_none());
    assert!(report.motor.is_none());
    assert_eq!(report.errors.len(), 1);
    assert_eq!(report.errors[0].message, "Failed to scan folder: permission denied");
    assert!(report.errors[0].file.is_none());
    assert!(bead_out.is_none());
    assert!(motor_out.is_none());
}

#[test]
fn no_header_anywhere_flushes_buffered_data() {
    let reads = vec![
        read("/d/Motor Positions 1.txt", "1\n2\n"),
        read("/d/Motor Positions 2.txt", "3\n"),
    ];
    let (summary, output) = combine_group(
        FileType::Motor,
        &reads,
        "/d/Motor Positions Combined.txt",
    );
    assert!(summary.header.is_none());
    assert_eq!(summary.data_lines, 3);
    assert_eq!(text(&output), "1\n2\n3\n");
    assert_eq!(summary.output_path.as_deref(), Some("/d/Motor Positions Combined.txt"));
}

#[test]
fn carriage_returns_and_final_line_are_normalized() {
    let reads = vec![read("/d/Bead Positions 1.txt", "# H\r\n1\r\n2")];
    let (summary, output) = combine_group(
        FileType::Bead,
        &reads,
        "/d/Bead Positions Combined.txt",
    );
    assert_eq!(summary.header.as_deref(), Some(b"# H".as_slice()));
    assert_eq!(summary.data_lines, 2);
    assert_eq!(text(&output), "# H\n1\n2\n");
}

#[test]
fn later_hash_lines_count_as_data() {
    let reads = vec![read("/d/Bead Positions 1.txt", "# H\n# X\n1\n")];
    let (summary, output) = combine_group(
        FileType::Bead,
        &reads,
        "/d/Bead Positions Combined.txt",
    );
    assert_eq!(summary.header.as_deref(), Some(b"# H".as_slice()));
    assert_eq!(summary.data_lines, 2);
    assert_eq!(text(&output), "# H\n# X\n1\n");
}

#[test]
fn matching_headers_produce_no_warning() {
    let reads = vec![
        read("/d/Bead Positions 1.txt", "# H\n1\n"),
        read("/d/Bead Positions 2.txt", "# H\n2\n"),
    ];
    let (summary, output) = combine_group(
        FileType::Bead,
        &reads,
        "/d/Bead Positions Combined.txt",
    );
    assert!(summary.warnings.is_empty());
    assert_eq!(text(&output), "# H\n1\n2\n");
}

#[test]
fn write_failure_leaves_no_output_and_one_error() {
    let reads = vec![read("/d/Bead Positions 1.txt", "# H\n1\n")];
    let (mut summary, _output) = combine_group(
        FileType::Bead,
        &reads,
        "/d/Bead Positions Combined.txt",
    );
    magscope_file_combiner::combine::note_write_failure(
        &mut summary,
        "/d/Bead Positions Combined.txt",
        "disk full",
    );
    assert!(summary.output_path.is_none());
    assert_eq!(summary.data_lines, 0);
    assert_eq!(summary.errors.len(), 1);
    assert_eq!(summary.errors[0].message, "Failed to write output: disk full");
    assert_eq!(summary.errors[0].file.as_deref(), Some("/d/Bead Positions Combined.txt"));
}

#[test]
fn output_filenames_are_fixed() {
    assert_eq!(output_filename(FileType::Bead), "Bead Positions Combined.txt");
    assert_eq!(output_filename(FileType::Motor), "Motor Positions Combined.txt");
}

#[test]
fn discovery_progress_reports_running_counts() {
    let entries = vec![
        entry("Motor Positions 1.txt"),
        entry("skip.csv"),
        entry("Bead Positions 1.txt"),
    ];
    let (_discovered, events) = discover_files_with_progress("/d", &entries);
    assert_eq!(events.len(), 2);
    match &events[0] {
        ProgressEvent::Discovery { bead_files, motor_files } => {
            assert_eq!((*bead_files, *motor_files), (0, 1));
        }
        other => panic!("unexpected event: {other:?}"),
    }
    match &events[1] {
        ProgressEvent::Discovery { bead_files, motor_files } => {
            assert_eq!((*bead_files, *motor_files), (1, 1));
        }
        other => panic!("unexpected event: {other:?}"),
    }
}

#[test]
fn combine_progress_counts_across_both_groups() {
    let bead_reads = vec![read("/d/Bead Positions 1.txt", "1\n")];
    let motor_reads = vec![
        read("/d/Motor Positions 1.txt", "2\n"),
        read("/d/Motor Positions 2.txt", "3\n"),
    ];
    let (_report, _bead_out, _motor_out, events) = combine_folder_with_progress(
        "/d",
        None,
        &bead_reads,
        &motor_reads,
    );
    assert_eq!(events.len(), 3);
    match &events[2] {
        ProgressEvent::Combine { processed_files, total_files, file_type, current_file } => {
            assert_eq!(*processed_files, 3);
            assert_eq!(*total_files, 3);
            assert_eq!(*file_type, FileType::Motor);
            assert_eq!(current_file.as_str(), "/d/Motor Positions 2.txt");
        }
        other => panic!("unexpected event: {other:?}"),
    }
}
