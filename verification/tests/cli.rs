use magscope_file_combiner::cli::run_cli;
use magscope_file_combiner::format_group_output;
use magscope_file_combiner::render_report;
use magscope_file_combiner::FileRead;
use magscope_file_combiner::FileType;
use magscope_file_combiner::GroupSummary;

fn read(path: &str, content: &str) -> FileRead {
    FileRead { path: path.to_string(), content: content.as_bytes().to_vec(), error: None }
}

fn args(folder: &str) -> Vec<String> {
    vec!["magscope_cli".to_string(), folder.to_string()]
}

#[test]
fn cli_combines_files() {
    let bead_reads = vec![read("/d/Bead Positions 1.txt", "# H\n1\n2\n")];
    let motor_reads = vec![read("/d/Motor Positions 1.txt", "# M\n3\n4\n")];
    let run = run_cli(&args("/d"), true, None, &bead_reads, &motor_reads);
    assert_eq!(run.exit_code, 0);
    assert!(run.bead_output.is_some());
    assert!(run.motor_output.is_some());
    assert!(run.out_text.contains("Bead files: 1"));
    assert!(run.out_text.contains("Motor files: 1"));
    assert!(run.err_text.is_empty());
}

#[test]
fn cli_reports_no_matching_files() {
    let run = run_cli(&args("/d"), true, None, &Vec::new(), &Vec::new());
    assert_eq!(run.exit_code, 0);
    assert!(run.bead_output.is_none());
    assert!(run.motor_output.is_none());
    assert!(run.out_text.contains("No matching files found."));
}

#[test]
fn cli_rejects_wrong_argument_count() {
    let only_program = vec!["magscope_cli".to_string()];
    let run = run_cli(&only_program, true, None, &Vec::new(), &Vec::new());
    assert_eq!(run.exit_code, 2);
    assert!(run.out_text.is_empty());
    assert_eq!(run.err_text, "Usage: magmerge_cli <folder>\n");
    assert!(run.report.is_none());
}

#[test]
fn cli_rejects_non_directory() {
    let run = run_cli(&args("/not/a/dir"), false, None, &Vec::new(), &Vec::new());
    assert_eq!(run.exit_code, 2);
    assert!(run.out_text.is_empty());
    assert_eq!(run.err_text, "Error: not a folder: /not/a/dir\n");
    assert!(run.bead_output.is_none());
    assert!(run.motor_output.is_none());
}

#[test]
fn report_text_is_exact() {
    let bead_reads = vec![
        read("/d/Bead Positions 1.txt", "# H\n1\n"),
        read("/d/Bead Positions 2.txt", "# X\n2\n"),
    ];
    let run = run_cli(&args("/d"), true, None, &bead_reads, &Vec::new());
    let expected = "Folder: /d\n\
                    Bead files: 2\n\
                    Motor files: 0\n\
                    Bead output: /d/Bead Positions Combined.txt (lines: 2)\n\
                    Motor output: (not created)\n\
                    Warnings:\n\
                    - /d/Bead Positions 2.txt: Header mismatch\n";
    assert_eq!(run.out_text, expected);
    assert_eq!(
        run.bead_output.as_deref(),
        Some(b"# H\n1\n2\n".as_slice()),
    );
}

#[test]
fn render_report_shows_scan_error_counts() {
    let run = run_cli(&args("/gone"), true, Some("permission denied"), &Vec::new(), &Vec::new());
    assert_eq!(run.exit_code, 0);
    let report = run.report.expect("report");
    assert_eq!(report.errors.len(), 1);
    let text = render_report(&report);
    assert!(text.contains("Bead files: 0"));
    assert!(text.contains("No matching files found."));
}

#[test]
fn format_group_output_is_exact() {
    let summary = GroupSummary {
        file_type: FileType::Bead,
        input_files: 3,
        output_path: Some("/d/Bead Positions Combined.txt".to_string()),
        data_lines: 12,
        header: None,
        warnings: Vec::new(),
        errors: Vec::new(),
    };
    assert_eq!(
        format_group_output(Some(&summary), "Bead"),
        "Bead output: /d/Bead Positions Combined.txt (lines: 12)",
    );
    assert_eq!(format_group_output(None, "Motor"), "Motor output: (not created)");
}
