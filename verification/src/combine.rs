//! The group combiner: merging one category's files into one output stream,
//! resolving the shared header and collecting warnings and errors.

use vstd::prelude::*;
use vstd::string::StringExecFns;
use crate::types::Error;
use crate::types::FileRead;
use crate::types::FileType;
use crate::types::GroupSummary;
use crate::types::Warning;
use crate::types::error_is;
use crate::types::view_of_opt_bytes;
use crate::types::view_of_opt_string;
use crate::types::views_of_lines;
use crate::types::warning_is;
use crate::lines::is_blank_line;
use crate::lines::is_whitespace_line;
use crate::lines::split_lines;
use crate::lines::split_lines_spec;
use crate::lines::starts_hash;
use crate::lines::starts_with_hash;

verus! {

/// The file's header: the first line whose first non-whitespace byte is `#`.
pub open spec fn header_of_lines(lines: Seq<Seq<u8>>) -> Option<Seq<u8>>
    decreases lines.len(),
{
    if lines.len() == 0 {
        None
    } else if starts_hash(lines[0]) {
        Some(lines[0])
    } else {
        header_of_lines(lines.skip(1))
    }
}

/// The file's data lines in order: non-blank lines, with the first header
/// line removed once `header_taken` becomes true. A second line starting
/// with `#` counts as data.
pub open spec fn data_of_lines(lines: Seq<Seq<u8>>, header_taken: bool) -> Seq<Seq<u8>>
    decreases lines.len(),
{
    if lines.len() == 0 {
        Seq::empty()
    } else if is_blank_line(lines[0]) {
        data_of_lines(lines.skip(1), header_taken)
    } else if !header_taken && starts_hash(lines[0]) {
        data_of_lines(lines.skip(1), true)
    } else {
        seq![lines[0]] + data_of_lines(lines.skip(1), header_taken)
    }
}

/// The header line of one file's byte content, if it has one.
pub open spec fn file_header(content: Seq<u8>) -> Option<Seq<u8>> {
    header_of_lines(split_lines_spec(content))
}

/// The data lines of one file's byte content, in file order.
pub open spec fn file_data(content: Seq<u8>) -> Seq<Seq<u8>> {
    data_of_lines(split_lines_spec(content), false)
}

/// The canonical header of a group: the header of the first file, in list
/// order, that has one.
pub open spec fn group_header(reads: Seq<FileRead>) -> Option<Seq<u8>>
    decreases reads.len(),
{
    if reads.len() == 0 {
        None
    } else {
        let prior = group_header(reads.drop_last());
        if prior is Some {
            prior
        } else {
            file_header(reads.last().content@)
        }
    }
}

/// All data lines of the group: files in list order, lines in file order.
pub open spec fn group_data(reads: Seq<FileRead>) -> Seq<Seq<u8>>
    decreases reads.len(),
{
    if reads.len() == 0 {
        Seq::empty()
    } else {
        group_data(reads.drop_last()) + file_data(reads.last().content@)
    }
}

/// The paths of the files whose own header differs from the canonical header
/// established by an earlier file, in list order.
pub open spec fn mismatch_files(reads: Seq<FileRead>) -> Seq<Seq<char>>
    decreases reads.len(),
{
    if reads.len() == 0 {
        Seq::empty()
    } else {
        let rest = mismatch_files(reads.drop_last());
        let prior = group_header(reads.drop_last());
        let own = file_header(reads.last().content@);
        if prior is Some && own is Some && own != prior {
            rest.push(reads.last().path@)
        } else {
            rest
        }
    }
}

/// The path and message of every failed read, in list order.
pub open spec fn failed_reads(reads: Seq<FileRead>) -> Seq<(Seq<char>, Seq<char>)>
    decreases reads.len(),
{
    if reads.len() == 0 {
        Seq::empty()
    } else {
        let rest = failed_reads(reads.drop_last());
        match reads.last().error {
            Some(e) => rest.push((reads.last().path@, e@)),
            None => rest,
        }
    }
}

/// The lines written to the output: the canonical header first, if any file
/// had one, then every data line.
pub open spec fn output_lines(reads: Seq<FileRead>) -> Seq<Seq<u8>> {
    match group_header(reads) {
        Some(h) => seq![h] + group_data(reads),
        None => group_data(reads),
    }
}

/// Lines rendered as bytes, each terminated with a single line feed.
pub open spec fn rendered(lines: Seq<Seq<u8>>) -> Seq<u8>
    decreases lines.len(),
{
    if lines.len() == 0 {
        Seq::empty()
    } else {
        rendered(lines.drop_last()) + lines.last() + seq![10u8]
    }
}

/// What combining one group returns: the summary and, when at least one line
/// was produced, the output bytes to write under `output_path`.
pub open spec fn combine_group_spec(
    file_type: FileType,
    reads: Seq<FileRead>,
    output_path: Seq<char>,
    gs: GroupSummary,
    out: Option<Vec<u8>>,
) -> bool {
    &&& gs.file_type == file_type
    &&& gs.input_files == reads.len()
    &&& view_of_opt_bytes(gs.header) == group_header(reads)
    &&& gs.data_lines == group_data(reads).len()
    &&& gs.warnings@.len() == mismatch_files(reads).len()
    &&& (forall|i: int|
        0 <= i < gs.warnings@.len() ==> warning_is(
            gs.warnings@[i],
            mismatch_files(reads)[i],
            "Header mismatch"@,
        ))
    &&& gs.errors@.len() == failed_reads(reads).len()
    &&& (forall|i: int|
        0 <= i < gs.errors@.len() ==> error_is(
            gs.errors@[i],
            Some(failed_reads(reads)[i].0),
            "Failed to read file: "@ + failed_reads(reads)[i].1,
        ))
    &&& if output_lines(reads).len() > 0 {
        view_of_opt_string(gs.output_path) == Some(output_path) && view_of_opt_bytes(out) == Some(
            rendered(output_lines(reads)),
        )
    } else {
        gs.output_path is None && out is None
    }
}

/// A group in which every file failed to open — empty content, an error on
/// each read — produces no header, no data line and so no output at all,
/// and exactly one error per file.
pub proof fn lemma_all_unreadable(reads: Seq<FileRead>)
    requires
        forall|i: int|
            0 <= i < reads.len() ==> reads[i].content@.len() == 0 && reads[i].error is Some,
    ensures
        group_header(reads) is None,
        group_data(reads).len() == 0,
        output_lines(reads).len() == 0,
        failed_reads(reads).len() == reads.len(),
    decreases reads.len(),
{
    if reads.len() != 0 {
        assert(forall|i: int|
            0 <= i < reads.drop_last().len() ==> reads.drop_last()[i] == reads[i]);
        lemma_all_unreadable(reads.drop_last());
        assert(split_lines_spec(reads.last().content@) =~= Seq::<Seq<u8>>::empty());
    }
}

/// A blank line never carries the header mark.
proof fn lemma_blank_not_hash(l: Seq<u8>)
    requires
        is_blank_line(l),
    ensures
        !starts_hash(l),
    decreases l.len(),
{
    if l.len() != 0 {
        assert(is_blank_line(l.skip(1)));
        lemma_blank_not_hash(l.skip(1));
    }
}

/// Byte-for-byte equality of two lines.
fn bytes_eq(a: &Vec<u8>, b: &Vec<u8>) -> (r: bool)
    ensures
        r == (a@ == b@),
{
    if a.len() != b.len() {
        return false;
    }
    let mut i: usize = 0;
    while i < a.len()
        invariant
            i <= a@.len(),
            a@.len() == b@.len(),
            forall|j: int| 0 <= j < i ==> a@[j] == b@[j],
        decreases a@.len() - i,
    {
        if a[i] != b[i] {
            return false;
        }
        i = i + 1;
    }
    proof {
        assert(a@ =~= b@);
    }
    true
}

/// A copy of a line.
fn copy_bytes(v: &Vec<u8>) -> (r: Vec<u8>)
    ensures
        r@ == v@,
{
    let mut out: Vec<u8> = Vec::new();
    let mut i: usize = 0;
    while i < v.len()
        invariant
            i <= v@.len(),
            out@ == v@.take(i as int),
        decreases v@.len() - i,
    {
        out.push(v[i]);
        proof {
            assert(v@.take(i as int + 1) =~= v@.take(i as int).push(v@[i as int]));
        }
        i = i + 1;
    }
    proof {
        assert(v@.take(v@.len() as int) =~= v@);
    }
    out
}

/// Reads one file's lines: its header, if any, and its data lines in order.
fn scan_file(content: &Vec<u8>) -> (r: (Option<Vec<u8>>, Vec<Vec<u8>>))
    ensures
        view_of_opt_bytes(r.0) == file_header(content@),
        views_of_lines(r.1@) == file_data(content@),
{
    let lines = split_lines(content);
    let ghost lv = views_of_lines(lines@);
    let mut header: Option<Vec<u8>> = None;
    let mut data: Vec<Vec<u8>> = Vec::new();
    let mut j: usize = 0;
    proof {
        assert(lv.skip(0) =~= lv);
    }
    while j < lines.len()
        invariant
            j <= lines@.len(),
            lv == views_of_lines(lines@),
            lv == split_lines_spec(content@),
            header is None ==> file_header(content@) == header_of_lines(lv.skip(j as int)),
            header is Some ==> view_of_opt_bytes(header) == file_header(content@),
            views_of_lines(data@) + data_of_lines(lv.skip(j as int), header is Some)
                == file_data(content@),
        decreases lines@.len() - j,
    {
        let line = &lines[j];
        proof {
            assert(lv.skip(j as int)[0] == lv[j as int]);
            assert(lv.skip(j as int).skip(1) =~= lv.skip(j as int + 1));
        }
        if is_whitespace_line(line) {
            proof {
                lemma_blank_not_hash(line@);
            }
        } else if header.is_none() && starts_with_hash(line) {
            header = Some(copy_bytes(line));
        } else {
            let ghost prev = data@;
            data.push(copy_bytes(line));
            proof {
                assert(views_of_lines(data@) =~= views_of_lines(prev) + seq![lv[j as int]]);
            }
        }
        j = j + 1;
    }
    proof {
        assert(lv.skip(lv.len() as int) =~= Seq::<Seq<u8>>::empty());
        assert(views_of_lines(data@) =~= file_data(content@));
    }
    (header, data)
}

/// Renders lines as bytes, each followed by one line feed.
fn render_lines(lines: &Vec<Vec<u8>>) -> (r: Vec<u8>)
    ensures
        r@ == rendered(views_of_lines(lines@)),
{
    let mut out: Vec<u8> = Vec::new();
    let mut i: usize = 0;
    proof {
        assert(views_of_lines(lines@.take(0)) =~= Seq::<Seq<u8>>::empty());
    }
    while i < lines.len()
        invariant
            i <= lines@.len(),
            out@ == rendered(views_of_lines(lines@.take(i as int))),
        decreases lines@.len() - i,
    {
        let ghost cur = views_of_lines(lines@.take(i as int + 1));
        out.extend_from_slice(lines[i].as_slice());
        out.push(10);
        proof {
            assert(cur.drop_last() =~= views_of_lines(lines@.take(i as int)));
            assert(cur.last() == lines@[i as int]@);
            assert(out@ =~= rendered(cur.drop_last()) + cur.last() + seq![10u8]);
        }
        i = i + 1;
    }
    proof {
        assert(lines@.take(lines@.len() as int) =~= lines@);
    }
    out
}

/// Merges one category's files into one output stream. The first header
/// found, in list order, is written once before all data lines; later files
/// with a different header get a warning; failed reads get an error; the
/// output exists exactly when at least one line was produced.
pub fn combine_group(file_type: FileType, reads: &Vec<FileRead>, output_path: &str) -> (r: (
    GroupSummary,
    Option<Vec<u8>>,
))
    ensures
        combine_group_spec(file_type, reads@, output_path@, r.0, r.1),
{
    let mut header: Option<Vec<u8>> = None;
    let mut data: Vec<Vec<u8>> = Vec::new();
    let mut warnings: Vec<Warning> = Vec::new();
    let mut errors: Vec<Error> = Vec::new();
    let mut i: usize = 0;
    proof {
        assert(reads@.take(0) =~= Seq::<FileRead>::empty());
    }
    while i < reads.len()
        invariant
            i <= reads@.len(),
            view_of_opt_bytes(header) == group_header(reads@.take(i as int)),
            views_of_lines(data@) == group_data(reads@.take(i as int)),
            warnings@.len() == mismatch_files(reads@.take(i as int)).len(),
            forall|m: int|
                0 <= m < warnings@.len() ==> warning_is(
                    warnings@[m],
                    mismatch_files(reads@.take(i as int))[m],
                    "Header mismatch"@,
                ),
            errors@.len() == failed_reads(reads@.take(i as int)).len(),
            forall|m: int|
                0 <= m < errors@.len() ==> error_is(
                    errors@[m],
                    Some(failed_reads(reads@.take(i as int))[m].0),
                    "Failed to read file: "@ + failed_reads(reads@.take(i as int))[m].1,
                ),
        decreases reads@.len() - i,
    {
        let ghost prefix = reads@.take(i as int);
        let ghost grown = reads@.take(i as int + 1);
        proof {
            assert(grown.drop_last() =~= prefix);
            assert(grown.last() == reads@[i as int]);
        }
        let rd = &reads[i];
        let (fh, mut fdata) = scan_file(&rd.content);
        match &fh {
            Some(h) => {
                match &header {
                    Some(canonical) => {
                        if !bytes_eq(canonical, h) {
                            warnings.push(
                                Warning {
                                    file: rd.path.clone(),
                                    message: "Header mismatch".to_owned(),
                                },
                            );
                        }
                    },
                    None => {
                        header = Some(copy_bytes(h));
                    },
                }
            },
            None => {},
        }
        let ghost prev_data = data@;
        data.append(&mut fdata);
        proof {
            assert(views_of_lines(data@) =~= views_of_lines(prev_data) + file_data(
                reads@[i as int].content@,
            ));
        }
        match &rd.error {
            Some(e) => {
                let mut message = "Failed to read file: ".to_owned();
                message.append(e.as_str());
                errors.push(Error { file: Some(rd.path.clone()), message });
            },
            None => {},
        }
        i = i + 1;
    }
    proof {
        assert(reads@.take(reads@.len() as int) =~= reads@);
    }
    let data_lines = data.len();
    let ghost data_views = views_of_lines(data@);
    let mut all: Vec<Vec<u8>> = Vec::new();
    match &header {
        Some(h) => {
            all.push(copy_bytes(h));
        },
        None => {},
    }
    let ghost head_part = views_of_lines(all@);
    all.append(&mut data);
    proof {
        assert(views_of_lines(all@) =~= head_part + data_views);
        match group_header(reads@) {
            Some(h) => {
                assert(head_part =~= seq![h]);
                assert(views_of_lines(all@) =~= output_lines(reads@));
            },
            None => {
                assert(head_part =~= Seq::<Seq<u8>>::empty());
                assert(views_of_lines(all@) =~= output_lines(reads@));
            },
        }
    }
    let out_bytes = render_lines(&all);
    let (output_path_opt, out): (Option<String>, Option<Vec<u8>>) = if all.len() > 0 {
        (Some(output_path.to_owned()), Some(out_bytes))
    } else {
        (None, None)
    };
    let summary = GroupSummary {
        file_type,
        input_files: reads.len(),
        output_path: output_path_opt,
        data_lines,
        header,
        warnings,
        errors,
    };
    (summary, out)
}

/// Turns a summary into the one a write failure leaves behind: nothing was
/// reliably written, so there is no output and no counted line, and the
/// failure is recorded as an error tagged with the output path.
pub fn note_write_failure(summary: &mut GroupSummary, output_path: &str, message: &str)
    ensures
        final(summary).file_type == old(summary).file_type,
        final(summary).input_files == old(summary).input_files,
        final(summary).header == old(summary).header,
        final(summary).warnings == old(summary).warnings,
        final(summary).output_path is None,
        final(summary).data_lines == 0,
        final(summary).errors@.len() == old(summary).errors@.len() + 1,
        forall|i: int|
            0 <= i < old(summary).errors@.len() ==> final(summary).errors@[i] == old(
                summary,
            ).errors@[i],
        error_is(
            final(summary).errors@.last(),
            Some(output_path@),
            "Failed to write output: "@ + message@,
        ),
{
    summary.output_path = None;
    summary.data_lines = 0;
    let mut text = "Failed to write output: ".to_owned();
    text.append(message);
    summary.errors.push(Error { file: Some(output_path.to_owned()), message: text });
}

} // verus!
