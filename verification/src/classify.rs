//! Classification of file names: category prefixes, the `txt` extension test
//! and the reserved per-category output names.

use vstd::prelude::*;
use vstd::string::StrSliceExecFns;
use crate::types::FileType;
use crate::text::is_prefix_of;
use crate::text::is_suffix_of;
use crate::text::str_ends_with;
use crate::text::str_eq;
use crate::text::str_starts_with;

verus! {

/// The name prefix that marks a bead file.
pub open spec fn bead_prefix() -> Seq<char> {
    "Bead Positions"@
}

/// The name prefix that marks a motor file.
pub open spec fn motor_prefix() -> Seq<char> {
    "Motor Positions"@
}

/// The reserved name of the combined bead output.
pub open spec fn bead_output_name() -> Seq<char> {
    "Bead Positions Combined.txt"@
}

/// The reserved name of the combined motor output.
pub open spec fn motor_output_name() -> Seq<char> {
    "Motor Positions Combined.txt"@
}

/// The reserved output name of a category.
pub open spec fn output_name(file_type: FileType) -> Seq<char> {
    match file_type {
        FileType::Bead => bead_output_name(),
        FileType::Motor => motor_output_name(),
    }
}

/// The category whose prefix the name starts with, bead prefix first.
pub open spec fn classify_spec(name: Seq<char>) -> Option<FileType> {
    if is_prefix_of(bead_prefix(), name) {
        Some(FileType::Bead)
    } else if is_prefix_of(motor_prefix(), name) {
        Some(FileType::Motor)
    } else {
        None
    }
}

/// The name is one of the reserved combined-output names.
pub open spec fn is_reserved_name(name: Seq<char>) -> bool {
    name == bead_output_name() || name == motor_output_name()
}

/// The name has extension exactly `txt`: it ends in `.txt` and the dot is not
/// its first character, so a bare `.txt` does not count.
pub open spec fn has_txt_extension(name: Seq<char>) -> bool {
    name.len() >= 5 && is_suffix_of(".txt"@, name)
}

/// Returns the category whose prefix the name starts with, if any.
pub fn classify_name(name: &str) -> (r: Option<FileType>)
    ensures
        r == classify_spec(name@),
{
    if str_starts_with(name, "Bead Positions") {
        Some(FileType::Bead)
    } else if str_starts_with(name, "Motor Positions") {
        Some(FileType::Motor)
    } else {
        None
    }
}

/// Whether the name is one of the reserved combined-output names.
pub fn is_combined_output(name: &str) -> (r: bool)
    ensures
        r == is_reserved_name(name@),
{
    str_eq(name, "Bead Positions Combined.txt") || str_eq(name, "Motor Positions Combined.txt")
}

/// The fixed output file name of a category.
pub fn output_filename(file_type: FileType) -> (r: &'static str)
    ensures
        r@ == output_name(file_type),
{
    match file_type {
        FileType::Bead => "Bead Positions Combined.txt",
        FileType::Motor => "Motor Positions Combined.txt",
    }
}

/// Whether the name has extension exactly `txt`.
pub fn name_has_txt_extension(name: &str) -> (r: bool)
    ensures
        r == has_txt_extension(name@),
{
    name.unicode_len() >= 5 && str_ends_with(name, ".txt")
}

} // verus!
