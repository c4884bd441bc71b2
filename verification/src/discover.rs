//! Discovery: filtering a folder listing to eligible files, classifying them
//! and producing per-category lists ordered by file name.

use vstd::prelude::*;
use vstd::seq_lib::lemma_multiset_commutative;
use vstd::seq_lib::lemma_sorted_unique;
use crate::types::DiscoveredFiles;
use crate::types::FileType;
use crate::types::FolderEntry;
use crate::types::ProgressEvent;
use crate::types::views_of_strings;
use crate::text::join_path;
use crate::text::joined_path;
use crate::text::lemma_lex_antisym;
use crate::text::lemma_lex_refl;
use crate::text::lemma_lex_total;
use crate::text::lemma_lex_trans;
use crate::text::lex_le;
use crate::text::str_lex_le;
use crate::classify::classify_name;
use crate::classify::classify_spec;
use crate::classify::has_txt_extension;
use crate::classify::is_combined_output;
use crate::classify::is_reserved_name;
use crate::classify::name_has_txt_extension;

verus! {

/// An entry that discovery keeps for some category: a regular file with
/// extension `txt`, not a reserved output name, and carrying a known prefix.
pub open spec fn eligible_entry(e: FolderEntry) -> bool {
    e.is_file && has_txt_extension(e.name@) && !is_reserved_name(e.name@) && classify_spec(e.name@)
        is Some
}

/// The entry is eligible and belongs to the given category.
pub open spec fn selects(e: FolderEntry, file_type: FileType) -> bool {
    eligible_entry(e) && classify_spec(e.name@) == Some(file_type)
}

/// The names of the entries selected for a category, in listing order.
pub open spec fn selected_names(entries: Seq<FolderEntry>, file_type: FileType) -> Seq<Seq<char>>
    decreases entries.len(),
{
    if entries.len() == 0 {
        Seq::empty()
    } else {
        let rest = selected_names(entries.drop_last(), file_type);
        if selects(entries.last(), file_type) {
            rest.push(entries.last().name@)
        } else {
            rest
        }
    }
}

/// How many entries are eligible for either category.
pub open spec fn eligible_count(entries: Seq<FolderEntry>) -> nat
    decreases entries.len(),
{
    if entries.len() == 0 {
        0
    } else {
        eligible_count(entries.drop_last()) + if eligible_entry(entries.last()) {
            1nat
        } else {
            0nat
        }
    }
}

/// `x` placed before the first element it precedes or equals.
pub open spec fn insert_sorted(x: Seq<char>, s: Seq<Seq<char>>) -> Seq<Seq<char>>
    decreases s.len(),
{
    if s.len() == 0 {
        seq![x]
    } else if lex_le(x, s[0]) {
        seq![x] + s
    } else {
        seq![s[0]] + insert_sorted(x, s.skip(1))
    }
}

/// The names sorted by insertion, earlier names inserted first.
pub open spec fn sort_names(s: Seq<Seq<char>>) -> Seq<Seq<char>>
    decreases s.len(),
{
    if s.len() == 0 {
        Seq::empty()
    } else {
        insert_sorted(s.last(), sort_names(s.drop_last()))
    }
}

/// The names are in lexicographic order.
pub open spec fn sorted_names(s: Seq<Seq<char>>) -> bool {
    forall|i: int, j: int| 0 <= i < j < s.len() ==> lex_le(s[i], s[j])
}

/// Each name joined onto the folder path.
pub open spec fn joined_names(folder: Seq<char>, names: Seq<Seq<char>>) -> Seq<Seq<char>> {
    Seq::new(names.len(), |i: int| joined_path(folder, names[i]))
}

/// The paths discovery returns for a category: the selected names, sorted,
/// each joined onto the folder path.
pub open spec fn discovered_paths(
    folder: Seq<char>,
    entries: Seq<FolderEntry>,
    file_type: FileType,
) -> Seq<Seq<char>> {
    joined_names(folder, sort_names(selected_names(entries, file_type)))
}

/// The discovery notifications, one per eligible entry in listing order, each
/// carrying the running per-category counts.
pub open spec fn discovery_events(entries: Seq<FolderEntry>) -> Seq<ProgressEvent>
    decreases entries.len(),
{
    if entries.len() == 0 {
        Seq::empty()
    } else {
        let rest = discovery_events(entries.drop_last());
        if eligible_entry(entries.last()) {
            rest.push(ProgressEvent::Discovery {
                bead_files: selected_names(entries, FileType::Bead).len() as usize,
                motor_files: selected_names(entries, FileType::Motor).len() as usize,
            })
        } else {
            rest
        }
    }
}

proof fn lemma_insert_sorted_len(x: Seq<char>, s: Seq<Seq<char>>)
    ensures
        insert_sorted(x, s).len() == s.len() + 1,
    decreases s.len(),
{
    if s.len() != 0 && !lex_le(x, s[0]) {
        lemma_insert_sorted_len(x, s.skip(1));
    }
}

proof fn lemma_insert_sorted_at(x: Seq<char>, s: Seq<Seq<char>>, j: int)
    requires
        0 <= j <= s.len(),
        forall|k: int| 0 <= k < j ==> !lex_le(x, s[k]),
        j < s.len() ==> lex_le(x, s[j]),
    ensures
        insert_sorted(x, s) == s.insert(j, x),
    decreases j,
{
    if j == 0 {
        if s.len() == 0 {
            assert(insert_sorted(x, s) =~= s.insert(0, x));
        } else {
            assert(seq![x] + s =~= s.insert(0, x));
        }
    } else {
        assert(!lex_le(x, s[0]));
        lemma_insert_sorted_at(x, s.skip(1), j - 1);
        assert(seq![s[0]] + s.skip(1).insert(j - 1, x) =~= s.insert(j, x));
    }
}

/// Inserting keeps the list sorted.
proof fn lemma_insert_sorted_sorted(x: Seq<char>, s: Seq<Seq<char>>)
    requires
        sorted_names(s),
    ensures
        sorted_names(insert_sorted(x, s)),
        insert_sorted(x, s).len() == s.len() + 1,
    decreases s.len(),
{
    if s.len() == 0 {
    } else if lex_le(x, s[0]) {
        let r = seq![x] + s;
        assert forall|i: int, j: int| 0 <= i < j < r.len() implies lex_le(r[i], r[j]) by {
            if i == 0 {
                if j > 1 {
                    lemma_lex_trans(x, s[0], s[j - 1]);
                }
            }
        }
    } else {
        assert(sorted_names(s.skip(1)));
        lemma_insert_sorted_sorted(x, s.skip(1));
        lemma_lex_total(x, s[0]);
        let t = insert_sorted(x, s.skip(1));
        let r = seq![s[0]] + t;
        assert forall|i: int, j: int| 0 <= i < j < r.len() implies lex_le(r[i], r[j]) by {
            if i == 0 {
                // every element of t is either x or an element of s after 0
                lemma_insert_sorted_elems(x, s.skip(1), j - 1);
            }
        }
    }
}

/// Each element of the inserted list is `x` or an element of the original;
/// stated positionally for one index.
proof fn lemma_insert_sorted_elems(x: Seq<char>, s: Seq<Seq<char>>, j: int)
    requires
        0 <= j < insert_sorted(x, s).len(),
    ensures
        insert_sorted(x, s).len() == s.len() + 1,
        insert_sorted(x, s)[j] == x || s.contains(insert_sorted(x, s)[j]),
    decreases s.len(),
{
    lemma_insert_sorted_len(x, s);
    if s.len() == 0 {
    } else if lex_le(x, s[0]) {
        if j > 0 {
            assert((seq![x] + s)[j] == s[j - 1]);
        }
    } else {
        if j > 0 {
            lemma_insert_sorted_elems(x, s.skip(1), j - 1);
            if insert_sorted(x, s.skip(1))[j - 1] != x {
                let t = insert_sorted(x, s.skip(1))[j - 1];
                let k = choose|k: int| 0 <= k < s.skip(1).len() && s.skip(1)[k] == t;
                assert(s[k + 1] == t);
            }
        }
    }
}

/// Sorting yields a sorted list of the same length.
pub proof fn lemma_sort_names_sorted(s: Seq<Seq<char>>)
    ensures
        sorted_names(sort_names(s)),
        sort_names(s).len() == s.len(),
    decreases s.len(),
{
    if s.len() != 0 {
        lemma_sort_names_sorted(s.drop_last());
        lemma_insert_sorted_sorted(s.last(), sort_names(s.drop_last()));
    }
}

proof fn lemma_insert_sorted_multiset(x: Seq<char>, s: Seq<Seq<char>>)
    ensures
        insert_sorted(x, s).to_multiset() == s.to_multiset().insert(x),
    decreases s.len(),
{
    s.to_multiset_ensures();
    if s.len() == 0 {
        assert(seq![x] =~= Seq::<Seq<char>>::empty().push(x));
        Seq::<Seq<char>>::empty().to_multiset_ensures();
        assert(insert_sorted(x, s).to_multiset() =~= s.to_multiset().insert(x));
    } else if lex_le(x, s[0]) {
        lemma_multiset_commutative(seq![x], s);
        assert(seq![x] =~= Seq::<Seq<char>>::empty().push(x));
        Seq::<Seq<char>>::empty().to_multiset_ensures();
        assert(insert_sorted(x, s).to_multiset() =~= s.to_multiset().insert(x));
    } else {
        lemma_insert_sorted_multiset(x, s.skip(1));
        lemma_multiset_commutative(seq![s[0]], insert_sorted(x, s.skip(1)));
        assert(s =~= seq![s[0]] + s.skip(1));
        lemma_multiset_commutative(seq![s[0]], s.skip(1));
        assert(insert_sorted(x, s).to_multiset() =~= s.to_multiset().insert(x));
    }
}

/// Sorting rearranges the names and neither loses, adds nor changes one.
pub proof fn lemma_sort_names_permutes(s: Seq<Seq<char>>)
    ensures
        sort_names(s).to_multiset() == s.to_multiset(),
    decreases s.len(),
{
    if s.len() == 0 {
        assert(s =~= sort_names(s));
    } else {
        lemma_sort_names_permutes(s.drop_last());
        lemma_insert_sorted_multiset(s.last(), sort_names(s.drop_last()));
        s.drop_last().to_multiset_ensures();
        assert(s =~= s.drop_last().push(s.last()));
        assert(s.drop_last().push(s.last()).to_multiset() =~= s.drop_last().to_multiset().insert(
            s.last(),
        ));
    }
}

/// Discovery is deterministic in the listing order: two listings that hold
/// the same selected names, however the folder enumeration ordered them,
/// sort to the very same list.
pub proof fn lemma_sort_names_canonical(s1: Seq<Seq<char>>, s2: Seq<Seq<char>>)
    requires
        s1.to_multiset() == s2.to_multiset(),
    ensures
        sort_names(s1) == sort_names(s2),
{
    let leq = |a: Seq<char>, b: Seq<char>| lex_le(a, b);
    lemma_sort_names_sorted(s1);
    lemma_sort_names_sorted(s2);
    lemma_sort_names_permutes(s1);
    lemma_sort_names_permutes(s2);
    assert forall|a: Seq<char>, b: Seq<char>| #[trigger] leq(a, b) || #[trigger] leq(b, a) by {
        lemma_lex_total(a, b);
    }
    assert forall|a: Seq<char>| #[trigger] leq(a, a) by {
        lemma_lex_refl(a);
    }
    assert forall|a: Seq<char>, b: Seq<char>| #[trigger] leq(a, b) && #[trigger] leq(b, a) implies a == b by {
        lemma_lex_antisym(a, b);
    }
    assert forall|a: Seq<char>, b: Seq<char>, c: Seq<char>|
        #[trigger] leq(a, b) && #[trigger] leq(b, c) implies leq(a, c) by {
        lemma_lex_trans(a, b, c);
    }
    assert(vstd::relations::total_ordering(leq));
    assert(vstd::relations::sorted_by(sort_names(s1), leq));
    assert(vstd::relations::sorted_by(sort_names(s2), leq));
    lemma_sorted_unique(sort_names(s1), sort_names(s2), leq);
    assert(sort_names(s1) =~= sort_names(s2));
}

/// Discovery keeps every selected file and nothing else: the two category
/// lists together are exactly as long as the eligible entries.
pub proof fn lemma_discovery_counts(entries: Seq<FolderEntry>)
    ensures
        sort_names(selected_names(entries, FileType::Bead)).len() + sort_names(
            selected_names(entries, FileType::Motor),
        ).len() == eligible_count(entries),
    decreases entries.len(),
{
    lemma_sort_names_sorted(selected_names(entries, FileType::Bead));
    lemma_sort_names_sorted(selected_names(entries, FileType::Motor));
    lemma_selected_split(entries);
}

/// An eligible entry is selected for exactly one category.
proof fn lemma_selected_split(entries: Seq<FolderEntry>)
    ensures
        selected_names(entries, FileType::Bead).len() + selected_names(
            entries,
            FileType::Motor,
        ).len() == eligible_count(entries),
    decreases entries.len(),
{
    if entries.len() != 0 {
        lemma_selected_split(entries.drop_last());
    }
}

/// A reserved output name is never discovered: listing the folder with a
/// combined-output file present, at any position, selects the same names.
/// This is what makes a second run see the same inputs as the first.
pub proof fn lemma_reserved_excluded(
    entries: Seq<FolderEntry>,
    e: FolderEntry,
    k: int,
    file_type: FileType,
)
    requires
        is_reserved_name(e.name@),
        0 <= k <= entries.len(),
    ensures
        selected_names(entries.insert(k, e), file_type) == selected_names(entries, file_type),
    decreases entries.len(),
{
    let grown = entries.insert(k, e);
    if k == entries.len() {
        assert(grown.drop_last() =~= entries);
        assert(grown.last() == e);
    } else {
        assert(grown.drop_last() =~= entries.drop_last().insert(k, e));
        assert(grown.last() == entries.last());
        lemma_reserved_excluded(entries.drop_last(), e, k, file_type);
    }
}

/// Lists the folder entries into per-category path lists, ordered by name.
pub fn discover_files(folder: &str, entries: &Vec<FolderEntry>) -> (r: DiscoveredFiles)
    ensures
        views_of_strings(r.bead_files@) == discovered_paths(folder@, entries@, FileType::Bead),
        views_of_strings(r.motor_files@) == discovered_paths(folder@, entries@, FileType::Motor),
{
    let (discovered, _events) = discover_files_with_progress(folder, entries);
    discovered
}

/// Like [`discover_files`], and also returns the discovery notifications in
/// the order they would be shown: one per eligible entry, in listing order,
/// with the counts classified so far.
pub fn discover_files_with_progress(folder: &str, entries: &Vec<FolderEntry>) -> (r: (
    DiscoveredFiles,
    Vec<ProgressEvent>,
))
    ensures
        views_of_strings(r.0.bead_files@) == discovered_paths(folder@, entries@, FileType::Bead),
        views_of_strings(r.0.motor_files@) == discovered_paths(folder@, entries@, FileType::Motor),
        r.1@ == discovery_events(entries@),
{
    let mut bead_names: Vec<String> = Vec::new();
    let mut motor_names: Vec<String> = Vec::new();
    let mut events: Vec<ProgressEvent> = Vec::new();
    let mut i: usize = 0;
    proof {
        assert(entries@.take(0) =~= Seq::<FolderEntry>::empty());
    }
    while i < entries.len()
        invariant
            i <= entries@.len(),
            views_of_strings(bead_names@) == selected_names(
                entries@.take(i as int),
                FileType::Bead,
            ),
            views_of_strings(motor_names@) == selected_names(
                entries@.take(i as int),
                FileType::Motor,
            ),
            events@ == discovery_events(entries@.take(i as int)),
        decreases entries@.len() - i,
    {
        let ghost prefix = entries@.take(i as int);
        let ghost grown = entries@.take(i as int + 1);
        proof {
            assert(grown.drop_last() =~= prefix);
            assert(grown.last() == entries@[i as int]);
        }
        let entry = &entries[i];
        if entry.is_file && name_has_txt_extension(entry.name.as_str()) && !is_combined_output(
            entry.name.as_str(),
        ) {
            match classify_name(entry.name.as_str()) {
                Some(FileType::Bead) => {
                    bead_names.push(entry.name.clone());
                    proof {
                        assert(views_of_strings(bead_names@) =~= selected_names(
                            grown,
                            FileType::Bead,
                        ));
                    }
                    events.push(
                        ProgressEvent::Discovery {
                            bead_files: bead_names.len(),
                            motor_files: motor_names.len(),
                        },
                    );
                },
                Some(FileType::Motor) => {
                    motor_names.push(entry.name.clone());
                    proof {
                        assert(views_of_strings(motor_names@) =~= selected_names(
                            grown,
                            FileType::Motor,
                        ));
                    }
                    events.push(
                        ProgressEvent::Discovery {
                            bead_files: bead_names.len(),
                            motor_files: motor_names.len(),
                        },
                    );
                },
                None => {},
            }
        }
        i = i + 1;
    }
    proof {
        assert(entries@.take(entries@.len() as int) =~= entries@);
    }
    sort_paths(&mut bead_names);
    sort_paths(&mut motor_names);
    let bead_files = join_all(folder, &bead_names);
    let motor_files = join_all(folder, &motor_names);
    (DiscoveredFiles { bead_files, motor_files }, events)
}

/// Sorts the names in place into lexicographic order.
pub fn sort_paths(paths: &mut Vec<String>)
    ensures
        views_of_strings(final(paths)@) == sort_names(views_of_strings(old(paths)@)),
{
    let mut out: Vec<String> = Vec::new();
    let mut i: usize = 0;
    proof {
        assert(views_of_strings(paths@.take(0)) =~= Seq::<Seq<char>>::empty());
    }
    while i < paths.len()
        invariant
            i <= paths@.len(),
            paths@ == old(paths)@,
            views_of_strings(out@) == sort_names(views_of_strings(paths@.take(i as int))),
        decreases paths@.len() - i,
    {
        let x = paths[i].clone();
        let mut j: usize = 0;
        while j < out.len() && !str_lex_le(x.as_str(), out[j].as_str())
            invariant
                j <= out@.len(),
                forall|k: int| 0 <= k < j ==> !lex_le(x@, out@[k]@),
            decreases out@.len() - j,
        {
            j = j + 1;
        }
        let ghost vs = views_of_strings(out@);
        proof {
            assert(forall|k: int| 0 <= k < j ==> !lex_le(x@, vs[k]));
            lemma_insert_sorted_at(x@, vs, j as int);
            assert(views_of_strings(paths@.take(i as int + 1)).drop_last() =~= views_of_strings(
                paths@.take(i as int),
            ));
            assert(views_of_strings(paths@.take(i as int + 1)).last() == paths@[i as int]@);
        }
        out.insert(j, x);
        proof {
            assert(views_of_strings(out@) =~= vs.insert(j as int, x@));
        }
        i = i + 1;
    }
    proof {
        assert(paths@.take(paths@.len() as int) =~= paths@);
    }
    *paths = out;
}

/// Joins every name onto the folder path, keeping the order.
fn join_all(folder: &str, names: &Vec<String>) -> (r: Vec<String>)
    ensures
        views_of_strings(r@) == joined_names(folder@, views_of_strings(names@)),
{
    let mut out: Vec<String> = Vec::new();
    let mut i: usize = 0;
    while i < names.len()
        invariant
            i <= names@.len(),
            views_of_strings(out@) == joined_names(
                folder@,
                views_of_strings(names@.take(i as int)),
            ),
        decreases names@.len() - i,
    {
        let ghost prev_out = out@;
        let ghost prev = views_of_strings(names@.take(i as int));
        let ghost cur = views_of_strings(names@.take(i as int + 1));
        out.push(join_path(folder, names[i].as_str()));
        proof {
            assert(cur =~= prev.push(names@[i as int]@));
            assert(joined_names(folder@, cur) =~= joined_names(folder@, prev).push(
                joined_path(folder@, names@[i as int]@),
            ));
            assert(views_of_strings(out@) =~= views_of_strings(prev_out).push(
                out@.last()@,
            ));
        }
        i = i + 1;
    }
    proof {
        assert(names@.take(names@.len() as int) =~= names@);
    }
    out
}

} // verus!
