use vstd::prelude::*;
use vstd::multiset::Multiset;
use crate::text::{texts, has_prefix, lex_le, lex_le_text, lemma_lex_total, lemma_lex_trans, lemma_lex_antisym, starts_with};

verus! {

broadcast use vstd::seq_lib::group_to_multiset_ensures;

/// One entry of a directory listing: its file name and whether it is a regular file.
pub struct FileEntry {
    pub name: String,
    pub is_file: bool,
}

/// The name prefix shared by all rotated log files: "log-".
pub open spec fn log_prefix() -> Seq<char> {
    seq!['l', 'o', 'g', '-']
}

/// A name that the file sink treats as one of its log files.
pub open spec fn is_log_name(name: Seq<char>) -> bool {
    starts_with(name, log_prefix())
}

/// An entry that counts as a rotated log file: a regular file whose name starts with "log-".
pub open spec fn is_log_file(e: FileEntry) -> bool {
    e.is_file && is_log_name(e.name@)
}

/// The names of the log files in a listing, in listing order.
pub open spec fn log_file_names(entries: Seq<FileEntry>) -> Seq<Seq<char>>
    decreases entries.len(),
{
    if entries.len() == 0 {
        Seq::empty()
    } else {
        let rest = log_file_names(entries.drop_last());
        if is_log_file(entries.last()) {
            rest.push(entries.last().name@)
        } else {
            rest
        }
    }
}

/// Every element is lexicographically no greater than every later one.
pub open spec fn sorted_texts(s: Seq<Seq<char>>) -> bool {
    forall|i: int, j: int| 0 <= i < j < s.len() ==> lex_le(#[trigger] s[i], #[trigger] s[j])
}

/// `x` is the least element of `s`.
pub open spec fn is_least(x: Seq<char>, s: Seq<Seq<char>>) -> bool {
    s.contains(x) && forall|i: int| 0 <= i < s.len() ==> lex_le(x, #[trigger] s[i])
}

/// `x` is the greatest element of `s`.
pub open spec fn is_greatest(x: Seq<char>, s: Seq<Seq<char>>) -> bool {
    s.contains(x) && forall|i: int| 0 <= i < s.len() ==> lex_le(#[trigger] s[i], x)
}

pub(crate) fn log_prefix_text() -> (s: &'static str)
    ensures
        s@ == log_prefix(),
{
    proof {
        reveal_strlit("log-");
    }
    "log-"
}

/// The names of the log files among `entries`, in listing order.
fn collect_log_names(entries: &Vec<FileEntry>) -> (names: Vec<String>)
    ensures
        texts(names@) == log_file_names(entries@),
{
    let mut names: Vec<String> = Vec::new();
    let mut i: usize = 0;
    while i < entries.len()
        invariant
            i <= entries.len(),
            texts(names@) == log_file_names(entries@.take(i as int)),
        decreases entries.len() - i,
    {
        let e = &entries[i];
        assert(entries@.take(i + 1).drop_last() =~= entries@.take(i as int));
        if e.is_file && has_prefix(e.name.as_str(), log_prefix_text()) {
            names.push(e.name.clone());
        }
        assert(texts(names@) =~= log_file_names(entries@.take(i + 1)));
        i = i + 1;
    }
    assert(entries@.take(entries.len() as int) =~= entries@);
    names
}

/// Index of a least element of `v`.
fn least_index(v: &Vec<String>) -> (m: usize)
    requires
        v.len() > 0,
    ensures
        m < v.len(),
        forall|j: int| 0 <= j < v.len() ==> lex_le(v@[m as int]@, #[trigger] v@[j]@),
{
    let mut m: usize = 0;
    let mut i: usize = 1;
    proof {
        lemma_lex_total(v@[0]@, v@[0]@);
    }
    while i < v.len()
        invariant
            0 < i <= v.len(),
            m < i,
            forall|j: int| 0 <= j < i ==> lex_le(v@[m as int]@, #[trigger] v@[j]@),
        decreases v.len() - i,
    {
        if !lex_le_text(v[m].as_str(), v[i].as_str()) {
            proof {
                lemma_lex_total(v@[m as int]@, v@[i as int]@);
                assert forall|j: int| 0 <= j < i + 1 implies lex_le(
                    v@[i as int]@,
                    #[trigger] v@[j]@,
                ) by {
                    if j < i {
                        lemma_lex_trans(v@[i as int]@, v@[m as int]@, v@[j]@);
                    } else {
                        lemma_lex_total(v@[i as int]@, v@[i as int]@);
                    }
                }
            }
            m = i;
        }
        i = i + 1;
    }
    m
}

/// The log files of a directory listing (regular files whose names start
/// with "log-"), sorted by name: oldest first, since names carry the date.
pub fn get_sorted_files(entries: &Vec<FileEntry>) -> (files: Vec<String>)
    ensures
        sorted_texts(texts(files@)),
        texts(files@).to_multiset() == log_file_names(entries@).to_multiset(),
        log_file_names(entries@).no_duplicates() ==> texts(files@).no_duplicates(),
{
    let mut rest = collect_log_names(entries);
    let ghost total = texts(rest@).to_multiset();
    let mut out: Vec<String> = Vec::new();
    assert(texts(out@).to_multiset() =~= Multiset::empty());
    while rest.len() > 0
        invariant
            texts(out@).to_multiset().add(texts(rest@).to_multiset()) == total,
            sorted_texts(texts(out@)),
            forall|i: int, j: int|
                0 <= i < out.len() && 0 <= j < rest.len() ==> lex_le(
                    #[trigger] out@[i]@,
                    #[trigger] rest@[j]@,
                ),
        decreases rest.len(),
    {
        let m = least_index(&rest);
        let ghost old_rest = rest@;
        let ghost old_out = out@;
        let x = rest.remove(m);
        proof {
            assert(texts(rest@) =~= texts(old_rest).remove(m as int));
            assert(texts(old_rest)[m as int] == x@);
        }
        out.push(x);
        proof {
            assert(texts(out@) =~= texts(old_out).push(x@));
            assert(texts(out@).to_multiset().add(texts(rest@).to_multiset()) =~= total);
            assert forall|i: int, j: int|
                0 <= i < out.len() && 0 <= j < rest.len() implies lex_le(
                #[trigger] out@[i]@,
                #[trigger] rest@[j]@,
            ) by {
                if i < old_out.len() {
                    if j < m {
                        assert(rest@[j] == old_rest[j]);
                    } else {
                        assert(rest@[j] == old_rest[j + 1]);
                    }
                } else {
                    if j < m {
                        assert(rest@[j] == old_rest[j]);
                    } else {
                        assert(rest@[j] == old_rest[j + 1]);
                    }
                }
            }
            assert forall|i: int, j: int|
                0 <= i < j < texts(out@).len() implies lex_le(
                #[trigger] texts(out@)[i],
                #[trigger] texts(out@)[j],
            ) by {
                if j < old_out.len() {
                    assert(texts(old_out)[i] == texts(out@)[i]);
                    assert(texts(old_out)[j] == texts(out@)[j]);
                } else {
                    assert(old_out[i]@ == out@[i]@);
                    assert(lex_le(old_out[i]@, old_rest[m as int]@));
                }
            }
        }
    }
    assert(texts(rest@).to_multiset() =~= Multiset::empty());
    assert(texts(out@).to_multiset() =~= total);
    proof {
        if log_file_names(entries@).no_duplicates() {
            lemma_permutation_keeps_distinct(texts(out@), log_file_names(entries@));
        }
    }
    out
}

/// A permutation of a sequence without repeats has no repeats either.
proof fn lemma_permutation_keeps_distinct(a: Seq<Seq<char>>, b: Seq<Seq<char>>)
    requires
        a.to_multiset() == b.to_multiset(),
        b.no_duplicates(),
    ensures
        a.no_duplicates(),
{
    b.lemma_multiset_has_no_duplicates();
    a.lemma_multiset_has_no_duplicates_conv();
}

/// When the log file names of a listing are distinct (as names in one
/// directory are), the sorted list is strictly increasing.
pub proof fn lemma_sorted_files_strictly_increase(files: Seq<Seq<char>>, entries: Seq<FileEntry>)
    requires
        sorted_texts(files),
        files.to_multiset() == log_file_names(entries).to_multiset(),
        log_file_names(entries).no_duplicates(),
    ensures
        forall|i: int, j: int|
            0 <= i < j < files.len() ==> lex_le(#[trigger] files[i], #[trigger] files[j]) && files[i]
                != files[j],
{
    lemma_permutation_keeps_distinct(files, log_file_names(entries));
}


proof fn lemma_sorted_ends(s: Seq<Seq<char>>, t: Seq<Seq<char>>)
    requires
        sorted_texts(s),
        s.to_multiset() == t.to_multiset(),
    ensures
        s.len() == t.len(),
        s.len() > 0 ==> is_least(s[0], t),
        s.len() > 0 ==> is_greatest(s[s.len() - 1], t),
{
    assert(s.to_multiset().len() == s.len());
    assert(t.to_multiset().len() == t.len());
    if s.len() > 0 {
        assert(s.contains(s[0]));
        assert(s.contains(s[s.len() - 1]));
        assert(s.to_multiset().count(s[0]) > 0);
        assert(t.to_multiset().count(s[0]) > 0);
        assert(s.to_multiset().count(s[s.len() - 1]) > 0);
        assert(t.to_multiset().count(s[s.len() - 1]) > 0);
        assert forall|i: int| 0 <= i < t.len() implies lex_le(s[0], #[trigger] t[i]) && lex_le(
            t[i],
            s[s.len() - 1],
        ) by {
            assert(t.contains(t[i]));
            assert(s.to_multiset().count(t[i]) > 0);
            let k = choose|k: int| 0 <= k < s.len() && s[k] == t[i];
            lemma_lex_total(t[i], t[i]);
            if k > 0 {
                assert(lex_le(s[0], s[k]));
            }
            if k < s.len() - 1 {
                assert(lex_le(s[k], s[s.len() - 1]));
            }
        }
    }
}

/// The oldest log file of a listing: the least log file name, or `None` when there is none.
pub fn get_oldest_file(entries: &Vec<FileEntry>) -> (oldest: Option<String>)
    ensures
        oldest is None <==> log_file_names(entries@).len() == 0,
        oldest matches Some(n) ==> is_least(n@, log_file_names(entries@)),
{
    let mut files = get_sorted_files(entries);
    proof {
        lemma_sorted_ends(texts(files@), log_file_names(entries@));
    }
    if files.len() == 0 {
        None
    } else {
        let first = files.swap_remove(0);
        Some(first)
    }
}

/// The newest log file of a listing: the greatest log file name, or `None` when there is none.
pub fn get_newest_file(entries: &Vec<FileEntry>) -> (newest: Option<String>)
    ensures
        newest is None <==> log_file_names(entries@).len() == 0,
        newest matches Some(n) ==> is_greatest(n@, log_file_names(entries@)),
{
    let mut files = get_sorted_files(entries);
    proof {
        lemma_sorted_ends(texts(files@), log_file_names(entries@));
    }
    match files.pop() {
        None => None,
        Some(last) => Some(last),
    }
}

/// The least and the greatest log file name coincide exactly when the
/// listing holds log files that all carry the same name.
pub proof fn lemma_oldest_newest_agree(names: Seq<Seq<char>>, a: Seq<char>, b: Seq<char>)
    requires
        is_least(a, names),
        is_greatest(b, names),
    ensures
        lex_le(a, b),
        a == b <==> forall|i: int| 0 <= i < names.len() ==> #[trigger] names[i] == a,
{
    let k = choose|k: int| 0 <= k < names.len() && names[k] == b;
    assert(lex_le(a, names[k]));
    if a == b {
        assert forall|i: int| 0 <= i < names.len() implies #[trigger] names[i] == a by {
            lemma_lex_antisym(names[i], a);
        }
    }
}

/// Every log file of a listing appears among its log file names.
pub proof fn lemma_log_file_listed(entries: Seq<FileEntry>, i: int)
    requires
        0 <= i < entries.len(),
        is_log_file(entries[i]),
    ensures
        log_file_names(entries).contains(entries[i].name@),
    decreases entries.len(),
{
    if i < entries.len() - 1 {
        lemma_log_file_listed(entries.drop_last(), i);
        let k = choose|k: int|
            0 <= k < log_file_names(entries.drop_last()).len() && log_file_names(
                entries.drop_last(),
            )[k] == entries[i].name@;
        if is_log_file(entries.last()) {
            assert(log_file_names(entries)[k] == entries[i].name@);
        }
    } else {
        let names = log_file_names(entries);
        assert(names[names.len() - 1] == entries[i].name@);
    }
}

} // verus!
