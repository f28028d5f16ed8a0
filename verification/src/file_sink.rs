use vstd::prelude::*;
use vstd::string::StringExecFns;
use crate::config::{FileConfig, LoadError};
use crate::file_tools::{
    FileEntry, get_newest_file, get_oldest_file, is_greatest, is_least, is_log_name, log_file_names,
    log_prefix,
};
use vstd::string::StrSliceExecFns;
use crate::text::{
    ends_with, has_suffix, lex_le, lex_le_text, lemma_lex_antisym, lemma_lex_common_prefix,
    lemma_lex_total, lemma_lex_trans, same_text,
};

verus! {

/// The smallest accepted `max_size`: 512 KiB.
pub const FILE_MIN_SIZE: u64 = 524288;

/// The smallest accepted `rotate_num`: one file.
pub const FILE_MIN_ROTATE: usize = 1;

/// The rotating file sink: appends records to the newest "log-<date>.log" file
/// of its directory, starts a new file once that one reaches `max_size`, and
/// keeps at most `rotate_num` files.
pub struct FileSink {
    config: FileConfig,
}

/// What the file sink does with the next record.
pub enum FilePlan {
    /// The sink is disabled: nothing is written.
    Disabled,
    /// Append to this existing file.
    Append { file: String },
    /// Create (or truncate) this file and write to it; then delete `remove`, if any.
    Create { file: String, remove: Option<String> },
}

/// The limits are absent or at least the accepted minimum.
pub open spec fn meets_minimum(c: FileConfig) -> bool {
    &&& c.max_size matches Some(m) && m >= FILE_MIN_SIZE
    &&& c.rotate_num matches Some(r) && r >= FILE_MIN_ROTATE
}

/// The name of the file started on `date`: "log-" + date + ".log".
pub open spec fn file_name_for(date: Seq<char>) -> Seq<char> {
    log_prefix() + date + seq!['.', 'l', 'o', 'g']
}

/// ".log"
pub open spec fn dot_log() -> Seq<char> {
    seq!['.', 'l', 'o', 'g']
}

/// "_1.log"
pub open spec fn later_suffix() -> Seq<char> {
    seq!['_', '1', '.', 'l', 'o', 'g']
}

/// The name of the file that follows a full file named `n` on the same day:
/// "_1" inserted before its ".log" (or "_1.log" appended), which sorts after `n`.
pub open spec fn later_name(n: Seq<char>) -> Seq<char> {
    if ends_with(n, dot_log()) {
        n.take(n.len() - 4) + later_suffix()
    } else {
        n + later_suffix()
    }
}

/// The file the sink starts: the file for `date` when it sorts after the newest
/// log file (or there is none); otherwise (a second file on the same day, or a
/// clock set back) the name that follows the newest log file. Either way the
/// new file sorts after every existing log file.
pub open spec fn next_file_name(entries: Seq<FileEntry>, date: Seq<char>, file: Seq<char>) -> bool {
    let names = log_file_names(entries);
    if names.len() > 0 {
        exists|g: Seq<char>|
            is_greatest(g, names) && file == if lex_le(file_name_for(date), g) {
                later_name(g)
            } else {
                file_name_for(date)
            }
    } else {
        file == file_name_for(date)
    }
}

/// Number of listing entries of any kind whose name starts with "log-".
pub open spec fn log_entry_count(entries: Seq<FileEntry>) -> nat
    decreases entries.len(),
{
    if entries.len() == 0 {
        0
    } else {
        log_entry_count(entries.drop_last()) + if is_log_name(entries.last().name@) {
            1nat
        } else {
            0nat
        }
    }
}

/// Some entry of the listing has this name.
pub open spec fn name_present(entries: Seq<FileEntry>, name: Seq<char>) -> bool {
    exists|i: int| 0 <= i < entries.len() && #[trigger] entries[i].name@ == name
}

/// The log files once `name` has been created.
pub open spec fn log_names_after(entries: Seq<FileEntry>, name: Seq<char>) -> Seq<Seq<char>> {
    if name_present(entries, name) {
        log_file_names(entries)
    } else {
        log_file_names(entries).push(name)
    }
}

/// The count of "log-" entries once `name` has been created.
pub open spec fn count_after(entries: Seq<FileEntry>, name: Seq<char>) -> nat {
    log_entry_count(entries) + if name_present(entries, name) {
        0nat
    } else {
        1nat
    }
}

/// Today's date in the local time zone, as `chrono::Local::now().format("%Y-%m-%d")`.
/// Nothing is claimed of the text: it depends on the clock and the time zone.
#[verifier::external_body]
fn local_date() -> (date: String) {
    chrono::Local::now().format("%Y-%m-%d").to_string()
}

impl FileSink {
    pub closed spec fn spec_config(&self) -> FileConfig {
        self.config
    }

    /// The sink writes only when it has a directory and both limits.
    pub open spec fn spec_enabled(&self) -> bool {
        &&& self.spec_config().dir_path@.len() > 0
        &&& self.spec_config().max_size is Some
        &&& self.spec_config().rotate_num is Some
    }

    /// A sink's limits are either both absent or both at least the minimum.
    pub open spec fn wf(&self) -> bool {
        ||| meets_minimum(self.spec_config())
        ||| (self.spec_config().max_size is None && self.spec_config().rotate_num is None)
    }

    /// The file sink for a configuration load: the loaded configuration when
    /// its limits meet the minimum (512 KiB, one file), the default (disabled)
    /// configuration otherwise, and also when loading failed.
    pub fn create_file_sink(loaded: Result<FileConfig, LoadError>) -> (s: FileSink)
        ensures
            s.wf(),
            match loaded {
                Ok(c) => if meets_minimum(c) {
                    s.spec_config() == c
                } else {
                    s.spec_config().dir_path@.len() == 0 && s.spec_config().max_size is None
                        && s.spec_config().rotate_num is None
                },
                Err(_) => s.spec_config().dir_path@.len() == 0 && s.spec_config().max_size is None
                    && s.spec_config().rotate_num is None,
            },
    {
        let config = match loaded {
            Ok(c) => c,
            Err(_) => FileConfig::default(),
        };
        let big_enough = match config.max_size {
            Some(m) => m >= FILE_MIN_SIZE,
            None => false,
        };
        let enough_files = match config.rotate_num {
            Some(r) => r >= FILE_MIN_ROTATE,
            None => false,
        };
        if big_enough && enough_files {
            FileSink { config }
        } else {
            FileSink { config: FileConfig::default() }
        }
    }

    /// The sink's configuration.
    pub fn config(&self) -> (c: &FileConfig)
        ensures
            *c == self.spec_config(),
    {
        &self.config
    }

    /// Does the sink write at all?
    pub fn is_enabled(&self) -> (b: bool)
        ensures
            b == self.spec_enabled(),
    {
        !self.config.dir_path.as_str().is_empty() && self.config.max_size.is_some()
            && self.config.rotate_num.is_some()
    }

    /// The name of the file started on `date` (formatted "%Y-%m-%d"): "log-<date>.log".
    pub fn create_file(date: &str) -> (name: String)
        ensures
            name@ == file_name_for(date@),
    {
        proof {
            reveal_strlit("log-");
            reveal_strlit(".log");
        }
        let mut name = String::from_str("log-");
        name.append(date);
        name.append(".log");
        name
    }

    /// `plan` is what the sink does with the next record, given the directory
    /// listing, the size of the newest log file and the current date.
    pub open spec fn plan_ok(
        &self,
        entries: Seq<FileEntry>,
        newest_size: u64,
        date: Seq<char>,
        plan: FilePlan,
    ) -> bool {
        let names = log_file_names(entries);
        let max = self.spec_config().max_size->0;
        let rot = self.spec_config().rotate_num->0;
        match plan {
            FilePlan::Disabled => !self.spec_enabled(),
            FilePlan::Append { file } => {
                &&& self.spec_enabled()
                &&& names.len() > 0
                &&& newest_size < max
                &&& is_greatest(file@, names)
            },
            FilePlan::Create { file, remove } => {
                &&& self.spec_enabled()
                &&& next_file_name(entries, date, file@)
                &&& (names.len() == 0 || newest_size >= max)
                &&& (remove is Some <==> (names.len() > 0 && count_after(entries, file@) > rot))
                &&& (remove matches Some(o) ==> is_least(o@, log_names_after(entries, file@)))
            },
        }
    }

    /// Decides where the next record goes, today being the local date: see `choose_file`.
    pub fn handle(&self, entries: &Vec<FileEntry>, newest_size: u64) -> (plan: FilePlan)
        ensures
            exists|date: Seq<char>| self.plan_ok(entries@, newest_size, date, plan),
    {
        let today = local_date();
        let plan = self.choose_file(entries, newest_size, today.as_str());
        assert(self.plan_ok(entries@, newest_size, today@, plan));
        plan
    }

    /// Decides where the next record goes. When the sink is disabled nothing is
    /// written. Otherwise, when the newest log file is smaller than `max_size`
    /// (`newest_size` is its size) the record is appended to it; else a new
    /// file is created (the file for `date`, or, when that name is taken, the
    /// name following the newest file, so a full file is never emptied), and if
    /// the directory then holds more than `rotate_num` "log-" entries the
    /// oldest log file is deleted.
    pub fn choose_file(&self, entries: &Vec<FileEntry>, newest_size: u64, date: &str) -> (plan:
        FilePlan)
        ensures
            self.plan_ok(entries@, newest_size, date@, plan),
    {
        if !self.is_enabled() {
            return FilePlan::Disabled;
        }
        let max = match self.config.max_size {
            Some(m) => m,
            None => 0,
        };
        let rot = match self.config.rotate_num {
            Some(r) => r,
            None => 0,
        };
        let newest = get_newest_file(entries);
        let base = FileSink::create_file(date);
        match newest {
            None => FilePlan::Create { file: base, remove: None },
            Some(n) => {
                if newest_size < max {
                    return FilePlan::Append { file: n };
                }
                let new_name = if lex_le_text(base.as_str(), n.as_str()) {
                    following_name(n.as_str())
                } else {
                    base
                };
                let present = name_is_present(entries, new_name.as_str());
                let count = count_log_entries(entries);
                let too_many = if present {
                    count > rot
                } else {
                    count >= rot
                };
                if too_many {
                    let oldest = match get_oldest_file(entries) {
                        Some(o) => o,
                        None => n,
                    };
                    let remove = if present {
                        oldest
                    } else if lex_le_text(oldest.as_str(), new_name.as_str()) {
                        proof {
                            lemma_least_after_push(log_file_names(entries@), oldest@, new_name@);
                        }
                        oldest
                    } else {
                        proof {
                            lemma_lex_total(oldest@, new_name@);
                            assert forall|i: int|
                                0 <= i < log_file_names(entries@).push(new_name@).len() implies lex_le(
                                new_name@,
                                #[trigger] log_file_names(entries@).push(new_name@)[i],
                            ) by {
                                if i < log_file_names(entries@).len() {
                                    lemma_lex_trans(
                                        new_name@,
                                        oldest@,
                                        log_file_names(entries@)[i],
                                    );
                                } else {
                                    lemma_lex_total(new_name@, new_name@);
                                }
                            }
                            assert(log_file_names(entries@).push(new_name@).contains(new_name@)) by {
                                assert(log_file_names(entries@).push(new_name@)[log_file_names(
                                    entries@,
                                ).len() as int] == new_name@);
                            }
                        }
                        new_name.clone()
                    };
                    FilePlan::Create { file: new_name, remove: Some(remove) }
                } else {
                    FilePlan::Create { file: new_name, remove: None }
                }
            },
        }
    }
}

proof fn lemma_least_after_push(names: Seq<Seq<char>>, least: Seq<char>, x: Seq<char>)
    requires
        is_least(least, names) || least == x,
        lex_le(least, x),
    ensures
        is_least(least, names) ==> is_least(least, names.push(x)),
{
    if is_least(least, names) {
        let k = choose|k: int| 0 <= k < names.len() && names[k] == least;
        assert(names.push(x)[k] == least);
        assert forall|i: int| 0 <= i < names.push(x).len() implies lex_le(
            least,
            #[trigger] names.push(x)[i],
        ) by {
            if i < names.len() {
                assert(names.push(x)[i] == names[i]);
            }
        }
    }
}

/// The name that follows `n` (see `later_name`).
fn following_name(n: &str) -> (m: String)
    ensures
        m@ == later_name(n@),
{
    proof {
        reveal_strlit(".log");
        reveal_strlit("_1.log");
    }
    assert(".log"@ =~= dot_log());
    assert("_1.log"@ =~= later_suffix());
    let mut m = if has_suffix(n, ".log") {
        let len = n.unicode_len();
        let head = n.substring_char(0, len - 4);
        assert(head@ =~= n@.take(n@.len() - 4));
        String::from_str(head)
    } else {
        String::from_str(n)
    };
    m.append("_1.log");
    m
}

/// `later_name(n)` sorts strictly after `n`.
pub proof fn lemma_later_name_sorts_after(n: Seq<char>)
    ensures
        lex_le(n, later_name(n)),
        later_name(n) != n,
{
    if ends_with(n, dot_log()) {
        let t = n.take(n.len() - 4);
        assert(n =~= t + dot_log());
        lemma_lex_common_prefix(t, dot_log(), later_suffix());
        assert(dot_log()[0] != later_suffix()[0]);
        assert(later_name(n).len() == n.len() + 2);
    } else {
        assert(n + Seq::<char>::empty() =~= n);
        lemma_lex_common_prefix(n, Seq::<char>::empty(), later_suffix());
        assert(later_name(n).len() == n.len() + 6);
    }
}

/// When the newest file is full the sink starts a file that sorts after every
/// existing log file: it never creates (and so never empties) one of them, a
/// full file of today is kept, and the new file becomes the newest.
pub proof fn lemma_new_file_is_newest(
    sink: &FileSink,
    entries: Seq<FileEntry>,
    newest_size: u64,
    date: Seq<char>,
    file: String,
    remove: Option<String>,
)
    requires
        sink.plan_ok(entries, newest_size, date, FilePlan::Create { file, remove }),
    ensures
        !log_file_names(entries).contains(file@),
        forall|i: int|
            0 <= i < log_file_names(entries).len() ==> lex_le(
                #[trigger] log_file_names(entries)[i],
                file@,
            ),
{
    let names = log_file_names(entries);
    if names.len() > 0 {
        let base = file_name_for(date);
        let g = choose|g: Seq<char>|
            is_greatest(g, names) && file@ == if lex_le(base, g) {
                later_name(g)
            } else {
                base
            };
        lemma_later_name_sorts_after(g);
        lemma_lex_total(base, g);
        assert forall|i: int| 0 <= i < names.len() implies lex_le(#[trigger] names[i], file@) by {
            lemma_lex_trans(names[i], g, file@);
        }
        if names.contains(file@) {
            let k = choose|k: int| 0 <= k < names.len() && names[k] == file@;
            assert(lex_le(names[k], g));
            lemma_lex_antisym(g, file@);
        }
    }
}

/// Is some entry named `name`?
fn name_is_present(entries: &Vec<FileEntry>, name: &str) -> (b: bool)
    ensures
        b == name_present(entries@, name@),
{
    let mut i: usize = 0;
    while i < entries.len()
        invariant
            i <= entries.len(),
            forall|j: int| 0 <= j < i ==> #[trigger] entries@[j].name@ != name@,
        decreases entries.len() - i,
    {
        if same_text(entries[i].name.as_str(), name) {
            return true;
        }
        i = i + 1;
    }
    false
}

proof fn lemma_count_bounded(entries: Seq<FileEntry>)
    ensures
        log_file_names(entries).len() <= log_entry_count(entries),
        log_entry_count(entries) <= entries.len(),
    decreases entries.len(),
{
    if entries.len() > 0 {
        lemma_count_bounded(entries.drop_last());
    }
}

/// Number of entries whose name starts with "log-".
fn count_log_entries(entries: &Vec<FileEntry>) -> (n: usize)
    ensures
        n == log_entry_count(entries@),
{
    let mut n: usize = 0;
    let mut i: usize = 0;
    while i < entries.len()
        invariant
            i <= entries.len(),
            n == log_entry_count(entries@.take(i as int)),
        decreases entries.len() - i,
    {
        assert(entries@.take(i + 1).drop_last() =~= entries@.take(i as int));
        assert(entries@.take(i + 1).last() == entries@[i as int]);
        proof {
            lemma_count_bounded(entries@.take(i as int));
        }
        if crate::text::has_prefix(entries[i].name.as_str(), crate::file_tools::log_prefix_text()) {
            n = n + 1;
        }
        i = i + 1;
    }
    assert(entries@.take(i as int) =~= entries@);
    n
}

/// How many log files the directory holds once `plan` has been carried out.
pub open spec fn files_after(entries: Seq<FileEntry>, plan: FilePlan) -> int {
    match plan {
        FilePlan::Create { file, remove } => log_names_after(entries, file@).len() - if remove is Some {
            1int
        } else {
            0int
        },
        _ => log_file_names(entries).len() as int,
    }
}

/// Rotation never lets the directory hold more than `rotate_num` log files:
/// if it held at most that many before a record was written, it holds at most
/// that many afterwards, whatever the listing, the newest file's size and the date.
pub proof fn lemma_rotation_keeps_at_most_rotate_num(
    sink: &FileSink,
    entries: Seq<FileEntry>,
    newest_size: u64,
    date: Seq<char>,
    plan: FilePlan,
)
    requires
        sink.wf(),
        sink.plan_ok(entries, newest_size, date, plan),
        sink.spec_enabled(),
        log_file_names(entries).len() <= sink.spec_config().rotate_num->0,
    ensures
        files_after(entries, plan) <= sink.spec_config().rotate_num->0,
{
    lemma_count_bounded(entries);
    match plan {
        FilePlan::Create { file, remove } => {
            if remove is Some {
                let o = remove->0;
                assert(log_names_after(entries, file@).contains(o@));
            }
        },
        _ => {},
    }
}

/// The exact count after a rotation: when every "log-" entry is a log file and
/// the new file's name is not taken, a directory with `k <= rotate_num` log
/// files holds `k + 1` of them afterwards when `k < rotate_num`, and `k` (the
/// oldest having been deleted) when `k == rotate_num`.
pub proof fn lemma_rotation_count(
    sink: &FileSink,
    entries: Seq<FileEntry>,
    newest_size: u64,
    date: Seq<char>,
    file: String,
    remove: Option<String>,
)
    requires
        sink.wf(),
        sink.spec_enabled(),
        sink.plan_ok(entries, newest_size, date, FilePlan::Create { file, remove }),
        log_file_names(entries).len() == log_entry_count(entries),
        !name_present(entries, file@),
        log_file_names(entries).len() <= sink.spec_config().rotate_num->0,
    ensures
        ({
            let k = log_file_names(entries).len();
            let rot = sink.spec_config().rotate_num->0;
            &&& k < rot ==> files_after(entries, FilePlan::Create { file, remove }) == k + 1
                && remove is None
            &&& k == rot ==> files_after(entries, FilePlan::Create { file, remove }) == k
                && remove is Some
        }),
{
}

/// A file started by the sink is recognised as one of its log files: once it
/// exists as a regular file in the directory, the listing's log files include it.
pub proof fn lemma_created_file_is_listed(entries: Seq<FileEntry>, date: Seq<char>, i: int)
    requires
        0 <= i < entries.len(),
        entries[i].is_file,
        entries[i].name@ == file_name_for(date),
    ensures
        is_log_name(file_name_for(date)),
        log_file_names(entries).contains(file_name_for(date)),
{
    assert(file_name_for(date).subrange(0, 4) =~= log_prefix());
    crate::file_tools::lemma_log_file_listed(entries, i);
}

} // verus!
