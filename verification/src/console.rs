use vstd::prelude::*;
use vstd::string::{StringExecFns, StrSliceExecFns};
use crate::record::{LogRecord, Timestamp};
use crate::text::{decimal, digit_char, push_decimal};

verus! {

broadcast use vstd::string::group_string_axioms;

/// The console sink: renders each record as one line of text.
pub struct ConsoleSink {}

/// The longest message body shown in full; longer bodies are cut and marked with "...".
pub open spec fn max_body_chars() -> nat {
    20
}

/// `n` as two decimal digits (for `n` below 100).
pub open spec fn two_digits(n: nat) -> Seq<char> {
    seq![digit_char(n / 10), digit_char(n % 10)]
}

/// `n` as three decimal digits (for `n` below 1000).
pub open spec fn three_digits(n: nat) -> Seq<char> {
    seq![digit_char(n / 100), digit_char((n / 10) % 10), digit_char(n % 10)]
}

/// "HH:MM:SS.mmm" for a time of day given in seconds and milliseconds.
pub open spec fn clock(secs: nat, millis: nat) -> Seq<char> {
    two_digits(secs / 3600) + seq![':'] + two_digits((secs / 60) % 60) + seq![':'] + two_digits(
        secs % 60,
    ) + seq!['.'] + three_digits(millis)
}

/// The body as shown on the console: cut to its first twenty characters,
/// followed by "...", when it is longer than that.
pub open spec fn shown_body(body: Seq<char>) -> Seq<char> {
    if body.len() > max_body_chars() {
        body.take(max_body_chars() as int) + seq!['.', '.', '.']
    } else {
        body
    }
}

/// The head of a record's console line:
/// "[HH:MM:SS.mmm] [Level] (file:line) - ", with the local time of day,
/// "unknown" for a missing file and 0 for a missing line.
pub open spec fn line_head(r: LogRecord) -> Seq<char> {
    let ms = r.timestamp.spec_local_ms_of_day();
    seq!['['] + clock((ms / 1000) as nat, (ms % 1000) as nat) + seq![']', ' ', '['] + r.level.spec_name()
        + seq![']', ' ', '('] + match r.file {
        Some(f) => f@,
        None => seq!['u', 'n', 'k', 'n', 'o', 'w', 'n'],
    } + seq![':'] + decimal(
        match r.line {
            Some(l) => l as nat,
            None => 0,
        },
    ) + seq![')', ' ', '-', ' ']
}

/// The line printed for a record: its head, then the body cut as by `shown_body`.
pub open spec fn console_line(r: LogRecord) -> Seq<char> {
    line_head(r) + shown_body(r.body@)
}

/// Builds the time of day with `chrono::NaiveTime::from_num_seconds_from_midnight_opt`
/// and renders it with `format("%H:%M:%S%.3f")`. Claimed: the text is the hour,
/// minute and second as two zero-padded digits each, separated by colons, then a
/// dot and the milliseconds (`nanos / 1_000_000`) as three digits. Under the
/// `requires` the time exists and is no leap second, so the `unwrap` cannot fail.
#[verifier::external_body]
fn format_clock(secs: u32, nanos: u32) -> (s: String)
    requires
        secs < 86_400,
        nanos < 1_000_000_000,
    ensures
        s@ == clock(secs as nat, (nanos / 1_000_000) as nat),
{
    chrono::NaiveTime::from_num_seconds_from_midnight_opt(secs, nanos).unwrap().format(
        "%H:%M:%S%.3f",
    ).to_string()
}

/// Milliseconds since local midnight at the given instant.
pub fn local_ms_of_day(t: &Timestamp) -> (ms: u32)
    ensures
        ms == t.spec_local_ms_of_day(),
{
    let day: i128 = 86_400_000;
    let local: i128 = t.millis as i128 + (t.offset_secs as i128) * 1000;
    let ghost l = t.millis + t.offset_secs * 1000;
    assert(local == l);
    if local >= 0 {
        let m = (local as u128) % 86_400_000u128;
        assert(m == l % 86_400_000);
        m as u32
    } else {
        let p: u128 = (-(local + 1)) as u128;
        let r = p % 86_400_000u128;
        let m = 86_399_999u128 - r;
        assert(m == l % 86_400_000) by (nonlinear_arith)
            requires
                l < 0,
                p == -(l + 1),
                r == p % 86_400_000,
                m == 86_399_999 - r,
        {
            let q = p / 86_400_000;
            assert(p == q * 86_400_000 + r);
            assert(l == (-q - 1) * 86_400_000 + m);
        }
        m as u32
    }
}

impl ConsoleSink {
    /// The body as shown on the console (see `shown_body`).
    pub fn display_body(body: &str) -> (s: String)
        ensures
            s@ == shown_body(body@),
    {
        proof {
            reveal_strlit("...");
        }
        if body.unicode_len() > 20 {
            let mut s = String::from_str(body.substring_char(0, 20));
            s.append("...");
            s
        } else {
            String::from_str(body)
        }
    }

    /// The head of the console line for `record` (see `line_head`).
    fn head(record: &LogRecord) -> (line: String)
        ensures
            line@ == line_head(*record),
    {
        proof {
            reveal_strlit("[");
            reveal_strlit("] [");
            reveal_strlit("] (");
            reveal_strlit("unknown");
            reveal_strlit(":");
            reveal_strlit(") - ");
        }
        let ms = local_ms_of_day(&record.timestamp);
        let secs = ms / 1000;
        let nanos = (ms % 1000) * 1_000_000;
        let ghost msi = record.timestamp.spec_local_ms_of_day();
        let ghost p1 = seq!['['] + clock((msi / 1000) as nat, (msi % 1000) as nat) + seq![
            ']',
            ' ',
            '[',
        ] + record.level.spec_name() + seq![']', ' ', '('];
        let ghost p2 = match &record.file {
            Some(f) => f@,
            None => seq!['u', 'n', 'k', 'n', 'o', 'w', 'n'],
        };
        let ghost p3 = seq![':'] + decimal(
            match record.line {
                Some(l) => l as nat,
                None => 0,
            },
        ) + seq![')', ' ', '-', ' '];
        let mut line = String::from_str("[");
        line.append(format_clock(secs, nanos).as_str());
        line.append("] [");
        line.append(record.level.name());
        line.append("] (");
        assert(line@ =~= p1);
        match &record.file {
            Some(f) => line.append(f.as_str()),
            None => line.append("unknown"),
        }
        assert(line@ =~= p1 + p2);
        line.append(":");
        let n: u64 = match record.line {
            Some(l) => l as u64,
            None => 0,
        };
        push_decimal(&mut line, n);
        line.append(") - ");
        assert(line@ =~= p1 + p2 + p3);
        line
    }

    /// The console line for `record` (see `console_line`): long bodies are cut.
    pub fn handle(&self, record: &LogRecord) -> (line: String)
        ensures
            line@ == console_line(*record),
    {
        let mut line = ConsoleSink::head(record);
        let shown = ConsoleSink::display_body(record.body.as_str());
        line.append(shown.as_str());
        line
    }

    /// The console line for `record` with the whole body, however long.
    pub fn full_line(&self, record: &LogRecord) -> (line: String)
        ensures
            line@ == line_head(*record) + record.body@,
    {
        let mut line = ConsoleSink::head(record);
        line.append(record.body.as_str());
        line
    }
}

/// The local time of day is the local instant reduced to one day: it lies in
/// [0, 86 400 000) and differs from `millis + offset_secs * 1000` by a whole
/// number of days.
pub proof fn lemma_local_time_of_day(t: Timestamp)
    ensures
        0 <= t.spec_local_ms_of_day() < 86_400_000,
        exists|days: int|
            t.millis + t.offset_secs * 1000 == #[trigger] (days * 86_400_000)
                + t.spec_local_ms_of_day(),
{
    let l = t.millis + t.offset_secs * 1000;
    let days = l / 86_400_000;
    assert(l == days * 86_400_000 + l % 86_400_000);
}

/// A console line starts with the clock in brackets and ends with the shown
/// body, which is the body itself whenever it has at most twenty characters.
pub proof fn lemma_console_line_shape(r: LogRecord)
    ensures
        console_line(r)[0] == '[',
        console_line(r).len() >= shown_body(r.body@).len(),
        console_line(r).subrange(
            console_line(r).len() - shown_body(r.body@).len(),
            console_line(r).len() as int,
        ) == shown_body(r.body@),
        r.body@.len() <= max_body_chars() ==> console_line(r).subrange(
            console_line(r).len() - r.body@.len(),
            console_line(r).len() as int,
        ) == r.body@,
{
    let h = line_head(r);
    let b = shown_body(r.body@);
    assert(console_line(r) == h + b);
    assert((h + b).subrange(h.len() as int, (h + b).len() as int) =~= b);
}

/// A body of at most twenty characters is shown unchanged; a longer one is
/// shown as its first twenty characters followed by "...", so at most
/// twenty-three characters reach the console.
pub proof fn lemma_shown_body_bounds(body: Seq<char>)
    ensures
        shown_body(body).len() <= max_body_chars() + 3,
        body.len() <= max_body_chars() ==> shown_body(body) == body,
        body.len() > max_body_chars() ==> shown_body(body).take(max_body_chars() as int)
            == body.take(max_body_chars() as int),
{
    if body.len() > max_body_chars() {
        assert(shown_body(body).take(max_body_chars() as int) =~= body.take(
            max_body_chars() as int,
        ));
    }
}

} // verus!
