//! The daily reminder that `pb update` exists.
use vstd::prelude::*;

use crate::command::Command;
use crate::credential::{Platform, join_path, path_join};
use crate::text::{
    decimal, first_index_of, lemma_decimal_parses, parse_u64, push_char, spec_decimal,
    spec_parse_u64, str_eq,
};

verus! {

/// How long a reminder stays quiet after it was shown, in seconds.
pub const VERSION_REMINDER_INTERVAL_SECS: u64 = 86400;

/// The reminder's record: `$HOME/.config/pebblehost-cli/version-reminder`.
pub open spec fn spec_version_reminder_path(platform: Platform, home: Seq<char>) -> Seq<char> {
    path_join(platform, path_join(platform, home, ".config/pebblehost-cli"@), "version-reminder"@)
}

/// The reminder's record file, when the home directory is known.
pub fn version_reminder_path(platform: Platform, home: &Option<String>) -> (path: Option<String>)
    ensures
        match (path, *home) {
            (Some(p), Some(h)) => p@ == spec_version_reminder_path(platform, h@),
            (None, None) => true,
            _ => false,
        },
{
    match home {
        Some(h) => {
            let dir = join_path(platform, h.as_str(), ".config/pebblehost-cli");
            Some(join_path(platform, dir.as_str(), "version-reminder"))
        },
        None => None,
    }
}

/// The first line of `s` and what follows it, as `str::lines` reads lines:
/// a line ends at `\n`, and a `\r` right before that `\n` is not part of it.
pub open spec fn next_line(s: Seq<char>) -> Option<(Seq<char>, Seq<char>)> {
    if s.len() == 0 {
        None
    } else {
        let i = first_index_of(s, '\n');
        if i < s.len() {
            let l = s.subrange(0, i);
            let line = if l.len() > 0 && l.last() == '\r' {
                l.drop_last()
            } else {
                l
            };
            Some((line, s.subrange(i + 1, s.len() as int)))
        } else {
            Some((s, Seq::empty()))
        }
    }
}

/// `now - then`, or 0 when `then` is later.
pub open spec fn saturating_sub(now: u64, then: u64) -> int {
    if now >= then {
        now - then
    } else {
        0
    }
}

/// Whether the record says the reminder for `version` was shown less than
/// a day before `now`: its first line is the version, its second a time.
pub open spec fn recently_reminded(record: Seq<char>, version: Seq<char>, now: u64) -> bool {
    match next_line(record) {
        Some((first, rest)) => match next_line(rest) {
            Some((second, _)) => first == version && match spec_parse_u64(second) {
                Some(then) => saturating_sub(now, then) < VERSION_REMINDER_INTERVAL_SECS,
                None => false,
            },
            None => false,
        },
        None => false,
    }
}

/// The record written when the reminder is shown: version, then time.
pub open spec fn spec_reminder_record(version: Seq<char>, now: u64) -> Seq<char> {
    version.push('\n') + spec_decimal(now as nat).push('\n')
}

/// The reminder text.
pub open spec fn spec_reminder_notice(version: Seq<char>) -> Seq<char> {
    "pb "@ + version + " is installed. Run `pb update` to check for the latest version."@
}

/// Whether the reminder is due: not with `--json`, not for `login` or
/// `update`, not without a record path, and not within a day of the last
/// one for this version.
pub open spec fn reminder_due(
    json: bool,
    command: Command,
    has_path: bool,
    stored: Option<Seq<char>>,
    version: Seq<char>,
    now: u64,
) -> bool {
    &&& !json
    &&& !(command is Login || command is Update)
    &&& has_path
    &&& !(stored matches Some(record) && recently_reminded(record, version, now))
}

/// Whether to show the reminder.
#[derive(Debug)]
pub enum Reminder {
    Quiet,
    /// Print `notice` on standard error and write `record` to the record file.
    Show { notice: String, record: String },
}

/// The first line of `s` and what follows it.
fn split_line(s: &str) -> (r: Option<(String, String)>)
    ensures
        match (r, next_line(s@)) {
            (Some((a, b)), Some((x, y))) => a@ == x && b@ == y,
            (None, None) => true,
            _ => false,
        },
{
    let n = s.unicode_len();
    if n == 0 {
        return None;
    }
    let mut i: usize = 0;
    while i < n && s.get_char(i) != '\n'
        invariant
            n == s@.len(),
            i <= n,
            forall|k: int| 0 <= k < i ==> #[trigger] s@[k] != '\n',
        decreases n - i,
    {
        i = i + 1;
    }
    proof {
        crate::text::lemma_first_index_of(s@, '\n', i as int);
    }
    if i < n {
        let end = if i > 0 && s.get_char(i - 1) == '\r' {
            i - 1
        } else {
            i
        };
        let line = s.substring_char(0, end).to_owned();
        let rest = s.substring_char(i + 1, n).to_owned();
        assert(line@ =~= next_line(s@).unwrap().0);
        Some((line, rest))
    } else {
        assert(s@.subrange(0, n as int) =~= s@);
        Some((s.substring_char(0, n).to_owned(), String::new()))
    }
}

/// Whether the record says the reminder was shown recently.
fn reminded_recently(record: &str, version: &str, now: u64) -> (r: bool)
    ensures
        r == recently_reminded(record@, version@, now),
{
    match split_line(record) {
        None => false,
        Some((first, rest)) => match split_line(rest.as_str()) {
            None => false,
            Some((second, _)) => {
                if !str_eq(first.as_str(), version) {
                    return false;
                }
                match parse_u64(second.as_str()) {
                    Some(then) => {
                        let elapsed = if now >= then {
                            now - then
                        } else {
                            0
                        };
                        elapsed < VERSION_REMINDER_INTERVAL_SECS
                    },
                    None => false,
                }
            },
        },
    }
}

/// Whether the reminder's record is wanted at all: not with `--json`, not
/// for `login` or `update` (so nothing is read, written or printed before
/// a login's prompt), and not without a record path.
pub open spec fn spec_record_needed(json: bool, command: Command, has_path: bool) -> bool {
    !json && !(command is Login || command is Update) && has_path
}

/// Whether the reminder's record has to be read before deciding.
pub fn reminder_record_needed(json: bool, command: &Command, has_path: bool) -> (r: bool)
    ensures
        r == spec_record_needed(json, *command, has_path),
{
    !json && !matches!(command, Command::Login | Command::Update) && has_path
}

/// Whether to show the update reminder before running `command`, and what
/// to show and record. `stored` is the record file's text where it could be
/// read.
pub fn version_reminder(
    json: bool,
    command: &Command,
    has_path: bool,
    stored: &Option<String>,
    version: &str,
    now: u64,
) -> (r: Reminder)
    ensures
        reminder_due(json, *command, has_path, crate::credential::opt_text(*stored), version@, now)
            ==> (r matches Reminder::Show { notice, record } && notice@ == spec_reminder_notice(
            version@,
        ) && record@ == spec_reminder_record(version@, now)),
        !reminder_due(json, *command, has_path, crate::credential::opt_text(*stored), version@, now)
            ==> r is Quiet,
        // Without a need for the record, whatever was read of it, nothing is shown.
        !spec_record_needed(json, *command, has_path) ==> r is Quiet,
{
    if json {
        return Reminder::Quiet;
    }
    match command {
        Command::Login | Command::Update => {
            return Reminder::Quiet;
        },
        _ => {},
    }
    if !has_path {
        return Reminder::Quiet;
    }
    if let Some(record) = stored {
        if reminded_recently(record.as_str(), version, now) {
            return Reminder::Quiet;
        }
    }
    let mut notice = "pb ".to_owned();
    notice.append(version);
    notice.append(" is installed. Run `pb update` to check for the latest version.");
    let mut record = version.to_owned();
    push_char(&mut record, '\n');
    let stamp = decimal(now as u128);
    record.append(stamp.as_str());
    push_char(&mut record, '\n');
    assert(record@ =~= spec_reminder_record(version@, now));
    Reminder::Show { notice, record }
}

/// Once shown, the reminder for a version stays quiet for a day: reading
/// back the record it wrote at `then`, any time `now` within the interval
/// finds it recent (for a version text without line breaks that does not
/// end in `\r`).
pub proof fn lemma_reminder_quiet_after_showing(version: Seq<char>, then: u64, now: u64)
    requires
        forall|i: int| 0 <= i < version.len() ==> #[trigger] version[i] != '\n',
        version.len() == 0 || version.last() != '\r',
        then <= now < then + VERSION_REMINDER_INTERVAL_SECS,
    ensures
        recently_reminded(spec_reminder_record(version, then), version, now),
{
    let record = spec_reminder_record(version, then);
    let stamp = spec_decimal(then as nat);
    let n = version.len() as int;
    assert(record[n] == '\n');
    assert forall|k: int| 0 <= k < n implies #[trigger] record[k] != '\n' by {
        assert(record[k] == version[k]);
    }
    crate::text::lemma_first_index_of(record, '\n', n);
    assert(record.subrange(0, n) =~= version);
    let rest = record.subrange(n + 1, record.len() as int);
    assert(rest =~= stamp.push('\n'));
    lemma_decimal_parses(then);
    crate::text::lemma_decimal_digits_are_digits(then as nat);
    let m = stamp.len() as int;
    assert forall|k: int| 0 <= k < m implies #[trigger] rest[k] != '\n' by {
        assert(rest[k] == stamp[k]);
        assert(crate::text::is_digit(stamp[k]));
    }
    crate::text::lemma_first_index_of(rest, '\n', m as int);
    assert(rest.subrange(0, m as int) =~= stamp);
    assert(stamp.len() > 0);
    assert(crate::text::is_digit(stamp.last()));
}

} // verus!
