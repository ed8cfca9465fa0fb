//! The text of a directory listing, one line per entry, in the style of
//! `ls -l`. Reading the directory is left to the caller; the dates are put
//! in the machine's local time with `chrono`.
use vstd::prelude::*;
use vstd::string::*;
use chrono::Local;
use crate::commands::FtpCommand;
use crate::text::{chars_of, decimal, digit_char, push_decimal, string_of_range};

verus! {

/// What the listing shows of one directory entry: its name, whether it is
/// a directory, its size in bytes, and when it was last modified, as
/// seconds and nanoseconds since the Unix epoch (absent when the file
/// system could not tell).
pub struct ListingEntry {
    pub name: String,
    pub is_dir: bool,
    pub size: u64,
    pub modified: Option<(i64, u32)>,
}

/// A listing entry as values.
pub struct ListingEntryView {
    pub name: Seq<char>,
    pub is_dir: bool,
    pub size: u64,
    pub modified: Option<(i64, u32)>,
}

impl View for ListingEntry {
    type V = ListingEntryView;

    open spec fn view(&self) -> ListingEntryView {
        ListingEntryView {
            name: self.name@,
            is_dir: self.is_dir,
            size: self.size,
            modified: self.modified,
        }
    }
}

/// The earliest instant listed, in seconds from the Unix epoch: a day
/// after the start of chrono's first date (1 January of year -262143), so
/// that its local time, less than a day off, is a date too.
pub const MIN_LISTED_SECONDS: i64 = -8_334_601_228_800;

/// The latest instant listed, in seconds from the Unix epoch: a day before
/// the end of chrono's last date (31 December of year 262142).
pub const MAX_LISTED_SECONDS: i64 = 8_210_266_790_399;

/// An instant that chrono can put in local time: seconds from
/// `MIN_LISTED_SECONDS` to `MAX_LISTED_SECONDS`, and a nanosecond part
/// below one second.
pub open spec fn representable_time(secs: i64, nanos: u32) -> bool {
    MIN_LISTED_SECONDS <= secs <= MAX_LISTED_SECONDS && nanos < 1_000_000_000
}

/// A modification time that can be listed: absent, or representable.
pub open spec fn listable_time(modified: Option<(i64, u32)>) -> bool {
    match modified {
        Some((secs, nanos)) => representable_time(secs, nanos),
        None => true,
    }
}

/// Whether every entry's modification time, and the current time `now`,
/// can be listed.
pub fn listable_entries(entries: &Vec<ListingEntry>, now: (i64, u32)) -> (b: bool)
    ensures
        b == ((forall|i: int| 0 <= i < entries.len() ==> listable_time(#[trigger] entries@[i].modified))
            && representable_time(now.0, now.1)),
{
    let (now_secs, now_nanos) = now;
    if !(MIN_LISTED_SECONDS <= now_secs && now_secs <= MAX_LISTED_SECONDS && now_nanos < 1_000_000_000) {
        return false;
    }
    let mut i: usize = 0;
    while i < entries.len()
        invariant
            i <= entries.len(),
            forall|j: int| 0 <= j < i ==> listable_time(#[trigger] entries@[j].modified),
        decreases entries.len() - i,
    {
        match entries[i].modified {
            Some((secs, nanos)) => {
                if !(MIN_LISTED_SECONDS <= secs && secs <= MAX_LISTED_SECONDS && nanos < 1_000_000_000) {
                    return false;
                }
            },
            None => {},
        }
        i = i + 1;
    }
    true
}

/// The English abbreviation of a month (1 to 12), as `%b` writes it.
pub open spec fn month_abbreviation(month: nat) -> Seq<char> {
    if month == 1 {
        seq!['J', 'a', 'n']
    } else if month == 2 {
        seq!['F', 'e', 'b']
    } else if month == 3 {
        seq!['M', 'a', 'r']
    } else if month == 4 {
        seq!['A', 'p', 'r']
    } else if month == 5 {
        seq!['M', 'a', 'y']
    } else if month == 6 {
        seq!['J', 'u', 'n']
    } else if month == 7 {
        seq!['J', 'u', 'l']
    } else if month == 8 {
        seq!['A', 'u', 'g']
    } else if month == 9 {
        seq!['S', 'e', 'p']
    } else if month == 10 {
        seq!['O', 'c', 't']
    } else if month == 11 {
        seq!['N', 'o', 'v']
    } else {
        seq!['D', 'e', 'c']
    }
}

/// A number below 100 with two digits, zero-padded.
pub open spec fn two_digits(n: nat) -> Seq<char> {
    seq![digit_char(n / 10), digit_char(n % 10)]
}

/// A date as the listing writes it (the pattern `%b %d %H:%M`): month
/// abbreviation, day, hour and minute, as in `Jul 08 00:34`.
pub open spec fn listing_date_text(month: nat, day: nat, hour: nat, minute: nat) -> Seq<char> {
    month_abbreviation(month) + seq![' '] + two_digits(day) + seq![' '] + two_digits(hour)
        + seq![':'] + two_digits(minute)
}

/// A month, day, hour and minute of a calendar date and time.
pub open spec fn is_date_time(month: nat, day: nat, hour: nat, minute: nat) -> bool {
    1 <= month <= 12 && 1 <= day <= 31 && hour <= 23 && minute <= 59
}

/// The month, day, hour and minute that an instant (in seconds from the
/// Unix epoch) has in UTC, in the proleptic Gregorian calendar.
#[verifier::opaque]
pub open spec fn utc_parts(secs: int) -> (nat, nat, nat, nat) {
    let days = secs / 86400;
    let in_day = secs % 86400;
    let z = days + 719468;
    let era = z / 146097;
    let doe = z - era * 146097;
    let yoe = (doe - doe / 1460 + doe / 36524 - doe / 146096) / 365;
    let doy = doe - (365 * yoe + yoe / 4 - yoe / 100);
    let mp = (5 * doy + 2) / 153;
    let day = doy - (153 * mp + 2) / 5 + 1;
    let month = if mp < 10 {
        mp + 3
    } else {
        mp - 9
    };
    (month as nat, day as nat, (in_day / 3600) as nat, ((in_day % 3600) / 60) as nat)
}

/// Month, day, hour and minute as numbers.
pub open spec fn nat_parts(p: (u32, u32, u32, u32)) -> (nat, nat, nat, nat) {
    (p.0 as nat, p.1 as nat, p.2 as nat, p.3 as nat)
}

/// Month, day, hour and minute that the instant `secs` may have in local
/// time: its UTC ones, moved by an offset of less than a day.
pub open spec fn is_local_parts_of(p: (nat, nat, nat, nat), secs: int) -> bool {
    exists|off: int| -86400 < off < 86400 && #[trigger] utc_parts(secs + off) == p
}

/// The listing text of the given month, day, hour and minute.
pub open spec fn listing_date_of_parts(p: (nat, nat, nat, nat)) -> Seq<char> {
    listing_date_text(p.0, p.1, p.2, p.3)
}

/// A date the listing may show for the instant `secs`: the instant's UTC
/// calendar date and time moved by a local offset of less than a day.
pub open spec fn is_listing_date_of(s: Seq<char>, secs: int) -> bool {
    exists|off: int|
        -86400 < off < 86400 && s == #[trigger] listing_date_of_parts(utc_parts(secs + off))
}

/// The instant an entry is listed at: its modification time, or `now` when
/// that is not known.
pub open spec fn entry_seconds(modified: Option<(i64, u32)>, now: (i64, u32)) -> int {
    match modified {
        Some((secs, _)) => secs as int,
        None => now.0 as int,
    }
}

/// Appends a number below 100 with two digits.
fn push_two_digits(r: &mut String, n: u32)
    requires
        n < 100,
    ensures
        final(r)@ == old(r)@ + two_digits(n as nat),
{
    if n < 10 {
        r.push('0');
        push_decimal(r, n as u64);
    } else {
        push_decimal(r, n as u64);
        assert(decimal(n as nat) =~= decimal((n / 10) as nat).push(digit_char((n % 10) as nat)));
        assert(decimal((n / 10) as nat) == seq![digit_char((n / 10) as nat)]);
    }
}

/// Writes a date as the listing does (`%b %d %H:%M`).
pub fn format_listing_date(month: u32, day: u32, hour: u32, minute: u32) -> (r: String)
    requires
        is_date_time(month as nat, day as nat, hour as nat, minute as nat),
    ensures
        r@ == listing_date_text(month as nat, day as nat, hour as nat, minute as nat),
{
    let mut r = String::new();
    let (a, b, c) = if month == 1 {
        ('J', 'a', 'n')
    } else if month == 2 {
        ('F', 'e', 'b')
    } else if month == 3 {
        ('M', 'a', 'r')
    } else if month == 4 {
        ('A', 'p', 'r')
    } else if month == 5 {
        ('M', 'a', 'y')
    } else if month == 6 {
        ('J', 'u', 'n')
    } else if month == 7 {
        ('J', 'u', 'l')
    } else if month == 8 {
        ('A', 'u', 'g')
    } else if month == 9 {
        ('S', 'e', 'p')
    } else if month == 10 {
        ('O', 'c', 't')
    } else if month == 11 {
        ('N', 'o', 'v')
    } else {
        ('D', 'e', 'c')
    };
    r.push(a);
    r.push(b);
    r.push(c);
    assert(r@ =~= month_abbreviation(month as nat));
    r.push(' ');
    push_two_digits(&mut r, day);
    r.push(' ');
    push_two_digits(&mut r, hour);
    r.push(':');
    push_two_digits(&mut r, minute);
    assert(r@ =~= listing_date_text(month as nat, day as nat, hour as nat, minute as nat));
    r
}

/// `Local.timestamp_opt(secs, nanos)` (what `DateTime::<Local>::from` of a
/// `SystemTime` computes), its single result taken as its local date and
/// time (`naive_local`), read as month, day, hour and minute
/// (`Datelike::month`, `Datelike::day`, `Timelike::hour`,
/// `Timelike::minute`). chrono takes the calendar of `secs` in UTC
/// (`DateTime::from_timestamp`, flooring to whole days) and `naive_local`
/// adds the machine's offset for that instant, which chrono only accepts
/// when it is less than a day (`FixedOffset::east_opt`). Which offset that
/// is depends on the time zone and is left open. Within `requires` none of
/// these calls panics; the four values lie in the ranges chrono documents.
#[verifier::external_body]
fn local_date_parts(secs: i64, nanos: u32) -> (r: (u32, u32, u32, u32))
    requires
        representable_time(secs, nanos),
    ensures
        is_date_time(r.0 as nat, r.1 as nat, r.2 as nat, r.3 as nat),
        is_local_parts_of(nat_parts(r), secs as int),
{
    let d = chrono::TimeZone::timestamp_opt(&Local, secs, nanos).unwrap().naive_local();
    (
        chrono::Datelike::month(&d),
        chrono::Datelike::day(&d),
        chrono::Timelike::hour(&d),
        chrono::Timelike::minute(&d),
    )
}

/// `s` with every `c` taken out (`str::replace(c, "")`).
pub open spec fn remove_all(s: Seq<char>, c: char) -> Seq<char>
    decreases s.len(),
{
    if s.len() == 0 {
        s
    } else if s.last() == c {
        remove_all(s.drop_last(), c)
    } else {
        remove_all(s.drop_last(), c).push(s.last())
    }
}

proof fn lemma_remove_absent(s: Seq<char>, c: char)
    requires
        forall|i: int| 0 <= i < s.len() ==> s[i] != c,
    ensures
        remove_all(s, c) == s,
    decreases s.len(),
{
    if s.len() > 0 {
        lemma_remove_absent(s.drop_last(), c);
        assert(s.drop_last().push(s.last()) =~= s);
    }
}

/// Takes every `c` out of `s`.
pub fn remove_char(s: &str, c: char) -> (r: String)
    ensures
        r@ == remove_all(s@, c),
{
    let v = chars_of(s);
    let mut r = String::new();
    let mut i: usize = 0;
    while i < v.len()
        invariant
            i <= v.len(),
            v@ == s@,
            r@ == remove_all(v@.take(i as int), c),
        decreases v.len() - i,
    {
        assert(v@.take(i + 1).drop_last() =~= v@.take(i as int));
        if v[i] != c {
            r.push(v[i]);
        }
        i = i + 1;
    }
    assert(v@.take(v.len() as int) =~= v@);
    r
}

/// The date shown for an entry: its modification time, or the current time
/// `now` when that is not known, in local time, without no-break spaces.
pub fn listing_date(modified: Option<(i64, u32)>, now: (i64, u32)) -> (r: String)
    requires
        listable_time(modified),
        representable_time(now.0, now.1),
    ensures
        is_listing_date_of(r@, entry_seconds(modified, now)),
{
    let (secs, nanos) = match modified {
        Some(t) => t,
        None => now,
    };
    let (month, day, hour, minute) = local_date_parts(secs, nanos);
    let s = format_listing_date(month, day, hour, minute);
    let r = remove_char(s.as_str(), '\u{a0}');
    proof {
        let parts = nat_parts((month, day, hour, minute));
        assert forall|i: int| 0 <= i < s@.len() implies s@[i] != '\u{a0}' by {
            assert(s@[i] == listing_date_text(parts.0, parts.1, parts.2, parts.3)[i]);
        }
        lemma_remove_absent(s@, '\u{a0}');
        let off = choose|off: int|
            -86400 < off < 86400 && #[trigger] utc_parts(secs + off) == parts;
        assert(r@ == listing_date_of_parts(utc_parts(secs + off)));
    }
    r
}

/// The characters trimmed off both ends of a listed name.
pub open spec fn is_name_edge(c: char) -> bool {
    c == '"' || c == '\\' || c == '/'
}

/// `s` without its leading name edge characters.
pub open spec fn trim_name_start(s: Seq<char>) -> Seq<char>
    decreases s.len(),
{
    if s.len() > 0 && is_name_edge(s[0]) {
        trim_name_start(s.drop_first())
    } else {
        s
    }
}

/// `s` without its trailing name edge characters.
pub open spec fn trim_name_end(s: Seq<char>) -> Seq<char>
    decreases s.len(),
{
    if s.len() > 0 && is_name_edge(s.last()) {
        trim_name_end(s.drop_last())
    } else {
        s
    }
}

/// A name as listed: quotes, backslashes and slashes trimmed off both ends
/// (`str::trim_matches`).
pub open spec fn clean_name(s: Seq<char>) -> Seq<char> {
    trim_name_end(trim_name_start(s))
}

/// Trims a name as `clean_name` says.
pub fn clean_name_text(name: &str) -> (r: String)
    ensures
        r@ == clean_name(name@),
{
    let v = chars_of(name);
    let n = v.len();
    let mut lo: usize = 0;
    assert(v@.skip(0) =~= v@);
    while lo < n && (v[lo] == '"' || v[lo] == '\\' || v[lo] == '/')
        invariant
            n == v.len(),
            v@ == name@,
            lo <= n,
            trim_name_start(v@) == trim_name_start(v@.skip(lo as int)),
        decreases n - lo,
    {
        assert(v@.skip(lo as int).drop_first() =~= v@.skip(lo + 1));
        lo = lo + 1;
    }
    assert(trim_name_start(v@) == v@.skip(lo as int));
    let mut hi: usize = n;
    assert(v@.skip(lo as int) =~= v@.subrange(lo as int, n as int));
    while hi > lo && (v[hi - 1] == '"' || v[hi - 1] == '\\' || v[hi - 1] == '/')
        invariant
            n == v.len(),
            lo <= hi <= n,
            trim_name_end(v@.skip(lo as int)) == trim_name_end(
                v@.subrange(lo as int, hi as int),
            ),
        decreases hi,
    {
        assert(v@.subrange(lo as int, hi as int).drop_last() =~= v@.subrange(
            lo as int,
            hi - 1,
        ));
        hi = hi - 1;
    }
    string_of_range(&v, lo, hi)
}

/// The type letter and permissions shown for an entry.
pub open spec fn mode_text(is_dir: bool) -> Seq<char> {
    if is_dir {
        "d"@ + "rwxr-xr-x"@
    } else {
        "-"@ + "rw-r--r--"@
    }
}

/// The listing line of one entry with the given date.
pub open spec fn listing_line(e: ListingEntryView, date: Seq<char>) -> Seq<char> {
    mode_text(e.is_dir) + "    1 owner    group "@ + decimal(e.size as nat) + " "@ + date + " "@
        + clean_name(e.name) + "\r\n"@
}

/// The lines of the entries, in order, each with its date.
pub open spec fn listing_text(entries: Seq<ListingEntryView>, dates: Seq<Seq<char>>) -> Seq<char>
    decreases entries.len(),
{
    if entries.len() == 0 {
        seq![]
    } else {
        listing_text(entries.drop_last(), dates) + listing_line(
            entries.last(),
            dates[entries.len() - 1],
        )
    }
}

/// The views of a sequence of entries.
pub open spec fn entry_views(entries: Seq<ListingEntry>) -> Seq<ListingEntryView> {
    entries.map_values(|e: ListingEntry| e@)
}

/// Appends the listing line of `e` with the given date to `r`.
pub fn push_listing_line(r: &mut String, e: &ListingEntry, date: &str)
    ensures
        final(r)@ == old(r)@ + listing_line(e@, date@),
{
    if e.is_dir {
        r.append("d");
        r.append("rwxr-xr-x");
    } else {
        r.append("-");
        r.append("rw-r--r--");
    }
    r.append("    1 owner    group ");
    push_decimal(r, e.size);
    r.append(" ");
    r.append(date);
    r.append(" ");
    let name = clean_name_text(e.name.as_str());
    r.append(name.as_str());
    r.append("\r\n");
}

impl FtpCommand {
    /// The listing of a directory with the given entries, in the order
    /// given; each entry shows the local date of its modification time (of
    /// `now` when that is not known).
    pub fn ftp_command_list(entries: &Vec<ListingEntry>, now: (i64, u32)) -> (r: String)
        requires
            forall|i: int| 0 <= i < entries.len() ==> listable_time(#[trigger] entries@[i].modified),
            representable_time(now.0, now.1),
        ensures
            exists|dates: Seq<Seq<char>>|
                {
                    &&& dates.len() == entries.len()
                    &&& forall|i: int|
                        0 <= i < dates.len() ==> is_listing_date_of(
                            #[trigger] dates[i],
                            entry_seconds(entries@[i].modified, now),
                        )
                    &&& r@ == #[trigger] listing_text(entry_views(entries@), dates)
                },
    {
        let mut r = String::new();
        let ghost mut dates: Seq<Seq<char>> = seq![];
        let mut i: usize = 0;
        while i < entries.len()
            invariant
                i <= entries.len(),
                dates.len() == i,
                forall|j: int|
                    0 <= j < dates.len() ==> is_listing_date_of(
                        #[trigger] dates[j],
                        entry_seconds(entries@[j].modified, now),
                    ),
                representable_time(now.0, now.1),
                r@ == listing_text(entry_views(entries@).take(i as int), dates),
                forall|j: int| 0 <= j < entries.len() ==> listable_time(#[trigger] entries@[j].modified),
            decreases entries.len() - i,
        {
            let date = listing_date(entries[i].modified, now);
            push_listing_line(&mut r, &entries[i], date.as_str());
            proof {
                let ghost old_dates = dates;
                dates = dates.push(date@);
                let vs = entry_views(entries@);
                assert(vs.take(i + 1).drop_last() =~= vs.take(i as int));
                lemma_listing_text_dates(vs.take(i as int), old_dates, dates);
            }
            i = i + 1;
        }
        assert(entry_views(entries@).take(entries.len() as int) =~= entry_views(entries@));
        r
    }
}

/// The lines of the entries only depend on the dates of those entries.
proof fn lemma_listing_text_dates(
    entries: Seq<ListingEntryView>,
    d1: Seq<Seq<char>>,
    d2: Seq<Seq<char>>,
)
    requires
        entries.len() <= d1.len(),
        entries.len() <= d2.len(),
        forall|i: int| 0 <= i < entries.len() ==> d1[i] == d2[i],
    ensures
        listing_text(entries, d1) == listing_text(entries, d2),
    decreases entries.len(),
{
    if entries.len() > 0 {
        lemma_listing_text_dates(entries.drop_last(), d1, d2);
    }
}

} // verus!
