//! Session identifiers of the form `YYYYMMDD-HHMMSS-<pid>`.

use crate::errors::{is_not_found, NonoError};
use crate::evidence::{clock_gave, system_separates_by};
use crate::text::{
    all_digits, bytes_before, chars_of, decimal, decimal_denotes, decimal_string, digit_char,
    digits_value, is_digit, joined, text_before,
};
use vstd::prelude::*;
use vstd::string::*;
use vstd::utf8::*;

verus! {

// ---- checking ----
/// Whether two full stops stand side by side in `id`.
pub open spec fn has_double_dot(id: Seq<char>) -> bool {
    exists|i: int| 0 <= i && i + 1 < id.len() && #[trigger] id[i] == '.' && id[i + 1] == '.'
}

/// Whether `id` may name a session on a system whose paths are separated by
/// `separator`: it is not empty and holds no separator, no slash, no two full
/// stops in a row and no NUL.
pub open spec fn acceptable_id(id: Seq<char>, separator: char) -> bool {
    &&& id.len() > 0
    &&& !id.contains(separator)
    &&& !id.contains('/')
    &&& !has_double_dot(id)
    &&& !id.contains('\0')
}

/// What is said of an ID that is not acceptable.
pub open spec fn rejection_text(id: Seq<char>) -> Seq<char> {
    if id.len() == 0 {
        "empty session ID"@
    } else {
        "invalid session ID: "@ + id
    }
}

/// Validate a session ID for paths separated by `separator`.
pub fn validate_session_id_for(session_id: &str, separator: char) -> (r: Result<(), NonoError>)
    ensures
        r is Ok <==> acceptable_id(session_id@, separator),
        r matches Err(e) ==> is_not_found(e, rejection_text(session_id@)),
{
    let chars = chars_of(session_id);
    if chars.len() == 0 {
        return Err(NonoError::SessionNotFound("empty session ID".to_owned()));
    }
    let mut i: usize = 0;
    while i < chars.len()
        invariant
            i <= chars@.len(),
            forall|k: int|
                0 <= k < i ==> #[trigger] chars@[k] != separator && chars@[k] != '/' && chars@[k]
                    != '\0',
            forall|k: int|
                0 <= k < i && k + 1 < chars@.len() ==> !(#[trigger] chars@[k] == '.' && chars@[k
                    + 1] == '.'),
            chars@ == session_id@,
            chars@.len() > 0,
        decreases chars@.len() - i,
    {
        let c = chars[i];
        if c == separator || c == '/' || c == '\0' || (c == '.' && i + 1 < chars.len() && chars[i
            + 1] == '.') {
            assert(session_id@.contains(session_id@[i as int]));
            return Err(NonoError::SessionNotFound(joined("invalid session ID: ", session_id)));
        }
        i = i + 1;
    }
    Ok(())
}

/// The primary separator of path components, `std::path::MAIN_SEPARATOR`:
/// `/` on Unix and `\` on Windows.
#[verifier::external_body]
pub(crate) fn main_separator() -> (r: char)
    ensures
        r == '/' || r == '\\',
        system_separates_by(r),
{
    std::path::MAIN_SEPARATOR
}

/// Validate a session ID to prevent path traversal.
///
/// Session IDs must not be empty and must not contain path separators, `..`,
/// or NUL. Whether a backslash is a separator depends on the system.
pub fn validate_session_id(session_id: &str) -> (r: Result<(), NonoError>)
    ensures
        r is Ok ==> acceptable_id(session_id@, '/'),
        acceptable_id(session_id@, '/') && !session_id@.contains('\\') ==> r is Ok,
        r matches Err(e) ==> is_not_found(e, rejection_text(session_id@)),
        exists|separator: char| #[trigger]
            system_separates_by(separator) && (r is Ok <==> acceptable_id(session_id@, separator)),
{
    validate_session_id_for(session_id, main_separator())
}

// ---- the process behind a session ----
/// What follows the last `c` in `s`, or all of `s` where there is none.
pub open spec fn after_last(s: Seq<char>, c: char) -> Seq<char>
    decreases s.len(),
{
    if s.len() == 0 || s.last() == c {
        Seq::empty()
    } else {
        after_last(s.drop_last(), c).push(s.last())
    }
}

/// The number that `s` denotes as a `u32`: a plus sign is allowed in front,
/// at least one digit and nothing but digits must follow, and the number must
/// fit.
pub open spec fn u32_text(s: Seq<char>) -> Option<u32> {
    let digits = if s.len() > 0 && s[0] == '+' {
        s.skip(1)
    } else {
        s
    };
    if digits.len() > 0 && all_digits(digits) && digits_value(digits) <= u32::MAX {
        Some(digits_value(digits) as u32)
    } else {
        None
    }
}

/// The process ID that a session ID carries: the number behind its last dash.
pub open spec fn pid_of(id: Seq<char>) -> Option<u32> {
    u32_text(after_last(id, '-'))
}

proof fn after_last_is_skip(s: Seq<char>, c: char, start: int)
    requires
        0 <= start <= s.len(),
        start == 0 || s[start - 1] == c,
        forall|k: int| start <= k < s.len() ==> s[k] != c,
    ensures
        after_last(s, c) == s.skip(start),
    decreases s.len() - start,
{
    if start < s.len() {
        after_last_is_skip(s.drop_last(), c, start);
        assert(s.skip(start) =~= s.drop_last().skip(start).push(s.last()));
    } else {
        assert(s.skip(start) =~= Seq::<char>::empty());
    }
}

proof fn longer_is_larger(s: Seq<char>, k: int)
    requires
        all_digits(s),
        0 <= k <= s.len(),
    ensures
        digits_value(s.take(k)) <= digits_value(s),
    decreases s.len() - k,
{
    if k < s.len() {
        longer_is_larger(s, k + 1);
        assert(s.take(k + 1).drop_last() =~= s.take(k));
        assert(is_digit(s[k]));
    } else {
        assert(s.take(k) =~= s);
    }
}

fn parse_digits(chars: &Vec<char>, start: usize) -> (r: Option<u32>)
    requires
        start <= chars@.len(),
    ensures
        ({
            let digits = chars@.skip(start as int);
            r == if digits.len() > 0 && all_digits(digits) && digits_value(digits) <= u32::MAX {
                Some(digits_value(digits) as u32)
            } else {
                None::<u32>
            }
        }),
{
    let ghost digits = chars@.skip(start as int);
    if start == chars.len() {
        return None;
    }
    let mut value: u64 = 0;
    let mut i: usize = start;
    assert(digits.take(0) =~= Seq::<char>::empty());
    while i < chars.len()
        invariant
            start <= i <= chars@.len(),
            digits == chars@.skip(start as int),
            all_digits(digits.take(i - start)),
            value == digits_value(digits.take(i - start)),
            value <= u32::MAX,
        decreases chars@.len() - i,
    {
        let c = chars[i];
        assert(digits[i - start] == c);
        if c < '0' || '9' < c {
            assert(!is_digit(digits[i - start]));
            return None;
        }
        let digit: u64 = (c as u32 - '0' as u32) as u64;
        assert(digits.take(i - start + 1).drop_last() =~= digits.take(i - start));
        value = value * 10 + digit;
        i = i + 1;
        if value > u32::MAX as u64 {
            proof {
                if all_digits(digits) {
                    longer_is_larger(digits, i - start);
                }
            }
            return None;
        }
    }
    assert(digits.take(i - start) =~= digits);
    Some(value as u32)
}

/// Parse the PID from a session ID formatted as `YYYYMMDD-HHMMSS-<pid>`.
pub fn parse_pid_from_session_id(session_id: &str) -> (r: Option<u32>)
    ensures
        r == pid_of(session_id@),
{
    let chars = chars_of(session_id);
    let mut start: usize = chars.len();
    while start > 0 && chars[start - 1] != '-'
        invariant
            start <= chars@.len(),
            forall|k: int| start <= k < chars@.len() ==> chars@[k] != '-',
        decreases start,
    {
        start = start - 1;
    }
    let ghost number = chars@.skip(start as int);
    proof {
        after_last_is_skip(chars@, '-', start as int);
    }
    if start < chars.len() && chars[start] == '+' {
        assert(number.skip(1) =~= chars@.skip(start + 1));
        parse_digits(&chars, start + 1)
    } else {
        parse_digits(&chars, start)
    }
}

// ---- fresh identifiers ----
/// A number below one hundred in two digits.
pub open spec fn two_digits(n: nat) -> Seq<char> {
    seq![digit_char(n / 10), digit_char(n % 10)]
}

/// A year: its numeral, with a plus sign in front from the year 10000 on.
pub open spec fn year_text(year: nat) -> Seq<char> {
    if year <= 9999 {
        decimal(year)
    } else {
        seq!['+'] + decimal(year)
    }
}

/// A date and a time of day.
pub struct Moment {
    pub year: nat,
    pub month: nat,
    pub day: nat,
    pub hour: nat,
    pub minute: nat,
    pub second: nat,
}

/// Whether the parts of `m` are in their ranges, and `m` is not before 1970.
pub open spec fn is_moment(m: Moment) -> bool {
    &&& 1970 <= m.year
    &&& 1 <= m.month <= 12
    &&& 1 <= m.day <= 31
    &&& m.hour < 24
    &&& m.minute < 60
    &&& m.second < 60
}

/// Whether `a` is earlier than `b`.
pub open spec fn earlier(a: Moment, b: Moment) -> bool {
    if a.year != b.year {
        a.year < b.year
    } else if a.month != b.month {
        a.month < b.month
    } else if a.day != b.day {
        a.day < b.day
    } else if a.hour != b.hour {
        a.hour < b.hour
    } else if a.minute != b.minute {
        a.minute < b.minute
    } else {
        a.second < b.second
    }
}

/// A moment as `YYYYMMDD-HHMMSS`.
pub open spec fn timestamp_text(m: Moment) -> Seq<char> {
    year_text(m.year) + two_digits(m.month) + two_digits(m.day) + seq!['-'] + two_digits(m.hour)
        + two_digits(m.minute) + two_digits(m.second)
}

/// Whether `t` is the timestamp of some moment from 1970 on.
pub open spec fn is_timestamp(t: Seq<char>) -> bool {
    exists|m: Moment| is_moment(m) && t == #[trigger] timestamp_text(m)
}

/// The current UTC time, `chrono::Utc::now()`, written by `DateTime::format`
/// with `%Y%m%d-%H%M%S`. Which moment it is depends on the clock; whatever the
/// moment, the text is a timestamp in the form of [`timestamp_text`]. A clock
/// set before 1970 makes `Utc::now` panic, so no such moment comes back.
#[verifier::external_body]
pub(crate) fn utc_timestamp() -> (r: String)
    ensures
        is_timestamp(r@),
        clock_gave(r@),
{
    chrono::Utc::now().format("%Y%m%d-%H%M%S").to_string()
}

/// A timestamp and a process ID with a dash in between.
pub open spec fn session_id_text(timestamp: Seq<char>, pid: u32) -> Seq<char> {
    timestamp + "-"@ + decimal(pid as nat)
}

/// The session ID of a process started at `timestamp`.
pub fn session_id_at(timestamp: &str, pid: u32) -> (r: String)
    ensures
        r@ == session_id_text(timestamp@, pid),
{
    let mut id = joined(timestamp, "-");
    let number = decimal_string(pid as u64);
    id.append(number.as_str());
    id
}

/// Generate a fresh session ID of the form `YYYYMMDD-HHMMSS-<pid>`.
///
/// Uses UTC so IDs are stable across timezones and DST transitions, which is
/// important because rollback session IDs are parsed for sorting and PID
/// extraction from disk state written on possibly-different hosts.
pub fn generate_session_id(pid: u32) -> (r: String)
    ensures
        exists|t: Seq<char>| is_timestamp(t) && r@ == #[trigger] session_id_text(t, pid),
        exists|t: Seq<char>| clock_gave(t) && r@ == #[trigger] session_id_text(t, pid),
        pid_of(r@) == Some(pid),
        acceptable_id(r@, '/'),
        acceptable_id(r@, '\\'),
{
    let timestamp = utc_timestamp();
    proof {
        session_id_carries_pid(timestamp@, pid);
        fresh_ids_are_acceptable(timestamp@, pid);
    }
    session_id_at(timestamp.as_str(), pid)
}

/// The PID that goes into a session ID is the PID that is read back from it.
pub proof fn session_id_carries_pid(timestamp: Seq<char>, pid: u32)
    ensures
        pid_of(session_id_text(timestamp, pid)) == Some(pid),
{
    reveal_strlit("-");
    let id = session_id_text(timestamp, pid);
    let number = decimal(pid as nat);
    decimal_denotes(pid as nat);
    let start = timestamp.len() + 1;
    assert forall|k: int| start <= k < id.len() implies id[k] != '-' by {
        assert(is_digit(number[k - start]));
    }
    after_last_is_skip(id, '-', start as int);
    assert(id.skip(start as int) =~= number);
    assert(is_digit(number[0]));
}

/// Every session ID that is made from a timestamp and a PID passes validation,
/// whatever the system's path separator.
pub proof fn fresh_ids_are_acceptable(timestamp: Seq<char>, pid: u32)
    requires
        is_timestamp(timestamp),
    ensures
        acceptable_id(session_id_text(timestamp, pid), '/'),
        acceptable_id(session_id_text(timestamp, pid), '\\'),
{
    ids_are_plain(timestamp, pid);
    let id = session_id_text(timestamp, pid);
    assert forall|k: int| 0 <= k < id.len() implies #[trigger] id[k] != '/' && id[k] != '\\' && id[k]
        != '\0' && id[k] != '.' by {
        assert(plain_char(id[k]));
    }
    assert(id.len() > 0) by {
        reveal_strlit("-");
    }
}

proof fn ids_are_plain(timestamp: Seq<char>, pid: u32)
    requires
        is_timestamp(timestamp),
    ensures
        plain(session_id_text(timestamp, pid)),
{
    reveal_strlit("-");
    let m = choose|m: Moment| is_moment(m) && timestamp == #[trigger] timestamp_text(m);
    let year = m.year;
    decimal_denotes(year);
    decimal_denotes(pid as nat);
    let id = session_id_text(timestamp, pid);
    assert(plain(year_text(year))) by {
        assert forall|k: int| 0 <= k < year_text(year).len() implies plain_char(
            #[trigger] year_text(year)[k],
        ) by {
            if year <= 9999 {
                assert(is_digit(decimal(year)[k]));
            } else if k > 0 {
                assert(is_digit(decimal(year)[k - 1]));
            }
        }
    }
    assert(plain(two_digits(m.month)));
    assert(plain(two_digits(m.day)));
    assert(plain(two_digits(m.hour)));
    assert(plain(two_digits(m.minute)));
    assert(plain(two_digits(m.second)));
    assert(plain(decimal(pid as nat))) by {
        assert forall|k: int| 0 <= k < decimal(pid as nat).len() implies plain_char(
            #[trigger] decimal(pid as nat)[k],
        ) by {
            assert(is_digit(decimal(pid as nat)[k]));
        }
    }
    assert(plain(timestamp));
    assert(plain(id));
}

proof fn plain_is_ascii(s: Seq<char>)
    requires
        plain(s),
    ensures
        is_ascii_chars(s),
{
    assert forall|k: int| 0 <= k < s.len() implies '\0' <= #[trigger] s[k] <= '\u{7f}' by {
        assert(plain_char(s[k]));
    }
}

proof fn first_difference_decides(a: Seq<u8>, b: Seq<u8>, k: int)
    requires
        0 <= k < a.len(),
        k < b.len(),
        forall|i: int| 0 <= i < k ==> a[i] == b[i],
        a[k] < b[k],
    ensures
        bytes_before(a, b),
    decreases k,
{
    if k > 0 {
        first_difference_decides(a.drop_first(), b.drop_first(), k - 1);
    }
}

/// Whether `k` is where `a` and `b` first differ, and `a` has the smaller
/// character there.
spec fn smaller_at(a: Seq<char>, b: Seq<char>, k: int) -> bool {
    &&& 0 <= k < a.len()
    &&& k < b.len()
    &&& forall|i: int| 0 <= i < k ==> a[i] == #[trigger] b[i]
    &&& a[k] < b[k]
}

proof fn smaller_between(
    front: Seq<char>,
    a: Seq<char>,
    b: Seq<char>,
    k: int,
    end_a: Seq<char>,
    end_b: Seq<char>,
)
    requires
        smaller_at(a, b, k),
    ensures
        smaller_at(front + a + end_a, front + b + end_b, front.len() + k),
{
    let (whole_a, whole_b) = (front + a + end_a, front + b + end_b);
    assert forall|i: int| 0 <= i < front.len() + k implies whole_a[i] == #[trigger] whole_b[i] by {
        if i >= front.len() {
            assert(a[i - front.len()] == b[i - front.len()]);
        }
    }
}

proof fn two_digits_differ(a: nat, b: nat) -> (k: int)
    requires
        a < b < 100,
    ensures
        smaller_at(two_digits(a), two_digits(b), k),
{
    if a / 10 != b / 10 {
        0
    } else {
        1
    }
}

proof fn years_differ(a: nat, b: nat) -> (k: int)
    requires
        1970 <= a < b <= 9999,
    ensures
        smaller_at(year_text(a), year_text(b), k),
{
    four_digit_year(a);
    four_digit_year(b);
    let (ha, hb) = (two_digits(a / 100), two_digits(b / 100));
    let (la, lb) = (two_digits(a % 100), two_digits(b % 100));
    let none = Seq::<char>::empty();
    if a / 100 != b / 100 {
        let k = two_digits_differ(a / 100, b / 100);
        smaller_between(none, ha, hb, k, la, lb);
        assert(none + ha + la =~= year_text(a));
        assert(none + hb + lb =~= year_text(b));
        k
    } else {
        let k = two_digits_differ(a % 100, b % 100);
        smaller_between(ha, la, lb, k, none, none);
        assert(ha + la + none =~= year_text(a));
        assert(hb + lb + none =~= year_text(b));
        2 + k
    }
}

proof fn four_digit_year(year: nat)
    requires
        1970 <= year <= 9999,
    ensures
        year_text(year) == two_digits(year / 100) + two_digits(year % 100),
{
    reveal_with_fuel(decimal, 4);
    assert(year / 10 / 10 == year / 100);
    assert(year / 10 % 10 == year % 100 / 10);
    assert(year % 10 == year % 100 % 10);
    assert(decimal(year) =~= two_digits(year / 100) + two_digits(year % 100));
}

/// The timestamp in front of a part, the part, and what follows on it.
spec fn split_timestamp(m: Moment, part: int) -> (Seq<char>, Seq<char>, Seq<char>) {
    let years = year_text(m.year);
    let months = years + two_digits(m.month);
    let days = months + two_digits(m.day) + seq!['-'];
    let hours = days + two_digits(m.hour);
    let minutes = hours + two_digits(m.minute);
    let seconds = two_digits(m.second);
    if part == 0 {
        (
            Seq::empty(),
            years,
            two_digits(m.month) + two_digits(m.day) + seq!['-'] + two_digits(m.hour) + two_digits(
                m.minute,
            ) + seconds,
        )
    } else if part == 1 {
        (
            years,
            two_digits(m.month),
            two_digits(m.day) + seq!['-'] + two_digits(m.hour) + two_digits(m.minute) + seconds,
        )
    } else if part == 2 {
        (
            months,
            two_digits(m.day),
            seq!['-'] + two_digits(m.hour) + two_digits(m.minute) + seconds,
        )
    } else if part == 3 {
        (days, two_digits(m.hour), two_digits(m.minute) + seconds)
    } else if part == 4 {
        (hours, two_digits(m.minute), seconds)
    } else {
        (minutes, seconds, Seq::empty())
    }
}

proof fn split_is_whole(m: Moment, part: int)
    ensures
        ({
            let (front, middle, end) = split_timestamp(m, part);
            timestamp_text(m) == front + middle + end
        }),
{
    let (front, middle, end) = split_timestamp(m, part);
    assert(timestamp_text(m) =~= front + middle + end);
}

proof fn moments_differ(a: Moment, b: Moment) -> (k: int)
    requires
        is_moment(a),
        is_moment(b),
        a.year <= 9999,
        b.year <= 9999,
        earlier(a, b),
    ensures
        smaller_at(timestamp_text(a), timestamp_text(b), k),
{
    let (part, at) = if a.year != b.year {
        (0int, years_differ(a.year, b.year))
    } else if a.month != b.month {
        (1int, two_digits_differ(a.month, b.month))
    } else if a.day != b.day {
        (2int, two_digits_differ(a.day, b.day))
    } else if a.hour != b.hour {
        (3int, two_digits_differ(a.hour, b.hour))
    } else if a.minute != b.minute {
        (4int, two_digits_differ(a.minute, b.minute))
    } else {
        (5int, two_digits_differ(a.second, b.second))
    };
    split_is_whole(a, part);
    split_is_whole(b, part);
    let (front, middle_a, end_a) = split_timestamp(a, part);
    let (_, middle_b, end_b) = split_timestamp(b, part);
    smaller_between(front, middle_a, middle_b, at, end_a, end_b);
    front.len() + at
}

/// Session IDs sort by time: in the years up to 9999, the ID of an earlier
/// moment comes before the ID of a later one, whatever the processes.
pub proof fn ids_sort_by_time(a: Moment, b: Moment, pid_a: u32, pid_b: u32)
    requires
        is_moment(a),
        is_moment(b),
        a.year <= 9999,
        b.year <= 9999,
        earlier(a, b),
    ensures
        text_before(
            session_id_text(timestamp_text(a), pid_a),
            session_id_text(timestamp_text(b), pid_b),
        ),
{
    let (ta, tb) = (timestamp_text(a), timestamp_text(b));
    let (ida, idb) = (session_id_text(ta, pid_a), session_id_text(tb, pid_b));
    let k = moments_differ(a, b);
    let none = Seq::<char>::empty();
    let (end_a, end_b) = ("-"@ + decimal(pid_a as nat), "-"@ + decimal(pid_b as nat));
    smaller_between(none, ta, tb, k, end_a, end_b);
    assert(none + ta + end_a =~= ida);
    assert(none + tb + end_b =~= idb);
    ids_are_plain(ta, pid_a);
    ids_are_plain(tb, pid_b);
    smaller_text_comes_first(ida, idb, k);
}

proof fn smaller_text_comes_first(a: Seq<char>, b: Seq<char>, k: int)
    requires
        plain(a),
        plain(b),
        smaller_at(a, b, k),
    ensures
        text_before(a, b),
{
    plain_is_ascii(a);
    plain_is_ascii(b);
    is_ascii_chars_encode_utf8(a);
    is_ascii_chars_encode_utf8(b);
    assert forall|i: int| 0 <= i < k implies encode_utf8(a)[i] == encode_utf8(b)[i] by {
        assert(a[i] == b[i]);
    }
    assert(plain_char(a[k]) && plain_char(b[k]));
    first_difference_decides(encode_utf8(a), encode_utf8(b), k);
}

spec fn plain_char(c: char) -> bool {
    is_digit(c) || c == '+' || c == '-'
}

spec fn plain(s: Seq<char>) -> bool {
    forall|k: int| 0 <= k < s.len() ==> plain_char(#[trigger] s[k])
}

} // verus!
