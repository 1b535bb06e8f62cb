//! What session IDs and byte counts say, character by character.

use crate::session_id::{
    after_last, is_moment, is_timestamp, pid_of, rejection_text, session_id_carries_pid,
    session_id_text, timestamp_text, two_digits, year_text, Moment,
};
use crate::sizes::{
    bytes_text, float_spacing, nearest_double, round_half_even, shown_tenths,
    tree_bytes, TreeEntry,
};
use crate::text::{all_digits, decimal, decimal_denotes, digits_value, is_digit};
use vstd::arithmetic::div_mod::lemma_fundamental_div_mod;
use vstd::arithmetic::power2::{lemma2_to64, lemma_pow2_unfold, pow2};
use vstd::prelude::*;

verus! {

// ---- numerals ----
/// A run of digits denotes a number digit by digit, from the left.
pub proof fn digits_count_by_tens(digits: Seq<char>, last: char)
    requires
        all_digits(digits),
        '0' <= last <= '9',
    ensures
        digits_value(Seq::empty()) == 0,
        digits_value(digits.push(last)) == 10 * digits_value(digits) + (last as int - 48),
{
    assert(digits.push(last).drop_last() =~= digits);
}

/// A numeral is made of digits, denotes its number, and has no leading zero.
pub proof fn numerals_are_shortest(n: nat)
    ensures
        decimal(n).len() > 0,
        forall|i: int| 0 <= i < decimal(n).len() ==> '0' <= #[trigger] decimal(n)[i] <= '9',
        digits_value(decimal(n)) == n,
        n > 0 ==> decimal(n)[0] != '0',
        n == 0 ==> decimal(n) == seq!['0'],
    decreases n,
{
    decimal_denotes(n);
    assert forall|i: int| 0 <= i < decimal(n).len() implies '0' <= #[trigger] decimal(n)[i]
        <= '9' by {
        assert(is_digit(decimal(n)[i]));
    }
    if n >= 10 {
        numerals_are_shortest(n / 10);
        assert(decimal(n)[0] == decimal(n / 10)[0]);
    }
}

// ---- fresh IDs ----
/// A session ID is a reading of the clock, a dash, and the process ID.
pub proof fn ids_join_reading_and_process(reading: Seq<char>, pid: u32)
    ensures
        session_id_text(reading, pid) == reading + "-"@ + decimal(pid as nat),
{
}

/// Session IDs tell readings and processes apart: two IDs are the same only if
/// they were made from the same reading by the same process.
pub proof fn ids_tell_readings_apart(
    reading_a: Seq<char>,
    pid_a: u32,
    reading_b: Seq<char>,
    pid_b: u32,
)
    requires
        session_id_text(reading_a, pid_a) == session_id_text(reading_b, pid_b),
    ensures
        reading_a == reading_b,
        pid_a == pid_b,
{
    reveal_strlit("-");
    session_id_carries_pid(reading_a, pid_a);
    session_id_carries_pid(reading_b, pid_b);
    let id = session_id_text(reading_a, pid_a);
    assert(reading_a.len() == id.len() - 1 - decimal(pid_a as nat).len());
    assert(reading_b.len() == id.len() - 1 - decimal(pid_b as nat).len());
    assert(reading_a =~= id.take(reading_a.len() as int));
    assert(reading_b =~= id.take(reading_b.len() as int));
}

proof fn two_digits_denote(n: nat)
    requires
        n < 100,
    ensures
        two_digits(n).len() == 2,
        all_digits(two_digits(n)),
        digits_value(two_digits(n)) == n,
{
    let s = two_digits(n);
    assert(s.drop_last().drop_last() =~= Seq::<char>::empty());
    assert(digits_value(Seq::<char>::empty()) == 0);
    assert(s.drop_last().last() == s[0]);
    assert(digits_value(s.drop_last()) == n / 10);
}

/// A timestamp has its parts in their places: four digits of the year, two each
/// of month and day, a dash, and two each of hour, minute and second.
pub proof fn timestamps_have_their_parts_in_place(m: Moment)
    requires
        is_moment(m),
        m.year <= 9999,
    ensures
        ({
            let t = timestamp_text(m);
            &&& t.len() == 15
            &&& t[8] == '-'
            &&& forall|i: int| 0 <= i < 15 && i != 8 ==> '0' <= #[trigger] t[i] <= '9'
            &&& digits_value(t.subrange(0, 4)) == m.year
            &&& digits_value(t.subrange(4, 6)) == m.month
            &&& digits_value(t.subrange(6, 8)) == m.day
            &&& digits_value(t.subrange(9, 11)) == m.hour
            &&& digits_value(t.subrange(11, 13)) == m.minute
            &&& digits_value(t.subrange(13, 15)) == m.second
        }),
{
    let t = timestamp_text(m);
    let (y, mo, d) = (year_text(m.year), two_digits(m.month), two_digits(m.day));
    let (h, mi, s) = (two_digits(m.hour), two_digits(m.minute), two_digits(m.second));
    decimal_denotes(m.year);
    assert(y.len() == 4) by {
        reveal_with_fuel(decimal, 4);
    }
    two_digits_denote(m.month);
    two_digits_denote(m.day);
    two_digits_denote(m.hour);
    two_digits_denote(m.minute);
    two_digits_denote(m.second);
    assert(t.subrange(0, 4) =~= y);
    assert(t.subrange(4, 6) =~= mo);
    assert(t.subrange(6, 8) =~= d);
    assert(t.subrange(9, 11) =~= h);
    assert(t.subrange(11, 13) =~= mi);
    assert(t.subrange(13, 15) =~= s);
    assert forall|i: int| 0 <= i < 15 && i != 8 implies '0' <= #[trigger] t[i] <= '9' by {
        if i < 4 {
            assert(is_digit(y[i]));
        } else if i < 6 {
            assert(is_digit(mo[i - 4]));
        } else if i < 8 {
            assert(is_digit(d[i - 6]));
        } else if i < 11 {
            assert(is_digit(h[i - 9]));
        } else if i < 13 {
            assert(is_digit(mi[i - 11]));
        } else {
            assert(is_digit(s[i - 13]));
        }
    }
}

/// A timestamp is the text of a moment from 1970 on whose parts are in their
/// ranges.
pub proof fn timestamps_tell_moments(t: Seq<char>)
    requires
        is_timestamp(t),
    ensures
        exists|m: Moment|
            {
                &&& t == #[trigger] timestamp_text(m)
                &&& 1970 <= m.year
                &&& 1 <= m.month <= 12
                &&& 1 <= m.day <= 31
                &&& m.hour < 24
                &&& m.minute < 60
                &&& m.second < 60
            },
{
    let m = choose|m: Moment| is_moment(m) && t == #[trigger] timestamp_text(m);
    assert(t == timestamp_text(m));
}

// ---- the process behind an ID ----
proof fn nothing_before_matters(front: Seq<char>, tail: Seq<char>)
    requires
        !tail.contains('-'),
    ensures
        after_last(front.push('-') + tail, '-') == tail,
        after_last(tail, '-') == tail,
    decreases tail.len(),
{
    let whole = front.push('-') + tail;
    if tail.len() == 0 {
        assert(whole =~= front.push('-'));
        assert(after_last(whole, '-') =~= tail);
        assert(after_last(tail, '-') =~= tail);
    } else {
        let shorter = tail.drop_last();
        assert forall|i: int| 0 <= i < shorter.len() implies shorter[i] != '-' by {
            assert(tail.contains(tail[i]));
        }
        nothing_before_matters(front, shorter);
        assert(tail.contains(tail[tail.len() - 1]));
        assert(whole.drop_last() =~= front.push('-') + shorter);
        assert(whole.last() == tail.last());
        assert(shorter.push(tail.last()) =~= tail);
    }
}

/// A numeral without the plus sign in front of it.
pub open spec fn without_sign(tail: Seq<char>) -> Seq<char> {
    if tail.len() > 0 && tail[0] == '+' {
        tail.skip(1)
    } else {
        tail
    }
}

/// The process of an ID is told by what follows its last dash alone: a run of
/// digits that denotes a 32-bit number, with or without a plus sign in front.
/// Anything else tells no process.
pub proof fn processes_are_told_by_the_last_part(front: Seq<char>, tail: Seq<char>)
    requires
        !tail.contains('-'),
    ensures
        pid_of(front.push('-') + tail) == pid_of(tail),
        pid_of(tail) matches Some(pid) ==> pid == digits_value(without_sign(tail)),
        pid_of(tail) is Some <==> {
            &&& without_sign(tail).len() > 0
            &&& forall|i: int|
                0 <= i < without_sign(tail).len() ==> '0' <= #[trigger] without_sign(tail)[i]
                    <= '9'
            &&& digits_value(without_sign(tail)) <= 0xffff_ffff
        },
{
    nothing_before_matters(front, tail);
    let digits = without_sign(tail);
    if all_digits(digits) {
        assert forall|i: int| 0 <= i < digits.len() implies '0' <= #[trigger] digits[i] <= '9' by {
            assert(is_digit(digits[i]));
        }
    }
    if forall|i: int| 0 <= i < digits.len() ==> '0' <= #[trigger] digits[i] <= '9' {
        assert(all_digits(digits));
    }
}

/// What is said of an ID that is refused, word by word.
pub proof fn refusals_name_the_id(id: Seq<char>)
    ensures
        rejection_text(id) == if id.len() == 0 {
            "empty session ID"@
        } else {
            "invalid session ID: "@ + id
        },
{
}

// ---- byte counts ----
/// A tree takes the bytes of its regular files: each adds its length, and
/// nothing else adds anything.
pub proof fn trees_take_the_bytes_of_their_files(entries: Seq<TreeEntry>, entry: TreeEntry)
    ensures
        tree_bytes(Seq::empty()) == 0,
        tree_bytes(entries.push(entry)) == tree_bytes(entries) + match entry {
            TreeEntry::File(len) => len as nat,
            TreeEntry::NotFile => 0nat,
            TreeEntry::Unreadable => 0nat,
        },
{
    assert(entries.push(entry).drop_last() =~= entries);
}

proof fn rounding_is_to_the_nearest(n: nat, d: nat)
    requires
        d > 0,
    ensures
        ({
            let q = round_half_even(n, d);
            &&& 2 * (n - q * d) <= d
            &&& 2 * (q * d - n) <= d
            &&& (2 * (n - q * d) == d || 2 * (q * d - n) == d) ==> q % 2 == 0
        }),
{
    lemma_fundamental_div_mod(n as int, d as int);
    let quotient = n / d;
    assert((quotient + 1) * d == quotient * d + d) by (nonlinear_arith);
    assert(d * quotient == quotient * d) by (nonlinear_arith);
}

/// Doubles stand for a count as near as they can: as whole multiples of their
/// spacing, which is one below 2^53, and otherwise the power of two that leaves
/// 53 binary digits. Halfway the even multiple is taken.
pub proof fn counts_become_the_nearest_double(n: nat)
    ensures
        exists|k: nat| float_spacing(n) == #[trigger] pow2(k),
        n < 0x20_0000_0000_0000 ==> float_spacing(n) == 1,
        n < 0x20_0000_0000_0000 * float_spacing(n),
        n >= 0x20_0000_0000_0000 ==> 0x10_0000_0000_0000 * float_spacing(n) <= n,
        exists|q: nat| #[trigger]
            is_nearest(q, n, float_spacing(n)) && nearest_double(n) == q * float_spacing(n),
{
    spacings_are_powers(n);
    let s = float_spacing(n);
    rounding_is_to_the_nearest(n, s);
    let q = round_half_even(n, s);
    assert(is_nearest(q, n, s) && nearest_double(n) == q * s);
}

proof fn spacings_are_powers(n: nat)
    ensures
        exists|k: nat| float_spacing(n) == #[trigger] pow2(k),
        float_spacing(n) >= 1,
        n < 0x20_0000_0000_0000 * float_spacing(n),
        n >= 0x20_0000_0000_0000 ==> 0x10_0000_0000_0000 * float_spacing(n) <= n,
    decreases n,
{
    lemma2_to64();
    if n < 0x20_0000_0000_0000 {
        assert(float_spacing(n) == pow2(0));
    } else {
        spacings_are_powers(n / 2);
        let k = choose|k: nat| float_spacing(n / 2) == #[trigger] pow2(k);
        lemma_pow2_unfold(k + 1);
        assert(float_spacing(n) == pow2(k + 1));
    }
}

/// Whether `q` is the whole number nearest to `n / d`, the even one of two.
pub open spec fn is_nearest(q: nat, n: nat, d: nat) -> bool {
    &&& 2 * (n - q * d) <= d
    &&& 2 * (q * d - n) <= d
    &&& (2 * (n - q * d) == d || 2 * (q * d - n) == d) ==> q % 2 == 0
}

/// What is shown for a byte count: whole bytes below 1024, and otherwise tenths
/// of the largest unit that it reaches, the nearest to the count as a double,
/// halfway the even one.
pub proof fn counts_are_shown_in_tenths_of_their_unit(bytes: nat, unit: nat, suffix: Seq<char>)
    requires
        bytes >= 1024 ==> unit == if bytes >= 1073741824 {
            1073741824nat
        } else if bytes >= 1048576 {
            1048576
        } else {
            1024
        },
        bytes >= 1024 ==> suffix == if bytes >= 1073741824 {
            " GB"@
        } else if bytes >= 1048576 {
            " MB"@
        } else {
            " KB"@
        },
    ensures
        bytes < 1024 ==> bytes_text(bytes) == decimal(bytes) + " B"@,
        bytes >= 1024 ==> exists|tenths: nat| #[trigger]
            is_nearest(tenths, 10 * nearest_double(bytes), unit) && bytes_text(bytes) == decimal(
                tenths / 10,
            ) + "."@ + decimal(tenths % 10) + suffix,
{
    if bytes >= 1024 {
        let tenths = shown_tenths(bytes, unit);
        rounding_is_to_the_nearest(10 * nearest_double(bytes), unit);
        assert(is_nearest(tenths, 10 * nearest_double(bytes), unit));
    }
}

} // verus!
