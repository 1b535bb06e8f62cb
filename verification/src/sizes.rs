//! Disk usage: summing file sizes and showing byte counts to people.

use crate::text::{decimal, decimal_string};
use vstd::arithmetic::div_mod::{
    lemma_div_is_ordered, lemma_div_multiples_vanish, lemma_fundamental_div_mod,
    lemma_mod_multiples_basic,
};
use vstd::prelude::*;
use vstd::string::*;

verus! {

/// Bytes in a kibibyte.
pub const KB: u64 = 1024;

/// Bytes in a mebibyte.
pub const MB: u64 = 1_048_576;

/// Bytes in a gibibyte.
pub const GB: u64 = 1_073_741_824;

/// The quotient `n / d` rounded to the nearest integer, ties to the even one.
pub open spec fn round_half_even(n: nat, d: nat) -> nat {
    let quotient = n / d;
    let rest = n % d;
    if 2 * rest < d || (2 * rest == d && quotient % 2 == 0) {
        quotient
    } else {
        quotient + 1
    }
}

/// The distance between neighbouring double-precision numbers around `n`.
pub open spec fn float_spacing(n: nat) -> nat
    decreases n,
{
    if n < 0x20_0000_0000_0000 {
        1
    } else {
        2 * float_spacing(n / 2)
    }
}

/// The double-precision number nearest to `n`, ties to the even mantissa.
pub open spec fn nearest_double(n: nat) -> nat {
    round_half_even(n, float_spacing(n)) * float_spacing(n)
}

/// How many tenths of `unit` are shown for `bytes`: the double nearest to
/// `bytes`, divided by `unit`, to one decimal place.
pub open spec fn shown_tenths(bytes: nat, unit: nat) -> nat {
    round_half_even(10 * nearest_double(bytes), unit)
}

/// A number of tenths with a decimal point, and the name of the unit.
pub open spec fn tenths_text(tenths: nat, suffix: Seq<char>) -> Seq<char> {
    decimal(tenths / 10) + "."@ + decimal(tenths % 10) + suffix
}

/// What is shown for a byte count: whole bytes below one kibibyte, else one
/// decimal place of the largest unit that does not exceed the count.
pub open spec fn bytes_text(bytes: nat) -> Seq<char> {
    if bytes >= GB {
        tenths_text(shown_tenths(bytes, GB as nat), " GB"@)
    } else if bytes >= MB {
        tenths_text(shown_tenths(bytes, MB as nat), " MB"@)
    } else if bytes >= KB {
        tenths_text(shown_tenths(bytes, KB as nat), " KB"@)
    } else {
        decimal(bytes) + " B"@
    }
}

fn rounded_quotient(n: u128, d: u128) -> (r: u128)
    requires
        0 < d <= 0x1_0000_0000,
    ensures
        r == round_half_even(n as nat, d as nat),
        r <= n / d + 1,
{
    let quotient: u128 = n / d;
    let rest: u128 = n % d;
    if 2 * rest < d || (2 * rest == d && quotient % 2 == 0) {
        quotient
    } else {
        assert(quotient < u128::MAX) by {
            assert(n / d <= n) by (nonlinear_arith)
                requires
                    d > 0,
            ;
            if quotient == u128::MAX {
                assert(d == 1) by (nonlinear_arith)
                    requires
                        d > 0,
                        n / d == u128::MAX,
                        n <= u128::MAX,
                ;
                assert(rest == 0);
            }
        }
        quotient + 1
    }
}

proof fn spacing_fits(n: nat)
    ensures
        float_spacing(n) >= 1,
        n < 0x1_0000_0000_0000_0000 ==> float_spacing(n) <= 0x800,
        n >= 0x20_0000_0000_0000 ==> float_spacing(n) * 0x20_0000_0000_0000 <= 2 * n,
    decreases n,
{
    reveal_with_fuel(float_spacing, 13);
    if n >= 0x20_0000_0000_0000 {
        spacing_fits(n / 2);
    }
}

fn spacing_at(n: u64) -> (r: u64)
    ensures
        r == float_spacing(n as nat),
    decreases n,
{
    if n < 0x20_0000_0000_0000 {
        1
    } else {
        proof {
            spacing_fits(n as nat);
            spacing_fits((n / 2) as nat);
        }
        2 * spacing_at(n / 2)
    }
}

fn scaled_string(bytes: u64, unit: u64, suffix: &str) -> (r: String)
    requires
        KB <= unit <= GB,
    ensures
        r@ == tenths_text(shown_tenths(bytes as nat, unit as nat), suffix@),
{
    let spacing: u128 = spacing_at(bytes) as u128;
    proof {
        spacing_fits(bytes as nat);
    }
    let steps: u128 = rounded_quotient(bytes as u128, spacing);
    assert(0 <= steps * spacing <= bytes + spacing) by (nonlinear_arith)
        requires
            spacing >= 1,
            steps <= (bytes as u128) / spacing + 1,
    ;
    let nearest: u128 = steps * spacing;
    let tenths: u128 = rounded_quotient(10 * nearest, unit as u128);
    assert(tenths <= u64::MAX) by (nonlinear_arith)
        requires
            unit >= 1024,
            nearest <= 0x2_0000_0000_0000_0000,
            tenths <= (10 * nearest) / (unit as int) + 1,
    ;
    let mut text = decimal_string((tenths / 10) as u64);
    text.append(".");
    let last = decimal_string((tenths % 10) as u64);
    text.append(last.as_str());
    text.append(suffix);
    text
}

/// Format a byte count as a human-readable string.
///
/// Counts of at least one kibibyte are shown in KB, MB or GB with one decimal
/// place. The value shown is the count's nearest double-precision number over
/// the unit; a value halfway between two decimals goes to the even digit.
pub fn format_bytes(bytes: u64) -> (r: String)
    ensures
        r@ == bytes_text(bytes as nat),
{
    if bytes >= GB {
        scaled_string(bytes, GB, " GB")
    } else if bytes >= MB {
        scaled_string(bytes, MB, " MB")
    } else if bytes >= KB {
        scaled_string(bytes, KB, " KB")
    } else {
        let mut text = decimal_string(bytes);
        text.append(" B");
        text
    }
}

/// Below 2^53 bytes nothing is lost on the way to what is shown: the tenths are
/// those of the count itself.
pub proof fn small_counts_are_exact(bytes: nat, unit: nat)
    requires
        bytes < 0x20_0000_0000_0000,
    ensures
        nearest_double(bytes) == bytes,
        shown_tenths(bytes, unit) == round_half_even(10 * bytes, unit),
{
    assert(float_spacing(bytes) == 1);
    assert(bytes / 1 == bytes && bytes % 1 == 0);
    assert(round_half_even(bytes, 1) == bytes);
    assert(bytes * 1 == bytes);
}

proof fn rounding_keeps_order(a: nat, b: nat, d: nat)
    requires
        a <= b,
        d > 0,
    ensures
        round_half_even(a, d) <= round_half_even(b, d),
{
    lemma_div_is_ordered(a as int, b as int, d as int);
    lemma_fundamental_div_mod(a as int, d as int);
    lemma_fundamental_div_mod(b as int, d as int);
}

/// A spacing reaches from half the span of doubles to all of it, and a larger
/// number has the same spacing or at least twice as much.
proof fn spacings_double(a: nat, b: nat)
    requires
        a <= b,
    ensures
        1 <= float_spacing(a) <= float_spacing(b),
        float_spacing(a) == float_spacing(b) || 2 * float_spacing(a) <= float_spacing(b),
        a < 0x20_0000_0000_0000 * float_spacing(a),
        float_spacing(b) > 1 ==> 0x10_0000_0000_0000 * float_spacing(b) <= b,
    decreases b,
{
    if b >= 0x20_0000_0000_0000 {
        spacings_double(a / 2, b / 2);
        if a < 0x20_0000_0000_0000 {
            assert(float_spacing(a) == 1);
            spacings_double(b / 2, b / 2);
        }
    } else {
        assert(float_spacing(a) == 1 && float_spacing(b) == 1);
    }
}

proof fn doubles_keep_order(a: nat, b: nat)
    requires
        a <= b,
    ensures
        nearest_double(a) <= nearest_double(b),
{
    spacings_double(a, b);
    let (s, t) = (float_spacing(a), float_spacing(b));
    if s == t {
        rounding_keeps_order(a, b, s);
        assert(round_half_even(a, s) * s <= round_half_even(b, s) * s) by (nonlinear_arith)
            requires
                round_half_even(a, s) <= round_half_even(b, s),
        ;
    } else {
        let (top, half) = (0x20_0000_0000_0000nat * s, 0x10_0000_0000_0000nat * t);
        rounding_keeps_order(a, top, s);
        lemma_div_multiples_vanish(0x20_0000_0000_0000, s as int);
        lemma_mod_multiples_basic(0x20_0000_0000_0000, s as int);
        assert(s * 0x20_0000_0000_0000 == top && 0x20_0000_0000_0000 * s == top);
        assert(round_half_even(top, s) == 0x20_0000_0000_0000);
        assert(round_half_even(a, s) * s <= top) by (nonlinear_arith)
            requires
                round_half_even(a, s) <= 0x20_0000_0000_0000,
                top == 0x20_0000_0000_0000nat * s,
        ;
        rounding_keeps_order(half, b, t);
        lemma_div_multiples_vanish(0x10_0000_0000_0000, t as int);
        lemma_mod_multiples_basic(0x10_0000_0000_0000, t as int);
        assert(t * 0x10_0000_0000_0000 == half && 0x10_0000_0000_0000 * t == half);
        assert(round_half_even(half, t) == 0x10_0000_0000_0000);
        assert(half <= round_half_even(b, t) * t) by (nonlinear_arith)
            requires
                0x10_0000_0000_0000 <= round_half_even(b, t),
                half == 0x10_0000_0000_0000nat * t,
        ;
        assert(top <= half);
    }
}

/// The unit that a byte count is shown in.
pub open spec fn unit_of(bytes: nat) -> nat {
    if bytes >= GB {
        GB as nat
    } else if bytes >= MB {
        MB as nat
    } else if bytes >= KB {
        KB as nat
    } else {
        1
    }
}

/// Ten times the quantity that is shown for a byte count, in bytes.
pub open spec fn shown_quantity(bytes: nat) -> nat {
    if bytes >= KB {
        shown_tenths(bytes, unit_of(bytes)) * unit_of(bytes)
    } else {
        10 * bytes
    }
}

/// What is shown is the shown quantity in its unit.
pub proof fn texts_show_the_quantity(bytes: nat)
    ensures
        bytes >= KB ==> {
            let tenths = shown_quantity(bytes) / unit_of(bytes);
            bytes_text(bytes) == tenths_text(
                tenths,
                if bytes >= GB {
                    " GB"@
                } else if bytes >= MB {
                    " MB"@
                } else {
                    " KB"@
                },
            )
        },
        bytes < KB ==> bytes_text(bytes) == decimal(shown_quantity(bytes) / 10) + " B"@,
{
    let (tenths, unit) = (shown_tenths(bytes, unit_of(bytes)), unit_of(bytes));
    lemma_div_multiples_vanish(tenths as int, unit as int);
    assert(tenths * unit == unit * tenths) by (nonlinear_arith);
}

/// A larger size is never shown as a smaller quantity, whatever the units.
pub proof fn larger_sizes_show_no_less(a: nat, b: nat)
    requires
        a <= b,
    ensures
        shown_quantity(a) <= shown_quantity(b),
{
    let (u, v) = (unit_of(a), unit_of(b));
    if b < KB {
    } else if u == v {
        doubles_keep_order(a, b);
        rounding_keeps_order(10 * nearest_double(a), 10 * nearest_double(b), u);
        assert(shown_tenths(a, u) * u <= shown_tenths(b, u) * u) by (nonlinear_arith)
            requires
                shown_tenths(a, u) <= shown_tenths(b, u),
        ;
    } else {
        // at most one of the larger unit is shown for `a`, at least one for `b`
        small_counts_are_exact(v, v);
        doubles_keep_order(v, b);
        rounding_keeps_order(10 * nearest_double(v), 10 * nearest_double(b), v);
        assert(round_half_even(10 * v, v) == 10);
        assert(10 * v <= shown_tenths(b, v) * v) by (nonlinear_arith)
            requires
                10 <= shown_tenths(b, v),
        ;
        if a >= KB {
            small_counts_are_exact(v, u);
            doubles_keep_order(a, v);
            rounding_keeps_order(10 * nearest_double(a), 10 * nearest_double(v), u);
            if v == MB {
                assert(round_half_even(10 * v, u) == 10240);
            } else if u == KB {
                assert(round_half_even(10 * v, u) == 10485760);
            } else {
                assert(round_half_even(10 * v, u) == 10240);
            }
            assert(round_half_even(10 * v, u) * u == 10 * v);
            assert(shown_tenths(a, u) * u <= round_half_even(10 * v, u) * u) by (nonlinear_arith)
                requires
                    shown_tenths(a, u) <= round_half_even(10 * v, u),
            ;
        }
    }
}

// ---- disk usage ----
/// What was met at one place of a directory tree.
#[derive(Debug, Clone, Copy, PartialEq, Eq)]
pub enum TreeEntry {
    /// The entry, or what is known of it, could not be read.
    Unreadable,
    /// A directory, a link or anything else that is not a regular file.
    NotFile,
    /// A regular file with its length in bytes.
    File(u64),
}

/// The bytes that an entry adds to the size of its tree.
pub open spec fn entry_bytes(entry: TreeEntry) -> nat {
    match entry {
        TreeEntry::File(len) => len as nat,
        _ => 0,
    }
}

/// The total size of the regular files among the entries of a tree.
pub open spec fn tree_bytes(entries: Seq<TreeEntry>) -> nat
    decreases entries.len(),
{
    if entries.len() == 0 {
        0
    } else {
        tree_bytes(entries.drop_last()) + entry_bytes(entries.last())
    }
}

proof fn more_entries_more_bytes(entries: Seq<TreeEntry>, k: int)
    requires
        0 <= k <= entries.len(),
    ensures
        tree_bytes(entries.take(k)) <= tree_bytes(entries),
    decreases entries.len() - k,
{
    if k < entries.len() {
        more_entries_more_bytes(entries, k + 1);
        assert(entries.take(k + 1).drop_last() =~= entries.take(k));
    } else {
        assert(entries.take(k) =~= entries);
    }
}

proof fn bytes_of_two_parts(a: Seq<TreeEntry>, b: Seq<TreeEntry>)
    ensures
        tree_bytes(a + b) == tree_bytes(a) + tree_bytes(b),
    decreases b.len(),
{
    if b.len() == 0 {
        assert(a + b =~= a);
    } else {
        bytes_of_two_parts(a, b.drop_last());
        assert((a + b).drop_last() =~= a + b.drop_last());
    }
}

/// The sizes of some trees, added up.
pub open spec fn sum_of_trees(trees: Seq<Seq<TreeEntry>>) -> nat
    decreases trees.len(),
{
    if trees.len() == 0 {
        0
    } else {
        tree_bytes(trees[0]) + sum_of_trees(trees.drop_first())
    }
}

/// The size of a tree is the sum of the sizes of its parts: what all sessions
/// take together is what each of them takes, added up, and whatever else lies
/// beside them.
pub proof fn totals_are_sums(sessions: Seq<Seq<TreeEntry>>, beside: Seq<TreeEntry>)
    ensures
        tree_bytes(beside + sessions.flatten()) == tree_bytes(beside) + sum_of_trees(sessions),
    decreases sessions.len(),
{
    bytes_of_two_parts(beside, sessions.flatten());
    if sessions.len() > 0 {
        let rest = sessions.drop_first();
        totals_are_sums(rest, Seq::empty());
        assert(Seq::<TreeEntry>::empty() + rest.flatten() =~= rest.flatten());
        bytes_of_two_parts(sessions[0], rest.flatten());
        assert(sessions.flatten() =~= sessions[0] + rest.flatten());
    }
}

/// Calculate the total size of all files in a directory tree.
///
/// There is no result where the total does not fit.
pub fn calculate_dir_size(entries: &Vec<TreeEntry>) -> (r: Option<u64>)
    ensures
        r == if tree_bytes(entries@) <= u64::MAX {
            Some(tree_bytes(entries@) as u64)
        } else {
            None::<u64>
        },
{
    let mut total: u64 = 0;
    let mut i: usize = 0;
    assert(entries@.take(0) =~= Seq::<TreeEntry>::empty());
    while i < entries.len()
        invariant
            i <= entries@.len(),
            total == tree_bytes(entries@.take(i as int)),
        decreases entries@.len() - i,
    {
        assert(entries@.take(i + 1).drop_last() =~= entries@.take(i as int));
        let more: u64 = match entries[i] {
            TreeEntry::File(len) => len,
            _ => 0,
        };
        proof {
            more_entries_more_bytes(entries@, i + 1);
        }
        match total.checked_add(more) {
            Some(sum) => {
                total = sum;
            },
            None => {
                return None;
            },
        }
        i = i + 1;
    }
    assert(entries@.take(i as int) =~= entries@);
    Some(total)
}

/// Calculate the total disk usage of all rollback sessions, from what was met
/// below the rollback root; a root that does not exist takes no space.
///
/// Only `~/.nono/rollbacks/` is counted; audit-only sessions are not subject
/// to rollback retention limits.
pub fn total_rollback_storage_bytes(below_root: Option<&Vec<TreeEntry>>) -> (r: Option<u64>)
    ensures
        match below_root {
            None => r == Some(0u64),
            Some(entries) => r == if tree_bytes(entries@) <= u64::MAX {
                Some(tree_bytes(entries@) as u64)
            } else {
                None::<u64>
            },
        },
{
    match below_root {
        None => Some(0),
        Some(entries) => calculate_dir_size(entries),
    }
}

} // verus!
