//! Which files rollback leaves out of its snapshots.

use crate::text::{str_before, text_before, text_order_chains, text_order_is_total};
use vstd::prelude::*;
use vstd::string::*;

verus! {

/// What a snapshot leaves out and takes in.
#[derive(Debug, PartialEq, Eq)]
pub struct ExclusionConfig {
    /// Whether ignore files of the project are followed.
    pub use_gitignore: bool,
    /// Names that are left out.
    pub exclude_patterns: Vec<String>,
    /// Globs that are left out.
    pub exclude_globs: Vec<String>,
    /// Names that are taken in although something leaves them out.
    pub force_include: Vec<String>,
}

/// The texts of some strings.
pub open spec fn texts(strings: Seq<String>) -> Seq<Seq<char>> {
    strings.map_values(|s: String| s@)
}

/// Whether texts stand in strictly ascending order.
pub open spec fn is_ascending(patterns: Seq<Seq<char>>) -> bool {
    forall|i: int, j: int|
        0 <= i < j < patterns.len() ==> text_before(#[trigger] patterns[i], #[trigger] patterns[j])
}

/// Whether `patterns` are the texts of `given`, each of them once, in order.
pub open spec fn is_sorted_set(patterns: Seq<Seq<char>>, given: Seq<Seq<char>>) -> bool {
    &&& is_ascending(patterns)
    &&& forall|p: Seq<char>| #[trigger] patterns.contains(p) <==> given.contains(p)
}

/// The directories that version control systems keep their own data in.
pub fn rollback_vcs_exclusions() -> (r: Vec<String>)
    ensures
        texts(r@) == seq![".git"@, ".hg"@, ".svn"@],
{
    let names = vec![".git".to_owned(), ".hg".to_owned(), ".svn".to_owned()];
    assert(texts(names@) =~= seq![".git"@, ".hg"@, ".svn"@]);
    names
}

/// Copies a list of strings.
pub fn copy_strings(strings: &Vec<String>) -> (r: Vec<String>)
    ensures
        r@ == strings@,
{
    let mut copy: Vec<String> = Vec::new();
    let mut i: usize = 0;
    while i < strings.len()
        invariant
            i <= strings@.len(),
            copy@ == strings@.take(i as int),
        decreases strings@.len() - i,
    {
        copy.push(strings[i].clone());
        i = i + 1;
        assert(copy@ =~= strings@.take(i as int));
    }
    assert(strings@.take(i as int) =~= strings@);
    copy
}

/// Whether `name` is one of `names`.
pub fn is_among(name: &String, names: &Vec<String>) -> (r: bool)
    ensures
        r == texts(names@).contains(name@),
{
    let mut i: usize = 0;
    while i < names.len()
        invariant
            i <= names@.len(),
            forall|k: int| 0 <= k < i ==> (#[trigger] names@[k])@ != name@,
        decreases names@.len() - i,
    {
        if names[i].eq(name) {
            assert(texts(names@)[i as int] == name@);
            return true;
        }
        i = i + 1;
    }
    assert forall|k: int| 0 <= k < texts(names@).len() implies texts(names@)[k] != name@ by {
        assert(texts(names@)[k] == names@[k]@);
    }
    false
}

/// `sorted` with `next` in its place, unless it is there already.
fn add_pattern(sorted: &mut Vec<String>, next: String)
    requires
        is_ascending(texts(old(sorted)@)),
    ensures
        is_ascending(texts(final(sorted)@)),
        forall|p: Seq<char>| #[trigger]
            texts(final(sorted)@).contains(p) <==> texts(old(sorted)@).contains(p) || p == next@,
{
    let ghost all = texts(sorted@);
    let mut i: usize = 0;
    while i < sorted.len() && str_before(sorted[i].as_str(), next.as_str())
        invariant
            i <= sorted@.len(),
            all == texts(sorted@),
            forall|k: int| 0 <= k < i ==> text_before(#[trigger] all[k], next@),
        decreases sorted@.len() - i,
    {
        assert(all[i as int] == sorted@[i as int]@);
        i = i + 1;
    }
    if i < sorted.len() && sorted[i].eq(&next) {
        assert(all[i as int] == next@);
        return;
    }
    let ghost text = next@;
    proof {
        if i < all.len() {
            assert(all[i as int] == sorted@[i as int]@);
            text_order_is_total(all[i as int], text);
        }
        assert forall|k: int| i <= k < all.len() implies text_before(text, #[trigger] all[k]) by {
            if k > i {
                assert(text_before(all[i as int], all[k]));
                text_order_chains(text, all[i as int], all[k]);
            }
        }
    }
    sorted.insert(i, next);
    proof {
        let grown = texts(sorted@);
        assert(grown =~= all.insert(i as int, text));
        assert forall|p: Seq<char>| #[trigger] grown.contains(p) <==> all.contains(p) || p == text by {
            if all.contains(p) {
                let k = choose|k: int| 0 <= k < all.len() && all[k] == p;
                if k < i {
                    assert(grown[k] == p);
                } else {
                    assert(grown[k + 1] == p);
                }
            }
            if p == text {
                assert(grown[i as int] == p);
            }
            if grown.contains(p) {
                let k = choose|k: int| 0 <= k < grown.len() && grown[k] == p;
                if k < i {
                    assert(all[k] == p);
                } else if k > i {
                    assert(all[k - 1] == p);
                }
            }
        }
        assert forall|a: int, b: int| 0 <= a < b < grown.len() implies text_before(
            #[trigger] grown[a],
            #[trigger] grown[b],
        ) by {
            let left = if a < i {
                all[a]
            } else if a == i {
                text
            } else {
                all[a - 1]
            };
            let right = if b < i {
                all[b]
            } else if b == i {
                text
            } else {
                all[b - 1]
            };
            assert(grown[a] == left && grown[b] == right);
        }
    }
}

/// The given patterns, then more patterns: all of them once, in order.
pub fn sorted_patterns(given: Vec<String>, more: &Vec<String>) -> (r: Vec<String>)
    ensures
        is_sorted_set(texts(r@), texts(given@) + texts(more@)),
{
    let mut all = given;
    let mut tail = copy_strings(more);
    all.append(&mut tail);
    let ghost every = texts(all@);
    assert(every =~= texts(given@) + texts(more@));
    let mut sorted: Vec<String> = Vec::new();
    let mut i: usize = 0;
    assert(texts(sorted@) =~= Seq::<Seq<char>>::empty());
    while i < all.len()
        invariant
            i <= all@.len(),
            every == texts(all@),
            is_ascending(texts(sorted@)),
            forall|p: Seq<char>| #[trigger]
                texts(sorted@).contains(p) <==> every.take(i as int).contains(p),
        decreases all@.len() - i,
    {
        let next = all[i].clone();
        let ghost done = every.take(i as int);
        let ghost before = texts(sorted@);
        add_pattern(&mut sorted, next);
        proof {
            let grown = every.take(i + 1);
            assert(grown =~= done.push(next@));
            assert forall|p: Seq<char>| #[trigger] texts(sorted@).contains(p) <==> grown.contains(
                p,
            ) by {
                assert(before.contains(p) <==> done.contains(p));
                if done.contains(p) {
                    let k = choose|k: int| 0 <= k < done.len() && done[k] == p;
                    assert(grown[k] == p);
                }
                if p == next@ {
                    assert(grown[i as int] == p);
                }
                if grown.contains(p) {
                    let k = choose|k: int| 0 <= k < grown.len() && grown[k] == p;
                    if k < i {
                        assert(done[k] == p);
                    }
                }
            }
        }
        i = i + 1;
    }
    assert(every.take(i as int) =~= every);
    sorted
}

/// There is only one way to order some texts without repeating any.
pub proof fn sorted_set_is_unique(a: Seq<Seq<char>>, b: Seq<Seq<char>>, given: Seq<Seq<char>>)
    requires
        is_sorted_set(a, given),
        is_sorted_set(b, given),
    ensures
        a == b,
    decreases a.len(),
{
    if a.len() == 0 {
        if b.len() > 0 {
            assert(b.contains(b[0]));
            assert(a.contains(b[0]));
        }
        assert(a =~= b);
    } else {
        assert(a.contains(a[0]));
        assert(b.contains(a[0]));
        let k = choose|k: int| 0 <= k < b.len() && b[k] == a[0];
        assert(b.contains(b[0]));
        assert(a.contains(b[0]));
        let m = choose|m: int| 0 <= m < a.len() && a[m] == b[0];
        text_order_is_total(a[0], b[0]);
        if k > 0 {
            assert(text_before(b[0], b[k]));
            assert(m > 0);
            assert(text_before(a[0], a[m]));
        }
        assert(a[0] == b[0]);
        let rest = given.filter(|p: Seq<char>| p != a[0]);
        sorted_set_tail(a, given, rest);
        sorted_set_tail(b, given, rest);
        sorted_set_is_unique(a.drop_first(), b.drop_first(), rest);
        assert(a =~= seq![a[0]] + a.drop_first());
        assert(b =~= seq![b[0]] + b.drop_first());
    }
}

proof fn sorted_set_tail(a: Seq<Seq<char>>, given: Seq<Seq<char>>, rest: Seq<Seq<char>>)
    requires
        is_sorted_set(a, given),
        a.len() > 0,
        rest == given.filter(|p: Seq<char>| p != a[0]),
    ensures
        is_sorted_set(a.drop_first(), rest),
{
    let tail = a.drop_first();
    let other = |p: Seq<char>| p != a[0];
    assert forall|i: int, j: int| 0 <= i < j < tail.len() implies text_before(
        #[trigger] tail[i],
        #[trigger] tail[j],
    ) by {
        assert(text_before(a[i + 1], a[j + 1]));
    }
    assert forall|p: Seq<char>| #[trigger] tail.contains(p) <==> rest.contains(p) by {
        if tail.contains(p) {
            let i = choose|i: int| 0 <= i < tail.len() && tail[i] == p;
            assert(a[i + 1] == p);
            assert(text_before(a[0], a[i + 1]));
            text_order_is_total(a[0], p);
            assert(a.contains(p));
            assert(given.contains(p));
            let at = choose|at: int| 0 <= at < given.len() && given[at] == p;
            given.lemma_filter_contains(other, at);
        }
        if rest.contains(p) {
            let i = choose|i: int| 0 <= i < rest.len() && rest[i] == p;
            given.lemma_filter_pred(other, i);
            given.lemma_filter_contains_rev(other, p);
            assert(a.contains(p));
            let at = choose|at: int| 0 <= at < a.len() && a[at] == p;
            assert(at > 0);
            assert(tail[at - 1] == p);
        }
    }
}

} // verus!
