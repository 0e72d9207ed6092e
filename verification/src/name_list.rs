//! Lists of distinct names in order.

use crate::text;
use vstd::prelude::*;

verus! {

/// Whether a name is in a list.
pub open spec fn lists(list: Seq<String>, name: Seq<char>) -> bool {
    exists|i: int| 0 <= i < list.len() && (#[trigger] list[i])@ == name
}

/// Whether names stand in order, none of them twice.
pub open spec fn in_order(list: Seq<String>) -> bool {
    forall|i: int, j: int|
        0 <= i < j < list.len() ==> text::is_before((#[trigger] list[i])@, (#[trigger] list[j])@)
}

/// Whether a name is in a list.
pub fn is_listed(list: &Vec<String>, name: &str) -> (r: bool)
    ensures
        r == lists(list@, name@),
{
    let mut i: usize = 0;
    while i < list.len()
        invariant
            i <= list@.len(),
            forall|j: int| 0 <= j < i ==> (#[trigger] list@[j])@ != name@,
        decreases list@.len() - i,
    {
        if text::same(list[i].as_str(), name) {
            assert(list@[i as int]@ == name@);
            return true;
        }
        i = i + 1;
    }
    false
}

/// Puts a name in its place, unless it is there already.
pub fn insert_name(list: &mut Vec<String>, name: &str)
    requires
        in_order(old(list)@),
    ensures
        in_order(final(list)@),
        forall|n: Seq<char>|
            #![trigger lists(final(list)@, n)]
            lists(final(list)@, n) <==> lists(old(list)@, n) || n == name@,
{
    let ghost before = list@;
    let mut at: usize = 0;
    while at < list.len() && text::before(list[at].as_str(), name)
        invariant
            list@ == before,
            at <= before.len(),
            forall|m: int| 0 <= m < at ==> text::is_before((#[trigger] before[m])@, name@),
        decreases before.len() - at,
    {
        at = at + 1;
    }
    if at < list.len() && text::same(list[at].as_str(), name) {
        assert(lists(list@, name@));
        return;
    }
    let ghost owned = name@;
    list.insert(at, name.to_string());
    proof {
        let after = list@;
        assert(after[at as int]@ == owned);
        assert forall|i: int, j: int| 0 <= i < j < after.len() implies text::is_before(
            (#[trigger] after[i])@,
            (#[trigger] after[j])@,
        ) by {
            if j < at {
                assert(after[i] == before[i] && after[j] == before[j]);
            } else if j == at {
                assert(after[i] == before[i]);
            } else if i > at {
                assert(after[i] == before[i - 1] && after[j] == before[j - 1]);
            } else {
                assert(after[j] == before[j - 1]);
                text::lemma_before_order(owned, before[at as int]@, before[j - 1]@);
                if i < at {
                    assert(after[i] == before[i]);
                }
            }
        }
        assert forall|n: Seq<char>|
            #![trigger lists(after, n)]
            lists(after, n) <==> lists(before, n) || n == owned by {
            if lists(after, n) {
                let i = choose|i: int| 0 <= i < after.len() && (#[trigger] after[i])@ == n;
                if i < at {
                    assert(before[i]@ == n);
                } else if i > at {
                    assert(before[i - 1]@ == n);
                }
            }
            if lists(before, n) {
                let i = choose|i: int| 0 <= i < before.len() && (#[trigger] before[i])@ == n;
                if i < at {
                    assert(after[i]@ == n);
                } else {
                    assert(after[i + 1]@ == n);
                }
            }
        }
    }
}

/// Puts a name in its place, unless it is empty or there already.
pub fn insert_non_empty(list: &mut Vec<String>, name: &str)
    requires
        in_order(old(list)@),
    ensures
        in_order(final(list)@),
        forall|n: Seq<char>|
            #![trigger lists(final(list)@, n)]
            lists(final(list)@, n) <==> lists(old(list)@, n) || (n == name@ && n.len() > 0),
{
    if !text::is_empty(name) {
        insert_name(list, name);
    }
}

/// Takes a name out, where it is there.
pub fn remove_name(list: &mut Vec<String>, name: &str)
    requires
        in_order(old(list)@),
    ensures
        in_order(final(list)@),
        forall|n: Seq<char>|
            #![trigger lists(final(list)@, n)]
            lists(final(list)@, n) <==> lists(old(list)@, n) && n != name@,
{
    let ghost before = list@;
    let mut at: usize = 0;
    while at < list.len() && !text::same(list[at].as_str(), name)
        invariant
            list@ == before,
            at <= before.len(),
            forall|m: int| 0 <= m < at ==> (#[trigger] before[m])@ != name@,
        decreases before.len() - at,
    {
        at = at + 1;
    }
    if at == list.len() {
        return;
    }
    let _gone = list.remove(at);
    proof {
        let after = list@;
        assert forall|i: int, j: int| 0 <= i < j < after.len() implies text::is_before(
            (#[trigger] after[i])@,
            (#[trigger] after[j])@,
        ) by {
            let x = if i < at {
                i
            } else {
                i + 1
            };
            let y = if j < at {
                j
            } else {
                j + 1
            };
            assert(after[i] == before[x] && after[j] == before[y]);
        }
        assert forall|n: Seq<char>|
            #![trigger lists(after, n)]
            lists(after, n) <==> lists(before, n) && n != name@ by {
            if lists(after, n) {
                let i = choose|i: int| 0 <= i < after.len() && (#[trigger] after[i])@ == n;
                let x = if i < at {
                    i
                } else {
                    i + 1
                };
                assert(before[x]@ == n);
                if i >= at {
                    assert(text::is_before(before[at as int]@, before[x]@));
                    text::lemma_before_irreflexive(n);
                }
            }
            if lists(before, n) && n != name@ {
                let i = choose|i: int| 0 <= i < before.len() && (#[trigger] before[i])@ == n;
                if i < at {
                    assert(after[i]@ == n);
                } else {
                    assert(after[i - 1]@ == n);
                }
            }
        }
    }
}

/// A list of names in order is fixed by which names it holds.
pub proof fn law_names_fix_the_list(a: Seq<String>, b: Seq<String>)
    requires
        in_order(a),
        in_order(b),
        forall|n: Seq<char>| #[trigger] lists(a, n) == lists(b, n),
    ensures
        a.len() == b.len(),
        forall|i: int| 0 <= i < a.len() ==> (#[trigger] a[i])@ == b[i]@,
{
    lemma_same_until(a, b, if a.len() <= b.len() {
        a.len() as int
    } else {
        b.len() as int
    });
    if a.len() < b.len() {
        lemma_no_more(a, b);
    }
    if b.len() < a.len() {
        assert forall|n: Seq<char>| #[trigger] lists(b, n) == lists(a, n) by {
            assert(lists(a, n) == lists(b, n));
        }
        lemma_no_more(b, a);
    }
}

/// Lists with the same names agree at every position that both have.
proof fn lemma_same_until(a: Seq<String>, b: Seq<String>, n: int)
    requires
        in_order(a),
        in_order(b),
        0 <= n <= a.len(),
        n <= b.len(),
        forall|m: Seq<char>| #[trigger] lists(a, m) == lists(b, m),
    ensures
        forall|i: int| 0 <= i < n ==> (#[trigger] a[i])@ == b[i]@,
    decreases n,
{
    if n > 0 {
        lemma_same_until(a, b, n - 1);
        let k = n - 1;
        if a[k]@ != b[k]@ {
            text::lemma_before_order(a[k]@, b[k]@, b[k]@);
            if text::is_before(a[k]@, b[k]@) {
                assert(lists(a, a[k]@));
                assert(lists(b, a[k]@));
                lemma_not_listed(b, a, k);
            } else {
                text::lemma_before_order(b[k]@, a[k]@, a[k]@);
                assert(lists(b, b[k]@));
                assert(lists(a, b[k]@));
                lemma_not_listed(a, b, k);
            }
        }
    }
}

/// A name that stands at a position of one list, where the other has a later
/// name and the same ones in front, is not in the other.
proof fn lemma_not_listed(b: Seq<String>, a: Seq<String>, k: int)
    requires
        in_order(a),
        in_order(b),
        0 <= k < a.len(),
        k < b.len(),
        forall|i: int| 0 <= i < k ==> (#[trigger] b[i])@ == a[i]@,
        text::is_before(a[k]@, b[k]@),
    ensures
        !lists(b, a[k]@),
{
    if lists(b, a[k]@) {
        let i = choose|i: int| 0 <= i < b.len() && (#[trigger] b[i])@ == a[k]@;
        if i < k {
            assert(a[i]@ == a[k]@);
            assert(text::is_before(a[i]@, a[k]@));
            text::lemma_before_irreflexive(a[k]@);
        } else if i == k {
            text::lemma_before_irreflexive(a[k]@);
        } else {
            assert(text::is_before(b[k]@, b[i]@));
            text::lemma_before_asymmetric(a[k]@, b[k]@);
        }
    }
}

/// A longer list with the same front holds a name more.
proof fn lemma_no_more(a: Seq<String>, b: Seq<String>)
    requires
        in_order(a),
        in_order(b),
        a.len() < b.len(),
        forall|i: int| 0 <= i < a.len() ==> (#[trigger] a[i])@ == b[i]@,
        forall|n: Seq<char>| #[trigger] lists(a, n) == lists(b, n),
    ensures
        a.len() == b.len(),
{
    let last = a.len() as int;
    assert(lists(b, b[last]@));
    assert(lists(a, b[last]@));
    let i = choose|i: int| 0 <= i < a.len() && (#[trigger] a[i])@ == b[last]@;
    assert(b[i]@ == b[last]@);
    assert(text::is_before(b[i]@, b[last]@));
    text::lemma_before_irreflexive(b[last]@);
}

} // verus!
