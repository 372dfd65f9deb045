//! Byte strings: fixed-width identifiers, equality, and lexicographic order.

use vstd::prelude::*;

verus! {

/// An account address.
pub type Address = [u8; 20];

/// A 32-byte hash, root or storage slot.
pub type B256 = [u8; 32];

/// A byte string of any length.
pub type Bytes = Vec<u8>;

/// Whether two byte strings hold the same bytes.
pub fn same_bytes(a: &[u8], b: &[u8]) -> (r: bool)
    ensures
        r == (a@ == b@),
{
    if a.len() != b.len() {
        return false;
    }
    let mut i: usize = 0;
    while i < a.len()
        invariant
            i <= a.len(),
            a.len() == b.len(),
            forall|j: int| 0 <= j < i ==> a@[j] == b@[j],
        decreases a.len() - i,
    {
        if a[i] != b[i] {
            return false;
        }
        i += 1;
    }
    assert(a@ =~= b@);
    true
}

/// A copy of a byte string.
pub fn copy_bytes(a: &[u8]) -> (r: Vec<u8>)
    ensures
        r@ == a@,
{
    let mut out: Vec<u8> = Vec::new();
    let mut i: usize = 0;
    while i < a.len()
        invariant
            i <= a.len(),
            out@ == a@.take(i as int),
        decreases a.len() - i,
    {
        out.push(a[i]);
        assert(a@.take(i + 1) =~= a@.take(i as int).push(a@[i as int]));
        i += 1;
    }
    assert(a@.take(a@.len() as int) =~= a@);
    out
}

/// Whether `a` comes before `b` in lexicographic order: at the first byte in which they differ, or
/// as a proper prefix.
pub open spec fn lex_less(a: Seq<u8>, b: Seq<u8>) -> bool
    decreases a.len(),
{
    if b.len() == 0 {
        false
    } else if a.len() == 0 {
        true
    } else if a[0] != b[0] {
        a[0] < b[0]
    } else {
        lex_less(a.skip(1), b.skip(1))
    }
}

/// How two byte strings stand to each other.
#[derive(Clone, Copy, Debug, PartialEq, Eq, Structural)]
pub enum Order {
    /// The first comes before the second.
    Before,
    /// They are the same.
    Same,
    /// The first comes after the second.
    After,
}

/// No byte string comes before itself, and of two that differ exactly one comes first.
pub proof fn lex_trichotomy(a: Seq<u8>, b: Seq<u8>)
    ensures
        !lex_less(a, a),
        lex_less(a, b) ==> !lex_less(b, a) && a != b,
        a != b ==> lex_less(a, b) || lex_less(b, a),
    decreases a.len(),
{
    if a.len() > 0 {
        lex_trichotomy(a.skip(1), a.skip(1));
        if b.len() > 0 {
            lex_trichotomy(a.skip(1), b.skip(1));
            if a[0] == b[0] && a.skip(1) == b.skip(1) {
                assert(a =~= b) by {
                    assert forall|i: int| 0 <= i < a.len() implies a[i] == b[i] by {
                        if i > 0 {
                            assert(a.skip(1)[i - 1] == b.skip(1)[i - 1]);
                        }
                    }
                    assert(a.skip(1).len() == b.skip(1).len());
                }
            }
            if a == b {
                assert(a.skip(1) == b.skip(1));
            }
        }
    } else if b.len() == 0 {
        assert(a =~= b);
    }
}

/// What comes before something comes before all that comes after it.
pub proof fn lex_transitive(a: Seq<u8>, b: Seq<u8>, c: Seq<u8>)
    requires
        lex_less(a, b),
        lex_less(b, c),
    ensures
        lex_less(a, c),
    decreases a.len(),
{
    if a.len() > 0 && a[0] == b[0] && b[0] == c[0] {
        lex_transitive(a.skip(1), b.skip(1), c.skip(1));
    }
}

/// Compares two byte strings in lexicographic order.
pub fn order(a: &[u8], b: &[u8]) -> (r: Order)
    ensures
        r == Order::Before <==> lex_less(a@, b@),
        r == Order::Same <==> a@ == b@,
        r == Order::After <==> lex_less(b@, a@),
{
    let mut i: usize = 0;
    assert(a@.skip(0) =~= a@);
    assert(b@.skip(0) =~= b@);
    while i < a.len() && i < b.len()
        invariant
            i <= a.len(),
            i <= b.len(),
            forall|j: int| 0 <= j < i ==> a@[j] == b@[j],
            lex_less(a@, b@) == lex_less(a@.skip(i as int), b@.skip(i as int)),
            lex_less(b@, a@) == lex_less(b@.skip(i as int), a@.skip(i as int)),
        decreases a.len() - i,
    {
        assert(a@.skip(i as int)[0] == a@[i as int]);
        assert(b@.skip(i as int)[0] == b@[i as int]);
        assert(a@.skip(i as int).skip(1) =~= a@.skip(i + 1));
        assert(b@.skip(i as int).skip(1) =~= b@.skip(i + 1));
        if a[i] < b[i] {
            return Order::Before;
        }
        if a[i] > b[i] {
            return Order::After;
        }
        i += 1;
    }
    if a.len() < b.len() {
        Order::Before
    } else if a.len() > b.len() {
        Order::After
    } else {
        proof {
            lex_trichotomy(a@, b@);
        }
        assert(a@ =~= b@);
        Order::Same
    }
}

/// The byte strings of a list, as sequences.
pub open spec fn contents(list: Seq<Bytes>) -> Seq<Seq<u8>> {
    list.map_values(|b: Bytes| b@)
}

/// Whether no byte string of a list comes before an earlier one.
pub open spec fn lex_sorted(list: Seq<Seq<u8>>) -> bool {
    forall|i: int, j: int| 0 <= i < j < list.len() ==> !lex_less(#[trigger] list[j], #[trigger] list[i])
}

/// Puts one more byte string into a sorted list, after those that do not come after it.
fn insert_sorted(list: &mut Vec<Bytes>, item: Bytes)
    requires
        lex_sorted(contents(old(list)@)),
    ensures
        lex_sorted(contents(final(list)@)),
        contents(final(list)@).to_multiset() == contents(old(list)@).to_multiset().insert(item@),
        final(list)@.len() == old(list)@.len() + 1,
{
    let mut at: usize = list.len();
    while at > 0 && order(item.as_slice(), list[at - 1].as_slice()) == Order::Before
        invariant
            at <= list.len(),
            *list == *old(list),
            forall|j: int| at <= j < list.len() ==> lex_less(item@, (#[trigger] list@[j])@),
        decreases at,
    {
        at -= 1;
    }
    let ghost before = contents(list@);
    let ghost added = item@;
    proof {
        assert(forall|j: int| 0 <= j < list@.len() ==> before[j] == (#[trigger] list@[j])@);
        assert forall|j: int| 0 <= j < at implies !lex_less(added, #[trigger] before[j]) by {
            lex_trichotomy(added, before[at - 1]);
            if lex_less(added, before[j]) && j < at - 1 {
                lex_trichotomy(before[j], before[at - 1]);
                lex_trichotomy(added, before[j]);
                if before[j] != before[at - 1] {
                    lex_transitive(added, before[j], before[at - 1]);
                }
            }
        }
        assert forall|j: int| at <= j < list@.len() implies !lex_less(#[trigger] before[j], added) by {
            lex_trichotomy(added, before[j]);
            assert(lex_less(added, list@[j]@));
        }
    }
    list.insert(at, item);
    proof {
        let after = contents(list@);
        assert(after =~= before.insert(at as int, added));
        assert forall|i: int, j: int| 0 <= i < j < after.len() implies !lex_less(
            #[trigger] after[j],
            #[trigger] after[i],
        ) by {
            if i < at && j < at {
                assert(after[i] == before[i] && after[j] == before[j]);
            } else if i < at && j == at {
                assert(after[i] == before[i]);
            } else if i < at && j > at {
                assert(after[i] == before[i] && after[j] == before[j - 1]);
            } else if i == at {
                assert(after[j] == before[j - 1]);
            } else {
                assert(after[i] == before[i - 1] && after[j] == before[j - 1]);
            }
        }
        broadcast use vstd::seq_lib::group_to_multiset_ensures;

        before.to_multiset_ensures();
        assert(after.to_multiset() =~= before.to_multiset().insert(added));
    }
}

/// Sorts a list of byte strings in lexicographic order.
pub fn sort(list: Vec<Bytes>) -> (r: Vec<Bytes>)
    ensures
        lex_sorted(contents(r@)),
        contents(r@).to_multiset() == contents(list@).to_multiset(),
        r@.len() == list@.len(),
{
    let ghost all = list@;
    let mut sorted: Vec<Bytes> = Vec::new();
    proof {
        assert(contents(all.take(0)) =~= contents(sorted@));
    }
    for item in it: list
        invariant
            it.seq() == all,
            lex_sorted(contents(sorted@)),
            contents(sorted@).to_multiset() == contents(all.take(it.index() as int)).to_multiset(),
            sorted@.len() == it.index(),
    {
        let ghost n = it.index() as int;
        proof {
            assert(contents(all.take(n + 1)) =~= contents(all.take(n)).push(item@));
            broadcast use vstd::seq_lib::group_to_multiset_ensures;

            contents(all.take(n)).to_multiset_ensures();
        }
        insert_sorted(&mut sorted, item);
    }
    assert(all.take(all.len() as int) =~= all);
    sorted
}

/// Two sorted lists of the same byte strings are the same list.
pub proof fn sorted_lists_agree(a: Seq<Seq<u8>>, b: Seq<Seq<u8>>)
    requires
        lex_sorted(a),
        lex_sorted(b),
        a.to_multiset() == b.to_multiset(),
    ensures
        a == b,
{
    let leq = |x: Seq<u8>, y: Seq<u8>| !lex_less(y, x);
    assert(vstd::relations::total_ordering(leq)) by {
        assert forall|x: Seq<u8>| #[trigger] leq(x, x) by {
            lex_trichotomy(x, x);
        }
        assert forall|x: Seq<u8>, y: Seq<u8>| #[trigger] leq(x, y) && #[trigger] leq(y, x) implies x
            == y by {
            lex_trichotomy(x, y);
        }
        assert forall|x: Seq<u8>, y: Seq<u8>, z: Seq<u8>| #[trigger]
            leq(x, y) && #[trigger] leq(y, z) implies leq(x, z) by {
            lex_trichotomy(x, y);
            lex_trichotomy(y, z);
            lex_trichotomy(x, z);
            if lex_less(x, y) && lex_less(y, z) {
                lex_transitive(x, y, z);
            }
        }
        assert forall|x: Seq<u8>, y: Seq<u8>| #[trigger] leq(x, y) || #[trigger] leq(y, x) by {
            lex_trichotomy(x, y);
        }
    }
    assert(vstd::relations::sorted_by(a, leq));
    assert(vstd::relations::sorted_by(b, leq));
    vstd::seq_lib::lemma_sorted_unique(a, b, leq);
}

/// The first byte in which two strings differ decides their order: the smaller one comes first.
pub proof fn the_first_difference_decides(
    common: Seq<u8>,
    x: u8,
    y: u8,
    a: Seq<u8>,
    b: Seq<u8>,
)
    requires
        x < y,
    ensures
        lex_less(common.push(x) + a, common.push(y) + b),
    decreases common.len(),
{
    let left = common.push(x) + a;
    let right = common.push(y) + b;
    if common.len() > 0 {
        let rest = common.skip(1);
        the_first_difference_decides(rest, x, y, a, b);
        assert(left.skip(1) =~= rest.push(x) + a);
        assert(right.skip(1) =~= rest.push(y) + b);
    }
}

/// A string comes before every longer one that it begins.
pub proof fn a_prefix_comes_first(a: Seq<u8>, rest: Seq<u8>)
    requires
        rest.len() > 0,
    ensures
        lex_less(a, a + rest),
    decreases a.len(),
{
    if a.len() > 0 {
        a_prefix_comes_first(a.skip(1), rest);
        assert((a + rest).skip(1) =~= a.skip(1) + rest);
    }
}

/// In a sorted list every string but the first comes after the one before it or is the same.
pub proof fn sorted_lists_ascend(list: Seq<Seq<u8>>, i: int)
    requires
        lex_sorted(list),
        0 < i < list.len(),
    ensures
        list[i - 1] == list[i] || lex_less(list[i - 1], list[i]),
{
    lex_trichotomy(list[i - 1], list[i]);
}

/// A list holds its byte strings, each in its place.
pub proof fn contents_keep_their_places(list: Seq<Bytes>)
    ensures
        contents(list).len() == list.len(),
        forall|i: int| 0 <= i < list.len() ==> #[trigger] contents(list)[i] == list[i]@,
{
}

} // verus!
