//! # RTWins decoder of terminal ESC sequences to key/mouse codes

use crate::input::{
    InputEvent, InputInfo, Key, MouseEvent, MouseInfo, CharBuff, CR_CODE, DEL_CODE, ESC_CODE, GS_CODE, HT_CODE,
    KEY_MOD_ALT, KEY_MOD_CTRL, KEY_MOD_SHIFT, KEY_MOD_SPECIAL, LF_CODE, RS_CODE, US_CODE,
};
use crate::utils::{spec_utf8_char_width, utf8_char_width};
use core::cmp::Ordering;
use vstd::prelude::*;
use vstd::string::StringSliceAdditionalSpecFns;

verus! {

/// Queue of bytes received from the terminal
pub type InputQue = Vec<u8>;

// -----------------------------------------------------------------------------
// Byte sequence ordering

/// `p` is a prefix of `s`
pub open spec fn is_prefix(p: Seq<u8>, s: Seq<u8>) -> bool {
    p.len() <= s.len() && s.take(p.len() as int) == p
}

/// `i` is the position of the first byte where `a` and `b` differ
pub open spec fn diff_at(a: Seq<u8>, b: Seq<u8>, i: int) -> bool {
    0 <= i < a.len() && i < b.len() && a.take(i) == b.take(i) && a[i] != b[i]
}

/// Lexicographic order of byte sequences, as `strcmp` orders them:
/// `a` comes before `b` when it is smaller at the first difference, or is a proper prefix of `b`
pub open spec fn lex_less(a: Seq<u8>, b: Seq<u8>) -> bool {
    ||| exists|i: int| #[trigger] diff_at(a, b, i) && a[i] < b[i]
    ||| (is_prefix(a, b) && a.len() < b.len())
}

/// The ordering of two byte sequences
pub open spec fn lex_order(a: Seq<u8>, b: Seq<u8>) -> Ordering {
    if lex_less(a, b) {
        Ordering::Less
    } else if a == b {
        Ordering::Equal
    } else {
        Ordering::Greater
    }
}

/// When neither sequence is a prefix of the other and they agree up to `k`,
/// they differ at some first position at or after `k`
proof fn lemma_first_diff_from(a: Seq<u8>, b: Seq<u8>, k: int) -> (i: int)
    requires
        !is_prefix(a, b),
        !is_prefix(b, a),
        0 <= k <= a.len(),
        k <= b.len(),
        a.take(k) == b.take(k),
    ensures
        diff_at(a, b, i),
    decreases a.len() - k,
{
    if k == a.len() {
        assert(b.take(a.len() as int) =~= a.take(k));
        assert(a.take(k) =~= a);
        0
    } else if k == b.len() {
        assert(a.take(b.len() as int) =~= b.take(k));
        assert(b.take(k) =~= b);
        0
    } else if a[k] != b[k] {
        k
    } else {
        assert(a.take(k + 1) =~= a.take(k).push(a[k]));
        assert(b.take(k + 1) =~= b.take(k).push(b[k]));
        lemma_first_diff_from(a, b, k + 1)
    }
}

/// When neither sequence is a prefix of the other, they differ at some first position
pub proof fn lemma_first_diff(a: Seq<u8>, b: Seq<u8>) -> (i: int)
    requires
        !is_prefix(a, b),
        !is_prefix(b, a),
    ensures
        diff_at(a, b, i),
{
    assert(a.take(0) =~= b.take(0));
    lemma_first_diff_from(a, b, 0)
}

/// Exactly one of `a < b`, `a == b`, `b < a` holds
pub proof fn lemma_lex_trichotomy(a: Seq<u8>, b: Seq<u8>)
    ensures
        lex_less(a, b) || a == b || lex_less(b, a),
        !(lex_less(a, b) && lex_less(b, a)),
        !(lex_less(a, b) && a == b),
{
    if is_prefix(a, b) && is_prefix(b, a) {
        assert(a =~= b);
    } else if is_prefix(a, b) {
        assert(a.len() < b.len()) by {
            if a.len() == b.len() {
                assert(b.take(a.len() as int) =~= b);
            }
        }
    } else if is_prefix(b, a) {
        assert(b.len() < a.len()) by {
            if a.len() == b.len() {
                assert(a.take(b.len() as int) =~= a);
            }
        }
    } else {
        let i = lemma_first_diff(a, b);
        assert(diff_at(b, a, i));
    }
    // uniqueness of the first difference
    assert forall|i: int, j: int| diff_at(a, b, i) && diff_at(a, b, j) implies i == j by {
        if i < j {
            assert(a.take(j)[i] == b.take(j)[i]);
        } else if j < i {
            assert(a.take(i)[j] == b.take(i)[j]);
        }
    }
    assert forall|i: int, j: int| diff_at(a, b, i) && diff_at(b, a, j) implies i == j by {
        if i < j {
            assert(a.take(j)[i] == b.take(j)[i]);
        } else if j < i {
            assert(a.take(i)[j] == b.take(i)[j]);
        }
    }
    assert forall|i: int| diff_at(a, b, i) implies !is_prefix(a, b) && !is_prefix(b, a) by {
        if is_prefix(a, b) {
            assert(b.take(a.len() as int)[i] == a[i]);
        }
        if is_prefix(b, a) {
            assert(a.take(b.len() as int)[i] == b[i]);
        }
    }
}

/// The lexicographic order is transitive
pub proof fn lemma_lex_transitive(a: Seq<u8>, b: Seq<u8>, c: Seq<u8>)
    requires
        lex_less(a, b),
        lex_less(b, c),
    ensures
        lex_less(a, c),
{
    if exists|i: int| #[trigger] diff_at(a, b, i) && a[i] < b[i] {
        let i = choose|i: int| #[trigger] diff_at(a, b, i) && a[i] < b[i];
        if exists|j: int| #[trigger] diff_at(b, c, j) && b[j] < c[j] {
            let j = choose|j: int| #[trigger] diff_at(b, c, j) && b[j] < c[j];
            let k = if i < j { i } else { j };
            assert(a.take(k) =~= c.take(k)) by {
                assert(a.take(k) =~= a.take(i).take(k));
                assert(b.take(k) =~= b.take(i).take(k));
                assert(b.take(k) =~= b.take(j).take(k));
                assert(c.take(k) =~= c.take(j).take(k));
            }
            if i < j {
                assert(b.take(j)[i] == c.take(j)[i]);
            } else if j < i {
                assert(a.take(i)[j] == b.take(i)[j]);
            }
            assert(diff_at(a, c, k));
        } else {
            // b is a proper prefix of c
            assert(c.take(b.len() as int)[i] == b[i]);
            assert(a.take(i) =~= c.take(i)) by {
                assert(c.take(i) =~= c.take(b.len() as int).take(i));
            }
            assert(diff_at(a, c, i));
        }
    } else {
        // a is a proper prefix of b
        if exists|j: int| #[trigger] diff_at(b, c, j) && b[j] < c[j] {
            let j = choose|j: int| #[trigger] diff_at(b, c, j) && b[j] < c[j];
            if j < a.len() {
                assert(b.take(a.len() as int)[j] == a[j]);
                assert(a.take(j) =~= c.take(j)) by {
                    assert(a.take(j) =~= b.take(a.len() as int).take(j));
                    assert(b.take(j) =~= b.take(a.len() as int).take(j));
                }
                assert(diff_at(a, c, j));
            } else {
                assert(c.take(a.len() as int) =~= a) by {
                    assert(c.take(a.len() as int) =~= c.take(j).take(a.len() as int));
                    assert(b.take(a.len() as int) =~= b.take(j).take(a.len() as int));
                }
            }
        } else {
            assert(c.take(a.len() as int) =~= a) by {
                assert(c.take(a.len() as int) =~= c.take(b.len() as int).take(a.len() as int));
                assert(b.take(a.len() as int) =~= a);
            }
        }
    }
}

/// Relation of two byte slices: whether one begins with the other, and their order as -1, 0 or 1
fn byte_seq_relation(left: &[u8], right: &[u8]) -> (r: (bool, i8))
    ensures
        r.0 == (is_prefix(left@, right@) || is_prefix(right@, left@)),
        r.1 == -1 <==> lex_less(left@, right@),
        r.1 == 0 <==> left@ == right@,
        r.1 == 1 <==> lex_less(right@, left@),
        r.1 == -1 || r.1 == 0 || r.1 == 1,
{
    proof {
        lemma_lex_trichotomy(left@, right@);
    }
    let commn_len = if left.len() < right.len() { left.len() } else { right.len() };
    let mut i: usize = 0;
    assert(left@.take(0) =~= right@.take(0));
    while i < commn_len
        invariant
            i <= commn_len,
            commn_len == left@.len() || commn_len == right@.len(),
            commn_len <= left@.len(),
            commn_len <= right@.len(),
            left@.take(i as int) == right@.take(i as int),
        decreases commn_len - i,
    {
        if left[i] != right[i] {
            assert(diff_at(left@, right@, i as int));
            assert(diff_at(right@, left@, i as int));
            proof {
                assert(!is_prefix(left@, right@)) by {
                    if is_prefix(left@, right@) {
                        assert(right@.take(left@.len() as int)[i as int] == left@[i as int]);
                    }
                }
                assert(!is_prefix(right@, left@)) by {
                    if is_prefix(right@, left@) {
                        assert(left@.take(right@.len() as int)[i as int] == right@[i as int]);
                    }
                }
            }
            proof {
                lemma_lex_trichotomy(left@, right@);
            }
            if left[i] < right[i] {
                assert(lex_less(left@, right@));
                return (false, -1);
            } else {
                assert(lex_less(right@, left@));
                return (false, 1);
            }
        }
        assert(left@.take(i + 1) =~= left@.take(i as int).push(left@[i as int]));
        assert(right@.take(i + 1) =~= right@.take(i as int).push(right@[i as int]));
        i = i + 1;
    }
    if left.len() == right.len() {
        assert(left@ =~= left@.take(i as int));
        assert(right@ =~= right@.take(i as int));
        (true, 0)
    } else if left.len() < right.len() {
        assert(left@ =~= left@.take(i as int));
        (true, -1)
    } else {
        assert(right@ =~= right@.take(i as int));
        (true, 1)
    }
}

/// Compares two byte slices using method similar to strcmp;
/// `.0 == true` - one of them begins with the other, but latter they may differ in length
pub fn seq_cmp(left: &[u8], right: &[u8]) -> (r: (bool, Ordering))
    ensures
        r.0 == (is_prefix(left@, right@) || is_prefix(right@, left@)),
        r.1 == lex_order(left@, right@),
{
    let (pref, ord) = byte_seq_relation(left, right);
    if ord < 0 {
        (pref, Ordering::Less)
    } else if ord == 0 {
        (pref, Ordering::Equal)
    } else {
        (pref, Ordering::Greater)
    }
}

// -----------------------------------------------------------------------------
// Key maps

/// ESC sequence definition
#[derive(Copy, Clone, Debug)]
pub struct SeqMap {
    /// ESC sequence, without the leading ESC
    pub seq: &'static str,
    /// keyboard key name mapped to sequence
    pub name: &'static str,
    /// keyboard special key code
    pub key: Key,
    /// key modifiers, like KEY_MOD_CTRL
    pub kmod: u8,
}

impl SeqMap {
    /// Returns default object
    pub fn cdeflt() -> (r: Self)
        ensures
            r.seq@.len() == 0,
            r.name@.len() == 0,
            r.key == Key::NoKey,
            r.kmod == 0,
    {
        proof {
            reveal_strlit("");
        }
        Self { seq: "", name: "", key: Key::NoKey, kmod: 0 }
    }
}

/// The bytes of the entry's sequence
pub open spec fn seq_bytes(m: SeqMap) -> Seq<u8> {
    m.seq.spec_bytes()
}

/// Compares two SeqMap using method similar to strcmp
pub fn seqmap_cmp(left: &SeqMap, right: &SeqMap) -> (r: Ordering)
    ensures
        r == lex_order(seq_bytes(*left), seq_bytes(*right)),
{
    seq_cmp(left.seq.as_bytes(), right.seq.as_bytes()).1
}

/// Entries come in non-decreasing order of their sequences
pub open spec fn is_sorted(map: Seq<SeqMap>) -> bool {
    forall|i: int, j: int|
        0 <= i < j < map.len() ==> !lex_less(#[trigger] seq_bytes(map[j]), #[trigger] seq_bytes(map[i]))
}

/// No entry's sequence is a prefix of another entry's sequence (so no two are equal either)
pub open spec fn is_prefix_free(map: Seq<SeqMap>) -> bool {
    forall|i: int, j: int|
        0 <= i < map.len() && 0 <= j < map.len() && i != j ==> !is_prefix(
            #[trigger] seq_bytes(map[i]),
            #[trigger] seq_bytes(map[j]),
        )
}

/// Sorts the map by the entries' sequences
pub fn sort_seq(map: &mut Vec<SeqMap>)
    ensures
        final(map)@.to_multiset() == old(map)@.to_multiset(),
        final(map)@.len() == old(map)@.len(),
        is_sorted(final(map)@),
{
    broadcast use vstd::seq_lib::group_to_multiset_ensures;
    broadcast use vstd::multiset::group_multiset_axioms;

    let n = map.len();
    if n > 1 {
        let mut l: usize = 0;
        while l < n - 1
            invariant
                n == map@.len(),
                n > 1,
                l <= n - 1,
                map@.to_multiset() == old(map)@.to_multiset(),
                forall|i: int, j: int|
                    0 <= i < l && i < j < n ==> !lex_less(
                        #[trigger] seq_bytes(map@[j]),
                        #[trigger] seq_bytes(map@[i]),
                    ),
            decreases n - 1 - l,
        {
            let mut r: usize = l + 1;
            while r < n
                invariant
                    n == map@.len(),
                    l < n - 1,
                    l + 1 <= r <= n,
                    map@.to_multiset() == old(map)@.to_multiset(),
                    forall|i: int, j: int|
                        0 <= i < l && i < j < n ==> !lex_less(
                            #[trigger] seq_bytes(map@[j]),
                            #[trigger] seq_bytes(map@[i]),
                        ),
                    forall|k: int|
                        l < k < r ==> !lex_less(
                            #[trigger] seq_bytes(map@[k]),
                            seq_bytes(map@[l as int]),
                        ),
                decreases n - r,
            {
                if byte_seq_relation(map[l].seq.as_bytes(), map[r].seq.as_bytes()).1 > 0 {
                    let ghost prev = map@;
                    let tmp = map[l];
                    let tr = map[r];
                    map.set(l, tr);
                    map.set(r, tmp);
                    proof {
                        lemma_lex_trichotomy(seq_bytes(prev[l as int]), seq_bytes(prev[r as int]));
                        let m1 = prev.update(l as int, prev[r as int]);
                        assert(map@ == m1.update(r as int, prev[l as int]));
                        vstd::seq_lib::to_multiset_update(prev, l as int, prev[r as int]);
                        vstd::seq_lib::to_multiset_update(m1, r as int, prev[l as int]);
                        assert(m1.to_multiset() == prev.to_multiset().insert(prev[r as int]).remove(prev[l as int]));
                        assert(m1[r as int] == prev[r as int]);
                        assert(map@.to_multiset() == m1.to_multiset().insert(prev[l as int]).remove(prev[r as int]));
                        assert(prev.contains(prev[l as int]));
                        assert(m1.contains(prev[l as int]) || true);
                        vstd::seq_lib::to_multiset_contains(prev, prev[l as int]);
                        vstd::seq_lib::to_multiset_contains(m1, prev[r as int]);
                        assert(m1[l as int] == prev[r as int]);
                        assert(m1.contains(prev[r as int]));
                        assert(map@.to_multiset() =~= prev.to_multiset());
                        assert forall|k: int|
                            l < k < r + 1 implies !lex_less(
                                #[trigger] seq_bytes(map@[k]),
                                seq_bytes(map@[l as int]),
                            ) by {
                            if k < r {
                                lemma_lex_trichotomy(seq_bytes(prev[k]), seq_bytes(prev[l as int]));
                                if lex_less(seq_bytes(prev[k]), seq_bytes(prev[r as int])) {
                                    lemma_lex_transitive(
                                        seq_bytes(prev[k]),
                                        seq_bytes(prev[r as int]),
                                        seq_bytes(prev[l as int]),
                                    );
                                }
                                lemma_lex_trichotomy(seq_bytes(prev[k]), seq_bytes(prev[r as int]));
                            } else {
                                lemma_lex_trichotomy(seq_bytes(prev[l as int]), seq_bytes(prev[r as int]));
                            }
                        }
                        assert forall|i: int, j: int|
                            0 <= i < l && i < j < n implies !lex_less(
                                #[trigger] seq_bytes(map@[j]),
                                #[trigger] seq_bytes(map@[i]),
                            ) by {
                            if j == l as int {
                                assert(!lex_less(seq_bytes(prev[r as int]), seq_bytes(prev[i])));
                            } else if j == r as int {
                                assert(!lex_less(seq_bytes(prev[l as int]), seq_bytes(prev[i])));
                            } else {
                                assert(!lex_less(seq_bytes(prev[j]), seq_bytes(prev[i])));
                            }
                        }
                    }
                } else {
                    proof {
                        lemma_lex_trichotomy(seq_bytes(map@[l as int]), seq_bytes(map@[r as int]));
                    }
                }
                r = r + 1;
            }
            l = l + 1;
        }
    }
}

/// In a sorted map, a prefix relation between two entries implies one between the
/// first of them and its successor
proof fn lemma_sorted_prefix_adjacent(map: Seq<SeqMap>, i: int, j: int)
    requires
        is_sorted(map),
        0 <= i < j < map.len(),
        is_prefix(seq_bytes(map[i]), seq_bytes(map[j])),
    ensures
        is_prefix(seq_bytes(map[i]), seq_bytes(map[i + 1])),
{
    let a = seq_bytes(map[i]);
    let b = seq_bytes(map[i + 1]);
    let c = seq_bytes(map[j]);
    if j > i + 1 {
        // a <= b <= c and a is a prefix of c, so a is a prefix of b
        lemma_lex_trichotomy(a, b);
        lemma_lex_trichotomy(b, c);
        if !is_prefix(a, b) {
            if is_prefix(b, a) {
                // b is a proper prefix of a, so b < a
                assert(b.len() < a.len()) by {
                    if b.len() == a.len() {
                        assert(a.take(b.len() as int) =~= a);
                    }
                }
            } else {
                let k = lemma_first_diff(a, b);
                assert(c.take(a.len() as int)[k] == a[k]);
                assert(c.take(k) =~= a.take(k)) by {
                    assert(c.take(k) =~= c.take(a.len() as int).take(k));
                }
                assert(diff_at(a, b, k));
                if a[k] < b[k] {
                    assert(diff_at(c, b, k));
                    assert(lex_less(c, b));
                } else {
                    assert(diff_at(b, a, k));
                    assert(lex_less(b, a));
                }
            }
        }
    }
}

/// A sorted map in which no entry is a prefix of its successor is prefix-free
proof fn lemma_sorted_adjacent_prefix_free(map: Seq<SeqMap>)
    requires
        is_sorted(map),
        forall|i: int|
            0 <= i < map.len() - 1 ==> !is_prefix(
                #[trigger] seq_bytes(map[i]),
                seq_bytes(map[i + 1]),
            ),
    ensures
        is_prefix_free(map),
{
    assert forall|i: int, j: int|
        0 <= i < map.len() && 0 <= j < map.len() && i != j implies !is_prefix(
            #[trigger] seq_bytes(map[i]),
            #[trigger] seq_bytes(map[j]),
        ) by {
        if i < j {
            if is_prefix(seq_bytes(map[i]), seq_bytes(map[j])) {
                lemma_sorted_prefix_adjacent(map, i, j);
            }
        } else {
            if is_prefix(seq_bytes(map[i]), seq_bytes(map[j])) {
                // j < i and map[i] <= ... a prefix of map[j] that sorts after it must equal it
                lemma_lex_trichotomy(seq_bytes(map[i]), seq_bytes(map[j]));
                assert(!lex_less(seq_bytes(map[i]), seq_bytes(map[j])));
                assert(seq_bytes(map[i]) == seq_bytes(map[j]));
                lemma_sorted_prefix_adjacent(map, j, i);
                if j + 1 == i {
                } else {
                    // map[j] <= map[j+1] <= map[i] == map[j]
                    lemma_lex_trichotomy(seq_bytes(map[j]), seq_bytes(map[j + 1]));
                    lemma_lex_trichotomy(seq_bytes(map[j + 1]), seq_bytes(map[i]));
                    assert(seq_bytes(map[j + 1]) == seq_bytes(map[j]));
                    assert(seq_bytes(map[j + 1]).take(seq_bytes(map[j]).len() as int) =~= seq_bytes(map[j]));
                }
            }
        }
    }
}

/// Checks that no entry of a sorted map is a prefix of its successor
pub fn check_prefix_free(map: &Vec<SeqMap>) -> (r: bool)
    requires
        is_sorted(map@),
    ensures
        r ==> is_prefix_free(map@),
        !r ==> !is_prefix_free(map@),
{
    let n = map.len();
    let mut i: usize = 0;
    while n > 0 && i < n - 1
        invariant
            n == map@.len(),
            i <= n,
            is_sorted(map@),
            forall|k: int|
                0 <= k < i && k < map@.len() - 1 ==> !is_prefix(
                    #[trigger] seq_bytes(map@[k]),
                    seq_bytes(map@[k + 1]),
                ),
        decreases n - i,
    {
        let (pref, _) = byte_seq_relation(map[i].seq.as_bytes(), map[i + 1].seq.as_bytes());
        if pref {
            proof {
                if !is_prefix(seq_bytes(map@[i as int]), seq_bytes(map@[i + 1])) {
                    // the successor is a prefix of the entry: it cannot sort after it unless equal
                    lemma_lex_trichotomy(seq_bytes(map@[i as int]), seq_bytes(map@[i + 1]));
                    let a = seq_bytes(map@[i as int]);
                    let b = seq_bytes(map@[i + 1]);
                    assert(b.len() < a.len()) by {
                        if b.len() >= a.len() {
                            assert(a.take(b.len() as int) =~= a);
                        }
                    }
                    assert(lex_less(b, a));
                }
            }
            return false;
        }
        i = i + 1;
    }
    proof {
        lemma_sorted_adjacent_prefix_free(map@);
    }
    true
}

/// The entry matches the input: its sequence is a prefix of the input
pub open spec fn entry_matches(m: SeqMap, input: Seq<u8>) -> bool {
    is_prefix(seq_bytes(m), input)
}

/// `i` is the index of the first entry of the map that matches the input
pub open spec fn first_match_at(map: Seq<SeqMap>, input: Seq<u8>, i: int) -> bool {
    &&& 0 <= i < map.len()
    &&& entry_matches(map[i], input)
    &&& forall|j: int| 0 <= j < i ==> !entry_matches(#[trigger] map[j], input)
}

/// The first entry of the map matching the input, if there is one; inputs shorter than two
/// bytes or beginning with NUL match nothing
pub open spec fn spec_lookup(map: Seq<SeqMap>, input: Seq<u8>) -> Option<SeqMap> {
    if input.len() < 2 || input[0] == 0 {
        None
    } else if exists|i: int| first_match_at(map, input, i) {
        Some(map[choose|i: int| first_match_at(map, input, i)])
    } else {
        None
    }
}

/// When one sequence begins with the other and the entry is not longer than the input,
/// the entry is a prefix of the input
proof fn lemma_prefix_by_len(x: Seq<u8>, e: Seq<u8>)
    requires
        is_prefix(x, e) || is_prefix(e, x),
        e.len() <= x.len(),
    ensures
        is_prefix(e, x),
{
    if is_prefix(x, e) {
        assert(e.take(x.len() as int) =~= e);
        assert(x.take(e.len() as int) =~= x);
    }
}

/// The found entry reference and the specified entry agree
pub open spec fn same_entry(r: Option<&SeqMap>, e: Option<SeqMap>) -> bool {
    match (r, e) {
        (Some(a), Some(b)) => *a == b,
        (None, None) => true,
        _ => false,
    }
}

/// Two entries matching the same input are the same entry in a prefix-free map
proof fn lemma_match_unique(map: Seq<SeqMap>, input: Seq<u8>, i: int, j: int)
    requires
        is_prefix_free(map),
        0 <= i < map.len(),
        0 <= j < map.len(),
        entry_matches(map[i], input),
        entry_matches(map[j], input),
    ensures
        i == j,
{
    let a = seq_bytes(map[i]);
    let b = seq_bytes(map[j]);
    if i != j {
        if a.len() <= b.len() {
            assert(b.take(a.len() as int) =~= input.take(b.len() as int).take(a.len() as int));
            assert(input.take(a.len() as int) =~= input.take(b.len() as int).take(a.len() as int));
            assert(is_prefix(a, b));
        } else {
            assert(a.take(b.len() as int) =~= input.take(a.len() as int).take(b.len() as int));
            assert(input.take(b.len() as int) =~= input.take(a.len() as int).take(b.len() as int));
            assert(is_prefix(b, a));
        }
    }
}

/// Linear search of the first entry matching the input
fn seq_linear_search<'a>(sequence: &[u8], map: &'a [SeqMap]) -> (r: Option<&'a SeqMap>)
    requires
        sequence@.len() >= 2,
        sequence@[0] != 0,
    ensures
        same_entry(r, spec_lookup(map@, sequence@)),
{
    let mut i: usize = 0;
    while i < map.len()
        invariant
            i <= map@.len(),
            sequence@.len() >= 2,
            sequence@[0] != 0,
            forall|j: int| 0 <= j < i ==> !entry_matches(#[trigger] map@[j], sequence@),
        decreases map@.len() - i,
    {
        let (pref, _) = byte_seq_relation(sequence, map[i].seq.as_bytes());
        if pref && map[i].seq.as_bytes().len() <= sequence.len() {
            proof {
                lemma_prefix_by_len(sequence@, seq_bytes(map@[i as int]));
                assert(first_match_at(map@, sequence@, i as int));
                let k = choose|k: int| first_match_at(map@, sequence@, k);
                if k < i {
                    assert(!entry_matches(map@[k], sequence@));
                } else if i < k {
                    assert(!entry_matches(map@[i as int], sequence@));
                }
                assert(k == i as int);
                assert(spec_lookup(map@, sequence@) == Some(map@[i as int]));
            }
            return Some(&map[i]);
        }
        proof {
            if entry_matches(map@[i as int], sequence@) {
                assert(is_prefix(seq_bytes(map@[i as int]), sequence@));
            }
        }
        i = i + 1;
    }
    None
}

/// Fast binary search of key-sequence `sequence` in sorted `map`.
/// Returns the entry whose sequence begins the input, None otherwise.
pub fn seq_binary_search<'a>(sequence: &[u8], map: &'a [SeqMap]) -> (r: Option<&'a SeqMap>)
    ensures
        r matches Some(m) ==> map@.contains(*m) && entry_matches(*m, sequence@),
        r matches Some(m) ==> sequence@.len() >= 2 && sequence@[0] != 0,
        is_sorted(map@) && is_prefix_free(map@) ==> same_entry(r, spec_lookup(map@, sequence@)),
{
    if sequence.len() < 2 || sequence[0] == 0 {
        return None;
    }
    // search in [lo, hi)
    let mut lo: usize = 0;
    let mut hi: usize = map.len();
    while lo < hi
        invariant
            lo <= hi <= map@.len(),
            sequence@.len() >= 2,
            sequence@[0] != 0,
            is_sorted(map@) && is_prefix_free(map@) ==> forall|j: int|
                (0 <= j < lo || hi <= j < map@.len()) ==> !entry_matches(
                    #[trigger] map@[j],
                    sequence@,
                ),
        decreases hi - lo,
    {
        let mid = lo + (hi - lo) / 2;
        let (startswith, order) = byte_seq_relation(sequence, map[mid].seq.as_bytes());
        if startswith && map[mid].seq.as_bytes().len() <= sequence.len() {
            proof {
                lemma_prefix_by_len(sequence@, seq_bytes(map@[mid as int]));
                assert(entry_matches(map@[mid as int], sequence@));
                assert(map@.contains(map@[mid as int]));
                if is_sorted(map@) && is_prefix_free(map@) {
                    assert(first_match_at(map@, sequence@, mid as int)) by {
                        assert forall|j: int| 0 <= j < mid implies !entry_matches(
                            #[trigger] map@[j],
                            sequence@,
                        ) by {
                            if entry_matches(map@[j], sequence@) {
                                lemma_match_unique(map@, sequence@, j, mid as int);
                            }
                        }
                    }
                    let k = choose|k: int| first_match_at(map@, sequence@, k);
                    if k != mid as int {
                        lemma_match_unique(map@, sequence@, k, mid as int);
                    }
                }
            }
            return Some(&map[mid]);
        }
        let ghost e = seq_bytes(map@[mid as int]);
        let ghost x = sequence@;
        if order > 0 {
            proof {
                if is_sorted(map@) && is_prefix_free(map@) {
                    // every matching entry is <= x; entries up to mid are <= e < x and do not match
                    assert forall|j: int| 0 <= j <= mid implies !entry_matches(
                        #[trigger] map@[j],
                        sequence@,
                    ) by {
                        lemma_entry_below(map@, x, j, mid as int);
                    }
                }
            }
            lo = mid + 1;
        } else {
            proof {
                if is_sorted(map@) && is_prefix_free(map@) {
                    assert forall|j: int| mid <= j < map@.len() implies !entry_matches(
                        #[trigger] map@[j],
                        sequence@,
                    ) by {
                        lemma_entry_above(map@, x, j, mid as int);
                    }
                }
            }
            hi = mid;
        }
    }
    proof {
        if is_sorted(map@) && is_prefix_free(map@) {
            if exists|i: int| first_match_at(map@, sequence@, i) {
                let i = choose|i: int| first_match_at(map@, sequence@, i);
                assert(!entry_matches(map@[i], sequence@));
            }
        }
    }
    None
}

/// A matching entry `m` is not after the input in the order: it is a prefix of it
proof fn lemma_match_le(m: Seq<u8>, x: Seq<u8>)
    requires
        is_prefix(m, x),
    ensures
        !lex_less(x, m),
{
    lemma_lex_trichotomy(m, x);
    if m.len() < x.len() {
        assert(lex_less(m, x));
    } else {
        assert(x.take(m.len() as int) =~= x);
    }
}

/// Below a probe that sorts before the input (and does not match it), nothing matches
proof fn lemma_entry_below(map: Seq<SeqMap>, x: Seq<u8>, j: int, mid: int)
    requires
        is_sorted(map),
        is_prefix_free(map),
        0 <= j <= mid < map.len(),
        lex_less(seq_bytes(map[mid]), x),
        !(is_prefix(seq_bytes(map[mid]), x) && seq_bytes(map[mid]).len() <= x.len()),
    ensures
        !entry_matches(map[j], x),
{
    let e = seq_bytes(map[mid]);
    let m = seq_bytes(map[j]);
    assert(exists|k: int| #[trigger] diff_at(e, x, k) && e[k] < x[k]);
    let k = choose|k: int| #[trigger] diff_at(e, x, k) && e[k] < x[k];
    if entry_matches(map[j], x) && j < mid {
        assert(!lex_less(e, m));
        if m.len() > k {
            assert(m.take(k) =~= x.take(k)) by {
                assert(m.take(k) =~= x.take(m.len() as int).take(k));
                assert(x.take(k) =~= x.take(m.len() as int).take(k));
            }
            assert(x.take(m.len() as int)[k] == m[k]);
            assert(diff_at(e, m, k));
            assert(lex_less(e, m));
        } else {
            // m is a prefix of e, which the map does not allow
            assert(e.take(m.len() as int) =~= m) by {
                assert(e.take(m.len() as int) =~= e.take(k).take(m.len() as int));
                assert(x.take(m.len() as int) =~= x.take(k).take(m.len() as int));
            }
            assert(is_prefix(m, e));
        }
    }
}

/// From a probe that sorts after the input (and does not match it) on, nothing matches
proof fn lemma_entry_above(map: Seq<SeqMap>, x: Seq<u8>, j: int, mid: int)
    requires
        is_sorted(map),
        0 <= mid <= j < map.len(),
        !lex_less(seq_bytes(map[mid]), x),
        !(is_prefix(seq_bytes(map[mid]), x) && seq_bytes(map[mid]).len() <= x.len()),
    ensures
        !entry_matches(map[j], x),
{
    let e = seq_bytes(map[mid]);
    let m = seq_bytes(map[j]);
    lemma_lex_trichotomy(x, e);
    if entry_matches(map[j], x) {
        lemma_match_le(m, x);
        if j > mid {
            assert(!lex_less(m, e));
            lemma_lex_trichotomy(m, e);
        }
        // e <= m <= x, and x <= e: so e == x, which matches
        if lex_less(x, e) {
            if lex_less(e, m) {
                lemma_lex_transitive(x, e, m);
                lemma_lex_trichotomy(x, m);
            } else {
                lemma_lex_trichotomy(x, m);
            }
        } else {
            assert(x == e);
            assert(x.take(x.len() as int) =~= x);
        }
    }
}

/// Table of the ESC sequences (without the leading ESC) and the keys they encode
pub open spec fn esc_keys_table() -> Seq<SeqMap> {
    seq![
        SeqMap { seq: "[A", name: "Up", key: Key::Up, kmod: KEY_MOD_SPECIAL },
        SeqMap { seq: "[B", name: "Down", key: Key::Down, kmod: KEY_MOD_SPECIAL },
        SeqMap { seq: "[C", name: "Right", key: Key::Right, kmod: KEY_MOD_SPECIAL },
        SeqMap { seq: "[D", name: "Left", key: Key::Left, kmod: KEY_MOD_SPECIAL },
        SeqMap { seq: "[F", name: "End", key: Key::End, kmod: KEY_MOD_SPECIAL },
        SeqMap { seq: "[H", name: "Home", key: Key::Home, kmod: KEY_MOD_SPECIAL },
        SeqMap { seq: "[1~", name: "Home", key: Key::Home, kmod: KEY_MOD_SPECIAL },
        SeqMap { seq: "[2~", name: "Ins", key: Key::Insert, kmod: KEY_MOD_SPECIAL },
        SeqMap { seq: "[3~", name: "Del", key: Key::Delete, kmod: KEY_MOD_SPECIAL },
        SeqMap { seq: "[4~", name: "End", key: Key::End, kmod: KEY_MOD_SPECIAL },
        SeqMap { seq: "[5~", name: "PgUp", key: Key::PgUp, kmod: KEY_MOD_SPECIAL },
        SeqMap { seq: "[6~", name: "PgDown", key: Key::PgDown, kmod: KEY_MOD_SPECIAL },
        SeqMap { seq: "[7~", name: "Home", key: Key::Home, kmod: KEY_MOD_SPECIAL },
        SeqMap { seq: "[8~", name: "End", key: Key::End, kmod: KEY_MOD_SPECIAL },
        SeqMap { seq: "OP", name: "F1", key: Key::F1, kmod: KEY_MOD_SPECIAL },
        SeqMap { seq: "OQ", name: "F2", key: Key::F2, kmod: KEY_MOD_SPECIAL },
        SeqMap { seq: "OR", name: "F3", key: Key::F3, kmod: KEY_MOD_SPECIAL },
        SeqMap { seq: "OS", name: "F4", key: Key::F4, kmod: KEY_MOD_SPECIAL },
        SeqMap { seq: "[11~", name: "F1", key: Key::F1, kmod: KEY_MOD_SPECIAL },
        SeqMap { seq: "[12~", name: "F2", key: Key::F2, kmod: KEY_MOD_SPECIAL },
        SeqMap { seq: "[13~", name: "F3", key: Key::F3, kmod: KEY_MOD_SPECIAL },
        SeqMap { seq: "[14~", name: "F4", key: Key::F4, kmod: KEY_MOD_SPECIAL },
        SeqMap { seq: "[15~", name: "F5", key: Key::F5, kmod: KEY_MOD_SPECIAL },
        SeqMap { seq: "[17~", name: "F6", key: Key::F6, kmod: KEY_MOD_SPECIAL },
        SeqMap { seq: "[18~", name: "F7", key: Key::F7, kmod: KEY_MOD_SPECIAL },
        SeqMap { seq: "[19~", name: "F8", key: Key::F8, kmod: KEY_MOD_SPECIAL },
        SeqMap { seq: "[20~", name: "F9", key: Key::F9, kmod: KEY_MOD_SPECIAL },
        SeqMap { seq: "[21~", name: "F10", key: Key::F10, kmod: KEY_MOD_SPECIAL },
        SeqMap { seq: "[23~", name: "F11", key: Key::F11, kmod: KEY_MOD_SPECIAL },
        SeqMap { seq: "[24~", name: "F12", key: Key::F12, kmod: KEY_MOD_SPECIAL },
        SeqMap { seq: "[1;2A", name: "S-Up", key: Key::Up, kmod: KEY_MOD_SPECIAL | KEY_MOD_SHIFT },
        SeqMap { seq: "[1;2B", name: "S-Down", key: Key::Down, kmod: KEY_MOD_SPECIAL | KEY_MOD_SHIFT },
        SeqMap { seq: "[1;2C", name: "S-Right", key: Key::Right, kmod: KEY_MOD_SPECIAL | KEY_MOD_SHIFT },
        SeqMap { seq: "[1;2D", name: "S-Left", key: Key::Left, kmod: KEY_MOD_SPECIAL | KEY_MOD_SHIFT },
        SeqMap { seq: "[1;2F", name: "S-End", key: Key::End, kmod: KEY_MOD_SPECIAL | KEY_MOD_SHIFT },
        SeqMap { seq: "[1;2H", name: "S-Home", key: Key::Home, kmod: KEY_MOD_SPECIAL | KEY_MOD_SHIFT },
        SeqMap { seq: "[1;2~", name: "S-Home", key: Key::Home, kmod: KEY_MOD_SPECIAL | KEY_MOD_SHIFT },
        SeqMap { seq: "[2;2~", name: "S-Ins", key: Key::Insert, kmod: KEY_MOD_SPECIAL | KEY_MOD_SHIFT },
        SeqMap { seq: "[3;2~", name: "S-Del", key: Key::Delete, kmod: KEY_MOD_SPECIAL | KEY_MOD_SHIFT },
        SeqMap { seq: "[4;2~", name: "S-End", key: Key::End, kmod: KEY_MOD_SPECIAL | KEY_MOD_SHIFT },
        SeqMap { seq: "[5;2~", name: "S-PgUp", key: Key::PgUp, kmod: KEY_MOD_SPECIAL | KEY_MOD_SHIFT },
        SeqMap { seq: "[6;2~", name: "S-PdDown", key: Key::PgDown, kmod: KEY_MOD_SPECIAL | KEY_MOD_SHIFT },
        SeqMap { seq: "[1;2P", name: "S-F1", key: Key::F1, kmod: KEY_MOD_SPECIAL | KEY_MOD_SHIFT },
        SeqMap { seq: "[1;2Q", name: "S-F2", key: Key::F2, kmod: KEY_MOD_SPECIAL | KEY_MOD_SHIFT },
        SeqMap { seq: "[1;2R", name: "S-F3", key: Key::F3, kmod: KEY_MOD_SPECIAL | KEY_MOD_SHIFT },
        SeqMap { seq: "[1;2S", name: "S-F4", key: Key::F4, kmod: KEY_MOD_SPECIAL | KEY_MOD_SHIFT },
        SeqMap { seq: "[15;2~", name: "S-F5", key: Key::F5, kmod: KEY_MOD_SPECIAL | KEY_MOD_SHIFT },
        SeqMap { seq: "[17;2~", name: "S-F6", key: Key::F6, kmod: KEY_MOD_SPECIAL | KEY_MOD_SHIFT },
        SeqMap { seq: "[18;2~", name: "S-F7", key: Key::F7, kmod: KEY_MOD_SPECIAL | KEY_MOD_SHIFT },
        SeqMap { seq: "[19;2~", name: "S-F8", key: Key::F8, kmod: KEY_MOD_SPECIAL | KEY_MOD_SHIFT },
        SeqMap { seq: "[20;2~", name: "S-F9", key: Key::F9, kmod: KEY_MOD_SPECIAL | KEY_MOD_SHIFT },
        SeqMap { seq: "[21;2~", name: "S-F10", key: Key::F10, kmod: KEY_MOD_SPECIAL | KEY_MOD_SHIFT },
        SeqMap { seq: "[23;2~", name: "S-F11", key: Key::F11, kmod: KEY_MOD_SPECIAL | KEY_MOD_SHIFT },
        SeqMap { seq: "[24;2~", name: "S-F12", key: Key::F12, kmod: KEY_MOD_SPECIAL | KEY_MOD_SHIFT },
        SeqMap { seq: "[Z", name: "S-Tab", key: Key::Tab, kmod: KEY_MOD_SPECIAL | KEY_MOD_SHIFT },
        SeqMap { seq: "[1;3A", name: "M-Up", key: Key::Up, kmod: KEY_MOD_SPECIAL | KEY_MOD_ALT },
        SeqMap { seq: "[1;3B", name: "M-Down", key: Key::Down, kmod: KEY_MOD_SPECIAL | KEY_MOD_ALT },
        SeqMap { seq: "[1;3C", name: "M-Right", key: Key::Right, kmod: KEY_MOD_SPECIAL | KEY_MOD_ALT },
        SeqMap { seq: "[1;3D", name: "M-Left", key: Key::Left, kmod: KEY_MOD_SPECIAL | KEY_MOD_ALT },
        SeqMap { seq: "[1;3F", name: "M-End", key: Key::End, kmod: KEY_MOD_SPECIAL | KEY_MOD_ALT },
        SeqMap { seq: "[1;3H", name: "M-Home", key: Key::Home, kmod: KEY_MOD_SPECIAL | KEY_MOD_ALT },
        SeqMap { seq: "[2;3~", name: "M-Ins", key: Key::Insert, kmod: KEY_MOD_SPECIAL | KEY_MOD_ALT },
        SeqMap { seq: "[3;3~", name: "M-Del", key: Key::Delete, kmod: KEY_MOD_SPECIAL | KEY_MOD_ALT },
        SeqMap { seq: "[5;3~", name: "M-PgUp", key: Key::PgUp, kmod: KEY_MOD_SPECIAL | KEY_MOD_ALT },
        SeqMap { seq: "[6;3~", name: "M-PdDown", key: Key::PgDown, kmod: KEY_MOD_SPECIAL | KEY_MOD_ALT },
        SeqMap { seq: "[1;3P", name: "M-F1", key: Key::F1, kmod: KEY_MOD_SPECIAL | KEY_MOD_ALT },
        SeqMap { seq: "[1;3Q", name: "M-F2", key: Key::F2, kmod: KEY_MOD_SPECIAL | KEY_MOD_ALT },
        SeqMap { seq: "[1;3R", name: "M-F3", key: Key::F3, kmod: KEY_MOD_SPECIAL | KEY_MOD_ALT },
        SeqMap { seq: "[1;3S", name: "M-F4", key: Key::F4, kmod: KEY_MOD_SPECIAL | KEY_MOD_ALT },
        SeqMap { seq: "[15;3~", name: "M-F5", key: Key::F5, kmod: KEY_MOD_SPECIAL | KEY_MOD_ALT },
        SeqMap { seq: "[17;3~", name: "M-F6", key: Key::F6, kmod: KEY_MOD_SPECIAL | KEY_MOD_ALT },
        SeqMap { seq: "[18;3~", name: "M-F7", key: Key::F7, kmod: KEY_MOD_SPECIAL | KEY_MOD_ALT },
        SeqMap { seq: "[19;3~", name: "M-F8", key: Key::F8, kmod: KEY_MOD_SPECIAL | KEY_MOD_ALT },
        SeqMap { seq: "[20;3~", name: "M-F9", key: Key::F9, kmod: KEY_MOD_SPECIAL | KEY_MOD_ALT },
        SeqMap { seq: "[21;3~", name: "M-F10", key: Key::F10, kmod: KEY_MOD_SPECIAL | KEY_MOD_ALT },
        SeqMap { seq: "[23;3~", name: "M-F11", key: Key::F11, kmod: KEY_MOD_SPECIAL | KEY_MOD_ALT },
        SeqMap { seq: "[24;3~", name: "M-F12", key: Key::F12, kmod: KEY_MOD_SPECIAL | KEY_MOD_ALT },
        SeqMap { seq: "[1;5A", name: "C-Up", key: Key::Up, kmod: KEY_MOD_SPECIAL | KEY_MOD_CTRL },
        SeqMap { seq: "[1;5B", name: "C-Down", key: Key::Down, kmod: KEY_MOD_SPECIAL | KEY_MOD_CTRL },
        SeqMap { seq: "[1;5C", name: "C-Right", key: Key::Right, kmod: KEY_MOD_SPECIAL | KEY_MOD_CTRL },
        SeqMap { seq: "[1;5D", name: "C-Left", key: Key::Left, kmod: KEY_MOD_SPECIAL | KEY_MOD_CTRL },
        SeqMap { seq: "[1;5F", name: "C-End", key: Key::End, kmod: KEY_MOD_SPECIAL | KEY_MOD_CTRL },
        SeqMap { seq: "[1;5H", name: "C-Home", key: Key::Home, kmod: KEY_MOD_SPECIAL | KEY_MOD_CTRL },
        SeqMap { seq: "[2;5~", name: "C-Ins", key: Key::Insert, kmod: KEY_MOD_SPECIAL | KEY_MOD_CTRL },
        SeqMap { seq: "[3;5~", name: "C-Del", key: Key::Delete, kmod: KEY_MOD_SPECIAL | KEY_MOD_CTRL },
        SeqMap { seq: "[5;5~", name: "C-PgUp", key: Key::PgUp, kmod: KEY_MOD_SPECIAL | KEY_MOD_CTRL },
        SeqMap { seq: "[6;5~", name: "C-PdDown", key: Key::PgDown, kmod: KEY_MOD_SPECIAL | KEY_MOD_CTRL },
        SeqMap { seq: "[1;5P", name: "C-F1", key: Key::F1, kmod: KEY_MOD_SPECIAL | KEY_MOD_CTRL },
        SeqMap { seq: "[1;5Q", name: "C-F2", key: Key::F2, kmod: KEY_MOD_SPECIAL | KEY_MOD_CTRL },
        SeqMap { seq: "[1;5R", name: "C-F3", key: Key::F3, kmod: KEY_MOD_SPECIAL | KEY_MOD_CTRL },
        SeqMap { seq: "[1;5S", name: "C-F4", key: Key::F4, kmod: KEY_MOD_SPECIAL | KEY_MOD_CTRL },
        SeqMap { seq: "[15;5~", name: "C-F5", key: Key::F5, kmod: KEY_MOD_SPECIAL | KEY_MOD_CTRL },
        SeqMap { seq: "[17;5~", name: "C-F6", key: Key::F6, kmod: KEY_MOD_SPECIAL | KEY_MOD_CTRL },
        SeqMap { seq: "[18;5~", name: "C-F7", key: Key::F7, kmod: KEY_MOD_SPECIAL | KEY_MOD_CTRL },
        SeqMap { seq: "[19;5~", name: "C-F8", key: Key::F8, kmod: KEY_MOD_SPECIAL | KEY_MOD_CTRL },
        SeqMap { seq: "[20;5~", name: "C-F9", key: Key::F9, kmod: KEY_MOD_SPECIAL | KEY_MOD_CTRL },
        SeqMap { seq: "[21;5~", name: "C-F10", key: Key::F10, kmod: KEY_MOD_SPECIAL | KEY_MOD_CTRL },
        SeqMap { seq: "[23;5~", name: "C-F11", key: Key::F11, kmod: KEY_MOD_SPECIAL | KEY_MOD_CTRL },
        SeqMap { seq: "[24;5~", name: "C-F12", key: Key::F12, kmod: KEY_MOD_SPECIAL | KEY_MOD_CTRL },
        SeqMap { seq: "[1;6A", name: "S-C-Up", key: Key::Up, kmod: KEY_MOD_SPECIAL | KEY_MOD_SHIFT | KEY_MOD_CTRL },
        SeqMap { seq: "[1;6B", name: "S-C-Down", key: Key::Down, kmod: KEY_MOD_SPECIAL | KEY_MOD_SHIFT | KEY_MOD_CTRL },
        SeqMap { seq: "[1;6C", name: "S-C-Right", key: Key::Right, kmod: KEY_MOD_SPECIAL | KEY_MOD_SHIFT | KEY_MOD_CTRL },
        SeqMap { seq: "[1;6D", name: "S-C-Left", key: Key::Left, kmod: KEY_MOD_SPECIAL | KEY_MOD_SHIFT | KEY_MOD_CTRL },
        SeqMap { seq: "[1;6F", name: "S-C-End", key: Key::End, kmod: KEY_MOD_SPECIAL | KEY_MOD_SHIFT | KEY_MOD_CTRL },
        SeqMap { seq: "[1;6H", name: "S-C-Home", key: Key::Home, kmod: KEY_MOD_SPECIAL | KEY_MOD_SHIFT | KEY_MOD_CTRL },
        SeqMap { seq: "[2;6~", name: "S-C-Ins", key: Key::Insert, kmod: KEY_MOD_SPECIAL | KEY_MOD_SHIFT | KEY_MOD_CTRL },
        SeqMap { seq: "[3;6~", name: "S-C-Del", key: Key::Delete, kmod: KEY_MOD_SPECIAL | KEY_MOD_SHIFT | KEY_MOD_CTRL },
        SeqMap { seq: "[5;6~", name: "S-C-PgUp", key: Key::PgUp, kmod: KEY_MOD_SPECIAL | KEY_MOD_SHIFT | KEY_MOD_CTRL },
        SeqMap { seq: "[6;6~", name: "S-C-PdDown", key: Key::PgDown, kmod: KEY_MOD_SPECIAL | KEY_MOD_SHIFT | KEY_MOD_CTRL },
        SeqMap { seq: "[1;6P", name: "S-C-F1", key: Key::F1, kmod: KEY_MOD_SPECIAL | KEY_MOD_SHIFT | KEY_MOD_CTRL },
        SeqMap { seq: "[1;6Q", name: "S-C-F2", key: Key::F2, kmod: KEY_MOD_SPECIAL | KEY_MOD_SHIFT | KEY_MOD_CTRL },
        SeqMap { seq: "[1;6R", name: "S-C-F3", key: Key::F3, kmod: KEY_MOD_SPECIAL | KEY_MOD_SHIFT | KEY_MOD_CTRL },
        SeqMap { seq: "[1;6S", name: "S-C-F4", key: Key::F4, kmod: KEY_MOD_SPECIAL | KEY_MOD_SHIFT | KEY_MOD_CTRL },
        SeqMap { seq: "[15;6~", name: "S-C-F5", key: Key::F5, kmod: KEY_MOD_SPECIAL | KEY_MOD_SHIFT | KEY_MOD_CTRL },
        SeqMap { seq: "[17;6~", name: "S-C-F6", key: Key::F6, kmod: KEY_MOD_SPECIAL | KEY_MOD_SHIFT | KEY_MOD_CTRL },
        SeqMap { seq: "[18;6~", name: "S-C-F7", key: Key::F7, kmod: KEY_MOD_SPECIAL | KEY_MOD_SHIFT | KEY_MOD_CTRL },
        SeqMap { seq: "[19;6~", name: "S-C-F8", key: Key::F8, kmod: KEY_MOD_SPECIAL | KEY_MOD_SHIFT | KEY_MOD_CTRL },
        SeqMap { seq: "[20;6~", name: "S-C-F9", key: Key::F9, kmod: KEY_MOD_SPECIAL | KEY_MOD_SHIFT | KEY_MOD_CTRL },
        SeqMap { seq: "[21;6~", name: "S-C-F10", key: Key::F10, kmod: KEY_MOD_SPECIAL | KEY_MOD_SHIFT | KEY_MOD_CTRL },
        SeqMap { seq: "[23;6~", name: "S-C-F11", key: Key::F11, kmod: KEY_MOD_SPECIAL | KEY_MOD_SHIFT | KEY_MOD_CTRL },
        SeqMap { seq: "[24;6~", name: "S-C-F12", key: Key::F12, kmod: KEY_MOD_SPECIAL | KEY_MOD_SHIFT | KEY_MOD_CTRL },
        SeqMap { seq: "[23^", name: "S-C-F1", key: Key::F1, kmod: KEY_MOD_SPECIAL | KEY_MOD_SHIFT | KEY_MOD_CTRL },
        SeqMap { seq: "[24^", name: "S-C-F2", key: Key::F2, kmod: KEY_MOD_SPECIAL | KEY_MOD_SHIFT | KEY_MOD_CTRL },
        SeqMap { seq: "[25^", name: "S-C-F3", key: Key::F3, kmod: KEY_MOD_SPECIAL | KEY_MOD_SHIFT | KEY_MOD_CTRL },
        SeqMap { seq: "[26^", name: "S-C-F4", key: Key::F4, kmod: KEY_MOD_SPECIAL | KEY_MOD_SHIFT | KEY_MOD_CTRL },
        SeqMap { seq: "[28^", name: "S-C-F5", key: Key::F5, kmod: KEY_MOD_SPECIAL | KEY_MOD_SHIFT | KEY_MOD_CTRL },
        SeqMap { seq: "[29^", name: "S-C-F6", key: Key::F6, kmod: KEY_MOD_SPECIAL | KEY_MOD_SHIFT | KEY_MOD_CTRL },
        SeqMap { seq: "[31^", name: "S-C-F7", key: Key::F7, kmod: KEY_MOD_SPECIAL | KEY_MOD_SHIFT | KEY_MOD_CTRL },
        SeqMap { seq: "[32^", name: "S-C-F8", key: Key::F8, kmod: KEY_MOD_SPECIAL | KEY_MOD_SHIFT | KEY_MOD_CTRL },
        SeqMap { seq: "[33^", name: "S-C-F9", key: Key::F9, kmod: KEY_MOD_SPECIAL | KEY_MOD_SHIFT | KEY_MOD_CTRL },
        SeqMap { seq: "[34^", name: "S-C-F10", key: Key::F10, kmod: KEY_MOD_SPECIAL | KEY_MOD_SHIFT | KEY_MOD_CTRL },
        SeqMap { seq: "[23@", name: "S-C-F11", key: Key::F11, kmod: KEY_MOD_SPECIAL | KEY_MOD_SHIFT | KEY_MOD_CTRL },
        SeqMap { seq: "[24@", name: "S-C-F12", key: Key::F12, kmod: KEY_MOD_SPECIAL | KEY_MOD_SHIFT | KEY_MOD_CTRL },
        SeqMap { seq: "[1;7A", name: "C-M-Up", key: Key::Up, kmod: KEY_MOD_SPECIAL | KEY_MOD_CTRL | KEY_MOD_ALT },
        SeqMap { seq: "[1;7B", name: "C-M-Down", key: Key::Down, kmod: KEY_MOD_SPECIAL | KEY_MOD_CTRL | KEY_MOD_ALT },
        SeqMap { seq: "[1;7C", name: "C-M-Right", key: Key::Right, kmod: KEY_MOD_SPECIAL | KEY_MOD_CTRL | KEY_MOD_ALT },
        SeqMap { seq: "[1;7D", name: "C-M-Left", key: Key::Left, kmod: KEY_MOD_SPECIAL | KEY_MOD_CTRL | KEY_MOD_ALT },
        SeqMap { seq: "[1;7F", name: "C-M-End", key: Key::End, kmod: KEY_MOD_SPECIAL | KEY_MOD_CTRL | KEY_MOD_ALT },
        SeqMap { seq: "[1;7H", name: "C-M-Home", key: Key::Home, kmod: KEY_MOD_SPECIAL | KEY_MOD_CTRL | KEY_MOD_ALT },
        SeqMap { seq: "[2;7~", name: "C-M-Ins", key: Key::Insert, kmod: KEY_MOD_SPECIAL | KEY_MOD_CTRL | KEY_MOD_ALT },
        SeqMap { seq: "[3;7~", name: "C-M-Del", key: Key::Delete, kmod: KEY_MOD_SPECIAL | KEY_MOD_CTRL | KEY_MOD_ALT },
        SeqMap { seq: "[5;7~", name: "C-M-PgUp", key: Key::PgUp, kmod: KEY_MOD_SPECIAL | KEY_MOD_CTRL | KEY_MOD_ALT },
        SeqMap { seq: "[6;7~", name: "C-M-PdDown", key: Key::PgDown, kmod: KEY_MOD_SPECIAL | KEY_MOD_CTRL | KEY_MOD_ALT },
        SeqMap { seq: "[1;7P", name: "C-M-F1", key: Key::F1, kmod: KEY_MOD_SPECIAL | KEY_MOD_CTRL | KEY_MOD_ALT },
        SeqMap { seq: "[1;7Q", name: "C-M-F2", key: Key::F2, kmod: KEY_MOD_SPECIAL | KEY_MOD_CTRL | KEY_MOD_ALT },
        SeqMap { seq: "[1;7R", name: "C-M-F3", key: Key::F3, kmod: KEY_MOD_SPECIAL | KEY_MOD_CTRL | KEY_MOD_ALT },
        SeqMap { seq: "[1;7S", name: "C-M-F4", key: Key::F4, kmod: KEY_MOD_SPECIAL | KEY_MOD_CTRL | KEY_MOD_ALT },
        SeqMap { seq: "[15;7~", name: "C-M-F5", key: Key::F5, kmod: KEY_MOD_SPECIAL | KEY_MOD_CTRL | KEY_MOD_ALT },
        SeqMap { seq: "[17;7~", name: "C-M-F6", key: Key::F6, kmod: KEY_MOD_SPECIAL | KEY_MOD_CTRL | KEY_MOD_ALT },
        SeqMap { seq: "[18;7~", name: "C-M-F7", key: Key::F7, kmod: KEY_MOD_SPECIAL | KEY_MOD_CTRL | KEY_MOD_ALT },
        SeqMap { seq: "[19;7~", name: "C-M-F8", key: Key::F8, kmod: KEY_MOD_SPECIAL | KEY_MOD_CTRL | KEY_MOD_ALT },
        SeqMap { seq: "[20;7~", name: "C-M-F9", key: Key::F9, kmod: KEY_MOD_SPECIAL | KEY_MOD_CTRL | KEY_MOD_ALT },
        SeqMap { seq: "[21;7~", name: "C-M-F10", key: Key::F10, kmod: KEY_MOD_SPECIAL | KEY_MOD_CTRL | KEY_MOD_ALT },
        SeqMap { seq: "[23;7~", name: "C-M-F11", key: Key::F11, kmod: KEY_MOD_SPECIAL | KEY_MOD_CTRL | KEY_MOD_ALT },
        SeqMap { seq: "[24;7~", name: "C-M-F12", key: Key::F12, kmod: KEY_MOD_SPECIAL | KEY_MOD_CTRL | KEY_MOD_ALT },
    ]
}

/// The ESC sequence key map, in definition order
pub fn esc_keys_map_unsorted() -> (r: Vec<SeqMap>)
    ensures
        r@ == esc_keys_table(),
{
    vec![
        SeqMap { seq: "[A", name: "Up", key: Key::Up, kmod: KEY_MOD_SPECIAL },
        SeqMap { seq: "[B", name: "Down", key: Key::Down, kmod: KEY_MOD_SPECIAL },
        SeqMap { seq: "[C", name: "Right", key: Key::Right, kmod: KEY_MOD_SPECIAL },
        SeqMap { seq: "[D", name: "Left", key: Key::Left, kmod: KEY_MOD_SPECIAL },
        SeqMap { seq: "[F", name: "End", key: Key::End, kmod: KEY_MOD_SPECIAL },
        SeqMap { seq: "[H", name: "Home", key: Key::Home, kmod: KEY_MOD_SPECIAL },
        SeqMap { seq: "[1~", name: "Home", key: Key::Home, kmod: KEY_MOD_SPECIAL },
        SeqMap { seq: "[2~", name: "Ins", key: Key::Insert, kmod: KEY_MOD_SPECIAL },
        SeqMap { seq: "[3~", name: "Del", key: Key::Delete, kmod: KEY_MOD_SPECIAL },
        SeqMap { seq: "[4~", name: "End", key: Key::End, kmod: KEY_MOD_SPECIAL },
        SeqMap { seq: "[5~", name: "PgUp", key: Key::PgUp, kmod: KEY_MOD_SPECIAL },
        SeqMap { seq: "[6~", name: "PgDown", key: Key::PgDown, kmod: KEY_MOD_SPECIAL },
        SeqMap { seq: "[7~", name: "Home", key: Key::Home, kmod: KEY_MOD_SPECIAL },
        SeqMap { seq: "[8~", name: "End", key: Key::End, kmod: KEY_MOD_SPECIAL },
        SeqMap { seq: "OP", name: "F1", key: Key::F1, kmod: KEY_MOD_SPECIAL },
        SeqMap { seq: "OQ", name: "F2", key: Key::F2, kmod: KEY_MOD_SPECIAL },
        SeqMap { seq: "OR", name: "F3", key: Key::F3, kmod: KEY_MOD_SPECIAL },
        SeqMap { seq: "OS", name: "F4", key: Key::F4, kmod: KEY_MOD_SPECIAL },
        SeqMap { seq: "[11~", name: "F1", key: Key::F1, kmod: KEY_MOD_SPECIAL },
        SeqMap { seq: "[12~", name: "F2", key: Key::F2, kmod: KEY_MOD_SPECIAL },
        SeqMap { seq: "[13~", name: "F3", key: Key::F3, kmod: KEY_MOD_SPECIAL },
        SeqMap { seq: "[14~", name: "F4", key: Key::F4, kmod: KEY_MOD_SPECIAL },
        SeqMap { seq: "[15~", name: "F5", key: Key::F5, kmod: KEY_MOD_SPECIAL },
        SeqMap { seq: "[17~", name: "F6", key: Key::F6, kmod: KEY_MOD_SPECIAL },
        SeqMap { seq: "[18~", name: "F7", key: Key::F7, kmod: KEY_MOD_SPECIAL },
        SeqMap { seq: "[19~", name: "F8", key: Key::F8, kmod: KEY_MOD_SPECIAL },
        SeqMap { seq: "[20~", name: "F9", key: Key::F9, kmod: KEY_MOD_SPECIAL },
        SeqMap { seq: "[21~", name: "F10", key: Key::F10, kmod: KEY_MOD_SPECIAL },
        SeqMap { seq: "[23~", name: "F11", key: Key::F11, kmod: KEY_MOD_SPECIAL },
        SeqMap { seq: "[24~", name: "F12", key: Key::F12, kmod: KEY_MOD_SPECIAL },
        SeqMap { seq: "[1;2A", name: "S-Up", key: Key::Up, kmod: KEY_MOD_SPECIAL | KEY_MOD_SHIFT },
        SeqMap { seq: "[1;2B", name: "S-Down", key: Key::Down, kmod: KEY_MOD_SPECIAL | KEY_MOD_SHIFT },
        SeqMap { seq: "[1;2C", name: "S-Right", key: Key::Right, kmod: KEY_MOD_SPECIAL | KEY_MOD_SHIFT },
        SeqMap { seq: "[1;2D", name: "S-Left", key: Key::Left, kmod: KEY_MOD_SPECIAL | KEY_MOD_SHIFT },
        SeqMap { seq: "[1;2F", name: "S-End", key: Key::End, kmod: KEY_MOD_SPECIAL | KEY_MOD_SHIFT },
        SeqMap { seq: "[1;2H", name: "S-Home", key: Key::Home, kmod: KEY_MOD_SPECIAL | KEY_MOD_SHIFT },
        SeqMap { seq: "[1;2~", name: "S-Home", key: Key::Home, kmod: KEY_MOD_SPECIAL | KEY_MOD_SHIFT },
        SeqMap { seq: "[2;2~", name: "S-Ins", key: Key::Insert, kmod: KEY_MOD_SPECIAL | KEY_MOD_SHIFT },
        SeqMap { seq: "[3;2~", name: "S-Del", key: Key::Delete, kmod: KEY_MOD_SPECIAL | KEY_MOD_SHIFT },
        SeqMap { seq: "[4;2~", name: "S-End", key: Key::End, kmod: KEY_MOD_SPECIAL | KEY_MOD_SHIFT },
        SeqMap { seq: "[5;2~", name: "S-PgUp", key: Key::PgUp, kmod: KEY_MOD_SPECIAL | KEY_MOD_SHIFT },
        SeqMap { seq: "[6;2~", name: "S-PdDown", key: Key::PgDown, kmod: KEY_MOD_SPECIAL | KEY_MOD_SHIFT },
        SeqMap { seq: "[1;2P", name: "S-F1", key: Key::F1, kmod: KEY_MOD_SPECIAL | KEY_MOD_SHIFT },
        SeqMap { seq: "[1;2Q", name: "S-F2", key: Key::F2, kmod: KEY_MOD_SPECIAL | KEY_MOD_SHIFT },
        SeqMap { seq: "[1;2R", name: "S-F3", key: Key::F3, kmod: KEY_MOD_SPECIAL | KEY_MOD_SHIFT },
        SeqMap { seq: "[1;2S", name: "S-F4", key: Key::F4, kmod: KEY_MOD_SPECIAL | KEY_MOD_SHIFT },
        SeqMap { seq: "[15;2~", name: "S-F5", key: Key::F5, kmod: KEY_MOD_SPECIAL | KEY_MOD_SHIFT },
        SeqMap { seq: "[17;2~", name: "S-F6", key: Key::F6, kmod: KEY_MOD_SPECIAL | KEY_MOD_SHIFT },
        SeqMap { seq: "[18;2~", name: "S-F7", key: Key::F7, kmod: KEY_MOD_SPECIAL | KEY_MOD_SHIFT },
        SeqMap { seq: "[19;2~", name: "S-F8", key: Key::F8, kmod: KEY_MOD_SPECIAL | KEY_MOD_SHIFT },
        SeqMap { seq: "[20;2~", name: "S-F9", key: Key::F9, kmod: KEY_MOD_SPECIAL | KEY_MOD_SHIFT },
        SeqMap { seq: "[21;2~", name: "S-F10", key: Key::F10, kmod: KEY_MOD_SPECIAL | KEY_MOD_SHIFT },
        SeqMap { seq: "[23;2~", name: "S-F11", key: Key::F11, kmod: KEY_MOD_SPECIAL | KEY_MOD_SHIFT },
        SeqMap { seq: "[24;2~", name: "S-F12", key: Key::F12, kmod: KEY_MOD_SPECIAL | KEY_MOD_SHIFT },
        SeqMap { seq: "[Z", name: "S-Tab", key: Key::Tab, kmod: KEY_MOD_SPECIAL | KEY_MOD_SHIFT },
        SeqMap { seq: "[1;3A", name: "M-Up", key: Key::Up, kmod: KEY_MOD_SPECIAL | KEY_MOD_ALT },
        SeqMap { seq: "[1;3B", name: "M-Down", key: Key::Down, kmod: KEY_MOD_SPECIAL | KEY_MOD_ALT },
        SeqMap { seq: "[1;3C", name: "M-Right", key: Key::Right, kmod: KEY_MOD_SPECIAL | KEY_MOD_ALT },
        SeqMap { seq: "[1;3D", name: "M-Left", key: Key::Left, kmod: KEY_MOD_SPECIAL | KEY_MOD_ALT },
        SeqMap { seq: "[1;3F", name: "M-End", key: Key::End, kmod: KEY_MOD_SPECIAL | KEY_MOD_ALT },
        SeqMap { seq: "[1;3H", name: "M-Home", key: Key::Home, kmod: KEY_MOD_SPECIAL | KEY_MOD_ALT },
        SeqMap { seq: "[2;3~", name: "M-Ins", key: Key::Insert, kmod: KEY_MOD_SPECIAL | KEY_MOD_ALT },
        SeqMap { seq: "[3;3~", name: "M-Del", key: Key::Delete, kmod: KEY_MOD_SPECIAL | KEY_MOD_ALT },
        SeqMap { seq: "[5;3~", name: "M-PgUp", key: Key::PgUp, kmod: KEY_MOD_SPECIAL | KEY_MOD_ALT },
        SeqMap { seq: "[6;3~", name: "M-PdDown", key: Key::PgDown, kmod: KEY_MOD_SPECIAL | KEY_MOD_ALT },
        SeqMap { seq: "[1;3P", name: "M-F1", key: Key::F1, kmod: KEY_MOD_SPECIAL | KEY_MOD_ALT },
        SeqMap { seq: "[1;3Q", name: "M-F2", key: Key::F2, kmod: KEY_MOD_SPECIAL | KEY_MOD_ALT },
        SeqMap { seq: "[1;3R", name: "M-F3", key: Key::F3, kmod: KEY_MOD_SPECIAL | KEY_MOD_ALT },
        SeqMap { seq: "[1;3S", name: "M-F4", key: Key::F4, kmod: KEY_MOD_SPECIAL | KEY_MOD_ALT },
        SeqMap { seq: "[15;3~", name: "M-F5", key: Key::F5, kmod: KEY_MOD_SPECIAL | KEY_MOD_ALT },
        SeqMap { seq: "[17;3~", name: "M-F6", key: Key::F6, kmod: KEY_MOD_SPECIAL | KEY_MOD_ALT },
        SeqMap { seq: "[18;3~", name: "M-F7", key: Key::F7, kmod: KEY_MOD_SPECIAL | KEY_MOD_ALT },
        SeqMap { seq: "[19;3~", name: "M-F8", key: Key::F8, kmod: KEY_MOD_SPECIAL | KEY_MOD_ALT },
        SeqMap { seq: "[20;3~", name: "M-F9", key: Key::F9, kmod: KEY_MOD_SPECIAL | KEY_MOD_ALT },
        SeqMap { seq: "[21;3~", name: "M-F10", key: Key::F10, kmod: KEY_MOD_SPECIAL | KEY_MOD_ALT },
        SeqMap { seq: "[23;3~", name: "M-F11", key: Key::F11, kmod: KEY_MOD_SPECIAL | KEY_MOD_ALT },
        SeqMap { seq: "[24;3~", name: "M-F12", key: Key::F12, kmod: KEY_MOD_SPECIAL | KEY_MOD_ALT },
        SeqMap { seq: "[1;5A", name: "C-Up", key: Key::Up, kmod: KEY_MOD_SPECIAL | KEY_MOD_CTRL },
        SeqMap { seq: "[1;5B", name: "C-Down", key: Key::Down, kmod: KEY_MOD_SPECIAL | KEY_MOD_CTRL },
        SeqMap { seq: "[1;5C", name: "C-Right", key: Key::Right, kmod: KEY_MOD_SPECIAL | KEY_MOD_CTRL },
        SeqMap { seq: "[1;5D", name: "C-Left", key: Key::Left, kmod: KEY_MOD_SPECIAL | KEY_MOD_CTRL },
        SeqMap { seq: "[1;5F", name: "C-End", key: Key::End, kmod: KEY_MOD_SPECIAL | KEY_MOD_CTRL },
        SeqMap { seq: "[1;5H", name: "C-Home", key: Key::Home, kmod: KEY_MOD_SPECIAL | KEY_MOD_CTRL },
        SeqMap { seq: "[2;5~", name: "C-Ins", key: Key::Insert, kmod: KEY_MOD_SPECIAL | KEY_MOD_CTRL },
        SeqMap { seq: "[3;5~", name: "C-Del", key: Key::Delete, kmod: KEY_MOD_SPECIAL | KEY_MOD_CTRL },
        SeqMap { seq: "[5;5~", name: "C-PgUp", key: Key::PgUp, kmod: KEY_MOD_SPECIAL | KEY_MOD_CTRL },
        SeqMap { seq: "[6;5~", name: "C-PdDown", key: Key::PgDown, kmod: KEY_MOD_SPECIAL | KEY_MOD_CTRL },
        SeqMap { seq: "[1;5P", name: "C-F1", key: Key::F1, kmod: KEY_MOD_SPECIAL | KEY_MOD_CTRL },
        SeqMap { seq: "[1;5Q", name: "C-F2", key: Key::F2, kmod: KEY_MOD_SPECIAL | KEY_MOD_CTRL },
        SeqMap { seq: "[1;5R", name: "C-F3", key: Key::F3, kmod: KEY_MOD_SPECIAL | KEY_MOD_CTRL },
        SeqMap { seq: "[1;5S", name: "C-F4", key: Key::F4, kmod: KEY_MOD_SPECIAL | KEY_MOD_CTRL },
        SeqMap { seq: "[15;5~", name: "C-F5", key: Key::F5, kmod: KEY_MOD_SPECIAL | KEY_MOD_CTRL },
        SeqMap { seq: "[17;5~", name: "C-F6", key: Key::F6, kmod: KEY_MOD_SPECIAL | KEY_MOD_CTRL },
        SeqMap { seq: "[18;5~", name: "C-F7", key: Key::F7, kmod: KEY_MOD_SPECIAL | KEY_MOD_CTRL },
        SeqMap { seq: "[19;5~", name: "C-F8", key: Key::F8, kmod: KEY_MOD_SPECIAL | KEY_MOD_CTRL },
        SeqMap { seq: "[20;5~", name: "C-F9", key: Key::F9, kmod: KEY_MOD_SPECIAL | KEY_MOD_CTRL },
        SeqMap { seq: "[21;5~", name: "C-F10", key: Key::F10, kmod: KEY_MOD_SPECIAL | KEY_MOD_CTRL },
        SeqMap { seq: "[23;5~", name: "C-F11", key: Key::F11, kmod: KEY_MOD_SPECIAL | KEY_MOD_CTRL },
        SeqMap { seq: "[24;5~", name: "C-F12", key: Key::F12, kmod: KEY_MOD_SPECIAL | KEY_MOD_CTRL },
        SeqMap { seq: "[1;6A", name: "S-C-Up", key: Key::Up, kmod: KEY_MOD_SPECIAL | KEY_MOD_SHIFT | KEY_MOD_CTRL },
        SeqMap { seq: "[1;6B", name: "S-C-Down", key: Key::Down, kmod: KEY_MOD_SPECIAL | KEY_MOD_SHIFT | KEY_MOD_CTRL },
        SeqMap { seq: "[1;6C", name: "S-C-Right", key: Key::Right, kmod: KEY_MOD_SPECIAL | KEY_MOD_SHIFT | KEY_MOD_CTRL },
        SeqMap { seq: "[1;6D", name: "S-C-Left", key: Key::Left, kmod: KEY_MOD_SPECIAL | KEY_MOD_SHIFT | KEY_MOD_CTRL },
        SeqMap { seq: "[1;6F", name: "S-C-End", key: Key::End, kmod: KEY_MOD_SPECIAL | KEY_MOD_SHIFT | KEY_MOD_CTRL },
        SeqMap { seq: "[1;6H", name: "S-C-Home", key: Key::Home, kmod: KEY_MOD_SPECIAL | KEY_MOD_SHIFT | KEY_MOD_CTRL },
        SeqMap { seq: "[2;6~", name: "S-C-Ins", key: Key::Insert, kmod: KEY_MOD_SPECIAL | KEY_MOD_SHIFT | KEY_MOD_CTRL },
        SeqMap { seq: "[3;6~", name: "S-C-Del", key: Key::Delete, kmod: KEY_MOD_SPECIAL | KEY_MOD_SHIFT | KEY_MOD_CTRL },
        SeqMap { seq: "[5;6~", name: "S-C-PgUp", key: Key::PgUp, kmod: KEY_MOD_SPECIAL | KEY_MOD_SHIFT | KEY_MOD_CTRL },
        SeqMap { seq: "[6;6~", name: "S-C-PdDown", key: Key::PgDown, kmod: KEY_MOD_SPECIAL | KEY_MOD_SHIFT | KEY_MOD_CTRL },
        SeqMap { seq: "[1;6P", name: "S-C-F1", key: Key::F1, kmod: KEY_MOD_SPECIAL | KEY_MOD_SHIFT | KEY_MOD_CTRL },
        SeqMap { seq: "[1;6Q", name: "S-C-F2", key: Key::F2, kmod: KEY_MOD_SPECIAL | KEY_MOD_SHIFT | KEY_MOD_CTRL },
        SeqMap { seq: "[1;6R", name: "S-C-F3", key: Key::F3, kmod: KEY_MOD_SPECIAL | KEY_MOD_SHIFT | KEY_MOD_CTRL },
        SeqMap { seq: "[1;6S", name: "S-C-F4", key: Key::F4, kmod: KEY_MOD_SPECIAL | KEY_MOD_SHIFT | KEY_MOD_CTRL },
        SeqMap { seq: "[15;6~", name: "S-C-F5", key: Key::F5, kmod: KEY_MOD_SPECIAL | KEY_MOD_SHIFT | KEY_MOD_CTRL },
        SeqMap { seq: "[17;6~", name: "S-C-F6", key: Key::F6, kmod: KEY_MOD_SPECIAL | KEY_MOD_SHIFT | KEY_MOD_CTRL },
        SeqMap { seq: "[18;6~", name: "S-C-F7", key: Key::F7, kmod: KEY_MOD_SPECIAL | KEY_MOD_SHIFT | KEY_MOD_CTRL },
        SeqMap { seq: "[19;6~", name: "S-C-F8", key: Key::F8, kmod: KEY_MOD_SPECIAL | KEY_MOD_SHIFT | KEY_MOD_CTRL },
        SeqMap { seq: "[20;6~", name: "S-C-F9", key: Key::F9, kmod: KEY_MOD_SPECIAL | KEY_MOD_SHIFT | KEY_MOD_CTRL },
        SeqMap { seq: "[21;6~", name: "S-C-F10", key: Key::F10, kmod: KEY_MOD_SPECIAL | KEY_MOD_SHIFT | KEY_MOD_CTRL },
        SeqMap { seq: "[23;6~", name: "S-C-F11", key: Key::F11, kmod: KEY_MOD_SPECIAL | KEY_MOD_SHIFT | KEY_MOD_CTRL },
        SeqMap { seq: "[24;6~", name: "S-C-F12", key: Key::F12, kmod: KEY_MOD_SPECIAL | KEY_MOD_SHIFT | KEY_MOD_CTRL },
        SeqMap { seq: "[23^", name: "S-C-F1", key: Key::F1, kmod: KEY_MOD_SPECIAL | KEY_MOD_SHIFT | KEY_MOD_CTRL },
        SeqMap { seq: "[24^", name: "S-C-F2", key: Key::F2, kmod: KEY_MOD_SPECIAL | KEY_MOD_SHIFT | KEY_MOD_CTRL },
        SeqMap { seq: "[25^", name: "S-C-F3", key: Key::F3, kmod: KEY_MOD_SPECIAL | KEY_MOD_SHIFT | KEY_MOD_CTRL },
        SeqMap { seq: "[26^", name: "S-C-F4", key: Key::F4, kmod: KEY_MOD_SPECIAL | KEY_MOD_SHIFT | KEY_MOD_CTRL },
        SeqMap { seq: "[28^", name: "S-C-F5", key: Key::F5, kmod: KEY_MOD_SPECIAL | KEY_MOD_SHIFT | KEY_MOD_CTRL },
        SeqMap { seq: "[29^", name: "S-C-F6", key: Key::F6, kmod: KEY_MOD_SPECIAL | KEY_MOD_SHIFT | KEY_MOD_CTRL },
        SeqMap { seq: "[31^", name: "S-C-F7", key: Key::F7, kmod: KEY_MOD_SPECIAL | KEY_MOD_SHIFT | KEY_MOD_CTRL },
        SeqMap { seq: "[32^", name: "S-C-F8", key: Key::F8, kmod: KEY_MOD_SPECIAL | KEY_MOD_SHIFT | KEY_MOD_CTRL },
        SeqMap { seq: "[33^", name: "S-C-F9", key: Key::F9, kmod: KEY_MOD_SPECIAL | KEY_MOD_SHIFT | KEY_MOD_CTRL },
        SeqMap { seq: "[34^", name: "S-C-F10", key: Key::F10, kmod: KEY_MOD_SPECIAL | KEY_MOD_SHIFT | KEY_MOD_CTRL },
        SeqMap { seq: "[23@", name: "S-C-F11", key: Key::F11, kmod: KEY_MOD_SPECIAL | KEY_MOD_SHIFT | KEY_MOD_CTRL },
        SeqMap { seq: "[24@", name: "S-C-F12", key: Key::F12, kmod: KEY_MOD_SPECIAL | KEY_MOD_SHIFT | KEY_MOD_CTRL },
        SeqMap { seq: "[1;7A", name: "C-M-Up", key: Key::Up, kmod: KEY_MOD_SPECIAL | KEY_MOD_CTRL | KEY_MOD_ALT },
        SeqMap { seq: "[1;7B", name: "C-M-Down", key: Key::Down, kmod: KEY_MOD_SPECIAL | KEY_MOD_CTRL | KEY_MOD_ALT },
        SeqMap { seq: "[1;7C", name: "C-M-Right", key: Key::Right, kmod: KEY_MOD_SPECIAL | KEY_MOD_CTRL | KEY_MOD_ALT },
        SeqMap { seq: "[1;7D", name: "C-M-Left", key: Key::Left, kmod: KEY_MOD_SPECIAL | KEY_MOD_CTRL | KEY_MOD_ALT },
        SeqMap { seq: "[1;7F", name: "C-M-End", key: Key::End, kmod: KEY_MOD_SPECIAL | KEY_MOD_CTRL | KEY_MOD_ALT },
        SeqMap { seq: "[1;7H", name: "C-M-Home", key: Key::Home, kmod: KEY_MOD_SPECIAL | KEY_MOD_CTRL | KEY_MOD_ALT },
        SeqMap { seq: "[2;7~", name: "C-M-Ins", key: Key::Insert, kmod: KEY_MOD_SPECIAL | KEY_MOD_CTRL | KEY_MOD_ALT },
        SeqMap { seq: "[3;7~", name: "C-M-Del", key: Key::Delete, kmod: KEY_MOD_SPECIAL | KEY_MOD_CTRL | KEY_MOD_ALT },
        SeqMap { seq: "[5;7~", name: "C-M-PgUp", key: Key::PgUp, kmod: KEY_MOD_SPECIAL | KEY_MOD_CTRL | KEY_MOD_ALT },
        SeqMap { seq: "[6;7~", name: "C-M-PdDown", key: Key::PgDown, kmod: KEY_MOD_SPECIAL | KEY_MOD_CTRL | KEY_MOD_ALT },
        SeqMap { seq: "[1;7P", name: "C-M-F1", key: Key::F1, kmod: KEY_MOD_SPECIAL | KEY_MOD_CTRL | KEY_MOD_ALT },
        SeqMap { seq: "[1;7Q", name: "C-M-F2", key: Key::F2, kmod: KEY_MOD_SPECIAL | KEY_MOD_CTRL | KEY_MOD_ALT },
        SeqMap { seq: "[1;7R", name: "C-M-F3", key: Key::F3, kmod: KEY_MOD_SPECIAL | KEY_MOD_CTRL | KEY_MOD_ALT },
        SeqMap { seq: "[1;7S", name: "C-M-F4", key: Key::F4, kmod: KEY_MOD_SPECIAL | KEY_MOD_CTRL | KEY_MOD_ALT },
        SeqMap { seq: "[15;7~", name: "C-M-F5", key: Key::F5, kmod: KEY_MOD_SPECIAL | KEY_MOD_CTRL | KEY_MOD_ALT },
        SeqMap { seq: "[17;7~", name: "C-M-F6", key: Key::F6, kmod: KEY_MOD_SPECIAL | KEY_MOD_CTRL | KEY_MOD_ALT },
        SeqMap { seq: "[18;7~", name: "C-M-F7", key: Key::F7, kmod: KEY_MOD_SPECIAL | KEY_MOD_CTRL | KEY_MOD_ALT },
        SeqMap { seq: "[19;7~", name: "C-M-F8", key: Key::F8, kmod: KEY_MOD_SPECIAL | KEY_MOD_CTRL | KEY_MOD_ALT },
        SeqMap { seq: "[20;7~", name: "C-M-F9", key: Key::F9, kmod: KEY_MOD_SPECIAL | KEY_MOD_CTRL | KEY_MOD_ALT },
        SeqMap { seq: "[21;7~", name: "C-M-F10", key: Key::F10, kmod: KEY_MOD_SPECIAL | KEY_MOD_CTRL | KEY_MOD_ALT },
        SeqMap { seq: "[23;7~", name: "C-M-F11", key: Key::F11, kmod: KEY_MOD_SPECIAL | KEY_MOD_CTRL | KEY_MOD_ALT },
        SeqMap { seq: "[24;7~", name: "C-M-F12", key: Key::F12, kmod: KEY_MOD_SPECIAL | KEY_MOD_CTRL | KEY_MOD_ALT },
    ]
}

/// The ESC sequence key map, sorted for the binary search
pub fn esc_keys_map_sorted() -> (r: Vec<SeqMap>)
    ensures
        r@.to_multiset() == esc_keys_table().to_multiset(),
        r@.len() == esc_keys_table().len(),
        is_sorted(r@),
{
    let mut map = esc_keys_map_unsorted();
    sort_seq(&mut map);
    map
}

// -----------------------------------------------------------------------------
// Single byte keys

/// Special key encoded by a single control byte: key, modifiers and name
pub open spec fn special_key(c: u8) -> Option<(Key, u8, &'static str)> {
    if c == DEL_CODE {
        Some((Key::Backspace, KEY_MOD_SPECIAL, "Backspace"))
    } else if c == HT_CODE {
        Some((Key::Tab, KEY_MOD_SPECIAL, "Tab"))
    } else if c == LF_CODE || c == CR_CODE {
        Some((Key::Enter, KEY_MOD_SPECIAL, "Enter"))
    } else if c == ESC_CODE {
        Some((Key::Esc, KEY_MOD_SPECIAL, "Esc"))
    } else if c == GS_CODE {
        Some((Key::Pause, KEY_MOD_SPECIAL, "Pause"))
    } else if c == RS_CODE {
        Some((Key::Enter, KEY_MOD_SPECIAL | KEY_MOD_CTRL, "C-Enter"))
    } else if c == US_CODE {
        Some((Key::Backspace, KEY_MOD_SPECIAL | KEY_MOD_CTRL, "C-Bspc"))
    } else {
        None
    }
}

/// Looks up the special key encoded by a single control byte
fn special_key_of(c: u8) -> (r: Option<(Key, u8, &'static str)>)
    ensures
        r == special_key(c),
{
    if c == DEL_CODE {
        Some((Key::Backspace, KEY_MOD_SPECIAL, "Backspace"))
    } else if c == HT_CODE {
        Some((Key::Tab, KEY_MOD_SPECIAL, "Tab"))
    } else if c == LF_CODE || c == CR_CODE {
        Some((Key::Enter, KEY_MOD_SPECIAL, "Enter"))
    } else if c == ESC_CODE {
        Some((Key::Esc, KEY_MOD_SPECIAL, "Esc"))
    } else if c == GS_CODE {
        Some((Key::Pause, KEY_MOD_SPECIAL, "Pause"))
    } else if c == RS_CODE {
        Some((Key::Enter, KEY_MOD_SPECIAL | KEY_MOD_CTRL, "C-Enter"))
    } else if c == US_CODE {
        Some((Key::Backspace, KEY_MOD_SPECIAL | KEY_MOD_CTRL, "C-Bspc"))
    } else {
        None
    }
}

/// Ctrl+letter encoded by a control byte 0x01..0x1A: the letter and the key name
pub open spec fn ctrl_key(c: u8) -> Option<(u8, &'static str)> {
    if c == 0x01 {
        Some((65u8, "C-A"))
    } else if c == 0x02 {
        Some((66u8, "C-B"))
    } else if c == 0x03 {
        Some((67u8, "C-C"))
    } else if c == 0x04 {
        Some((68u8, "C-D"))
    } else if c == 0x05 {
        Some((69u8, "C-E"))
    } else if c == 0x06 {
        Some((70u8, "C-F"))
    } else if c == 0x07 {
        Some((71u8, "C-G"))
    } else if c == 0x08 {
        Some((72u8, "C-H"))
    } else if c == 0x09 {
        Some((73u8, "C-I"))
    } else if c == 0x0A {
        Some((74u8, "C-J"))
    } else if c == 0x0B {
        Some((75u8, "C-K"))
    } else if c == 0x0C {
        Some((76u8, "C-L"))
    } else if c == 0x0D {
        Some((77u8, "C-M"))
    } else if c == 0x0E {
        Some((78u8, "C-N"))
    } else if c == 0x0F {
        Some((79u8, "C-O"))
    } else if c == 0x10 {
        Some((80u8, "C-P"))
    } else if c == 0x11 {
        Some((81u8, "C-Q"))
    } else if c == 0x12 {
        Some((82u8, "C-R"))
    } else if c == 0x13 {
        Some((83u8, "C-S"))
    } else if c == 0x14 {
        Some((84u8, "C-T"))
    } else if c == 0x15 {
        Some((85u8, "C-U"))
    } else if c == 0x16 {
        Some((86u8, "C-V"))
    } else if c == 0x17 {
        Some((87u8, "C-W"))
    } else if c == 0x18 {
        Some((88u8, "C-X"))
    } else if c == 0x19 {
        Some((89u8, "C-Y"))
    } else if c == 0x1A {
        Some((90u8, "C-Z"))
    } else {
        None
    }
}

/// Looks up the Ctrl+letter combination encoded by a control byte
fn ctrl_key_of(c: u8) -> (r: Option<(u8, &'static str)>)
    ensures
        r == ctrl_key(c),
{
    if c == 0x01 {
        Some((65u8, "C-A"))
    } else if c == 0x02 {
        Some((66u8, "C-B"))
    } else if c == 0x03 {
        Some((67u8, "C-C"))
    } else if c == 0x04 {
        Some((68u8, "C-D"))
    } else if c == 0x05 {
        Some((69u8, "C-E"))
    } else if c == 0x06 {
        Some((70u8, "C-F"))
    } else if c == 0x07 {
        Some((71u8, "C-G"))
    } else if c == 0x08 {
        Some((72u8, "C-H"))
    } else if c == 0x09 {
        Some((73u8, "C-I"))
    } else if c == 0x0A {
        Some((74u8, "C-J"))
    } else if c == 0x0B {
        Some((75u8, "C-K"))
    } else if c == 0x0C {
        Some((76u8, "C-L"))
    } else if c == 0x0D {
        Some((77u8, "C-M"))
    } else if c == 0x0E {
        Some((78u8, "C-N"))
    } else if c == 0x0F {
        Some((79u8, "C-O"))
    } else if c == 0x10 {
        Some((80u8, "C-P"))
    } else if c == 0x11 {
        Some((81u8, "C-Q"))
    } else if c == 0x12 {
        Some((82u8, "C-R"))
    } else if c == 0x13 {
        Some((83u8, "C-S"))
    } else if c == 0x14 {
        Some((84u8, "C-T"))
    } else if c == 0x15 {
        Some((85u8, "C-U"))
    } else if c == 0x16 {
        Some((86u8, "C-V"))
    } else if c == 0x17 {
        Some((87u8, "C-W"))
    } else if c == 0x18 {
        Some((88u8, "C-X"))
    } else if c == 0x19 {
        Some((89u8, "C-Y"))
    } else if c == 0x1A {
        Some((90u8, "C-Z"))
    } else {
        None
    }
}

// -----------------------------------------------------------------------------
// Decoder specification

/// Decoder state kept between calls
pub struct DecoderState {
    /// number of consecutive failed attempts to decode an ESC sequence
    pub fail_ctr: u8,
    /// set to 2 after CR, halved on every decoding step; LF right after CR is dropped
    pub prev_cr: u8,
    /// a sole ESC was seen and left for the next call
    pub esc_ignored: bool,
}

/// Decoded event, as the decoder fills it in
pub enum DecodedEvent {
    NoInput,
    /// bytes of the character buffer and the length of the character
    Char { bytes: Seq<u8>, len: u8 },
    Key(Key),
    Mouse(MouseInfo),
}

/// Decoded input: event, key modifiers and name
pub struct Decoded {
    pub evt: DecodedEvent,
    pub mask: u8,
    pub name: &'static str,
}

/// View of an input event
pub open spec fn event_view(e: InputEvent) -> DecodedEvent {
    match e {
        InputEvent::NoInput => DecodedEvent::NoInput,
        InputEvent::Char(cb) => DecodedEvent::Char { bytes: cb.utf8seq@, len: cb.utf8sl },
        InputEvent::Key(k) => DecodedEvent::Key(k),
        InputEvent::Mouse(m) => DecodedEvent::Mouse(m),
    }
}

/// View of a decoded input
pub open spec fn info_view(i: InputInfo) -> Decoded {
    Decoded { evt: event_view(i.evnt), mask: i.kmod.mask, name: i.name }
}

/// Nothing decoded
pub open spec fn no_input() -> Decoded {
    Decoded { evt: DecodedEvent::NoInput, mask: 0, name: "" }
}

/// Number of queue bytes the decoder looks at in one step
pub open spec fn window_len(q: Seq<u8>) -> int {
    if q.len() < 7 {
        q.len() as int
    } else {
        7
    }
}

/// Byte `i` of the step window, 0 past its end
pub open spec fn window_byte(q: Seq<u8>, i: int) -> u8 {
    if i < window_len(q) {
        q[i]
    } else {
        0
    }
}

/// Position of the first ESC in `q[i..sz]`
pub open spec fn first_esc_from(q: Seq<u8>, i: int, sz: int) -> Option<int>
    decreases sz - i,
{
    if i >= sz || i < 0 {
        None
    } else if q[i] == ESC_CODE {
        Some(i)
    } else {
        first_esc_from(q, i + 1, sz)
    }
}

/// Mouse event encoded by the button byte of a mouse report
pub open spec fn mouse_btn_event(btn: u8) -> MouseEvent {
    let b = btn & 0xE3;
    if b == 0x00 {
        MouseEvent::ButtonLeft
    } else if b == 0x01 {
        MouseEvent::ButtonMid
    } else if b == 0x02 {
        MouseEvent::ButtonRight
    } else if b == 0x03 {
        MouseEvent::ButtonReleased
    } else if b == 0x80 {
        MouseEvent::ButtonGoBack
    } else if b == 0x81 {
        MouseEvent::ButtonGoForward
    } else if b == 0x40 {
        MouseEvent::WheelUp
    } else if b == 0x41 {
        MouseEvent::WheelDown
    } else {
        MouseEvent::NoEvent
    }
}

/// Key modifiers encoded by the button byte of a mouse report
pub open spec fn mouse_btn_mods(btn: u8) -> u8 {
    let m1: u8 = if btn & 0x04 != 0 { 0u8 | KEY_MOD_SHIFT } else { 0u8 };
    let m2: u8 = if btn & 0x08 != 0 { m1 | KEY_MOD_ALT } else { m1 };
    if btn & 0x10 != 0 { m2 | KEY_MOD_CTRL } else { m2 }
}

/// Mouse report `ESC [ M b c r`: button and position are offset by 32
pub open spec fn mouse_decoded(b: u8, c: u8, r: u8) -> Decoded {
    let btn = b.wrapping_sub(32);
    Decoded {
        evt: DecodedEvent::Mouse(
            MouseInfo { evt: mouse_btn_event(btn), col: c.wrapping_sub(32), row: r.wrapping_sub(32) },
        ),
        mask: mouse_btn_mods(btn),
        name: "MouseEvent",
    }
}

/// Outcome of one decoding step: an answer, or a shorter queue to decode again
pub enum DecodeStep {
    Done(DecoderState, Seq<u8>, Decoded, u8),
    Again(DecoderState, Seq<u8>),
}

/// One step on a queue that starts with ESC followed by something else than ESC
pub open spec fn esc_step(keys: Seq<SeqMap>, st: DecoderState, q: Seq<u8>) -> DecodeStep {
    let sz = window_len(q);
    let cr = (st.prev_cr / 2) as u8;
    if sz < 3 {
        // sequence too short
        DecodeStep::Done(DecoderState { prev_cr: cr, ..st }, q, no_input(), 0)
    } else {
        let st1 = DecoderState { fail_ctr: st.fail_ctr, prev_cr: cr, esc_ignored: false };
        if sz >= 6 && q[1] == 0x5B && q[2] == 0x4D {
            DecodeStep::Done(st1, q.skip(6), mouse_decoded(q[3], q[4], q[5]), 6)
        } else {
            match spec_lookup(keys, q.subrange(1, sz)) {
                Some(km) => {
                    let n: int = 1 + seq_bytes(km).len() as int;
                    DecodeStep::Done(
                        st1,
                        q.skip(n),
                        Decoded { evt: DecodedEvent::Key(km.key), mask: km.kmod, name: km.name },
                        n as u8,
                    )
                },
                None => {
                    let next_esc = if sz > 3 { first_esc_from(q, 1, sz) } else { None };
                    match next_esc {
                        Some(i) => DecodeStep::Again(st1, q.skip(i)),
                        None => {
                            if st.fail_ctr + 1 == 3 {
                                // invalid sequence; drop entire buffer
                                DecodeStep::Done(
                                    DecoderState { fail_ctr: 0, ..st1 },
                                    Seq::empty(),
                                    no_input(),
                                    0,
                                )
                            } else {
                                DecodeStep::Done(
                                    DecoderState { fail_ctr: (st.fail_ctr + 1) as u8, ..st1 },
                                    q,
                                    no_input(),
                                    0,
                                )
                            }
                        },
                    }
                },
            }
        }
    }
}

/// The bytes following the leading one, up to `w`, are UTF-8 continuation bytes
pub open spec fn continuation_ok(q: Seq<u8>, w: int) -> bool {
    forall|k: int| 1 <= k < w ==> 0x80 <= #[trigger] q[k] <= 0xBF
}

/// The bytes following the leading one, up to `w`, are UTF-8 continuation bytes
fn continuation_bytes_ok(q: &InputQue, w: usize) -> (r: bool)
    requires
        w <= q@.len(),
    ensures
        r == continuation_ok(q@, w as int),
{
    let mut k: usize = 1;
    while k < w
        invariant
            1 <= k,
            w <= q@.len(),
            forall|j: int| 1 <= j < k ==> 0x80 <= #[trigger] q@[j] <= 0xBF,
        decreases w - k,
    {
        if q[k] < 0x80u8 || q[k] > 0xBFu8 {
            return false;
        }
        k = k + 1;
    }
    true
}

/// One step on a queue that starts with a single character
pub open spec fn char_step(st: DecoderState, q: Seq<u8>) -> DecodeStep {
    let sz = window_len(q);
    let cr = (st.prev_cr / 2) as u8;
    if q[0] == ESC_CODE && sz == 1 && !st.esc_ignored {
        // a sole ESC may start a sequence not received yet
        DecodeStep::Done(DecoderState { prev_cr: cr, esc_ignored: true, ..st }, q, no_input(), 0)
    } else {
        let st1 = DecoderState { fail_ctr: st.fail_ctr, prev_cr: cr, esc_ignored: false };
        match special_key(q[0]) {
            Some((k, m, n)) => {
                if q[0] == CR_CODE {
                    DecodeStep::Done(
                        DecoderState { prev_cr: 2, ..st1 },
                        q.skip(1),
                        Decoded { evt: DecodedEvent::Key(k), mask: m, name: n },
                        1,
                    )
                } else if q[0] == LF_CODE && cr > 0 {
                    // LF after CR
                    DecodeStep::Again(DecoderState { prev_cr: 0, ..st1 }, q.skip(1))
                } else {
                    DecodeStep::Done(
                        st1,
                        q.skip(1),
                        Decoded { evt: DecodedEvent::Key(k), mask: m, name: n },
                        1,
                    )
                }
            },
            None => match ctrl_key(q[0]) {
                Some((letter, n)) => DecodeStep::Done(
                    st1,
                    q.skip(1),
                    Decoded {
                        evt: DecodedEvent::Char { bytes: seq![letter, 0u8, 0u8, 0u8], len: 1 },
                        mask: KEY_MOD_CTRL,
                        name: n,
                    },
                    1,
                ),
                None => {
                    let w = spec_utf8_char_width(q[0]);
                    if w > 0 && w <= sz && !continuation_ok(q, w as int) {
                        // broken UTF-8 sequence: its leading byte is dropped
                        DecodeStep::Again(st1, q.skip(1))
                    } else if w > 0 && w <= sz {
                        DecodeStep::Done(
                            st1,
                            q.skip(w as int),
                            Decoded {
                                evt: DecodedEvent::Char {
                                    bytes: seq![
                                        window_byte(q, 0),
                                        window_byte(q, 1),
                                        window_byte(q, 2),
                                        window_byte(q, 3),
                                    ],
                                    len: w as u8,
                                },
                                mask: 0,
                                name: "<Char>",
                            },
                            w as u8,
                        )
                    } else if w > 0 {
                        // incomplete UTF-8 sequence: try next time with more data
                        DecodeStep::Done(st1, q, no_input(), 0)
                    } else {
                        // invalid byte
                        DecodeStep::Again(st1, q.skip(1))
                    }
                },
            },
        }
    }
}

/// One decoding step on a non-empty queue
pub open spec fn decode_step(keys: Seq<SeqMap>, st: DecoderState, q: Seq<u8>) -> DecodeStep {
    if window_len(q) > 1 && q[0] == ESC_CODE && q[1] != ESC_CODE {
        esc_step(keys, st, q)
    } else {
        char_step(st, q)
    }
}

/// Decoding of the queue: steps until one gives an answer or the queue runs out;
/// the final state, the remaining queue, the decoded input and the length of the decoded input (0 where none)
pub open spec fn decode_spec(keys: Seq<SeqMap>, st: DecoderState, q: Seq<u8>) -> (
    DecoderState,
    Seq<u8>,
    Decoded,
    u8,
)
    decreases q.len(),
{
    if q.len() == 0 {
        (st, q, no_input(), 0)
    } else {
        match decode_step(keys, st, q) {
            DecodeStep::Done(st2, q2, d, n) => (st2, q2, d, n),
            DecodeStep::Again(st2, q2) => {
                if q2.len() < q.len() {
                    decode_spec(keys, st2, q2)
                } else {
                    (st2, q2, no_input(), 0)
                }
            },
        }
    }
}

// -----------------------------------------------------------------------------

/// A position found by `first_esc_from` lies in the searched range
proof fn lemma_first_esc_bounds(q: Seq<u8>, i: int, sz: int)
    ensures
        first_esc_from(q, i, sz) matches Some(j) ==> i <= j < sz && q[j] == ESC_CODE,
    decreases sz - i,
{
    if i < sz && i >= 0 && q[i] != ESC_CODE {
        lemma_first_esc_bounds(q, i + 1, sz);
    }
}

/// A step that asks to decode again always leaves a shorter queue
proof fn lemma_again_shorter(keys: Seq<SeqMap>, st: DecoderState, q: Seq<u8>)
    requires
        q.len() > 0,
    ensures
        decode_step(keys, st, q) matches DecodeStep::Again(_, q2) ==> q2.len() < q.len(),
{
    lemma_first_esc_bounds(q, 1, window_len(q));
}

/// In a prefix-free map, an entry matching the input is the one the lookup finds
proof fn lemma_lookup_finds(map: Seq<SeqMap>, input: Seq<u8>, k: int)
    requires
        is_prefix_free(map),
        0 <= k < map.len(),
        entry_matches(map[k], input),
        input.len() >= 2,
        input[0] != 0,
    ensures
        spec_lookup(map, input) == Some(map[k]),
{
    assert forall|j: int| 0 <= j < k implies !entry_matches(#[trigger] map[j], input) by {
        if entry_matches(map[j], input) {
            lemma_match_unique(map, input, j, k);
        }
    }
    assert(first_match_at(map, input, k));
    let i = choose|i: int| first_match_at(map, input, i);
    lemma_match_unique(map, input, i, k);
}

/// A key's ESC sequence, followed by any bytes, is decoded as that key: the decoder reports
/// the key, its modifiers and name, and leaves the bytes that follow
pub proof fn lemma_decode_known_key(keys: Seq<SeqMap>, st: DecoderState, k: int, rest: Seq<u8>)
    requires
        is_prefix_free(keys),
        0 <= k < keys.len(),
        2 <= seq_bytes(keys[k]).len() <= 6,
        seq_bytes(keys[k])[0] != ESC_CODE,
        seq_bytes(keys[k])[0] != 0,
        !(seq_bytes(keys[k])[0] == 0x5B && seq_bytes(keys[k])[1] == 0x4D),
    ensures
        decode_spec(keys, st, seq![ESC_CODE] + seq_bytes(keys[k]) + rest) == (
            DecoderState { fail_ctr: st.fail_ctr, prev_cr: (st.prev_cr / 2) as u8, esc_ignored: false },
            rest,
            Decoded { evt: DecodedEvent::Key(keys[k].key), mask: keys[k].kmod, name: keys[k].name },
            (1 + seq_bytes(keys[k]).len()) as u8,
        ),
{
    let e = seq_bytes(keys[k]);
    let q = seq![ESC_CODE] + e + rest;
    let sz = window_len(q);
    let input = q.subrange(1, sz);
    assert(input.take(e.len() as int) =~= e);
    assert(entry_matches(keys[k], input));
    lemma_lookup_finds(keys, input, k);
    assert(q.skip(1 + e.len() as int) =~= rest);
    assert(q[1] == e[0] && q[2] == e[1]);
}

/// A mouse report `ESC [ M b c r` is decoded as a mouse event at column `c - 32` and row
/// `r - 32`, and leaves the bytes that follow; a button byte 32 to 35 (no modifier) is the left,
/// middle or right button pressed, or a button released
pub proof fn lemma_decode_mouse_report(keys: Seq<SeqMap>, st: DecoderState, b: u8, c: u8, r: u8, rest: Seq<u8>)
    requires
        32 <= c,
        32 <= r,
    ensures
        ({
            let (st2, q2, d, n) = decode_spec(keys, st, seq![ESC_CODE, 0x5Bu8, 0x4Du8, b, c, r] + rest);
            &&& q2 == rest
            &&& n == 6
            &&& d.evt matches DecodedEvent::Mouse(m) && m.col == c - 32 && m.row == r - 32
            &&& 32 <= b < 36 ==> d.mask == 0 && (d.evt matches DecodedEvent::Mouse(m) && m.evt == (if b == 32 {
                MouseEvent::ButtonLeft
            } else if b == 33 {
                MouseEvent::ButtonMid
            } else if b == 34 {
                MouseEvent::ButtonRight
            } else {
                MouseEvent::ButtonReleased
            }))
        }),
{
    let q = seq![ESC_CODE, 0x5Bu8, 0x4Du8, b, c, r] + rest;
    assert(q[0] == ESC_CODE && q[1] == 0x5B && q[2] == 0x4D && q[3] == b && q[4] == c && q[5] == r);
    assert(q.skip(6) =~= rest);
    if 32 <= b < 36 {
        let btn = (b - 32) as u8;
        assert(b.wrapping_sub(32) == btn);
        assert(btn & 0xE3 == btn && btn & 0x04 == 0 && btn & 0x08 == 0 && btn & 0x10 == 0) by (bit_vector)
            requires
                btn < 4,
        ;
    }
}

/// Two keys' ESC sequences in a row are decoded one per call, in order: the first call reports
/// the first key and leaves the second sequence, the next call reports the second key
pub proof fn lemma_decode_keys_in_order(keys: Seq<SeqMap>, st: DecoderState, k1: int, k2: int, rest: Seq<u8>)
    requires
        is_prefix_free(keys),
        0 <= k1 < keys.len(),
        0 <= k2 < keys.len(),
        2 <= seq_bytes(keys[k1]).len() <= 6,
        2 <= seq_bytes(keys[k2]).len() <= 6,
        seq_bytes(keys[k1])[0] != ESC_CODE && seq_bytes(keys[k1])[0] != 0,
        seq_bytes(keys[k2])[0] != ESC_CODE && seq_bytes(keys[k2])[0] != 0,
        !(seq_bytes(keys[k1])[0] == 0x5B && seq_bytes(keys[k1])[1] == 0x4D),
        !(seq_bytes(keys[k2])[0] == 0x5B && seq_bytes(keys[k2])[1] == 0x4D),
    ensures
        ({
            let q = seq![ESC_CODE] + seq_bytes(keys[k1]) + (seq![ESC_CODE] + seq_bytes(keys[k2]) + rest);
            let (st1, q1, d1, _) = decode_spec(keys, st, q);
            let (st2, q2, d2, _) = decode_spec(keys, st1, q1);
            &&& d1.evt == DecodedEvent::Key(keys[k1].key)
            &&& q1 == seq![ESC_CODE] + seq_bytes(keys[k2]) + rest
            &&& d2.evt == DecodedEvent::Key(keys[k2].key)
            &&& q2 == rest
        }),
{
    lemma_decode_known_key(keys, st, k1, seq![ESC_CODE] + seq_bytes(keys[k2]) + rest);
    let st1 = decode_spec(keys, st, seq![ESC_CODE] + seq_bytes(keys[k1]) + (seq![ESC_CODE] + seq_bytes(keys[k2]) + rest)).0;
    lemma_decode_known_key(keys, st1, k2, rest);
}

/// A printable ASCII character is decoded as that character, one byte long, and leaves the
/// bytes that follow
pub proof fn lemma_decode_ascii_char(keys: Seq<SeqMap>, st: DecoderState, c: u8, rest: Seq<u8>)
    requires
        0x20 <= c < 0x7F,
    ensures
        ({
            let (st2, q2, d, n) = decode_spec(keys, st, seq![c] + rest);
            &&& n == 1
            &&& q2 == rest
            &&& d.mask == 0
            &&& d.evt matches DecodedEvent::Char { bytes, len } && len == 1 && bytes[0] == c
            &&& st2 == DecoderState { fail_ctr: st.fail_ctr, prev_cr: (st.prev_cr / 2) as u8, esc_ignored: false }
        }),
{
    let q = seq![c] + rest;
    assert(q[0] == c);
    assert(q.skip(1) =~= rest);
    assert(continuation_ok(q, 1));
}

/// A CR followed by an LF gives one Enter: the LF left after the CR is dropped by the next
/// decoding, which then goes on with what follows it
pub proof fn lemma_decode_crlf_single_enter(keys: Seq<SeqMap>, st: DecoderState, rest: Seq<u8>)
    ensures
        ({
            let (st2, q2, d, n) = decode_spec(keys, st, seq![CR_CODE, LF_CODE] + rest);
            &&& d.evt == DecodedEvent::Key(Key::Enter)
            &&& n == 1
            &&& q2 == seq![LF_CODE] + rest
            &&& decode_spec(keys, st2, q2) == decode_spec(
                keys,
                DecoderState { fail_ctr: st2.fail_ctr, prev_cr: 0, esc_ignored: false },
                rest,
            )
        }),
{
    let q = seq![CR_CODE, LF_CODE] + rest;
    assert(q[0] == CR_CODE && q[1] == LF_CODE);
    assert(q.skip(1) =~= seq![LF_CODE] + rest);
    let q2 = seq![LF_CODE] + rest;
    assert(q2[0] == LF_CODE);
    assert(q2.skip(1) =~= rest);
}

/// What a decoding reports: for decoded input, every byte that left the queue `q` to leave
/// `rest`, counting at most 255; 0 where nothing was decoded (`n` is 0)
pub open spec fn consumed_count(q: Seq<u8>, rest: Seq<u8>, n: u8) -> u8 {
    if n == 0 {
        0
    } else if q.len() - rest.len() > 255 {
        255
    } else {
        (q.len() - rest.len()) as u8
    }
}

/// `rest` is `q` without some of its leading bytes
pub open spec fn drops_prefix(q: Seq<u8>, rest: Seq<u8>) -> bool {
    exists|k: int| 0 <= k <= q.len() && rest == #[trigger] q.skip(k)
}

/// A found entry matches the input it was looked up for
proof fn lemma_lookup_matches(keys: Seq<SeqMap>, x: Seq<u8>)
    ensures
        spec_lookup(keys, x) matches Some(km) ==> entry_matches(km, x),
{
    if x.len() >= 2 && x[0] != 0 && exists|i: int| first_match_at(keys, x, i) {
        let i = choose|i: int| first_match_at(keys, x, i);
        assert(first_match_at(keys, x, i));
    }
}

/// One decoding step keeps the queue, or removes some of its leading bytes
proof fn lemma_step_drops_prefix(keys: Seq<SeqMap>, st: DecoderState, q: Seq<u8>)
    requires
        q.len() > 0,
    ensures
        match decode_step(keys, st, q) {
            DecodeStep::Done(_, q2, _, _) => drops_prefix(q, q2),
            DecodeStep::Again(_, q2) => drops_prefix(q, q2),
        },
{
    assert(q.skip(0) =~= q);
    assert(q.skip(q.len() as int) =~= Seq::<u8>::empty());
    lemma_first_esc_bounds(q, 1, window_len(q));
    let sz = window_len(q);
    if sz >= 3 {
        lemma_lookup_matches(keys, q.subrange(1, sz));
    }
    match decode_step(keys, st, q) {
        DecodeStep::Done(_, q2, _, _) => {
            assert(drops_prefix(q, q2));
        },
        DecodeStep::Again(_, q2) => {
            assert(drops_prefix(q, q2));
        },
    }
}

/// Decoding never adds to the queue nor reorders it: what is left is the input without some
/// of its leading bytes
pub proof fn lemma_decode_drops_prefix(keys: Seq<SeqMap>, st: DecoderState, q: Seq<u8>)
    ensures
        drops_prefix(q, decode_spec(keys, st, q).1),
    decreases q.len(),
{
    assert(q.skip(0) =~= q);
    if q.len() > 0 {
        lemma_step_drops_prefix(keys, st, q);
        match decode_step(keys, st, q) {
            DecodeStep::Done(_, _, _, _) => {},
            DecodeStep::Again(st2, q2) => {
                if q2.len() < q.len() {
                    lemma_decode_drops_prefix(keys, st2, q2);
                    let k = choose|k: int| 0 <= k <= q.len() && q2 == #[trigger] q.skip(k);
                    let rest = decode_spec(keys, st2, q2).1;
                    let k2 = choose|k2: int| 0 <= k2 <= q2.len() && rest == #[trigger] q2.skip(k2);
                    assert(rest =~= q.skip(k + k2));
                }
            },
        }
    }
}

/// Position of the first ESC in `q[1..sz]`
fn find_next_esc(q: &InputQue, sz: usize) -> (r: Option<usize>)
    requires
        sz <= q@.len(),
    ensures
        match r {
            Some(i) => first_esc_from(q@, 1, sz as int) == Some(i as int) && 1 <= i < sz,
            None => first_esc_from(q@, 1, sz as int) is None,
        },
{
    let mut i: usize = 1;
    while i < sz
        invariant
            1 <= i,
            sz <= q@.len(),
            first_esc_from(q@, 1, sz as int) == first_esc_from(q@, i as int, sz as int),
        decreases sz - i,
    {
        if q[i] == ESC_CODE {
            return Some(i);
        }
        i = i + 1;
    }
    None
}

/// Removes the first `n` bytes of the queue
fn drain_front(q: &mut InputQue, n: usize)
    requires
        n <= old(q)@.len(),
    ensures
        final(q)@ == old(q)@.skip(n as int),
{
    let rest = q.split_off(n);
    *q = rest;
}

/// ESC sequence into Key description decoder
pub struct Decoder {
    decode_fail_ctr: u8,
    prev_cr: u8,
    prev_esc_ignored: bool,
    esc_keys: Vec<SeqMap>,
    esc_keys_prefix_free: bool,
}

impl Default for Decoder {
    /// Decoder in its initial state, recognizing the built-in ESC sequences
    fn default() -> (d: Self)
        ensures
            d.state() == (DecoderState { fail_ctr: 0, prev_cr: 0, esc_ignored: false }),
            d.keys().to_multiset() == esc_keys_table().to_multiset(),
            d.keys().len() == esc_keys_table().len(),
            is_sorted(d.keys()),
    {
        let keys = esc_keys_map_sorted();
        let pf = check_prefix_free(&keys);
        Decoder {
            decode_fail_ctr: 0,
            prev_cr: 0,
            prev_esc_ignored: false,
            esc_keys: keys,
            esc_keys_prefix_free: pf,
        }
    }
}

impl Decoder {
    #[verifier::type_invariant]
    spec fn inv(self) -> bool {
        &&& self.decode_fail_ctr < 3
        &&& is_sorted(self.esc_keys@)
        &&& self.esc_keys_prefix_free ==> is_prefix_free(self.esc_keys@)
    }

    /// The state kept between calls
    pub closed spec fn state(&self) -> DecoderState {
        DecoderState {
            fail_ctr: self.decode_fail_ctr,
            prev_cr: self.prev_cr,
            esc_ignored: self.prev_esc_ignored,
        }
    }

    /// The ESC sequence key map the decoder recognizes
    pub closed spec fn keys(&self) -> Seq<SeqMap> {
        self.esc_keys@
    }

    /// Reset the state
    pub fn reset_state(&mut self)
        ensures
            final(self).state() == (DecoderState { fail_ctr: 0, prev_cr: 0, esc_ignored: false }),
            final(self).keys() == old(self).keys(),
    {
        proof {
            use_type_invariant(&*self);
        }
        self.decode_fail_ctr = 0;
        self.prev_cr = 0;
        self.prev_esc_ignored = false;
    }

    /// Step on a queue that starts with ESC followed by something else than ESC;
    /// `Some(n)` when it gives an answer, `None` when the shortened queue is to be decoded again
    fn step_esc(&mut self, input: &mut InputQue, inp_info: &mut InputInfo) -> (r: Option<u8>)
        requires
            old(input)@.len() >= 2,
            old(input)@[0] == ESC_CODE,
            old(input)@[1] != ESC_CODE,
            info_view(*old(inp_info)) == no_input(),
        ensures
            final(self).keys() == old(self).keys(),
            match esc_step(old(self).keys(), old(self).state(), old(input)@) {
                DecodeStep::Done(st, q, d, n) => r == Some(n) && final(self).state() == st
                    && final(input)@ == q && info_view(*final(inp_info)) == d,
                DecodeStep::Again(st, q) => r is None && final(self).state() == st
                    && final(input)@ == q && info_view(*final(inp_info)) == no_input(),
            },
    {
        proof {
            use_type_invariant(&*self);
        }
        let ghost q0 = input@;
        let seq_sz: usize = if input.len() < 7 { input.len() } else { 7 };
        let pc = self.prev_cr;
        let half = pc >> 1;
        assert(half == (pc / 2) as u8) by (bit_vector)
            requires
                half == pc >> 1,
        ;
        self.prev_cr = half;
        if seq_sz < 3 {
            // sequence too short
            return Some(0);
        }
        self.prev_esc_ignored = false;

        // check mouse code
        if seq_sz >= 6 && input[1] == 0x5Bu8 && input[2] == 0x4Du8 {
            let mouse_btn = input[3].wrapping_sub(32);
            let mut mi = MouseInfo::default();
            let b = mouse_btn & 0xE3;
            if b == 0x00 {
                mi.evt = MouseEvent::ButtonLeft;
            } else if b == 0x01 {
                mi.evt = MouseEvent::ButtonMid;
            } else if b == 0x02 {
                mi.evt = MouseEvent::ButtonRight;
            } else if b == 0x03 {
                mi.evt = MouseEvent::ButtonReleased;
            } else if b == 0x80 {
                mi.evt = MouseEvent::ButtonGoBack;
            } else if b == 0x81 {
                mi.evt = MouseEvent::ButtonGoForward;
            } else if b == 0x40 {
                mi.evt = MouseEvent::WheelUp;
            } else if b == 0x41 {
                mi.evt = MouseEvent::WheelDown;
            } else {
                mi.evt = MouseEvent::NoEvent;
            }
            if mouse_btn & 0x04 != 0 {
                inp_info.kmod.set_shift();
            }
            if mouse_btn & 0x08 != 0 {
                inp_info.kmod.set_alt();
            }
            if mouse_btn & 0x10 != 0 {
                inp_info.kmod.set_ctrl();
            }
            mi.col = input[4].wrapping_sub(32);
            mi.row = input[5].wrapping_sub(32);
            inp_info.evnt = InputEvent::Mouse(mi);
            inp_info.name = "MouseEvent";
            drain_front(input, 6);
            return Some(6);
        }
        // binary search: find key map in max 7 steps
        let window = vstd::slice::slice_subrange(input.as_slice(), 1, seq_sz);
        match self.lookup(window) {
            Some(km) => {
                let n: usize = 1 + km.seq.as_bytes().len();
                proof {
                    // the entry begins the window, so it fits in it
                    assert(seq_bytes(km).len() <= window@.len());
                }
                inp_info.evnt = InputEvent::Key(km.key);
                inp_info.kmod.mask = km.kmod;
                inp_info.name = km.name;
                drain_front(input, n);
                return Some(n as u8);
            },
            None => {},
        }
        // ESC sequence invalid or unknown?
        if seq_sz > 3 {
            // data is long enough to store ESC sequence
            match find_next_esc(input, seq_sz) {
                Some(i) => {
                    // found next ESC, current seq is unknown
                    drain_front(input, i);
                    return None;
                },
                None => {},
            }
        }
        let f = self.decode_fail_ctr + 1;
        if f == 3 {
            // invalid sequence; drop entire buffer
            self.decode_fail_ctr = 0;
            input.clear();
        } else {
            self.decode_fail_ctr = f;
        }
        Some(0)
    }

    /// Step on a queue that starts with a single character;
    /// `Some(n)` when it gives an answer, `None` when the shortened queue is to be decoded again
    fn step_char(&mut self, input: &mut InputQue, inp_info: &mut InputInfo) -> (r: Option<u8>)
        requires
            old(input)@.len() >= 1,
            !(window_len(old(input)@) > 1 && old(input)@[0] == ESC_CODE && old(input)@[1] != ESC_CODE),
            info_view(*old(inp_info)) == no_input(),
        ensures
            final(self).keys() == old(self).keys(),
            match char_step(old(self).state(), old(input)@) {
                DecodeStep::Done(st, q, d, n) => r == Some(n) && final(self).state() == st
                    && final(input)@ == q && info_view(*final(inp_info)) == d,
                DecodeStep::Again(st, q) => r is None && final(self).state() == st
                    && final(input)@ == q && info_view(*final(inp_info)) == no_input(),
            },
    {
        proof {
            use_type_invariant(&*self);
        }
        let seq_sz: usize = if input.len() < 7 { input.len() } else { 7 };
        let pc = self.prev_cr;
        let half = pc >> 1;
        assert(half == (pc / 2) as u8) by (bit_vector)
            requires
                half == pc >> 1,
        ;
        self.prev_cr = half;
        let c0 = input[0];
        if c0 == ESC_CODE && seq_sz == 1 && !self.prev_esc_ignored {
            // avoid situations where ESC not followed by another code
            // is decoded as freestanding Esc key
            self.prev_esc_ignored = true;
            return Some(0);
        }
        self.prev_esc_ignored = false;

        // check for special key
        // note: it conflicts with ctrl_keys_map[] but has higher priority
        match special_key_of(c0) {
            Some((key, kmod, name)) => {
                if c0 == CR_CODE {
                    // CR   -> treat as LF
                    // CRLF -> ignore LF
                    //   LF -> LF
                    self.prev_cr = 2;
                } else if c0 == LF_CODE && self.prev_cr > 0 {
                    drain_front(input, 1);
                    self.prev_cr = 0;
                    return None;
                }
                inp_info.evnt = InputEvent::Key(key);
                inp_info.kmod.mask = kmod;
                inp_info.name = name;
                drain_front(input, 1);
                return Some(1);
            },
            None => {},
        }
        // check for one of Ctrl+[A..Z]
        match ctrl_key_of(c0) {
            Some((letter, name)) => {
                let cb = CharBuff { utf8seq: [letter, 0u8, 0u8, 0u8], utf8sl: 1 };
                inp_info.evnt = InputEvent::Char(cb);
                inp_info.kmod.mask = KEY_MOD_CTRL;
                inp_info.name = name;
                drain_front(input, 1);
                assert(cb.utf8seq@ =~= seq![letter, 0u8, 0u8, 0u8]);
                return Some(1);
            },
            None => {},
        }
        // regular ASCII character or UTF-8 sequence
        let utf8seqlen = utf8_char_width(c0);
        if utf8seqlen > 0 && utf8seqlen <= seq_sz && !continuation_bytes_ok(input, utf8seqlen) {
            // broken UTF-8 sequence: drop its leading byte
            drain_front(input, 1);
            return None;
        }
        if utf8seqlen > 0 && utf8seqlen <= seq_sz {
            let b1: u8 = if 1 < seq_sz { input[1] } else { 0 };
            let b2: u8 = if 2 < seq_sz { input[2] } else { 0 };
            let b3: u8 = if 3 < seq_sz { input[3] } else { 0 };
            let cb = CharBuff { utf8seq: [c0, b1, b2, b3], utf8sl: utf8seqlen as u8 };
            inp_info.evnt = InputEvent::Char(cb);
            inp_info.name = "<Char>";
            assert(cb.utf8seq@ =~= seq![
                window_byte(old(input)@, 0),
                window_byte(old(input)@, 1),
                window_byte(old(input)@, 2),
                window_byte(old(input)@, 3),
            ]);
            drain_front(input, utf8seqlen);
            Some(utf8seqlen as u8)
        } else if utf8seqlen > 0 {
            // try next time with more data
            Some(0)
        } else {
            // invalid byte
            drain_front(input, 1);
            None
        }
    }

    /// Decodes input ESC sequence fetching bytes from queue;
    /// fills the output with decoded key/mouse event,
    /// Returns number of bytes consumed from the queue (stray bytes dropped before the decoded
    /// input included, at most 255); 0 if no valid data found
    pub fn decode_input_seq(&mut self, input: &mut InputQue, inp_info: &mut InputInfo) -> (r: u8)
        ensures
            final(self).keys() == old(self).keys(),
            ({
                let (st, q, d, n) = decode_spec(old(self).keys(), old(self).state(), old(input)@);
                &&& final(self).state() == st
                &&& final(input)@ == q
                &&& info_view(*final(inp_info)) == d
                &&& r == consumed_count(old(input)@, q, n)
            }),
    {
        inp_info.reset();
        let start_len = input.len();
        while input.len() > 0
            invariant
                info_view(*inp_info) == no_input(),
                self.keys() == old(self).keys(),
                input@.len() <= start_len == old(input)@.len(),
                decode_spec(self.keys(), self.state(), input@) == decode_spec(
                    old(self).keys(),
                    old(self).state(),
                    old(input)@,
                ),
            decreases input@.len(),
        {
            let ghost q = input@;
            let ghost st = self.state();
            proof {
                lemma_again_shorter(self.keys(), st, q);
                lemma_step_drops_prefix(self.keys(), st, q);
            }
            let is_esc_seq = input.len() > 1 && input[0] == ESC_CODE && input[1] != ESC_CODE;
            let res = if is_esc_seq {
                self.step_esc(input, inp_info)
            } else {
                self.step_char(input, inp_info)
            };
            assert(input@.len() <= q.len());
            match res {
                Some(n) => {
                    if n == 0 {
                        return 0;
                    }
                    let used = start_len - input.len();
                    if used > 255 {
                        return 255;
                    }
                    return used as u8;
                },
                None => {},
            }
        }
        assert(input@ =~= Seq::<u8>::empty());
        0
    }

    /// Finds the first key map entry whose sequence begins `sequence`
    fn lookup(&self, sequence: &[u8]) -> (r: Option<SeqMap>)
        ensures
            r == spec_lookup(self.keys(), sequence@),
    {
        proof {
            use_type_invariant(self);
        }
        if sequence.len() < 2 || sequence[0] == 0 {
            return None;
        }
        if self.esc_keys_prefix_free {
            match seq_binary_search(sequence, self.esc_keys.as_slice()) {
                Some(m) => Some(*m),
                None => None,
            }
        } else {
            match seq_linear_search(sequence, self.esc_keys.as_slice()) {
                Some(m) => Some(*m),
                None => None,
            }
        }
    }
}

} // verus!
