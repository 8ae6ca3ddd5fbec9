//! Ordering of texts and the stable arrangement of a list by text keys.

use vstd::prelude::*;

verus! {

/// `a` and `b` agree on their first `n` characters.
pub open spec fn agree_up_to(a: Seq<char>, b: Seq<char>, n: int) -> bool {
    &&& 0 <= n <= a.len()
    &&& n <= b.len()
    &&& forall|i: int| 0 <= i < n ==> a[i] == b[i]
}

/// Dictionary order on texts, characters compared by code point: `a` comes
/// before `b` or equals it. After the longest common start either `a` has
/// ended, or both go on and `a` has the smaller character.
pub open spec fn text_le(a: Seq<char>, b: Seq<char>) -> bool {
    exists|n: int| #[trigger]
        agree_up_to(a, b, n) && (n == a.len() || (n < b.len() && a[n] < b[n]))
}

/// The place in `order` behind the last index whose key does not come after
/// `key`; zero when every key comes after it.
pub open spec fn slot(keys: Seq<Seq<char>>, order: Seq<int>, key: Seq<char>) -> int
    decreases order.len(),
{
    if order.len() == 0 {
        0
    } else if text_le(keys[order.last()], key) {
        order.len() as int
    } else {
        slot(keys, order.drop_last(), key)
    }
}

/// The stable arrangement of the first `count` keys: their indices, each
/// inserted in turn behind the indices whose keys do not come after its own.
pub open spec fn arrange_first(keys: Seq<Seq<char>>, count: nat) -> Seq<int>
    decreases count,
{
    if count == 0 {
        Seq::empty()
    } else {
        let earlier = arrange_first(keys, (count - 1) as nat);
        earlier.insert(slot(keys, earlier, keys[count - 1]), count - 1)
    }
}

/// The indices of `keys` in ascending order of their keys; indices with
/// equal keys keep their relative order.
pub open spec fn stable_order(keys: Seq<Seq<char>>) -> Seq<int> {
    arrange_first(keys, keys.len())
}

/// `order` lists each of the indices below `count` exactly once.
pub open spec fn is_arrangement(order: Seq<int>, count: nat) -> bool {
    &&& order.len() == count
    &&& forall|p: int| 0 <= p < order.len() ==> 0 <= #[trigger] order[p] < count
    &&& forall|p: int, q: int| 0 <= p < q < order.len() ==> #[trigger] order[p] != #[trigger] order[q]
    &&& forall|i: int| 0 <= i < count ==> #[trigger] order.contains(i)
}

/// Along `order` the keys never descend.
pub open spec fn ascending(keys: Seq<Seq<char>>, order: Seq<int>) -> bool {
    forall|p: int, q: int|
        0 <= p < q < order.len() ==> text_le(keys[#[trigger] order[p]], keys[#[trigger] order[q]])
}

/// Along `order`, indices whose keys are equal stand in ascending order.
pub open spec fn keeps_ties(keys: Seq<Seq<char>>, order: Seq<int>) -> bool {
    forall|p: int, q: int|
        0 <= p < q < order.len() && keys[#[trigger] order[p]] == keys[#[trigger] order[q]]
            ==> order[p] < order[q]
}

/// Every text comes before or equals itself.
pub proof fn lemma_text_le_reflexive(a: Seq<char>)
    ensures
        text_le(a, a),
{
    assert(agree_up_to(a, a, a.len() as int));
}

/// Of two texts one comes before the other or equals it.
pub proof fn lemma_text_le_total(a: Seq<char>, b: Seq<char>)
    ensures
        text_le(a, b) || text_le(b, a),
{
    let n = common_start(a, b, 0);
    lemma_common_start(a, b, 0);
    assert(agree_up_to(b, a, n));
}

/// Texts that come before or equal each other are the same text.
pub proof fn lemma_text_le_antisymmetric(a: Seq<char>, b: Seq<char>)
    requires
        text_le(a, b),
        text_le(b, a),
    ensures
        a == b,
{
    // Where one text ends or is smaller, the other can neither go on nor be
    // smaller there: both end at the same place.
    let n = choose|n: int| #[trigger]
        agree_up_to(a, b, n) && (n == a.len() || (n < b.len() && a[n] < b[n]));
    let m = choose|m: int| #[trigger]
        agree_up_to(b, a, m) && (m == b.len() || (m < a.len() && b[m] < a[m]));
}

/// Dictionary order is transitive.
pub proof fn lemma_text_le_transitive(a: Seq<char>, b: Seq<char>, c: Seq<char>)
    requires
        text_le(a, b),
        text_le(b, c),
    ensures
        text_le(a, c),
{
    let n = choose|n: int| #[trigger]
        agree_up_to(a, b, n) && (n == a.len() || (n < b.len() && a[n] < b[n]));
    let m = choose|m: int| #[trigger]
        agree_up_to(b, c, m) && (m == b.len() || (m < c.len() && b[m] < c[m]));
    // `a` and `c` agree up to the earlier of the two places.
    let k = if n <= m {
        n
    } else {
        m
    };
    assert(agree_up_to(a, c, k));
}

/// Length of the longest common start of `a` and `b`, counted from a
/// position up to which they are known to agree.
pub open spec fn common_start(a: Seq<char>, b: Seq<char>, from: int) -> int
    decreases a.len() - from,
{
    if 0 <= from < a.len() && from < b.len() && a[from] == b[from] {
        common_start(a, b, from + 1)
    } else {
        from
    }
}

/// `common_start` ends where one text ends or the two differ.
pub proof fn lemma_common_start(a: Seq<char>, b: Seq<char>, from: int)
    requires
        agree_up_to(a, b, from),
    ensures
        agree_up_to(a, b, common_start(a, b, from)),
        common_start(a, b, from) == a.len() || common_start(a, b, from) == b.len() || a[common_start(
            a,
            b,
            from,
        )] != b[common_start(a, b, from)],
    decreases a.len() - from,
{
    if from < a.len() && from < b.len() && a[from] == b[from] {
        lemma_common_start(a, b, from + 1);
    }
}

/// In an ascending order, everything before the slot of `key` does not come
/// after `key`, and everything from the slot on does.
pub proof fn lemma_slot(keys: Seq<Seq<char>>, order: Seq<int>, key: Seq<char>)
    requires
        ascending(keys, order),
    ensures
        0 <= slot(keys, order, key) <= order.len(),
        forall|p: int| 0 <= p < slot(keys, order, key) ==> text_le(keys[#[trigger] order[p]], key),
        forall|p: int|
            slot(keys, order, key) <= p < order.len() ==> !text_le(keys[#[trigger] order[p]], key),
    decreases order.len(),
{
    if order.len() > 0 {
        if text_le(keys[order.last()], key) {
            assert forall|p: int| 0 <= p < order.len() implies text_le(
                keys[#[trigger] order[p]],
                key,
            ) by {
                if p < order.len() - 1 {
                    lemma_text_le_transitive(keys[order[p]], keys[order.last()], key);
                }
            }
        } else {
            let shorter = order.drop_last();
            assert(ascending(keys, shorter));
            lemma_slot(keys, shorter, key);
            assert forall|p: int| slot(keys, order, key) <= p < order.len() implies !text_le(
                keys[#[trigger] order[p]],
                key,
            ) by {
                if p < shorter.len() {
                    assert(!text_le(keys[shorter[p]], key));
                }
            }
            assert forall|p: int| 0 <= p < slot(keys, order, key) implies text_le(
                keys[#[trigger] order[p]],
                key,
            ) by {
                assert(text_le(keys[shorter[p]], key));
            }
        }
    }
}

/// The stable arrangement of the first `count` keys lists each index below
/// `count` once, never descends in key, and keeps indices with equal keys in
/// ascending order.
pub proof fn lemma_arrange_first(keys: Seq<Seq<char>>, count: nat)
    requires
        count <= keys.len(),
    ensures
        is_arrangement(arrange_first(keys, count), count),
        ascending(keys, arrange_first(keys, count)),
        keeps_ties(keys, arrange_first(keys, count)),
    decreases count,
{
    if count > 0 {
        let earlier = arrange_first(keys, (count - 1) as nat);
        let key = keys[count - 1];
        let at = slot(keys, earlier, key);
        let order = arrange_first(keys, count);
        lemma_arrange_first(keys, (count - 1) as nat);
        lemma_slot(keys, earlier, key);
        assert forall|p: int| 0 <= p < order.len() implies #[trigger] order[p] == (if p < at {
            earlier[p]
        } else if p == at {
            count - 1
        } else {
            earlier[p - 1]
        }) by {}
        assert forall|p: int, q: int| 0 <= p < q < order.len() implies text_le(
            keys[#[trigger] order[p]],
            keys[#[trigger] order[q]],
        ) by {
            if p == at {
                lemma_text_le_total(keys[earlier[q - 1]], key);
            }
        }
        assert forall|p: int, q: int|
            0 <= p < q < order.len() && keys[#[trigger] order[p]] == keys[#[trigger] order[q]]
                implies order[p] < order[q] by {
            if p == at {
                lemma_text_le_reflexive(key);
            }
        }
        assert forall|i: int| 0 <= i < count implies #[trigger] order.contains(i) by {
            if i == count - 1 {
                assert(order[at] == i);
            } else {
                assert(earlier.contains(i));
                let p0 = choose|p: int| 0 <= p < earlier.len() && earlier[p] == i;
                let p = if p0 < at {
                    p0
                } else {
                    p0 + 1
                };
                assert(order[p] == i);
            }
        }
    }
}

/// What makes `stable_order` a stable sort: it lists every index of `keys`
/// once, the keys never descend along it, and indices with equal keys keep
/// the order they had.
pub proof fn lemma_stable_order(keys: Seq<Seq<char>>)
    ensures
        is_arrangement(stable_order(keys), keys.len()),
        ascending(keys, stable_order(keys)),
        keeps_ties(keys, stable_order(keys)),
{
    lemma_arrange_first(keys, keys.len());
}

/// Two arrangements of the same keys that both ascend and keep ties agree
/// on their first `upto` places.
proof fn lemma_agree_below(keys: Seq<Seq<char>>, one: Seq<int>, other: Seq<int>, upto: int)
    requires
        is_arrangement(one, keys.len()),
        ascending(keys, one),
        keeps_ties(keys, one),
        is_arrangement(other, keys.len()),
        ascending(keys, other),
        keeps_ties(keys, other),
        0 <= upto <= keys.len(),
    ensures
        forall|p: int| 0 <= p < upto ==> one[p] == other[p],
    decreases upto,
{
    if upto > 0 {
        lemma_agree_below(keys, one, other, upto - 1);
        let here = upto - 1;
        let x = one[here];
        let y = other[here];
        if x != y {
            assert(other.contains(x));
            let q = choose|q: int| 0 <= q < other.len() && other[q] == x;
            assert(one.contains(y));
            let r = choose|r: int| 0 <= r < one.len() && one[r] == y;
            // Both stand behind `here` in the other arrangement, so each key
            // comes before the other: a tie, which one of the two breaks.
            lemma_text_le_antisymmetric(keys[x], keys[y]);
        }
    }
}

/// A stable sort has one result: an arrangement of the indices of `keys`
/// that never descends in key and keeps indices with equal keys in
/// ascending order is `stable_order(keys)`.
pub proof fn lemma_stable_order_unique(keys: Seq<Seq<char>>, order: Seq<int>)
    requires
        is_arrangement(order, keys.len()),
        ascending(keys, order),
        keeps_ties(keys, order),
    ensures
        order == stable_order(keys),
{
    lemma_stable_order(keys);
    lemma_agree_below(keys, order, stable_order(keys), keys.len() as int);
}

/// The texts that the key vectors hold.
pub open spec fn texts_of(keys: Seq<Vec<char>>) -> Seq<Seq<char>> {
    Seq::new(keys.len(), |i: int| keys[i]@)
}

/// The indices of an order as mathematical integers.
pub open spec fn positions(order: Seq<usize>) -> Seq<int> {
    Seq::new(order.len(), |i: int| order[i] as int)
}

/// The characters of `text`.
pub fn chars_of(text: &str) -> (chars: Vec<char>)
    ensures
        chars@ == text@,
{
    let mut chars: Vec<char> = Vec::new();
    let count = text.unicode_len();
    let mut i: usize = 0;
    while i < count
        invariant
            count == text@.len(),
            i <= count,
            chars@ == text@.take(i as int),
        decreases count - i,
    {
        chars.push(text.get_char(i));
        i += 1;
    }
    chars
}

/// Whether `a` comes before `b` or equals it in dictionary order.
pub fn precedes(a: &Vec<char>, b: &Vec<char>) -> (le: bool)
    ensures
        le == text_le(a@, b@),
{
    let mut i: usize = 0;
    while i < a.len() && i < b.len() && a[i] == b[i]
        invariant
            agree_up_to(a@, b@, i as int),
        decreases a.len() - i,
    {
        i += 1;
    }
    if i == a.len() {
        true
    } else if i == b.len() {
        assert forall|n: int| #[trigger] agree_up_to(a@, b@, n) implies !(n == a@.len() || (n
            < b@.len() && a@[n] < b@[n])) by {}
        false
    } else if a[i] < b[i] {
        true
    } else {
        assert forall|n: int| #[trigger] agree_up_to(a@, b@, n) implies !(n == a@.len() || (n
            < b@.len() && a@[n] < b@[n])) by {}
        false
    }
}

/// Arranges the indices of `keys` in ascending order of their keys, indices
/// with equal keys in their given order.
pub fn order_of(keys: &Vec<Vec<char>>) -> (order: Vec<usize>)
    ensures
        positions(order@) == stable_order(texts_of(keys@)),
{
    let ghost texts = texts_of(keys@);
    let mut order: Vec<usize> = Vec::new();
    let mut next: usize = 0;
    while next < keys.len()
        invariant
            next <= keys.len(),
            texts == texts_of(keys@),
            positions(order@) == arrange_first(texts, next as nat),
        decreases keys.len() - next,
    {
        proof {
            lemma_arrange_first(texts, next as nat);
        }
        let ghost earlier = positions(order@);
        let mut at: usize = order.len();
        let mut searching = true;
        assert(earlier.take(at as int) =~= earlier);
        while searching && at > 0
            invariant
                at <= order.len(),
                next < keys.len(),
                texts == texts_of(keys@),
                earlier == positions(order@),
                is_arrangement(earlier, next as nat),
                slot(texts, earlier, texts[next as int]) == slot(
                    texts,
                    earlier.take(at as int),
                    texts[next as int],
                ),
                !searching ==> at > 0 && text_le(texts[earlier[at - 1]], texts[next as int]),
            decreases at + (if searching { 1int } else { 0int }),
        {
            let candidate = order[at - 1];
            if precedes(&keys[candidate], &keys[next]) {
                searching = false;
            } else {
                assert(earlier.take(at as int).drop_last() =~= earlier.take(at - 1));
                at -= 1;
            }
        }
        order.insert(at, next);
        next += 1;
    }
    order
}

/// The texts that the key strings hold.
pub open spec fn key_texts(keys: Seq<String>) -> Seq<Seq<char>> {
    Seq::new(keys.len(), |i: int| keys[i]@)
}

/// Arranges the indices of `keys` in ascending dictionary order of the
/// keys, indices with equal keys in their given order.
pub fn order_by_keys(keys: &Vec<String>) -> (order: Vec<usize>)
    ensures
        positions(order@) == stable_order(key_texts(keys@)),
{
    let mut texts: Vec<Vec<char>> = Vec::new();
    let mut i: usize = 0;
    while i < keys.len()
        invariant
            i <= keys.len(),
            texts.len() == i,
            forall|j: int| 0 <= j < i ==> (#[trigger] texts@[j])@ == keys@[j]@,
        decreases keys.len() - i,
    {
        texts.push(chars_of(keys[i].as_str()));
        i += 1;
    }
    assert(texts_of(texts@) =~= key_texts(keys@));
    order_of(&texts)
}

} // verus!
