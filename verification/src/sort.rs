//! Orderings of texts by byte-wise comparison, as `String`s compare: newest
//! first, the way the recorder lists recordings and history, and smallest
//! first, the way it lists windows. Both keep the input order of equal keys.
use vstd::prelude::*;
use vstd::utf8::encode_utf8;

verus! {

broadcast use vstd::utf8::encode_utf8_decode_utf8;

/// Byte-wise lexicographic order, as `str` compares.
pub open spec fn lex_less(a: Seq<u8>, b: Seq<u8>) -> bool
    decreases a.len(),
{
    if a.len() == 0 {
        b.len() > 0
    } else if b.len() == 0 {
        false
    } else if a[0] < b[0] {
        true
    } else if a[0] > b[0] {
        false
    } else {
        lex_less(a.drop_first(), b.drop_first())
    }
}

/// `a` sorts before `b` as `String`s compare.
pub open spec fn text_less(a: Seq<char>, b: Seq<char>) -> bool {
    lex_less(encode_utf8(a), encode_utf8(b))
}

pub proof fn lemma_lex_irreflexive(a: Seq<u8>)
    ensures
        !lex_less(a, a),
    decreases a.len(),
{
    if a.len() > 0 {
        lemma_lex_irreflexive(a.drop_first());
    }
}

pub proof fn lemma_lex_transitive(a: Seq<u8>, b: Seq<u8>, c: Seq<u8>)
    requires
        lex_less(a, b),
        lex_less(b, c),
    ensures
        lex_less(a, c),
    decreases a.len(),
{
    if a.len() > 0 && b.len() > 0 && c.len() > 0 && a[0] == b[0] && b[0] == c[0] {
        lemma_lex_transitive(a.drop_first(), b.drop_first(), c.drop_first());
    }
}

pub proof fn lemma_lex_total(a: Seq<u8>, b: Seq<u8>)
    ensures
        lex_less(a, b) || lex_less(b, a) || a == b,
    decreases a.len(),
{
    if a.len() > 0 && b.len() > 0 && a[0] == b[0] {
        lemma_lex_total(a.drop_first(), b.drop_first());
        if a.drop_first() == b.drop_first() {
            assert(a =~= seq![a[0]] + a.drop_first());
            assert(b =~= seq![b[0]] + b.drop_first());
        }
    } else if a.len() == 0 && b.len() == 0 {
        assert(a =~= b);
    }
}

pub proof fn lemma_lex_asymmetric(a: Seq<u8>, b: Seq<u8>)
    requires
        lex_less(a, b),
    ensures
        !lex_less(b, a),
{
    if lex_less(b, a) {
        lemma_lex_transitive(a, b, a);
        lemma_lex_irreflexive(a);
    }
}

/// Whether `a` sorts before `b` as `String`s compare.
pub fn text_before(a: &str, b: &str) -> (r: bool)
    ensures
        r == text_less(a@, b@),
{
    let x = a.as_bytes();
    let y = b.as_bytes();
    let n = x.len();
    let m = y.len();
    let mut i: usize = 0;
    assert(x@.skip(0) =~= x@ && y@.skip(0) =~= y@);
    while i < n && i < m && x[i] == y[i]
        invariant
            n == x@.len(),
            m == y@.len(),
            i <= n,
            i <= m,
            lex_less(x@, y@) == lex_less(x@.skip(i as int), y@.skip(i as int)),
        decreases n - i,
    {
        proof {
            assert(x@.skip(i as int).drop_first() =~= x@.skip(i as int + 1));
            assert(y@.skip(i as int).drop_first() =~= y@.skip(i as int + 1));
        }
        i = i + 1;
    }
    if i == n {
        i < m
    } else if i == m {
        false
    } else {
        x[i] < y[i]
    }
}

/// The key of the item at position `i` of `order`.
pub open spec fn key_at(keys: Seq<Seq<char>>, order: Seq<usize>, i: int) -> Seq<char> {
    keys[order[i] as int]
}

/// `order` lists every index of `keys` once, largest key first, and keeps
/// equal keys in the order they came in.
pub open spec fn is_newest_first(keys: Seq<Seq<char>>, order: Seq<usize>) -> bool {
    &&& order.len() == keys.len()
    &&& forall|i: int| 0 <= i < order.len() ==> #[trigger] order[i] < keys.len()
    &&& forall|i: int, j: int| 0 <= i < j < order.len() ==> #[trigger] order[i] != #[trigger] order[j]
    &&& forall|i: int, j: int|
        0 <= i < j < order.len() ==> !text_less(
            #[trigger] key_at(keys, order, i),
            #[trigger] key_at(keys, order, j),
        )
    &&& forall|i: int, j: int|
        0 <= i < j < order.len() && #[trigger] key_at(keys, order, i) == #[trigger] key_at(
            keys,
            order,
            j,
        ) ==> order[i] < order[j]
}

/// The views of a list of strings.
pub open spec fn texts(v: Seq<String>) -> Seq<Seq<char>> {
    v.map_values(|s: String| s@)
}

/// Positions of `keys`, largest key first; equal keys keep their order.
pub fn newest_first(keys: &Vec<String>) -> (order: Vec<usize>)
    ensures
        is_newest_first(texts(keys@), order@),
{
    let ghost ks = texts(keys@);
    let n = keys.len();
    let mut order: Vec<usize> = Vec::new();
    let mut k: usize = 0;
    while k < n
        invariant
            n == keys@.len(),
            ks == texts(keys@),
            k <= n,
            is_newest_first(ks.take(k as int), order@),
        decreases n - k,
    {
        let ghost pre = ks.take(k as int);
        let ghost next = ks.take(k as int + 1);
        assert forall|i: int| 0 <= i < k implies next[i] == pre[i] by {}
        // first position whose key is smaller than the new key
        let mut p: usize = 0;
        while p < order.len() && !text_before(keys[order[p]].as_str(), keys[k].as_str())
            invariant
                n == keys@.len(),
                ks == texts(keys@),
                k < n,
                pre == ks.take(k as int),
                is_newest_first(pre, order@),
                p <= order@.len(),
                forall|i: int| 0 <= i < p ==> !text_less(#[trigger] key_at(ks, order@, i), ks[k as int]),
            decreases order@.len() - p,
        {
            proof {
                assert(key_at(ks, order@, p as int) == keys@[order@[p as int] as int]@);
            }
            p = p + 1;
        }
        let ghost old_order = order@;
        proof {
            if p < order@.len() {
                assert(key_at(ks, order@, p as int) == keys@[order@[p as int] as int]@);
                assert(text_less(key_at(ks, old_order, p as int), ks[k as int]));
            }
        }
        order.insert(p, k);
        proof {
            let o = order@;
            assert(o == old_order.insert(p as int, k));
            assert forall|i: int| 0 <= i < o.len() implies #[trigger] key_at(next, o, i) == key_at(
                ks,
                o,
                i,
            ) by {
                if i < p {
                    assert(o[i] == old_order[i]);
                } else if i > p {
                    assert(o[i] == old_order[i - 1]);
                }
            }
            assert forall|i: int| 0 <= i < o.len() implies #[trigger] o[i] < next.len() by {
                if i < p {
                    assert(o[i] == old_order[i]);
                } else if i > p {
                    assert(o[i] == old_order[i - 1]);
                }
            }
            assert forall|i: int, j: int| 0 <= i < j < o.len() implies #[trigger] o[i] != #[trigger] o[j] by {
                if j < p {
                    assert(o[i] == old_order[i] && o[j] == old_order[j]);
                } else if j == p {
                    assert(o[i] == old_order[i]);
                } else if i < p {
                    assert(o[i] == old_order[i] && o[j] == old_order[j - 1]);
                } else if i == p {
                    assert(o[j] == old_order[j - 1]);
                } else {
                    assert(o[i] == old_order[i - 1] && o[j] == old_order[j - 1]);
                }
            }
            assert forall|i: int, j: int| 0 <= i < j < o.len() implies !text_less(
                #[trigger] key_at(next, o, i),
                #[trigger] key_at(next, o, j),
            ) && (key_at(next, o, i) == key_at(next, o, j) ==> o[i] < o[j]) by {
                let new_key = ks[k as int];
                if j < p {
                    assert(o[i] == old_order[i] && o[j] == old_order[j]);
                    assert(key_at(next, o, i) == key_at(pre, old_order, i));
                    assert(key_at(next, o, j) == key_at(pre, old_order, j));
                } else if j == p {
                    assert(o[i] == old_order[i]);
                    assert(key_at(next, o, j) == new_key);
                    assert(key_at(next, o, i) == key_at(ks, old_order, i));
                } else if i < p {
                    assert(o[i] == old_order[i] && o[j] == old_order[j - 1]);
                    assert(key_at(next, o, i) == key_at(pre, old_order, i));
                    assert(key_at(next, o, j) == key_at(pre, old_order, j - 1));
                } else if i == p {
                    assert(o[j] == old_order[j - 1]);
                    let kp = key_at(ks, old_order, p as int);
                    let kj = key_at(ks, old_order, j - 1);
                    assert(key_at(pre, old_order, p as int) == kp);
                    assert(key_at(pre, old_order, j - 1) == kj);
                    assert(text_less(kp, new_key));
                    if p < j - 1 {
                        assert(!text_less(kp, kj));
                        lemma_lex_total(encode_utf8(kp), encode_utf8(kj));
                        if encode_utf8(kp) == encode_utf8(kj) {
                            assert(text_less(kj, new_key));
                        } else {
                            lemma_lex_transitive(encode_utf8(kj), encode_utf8(kp), encode_utf8(new_key));
                        }
                    }
                    assert(text_less(kj, new_key));
                    lemma_lex_asymmetric(encode_utf8(kj), encode_utf8(new_key));
                    lemma_lex_irreflexive(encode_utf8(kj));
                    assert(key_at(next, o, i) == new_key);
                    assert(key_at(next, o, j) == kj);
                } else {
                    assert(o[i] == old_order[i - 1] && o[j] == old_order[j - 1]);
                    assert(key_at(next, o, i) == key_at(pre, old_order, i - 1));
                    assert(key_at(next, o, j) == key_at(pre, old_order, j - 1));
                }
            }
        }
        k = k + 1;
    }
    assert(ks.take(n as int) =~= ks);
    order
}

/// `order` lists every index of `keys` once, smallest key first, and keeps
/// equal keys in the order they came in.
pub open spec fn is_alphabetical(keys: Seq<Seq<char>>, order: Seq<usize>) -> bool {
    &&& order.len() == keys.len()
    &&& forall|i: int| 0 <= i < order.len() ==> #[trigger] order[i] < keys.len()
    &&& forall|i: int, j: int| 0 <= i < j < order.len() ==> #[trigger] order[i] != #[trigger] order[j]
    &&& forall|i: int, j: int|
        0 <= i < j < order.len() ==> !text_less(
            #[trigger] key_at(keys, order, j),
            #[trigger] key_at(keys, order, i),
        )
    &&& forall|i: int, j: int|
        0 <= i < j < order.len() && #[trigger] key_at(keys, order, i) == #[trigger] key_at(
            keys,
            order,
            j,
        ) ==> order[i] < order[j]
}

/// Positions of `keys`, smallest key first; equal keys keep their order.
pub fn alphabetical(keys: &Vec<String>) -> (order: Vec<usize>)
    ensures
        is_alphabetical(texts(keys@), order@),
{
    let n = keys.len();
    let ghost ks = texts(keys@);
    let mut reversed: Vec<String> = Vec::new();
    let mut i: usize = 0;
    while i < n
        invariant
            n == keys@.len(),
            i <= n,
            reversed@.len() == i,
            forall|t: int| 0 <= t < i ==> #[trigger] reversed@[t]@ == keys@[n - 1 - t]@,
        decreases n - i,
    {
        reversed.push(keys[n - 1 - i].clone());
        i = i + 1;
    }
    let ghost rs = texts(reversed@);
    assert forall|t: int| 0 <= t < n implies #[trigger] rs[t] == ks[n - 1 - t] by {
        assert(reversed@[t]@ == keys@[n - 1 - t]@);
    }
    let back = newest_first(&reversed);
    let mut order: Vec<usize> = Vec::new();
    let mut j: usize = 0;
    while j < n
        invariant
            n == keys@.len(),
            n == back@.len(),
            rs.len() == n,
            ks.len() == n,
            is_newest_first(rs, back@),
            j <= n,
            order@.len() == j,
            forall|t: int| 0 <= t < j ==> #[trigger] order@[t] == n - 1 - back@[n - 1 - t],
        decreases n - j,
    {
        assert(back@[n - 1 - j] < n);
        order.push(n - 1 - back[n - 1 - j]);
        j = j + 1;
    }
    proof {
        let o = order@;
        let b = back@;
        assert forall|t: int| 0 <= t < n implies #[trigger] key_at(ks, o, t) == key_at(rs, b, n - 1 - t) by {
            assert(b[n - 1 - t] < n);
            assert(rs[b[n - 1 - t] as int] == ks[n - 1 - b[n - 1 - t]]);
        }
        assert forall|t: int| 0 <= t < o.len() implies #[trigger] o[t] < ks.len() by {
            assert(b[n - 1 - t] < n);
        }
        assert forall|x: int, y: int| 0 <= x < y < o.len() implies #[trigger] o[x] != #[trigger] o[y] by {
            assert(b[n - 1 - y] != b[n - 1 - x]);
        }
        assert forall|x: int, y: int| 0 <= x < y < o.len() implies !text_less(
            #[trigger] key_at(ks, o, y),
            #[trigger] key_at(ks, o, x),
        ) && (key_at(ks, o, x) == key_at(ks, o, y) ==> o[x] < o[y]) by {
            assert(key_at(ks, o, x) == key_at(rs, b, n - 1 - x));
            assert(key_at(ks, o, y) == key_at(rs, b, n - 1 - y));
            assert(!text_less(key_at(rs, b, n - 1 - y), key_at(rs, b, n - 1 - x)));
            if key_at(ks, o, x) == key_at(ks, o, y) {
                assert(b[n - 1 - y] < b[n - 1 - x]);
            }
        }
    }
    order
}

/// `t` appears at some position of `order`.
pub open spec fn listed(order: Seq<usize>, t: int) -> bool {
    exists|i: int| 0 <= i < order.len() && #[trigger] order[i] == t
}

/// An order of `keys` lists every index: each one appears at some position.
pub proof fn lemma_order_covers(keys: Seq<Seq<char>>, order: Seq<usize>)
    requires
        is_newest_first(keys, order),
    ensures
        forall|t: int| 0 <= t < keys.len() ==> #[trigger] listed(order, t),
{
    let n = keys.len() as int;
    let oi = order.map_values(|x: usize| x as int);
    assert forall|i: int, j: int| 0 <= i < oi.len() && 0 <= j < oi.len() && i != j implies oi[i] != oi[j] by {
        if i < j {
            assert(order[i] != order[j]);
        } else {
            assert(order[j] != order[i]);
        }
    }
    assert(oi.no_duplicates());
    oi.unique_seq_to_set();
    vstd::set_lib::lemma_int_range(0, n);
    let range = vstd::set_lib::set_int_range(0, n);
    assert forall|x: int| oi.to_set().contains(x) implies range.contains(x) by {
        let i = choose|i: int| 0 <= i < oi.len() && oi[i] == x;
        assert(order[i] < keys.len());
    }
    assert(oi.to_set().subset_of(range));
    vstd::set_lib::lemma_len_subset(oi.to_set(), range);
    vstd::set_lib::lemma_subset_equality(oi.to_set(), range);
    assert forall|t: int| 0 <= t < keys.len() implies #[trigger] listed(order, t) by {
        assert(range.contains(t));
        assert(oi.to_set().contains(t));
        let i = choose|i: int| 0 <= i < oi.len() && oi[i] == t;
        assert(order[i] == t);
    }
}

/// When the first key is not smaller than any other, a newest-first order
/// starts with it.
pub proof fn lemma_first_of_largest(keys: Seq<Seq<char>>, order: Seq<usize>)
    requires
        is_newest_first(keys, order),
        keys.len() > 0,
        forall|j: int| 0 <= j < keys.len() ==> !text_less(keys[0], #[trigger] keys[j]),
    ensures
        order[0] == 0,
{
    broadcast use vstd::utf8::encode_utf8_decode_utf8;

    lemma_order_covers(keys, order);
    let j0 = order[0] as int;
    if j0 != 0 {
        assert(listed(order, 0));
        let i = choose|i: int| 0 <= i < order.len() && #[trigger] order[i] == 0;
        assert(i != 0);
        assert(!text_less(key_at(keys, order, 0), key_at(keys, order, i)));
        assert(key_at(keys, order, i) == keys[0]);
        assert(key_at(keys, order, 0) == keys[j0]);
        assert(!text_less(keys[0], keys[j0]));
        lemma_lex_total(encode_utf8(keys[0]), encode_utf8(keys[j0]));
        assert(vstd::utf8::decode_utf8(encode_utf8(keys[0])) == keys[0]);
        assert(vstd::utf8::decode_utf8(encode_utf8(keys[j0])) == keys[j0]);
        assert(keys[0] == keys[j0]);
        assert(order[0] < order[i]);
    }
}

} // verus!
