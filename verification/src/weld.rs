//! Giving every distinct vertex of a mesh one index.
//!
//! A corner of a face names a position, and perhaps a normal and a texture
//! coordinate, each by its own index: its key. Corners of the same key are
//! the same vertex; corners of different keys are different vertices, also
//! where the values behind the keys are alike. The vertices are numbered
//! from 0 in the order in which their keys first appear.

use std::collections::HashMap;
use vstd::prelude::*;

verus! {

broadcast use vstd::std_specs::hash::group_hash_axioms;

/// What tells one vertex from another: the indices of its position, its
/// normal and its texture coordinate.
#[derive(Debug, Clone, Copy, PartialEq, Eq, Structural)]
pub struct VertexKey {
    /// The index of the position.
    pub position: u32,
    /// The index of the normal, where the vertex has one.
    pub normal: Option<u32>,
    /// The index of the texture coordinate, where the vertex has one.
    pub texcoord: Option<u32>,
}

/// The place of `key` in `unique`, or the length of `unique` where it is not
/// there.
pub open spec fn slot<K>(unique: Seq<K>, key: K) -> int
    decreases unique.len(),
{
    if unique.len() == 0 {
        0
    } else {
        let before = slot(unique.drop_last(), key);
        if before < unique.len() - 1 {
            before
        } else if unique.last() == key {
            unique.len() - 1
        } else {
            unique.len() as int
        }
    }
}

/// The distinct keys, in the order in which they first appear.
pub open spec fn first_seen<K>(keys: Seq<K>) -> Seq<K>
    decreases keys.len(),
{
    if keys.len() == 0 {
        Seq::empty()
    } else {
        let before = first_seen(keys.drop_last());
        if slot(before, keys.last()) < before.len() {
            before
        } else {
            before.push(keys.last())
        }
    }
}

/// The index of each corner: the place of its key among the distinct keys.
pub open spec fn welded<K>(keys: Seq<K>) -> Seq<int> {
    Seq::new(keys.len(), |i: int| slot(first_seen(keys), keys[i]))
}

/// `slot` is the first place of the key, and the length where there is none.
pub proof fn lemma_slot<K>(unique: Seq<K>, key: K)
    ensures
        0 <= slot(unique, key) <= unique.len(),
        slot(unique, key) < unique.len() ==> unique[slot(unique, key)] == key,
        forall|i: int| 0 <= i < unique.len() && unique[i] == key ==> slot(unique, key) <= i,
    decreases unique.len(),
{
    if unique.len() > 0 {
        lemma_slot(unique.drop_last(), key);
        assert forall|i: int| 0 <= i < unique.len() && unique[i] == key implies slot(unique, key)
            <= i by {
            if i < unique.len() - 1 {
                assert(unique.drop_last()[i] == key);
            }
        }
    }
}

/// A key that stands among the first elements has the same place among all.
pub proof fn lemma_slot_prefix<K>(unique: Seq<K>, n: int, key: K)
    requires
        0 <= n <= unique.len(),
        slot(unique.take(n), key) < n,
    ensures
        slot(unique, key) == slot(unique.take(n), key),
    decreases unique.len() - n,
{
    if n < unique.len() {
        assert(unique.drop_last().take(n) =~= unique.take(n));
        lemma_slot_prefix(unique.drop_last(), n, key);
    } else {
        assert(unique.take(n) =~= unique);
    }
}

/// The distinct keys are distinct, every one of them is a key, and every key
/// is one of them.
pub proof fn lemma_first_seen<K>(keys: Seq<K>)
    ensures
        first_seen(keys).len() <= keys.len(),
        forall|i: int|
            0 <= i < first_seen(keys).len() ==> slot(
                first_seen(keys),
                #[trigger] first_seen(keys)[i],
            ) == i,
        forall|i: int|
            0 <= i < keys.len() ==> slot(first_seen(keys), #[trigger] keys[i]) < first_seen(
                keys,
            ).len(),
        forall|i: int|
            0 <= i < first_seen(keys).len() ==> slot(keys, #[trigger] first_seen(keys)[i])
                < keys.len(),
    decreases keys.len(),
{
    if keys.len() > 0 {
        let front = keys.drop_last();
        let before = first_seen(front);
        let all = first_seen(keys);
        lemma_first_seen(front);
        lemma_slot(before, keys.last());
        assert(all.drop_last() =~= if slot(before, keys.last()) < before.len() {
            before.drop_last()
        } else {
            before
        });
        assert forall|i: int| 0 <= i < all.len() implies slot(all, #[trigger] all[i]) == i by {
            if i < before.len() {
                assert(all[i] == before[i]);
                if all.len() > before.len() {
                    assert(all.take(before.len() as int) =~= before);
                    lemma_slot_prefix(all, before.len() as int, all[i]);
                }
            } else {
                assert(all.drop_last() =~= before);
            }
        }
        assert forall|i: int| 0 <= i < keys.len() implies slot(all, #[trigger] keys[i])
            < all.len() by {
            if i < keys.len() - 1 {
                assert(front[i] == keys[i]);
                if all.len() > before.len() {
                    assert(all.take(before.len() as int) =~= before);
                    lemma_slot_prefix(all, before.len() as int, keys[i]);
                }
            } else {
                if all.len() > before.len() {
                    assert(all.drop_last() =~= before);
                }
            }
        }
        assert forall|i: int| 0 <= i < all.len() implies slot(keys, #[trigger] all[i])
            < keys.len() by {
            lemma_slot(keys, all[i]);
            if i < before.len() {
                assert(all[i] == before[i]);
                lemma_slot(front, before[i]);
                assert(keys[slot(front, before[i])] == front[slot(front, before[i])]);
            } else {
                assert(all[i] == keys.last());
                assert(keys[keys.len() - 1] == all[i]);
            }
        }
    }
}

/// The distinct keys of the first corners are the first of the distinct keys
/// of all corners.
pub proof fn lemma_first_seen_prefix<K>(keys: Seq<K>, n: int)
    requires
        0 <= n <= keys.len(),
    ensures
        first_seen(keys.take(n)).len() <= first_seen(keys).len(),
        first_seen(keys.take(n)) == first_seen(keys).take(first_seen(keys.take(n)).len() as int),
    decreases keys.len() - n,
{
    if n < keys.len() {
        lemma_first_seen_prefix(keys.drop_last(), n);
        assert(keys.drop_last().take(n) =~= keys.take(n));
        let before = first_seen(keys.drop_last());
        let part = first_seen(keys.take(n));
        assert(first_seen(keys).take(part.len() as int) =~= before.take(part.len() as int));
    } else {
        assert(keys.take(n) =~= keys);
        assert(first_seen(keys).take(first_seen(keys).len() as int) =~= first_seen(keys));
    }
}

/// Corners of the same key get the same index, corners of different keys
/// different indices, and every index is that of a distinct key.
pub proof fn lemma_welded_tells_keys_apart<K>(keys: Seq<K>, i: int, j: int)
    requires
        0 <= i < keys.len(),
        0 <= j < keys.len(),
    ensures
        0 <= welded(keys)[i] < first_seen(keys).len(),
        first_seen(keys)[welded(keys)[i]] == keys[i],
        (keys[i] == keys[j]) <==> (welded(keys)[i] == welded(keys)[j]),
{
    lemma_first_seen(keys);
    lemma_slot(first_seen(keys), keys[i]);
    lemma_slot(first_seen(keys), keys[j]);
}

/// The indices of the first corners do not change when corners follow.
pub proof fn lemma_welded_prefix<K>(keys: Seq<K>, n: int, i: int)
    requires
        0 <= i < n <= keys.len(),
    ensures
        welded(keys.take(n))[i] == welded(keys)[i],
{
    lemma_first_seen_prefix(keys, n);
    lemma_first_seen(keys.take(n));
    let part = first_seen(keys.take(n));
    assert(keys.take(n)[i] == keys[i]);
    lemma_slot_prefix(first_seen(keys), part.len() as int, keys[i]);
}

/// The indices count the vertices in the order in which they first appear:
/// the distinct indices are 0, 1, 2 and so on.
pub proof fn lemma_welded_first_seen<K>(keys: Seq<K>)
    ensures
        first_seen(welded(keys)) == Seq::new(first_seen(keys).len(), |s: int| s),
    decreases keys.len(),
{
    let w = welded(keys);
    let counted = Seq::new(first_seen(keys).len(), |s: int| s);
    if keys.len() == 0 {
        assert(first_seen(w) =~= counted);
    } else {
        let front = keys.drop_last();
        lemma_welded_first_seen(front);
        assert(w.drop_last() =~= welded(front)) by {
            assert forall|i: int| 0 <= i < front.len() implies w.drop_last()[i] == welded(
                front,
            )[i] by {
                assert(front =~= keys.take(front.len() as int));
                lemma_welded_prefix(keys, front.len() as int, i);
            }
        }
        let before = Seq::new(first_seen(front).len(), |s: int| s);
        lemma_slot(first_seen(front), keys.last());
        lemma_first_seen(keys);
        lemma_slot(before, w.last());
        if slot(first_seen(front), keys.last()) < first_seen(front).len() {
            // The last key has been seen: its index is one of those before.
            assert(first_seen(keys) == first_seen(front));
            assert(before[w.last()] == w.last());
            assert(first_seen(w) =~= counted);
        } else {
            // The last key is new: its index is the next number.
            assert(first_seen(keys) == first_seen(front).push(keys.last()));
            assert(first_seen(keys).drop_last() =~= first_seen(front));
            assert(w.last() == first_seen(front).len());
            assert(first_seen(w) =~= counted);
        }
    }
}

/// Numbering the vertices again changes nothing: the indices of the indices
/// are the indices.
pub proof fn lemma_welded_idempotent<K>(keys: Seq<K>)
    ensures
        welded(welded(keys)) == welded(keys),
{
    let w = welded(keys);
    lemma_welded_first_seen(keys);
    lemma_first_seen(keys);
    let counted = Seq::new(first_seen(keys).len(), |s: int| s);
    assert forall|i: int| 0 <= i < w.len() implies welded(w)[i] == w[i] by {
        assert(w[i] == slot(first_seen(keys), keys[i]));
        lemma_slot(first_seen(keys), keys[i]);
        lemma_slot(counted, w[i]);
        assert(counted[w[i]] == w[i]);
        assert(counted[slot(counted, w[i])] == slot(counted, w[i]));
    }
    assert(welded(w) =~= w);
}

/// The number of an optional index: 0 for none, else one more than the
/// index.
pub open spec fn option_code(index: Option<u32>) -> int {
    match index {
        None => 0,
        Some(i) => i + 1,
    }
}

/// The key as one number: the three indices side by side.
pub open spec fn packed(key: VertexKey) -> int {
    key.position + option_code(key.normal) * 0x1_0000_0000 + option_code(key.texcoord)
        * 0x2_0000_0000_0000_0000
}

/// Different keys are different numbers.
pub proof fn lemma_packed_is_injective(a: VertexKey, b: VertexKey)
    requires
        packed(a) == packed(b),
    ensures
        a == b,
{
    let an = option_code(a.normal);
    let bn = option_code(b.normal);
    let at = option_code(a.texcoord);
    let bt = option_code(b.texcoord);
    assert(0 <= an <= 0x1_0000_0000 && 0 <= bn <= 0x1_0000_0000);
    assert(0 <= at <= 0x1_0000_0000 && 0 <= bt <= 0x1_0000_0000);
    if at != bt {
        if at < bt {
            assert(packed(b) - packed(a) >= 0x2_0000_0000_0000_0000 - 0x1_0000_0000
                * 0x1_0000_0000 - 0xFFFF_FFFF);
        } else {
            assert(packed(a) - packed(b) >= 0x2_0000_0000_0000_0000 - 0x1_0000_0000
                * 0x1_0000_0000 - 0xFFFF_FFFF);
        }
    }
    assert(at == bt);
    assert(an == bn);
}

/// The key as one number.
fn pack(key: VertexKey) -> (r: u128)
    ensures
        r == packed(key),
{
    let normal: u128 = match key.normal {
        None => 0,
        Some(i) => i as u128 + 1,
    };
    let texcoord: u128 = match key.texcoord {
        None => 0,
        Some(i) => i as u128 + 1,
    };
    key.position as u128 + normal * 0x1_0000_0000 + texcoord * 0x2_0000_0000_0000_0000
}

/// The indices as numbers.
pub open spec fn widened(indices: Seq<u32>) -> Seq<int> {
    Seq::new(indices.len(), |i: int| indices[i] as int)
}

/// Numbers the vertices of the corners: gives the index of each corner, as
/// `welded` says, and the distinct keys in the order of their indices, as
/// `first_seen` says. `None` where there are more distinct keys than 32 bits
/// can number.
pub fn index_vertices(keys: &Vec<VertexKey>) -> (r: Option<(Vec<u32>, Vec<VertexKey>)>)
    ensures
        match r {
            Some((indices, unique)) => widened(indices@) == welded(keys@) && unique@ == first_seen(
                keys@,
            ) && unique@.len() <= 0x1_0000_0000,
            None => first_seen(keys@).len() > 0x1_0000_0000,
        },
{
    let mut slots: HashMap<u128, u32> = HashMap::new();
    let mut unique: Vec<VertexKey> = Vec::new();
    let mut indices: Vec<u32> = Vec::new();
    let mut j: usize = 0;
    assert(keys@.take(0) =~= Seq::<VertexKey>::empty());
    while j < keys.len()
        invariant
            j <= keys.len(),
            indices@.len() == j,
            unique@ == first_seen(keys@.take(j as int)),
            unique@.len() <= 0x1_0000_0000,
            forall|i: int| 0 <= i < j ==> #[trigger] indices@[i] == slot(unique@, keys@[i]),
            forall|i: int|
                0 <= i < unique@.len() ==> slots@.contains_key(packed(#[trigger] unique@[i]) as u128)
                    && slots@[packed(unique@[i]) as u128] == i,
            forall|x: u128| #[trigger]
                slots@.contains_key(x) ==> 0 <= slots@[x] < unique@.len() && packed(
                    unique@[slots@[x] as int],
                ) == x,
        decreases keys.len() - j,
    {
        let key = keys[j];
        let number = pack(key);
        let ghost part = keys@.take(j as int);
        let ghost next = keys@.take(j + 1);
        let ghost before = unique@;
        proof {
            assert(next.drop_last() =~= part);
            assert(next.last() == key);
            lemma_slot(before, key);
            lemma_first_seen(part);
        }
        match slots.get(&number) {
            Some(found) => {
                let s = *found;
                proof {
                    lemma_packed_is_injective(before[s as int], key);
                    assert(slot(before, before[s as int]) == s);
                    assert(first_seen(next) == before);
                }
                indices.push(s);
            },
            None => {
                proof {
                    assert(slot(before, key) == before.len()) by {
                        if slot(before, key) < before.len() {
                            assert(slots@.contains_key(
                                packed(before[slot(before, key)]) as u128,
                            ));
                        }
                    }
                    assert(first_seen(next) == before.push(key));
                }
                if unique.len() > 0xFFFF_FFFF {
                    proof {
                        lemma_first_seen_prefix(keys@, j + 1);
                    }
                    return None;
                }
                let s = unique.len() as u32;
                slots.insert(number, s);
                unique.push(key);
                indices.push(s);
                proof {
                    let after = unique@;
                    assert(after.drop_last() =~= before);
                    assert forall|i: int| 0 <= i < after.len() implies slots@.contains_key(
                        packed(#[trigger] after[i]) as u128,
                    ) && slots@[packed(after[i]) as u128] == i by {
                        if i < before.len() {
                            assert(after[i] == before[i]);
                            if packed(before[i]) == packed(key) {
                                lemma_packed_is_injective(before[i], key);
                                lemma_slot(before, key);
                            }
                        }
                    }
                    assert forall|i: int| 0 <= i < j + 1 implies #[trigger] indices@[i] == slot(
                        after,
                        keys@[i],
                    ) by {
                        if i < j {
                            assert(part[i] == keys@[i]);
                            lemma_slot(before, keys@[i]);
                        }
                    }
                }
            },
        }
        j = j + 1;
    }
    assert(keys@.take(j as int) =~= keys@);
    assert(widened(indices@) =~= welded(keys@));
    Some((indices, unique))
}

} // verus!
