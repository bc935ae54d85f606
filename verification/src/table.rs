//! Rows kept in a sequence, read as a map from each row's key to the row.

use vstd::prelude::*;

verus! {

/// No two rows share a key.
pub open spec fn distinct_keys<K, V>(rows: Seq<(K, V)>) -> bool {
    forall|i: int, j: int|
        0 <= i < j < rows.len() ==> (#[trigger] rows[i]).0 != (#[trigger] rows[j]).0
}

/// Some row has key `k`.
pub open spec fn holds_key<K, V>(rows: Seq<(K, V)>, k: K) -> bool {
    exists|i: int| 0 <= i < rows.len() && (#[trigger] rows[i]).0 == k
}

/// Where a row with key `k` stands, if there is one.
pub open spec fn position<K, V>(rows: Seq<(K, V)>, k: K) -> int {
    choose|i: int| 0 <= i < rows.len() && (#[trigger] rows[i]).0 == k
}

/// The table that `rows` spell out: each key that occurs, with its row.
pub open spec fn by_key<K, V>(rows: Seq<(K, V)>) -> Map<K, V> {
    Map::new(|k: K| holds_key(rows, k), |k: K| rows[position(rows, k)].1)
}

/// With distinct keys, the table holds each row under its own key.
pub proof fn lemma_row_found<K, V>(rows: Seq<(K, V)>, i: int)
    requires
        distinct_keys(rows),
        0 <= i < rows.len(),
    ensures
        by_key(rows).contains_key(rows[i].0),
        by_key(rows)[rows[i].0] == rows[i].1,
        position(rows, rows[i].0) == i,
{
    let k = rows[i].0;
    assert(holds_key(rows, k));
    let p = position(rows, k);
    assert(0 <= p < rows.len() && rows[p].0 == k);
    if p < i {
        assert(rows[p].0 != rows[i].0);
    } else if i < p {
        assert(rows[i].0 != rows[p].0);
    }
}

/// After a push, the keys that occur are the old ones and the new row's.
pub proof fn lemma_keys_after_push<K, V>(rows: Seq<(K, V)>, row: (K, V), q: K)
    ensures
        holds_key(rows.push(row), q) <==> (q == row.0 || holds_key(rows, q)),
{
    let after = rows.push(row);
    if holds_key(after, q) {
        let p = position(after, q);
        if p < rows.len() {
            assert(rows[p].0 == q);
        }
    }
    if q == row.0 {
        assert(after[rows.len() as int].0 == q);
    }
    if holds_key(rows, q) {
        let p = position(rows, q);
        assert(after[p].0 == q);
    }
}

/// Appending a row under a key that does not occur yet inserts it.
pub proof fn lemma_row_pushed<K, V>(rows: Seq<(K, V)>, k: K, v: V)
    requires
        distinct_keys(rows),
        !holds_key(rows, k),
    ensures
        distinct_keys(rows.push((k, v))),
        by_key(rows.push((k, v))) == by_key(rows).insert(k, v),
{
    let after = rows.push((k, v));
    assert forall|i: int, j: int| 0 <= i < j < after.len() implies (#[trigger] after[i]).0 != (
    #[trigger] after[j]).0 by {
        if j < rows.len() {
            assert(rows[i].0 != rows[j].0);
        } else {
            assert(after[i] == rows[i]);
            assert(rows[i].0 != k);
        }
    }
    assert forall|q: K| #[trigger] holds_key(after, q) <==> (q == k || holds_key(rows, q)) by {
        lemma_keys_after_push(rows, (k, v), q);
    }
    assert forall|q: K| holds_key(after, q) implies #[trigger] by_key(after)[q] == by_key(
        rows,
    ).insert(k, v)[q] by {
        let p = position(after, q);
        lemma_row_found(after, p);
        if p < rows.len() {
            assert(after[p] == rows[p]);
            lemma_row_found(rows, p);
        }
    }
    assert(by_key(after) =~= by_key(rows).insert(k, v));
}

/// Replacing a row by another one with the same key overwrites it.
pub proof fn lemma_row_replaced<K, V>(rows: Seq<(K, V)>, i: int, v: V)
    requires
        distinct_keys(rows),
        0 <= i < rows.len(),
    ensures
        distinct_keys(rows.update(i, (rows[i].0, v))),
        by_key(rows.update(i, (rows[i].0, v))) == by_key(rows).insert(rows[i].0, v),
{
    let k = rows[i].0;
    let after = rows.update(i, (k, v));
    assert forall|a: int, b: int| 0 <= a < b < after.len() implies (#[trigger] after[a]).0 != (
    #[trigger] after[b]).0 by {
        assert(after[a].0 == rows[a].0);
        assert(after[b].0 == rows[b].0);
        assert(rows[a].0 != rows[b].0);
    }
    assert forall|q: K| #[trigger] holds_key(after, q) <==> holds_key(rows, q) by {
        if holds_key(after, q) {
            let p = position(after, q);
            assert(rows[p].0 == q);
        }
        if holds_key(rows, q) {
            let p = position(rows, q);
            assert(after[p].0 == q);
        }
    }
    lemma_row_found(rows, i);
    assert forall|q: K| holds_key(after, q) implies #[trigger] by_key(after)[q] == by_key(
        rows,
    ).insert(k, v)[q] by {
        let p = position(after, q);
        lemma_row_found(after, p);
        if p != i {
            assert(after[p] == rows[p]);
            lemma_row_found(rows, p);
        }
    }
    assert(by_key(after) =~= by_key(rows).insert(k, v));
}

/// A table read off finitely many rows has finitely many keys.
pub proof fn lemma_finite<K, V>(rows: Seq<(K, V)>)
    ensures
        by_key(rows).dom().finite(),
    decreases rows.len(),
{
    if rows.len() == 0 {
        assert(by_key(rows).dom() =~= Set::<K>::empty());
    } else {
        let front = rows.drop_last();
        let last = rows.last();
        assert(rows =~= front.push(last));
        lemma_finite(front);
        assert forall|q: K| #[trigger]
            holds_key(rows, q) <==> (q == last.0 || holds_key(front, q)) by {
            lemma_keys_after_push(front, last, q);
        }
        assert(by_key(rows).dom() =~= by_key(front).dom().insert(last.0));
    }
}

/// With distinct keys, the table has as many keys as there are rows.
pub proof fn lemma_count<K, V>(rows: Seq<(K, V)>)
    requires
        distinct_keys(rows),
    ensures
        by_key(rows).dom().finite(),
        by_key(rows).dom().len() == rows.len(),
    decreases rows.len(),
{
    lemma_finite(rows);
    if rows.len() == 0 {
        assert(by_key(rows).dom() =~= Set::<K>::empty());
    } else {
        let front = rows.drop_last();
        let last = rows.last();
        assert(rows =~= front.push(last));
        assert forall|i: int, j: int| 0 <= i < j < front.len() implies (#[trigger] front[i]).0 != (
        #[trigger] front[j]).0 by {
            assert(rows[i].0 != rows[j].0);
        }
        lemma_count(front);
        assert(!holds_key(front, last.0)) by {
            if holds_key(front, last.0) {
                let p = position(front, last.0);
                assert(rows[p].0 != rows[rows.len() - 1].0);
            }
        }
        assert forall|q: K| #[trigger]
            holds_key(rows, q) <==> (q == last.0 || holds_key(front, q)) by {
            lemma_keys_after_push(front, last, q);
        }
        assert(by_key(rows).dom() =~= by_key(front).dom().insert(last.0));
    }
}

} // verus!
