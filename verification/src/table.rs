use vstd::prelude::*;

verus! {

/// A record that is filed under a string key.
pub trait Keyed {
    /// The key of the record.
    spec fn key(&self) -> Seq<char>;

    /// The key of the record, as held.
    fn key_str(&self) -> (k: &String)
        ensures
            k@ == self.key(),
    ;
}

/// Some record of `s` is filed under `k`.
pub open spec fn has_key<T: Keyed>(s: Seq<T>, k: Seq<char>) -> bool {
    exists|i: int| #![trigger s[i]] 0 <= i < s.len() && s[i].key() == k
}

/// The position of a record of `s` filed under `k`.
pub open spec fn key_position<T: Keyed>(s: Seq<T>, k: Seq<char>) -> int {
    choose|i: int| #![trigger s[i]] 0 <= i < s.len() && s[i].key() == k
}

/// No two records of `s` share a key.
pub open spec fn keys_distinct<T: Keyed>(s: Seq<T>) -> bool {
    forall|i: int, j: int|
        #![trigger s[i], s[j]]
        0 <= i < s.len() && 0 <= j < s.len() && s[i].key() == s[j].key() ==> i == j
}

/// The records of `s` as a map from key to record.
pub open spec fn by_key<T: Keyed>(s: Seq<T>) -> Map<Seq<char>, T> {
    Map::new(|k: Seq<char>| has_key(s, k), |k: Seq<char>| s[key_position(s, k)])
}

/// In a sequence with distinct keys, the record at `i` is the one the map
/// holds under its key.
pub proof fn lemma_by_key_at<T: Keyed>(s: Seq<T>, i: int)
    requires
        keys_distinct(s),
        0 <= i < s.len(),
    ensures
        by_key(s).dom().contains(s[i].key()),
        by_key(s)[s[i].key()] == s[i],
{
    let k = s[i].key();
    assert(has_key(s, k));
    let p = key_position(s, k);
    assert(0 <= p < s.len() && s[p].key() == k);
}

/// Appending a record under a new key adds that key to the map.
pub proof fn lemma_by_key_push<T: Keyed>(s: Seq<T>, x: T)
    requires
        keys_distinct(s),
        !has_key(s, x.key()),
    ensures
        keys_distinct(s.push(x)),
        by_key(s.push(x)) == by_key(s).insert(x.key(), x),
{
    let t = s.push(x);
    assert forall|i: int, j: int|
        0 <= i < t.len() && 0 <= j < t.len() && #[trigger] t[i].key() == #[trigger] t[j].key()
        implies i == j by {
        if i < s.len() && j == s.len() {
            assert(s[i] == t[i]);
        } else if j < s.len() && i == s.len() {
            assert(s[j] == t[j]);
        } else if i < s.len() && j < s.len() {
            assert(s[i] == t[i] && s[j] == t[j]);
        }
    }
    let m = by_key(s).insert(x.key(), x);
    assert forall|k: Seq<char>| #[trigger] by_key(t).dom().contains(k) <==> m.dom().contains(k) by {
        if has_key(t, k) {
            let p = choose|p: int| #![trigger t[p]] 0 <= p < t.len() && t[p].key() == k;
            if p < s.len() {
                assert(s[p] == t[p]);
                assert(has_key(s, k));
            }
        }
        if has_key(s, k) {
            let p = choose|p: int| #![trigger s[p]] 0 <= p < s.len() && s[p].key() == k;
            assert(t[p] == s[p]);
        }
        if k == x.key() {
            assert(t[s.len() as int] == x);
        }
    }
    assert forall|k: Seq<char>| #[trigger] by_key(t).dom().contains(k) implies by_key(t)[k] == m[k] by {
        let p = key_position(t, k);
        assert(0 <= p < t.len() && t[p].key() == k);
        if k == x.key() {
            assert(t[s.len() as int] == x);
        } else {
            assert(p < s.len());
            assert(s[p] == t[p]);
            lemma_by_key_at(s, p);
        }
    }
    assert(by_key(t) =~= m);
}

/// Replacing the record at `i` by one under the same key changes the map at
/// that key only.
pub proof fn lemma_by_key_update<T: Keyed>(s: Seq<T>, i: int, x: T)
    requires
        keys_distinct(s),
        0 <= i < s.len(),
        s[i].key() == x.key(),
    ensures
        keys_distinct(s.update(i, x)),
        by_key(s.update(i, x)) == by_key(s).insert(x.key(), x),
{
    let t = s.update(i, x);
    assert forall|a: int, b: int|
        0 <= a < t.len() && 0 <= b < t.len() && #[trigger] t[a].key() == #[trigger] t[b].key()
        implies a == b by {
        assert(t[a].key() == s[a].key());
        assert(t[b].key() == s[b].key());
    }
    let m = by_key(s).insert(x.key(), x);
    assert forall|k: Seq<char>| #[trigger] by_key(t).dom().contains(k) <==> m.dom().contains(k) by {
        if has_key(t, k) {
            let p = choose|p: int| #![trigger t[p]] 0 <= p < t.len() && t[p].key() == k;
            assert(t[p].key() == s[p].key());
            assert(has_key(s, k));
        }
        if has_key(s, k) {
            let p = choose|p: int| #![trigger s[p]] 0 <= p < s.len() && s[p].key() == k;
            assert(t[p].key() == s[p].key());
        }
        if k == x.key() {
            assert(t[i] == x);
        }
    }
    assert forall|k: Seq<char>| #[trigger] by_key(t).dom().contains(k) implies by_key(t)[k] == m[k] by {
        let p = key_position(t, k);
        assert(0 <= p < t.len() && t[p].key() == k);
        assert(t[p].key() == s[p].key());
        if k == x.key() {
            assert(p == i);
        } else {
            assert(p != i);
            assert(t[p] == s[p]);
            lemma_by_key_at(s, p);
        }
    }
    assert(by_key(t) =~= m);
}

/// The position of the record filed under `k`, if one is.
pub fn find_key<T: Keyed>(s: &Vec<T>, k: &String) -> (r: Option<usize>)
    ensures
        match r {
            Some(i) => i < s@.len() && s@[i as int].key() == k@,
            None => !has_key(s@, k@),
        },
{
    let mut i: usize = 0;
    while i < s.len()
        invariant
            i <= s@.len(),
            forall|j: int| 0 <= j < i ==> #[trigger] s@[j].key() != k@,
        decreases s@.len() - i,
    {
        let here: &String = s[i].key_str();
        if here.eq(k) {
            return Some(i);
        }
        i = i + 1;
    }
    assert forall|j: int| 0 <= j < s@.len() implies #[trigger] s@[j].key() != k@ by {}
    None
}

} // verus!
