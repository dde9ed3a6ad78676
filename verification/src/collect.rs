//! Reasoning about a pass over the keys of a map that gathers the keys one
//! is looking for.

use vstd::prelude::*;

verus! {

/// The state of a pass over `keys` that has looked at the first `i` of them
/// and gathered `got`: nothing is gathered twice, everything gathered was
/// wanted and has been looked at, and every wanted key looked at is gathered.
pub open spec fn gathering(keys: Seq<u32>, i: int, got: Seq<u32>, want: Set<u32>) -> bool {
    &&& 0 <= i <= keys.len()
    &&& keys.no_duplicates()
    &&& got.no_duplicates()
    &&& forall|j: int| i <= j < keys.len() ==> !got.contains(#[trigger] keys[j])
    &&& forall|x: u32| #[trigger] got.contains(x) ==> want.contains(x)
    &&& forall|j: int| 0 <= j < i && want.contains(#[trigger] keys[j]) ==> got.contains(keys[j])
}

/// A pass that has looked at nothing has gathered nothing.
pub proof fn lemma_gathering_start(keys: Seq<u32>, want: Set<u32>)
    requires
        keys.no_duplicates(),
    ensures
        gathering(keys, 0, Seq::<u32>::empty(), want),
{
}

/// Looking at one more key: it is gathered exactly when it is wanted.
pub proof fn lemma_gathering_step(keys: Seq<u32>, i: int, got: Seq<u32>, want: Set<u32>)
    requires
        gathering(keys, i, got, want),
        i < keys.len(),
    ensures
        !got.contains(keys[i]),
        want.contains(keys[i]) ==> gathering(keys, i + 1, got.push(keys[i]), want),
        !want.contains(keys[i]) ==> gathering(keys, i + 1, got, want),
{
    let id = keys[i];
    if want.contains(id) {
        let after = got.push(id);
        assert(after[got.len() as int] == id);
        assert forall|x: u32| after.contains(x) implies got.contains(x) || x == id by {
            let k = choose|k: int| 0 <= k < after.len() && after[k] == x;
            if k < got.len() {
                assert(got[k] == x);
            }
        }
        assert forall|x: u32| got.contains(x) implies after.contains(x) by {
            let k = choose|k: int| 0 <= k < got.len() && got[k] == x;
            assert(after[k] == x);
        }
        assert forall|a: int, b: int| 0 <= a < after.len() && 0 <= b < after.len() && a != b implies after[a]
            != after[b] by {
            if a == got.len() {
                assert(got[b] == after[b]);
                assert(got.contains(after[b]));
            } else if b == got.len() {
                assert(got[a] == after[a]);
                assert(got.contains(after[a]));
            }
        }
        assert forall|j: int| i + 1 <= j < keys.len() implies !after.contains(#[trigger] keys[j]) by {
            assert(!got.contains(keys[j]));
        }
    }
}

/// A pass that has looked at every key of a map has gathered exactly the
/// wanted keys of that map.
pub proof fn lemma_gathering_end(keys: Seq<u32>, got: Seq<u32>, want: Set<u32>)
    requires
        gathering(keys, keys.len() as int, got, want),
        want.subset_of(keys.to_set()),
    ensures
        got.to_set() == want,
{
    assert forall|x: u32| want.contains(x) implies got.contains(x) by {
        assert(keys.to_set().contains(x));
        let j = choose|j: int| 0 <= j < keys.len() && keys[j] == x;
        assert(want.contains(keys[j]));
    }
    assert(got.to_set() =~= want);
}

/// The set of the first `i + 1` members of `ids` is the set of the first
/// `i` with the next one added.
pub proof fn lemma_prefix_set_grows(ids: Seq<u32>, i: int)
    requires
        0 <= i < ids.len(),
    ensures
        ids.take(i + 1).to_set() == ids.take(i).to_set().insert(ids[i]),
        ids.no_duplicates() ==> !ids.take(i).to_set().contains(ids[i]),
{
    assert(ids.take(i + 1) =~= ids.take(i).push(ids[i]));
    ids.take(i).lemma_push_to_set_commute(ids[i]);
    if ids.no_duplicates() && ids.take(i).to_set().contains(ids[i]) {
        let k = choose|k: int| 0 <= k < ids.take(i).len() && ids.take(i)[k] == ids[i];
        assert(ids[k] == ids[i]);
    }
}

} // verus!
