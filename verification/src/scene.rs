//! What a scene names more than once is set up once and shared.
use vstd::prelude::*;

use crate::loader::asset::AssetId;

verus! {

/// The ids of `s`, each once, in the order in which they first appear.
pub open spec fn first_seen(s: Seq<AssetId>) -> Seq<AssetId>
    decreases s.len(),
{
    if s.len() == 0 {
        Seq::empty()
    } else {
        let rest = first_seen(s.drop_last());
        if rest.contains(s.last()) {
            rest
        } else {
            rest.push(s.last())
        }
    }
}

/// The ids of `first_seen(s)` are those of `s`, each once.
pub proof fn lemma_first_seen(s: Seq<AssetId>)
    ensures
        first_seen(s).no_duplicates(),
        forall|id: AssetId| first_seen(s).contains(id) <==> s.contains(id),
    decreases s.len(),
{
    if s.len() > 0 {
        let t = s.drop_last();
        lemma_first_seen(t);
        let rest = first_seen(t);
        assert forall|id: AssetId| s.contains(id) <==> t.contains(id) || id == s.last() by {
            if t.contains(id) {
                let i = choose|i: int| 0 <= i < t.len() && t[i] == id;
                assert(s[i] == id);
            }
            if s.contains(id) {
                let i = choose|i: int| 0 <= i < s.len() && s[i] == id;
                if i < s.len() - 1 {
                    assert(t[i] == id);
                }
            }
            if id == s.last() {
                assert(s[s.len() - 1] == id);
            }
        }
        if !rest.contains(s.last()) {
            assert forall|id: AssetId| first_seen(s).contains(id) <==> rest.contains(id) || id == s.last() by {
                if first_seen(s).contains(id) {
                    let j = choose|j: int| 0 <= j < first_seen(s).len() && first_seen(s)[j] == id;
                    if j < rest.len() {
                        assert(rest[j] == id);
                    }
                }
                if rest.contains(id) {
                    let j = choose|j: int| 0 <= j < rest.len() && rest[j] == id;
                    assert(first_seen(s)[j] == id);
                }
                if id == s.last() {
                    assert(first_seen(s)[rest.len() as int] == id);
                }
            }
        }
    }
}

/// Where `id` stands in `v`, if it does.
fn position(v: &Vec<AssetId>, id: AssetId) -> (r: Option<usize>)
    ensures
        match r {
            Some(j) => j < v@.len() && v@[j as int] == id,
            None => !v@.contains(id),
        },
{
    let mut j: usize = 0;
    while j < v.len()
        invariant
            j <= v@.len(),
            forall|k: int| 0 <= k < j ==> v@[k] != id,
        decreases v@.len() - j,
    {
        if v[j] == id {
            return Some(j);
        }
        j = j + 1;
    }
    None
}

/// Groups `ids` by id: `r.0` holds each id once, in the order in which they first appear, and
/// `r.1[i]` is where `ids[i]` stands in `r.0`, so that each asset is set up once and shared
/// by all that name it.
pub fn share_by_id(ids: &Vec<AssetId>) -> (r: (Vec<AssetId>, Vec<usize>))
    ensures
        r.0@ == first_seen(ids@),
        r.0@.no_duplicates(),
        r.1@.len() == ids@.len(),
        forall|i: int| 0 <= i < ids@.len() ==> #[trigger] r.1@[i] < r.0@.len() && r.0@[r.1@[i] as int] == ids@[i],
{
    let mut unique: Vec<AssetId> = Vec::new();
    let mut index: Vec<usize> = Vec::new();
    let mut i: usize = 0;
    while i < ids.len()
        invariant
            i <= ids@.len(),
            unique@ == first_seen(ids@.take(i as int)),
            index@.len() == i,
            forall|k: int| 0 <= k < i ==> #[trigger] index@[k] < unique@.len() && unique@[index@[k] as int] == ids@[k],
        decreases ids@.len() - i,
    {
        let id = ids[i];
        let ghost before = ids@.take(i as int);
        assert(ids@.take(i + 1).drop_last() =~= before);
        assert(ids@.take(i + 1).last() == id);
        match position(&unique, id) {
            Some(j) => {
                assert(unique@.contains(id));
                index.push(j);
            },
            None => {
                index.push(unique.len());
                unique.push(id);
            },
        }
        i = i + 1;
    }
    proof {
        assert(ids@.take(ids@.len() as int) =~= ids@);
        lemma_first_seen(ids@);
    }
    (unique, index)
}

} // verus!
