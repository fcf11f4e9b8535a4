use vstd::prelude::*;

use crate::artifact::{artifact_text, ArtifactId, ArtifactKey};
use crate::service::{ServiceKey, WasmService};

verus! {

/// The artifact keys of a catalog, in its order.
pub open spec fn catalog_keys(c: Seq<(ArtifactId, WasmService)>) -> Seq<ArtifactKey> {
    c.map_values(|p: (ArtifactId, WasmService)| p.0@)
}

/// The service registered under each artifact of a catalog.
pub open spec fn catalog_map(c: Seq<(ArtifactId, WasmService)>) -> Map<ArtifactKey, ServiceKey> {
    Map::new(
        |a: ArtifactKey| catalog_keys(c).contains(a),
        |a: ArtifactKey| c[catalog_keys(c).index_of(a)].1@,
    )
}

/// The items joined by `", "`.
pub open spec fn joined(items: Seq<Seq<char>>) -> Seq<char>
    decreases items.len(),
{
    if items.len() == 0 {
        Seq::empty()
    } else if items.len() == 1 {
        items[0]
    } else {
        joined(items.drop_last()) + seq![',', ' '] + items.last()
    }
}

/// The listing of available artifacts: `None`, or their renderings joined by `", "`.
pub open spec fn catalog_text(keys: Seq<ArtifactKey>) -> Seq<char> {
    if keys.len() == 0 {
        seq!['N', 'o', 'n', 'e']
    } else {
        joined(keys.map_values(|a: ArtifactKey| artifact_text(a)))
    }
}

/// Description of a deploy request for an artifact outside the catalog.
pub open spec fn undeployable_text(a: ArtifactKey, keys: Seq<ArtifactKey>) -> Seq<char> {
    "Runtime failed to deploy artifact with id "@ + artifact_text(a)
        + ", it is not listed among available artifacts. Available artifacts: "@ + catalog_text(
        keys,
    )
}

pub(crate) proof fn lemma_catalog_lookup(c: Seq<(ArtifactId, WasmService)>, i: int)
    requires
        catalog_keys(c).no_duplicates(),
        0 <= i < c.len(),
    ensures
        catalog_map(c).contains_key(c[i].0@),
        catalog_map(c)[c[i].0@] == c[i].1@,
{
    let keys = catalog_keys(c);
    assert(keys[i] == c[i].0@);
    let j = keys.index_of(c[i].0@);
    assert(keys[j] == keys[i]);
}

pub(crate) fn find_artifact(c: &Vec<(ArtifactId, WasmService)>, a: &ArtifactId) -> (r: Option<usize>)
    ensures
        r matches Some(i) ==> i < c@.len() && c@[i as int].0@ == a@,
        r is None ==> !catalog_keys(c@).contains(a@),
{
    let mut i: usize = 0;
    while i < c.len()
        invariant
            i <= c@.len(),
            forall|j: int| 0 <= j < i ==> c@[j].0@ != a@,
        decreases c@.len() - i,
    {
        if c[i].0.eq(a) {
            return Some(i);
        }
        i = i + 1;
    }
    assert forall|k: int| 0 <= k < catalog_keys(c@).len() implies catalog_keys(c@)[k] != a@ by {
        assert(catalog_keys(c@)[k] == c@[k].0@);
    }
    None
}

/// Puts `service` in the catalog under `artifact`, replacing what was there.
pub(crate) fn catalog_insert(c: &mut Vec<(ArtifactId, WasmService)>, artifact: ArtifactId, service: WasmService)
    requires
        catalog_keys(old(c)@).no_duplicates(),
    ensures
        catalog_keys(final(c)@).no_duplicates(),
        catalog_map(final(c)@) == catalog_map(old(c)@).insert(artifact@, service@),
        catalog_keys(final(c)@) == if catalog_keys(old(c)@).contains(artifact@) {
            catalog_keys(old(c)@)
        } else {
            catalog_keys(old(c)@).push(artifact@)
        },
{
    let ghost a = artifact@;
    let ghost s = service@;
    let ghost before = c@;
    match find_artifact(c, &artifact) {
        Some(i) => {
            assert(catalog_keys(before)[i as int] == a);
            c.set(i, (artifact, service));
            assert(catalog_keys(c@) =~= catalog_keys(before));
            assert(catalog_keys(c@)[i as int] == a);
            assert forall|k: ArtifactKey| #[trigger] catalog_map(c@).contains_key(k) implies catalog_map(c@)[k]
                == catalog_map(before).insert(a, s)[k] by {
                let j = catalog_keys(c@).index_of(k);
                assert(catalog_keys(c@).contains(k));
                assert(catalog_keys(c@)[j] == k);
                lemma_catalog_lookup(c@, j);
                if j != i {
                    assert(c@[j] == before[j]);
                    assert(k != a);
                    lemma_catalog_lookup(before, j);
                }
            }
        },
        None => {
            c.push((artifact, service));
            assert(catalog_keys(c@) =~= catalog_keys(before).push(a));
            assert(catalog_keys(c@)[before.len() as int] == a);
            assert forall|k: ArtifactKey| #[trigger] catalog_map(c@).contains_key(k) implies catalog_map(c@)[k]
                == catalog_map(before).insert(a, s)[k] by {
                let j = catalog_keys(c@).index_of(k);
                lemma_catalog_lookup(c@, j);
                if j < before.len() {
                    assert(catalog_keys(before)[j] == k);
                    lemma_catalog_lookup(before, j);
                }
            }
            assert forall|k: ArtifactKey| #[trigger] catalog_map(before).insert(a, s).contains_key(k)
                implies catalog_map(c@).contains_key(k) by {
                if k != a {
                    let j = catalog_keys(before).index_of(k);
                    assert(catalog_keys(c@)[j] == k);
                }
            }
        },
    }
    assert(catalog_map(c@) =~= catalog_map(old(c)@).insert(a, s));
}

} // verus!
