use vstd::prelude::*;

use crate::artifact::ArtifactKey;
use crate::memory::{fits, splice};
use crate::runtime::WasmRuntime;

verus! {

/// Memory round trip: reading back, at the same place, the bytes just written into a
/// memory gives exactly those bytes, and the memory keeps its size.
pub proof fn lemma_memory_round_trip(mem: Seq<u8>, offset: int, data: Seq<u8>)
    requires
        0 <= offset,
        fits(mem.len(), offset, data.len() as int),
    ensures
        splice(mem, offset, data).len() == mem.len(),
        splice(mem, offset, data).subrange(offset, offset + data.len()) == data,
{
    assert(splice(mem, offset, data).subrange(offset, offset + data.len()) =~= data);
}

/// Writing into a memory leaves every byte outside the written range as it was.
pub proof fn lemma_memory_write_is_local(mem: Seq<u8>, offset: int, data: Seq<u8>, i: int)
    requires
        0 <= offset,
        fits(mem.len(), offset, data.len() as int),
        0 <= i < mem.len(),
        !(offset <= i < offset + data.len()),
    ensures
        splice(mem, offset, data)[i] == mem[i],
{
}

/// An artifact is deployed at most once: once a deploy of `a` has succeeded, a further
/// deploy of `a` with empty parameters is no longer a request the caller may make.
pub proof fn lemma_deploy_at_most_once(before: WasmRuntime, after: WasmRuntime, a: ArtifactKey)
    requires
        after.deployed() == before.deployed().insert(a),
    ensures
        after.deployed().contains(a),
        !after.may_deploy(a, Seq::empty()),
{
}

/// Deploy then unload: an artifact that was not deployed is deployed after a successful
/// deploy and no longer after the unload, which restores the deployed set.
pub proof fn lemma_deploy_unload(
    before: WasmRuntime,
    deployed: WasmRuntime,
    unloaded: WasmRuntime,
    a: ArtifactKey,
)
    requires
        !before.deployed().contains(a),
        deployed.deployed() == before.deployed().insert(a),
        unloaded.deployed() == deployed.deployed().remove(a),
    ensures
        deployed.deployed().contains(a),
        !unloaded.deployed().contains(a),
        unloaded.deployed() == before.deployed(),
{
    assert(unloaded.deployed() =~= before.deployed());
}

} // verus!
