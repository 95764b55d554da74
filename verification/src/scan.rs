use vstd::prelude::*;

use vstd::seq_lib::group_to_multiset_ensures;
use vstd::seq_lib::lemma_flatten_concat;
use vstd::seq_lib::lemma_multiset_commutative;

use crate::predicate::{
    chunk_coord, chunk_has_records, chunk_well_formed, get_coordinate_if_contains_entities,
};
use crate::tags::TagCompound;
use crate::{ChunkCoordinate, ScanError};

verus! {

/// The coordinates of the chunks of one container that hold entity or
/// tile-entity records, in the container's own chunk order.
pub open spec fn spec_container_coords(chunks: Seq<TagCompound>) -> Seq<ChunkCoordinate> {
    chunks.filter(|c: TagCompound| chunk_has_records(c)).map_values(
        |c: TagCompound| chunk_coord(c),
    )
}

/// What scanning one container's chunks reports: the coordinates of
/// its record-holding chunks when every chunk is well formed, and
/// `MalformedChunk` when any chunk is not.
pub open spec fn spec_scan_chunks(chunks: Seq<TagCompound>) -> Result<
    Seq<ChunkCoordinate>,
    ScanError,
> {
    if forall|i: int| 0 <= i < chunks.len() ==> chunk_well_formed(chunks[i]) {
        Result::Ok(spec_container_coords(chunks))
    } else {
        Result::Err(ScanError::MalformedChunk)
    }
}

/// Appending one chunk extends a container's coordinate list by that
/// chunk's coordinate exactly when the chunk holds records.
proof fn lemma_container_coords_push(chunks: Seq<TagCompound>, c: TagCompound)
    ensures
        spec_container_coords(chunks.push(c)) == if chunk_has_records(c) {
            spec_container_coords(chunks).push(chunk_coord(c))
        } else {
            spec_container_coords(chunks)
        },
{
    reveal(Seq::filter);
    assert(chunks.push(c).drop_last() =~= chunks);
    if chunk_has_records(c) {
        assert(spec_container_coords(chunks.push(c)) =~= spec_container_coords(chunks).push(
            chunk_coord(c),
        ));
    } else {
        assert(spec_container_coords(chunks.push(c)) =~= spec_container_coords(chunks));
    }
}

/// Scans one container's decoded chunks with the entity predicate and
/// collects the coordinates of the chunks that hold records.
pub fn list_chunks_with_entities_in_region(chunks: &Vec<TagCompound>) -> (r: Result<
    Vec<ChunkCoordinate>,
    ScanError,
>)
    ensures
        match r {
            Result::Ok(v) => spec_scan_chunks(chunks@) == Result::<
                Seq<ChunkCoordinate>,
                ScanError,
            >::Ok(v@),
            Result::Err(e) => spec_scan_chunks(chunks@) == Result::<
                Seq<ChunkCoordinate>,
                ScanError,
            >::Err(e),
        },
{
    let mut acc: Vec<ChunkCoordinate> = Vec::new();
    let mut i: usize = 0;
    assert(chunks@.take(0) =~= Seq::<TagCompound>::empty());
    assert(spec_container_coords(Seq::<TagCompound>::empty()) =~= Seq::<
        ChunkCoordinate,
    >::empty()) by {
        reveal(Seq::filter);
    }
    while i < chunks.len()
        invariant
            i <= chunks@.len(),
            forall|j: int| 0 <= j < i ==> chunk_well_formed(chunks@[j]),
            acc@ == spec_container_coords(chunks@.take(i as int)),
        decreases chunks@.len() - i,
    {
        match get_coordinate_if_contains_entities(&chunks[i]) {
            Result::Err(e) => {
                assert(!chunk_well_formed(chunks@[i as int]));
                return Result::Err(e);
            },
            Result::Ok(opt) => {
                proof {
                    lemma_container_coords_push(chunks@.take(i as int), chunks@[i as int]);
                    assert(chunks@.take(i as int).push(chunks@[i as int]) =~= chunks@.take(
                        i + 1,
                    ));
                }
                match opt {
                    Option::Some(c) => acc.push(c),
                    Option::None => {},
                }
            },
        }
        i += 1;
    }
    assert(chunks@.take(i as int) =~= chunks@);
    Result::Ok(acc)
}

/// The views of a vector of scan results.
pub open spec fn result_views(results: Seq<Vec<ChunkCoordinate>>) -> Seq<Seq<ChunkCoordinate>> {
    results.map_values(|v: Vec<ChunkCoordinate>| v@)
}

/// The views of a vector of containers' decoded chunks.
pub open spec fn container_views(containers: Seq<Vec<TagCompound>>) -> Seq<Seq<TagCompound>> {
    containers.map_values(|v: Vec<TagCompound>| v@)
}

/// The collector: concatenates every received per-container scan
/// result into one aggregate coordinate list.
pub fn aggregate_results(results: &Vec<Vec<ChunkCoordinate>>) -> (r: Vec<ChunkCoordinate>)
    ensures
        r@ == result_views(results@).flatten(),
{
    let mut out: Vec<ChunkCoordinate> = Vec::new();
    let mut i: usize = 0;
    assert(result_views(results@.take(0)) =~= Seq::<Seq<ChunkCoordinate>>::empty());
    assert(Seq::<Seq<ChunkCoordinate>>::empty().flatten() =~= Seq::<ChunkCoordinate>::empty());
    while i < results.len()
        invariant
            i <= results@.len(),
            out@ == result_views(results@.take(i as int)).flatten(),
        decreases results@.len() - i,
    {
        let ghost prefix = result_views(results@.take(i as int));
        let mut j: usize = 0;
        assert(out@ =~= prefix.flatten() + results@[i as int]@.take(0));
        while j < results[i].len()
            invariant
                i < results@.len(),
                j <= results@[i as int]@.len(),
                out@ == prefix.flatten() + results@[i as int]@.take(j as int),
            decreases results@[i as int]@.len() - j,
        {
            out.push(results[i][j]);
            assert(results@[i as int]@.take(j as int).push(results@[i as int]@[j as int])
                =~= results@[i as int]@.take(j + 1));
            j += 1;
        }
        proof {
            assert(results@[i as int]@.take(j as int) =~= results@[i as int]@);
            prefix.lemma_flatten_push(results@[i as int]@);
            assert(result_views(results@.take(i as int)).push(results@[i as int]@)
                =~= result_views(results@.take(i + 1)));
        }
        i += 1;
    }
    assert(results@.take(i as int) =~= results@);
    out
}

/// The per-container results of scanning a directory of containers.
pub open spec fn spec_container_results(containers: Seq<Seq<TagCompound>>) -> Seq<
    Seq<ChunkCoordinate>,
>
    recommends
        forall|i: int| 0 <= i < containers.len() ==> spec_scan_chunks(containers[i]) is Ok,
{
    containers.map_values(|c: Seq<TagCompound>| spec_scan_chunks(c)->Ok_0)
}

/// What scanning a whole directory reports: the concatenation of the
/// per-container coordinate lists when every chunk of every container
/// is well formed, and `MalformedChunk` when any chunk is not.
pub open spec fn spec_scan_containers(containers: Seq<Seq<TagCompound>>) -> Result<
    Seq<ChunkCoordinate>,
    ScanError,
> {
    if forall|i: int| 0 <= i < containers.len() ==> spec_scan_chunks(containers[i]) is Ok {
        Result::Ok(spec_container_results(containers).flatten())
    } else {
        Result::Err(ScanError::MalformedChunk)
    }
}

/// Scans every container of a directory snapshot in order and
/// aggregates the per-container results, failing as soon as any
/// container holds a malformed chunk.
pub fn scan_containers(containers: &Vec<Vec<TagCompound>>) -> (r: Result<
    Vec<ChunkCoordinate>,
    ScanError,
>)
    ensures
        match r {
            Result::Ok(v) => spec_scan_containers(container_views(containers@)) == Result::<
                Seq<ChunkCoordinate>,
                ScanError,
            >::Ok(v@),
            Result::Err(e) => spec_scan_containers(container_views(containers@)) == Result::<
                Seq<ChunkCoordinate>,
                ScanError,
            >::Err(e),
        },
{
    let ghost all = container_views(containers@);
    let mut per_container: Vec<Vec<ChunkCoordinate>> = Vec::new();
    let mut i: usize = 0;
    while i < containers.len()
        invariant
            i <= containers@.len(),
            all == container_views(containers@),
            forall|j: int| 0 <= j < i ==> spec_scan_chunks(all[j]) is Ok,
            result_views(per_container@) =~= spec_container_results(all.take(i as int)),
        decreases containers@.len() - i,
    {
        match list_chunks_with_entities_in_region(&containers[i]) {
            Result::Err(e) => {
                assert(spec_scan_chunks(all[i as int]) == Result::<
                    Seq<ChunkCoordinate>,
                    ScanError,
                >::Err(e));
                return Result::Err(e);
            },
            Result::Ok(v) => {
                let ghost prev = per_container@;
                proof {
                    assert(all[i as int] == containers@[i as int]@);
                    assert(spec_scan_chunks(all[i as int]) == Result::<
                        Seq<ChunkCoordinate>,
                        ScanError,
                    >::Ok(v@));
                }
                per_container.push(v);
                proof {
                    assert(result_views(prev.push(v)) =~= result_views(prev).push(v@));
                    assert(spec_container_results(all.take(i + 1)) =~= spec_container_results(
                        all.take(i as int),
                    ).push(spec_scan_chunks(all[i as int])->Ok_0));
                    assert(result_views(per_container@) =~= spec_container_results(all.take(i + 1)));
                }
            },
        }
        i += 1;
    }
    assert(all.take(i as int) =~= all);
    let out = aggregate_results(&per_container);
    Result::Ok(out)
}

/// The flattening of a sequence of sequences splits, as a multiset,
/// around any one of its parts.
proof fn lemma_flatten_remove_multiset<A>(s: Seq<Seq<A>>, j: int)
    requires
        0 <= j < s.len(),
    ensures
        s.flatten().to_multiset() == s[j].to_multiset().add(s.remove(j).flatten().to_multiset()),
{
    let front = s.take(j);
    let back = s.skip(j + 1);
    let mid = seq![s[j]] + back;
    assert(s =~= front + mid);
    lemma_flatten_concat(front, mid);
    lemma_flatten_concat(seq![s[j]], back);
    assert(seq![s[j]].flatten() == s[j]) by {
        seq![s[j]].lemma_flatten_one_element();
    }
    assert(s.flatten() == front.flatten() + (s[j] + back.flatten()));
    assert(s.remove(j) =~= front + back);
    lemma_flatten_concat(front, back);
    lemma_multiset_commutative(front.flatten(), s[j] + back.flatten());
    lemma_multiset_commutative(s[j], back.flatten());
    lemma_multiset_commutative(front.flatten(), back.flatten());
    assert(s.flatten().to_multiset() =~= s[j].to_multiset().add(
        s.remove(j).flatten().to_multiset(),
    ));
}

/// Law: the aggregate holds the same coordinates, as a multiset, no
/// matter in which order the per-container scan results are collected.
/// Worker count and scheduling only permute that order, so they cannot
/// change which coordinates the scan finds.
pub proof fn lemma_aggregate_order_independent(
    r1: Seq<Seq<ChunkCoordinate>>,
    r2: Seq<Seq<ChunkCoordinate>>,
)
    requires
        r1.to_multiset() == r2.to_multiset(),
    ensures
        r1.flatten().to_multiset() == r2.flatten().to_multiset(),
    decreases r1.len(),
{
    broadcast use group_to_multiset_ensures;

    if r1.len() == 0 {
        assert(r1.to_multiset().len() == 0);
        assert(r2.len() == 0);
        assert(r1 =~= r2);
    } else {
        let head = r1[0];
        assert(r1.contains(head));
        assert(r1.to_multiset().count(head) > 0);
        assert(r2.contains(head));
        let j = choose|j: int| 0 <= j < r2.len() && r2[j] == head;
        let t1 = r1.remove(0);
        let t2 = r2.remove(j);
        assert(t1.to_multiset() == r1.to_multiset().remove(head));
        assert(t2.to_multiset() == r2.to_multiset().remove(head));
        lemma_aggregate_order_independent(t1, t2);
        lemma_flatten_remove_multiset(r1, 0);
        lemma_flatten_remove_multiset(r2, j);
    }
}

/// Law: when every container scans cleanly, a collector that receives
/// the per-container results in any delivery order aggregates the
/// same coordinate multiset as the sequential scan of the directory.
pub proof fn lemma_pipeline_agrees_with_sequential(
    containers: Seq<Seq<TagCompound>>,
    delivered: Seq<Seq<ChunkCoordinate>>,
)
    requires
        spec_scan_containers(containers) is Ok,
        delivered.to_multiset() == spec_container_results(containers).to_multiset(),
    ensures
        delivered.flatten().to_multiset() == (spec_scan_containers(
            containers,
        )->Ok_0).to_multiset(),
{
    lemma_aggregate_order_independent(delivered, spec_container_results(containers));
}

/// Law: scanning an unmodified directory twice yields the same
/// outcome, coordinates and error alike; the scan reads nothing but
/// the containers' contents.
pub proof fn lemma_scan_idempotent(
    first_run: Seq<Seq<TagCompound>>,
    second_run: Seq<Seq<TagCompound>>,
)
    requires
        first_run == second_run,
    ensures
        spec_scan_containers(first_run) == spec_scan_containers(second_run),
{
}

} // verus!
