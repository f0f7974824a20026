//! Entity-set bookkeeping of authoritative state deltas: applying a delta
//! (drop destroyed ids, then update or add each updated entity) and
//! overlaying the locally predicted controlled entity on a presentation
//! snapshot. Entities are identified by id; their contents pass through.

use vstd::prelude::*;

verus! {

/// One entity of a snapshot: its id and its contents.
pub struct EntityRecord<E> {
    pub id: u64,
    pub entity: E,
}

/// Whether `ids` holds `id`.
pub open spec fn holds_id(ids: Seq<u64>, id: u64) -> bool {
    exists|k: int| 0 <= k < ids.len() && ids[k] == id
}

/// `records` without those whose id is in `destroyed`, order kept.
pub open spec fn without_destroyed<E>(records: Seq<EntityRecord<E>>, destroyed: Seq<u64>) -> Seq<EntityRecord<E>>
    decreases records.len(),
{
    if records.len() == 0 {
        records
    } else {
        let earlier = without_destroyed(records.drop_last(), destroyed);
        if holds_id(destroyed, records.last().id) {
            earlier
        } else {
            earlier.push(records.last())
        }
    }
}

/// Position of the first record with `id`, or `records.len()` if none.
pub open spec fn first_with_id<E>(records: Seq<EntityRecord<E>>, id: u64) -> int
    decreases records.len(),
{
    if records.len() == 0 {
        0
    } else if records[0].id == id {
        0
    } else {
        1 + first_with_id(records.drop_first(), id)
    }
}

/// `records` with `record` in place of the first record with the same id,
/// or appended when there is none.
pub open spec fn upsert<E>(records: Seq<EntityRecord<E>>, record: EntityRecord<E>) -> Seq<EntityRecord<E>> {
    let i = first_with_id(records, record.id);
    if i < records.len() {
        records.update(i, record)
    } else {
        records.push(record)
    }
}

/// `records` after upserting each of `updated`, in order.
pub open spec fn apply_updates<E>(records: Seq<EntityRecord<E>>, updated: Seq<EntityRecord<E>>) -> Seq<EntityRecord<E>>
    decreases updated.len(),
{
    if updated.len() == 0 {
        records
    } else {
        upsert(apply_updates(records, updated.drop_last()), updated.last())
    }
}

/// The entities after applying a delta: destroyed ids are dropped first,
/// then every updated entity replaces the entity with its id or is added.
pub open spec fn spec_apply_delta<E>(
    entities: Seq<EntityRecord<E>>,
    updated: Seq<EntityRecord<E>>,
    destroyed: Seq<u64>,
) -> Seq<EntityRecord<E>> {
    apply_updates(without_destroyed(entities, destroyed), updated)
}

proof fn lemma_first_with_id_bounds<E>(records: Seq<EntityRecord<E>>, id: u64)
    ensures
        0 <= first_with_id(records, id) <= records.len(),
        first_with_id(records, id) < records.len() ==> records[first_with_id(records, id)].id == id,
        forall|k: int| 0 <= k < first_with_id(records, id) ==> #[trigger] records[k].id != id,
    decreases records.len(),
{
    if records.len() > 0 && records[0].id != id {
        let rest = records.drop_first();
        lemma_first_with_id_bounds(rest, id);
        assert forall|k: int| 0 <= k < first_with_id(records, id) implies #[trigger] records[k].id != id by {
            if k > 0 {
                assert(records[k] == rest[k - 1]);
            }
        }
    }
}

proof fn lemma_first_with_id_exact<E>(records: Seq<EntityRecord<E>>, id: u64, i: int)
    requires
        0 <= i <= records.len(),
        i < records.len() ==> records[i].id == id,
        forall|k: int| 0 <= k < i ==> #[trigger] records[k].id != id,
    ensures
        first_with_id(records, id) == i,
    decreases records.len(),
{
    if records.len() > 0 && i > 0 {
        let rest = records.drop_first();
        assert forall|k: int| 0 <= k < i - 1 implies #[trigger] rest[k].id != id by {
            assert(rest[k] == records[k + 1]);
        }
        lemma_first_with_id_exact(rest, id, i - 1);
    }
}

/// Whether `ids` holds `id`.
fn contains_id(ids: &Vec<u64>, id: u64) -> (res: bool)
    ensures
        res == holds_id(ids@, id),
{
    let mut k: usize = 0;
    while k < ids.len()
        invariant
            k <= ids@.len(),
            forall|j: int| 0 <= j < k ==> ids@[j] != id,
        decreases ids@.len() - k,
    {
        if ids[k] == id {
            return true;
        }
        k = k + 1;
    }
    false
}

/// Replaces the first record with `record`'s id, or appends `record`.
pub fn upsert_record<E>(records: &mut Vec<EntityRecord<E>>, record: EntityRecord<E>)
    ensures
        final(records)@ == upsert(old(records)@, record),
{
    let ghost before = records@;
    let mut i: usize = 0;
    while i < records.len() && records[i].id != record.id
        invariant
            i <= records@.len(),
            records@ == before,
            forall|k: int| 0 <= k < i ==> #[trigger] records@[k].id != record.id,
        decreases records@.len() - i,
    {
        i = i + 1;
    }
    proof {
        lemma_first_with_id_exact(before, record.id, i as int);
    }
    if i < records.len() {
        let _ = records.remove(i);
        records.insert(i, record);
        assert(records@ =~= before.update(i as int, record));
    } else {
        records.push(record);
    }
}

/// Applies a delta to a snapshot's entities: entities whose id is in
/// `destroyed` are dropped, then each updated entity, in order, replaces the
/// first entity with its id or is appended.
pub fn apply_entity_delta<E>(
    entities: Vec<EntityRecord<E>>,
    updated: Vec<EntityRecord<E>>,
    destroyed: &Vec<u64>,
) -> (res: Vec<EntityRecord<E>>)
    ensures
        res@ == spec_apply_delta(entities@, updated@, destroyed@),
{
    let ghost all = entities@;
    let mut kept: Vec<EntityRecord<E>> = Vec::new();
    assert(all.take(0) =~= Seq::<EntityRecord<E>>::empty());
    for record in it: entities.into_iter()
        invariant
            it.seq() == all,
            kept@ == without_destroyed(all.take(it.index() as int), destroyed@),
    {
        let ghost i = it.index() as int;
        proof {
            assert(all.take(i + 1).drop_last() =~= all.take(i));
            assert(all.take(i + 1).last() == record);
        }
        if !contains_id(destroyed, record.id) {
            kept.push(record);
        }
    }
    proof {
        assert(all.take(all.len() as int) =~= all);
    }
    let ghost base = kept@;
    let ghost changes = updated@;
    assert(changes.take(0) =~= Seq::<EntityRecord<E>>::empty());
    for record in it: updated.into_iter()
        invariant
            it.seq() == changes,
            kept@ == apply_updates(base, changes.take(it.index() as int)),
    {
        let ghost i = it.index() as int;
        proof {
            assert(changes.take(i + 1).drop_last() =~= changes.take(i));
            assert(changes.take(i + 1).last() == record);
        }
        upsert_record(&mut kept, record);
    }
    proof {
        assert(changes.take(changes.len() as int) =~= changes);
    }
    kept
}

/// Overlays the locally predicted controlled entity on a sampled
/// presentation snapshot: with a controlled entity that the predicted
/// snapshot holds, its predicted record replaces the sampled one (or is
/// added); otherwise the sample is returned as it was.
pub open spec fn spec_overlay<E>(
    sampled: Seq<EntityRecord<E>>,
    predicted: Option<Seq<EntityRecord<E>>>,
    controlled: Option<u64>,
) -> Seq<EntityRecord<E>> {
    match (controlled, predicted) {
        (Some(id), Some(p)) => if first_with_id(p, id) < p.len() {
            upsert(sampled, p[first_with_id(p, id)])
        } else {
            sampled
        },
        _ => sampled,
    }
}

/// Composes the presentation entities from a sampled snapshot and the
/// predicted local snapshot (see [`spec_overlay`]).
pub fn overlay_controlled_entity<E>(
    sampled: Vec<EntityRecord<E>>,
    predicted_local: Option<Vec<EntityRecord<E>>>,
    controlled_entity: Option<u64>,
) -> (res: Vec<EntityRecord<E>>)
    ensures
        res@ == spec_overlay(
            sampled@,
            match predicted_local {
                Some(p) => Some(p@),
                None => None,
            },
            controlled_entity,
        ),
{
    let id = match controlled_entity {
        Some(id) => id,
        None => {
            return sampled;
        },
    };
    let mut predicted = match predicted_local {
        Some(p) => p,
        None => {
            return sampled;
        },
    };
    let ghost before = predicted@;
    let mut i: usize = 0;
    while i < predicted.len() && predicted[i].id != id
        invariant
            i <= predicted@.len(),
            predicted@ == before,
            forall|k: int| 0 <= k < i ==> #[trigger] predicted@[k].id != id,
        decreases predicted@.len() - i,
    {
        i = i + 1;
    }
    proof {
        lemma_first_with_id_exact(before, id, i as int);
    }
    if i == predicted.len() {
        return sampled;
    }
    let record = predicted.remove(i);
    let mut entities = sampled;
    upsert_record(&mut entities, record);
    entities
}

/// Applying a delta makes every updated entity present with its new
/// contents, and no destroyed entity survives unless the delta also updates
/// it.
pub proof fn lemma_apply_delta_effect<E>(
    entities: Seq<EntityRecord<E>>,
    updated: Seq<EntityRecord<E>>,
    destroyed: Seq<u64>,
    id: u64,
)
    ensures
        (forall|k: int| 0 <= k < updated.len() ==> #[trigger] updated[k].id != id) && holds_id(destroyed, id)
            ==> forall|k: int|
            0 <= k < spec_apply_delta(entities, updated, destroyed).len() ==> #[trigger] spec_apply_delta(
                entities,
                updated,
                destroyed,
            )[k].id != id,
        updated.len() > 0 ==> ({
            let result = spec_apply_delta(entities, updated, destroyed);
            let i = first_with_id(result, updated.last().id);
            &&& i < result.len()
            &&& result[i] == updated.last()
        }),
{
    let base = without_destroyed(entities, destroyed);
    lemma_without_destroyed(entities, destroyed, id);
    if holds_id(destroyed, id) {
        lemma_apply_updates_absent(base, updated, id);
    }
    if updated.len() > 0 {
        let before = apply_updates(base, updated.drop_last());
        let r = updated.last();
        lemma_first_with_id_bounds(before, r.id);
        let result = upsert(before, r);
        let i = first_with_id(before, r.id);
        if i < before.len() {
            assert forall|k: int| 0 <= k < i implies #[trigger] result[k].id != r.id by {
                assert(result[k] == before[k]);
            }
            lemma_first_with_id_exact(result, r.id, i);
        } else {
            assert forall|k: int| 0 <= k < before.len() implies #[trigger] result[k].id != r.id by {
                assert(result[k] == before[k]);
            }
            lemma_first_with_id_exact(result, r.id, before.len() as int);
        }
    }
}

proof fn lemma_without_destroyed<E>(records: Seq<EntityRecord<E>>, destroyed: Seq<u64>, id: u64)
    ensures
        holds_id(destroyed, id) ==> forall|k: int|
            0 <= k < without_destroyed(records, destroyed).len() ==> #[trigger] without_destroyed(
                records,
                destroyed,
            )[k].id != id,
    decreases records.len(),
{
    if records.len() > 0 {
        lemma_without_destroyed(records.drop_last(), destroyed, id);
        let earlier = without_destroyed(records.drop_last(), destroyed);
        let all = without_destroyed(records, destroyed);
        if holds_id(destroyed, id) {
            assert forall|k: int| 0 <= k < all.len() implies #[trigger] all[k].id != id by {
                if k < earlier.len() {
                    assert(all[k] == earlier[k]);
                }
            }
        }
    }
}

proof fn lemma_apply_updates_absent<E>(records: Seq<EntityRecord<E>>, updated: Seq<EntityRecord<E>>, id: u64)
    requires
        forall|k: int| 0 <= k < records.len() ==> #[trigger] records[k].id != id,
    ensures
        (forall|k: int| 0 <= k < updated.len() ==> #[trigger] updated[k].id != id) ==> forall|k: int|
            0 <= k < apply_updates(records, updated).len() ==> #[trigger] apply_updates(records, updated)[k].id
                != id,
    decreases updated.len(),
{
    if updated.len() > 0 {
        lemma_apply_updates_absent(records, updated.drop_last(), id);
        if forall|k: int| 0 <= k < updated.len() ==> #[trigger] updated[k].id != id {
            assert forall|k: int| 0 <= k < updated.drop_last().len() implies #[trigger] updated.drop_last()[k].id
                != id by {
                assert(updated.drop_last()[k] == updated[k]);
            }
            let before = apply_updates(records, updated.drop_last());
            let r = updated.last();
            assert(r == updated[updated.len() - 1]);
            lemma_first_with_id_bounds(before, r.id);
            let result = apply_updates(records, updated);
            assert forall|k: int| 0 <= k < result.len() implies #[trigger] result[k].id != id by {
                if k < before.len() && k != first_with_id(before, r.id) {
                    assert(result[k] == before[k]);
                }
            }
        }
    }
}

/// Whether some record of `records` has `id`.
pub open spec fn has_record_id<E>(records: Seq<EntityRecord<E>>, id: u64) -> bool {
    exists|k: int| 0 <= k < records.len() && #[trigger] records[k].id == id
}

/// Whether the record at `j` is the last one with its id (the one a map
/// keyed by id keeps).
pub open spec fn last_of_its_id<E>(records: Seq<EntityRecord<E>>, j: int) -> bool {
    forall|k: int| j < k < records.len() ==> #[trigger] records[k].id != records[j].id
}

/// Whether the record at `i` is the first one with its id.
pub open spec fn first_of_its_id<E>(records: Seq<EntityRecord<E>>, i: int) -> bool {
    forall|k: int| 0 <= k < i ==> #[trigger] records[k].id != records[i].id
}

/// Whether a delta from `old` to `new` carries `new[j]`: it is the last
/// record of its id in `new`, and its id is new or `changed[j]` says the
/// entity differs from the old one.
pub open spec fn carried<E>(old: Seq<EntityRecord<E>>, new: Seq<EntityRecord<E>>, changed: Seq<bool>, j: int) -> bool {
    last_of_its_id(new, j) && (!has_record_id(old, new[j].id) || changed[j])
}

/// The records of the first `n` of `new` that the delta carries, in order.
pub open spec fn diff_updated<E>(
    old: Seq<EntityRecord<E>>,
    new: Seq<EntityRecord<E>>,
    changed: Seq<bool>,
    n: int,
) -> Seq<EntityRecord<E>>
    decreases n,
{
    if n <= 0 {
        Seq::empty()
    } else {
        let earlier = diff_updated(old, new, changed, n - 1);
        if carried(old, new, changed, n - 1) {
            earlier.push(new[n - 1])
        } else {
            earlier
        }
    }
}

/// The ids among the first `n` records of `old` that `new` no longer
/// holds, each once, in order.
pub open spec fn diff_destroyed<E>(old: Seq<EntityRecord<E>>, new: Seq<EntityRecord<E>>, n: int) -> Seq<u64>
    decreases n,
{
    if n <= 0 {
        Seq::empty()
    } else {
        let earlier = diff_destroyed(old, new, n - 1);
        if first_of_its_id(old, n - 1) && !has_record_id(new, old[n - 1].id) {
            earlier.push(old[n - 1].id)
        } else {
            earlier
        }
    }
}

/// The ids of `records`, in order.
fn record_ids<E>(records: &Vec<EntityRecord<E>>) -> (ids: Vec<u64>)
    ensures
        ids@.len() == records@.len(),
        forall|k: int| 0 <= k < ids@.len() ==> #[trigger] ids@[k] == records@[k].id,
{
    let mut ids: Vec<u64> = Vec::new();
    let mut k: usize = 0;
    while k < records.len()
        invariant
            k <= records@.len(),
            ids@.len() == k,
            forall|j: int| 0 <= j < k ==> #[trigger] ids@[j] == records@[j].id,
        decreases records@.len() - k,
    {
        ids.push(records[k].id);
        k = k + 1;
    }
    ids
}

/// Whether the id at `j` of `ids` occurs again at a position in `from..`.
fn occurs_from(ids: &Vec<u64>, id: u64, from: usize) -> (res: bool)
    ensures
        res == exists|k: int| from <= k < ids@.len() && #[trigger] ids@[k] == id,
{
    let mut k: usize = from;
    while k < ids.len()
        invariant
            from <= k,
            forall|j: int| from <= j < k ==> #[trigger] ids@[j] != id,
        decreases ids@.len() - k,
    {
        if ids[k] == id {
            return true;
        }
        k = k + 1;
    }
    false
}

/// Whether `id` occurs among the first `upto` of `ids`.
fn occurs_before(ids: &Vec<u64>, id: u64, upto: usize) -> (res: bool)
    requires
        upto <= ids@.len(),
    ensures
        res == exists|k: int| 0 <= k < upto && #[trigger] ids@[k] == id,
{
    let mut k: usize = 0;
    while k < upto
        invariant
            k <= upto <= ids@.len(),
            forall|j: int| 0 <= j < k ==> #[trigger] ids@[j] != id,
        decreases upto - k,
    {
        if ids[k] == id {
            return true;
        }
        k = k + 1;
    }
    false
}

/// The id bookkeeping of a state delta from `old` to `new`. `changed[j]`
/// is the host's verdict whether `new[j]` differs from the old entity with
/// its id. The delta carries every entity of `new` whose id is new or whose
/// entity changed, one per id (the last record of it), in `new`'s order,
/// and destroys every id of `old` that `new` no longer holds, once each,
/// in `old`'s order.
pub fn entity_delta<E>(
    old: &Vec<EntityRecord<E>>,
    new: Vec<EntityRecord<E>>,
    changed: &Vec<bool>,
) -> (res: (Vec<EntityRecord<E>>, Vec<u64>))
    requires
        changed@.len() == new@.len(),
    ensures
        res.0@ == diff_updated(old@, new@, changed@, new@.len() as int),
        res.1@ == diff_destroyed(old@, new@, old@.len() as int),
{
    let old_ids = record_ids(old);
    let new_ids = record_ids(&new);
    let mut destroyed: Vec<u64> = Vec::new();
    let mut i: usize = 0;
    while i < old.len()
        invariant
            i <= old@.len(),
            old_ids@.len() == old@.len(),
            forall|k: int| 0 <= k < old_ids@.len() ==> #[trigger] old_ids@[k] == old@[k].id,
            new_ids@.len() == new@.len(),
            forall|k: int| 0 <= k < new_ids@.len() ==> #[trigger] new_ids@[k] == new@[k].id,
            destroyed@ == diff_destroyed(old@, new@, i as int),
        decreases old@.len() - i,
    {
        let id = old_ids[i];
        let seen = occurs_before(&old_ids, id, i);
        let kept = occurs_from(&new_ids, id, 0);
        proof {
            if seen {
                let k = choose|k: int| 0 <= k < i && #[trigger] old_ids@[k] == id;
                assert(old@[k].id == old@[i as int].id);
            } else {
                assert forall|k: int| 0 <= k < i implies #[trigger] old@[k].id != old@[i as int].id by {
                    assert(old_ids@[k] == old@[k].id);
                }
            }
            if kept {
                let k = choose|k: int| 0 <= k < new_ids@.len() && #[trigger] new_ids@[k] == id;
                assert(new@[k].id == id);
            } else {
                assert forall|k: int| 0 <= k < new@.len() implies #[trigger] new@[k].id != id by {
                    assert(new_ids@[k] == new@[k].id);
                }
            }
        }
        if !seen && !kept {
            destroyed.push(id);
        }
        i = i + 1;
    }
    let ghost all = new@;
    let total = new.len();
    let mut updated: Vec<EntityRecord<E>> = Vec::new();
    let mut j: usize = 0;
    for record in it: new.into_iter()
        invariant
            it.seq() == all,
            j == it.index(),
            total == all.len(),
            changed@.len() == all.len(),
            old_ids@.len() == old@.len(),
            forall|k: int| 0 <= k < old_ids@.len() ==> #[trigger] old_ids@[k] == old@[k].id,
            new_ids@.len() == all.len(),
            forall|k: int| 0 <= k < new_ids@.len() ==> #[trigger] new_ids@[k] == all[k].id,
            updated@ == diff_updated(old@, all, changed@, it.index() as int),
    {
        assert(j < all.len());
        let later = occurs_from(&new_ids, record.id, j + 1);
        let known = occurs_from(&old_ids, record.id, 0);
        proof {
            assert(record == all[j as int]);
            if later {
                let k = choose|k: int| j + 1 <= k < new_ids@.len() && #[trigger] new_ids@[k] == record.id;
                assert(all[k].id == all[j as int].id);
            } else {
                assert forall|k: int| j < k < all.len() implies #[trigger] all[k].id != all[j as int].id by {
                    assert(new_ids@[k] == all[k].id);
                }
            }
            if known {
                let k = choose|k: int| 0 <= k < old_ids@.len() && #[trigger] old_ids@[k] == record.id;
                assert(old@[k].id == record.id);
            } else {
                assert forall|k: int| 0 <= k < old@.len() implies #[trigger] old@[k].id != record.id by {
                    assert(old_ids@[k] == old@[k].id);
                }
            }
        }
        if !later && (!known || changed[j]) {
            updated.push(record);
        }
        j = j + 1;
    }
    (updated, destroyed)
}

/// The entities of `records` by id (a later record of an id wins).
pub open spec fn entity_map<E>(records: Seq<EntityRecord<E>>) -> Map<u64, E>
    decreases records.len(),
{
    if records.len() == 0 {
        Map::empty()
    } else {
        entity_map(records.drop_last()).insert(records.last().id, records.last().entity)
    }
}

/// No id occurs twice in `records`.
pub open spec fn ids_unique<E>(records: Seq<EntityRecord<E>>) -> bool {
    forall|i: int, j: int|
        0 <= i < records.len() && 0 <= j < records.len() && i != j ==> records[i].id != records[j].id
}

/// The map holds exactly the ids of the records; with unique ids, each
/// record's entity under its id.
proof fn lemma_entity_map<E>(records: Seq<EntityRecord<E>>)
    ensures
        forall|id: u64| #[trigger] entity_map(records).dom().contains(id) <==> has_record_id(records, id),
        ids_unique(records) ==> forall|k: int|
            0 <= k < records.len() ==> entity_map(records)[#[trigger] records[k].id] == records[k].entity,
    decreases records.len(),
{
    if records.len() > 0 {
        let front = records.drop_last();
        lemma_entity_map(front);
        let last = records.last();
        assert(entity_map(records) == entity_map(front).insert(last.id, last.entity));
        assert forall|id: u64| has_record_id(records, id) implies #[trigger] entity_map(records).dom().contains(id) by {
            let k = choose|k: int| 0 <= k < records.len() && #[trigger] records[k].id == id;
            if k < records.len() - 1 {
                assert(front[k] == records[k]);
                assert(has_record_id(front, id));
                assert(entity_map(front).dom().contains(id));
            } else {
                assert(id == last.id);
            }
        }
        assert forall|id: u64| #[trigger] entity_map(records).dom().contains(id) implies has_record_id(records, id) by {
            if id == last.id {
                assert(records[records.len() - 1].id == id);
            } else {
                assert(entity_map(front).dom().contains(id));
                assert(has_record_id(front, id));
                let k = choose|k: int| 0 <= k < front.len() && #[trigger] front[k].id == id;
                assert(records[k] == front[k]);
                assert(records[k].id == id);
            }
        }
        if ids_unique(records) {
            assert(ids_unique(front)) by {
                assert forall|i: int, j: int|
                    0 <= i < front.len() && 0 <= j < front.len() && i != j implies front[i].id != front[j].id by {
                    assert(front[i] == records[i] && front[j] == records[j]);
                }
            }
            assert forall|k: int| 0 <= k < records.len() implies entity_map(records)[#[trigger] records[k].id]
                == records[k].entity by {
                if k < records.len() - 1 {
                    assert(front[k] == records[k]);
                    assert(records[k].id != records[records.len() - 1].id);
                }
            }
        }
    }
}

/// Replacing or adding one record keeps ids unique and sets its entity.
proof fn lemma_upsert_map<E>(records: Seq<EntityRecord<E>>, record: EntityRecord<E>)
    requires
        ids_unique(records),
    ensures
        ids_unique(upsert(records, record)),
        entity_map(upsert(records, record)) == entity_map(records).insert(record.id, record.entity),
{
    lemma_first_with_id_bounds(records, record.id);
    let i = first_with_id(records, record.id);
    let result = upsert(records, record);
    if i < records.len() {
        assert forall|a: int, b: int|
            0 <= a < result.len() && 0 <= b < result.len() && a != b implies result[a].id != result[b].id by {
            assert(result[a].id == records[a].id && result[b].id == records[b].id);
        }
        lemma_entity_map(records);
        lemma_entity_map(result);
        let expected = entity_map(records).insert(record.id, record.entity);
        assert forall|id: u64| #[trigger] entity_map(result).dom().contains(id) == expected.dom().contains(id) by {
            if has_record_id(result, id) {
                let k = choose|k: int| 0 <= k < result.len() && #[trigger] result[k].id == id;
                if k != i {
                    assert(records[k] == result[k]);
                }
            }
            if has_record_id(records, id) {
                let k = choose|k: int| 0 <= k < records.len() && #[trigger] records[k].id == id;
                if k != i {
                    assert(result[k] == records[k]);
                } else {
                    assert(result[k].id == id);
                }
            }
            if id == record.id {
                assert(result[i].id == id);
            }
        }
        assert forall|id: u64| #[trigger] entity_map(result).dom().contains(id) implies entity_map(result)[id]
            == expected[id] by {
            let k = choose|k: int| 0 <= k < result.len() && #[trigger] result[k].id == id;
            assert(entity_map(result)[result[k].id] == result[k].entity);
            if k != i {
                assert(result[k] == records[k]);
                assert(entity_map(records)[records[k].id] == records[k].entity);
            }
        }
        assert(entity_map(result) =~= expected);
    } else {
        assert forall|a: int, b: int|
            0 <= a < result.len() && 0 <= b < result.len() && a != b implies result[a].id != result[b].id by {
            if a < records.len() && b < records.len() {
                assert(result[a] == records[a] && result[b] == records[b]);
            } else if a < records.len() {
                assert(result[a] == records[a]);
            } else {
                assert(result[b] == records[b]);
            }
        }
        assert(result.drop_last() =~= records);
    }
}

/// Applying updates keeps ids unique and overlays the updates' entities.
proof fn lemma_apply_updates_map<E>(records: Seq<EntityRecord<E>>, updated: Seq<EntityRecord<E>>)
    requires
        ids_unique(records),
    ensures
        ids_unique(apply_updates(records, updated)),
        entity_map(apply_updates(records, updated)) == entity_map(records).union_prefer_right(
            entity_map(updated),
        ),
    decreases updated.len(),
{
    if updated.len() == 0 {
        assert(entity_map(records).union_prefer_right(entity_map(updated)) =~= entity_map(records));
    } else {
        let front = updated.drop_last();
        lemma_apply_updates_map(records, front);
        lemma_upsert_map(apply_updates(records, front), updated.last());
        assert(entity_map(records).union_prefer_right(entity_map(front)).insert(
            updated.last().id,
            updated.last().entity,
        ) =~= entity_map(records).union_prefer_right(entity_map(updated)));
    }
}

/// The ids `destroyed` holds, as a set.
pub open spec fn id_set(ids: Seq<u64>) -> Set<u64> {
    Set::new(|id: u64| holds_id(ids, id))
}

/// Dropping destroyed ids keeps ids unique and removes exactly those ids.
proof fn lemma_without_destroyed_map<E>(records: Seq<EntityRecord<E>>, destroyed: Seq<u64>)
    requires
        ids_unique(records),
    ensures
        ids_unique(without_destroyed(records, destroyed)),
        entity_map(without_destroyed(records, destroyed)) == entity_map(records).remove_keys(id_set(destroyed)),
    decreases records.len(),
{
    if records.len() > 0 {
        let front = records.drop_last();
        let last = records.last();
        assert(ids_unique(front)) by {
            assert forall|i: int, j: int|
                0 <= i < front.len() && 0 <= j < front.len() && i != j implies front[i].id != front[j].id by {
                assert(front[i] == records[i] && front[j] == records[j]);
            }
        }
        lemma_without_destroyed_map(front, destroyed);
        let kept = without_destroyed(front, destroyed);
        if holds_id(destroyed, last.id) {
            assert(entity_map(front).remove_keys(id_set(destroyed)) =~= entity_map(records).remove_keys(
                id_set(destroyed),
            ));
        } else {
            lemma_entity_map(front);
            lemma_entity_map(kept);
            assert(!has_record_id(kept, last.id)) by {
                if has_record_id(front, last.id) {
                    let k = choose|k: int| 0 <= k < front.len() && #[trigger] front[k].id == last.id;
                    assert(records[k].id == records[records.len() - 1].id);
                }
                assert(!entity_map(front).dom().contains(last.id));
                assert(!entity_map(kept).dom().contains(last.id));
            }
            let result = kept.push(last);
            assert forall|a: int, b: int|
                0 <= a < result.len() && 0 <= b < result.len() && a != b implies result[a].id != result[b].id by {
                if a < kept.len() && b < kept.len() {
                    assert(result[a] == kept[a] && result[b] == kept[b]);
                } else if a < kept.len() {
                    assert(result[a] == kept[a]);
                    assert(kept[a].id != last.id);
                } else {
                    assert(result[b] == kept[b]);
                    assert(kept[b].id != last.id);
                }
            }
            assert(result.drop_last() =~= kept);
            assert(entity_map(front).remove_keys(id_set(destroyed)).insert(last.id, last.entity)
                =~= entity_map(records).remove_keys(id_set(destroyed)));
        }
    }
}

/// What the carried records of `new` hold: every carried record's entity
/// under its id, and no other id.
proof fn lemma_diff_updated_map<E>(
    old: Seq<EntityRecord<E>>,
    new: Seq<EntityRecord<E>>,
    changed: Seq<bool>,
    n: int,
)
    requires
        ids_unique(new),
        0 <= n <= new.len(),
    ensures
        forall|id: u64|
            #[trigger] entity_map(diff_updated(old, new, changed, n)).dom().contains(id) ==> exists|j: int|
                0 <= j < n && #[trigger] new[j].id == id && carried(old, new, changed, j),
        forall|j: int|
            0 <= j < n && carried(old, new, changed, j) ==> entity_map(diff_updated(old, new, changed, n)).dom().contains(
                #[trigger] new[j].id,
            ) && entity_map(diff_updated(old, new, changed, n))[new[j].id] == new[j].entity,
    decreases n,
{
    if n > 0 {
        lemma_diff_updated_map(old, new, changed, n - 1);
        let earlier = diff_updated(old, new, changed, n - 1);
        let all = diff_updated(old, new, changed, n);
        if carried(old, new, changed, n - 1) {
            assert(all.drop_last() =~= earlier);
            assert forall|id: u64| #[trigger] entity_map(all).dom().contains(id) implies exists|j: int|
                0 <= j < n && #[trigger] new[j].id == id && carried(old, new, changed, j) by {
                if id != new[n - 1].id {
                    assert(entity_map(earlier).dom().contains(id));
                }
            }
            assert forall|j: int| 0 <= j < n && carried(old, new, changed, j) implies entity_map(all).dom().contains(
                #[trigger] new[j].id,
            ) && entity_map(all)[new[j].id] == new[j].entity by {
                if j < n - 1 {
                    assert(new[j].id != new[n - 1].id);
                }
            }
        }
    }
}

/// The destroyed ids are exactly the ids of `old` that `new` lacks.
proof fn lemma_diff_destroyed_ids<E>(old: Seq<EntityRecord<E>>, new: Seq<EntityRecord<E>>, n: int)
    requires
        0 <= n <= old.len(),
    ensures
        forall|id: u64| holds_id(diff_destroyed(old, new, n), id) ==> !has_record_id(new, id),
        forall|i: int|
            0 <= i < n && !has_record_id(new, #[trigger] old[i].id) ==> holds_id(diff_destroyed(old, new, n), old[i].id),
    decreases n,
{
    if n > 0 {
        lemma_diff_destroyed_ids(old, new, n - 1);
        let earlier = diff_destroyed(old, new, n - 1);
        let all = diff_destroyed(old, new, n);
        assert forall|id: u64| holds_id(earlier, id) implies holds_id(all, id) by {
            let k = choose|k: int| 0 <= k < earlier.len() && earlier[k] == id;
            assert(all[k] == earlier[k]);
        }
        assert forall|id: u64| holds_id(all, id) implies !has_record_id(new, id) by {
            let k = choose|k: int| 0 <= k < all.len() && all[k] == id;
            if k < earlier.len() {
                assert(earlier[k] == all[k]);
                assert(holds_id(earlier, id));
            }
        }
        assert forall|i: int| 0 <= i < n && !has_record_id(new, #[trigger] old[i].id) implies holds_id(
            all,
            old[i].id,
        ) by {
            if i == n - 1 {
                if first_of_its_id(old, n - 1) {
                    assert(all[all.len() - 1] == old[i].id);
                } else {
                    let k = choose|k: int| 0 <= k < n - 1 && #[trigger] old[k].id == old[n - 1].id;
                    assert(holds_id(earlier, old[k].id));
                }
            } else {
                assert(holds_id(earlier, old[i].id));
            }
        }
    }
}

/// Applying the delta from `old` to `new` to `old` gives `new`'s entities:
/// every id of `new` with its entity, and no other id, provided ids are
/// unique in both snapshots and the host reports a change for every entity
/// that differs from the old one.
pub proof fn lemma_delta_round_trip<E>(old: Seq<EntityRecord<E>>, new: Seq<EntityRecord<E>>, changed: Seq<bool>)
    requires
        ids_unique(old),
        ids_unique(new),
        changed.len() == new.len(),
        forall|j: int, k: int|
            0 <= j < new.len() && 0 <= k < old.len() && old[k].id == new[j].id && !changed[j] ==> old[k].entity
                == new[j].entity,
    ensures
        ({
            let result = spec_apply_delta(
                old,
                diff_updated(old, new, changed, new.len() as int),
                diff_destroyed(old, new, old.len() as int),
            );
            &&& ids_unique(result)
            &&& entity_map(result) == entity_map(new)
        }),
{
    let up = diff_updated(old, new, changed, new.len() as int);
    let dd = diff_destroyed(old, new, old.len() as int);
    let base = without_destroyed(old, dd);
    lemma_without_destroyed_map(old, dd);
    lemma_apply_updates_map(base, up);
    lemma_entity_map(old);
    lemma_entity_map(new);
    lemma_diff_updated_map(old, new, changed, new.len() as int);
    lemma_diff_destroyed_ids(old, new, old.len() as int);
    let result_map = entity_map(base).union_prefer_right(entity_map(up));
    assert forall|j: int| 0 <= j < new.len() implies last_of_its_id(new, j) by {
        assert forall|k: int| j < k < new.len() implies #[trigger] new[k].id != new[j].id by {}
    }
    assert forall|id: u64| #[trigger] result_map.dom().contains(id) == entity_map(new).dom().contains(id) by {
        if has_record_id(new, id) {
            let j = choose|j: int| 0 <= j < new.len() && #[trigger] new[j].id == id;
            if !carried(old, new, changed, j) {
                let k = choose|k: int| 0 <= k < old.len() && #[trigger] old[k].id == id;
                assert(entity_map(old).dom().contains(old[k].id));
                assert(!holds_id(dd, id));
            }
        }
        if result_map.dom().contains(id) && !entity_map(up).dom().contains(id) {
            assert(entity_map(old).dom().contains(id));
            let k = choose|k: int| 0 <= k < old.len() && #[trigger] old[k].id == id;
            assert(!id_set(dd).contains(id));
            if !has_record_id(new, id) {
                assert(holds_id(dd, old[k].id));
            }
        }
    }
    assert forall|id: u64| #[trigger] result_map.dom().contains(id) implies result_map[id] == entity_map(new)[id] by {
        let j = choose|j: int| 0 <= j < new.len() && #[trigger] new[j].id == id;
        assert(entity_map(new)[new[j].id] == new[j].entity);
        if carried(old, new, changed, j) {
            assert(entity_map(up)[new[j].id] == new[j].entity);
        } else {
            if entity_map(up).dom().contains(id) {
                let j2 = choose|j2: int| 0 <= j2 < new.len() && #[trigger] new[j2].id == id && carried(old, new, changed, j2);
                assert(j2 == j);
            }
            let k = choose|k: int| 0 <= k < old.len() && #[trigger] old[k].id == id;
            assert(entity_map(old)[old[k].id] == old[k].entity);
        }
    }
    assert(result_map =~= entity_map(new));
}

/// How many entity changes a delta carries (its size for bandwidth
/// estimates): updated plus destroyed entities.
pub fn change_count(updated_count: usize, destroyed_count: usize) -> (res: usize)
    requires
        updated_count + destroyed_count <= usize::MAX,
    ensures
        res == updated_count + destroyed_count,
{
    updated_count + destroyed_count
}

} // verus!
