//! Grouping of retained agent telemetry for the periodic per-agent rollups:
//! the frames of the last window of ticks, grouped by the entity each agent
//! controls, in entity-id order.

use vstd::prelude::*;

verus! {

/// One agent's frame within a tick's telemetry, with the entity it controls.
pub struct AgentFrame<F> {
    pub entity_id: Option<u64>,
    pub frame: F,
}

/// The telemetry of one tick.
pub struct TelemetryFrame<F> {
    pub tick: u64,
    pub agents: Vec<AgentFrame<F>>,
}

/// The frames of one entity's agent, oldest first.
pub struct EntityFrames<F> {
    pub entity_id: u64,
    pub frames: Vec<F>,
}

/// The agent frames of `agents` that control an entity, as (entity, frame)
/// pairs in order.
pub open spec fn agent_pairs<F>(agents: Seq<AgentFrame<F>>) -> Seq<(u64, F)>
    decreases agents.len(),
{
    if agents.len() == 0 {
        Seq::empty()
    } else {
        let earlier = agent_pairs(agents.drop_last());
        match agents.last().entity_id {
            Some(id) => earlier.push((id, agents.last().frame)),
            None => earlier,
        }
    }
}

/// The (entity, frame) pairs of all ticks in `[start, end]`, in archive
/// order.
pub open spec fn window_pairs<F>(archive: Seq<TelemetryFrame<F>>, start: u64, end: u64) -> Seq<(u64, F)>
    decreases archive.len(),
{
    if archive.len() == 0 {
        Seq::empty()
    } else {
        let earlier = window_pairs(archive.drop_last(), start, end);
        let last = archive.last();
        if start <= last.tick && last.tick <= end {
            earlier + agent_pairs(last.agents@)
        } else {
            earlier
        }
    }
}

/// The frames of entity `id` among `pairs`, in order.
pub open spec fn frames_of<F>(pairs: Seq<(u64, F)>, id: u64) -> Seq<F>
    decreases pairs.len(),
{
    if pairs.len() == 0 {
        Seq::empty()
    } else {
        let earlier = frames_of(pairs.drop_last(), id);
        if pairs.last().0 == id {
            earlier.push(pairs.last().1)
        } else {
            earlier
        }
    }
}

/// First tick of the rollup window ending at `tick_end` (the last 60
/// ticks, fewer at the start).
pub open spec fn window_start(tick_end: u64) -> u64 {
    if tick_end >= 59 {
        (tick_end - 59) as u64
    } else {
        0
    }
}

/// Entity ids strictly increase along `groups`.
pub open spec fn groups_sorted<F>(groups: Seq<EntityFrames<F>>) -> bool {
    forall|a: int, b: int| 0 <= a < b < groups.len() ==> groups[a].entity_id < groups[b].entity_id
}

/// `groups` is the grouping of `pairs` by entity: sorted by entity id, one
/// non-empty group per entity that occurs, each holding that entity's
/// frames in order.
pub open spec fn grouped<F>(groups: Seq<EntityFrames<F>>, pairs: Seq<(u64, F)>) -> bool {
    &&& groups_sorted(groups)
    &&& forall|g: int| 0 <= g < groups.len() ==> #[trigger] groups[g].frames@ == frames_of(pairs, groups[g].entity_id)
    &&& forall|g: int| 0 <= g < groups.len() ==> #[trigger] groups[g].frames@.len() > 0
    &&& forall|j: int|
        #![trigger pairs[j]]
        0 <= j < pairs.len() ==> exists|g: int| 0 <= g < groups.len() && #[trigger] groups[g].entity_id == pairs[j].0
}

proof fn lemma_frames_of_step<F>(pairs: Seq<(u64, F)>, i: int, id: u64)
    requires
        0 <= i < pairs.len(),
    ensures
        frames_of(pairs.take(i + 1), id) == if pairs[i].0 == id {
            frames_of(pairs.take(i), id).push(pairs[i].1)
        } else {
            frames_of(pairs.take(i), id)
        },
{
    assert(pairs.take(i + 1).drop_last() =~= pairs.take(i));
    assert(pairs.take(i + 1).last() == pairs[i]);
}

proof fn lemma_frames_of_absent<F>(pairs: Seq<(u64, F)>, id: u64)
    requires
        forall|j: int| 0 <= j < pairs.len() ==> #[trigger] pairs[j].0 != id,
    ensures
        frames_of(pairs, id).len() == 0,
    decreases pairs.len(),
{
    if pairs.len() > 0 {
        assert forall|j: int| 0 <= j < pairs.drop_last().len() implies #[trigger] pairs.drop_last()[j].0 != id by {
            assert(pairs.drop_last()[j] == pairs[j]);
        }
        lemma_frames_of_absent(pairs.drop_last(), id);
        assert(pairs.last() == pairs[pairs.len() - 1]);
    }
}

/// Flattens the archive's frames inside `[start, end]` into pairs.
fn collect_window_pairs<F>(archive: Vec<TelemetryFrame<F>>, start: u64, end: u64) -> (res: Vec<(u64, F)>)
    ensures
        res@ == window_pairs(archive@, start, end),
{
    let ghost all = archive@;
    let mut pairs: Vec<(u64, F)> = Vec::new();
    assert(all.take(0) =~= Seq::<TelemetryFrame<F>>::empty());
    for frame in it: archive.into_iter()
        invariant
            it.seq() == all,
            pairs@ == window_pairs(all.take(it.index() as int), start, end),
    {
        let ghost i = it.index() as int;
        proof {
            assert(all.take(i + 1).drop_last() =~= all.take(i));
            assert(all.take(i + 1).last() == frame);
        }
        if start <= frame.tick && frame.tick <= end {
            let ghost before = pairs@;
            let ghost agents = frame.agents@;
            assert(agents.take(0) =~= Seq::<AgentFrame<F>>::empty());
            for agent in jt: frame.agents.into_iter()
                invariant
                    jt.seq() == agents,
                    pairs@ == before + agent_pairs(agents.take(jt.index() as int)),
            {
                let ghost j = jt.index() as int;
                proof {
                    assert(agents.take(j + 1).drop_last() =~= agents.take(j));
                    assert(agents.take(j + 1).last() == agent);
                }
                if let Some(id) = agent.entity_id {
                    pairs.push((id, agent.frame));
                    proof {
                        assert(pairs@ =~= before + agent_pairs(agents.take(j + 1)));
                    }
                }
            }
            proof {
                assert(agents.take(agents.len() as int) =~= agents);
            }
        }
    }
    proof {
        assert(all.take(all.len() as int) =~= all);
    }
    pairs
}

/// Adds one (entity, frame) pair to the grouping of the pairs before it.
fn add_pair<F>(groups: &mut Vec<EntityFrames<F>>, id: u64, frame: F, Ghost(pairs): Ghost<Seq<(u64, F)>>, Ghost(i): Ghost<int>)
    requires
        0 <= i < pairs.len(),
        pairs[i] == (id, frame),
        grouped(old(groups)@, pairs.take(i)),
    ensures
        grouped(final(groups)@, pairs.take(i + 1)),
{
    let ghost prefix = pairs.take(i);
    let ghost next = pairs.take(i + 1);
    proof {
        assert forall|j: int| 0 <= j < i implies #[trigger] next[j] == prefix[j] by {}
        assert(next[i] == (id, frame));
    }
    let mut pos: usize = 0;
    while pos < groups.len() && groups[pos].entity_id < id
        invariant
            pos <= groups@.len(),
            forall|k: int| 0 <= k < pos ==> groups@[k].entity_id < id,
        decreases groups@.len() - pos,
    {
        pos = pos + 1;
    }
    let ghost before = groups@;
    if pos < groups.len() && groups[pos].entity_id == id {
        let mut group = groups.remove(pos);
        let ghost old_frames = group.frames@;
        group.frames.push(frame);
        groups.insert(pos, group);
        proof {
            let after = groups@;
            assert(after =~= before.update(pos as int, group));
            assert forall|g: int| 0 <= g < after.len() implies #[trigger] after[g].frames@ == frames_of(
                next,
                after[g].entity_id,
            ) by {
                lemma_frames_of_step(pairs, i, after[g].entity_id);
                assert(pairs.take(i) == prefix);
                if g != pos {
                    assert(after[g] == before[g]);
                    assert(before[g].entity_id != id);
                }
            }
            assert forall|j: int| #![trigger next[j]] 0 <= j < next.len() implies exists|g: int|
                0 <= g < after.len() && #[trigger] after[g].entity_id == next[j].0 by {
                if j < i {
                    let g = choose|g: int| 0 <= g < before.len() && before[g].entity_id == prefix[j].0;
                    assert(after[g].entity_id == before[g].entity_id);
                } else {
                    assert(after[pos as int].entity_id == id);
                }
            }
            assert forall|g: int| 0 <= g < after.len() implies #[trigger] after[g].frames@.len() > 0 by {
                if g != pos {
                    assert(after[g] == before[g]);
                }
            }
        }
    } else {
        let mut frames: Vec<F> = Vec::new();
        frames.push(frame);
        let group = EntityFrames { entity_id: id, frames };
        groups.insert(pos, group);
        proof {
            let after = groups@;
            assert forall|j: int| 0 <= j < prefix.len() implies #[trigger] prefix[j].0 != id by {
                let g = choose|g: int| 0 <= g < before.len() && before[g].entity_id == prefix[j].0;
                if g < pos {
                    assert(before[g].entity_id < id);
                } else {
                    if pos < before.len() {
                        assert(before[pos as int].entity_id >= id);
                        assert(before[pos as int].entity_id != id);
                        if g > pos {
                            assert(before[pos as int].entity_id < before[g].entity_id);
                        }
                    }
                }
            }
            lemma_frames_of_absent(prefix, id);
            lemma_frames_of_step(pairs, i, id);
            assert(frames_of(next, id) =~= seq![frame]);
            assert forall|a: int, b: int| 0 <= a < b < after.len() implies after[a].entity_id < after[b].entity_id by {
                if b < pos {
                } else if b == pos {
                } else if a < pos {
                    assert(after[b] == before[b - 1]);
                    if pos < before.len() {
                        assert(before[pos as int].entity_id > id);
                    }
                } else if a == pos {
                    assert(after[b] == before[b - 1]);
                    assert(before[pos as int].entity_id >= id);
                    assert(before[pos as int].entity_id != id);
                    if b - 1 > pos {
                        assert(before[pos as int].entity_id < before[b - 1].entity_id);
                    }
                } else {
                    assert(after[a] == before[a - 1]);
                    assert(after[b] == before[b - 1]);
                }
            }
            assert forall|g: int| 0 <= g < after.len() implies #[trigger] after[g].frames@ == frames_of(
                next,
                after[g].entity_id,
            ) by {
                if g != pos {
                    let old_g = if g < pos { g } else { g - 1 };
                    assert(after[g] == before[old_g]);
                    lemma_frames_of_step(pairs, i, before[old_g].entity_id);
                    assert(pairs.take(i) == prefix);
                    if old_g < pos {
                        assert(before[old_g].entity_id < id);
                    } else {
                        assert(before[pos as int].entity_id >= id);
                        assert(before[pos as int].entity_id != id);
                        if old_g > pos {
                            assert(before[pos as int].entity_id < before[old_g].entity_id);
                        }
                    }
                }
            }
            assert forall|g: int| 0 <= g < after.len() implies #[trigger] after[g].frames@.len() > 0 by {
                if g < pos {
                    assert(after[g] == before[g]);
                } else if g > pos {
                    assert(after[g] == before[g - 1]);
                }
            }
            assert forall|j: int| #![trigger next[j]] 0 <= j < next.len() implies exists|g: int|
                0 <= g < after.len() && #[trigger] after[g].entity_id == next[j].0 by {
                if j < i {
                    let g = choose|g: int| 0 <= g < before.len() && before[g].entity_id == prefix[j].0;
                    if g < pos {
                        assert(after[g] == before[g]);
                    } else {
                        assert(after[g + 1] == before[g]);
                    }
                } else {
                    assert(after[pos as int].entity_id == id);
                }
            }
        }
    }
}

/// Groups the retained telemetry for the rollups that close at `tick_end`:
/// the frames of ticks in the window ending at `tick_end` whose agent
/// controls an entity, grouped by that entity in increasing id order, each
/// group's frames in archive order.
pub fn group_frames_for_rollup<F>(archive: Vec<TelemetryFrame<F>>, tick_end: u64) -> (res: Vec<EntityFrames<F>>)
    ensures
        grouped(res@, window_pairs(archive@, window_start(tick_end), tick_end)),
{
    let start = tick_end.saturating_sub(59);
    let pairs = collect_window_pairs(archive, start, tick_end);
    let ghost all = pairs@;
    let mut groups: Vec<EntityFrames<F>> = Vec::new();
    proof {
        assert(all.take(0) =~= Seq::<(u64, F)>::empty());
    }
    for pair in it: pairs.into_iter()
        invariant
            it.seq() == all,
            grouped(groups@, all.take(it.index() as int)),
    {
        let ghost i = it.index() as int;
        let (id, frame) = pair;
        add_pair(&mut groups, id, frame, Ghost(all), Ghost(i));
    }
    proof {
        assert(all.take(all.len() as int) =~= all);
    }
    groups
}

} // verus!
