//! Per-client interest: which streaming chunks a client's controlled entity
//! makes it interested in, and which debug documents it receives.

use vstd::prelude::*;
use crate::stdb_adapter::texts;

verus! {

/// A streaming chunk of the world catalog with its neighbouring chunks.
#[derive(Debug, Clone)]
pub struct ChunkNeighbors {
    pub chunk_key: String,
    pub neighbor_chunk_keys: Vec<String>,
}

/// A streaming region of the world catalog with the chunks it covers.
#[derive(Debug, Clone)]
pub struct RegionChunks {
    pub region_id: String,
    pub chunk_keys: Vec<String>,
}

/// Position of the first chunk with key `key` (or the count when none).
pub open spec fn first_chunk(chunks: Seq<ChunkNeighbors>, key: Seq<char>) -> int
    decreases chunks.len(),
{
    if chunks.len() == 0 {
        0
    } else if chunks[0].chunk_key@ == key {
        0
    } else {
        1 + first_chunk(chunks.drop_first(), key)
    }
}

/// Position of the first region with id `id` (or the count when none).
pub open spec fn first_region(regions: Seq<RegionChunks>, id: Seq<char>) -> int
    decreases regions.len(),
{
    if regions.len() == 0 {
        0
    } else if regions[0].region_id@ == id {
        0
    } else {
        1 + first_region(regions.drop_first(), id)
    }
}

/// The chunk keys a controlled entity makes its client interested in: its
/// own chunk followed by that chunk's catalog neighbours; without a chunk,
/// every chunk of its region (as the catalog lists it); otherwise none.
pub open spec fn spec_interest_chunk_keys(
    chunk_key: Option<Seq<char>>,
    region_id: Option<Seq<char>>,
    chunks: Seq<ChunkNeighbors>,
    regions: Seq<RegionChunks>,
) -> Seq<Seq<char>> {
    match chunk_key {
        Some(key) => {
            let i = first_chunk(chunks, key);
            if i < chunks.len() {
                seq![key] + texts(chunks[i].neighbor_chunk_keys@)
            } else {
                seq![key]
            }
        },
        None => match region_id {
            Some(id) => {
                let r = first_region(regions, id);
                if r < regions.len() {
                    texts(regions[r].chunk_keys@)
                } else {
                    Seq::empty()
                }
            },
            None => Seq::empty(),
        },
    }
}

proof fn lemma_first_chunk_exact(chunks: Seq<ChunkNeighbors>, key: Seq<char>, i: int)
    requires
        0 <= i <= chunks.len(),
        i < chunks.len() ==> chunks[i].chunk_key@ == key,
        forall|k: int| 0 <= k < i ==> #[trigger] chunks[k].chunk_key@ != key,
    ensures
        first_chunk(chunks, key) == i,
    decreases chunks.len(),
{
    if chunks.len() > 0 && i > 0 {
        let rest = chunks.drop_first();
        assert forall|k: int| 0 <= k < i - 1 implies #[trigger] rest[k].chunk_key@ != key by {
            assert(rest[k] == chunks[k + 1]);
        }
        lemma_first_chunk_exact(rest, key, i - 1);
    }
}

proof fn lemma_first_region_exact(regions: Seq<RegionChunks>, id: Seq<char>, i: int)
    requires
        0 <= i <= regions.len(),
        i < regions.len() ==> regions[i].region_id@ == id,
        forall|k: int| 0 <= k < i ==> #[trigger] regions[k].region_id@ != id,
    ensures
        first_region(regions, id) == i,
    decreases regions.len(),
{
    if regions.len() > 0 && i > 0 {
        let rest = regions.drop_first();
        assert forall|k: int| 0 <= k < i - 1 implies #[trigger] rest[k].region_id@ != id by {
            assert(rest[k] == regions[k + 1]);
        }
        lemma_first_region_exact(rest, id, i - 1);
    }
}

/// Copies of `values`, appended to `out`.
fn extend_copies(out: &mut Vec<String>, values: &Vec<String>)
    ensures
        texts(final(out)@) == texts(old(out)@) + texts(values@),
{
    let ghost start = texts(out@);
    let mut i: usize = 0;
    while i < values.len()
        invariant
            i <= values@.len(),
            texts(out@) == start + texts(values@.take(i as int)),
        decreases values@.len() - i,
    {
        let ghost before = out@;
        let copy = values[i].clone();
        assert(copy@ == values@[i as int]@);
        out.push(copy);
        proof {
            assert(texts(out@) =~= texts(before).push(values@[i as int]@));
            assert(texts(values@.take(i + 1)) =~= texts(values@.take(i as int)).push(values@[i as int]@));
            assert(texts(out@) =~= start + texts(values@.take(i + 1)));
        }
        i = i + 1;
    }
    proof {
        assert(values@.take(i as int) =~= values@);
    }
}

/// Whether two strings are equal.
fn same_text(a: &String, b: &str) -> (res: bool)
    ensures
        res == (a@ == b@),
{
    *a == String::from_str(b)
}

/// The chunk keys of interest for a controlled entity with streaming
/// metadata `chunk_key` / `region_id`, given the world's chunk and region
/// catalogs (see [`spec_interest_chunk_keys`]).
pub fn interest_chunk_keys(
    chunk_key: Option<&str>,
    region_id: Option<&str>,
    chunks: &Vec<ChunkNeighbors>,
    regions: &Vec<RegionChunks>,
) -> (res: Vec<String>)
    ensures
        texts(res@) == spec_interest_chunk_keys(
            match chunk_key {
                Some(k) => Some(k@),
                None => None,
            },
            match region_id {
                Some(r) => Some(r@),
                None => None,
            },
            chunks@,
            regions@,
        ),
{
    let mut keys: Vec<String> = Vec::new();
    match chunk_key {
        Some(key) => {
            keys.push(String::from_str(key));
            let mut i: usize = 0;
            while i < chunks.len() && !same_text(&chunks[i].chunk_key, key)
                invariant
                    i <= chunks@.len(),
                    forall|k: int| 0 <= k < i ==> #[trigger] chunks@[k].chunk_key@ != key@,
                decreases chunks@.len() - i,
            {
                i = i + 1;
            }
            proof {
                lemma_first_chunk_exact(chunks@, key@, i as int);
                assert(texts(keys@) =~= seq![key@]);
            }
            if i < chunks.len() {
                extend_copies(&mut keys, &chunks[i].neighbor_chunk_keys);
            }
        },
        None => {
            if let Some(id) = region_id {
                let mut r: usize = 0;
                while r < regions.len() && !same_text(&regions[r].region_id, id)
                    invariant
                        r <= regions@.len(),
                        forall|k: int| 0 <= k < r ==> #[trigger] regions@[k].region_id@ != id@,
                    decreases regions@.len() - r,
                {
                    r = r + 1;
                }
                proof {
                    lemma_first_region_exact(regions@, id@, r as int);
                    assert(texts(keys@) =~= Seq::<Seq<char>>::empty());
                }
                if r < regions.len() {
                    extend_copies(&mut keys, &regions[r].chunk_keys);
                    proof {
                        assert(Seq::<Seq<char>>::empty() + texts(regions@[r as int].chunk_keys@) =~= texts(
                            regions@[r as int].chunk_keys@,
                        ));
                    }
                }
            } else {
                proof {
                    assert(texts(keys@) =~= Seq::<Seq<char>>::empty());
                }
            }
        },
    }
    keys
}

/// A pending debug document, as far as interest filtering cares.
#[derive(Debug, Clone)]
pub enum DebugDocumentSubject {
    /// Tick telemetry, with the controlled entity of each agent frame.
    TickTelemetry { agent_entities: Vec<Option<u64>> },
    /// One agent's tool call.
    AgentToolCallEvent { agent_entity_id: u64 },
    /// One agent's rollup over the last ticks.
    AgentTickRollup { agent_entity_id: u64 },
    ShardIncidentSummary,
    ShardTransportSummary,
}

/// What a client receives of one debug document.
#[derive(Debug, Clone, PartialEq, Eq)]
pub enum DebugDocumentSelection {
    /// The document as it is.
    Whole,
    /// Tick telemetry narrowed to the agent frames at these positions.
    AgentFrames(Vec<usize>),
    /// Nothing.
    Skip,
}

/// Whether `entities` holds `id`.
pub open spec fn has_entity(entities: Seq<u64>, id: u64) -> bool {
    exists|k: int| 0 <= k < entities.len() && entities[k] == id
}

/// Positions of the agent frames whose entity is of interest, in order.
pub open spec fn interesting_frames(agents: Seq<Option<u64>>, entities: Seq<u64>) -> Seq<usize>
    decreases agents.len(),
{
    if agents.len() == 0 {
        Seq::empty()
    } else {
        let earlier = interesting_frames(agents.drop_last(), entities);
        match agents.last() {
            Some(id) => if has_entity(entities, id) {
                earlier.push((agents.len() - 1) as usize)
            } else {
                earlier
            },
            None => earlier,
        }
    }
}

/// Whether `selection` is what a client with the given interest receives
/// of a document: an unbounded interest receives everything; otherwise
/// telemetry is narrowed to the agents of interested entities (nothing when
/// none is left), agent events and rollups pass only for interested
/// entities, and shard summaries always pass.
pub open spec fn is_debug_selection(
    selection: DebugDocumentSelection,
    subject: DebugDocumentSubject,
    unbounded: bool,
    entities: Seq<u64>,
) -> bool {
    if unbounded {
        selection == DebugDocumentSelection::Whole
    } else {
        match subject {
            DebugDocumentSubject::TickTelemetry { agent_entities } => {
                let frames = interesting_frames(agent_entities@, entities);
                if frames.len() == 0 {
                    selection == DebugDocumentSelection::Skip
                } else {
                    selection matches DebugDocumentSelection::AgentFrames(v) && v@ == frames
                }
            },
            DebugDocumentSubject::AgentToolCallEvent { agent_entity_id } => selection == if has_entity(
                entities,
                agent_entity_id,
            ) {
                DebugDocumentSelection::Whole
            } else {
                DebugDocumentSelection::Skip
            },
            DebugDocumentSubject::AgentTickRollup { agent_entity_id } => selection == if has_entity(
                entities,
                agent_entity_id,
            ) {
                DebugDocumentSelection::Whole
            } else {
                DebugDocumentSelection::Skip
            },
            DebugDocumentSubject::ShardIncidentSummary => selection == DebugDocumentSelection::Whole,
            DebugDocumentSubject::ShardTransportSummary => selection == DebugDocumentSelection::Whole,
        }
    }
}

/// Whether `entities` holds `id`.
fn has_entity_exec(entities: &Vec<u64>, id: u64) -> (res: bool)
    ensures
        res == has_entity(entities@, id),
{
    let mut k: usize = 0;
    while k < entities.len()
        invariant
            k <= entities@.len(),
            forall|j: int| 0 <= j < k ==> entities@[j] != id,
        decreases entities@.len() - k,
    {
        if entities[k] == id {
            return true;
        }
        k = k + 1;
    }
    false
}

/// Decides what a client receives of a debug document, given whether its
/// interest is unbounded and the entities it is interested in (see
/// [`is_debug_selection`]).
pub fn select_debug_document(subject: &DebugDocumentSubject, unbounded: bool, entities: &Vec<u64>) -> (res:
    DebugDocumentSelection)
    ensures
        is_debug_selection(res, *subject, unbounded, entities@),
{
    if unbounded {
        return DebugDocumentSelection::Whole;
    }
    match subject {
        DebugDocumentSubject::TickTelemetry { agent_entities } => {
            let mut frames: Vec<usize> = Vec::new();
            let mut i: usize = 0;
            while i < agent_entities.len()
                invariant
                    i <= agent_entities@.len(),
                    frames@ == interesting_frames(agent_entities@.take(i as int), entities@),
                decreases agent_entities@.len() - i,
            {
                proof {
                    assert(agent_entities@.take(i + 1).drop_last() =~= agent_entities@.take(i as int));
                }
                if let Some(id) = agent_entities[i] {
                    if has_entity_exec(entities, id) {
                        frames.push(i);
                    }
                }
                i = i + 1;
            }
            proof {
                assert(agent_entities@.take(i as int) =~= agent_entities@);
            }
            if frames.len() == 0 {
                DebugDocumentSelection::Skip
            } else {
                DebugDocumentSelection::AgentFrames(frames)
            }
        },
        DebugDocumentSubject::AgentToolCallEvent { agent_entity_id } => {
            if has_entity_exec(entities, *agent_entity_id) {
                DebugDocumentSelection::Whole
            } else {
                DebugDocumentSelection::Skip
            }
        },
        DebugDocumentSubject::AgentTickRollup { agent_entity_id } => {
            if has_entity_exec(entities, *agent_entity_id) {
                DebugDocumentSelection::Whole
            } else {
                DebugDocumentSelection::Skip
            }
        },
        DebugDocumentSubject::ShardIncidentSummary => DebugDocumentSelection::Whole,
        DebugDocumentSubject::ShardTransportSummary => DebugDocumentSelection::Whole,
    }
}

/// The frames `interesting_frames` picks are exactly the agent frames whose
/// entity is of interest, each once, in order.
proof fn lemma_interesting_frames(agents: Seq<Option<u64>>, entities: Seq<u64>)
    requires
        agents.len() <= usize::MAX,
    ensures
        forall|k: int|
            0 <= k < interesting_frames(agents, entities).len() ==> {
                let i = #[trigger] interesting_frames(agents, entities)[k] as int;
                &&& 0 <= i < agents.len()
                &&& agents[i] matches Some(id) && exists|m: int| 0 <= m < entities.len() && entities[m] == id
            },
        forall|k: int, l: int|
            0 <= k < l < interesting_frames(agents, entities).len() ==> #[trigger] interesting_frames(
                agents,
                entities,
            )[k] < #[trigger] interesting_frames(agents, entities)[l],
        forall|i: int|
            0 <= i < agents.len() && (#[trigger] agents[i] matches Some(id) && has_entity(entities, id))
                ==> exists|k: int|
                0 <= k < interesting_frames(agents, entities).len() && interesting_frames(agents, entities)[k] == i,
    decreases agents.len(),
{
    if agents.len() > 0 {
        let front = agents.drop_last();
        lemma_interesting_frames(front, entities);
        let earlier = interesting_frames(front, entities);
        let all = interesting_frames(agents, entities);
        assert forall|k: int| 0 <= k < earlier.len() implies (#[trigger] earlier[k] as int) < agents.len() - 1 by {}
        assert forall|k: int| 0 <= k < all.len() implies {
            let i = #[trigger] all[k] as int;
            &&& 0 <= i < agents.len()
            &&& agents[i] matches Some(id) && exists|m: int| 0 <= m < entities.len() && entities[m] == id
        } by {
            if k < earlier.len() {
                assert(all[k] == earlier[k]);
                assert(agents[earlier[k] as int] == front[earlier[k] as int]);
            } else {
                assert(all[k] as int == agents.len() - 1);
                assert(agents[agents.len() - 1] == agents.last());
            }
        }
        assert forall|k: int, l: int| 0 <= k < l < all.len() implies #[trigger] all[k] < #[trigger] all[l] by {
            assert(all[k] == earlier[k]);
            if l < earlier.len() {
                assert(all[l] == earlier[l]);
            } else {
                assert(all[l] as int == agents.len() - 1);
            }
        }
        assert forall|i: int|
            0 <= i < agents.len() && (#[trigger] agents[i] matches Some(id) && has_entity(entities, id))
                implies exists|k: int| 0 <= k < all.len() && all[k] == i by {
            if i < agents.len() - 1 {
                assert(front[i] == agents[i]);
                let k = choose|k: int| 0 <= k < earlier.len() && earlier[k] == i;
                assert(all[k] == earlier[k]);
            } else {
                assert(all[all.len() - 1] == i);
            }
        }
    }
}

/// What a client receives follows its interest: an unbounded interest gets
/// every document whole; shard summaries always pass whole; an agent's tool
/// call or rollup passes whole exactly when the agent's entity is of
/// interest and is skipped otherwise; tick telemetry is never passed whole
/// to a bounded interest but narrowed to exactly the frames of agents of
/// interest, in order, and skipped when there are none.
pub proof fn lemma_debug_selection_follows_interest(
    selection: DebugDocumentSelection,
    subject: DebugDocumentSubject,
    unbounded: bool,
    entities: Seq<u64>,
)
    requires
        is_debug_selection(selection, subject, unbounded, entities),
    ensures
        unbounded ==> selection == DebugDocumentSelection::Whole,
        subject is ShardIncidentSummary || subject is ShardTransportSummary ==> selection
            == DebugDocumentSelection::Whole,
        !unbounded ==> (subject matches DebugDocumentSubject::AgentToolCallEvent { agent_entity_id } ==> ((selection
            == DebugDocumentSelection::Whole) <==> exists|m: int| 0 <= m < entities.len() && entities[m] == agent_entity_id)
            && (selection == DebugDocumentSelection::Whole || selection == DebugDocumentSelection::Skip)),
        !unbounded ==> (subject matches DebugDocumentSubject::AgentTickRollup { agent_entity_id } ==> ((selection
            == DebugDocumentSelection::Whole) <==> exists|m: int| 0 <= m < entities.len() && entities[m] == agent_entity_id)
            && (selection == DebugDocumentSelection::Whole || selection == DebugDocumentSelection::Skip)),
        !unbounded ==> (subject matches DebugDocumentSubject::TickTelemetry { agent_entities } ==> (
            agent_entities@.len() <= usize::MAX ==> {
            let agents = agent_entities@;
            &&& selection != DebugDocumentSelection::Whole
            &&& (selection == DebugDocumentSelection::Skip <==> forall|i: int|
                0 <= i < agents.len() ==> !(#[trigger] agents[i] matches Some(id) && exists|m: int|
                    0 <= m < entities.len() && entities[m] == id))
            &&& (selection matches DebugDocumentSelection::AgentFrames(frames) ==> {
                &&& forall|k: int|
                    0 <= k < frames@.len() ==> {
                        let i = #[trigger] frames@[k] as int;
                        &&& 0 <= i < agents.len()
                        &&& agents[i] matches Some(id) && exists|m: int| 0 <= m < entities.len() && entities[m] == id
                    }
                &&& forall|k: int, l: int| 0 <= k < l < frames@.len() ==> #[trigger] frames@[k] < #[trigger] frames@[l]
                &&& forall|i: int|
                    0 <= i < agents.len() && (#[trigger] agents[i] matches Some(id) && exists|m: int|
                        0 <= m < entities.len() && entities[m] == id) ==> exists|k: int|
                        0 <= k < frames@.len() && frames@[k] == i
            })
        })),
{
    if !unbounded {
        if let DebugDocumentSubject::TickTelemetry { agent_entities } = subject {
            let agents = agent_entities@;
            if agents.len() <= usize::MAX {
            lemma_interesting_frames(agents, entities);
            let frames = interesting_frames(agents, entities);
            if frames.len() > 0 {
                let i = frames[0] as int;
                assert(agents[i] matches Some(id) && exists|m: int| 0 <= m < entities.len() && entities[m] == id);
            } else {
                assert forall|i: int| 0 <= i < agents.len() implies !(#[trigger] agents[i] matches Some(id) && exists|m: int|
                    0 <= m < entities.len() && entities[m] == id) by {
                    if agents[i] matches Some(id) && exists|m: int| 0 <= m < entities.len() && entities[m] == id {
                        assert(has_entity(entities, agents[i]->0));
                    }
                }
            }
            }
        }
    }
}

} // verus!
