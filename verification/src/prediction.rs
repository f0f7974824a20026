//! Client-side prediction bookkeeping and the decisions a client takes when
//! authoritative updates arrive: ordering, gap detection, acknowledgement of
//! predicted input, reconciliation reports and recovery requests.

use vstd::prelude::*;
use crate::history::{SnapshotInterpolationBuffer, TickedSnapshot};
use crate::recovery::RecoveryRequestState;

verus! {

/// Tick-aligned locally predicted actions that have been sent to the server but
/// not yet acknowledged by the authoritative simulation.
pub struct PredictedActionBatch<A> {
    pub tick: u64,
    pub actions: Vec<A>,
}

/// Total number of actions in a run of batches.
pub open spec fn action_total<A>(s: Seq<PredictedActionBatch<A>>) -> nat
    decreases s.len(),
{
    if s.len() == 0 {
        0
    } else {
        action_total(s.drop_last()) + s.last().actions@.len()
    }
}

/// The batches whose tick is after `tick`, in their original order.
pub open spec fn batches_after<A>(s: Seq<PredictedActionBatch<A>>, tick: u64) -> Seq<
    PredictedActionBatch<A>,
>
    decreases s.len(),
{
    if s.len() == 0 {
        s
    } else if s.last().tick > tick {
        batches_after(s.drop_last(), tick).push(s.last())
    } else {
        batches_after(s.drop_last(), tick)
    }
}

/// The acknowledged tick after folding in a new acknowledgement: the larger
/// of the two.
pub open spec fn merge_ack(last: Option<u64>, ack: u64) -> u64 {
    match last {
        Some(l) => if l > ack {
            l
        } else {
            ack
        },
        None => ack,
    }
}

/// Result of reconciling local prediction against an authoritative update.
#[derive(Debug, Clone, Default, PartialEq, Eq, Structural)]
pub struct ReconciliationReport {
    pub authoritative_tick: u64,
    pub authoritative_digest: u64,
    pub acknowledged_action_tick: Option<u64>,
    pub pending_action_batches: usize,
    pub replayed_action_count: usize,
    pub predicted_digest: Option<u64>,
    pub used_hard_resync: bool,
}

/// What a rollback replays after a rewind baseline.
#[derive(Debug, Clone, PartialEq, Eq, Structural)]
pub struct ReplaySummary {
    pub replayed_batches: usize,
    pub replayed_action_count: usize,
    pub first_replayed_tick: Option<u64>,
    pub last_replayed_tick: Option<u64>,
}

/// Sent but not yet acknowledged action batches, oldest first, with the
/// highest acknowledged action tick seen so far.
pub struct PredictionHistory<A> {
    batches: Vec<PredictedActionBatch<A>>,
    last_acknowledged_action_tick: Option<u64>,
}

proof fn lemma_action_total_push<A>(s: Seq<PredictedActionBatch<A>>, b: PredictedActionBatch<A>)
    ensures
        action_total(s.push(b)) == action_total(s) + b.actions@.len(),
{
    assert(s.push(b).drop_last() =~= s);
}

proof fn lemma_batches_after_push<A>(
    s: Seq<PredictedActionBatch<A>>,
    b: PredictedActionBatch<A>,
    tick: u64,
)
    ensures
        batches_after(s.push(b), tick) == if b.tick > tick {
            batches_after(s, tick).push(b)
        } else {
            batches_after(s, tick)
        },
{
    assert(s.push(b).drop_last() =~= s);
}

/// Action total of a prefix never exceeds the whole.
proof fn lemma_action_total_prefix<A>(s: Seq<PredictedActionBatch<A>>, i: int)
    requires
        0 <= i <= s.len(),
    ensures
        action_total(s.take(i)) <= action_total(s),
    decreases s.len() - i,
{
    if i < s.len() {
        lemma_action_total_prefix(s, i + 1);
        assert(s.take(i + 1).drop_last() =~= s.take(i));
    } else {
        assert(s.take(i) =~= s);
    }
}

/// Filtering never increases the action total.
proof fn lemma_batches_after_total<A>(s: Seq<PredictedActionBatch<A>>, tick: u64)
    ensures
        action_total(batches_after(s, tick)) <= action_total(s),
        batches_after(s, tick).len() <= s.len(),
    decreases s.len(),
{
    if s.len() > 0 {
        lemma_batches_after_total(s.drop_last(), tick);
        if s.last().tick > tick {
            lemma_action_total_push(batches_after(s.drop_last(), tick), s.last());
        }
    }
}

/// Counts the actions of a run of batches.
fn count_actions<A>(batches: &Vec<PredictedActionBatch<A>>) -> (res: usize)
    requires
        action_total(batches@) <= usize::MAX,
    ensures
        res == action_total(batches@),
{
    let mut total: usize = 0;
    let mut i: usize = 0;
    while i < batches.len()
        invariant
            i <= batches@.len(),
            total == action_total(batches@.take(i as int)),
            action_total(batches@) <= usize::MAX,
        decreases batches.len() - i,
    {
        proof {
            assert(batches@.take(i + 1).drop_last() =~= batches@.take(i as int));
            lemma_action_total_prefix(batches@, i + 1);
        }
        total = total + batches[i].actions.len();
        i = i + 1;
    }
    proof {
        assert(batches@.take(i as int) =~= batches@);
    }
    total
}

impl<A> PredictionHistory<A> {
    /// The pending batches, oldest first.
    pub closed spec fn pending(self) -> Seq<PredictedActionBatch<A>> {
        self.batches@
    }

    /// The highest acknowledged action tick seen so far.
    pub closed spec fn acknowledged(self) -> Option<u64> {
        self.last_acknowledged_action_tick
    }

    /// No pending batches and nothing acknowledged yet.
    pub fn new() -> (res: Self)
        ensures
            res.pending() == Seq::<PredictedActionBatch<A>>::empty(),
            res.acknowledged() is None,
    {
        PredictionHistory { batches: Vec::new(), last_acknowledged_action_tick: None }
    }

    /// Forgets all pending batches and acknowledgements (a fresh session).
    pub fn clear(&mut self)
        ensures
            final(self).pending() == Seq::<PredictedActionBatch<A>>::empty(),
            final(self).acknowledged() is None,
    {
        self.batches = Vec::new();
        self.last_acknowledged_action_tick = None;
    }

    /// Records a batch that was just sent to the server.
    pub fn record_sent(&mut self, tick: u64, actions: Vec<A>)
        ensures
            final(self).pending() == old(self).pending().push(PredictedActionBatch { tick, actions }),
            final(self).acknowledged() == old(self).acknowledged(),
    {
        self.batches.push(PredictedActionBatch { tick, actions });
    }

    /// Number of pending batches.
    pub fn pending_batches(&self) -> (res: usize)
        ensures
            res == self.pending().len(),
    {
        self.batches.len()
    }

    /// Number of pending actions over all batches.
    pub fn pending_action_count(&self) -> (res: usize)
        requires
            action_total(self.pending()) <= usize::MAX,
        ensures
            res == action_total(self.pending()),
    {
        count_actions(&self.batches)
    }

    /// The highest acknowledged action tick.
    pub fn last_acknowledged_action_tick(&self) -> (res: Option<u64>)
        ensures
            res == self.acknowledged(),
    {
        self.last_acknowledged_action_tick
    }

    /// Folds in the server's acknowledgement: the acknowledged tick never
    /// moves backwards, and every batch at or before it is dropped. Without
    /// an acknowledgement nothing changes.
    pub fn prune_acknowledged(&mut self, acknowledged_action_tick: Option<u64>)
        ensures
            match acknowledged_action_tick {
                None => final(self).pending() == old(self).pending() && final(self).acknowledged()
                    == old(self).acknowledged(),
                Some(ack) => final(self).acknowledged() == Some(
                    merge_ack(old(self).acknowledged(), ack),
                ) && final(self).pending() == batches_after(
                    old(self).pending(),
                    merge_ack(old(self).acknowledged(), ack),
                ),
            },
    {
        let ack = match acknowledged_action_tick {
            None => {
                return;
            },
            Some(ack) => ack,
        };
        let merged = match self.last_acknowledged_action_tick {
            Some(last) => if last > ack {
                last
            } else {
                ack
            },
            None => ack,
        };
        self.last_acknowledged_action_tick = Some(merged);
        let mut old_batches: Vec<PredictedActionBatch<A>> = Vec::new();
        std::mem::swap(&mut old_batches, &mut self.batches);
        let ghost original = old_batches@;
        let mut kept: Vec<PredictedActionBatch<A>> = Vec::new();
        proof {
            assert(original.take(0) =~= Seq::<PredictedActionBatch<A>>::empty());
        }
        for batch in it: old_batches
            invariant
                it.seq() == original,
                kept@ == batches_after(it.seq().take(it.index() as int), merged),
        {
            proof {
                let i = it.index() as int;
                assert(it.seq().take(i + 1) =~= it.seq().take(i).push(batch));
                lemma_batches_after_push(it.seq().take(i), batch, merged);
            }
            if batch.tick > merged {
                kept.push(batch);
            }
        }
        proof {
            assert(original.take(original.len() as int) =~= original);
        }
        self.batches = kept;
    }

    /// What replaying after a rewind baseline at `baseline_tick` involves:
    /// every pending batch after that tick, in order.
    pub fn replay_after(&self, baseline_tick: u64) -> (res: ReplaySummary)
        requires
            action_total(self.pending()) <= usize::MAX,
        ensures
            ({
                let replay = batches_after(self.pending(), baseline_tick);
                &&& res.replayed_batches == replay.len()
                &&& res.replayed_action_count == action_total(replay)
                &&& res.first_replayed_tick == if replay.len() > 0 {
                    Some(replay[0].tick)
                } else {
                    None
                }
                &&& res.last_replayed_tick == if replay.len() > 0 {
                    Some(replay.last().tick)
                } else {
                    None
                }
            }),
    {
        let mut batches: usize = 0;
        let mut actions: usize = 0;
        let mut first: Option<u64> = None;
        let mut last: Option<u64> = None;
        let mut i: usize = 0;
        proof {
            assert(self.batches@.take(0) =~= Seq::<PredictedActionBatch<A>>::empty());
            lemma_batches_after_total(self.batches@, baseline_tick);
        }
        while i < self.batches.len()
            invariant
                i <= self.batches@.len(),
                action_total(self.batches@) <= usize::MAX,
                action_total(batches_after(self.batches@, baseline_tick)) <= usize::MAX,
                ({
                    let replay = batches_after(self.batches@.take(i as int), baseline_tick);
                    &&& batches == replay.len()
                    &&& actions == action_total(replay)
                    &&& first == if replay.len() > 0 {
                        Some(replay[0].tick)
                    } else {
                        None
                    }
                    &&& last == if replay.len() > 0 {
                        Some(replay.last().tick)
                    } else {
                        None
                    }
                }),
            decreases self.batches.len() - i,
        {
            let ghost prefix = self.batches@.take(i as int);
            proof {
                assert(self.batches@.take(i + 1) =~= prefix.push(self.batches@[i as int]));
                lemma_batches_after_push(prefix, self.batches@[i as int], baseline_tick);
                lemma_action_total_push(batches_after(prefix, baseline_tick), self.batches@[i as int]);
                lemma_batches_after_total(self.batches@.take(i + 1), baseline_tick);
                lemma_batches_after_prefix_total(self.batches@, i + 1, baseline_tick);
            }
            let batch = &self.batches[i];
            if batch.tick > baseline_tick {
                batches = batches + 1;
                actions = actions + batch.actions.len();
                if first.is_none() {
                    first = Some(batch.tick);
                }
                last = Some(batch.tick);
            }
            i = i + 1;
        }
        proof {
            assert(self.batches@.take(i as int) =~= self.batches@);
        }
        ReplaySummary {
            replayed_batches: batches,
            replayed_action_count: actions,
            first_replayed_tick: first,
            last_replayed_tick: last,
        }
    }

    /// The reconciliation report for an authoritative update at `tick`.
    pub fn reconciliation_report(
        &self,
        authoritative_tick: u64,
        authoritative_digest: u64,
        predicted_digest: Option<u64>,
        used_hard_resync: bool,
    ) -> (res: ReconciliationReport)
        requires
            action_total(self.pending()) <= usize::MAX,
        ensures
            res == (ReconciliationReport {
                authoritative_tick,
                authoritative_digest,
                acknowledged_action_tick: self.acknowledged(),
                pending_action_batches: self.pending().len() as usize,
                replayed_action_count: action_total(self.pending()) as usize,
                predicted_digest,
                used_hard_resync,
            }),
    {
        ReconciliationReport {
            authoritative_tick,
            authoritative_digest,
            acknowledged_action_tick: self.last_acknowledged_action_tick,
            pending_action_batches: self.batches.len(),
            replayed_action_count: count_actions(&self.batches),
            predicted_digest,
            used_hard_resync,
        }
    }
}

/// Filtering a prefix keeps at most the action total of filtering the whole.
proof fn lemma_batches_after_prefix_total<A>(s: Seq<PredictedActionBatch<A>>, i: int, tick: u64)
    requires
        0 <= i <= s.len(),
    ensures
        action_total(batches_after(s.take(i), tick)) <= action_total(batches_after(s, tick)),
    decreases s.len() - i,
{
    if i < s.len() {
        lemma_batches_after_prefix_total(s, i + 1, tick);
        assert(s.take(i + 1) =~= s.take(i).push(s[i]));
        lemma_batches_after_push(s.take(i), s[i], tick);
        if s[i].tick > tick {
            lemma_action_total_push(batches_after(s.take(i), tick), s[i]);
        }
    } else {
        assert(s.take(i) =~= s);
    }
}


/// Ticks a client waits before repeating an unanswered recovery request.
pub const RECOVERY_REQUEST_RETRY_TICKS: u64 = 5;

/// Whether an update at `tick` skips at least one tick after `last_server_tick`
/// (never on the first update, when `last_server_tick` is 0).
pub open spec fn spec_gap_detected(last_server_tick: u64, tick: u64) -> bool {
    last_server_tick > 0 && tick > last_server_tick + 1
}

/// How a client handles an authoritative state delta.
#[derive(Debug, Clone, Copy, PartialEq, Eq, Structural)]
pub enum StateDeltaDisposition {
    /// Older than the newest applied update: dropped.
    Stale,
    /// A partial delta after a tick gap: the local baseline is discarded and a
    /// full snapshot is requested.
    GapRecovery,
    /// Applied; `use_baseline` says whether it applies on top of the current
    /// authoritative snapshot (a partial delta) or replaces it.
    Apply { use_baseline: bool, gap_detected: bool },
}

/// The disposition of a delta at `tick`, given the newest applied tick.
pub open spec fn spec_state_delta_disposition(
    last_server_tick: u64,
    tick: u64,
    is_full_snapshot: bool,
) -> StateDeltaDisposition {
    if tick < last_server_tick {
        StateDeltaDisposition::Stale
    } else if spec_gap_detected(last_server_tick, tick) && !is_full_snapshot {
        StateDeltaDisposition::GapRecovery
    } else {
        StateDeltaDisposition::Apply {
            use_baseline: !is_full_snapshot && !spec_gap_detected(last_server_tick, tick),
            gap_detected: spec_gap_detected(last_server_tick, tick),
        }
    }
}

/// Classifies an authoritative state delta at `tick`.
pub fn plan_state_delta(last_server_tick: u64, tick: u64, is_full_snapshot: bool) -> (res:
    StateDeltaDisposition)
    ensures
        res == spec_state_delta_disposition(last_server_tick, tick, is_full_snapshot),
{
    if tick < last_server_tick {
        return StateDeltaDisposition::Stale;
    }
    let gap_detected = last_server_tick > 0 && tick - last_server_tick > 1;
    if gap_detected && !is_full_snapshot {
        StateDeltaDisposition::GapRecovery
    } else {
        StateDeltaDisposition::Apply { use_baseline: !is_full_snapshot && !gap_detected, gap_detected }
    }
}

/// A full-snapshot recovery request to send.
#[derive(Debug, Clone, Copy, PartialEq, Eq, Structural)]
pub struct RecoveryRequestPlan {
    /// The server tick the request is throttled against.
    pub current_server_tick: u64,
    /// The newest tick the client still knows, if any.
    pub last_known_tick: Option<u64>,
}

/// The server tick a recovery request is measured against: the observed
/// tick or the client's own newest tick, whichever is later.
pub open spec fn spec_recovery_tick(
    observed_server_tick: u64,
    baseline_tick: Option<u64>,
    last_server_tick: u64,
) -> u64 {
    let own = match baseline_tick {
        Some(t) => t,
        None => last_server_tick,
    };
    if observed_server_tick > own {
        observed_server_tick
    } else {
        own
    }
}

/// A full-snapshot recovery request for the server: the newest tick and
/// digest the client still knows.
#[derive(Debug, Clone, Copy, PartialEq, Eq, Structural)]
pub struct RecoveryRequest {
    pub last_known_tick: Option<u64>,
    pub last_known_digest: Option<u64>,
}

/// Per-session synchronisation state of a client: the newest applied
/// authoritative tick, the newest accepted event tick, pending predictions,
/// and the recovery-request throttle.
pub struct ClientSyncState<A> {
    pub last_server_tick: u64,
    pub last_event_tick: u64,
    pub prediction: PredictionHistory<A>,
    pub recovery: RecoveryRequestState,
}

impl<A> ClientSyncState<A> {
    /// A client that has not yet been welcomed.
    pub fn new() -> (res: Self)
        ensures
            res.last_server_tick == 0,
            res.last_event_tick == 0,
            res.prediction.pending().len() == 0,
            res.prediction.acknowledged() is None,
            res.recovery == RecoveryRequestState::spec_default(),
    {
        ClientSyncState {
            last_server_tick: 0,
            last_event_tick: 0,
            prediction: PredictionHistory::new(),
            recovery: RecoveryRequestState::default(),
        }
    }

    /// A welcome at `tick` starts a fresh session: predictions and
    /// acknowledgements are forgotten, recovery is idle, and both the update
    /// and the event clocks restart at `tick`. Returns the initial
    /// reconciliation report.
    pub fn on_welcome(&mut self, tick: u64, authoritative_digest: u64, predicted_digest: Option<u64>) -> (res:
        ReconciliationReport)
        ensures
            final(self).last_server_tick == tick,
            final(self).last_event_tick == tick,
            final(self).prediction.pending().len() == 0,
            final(self).prediction.acknowledged() is None,
            final(self).recovery == RecoveryRequestState::spec_default(),
            res == (ReconciliationReport {
                authoritative_tick: tick,
                authoritative_digest,
                acknowledged_action_tick: None,
                pending_action_batches: 0,
                replayed_action_count: 0,
                predicted_digest,
                used_hard_resync: false,
            }),
    {
        self.prediction.clear();
        self.recovery.clear();
        self.last_server_tick = tick;
        self.last_event_tick = tick;
        ReconciliationReport {
            authoritative_tick: tick,
            authoritative_digest,
            acknowledged_action_tick: None,
            pending_action_batches: 0,
            replayed_action_count: 0,
            predicted_digest,
            used_hard_resync: false,
        }
    }

    /// How a state delta at `tick` is to be handled.
    pub fn classify_state_delta(&self, tick: u64, is_full_snapshot: bool) -> (res: StateDeltaDisposition)
        ensures
            res == spec_state_delta_disposition(self.last_server_tick, tick, is_full_snapshot),
    {
        plan_state_delta(self.last_server_tick, tick, is_full_snapshot)
    }

    /// Bookkeeping once a delta at `tick` has been applied: a full snapshot
    /// ends any pending recovery, the acknowledgement prunes predictions, and
    /// `tick` becomes the newest applied tick.
    pub fn accept_state_delta(&mut self, tick: u64, is_full_snapshot: bool, acknowledged_action_tick: Option<u64>)
        requires
            tick >= old(self).last_server_tick,
        ensures
            final(self).last_server_tick == tick,
            final(self).last_event_tick == old(self).last_event_tick,
            final(self).recovery == if is_full_snapshot {
                RecoveryRequestState::spec_default()
            } else {
                old(self).recovery
            },
            match acknowledged_action_tick {
                None => final(self).prediction.pending() == old(self).prediction.pending()
                    && final(self).prediction.acknowledged() == old(self).prediction.acknowledged(),
                Some(ack) => final(self).prediction.acknowledged() == Some(
                    merge_ack(old(self).prediction.acknowledged(), ack),
                ) && final(self).prediction.pending() == batches_after(
                    old(self).prediction.pending(),
                    merge_ack(old(self).prediction.acknowledged(), ack),
                ),
            },
    {
        if is_full_snapshot {
            self.recovery.clear();
        }
        self.prediction.prune_acknowledged(acknowledged_action_tick);
        self.last_server_tick = tick;
    }

    /// Accepts an event batch at `tick` unless it is older than the newest
    /// accepted one; accepting advances the event clock.
    pub fn accept_event_batch(&mut self, tick: u64) -> (res: bool)
        ensures
            res == (tick >= old(self).last_event_tick),
            final(self).last_event_tick == if res {
                tick
            } else {
                old(self).last_event_tick
            },
            final(self).last_server_tick == old(self).last_server_tick,
            final(self).prediction.pending() == old(self).prediction.pending(),
            final(self).prediction.acknowledged() == old(self).prediction.acknowledged(),
            final(self).recovery == old(self).recovery,
    {
        if tick < self.last_event_tick {
            return false;
        }
        self.last_event_tick = tick;
        true
    }

    /// Decides whether to ask for a full snapshot after drift or a gap seen
    /// at `observed_server_tick`. `baseline_tick` is the tick of the current
    /// authoritative snapshot, if one is held. `None` while the throttle
    /// forbids a request.
    pub fn plan_recovery_request(
        &self,
        observed_server_tick: u64,
        baseline_tick: Option<u64>,
        retry_interval_ticks: u64,
    ) -> (res: Option<RecoveryRequestPlan>)
        ensures
            ({
                let current = spec_recovery_tick(
                    observed_server_tick,
                    baseline_tick,
                    self.last_server_tick,
                );
                if self.recovery.spec_can_request(current, retry_interval_ticks) {
                    res == Some(
                        RecoveryRequestPlan {
                            current_server_tick: current,
                            last_known_tick: match baseline_tick {
                                Some(t) => Some(t),
                                None => if self.last_server_tick > 0 {
                                    Some(self.last_server_tick)
                                } else {
                                    None
                                },
                            },
                        },
                    )
                } else {
                    res is None
                }
            }),
    {
        let own = match baseline_tick {
            Some(t) => t,
            None => self.last_server_tick,
        };
        let current = if observed_server_tick > own {
            observed_server_tick
        } else {
            own
        };
        if !self.recovery.can_request(current, retry_interval_ticks) {
            return None;
        }
        let last_known_tick = match baseline_tick {
            Some(t) => Some(t),
            None => if self.last_server_tick > 0 {
                Some(self.last_server_tick)
            } else {
                None
            },
        };
        Some(RecoveryRequestPlan { current_server_tick: current, last_known_tick })
    }

    /// Recovers from a partial delta at `tick` that cannot be applied (it
    /// follows a tick gap, or does not fit the baseline). `baseline` is the
    /// tick and digest of the held authoritative snapshot, if any. A
    /// recovery request is planned as `plan_recovery_request` does with the
    /// retry interval; it is sent, and recorded, only while `connected`.
    /// Then both the authoritative and the predicted snapshot are dropped
    /// and the render history is emptied, and the reconciliation report for
    /// `tick` says a hard resync happened, with no predicted digest. The
    /// update and event clocks and the predictions stay as they were.
    pub fn recover_from_gap<S>(
        &mut self,
        tick: u64,
        authoritative_digest: u64,
        baseline: Option<(u64, u64)>,
        connected: bool,
        authoritative: &mut Option<S>,
        local: &mut Option<S>,
        history: &mut SnapshotInterpolationBuffer<S>,
    ) -> (res: (Option<RecoveryRequest>, ReconciliationReport))
        requires
            action_total(old(self).prediction.pending()) <= usize::MAX,
        ensures
            ({
                let baseline_tick = match baseline {
                    Some(b) => Some(b.0),
                    None => None,
                };
                let baseline_digest = match baseline {
                    Some(b) => Some(b.1),
                    None => None,
                };
                let current = spec_recovery_tick(tick, baseline_tick, old(self).last_server_tick);
                let send = connected && old(self).recovery.spec_can_request(current, RECOVERY_REQUEST_RETRY_TICKS);
                &&& res.0 == if send {
                    Some(
                        RecoveryRequest {
                            last_known_tick: match baseline_tick {
                                Some(t) => Some(t),
                                None => if old(self).last_server_tick > 0 {
                                    Some(old(self).last_server_tick)
                                } else {
                                    None
                                },
                            },
                            last_known_digest: baseline_digest,
                        },
                    )
                } else {
                    None
                }
                &&& final(self).recovery == if send {
                    old(self).recovery.spec_record_request(current, baseline_digest)
                } else {
                    old(self).recovery
                }
            }),
            final(self).last_server_tick == old(self).last_server_tick,
            final(self).last_event_tick == old(self).last_event_tick,
            final(self).prediction.pending() == old(self).prediction.pending(),
            final(self).prediction.acknowledged() == old(self).prediction.acknowledged(),
            *final(authoritative) is None,
            *final(local) is None,
            final(history).entries() == Seq::<TickedSnapshot<S>>::empty(),
            final(history).limit() == old(history).limit(),
            final(history).wf(),
            res.1 == (ReconciliationReport {
                authoritative_tick: tick,
                authoritative_digest,
                acknowledged_action_tick: old(self).prediction.acknowledged(),
                pending_action_batches: old(self).prediction.pending().len() as usize,
                replayed_action_count: action_total(old(self).prediction.pending()) as usize,
                predicted_digest: None,
                used_hard_resync: true,
            }),
    {
        let (baseline_tick, baseline_digest) = match baseline {
            Some((t, d)) => (Some(t), Some(d)),
            None => (None, None),
        };
        let request = match self.plan_recovery_request(tick, baseline_tick, RECOVERY_REQUEST_RETRY_TICKS) {
            Some(plan) => if connected {
                self.record_recovery_request(plan, baseline_digest);
                Some(RecoveryRequest { last_known_tick: plan.last_known_tick, last_known_digest: baseline_digest })
            } else {
                None
            },
            None => None,
        };
        *authoritative = None;
        *local = None;
        history.clear();
        let report = self.prediction.reconciliation_report(tick, authoritative_digest, None, true);
        (request, report)
    }

    /// Records that a planned recovery request was actually sent.
    pub fn record_recovery_request(&mut self, plan: RecoveryRequestPlan, digest: Option<u64>)
        ensures
            final(self).recovery == old(self).recovery.spec_record_request(
                plan.current_server_tick,
                digest,
            ),
            final(self).last_server_tick == old(self).last_server_tick,
            final(self).last_event_tick == old(self).last_event_tick,
            final(self).prediction.pending() == old(self).prediction.pending(),
            final(self).prediction.acknowledged() == old(self).prediction.acknowledged(),
    {
        self.recovery.record_request(plan.current_server_tick, digest);
    }
}

/// Pruning keeps exactly the unacknowledged batches: every kept batch is
/// after the acknowledged tick, every pending batch after it is kept, and
/// pruning again with the same tick changes nothing.
pub proof fn lemma_prune_keeps_unacknowledged<A>(s: Seq<PredictedActionBatch<A>>, ack: u64)
    ensures
        forall|k: int| 0 <= k < batches_after(s, ack).len() ==> #[trigger] batches_after(s, ack)[k].tick > ack,
        forall|k: int| 0 <= k < batches_after(s, ack).len() ==> s.contains(#[trigger] batches_after(s, ack)[k]),
        forall|j: int| 0 <= j < s.len() && #[trigger] s[j].tick > ack ==> batches_after(s, ack).contains(s[j]),
        batches_after(batches_after(s, ack), ack) == batches_after(s, ack),
    decreases s.len(),
{
    if s.len() > 0 {
        let t = s.drop_last();
        lemma_prune_keeps_unacknowledged(t, ack);
        let bt = batches_after(t, ack);
        let b = batches_after(s, ack);
        assert forall|k: int| 0 <= k < b.len() implies s.contains(#[trigger] b[k]) by {
            if k < bt.len() {
                assert(b[k] == bt[k]);
                let m = choose|m: int| 0 <= m < t.len() && t[m] == bt[k];
                assert(s[m] == t[m]);
            } else {
                assert(b[k] == s.last());
                assert(s[s.len() - 1] == s.last());
            }
        }
        assert forall|j: int| 0 <= j < s.len() && #[trigger] s[j].tick > ack implies b.contains(s[j]) by {
            if j < s.len() - 1 {
                assert(s[j] == t[j]);
                let m = choose|m: int| 0 <= m < bt.len() && bt[m] == t[j];
                assert(b[m] == bt[m]);
            } else {
                assert(b[b.len() - 1] == s.last());
            }
        }
        assert forall|k: int| 0 <= k < b.len() implies #[trigger] b[k].tick > ack by {
            if k < bt.len() {
                assert(b[k] == bt[k]);
            }
        }
        if s.last().tick > ack {
            lemma_batches_after_push(bt, s.last(), ack);
        }
    }
}

/// Acknowledgements never move backwards: the merged tick is at least the
/// new acknowledgement and at least the previous one, and merging an older
/// acknowledgement leaves the tick as it was.
pub proof fn lemma_acknowledgement_monotone(last: Option<u64>, ack: u64)
    ensures
        merge_ack(last, ack) >= ack,
        last matches Some(l) ==> merge_ack(last, ack) >= l,
        last matches Some(l) ==> (ack <= l ==> merge_ack(last, ack) == l),
{
}

/// A stale update (older than the newest applied tick) is never applied,
/// and any update at or after the newest applied tick is applied unless it
/// is a partial delta after a gap; a full snapshot is always applied unless
/// stale, and replaces the baseline.
pub proof fn lemma_state_delta_ordering(last_server_tick: u64, tick: u64, is_full_snapshot: bool)
    ensures
        (spec_state_delta_disposition(last_server_tick, tick, is_full_snapshot) is Stale) <==> tick
            < last_server_tick,
        (spec_state_delta_disposition(last_server_tick, tick, is_full_snapshot) is GapRecovery) <==> (tick
            >= last_server_tick && spec_gap_detected(last_server_tick, tick) && !is_full_snapshot),
        is_full_snapshot && tick >= last_server_tick ==> spec_state_delta_disposition(
            last_server_tick,
            tick,
            is_full_snapshot,
        ) == (StateDeltaDisposition::Apply {
            use_baseline: false,
            gap_detected: spec_gap_detected(last_server_tick, tick),
        }),
        tick == last_server_tick + 1 ==> !spec_gap_detected(last_server_tick, tick),
{
}

/// Gap detection is exact: after the first update, an update that skips
/// at least one tick (it comes at `last + 2` or later) is a gap; a partial
/// delta after a gap is never applied but triggers recovery, while the very
/// next tick (or a repeat of the newest one) applies on the baseline.
pub proof fn lemma_gap_detection_exact(last_server_tick: u64, tick: u64, is_full_snapshot: bool)
    ensures
        spec_gap_detected(last_server_tick, tick) <==> (last_server_tick > 0 && tick >= last_server_tick + 2),
        last_server_tick > 0 && tick >= last_server_tick + 2 && !is_full_snapshot ==> spec_state_delta_disposition(
            last_server_tick,
            tick,
            is_full_snapshot,
        ) == StateDeltaDisposition::GapRecovery,
        last_server_tick > 0 && tick >= last_server_tick + 2 && is_full_snapshot ==> spec_state_delta_disposition(
            last_server_tick,
            tick,
            is_full_snapshot,
        ) == (StateDeltaDisposition::Apply { use_baseline: false, gap_detected: true }),
        last_server_tick <= tick && (last_server_tick == 0 || tick <= last_server_tick + 1)
            ==> spec_state_delta_disposition(last_server_tick, tick, is_full_snapshot) == (
        StateDeltaDisposition::Apply { use_baseline: !is_full_snapshot, gap_detected: false }),
        tick < last_server_tick ==> spec_state_delta_disposition(last_server_tick, tick, is_full_snapshot)
            == StateDeltaDisposition::Stale,
{
}

} // verus!
