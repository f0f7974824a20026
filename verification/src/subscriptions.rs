//! Subscription profiles of the SpacetimeDB client adapter and the query
//! normalisation they share.

use vstd::prelude::*;
use crate::text::chars_of;

verus! {

/// Lexicographic order of texts by code point (the order `String`'s `Ord`
/// gives, since UTF-8 preserves code-point order).
pub open spec fn text_lt(a: Seq<char>, b: Seq<char>) -> bool
    decreases a.len(),
{
    if a.len() == 0 {
        b.len() > 0
    } else if b.len() == 0 {
        false
    } else if a[0] != b[0] {
        a[0] < b[0]
    } else {
        text_lt(a.drop_first(), b.drop_first())
    }
}

/// The texts of a sequence of strings.
pub open spec fn texts(v: Seq<String>) -> Seq<Seq<char>> {
    v.map_values(|s: String| s@)
}

/// Strictly increasing in text order (so also free of duplicates).
pub open spec fn strictly_sorted(s: Seq<Seq<char>>) -> bool {
    forall|i: int, j: int| 0 <= i < j < s.len() ==> text_lt(#[trigger] s[i], #[trigger] s[j])
}

/// `output` is the normal form of `input`: the distinct texts of `input`,
/// in increasing order.
pub open spec fn is_normal_form(input: Seq<Seq<char>>, output: Seq<Seq<char>>) -> bool {
    strictly_sorted(output) && output.to_set() == input.to_set()
}

pub proof fn lemma_text_lt_irreflexive(a: Seq<char>)
    ensures
        !text_lt(a, a),
    decreases a.len(),
{
    if a.len() > 0 {
        lemma_text_lt_irreflexive(a.drop_first());
    }
}

pub proof fn lemma_text_lt_transitive(a: Seq<char>, b: Seq<char>, c: Seq<char>)
    requires
        text_lt(a, b),
        text_lt(b, c),
    ensures
        text_lt(a, c),
    decreases a.len(),
{
    if a.len() > 0 && b.len() > 0 && c.len() > 0 && a[0] == b[0] && b[0] == c[0] {
        lemma_text_lt_transitive(a.drop_first(), b.drop_first(), c.drop_first());
    }
}

pub proof fn lemma_text_lt_total(a: Seq<char>, b: Seq<char>)
    ensures
        a == b || text_lt(a, b) || text_lt(b, a),
    decreases a.len(),
{
    if a.len() > 0 && b.len() > 0 && a[0] == b[0] {
        lemma_text_lt_total(a.drop_first(), b.drop_first());
        if a.drop_first() == b.drop_first() {
            assert(a =~= seq![a[0]] + a.drop_first());
            assert(b =~= seq![b[0]] + b.drop_first());
        }
    } else if a.len() == 0 && b.len() == 0 {
        assert(a =~= b);
    } else if a.len() > 0 && b.len() > 0 {
        assert(a[0] != b[0]);
    }
}

pub proof fn lemma_text_lt_asymmetric(a: Seq<char>, b: Seq<char>)
    requires
        text_lt(a, b),
    ensures
        !text_lt(b, a),
{
    if text_lt(b, a) {
        lemma_text_lt_transitive(a, b, a);
        lemma_text_lt_irreflexive(a);
    }
}

/// Whether `a` comes strictly before `b` in text order.
pub fn string_lt(a: &String, b: &String) -> (res: bool)
    ensures
        res == text_lt(a@, b@),
{
    let av = chars_of(a.as_str());
    let bv = chars_of(b.as_str());
    let mut i: usize = 0;
    proof {
        assert(av@.skip(0) =~= av@);
        assert(bv@.skip(0) =~= bv@);
    }
    while i < av.len() && i < bv.len() && av[i] == bv[i]
        invariant
            i <= av@.len(),
            i <= bv@.len(),
            text_lt(av@, bv@) == text_lt(av@.skip(i as int), bv@.skip(i as int)),
        decreases av.len() - i,
    {
        proof {
            assert(av@.skip(i as int).drop_first() =~= av@.skip(i + 1));
            assert(bv@.skip(i as int).drop_first() =~= bv@.skip(i + 1));
        }
        i = i + 1;
    }
    let ghost sa = av@.skip(i as int);
    let ghost sb = bv@.skip(i as int);
    assert(sa.len() == av@.len() - i && sb.len() == bv@.len() - i);
    if i == av.len() {
        i < bv.len()
    } else if i == bv.len() {
        false
    } else {
        assert(sa[0] == av@[i as int] && sb[0] == bv@[i as int]);
        av[i] < bv[i]
    }
}

/// Two normal forms of the same set of texts are equal: the normal form is
/// determined by the set alone.
pub proof fn lemma_sorted_sets_equal(a: Seq<Seq<char>>, b: Seq<Seq<char>>)
    requires
        strictly_sorted(a),
        strictly_sorted(b),
        a.to_set() == b.to_set(),
    ensures
        a == b,
    decreases a.len() + b.len(),
{
    if a.len() == 0 {
        if b.len() > 0 {
            assert(b.to_set().contains(b[0]));
            assert(!a.to_set().contains(b[0]));
        }
        assert(a =~= b);
    } else if b.len() == 0 {
        assert(a.to_set().contains(a[0]));
        assert(!b.to_set().contains(a[0]));
    } else {
        assert(a.to_set().contains(a[0]));
        assert(b.to_set().contains(b[0]));
        let k = choose|k: int| 0 <= k < b.len() && b[k] == a[0];
        let m = choose|m: int| 0 <= m < a.len() && a[m] == b[0];
        if k > 0 && m > 0 {
            assert(text_lt(b[0], b[k]));
            assert(text_lt(a[0], a[m]));
            lemma_text_lt_asymmetric(b[0], a[0]);
        } else if k > 0 {
            assert(a[0] == b[0]);
            assert(text_lt(b[0], b[k]));
            lemma_text_lt_irreflexive(a[0]);
        } else if m > 0 {
            assert(a[0] == b[0]);
            assert(text_lt(a[0], a[m]));
            lemma_text_lt_irreflexive(b[0]);
        }
        assert(a[0] == b[0]);
        let a1 = a.drop_first();
        let b1 = b.drop_first();
        assert forall|x: Seq<char>| a1.to_set().contains(x) implies b1.to_set().contains(x) by {
            let i = choose|i: int| 0 <= i < a1.len() && a1[i] == x;
            assert(a[i + 1] == x);
            assert(text_lt(a[0], a[i + 1]));
            assert(b.to_set().contains(x));
            let j = choose|j: int| 0 <= j < b.len() && b[j] == x;
            if j == 0 {
                lemma_text_lt_irreflexive(x);
            }
            assert(b1[j - 1] == x);
        }
        assert forall|x: Seq<char>| b1.to_set().contains(x) implies a1.to_set().contains(x) by {
            let i = choose|i: int| 0 <= i < b1.len() && b1[i] == x;
            assert(b[i + 1] == x);
            assert(text_lt(b[0], b[i + 1]));
            assert(a.to_set().contains(x));
            let j = choose|j: int| 0 <= j < a.len() && a[j] == x;
            if j == 0 {
                lemma_text_lt_irreflexive(x);
            }
            assert(a1[j - 1] == x);
        }
        assert(a1.to_set() =~= b1.to_set());
        lemma_sorted_sets_equal(a1, b1);
        assert(a =~= seq![a[0]] + a1);
        assert(b =~= seq![b[0]] + b1);
    }
}

/// Normalising is idempotent: the normal form of a normal form is itself.
pub proof fn lemma_normal_form_idempotent(
    input: Seq<Seq<char>>,
    once: Seq<Seq<char>>,
    twice: Seq<Seq<char>>,
)
    requires
        is_normal_form(input, once),
        is_normal_form(once, twice),
    ensures
        twice == once,
{
    lemma_sorted_sets_equal(twice, once);
}

/// Inserts `q` into the strictly sorted `res`, unless it is already there.
fn insert_sorted_unique(res: &mut Vec<String>, q: String)
    requires
        strictly_sorted(texts(old(res)@)),
    ensures
        strictly_sorted(texts(final(res)@)),
        texts(final(res)@).to_set() == texts(old(res)@).to_set().insert(q@),
{
    let ghost before = texts(res@);
    let mut p: usize = 0;
    while p < res.len() && string_lt(&res[p], &q)
        invariant
            p <= res@.len(),
            texts(res@) == before,
            strictly_sorted(before),
            forall|j: int| 0 <= j < p ==> text_lt(#[trigger] before[j], q@),
        decreases res.len() - p,
    {
        p = p + 1;
    }
    if p < res.len() && res[p] == q {
        proof {
            assert(before[p as int] == q@);
            assert(before.to_set().contains(q@));
            assert(before.to_set().insert(q@) =~= before.to_set());
        }
        return;
    }
    let ghost qv = q@;
    proof {
        if p < before.len() {
            assert(before[p as int] != qv);
            assert(!text_lt(before[p as int], qv));
            lemma_text_lt_total(before[p as int], qv);
        }
    }
    res.insert(p, q);
    proof {
        let after = texts(res@);
        assert(after =~= before.insert(p as int, qv));
        assert forall|i: int, j: int| 0 <= i < j < after.len() implies text_lt(
            #[trigger] after[i],
            #[trigger] after[j],
        ) by {
            if j < p {
                assert(after[i] == before[i] && after[j] == before[j]);
            } else if j == p {
                assert(after[i] == before[i]);
            } else if i == p {
                assert(after[j] == before[j - 1]);
                if j - 1 > p {
                    assert(text_lt(before[p as int], before[j - 1]));
                    lemma_text_lt_transitive(qv, before[p as int], before[j - 1]);
                }
            } else if i < p {
                assert(after[i] == before[i] && after[j] == before[j - 1]);
            } else {
                assert(after[i] == before[i - 1] && after[j] == before[j - 1]);
            }
        }
        assert forall|x: Seq<char>| after.to_set().contains(x) <==> before.to_set().insert(qv).contains(x) by {
            if after.to_set().contains(x) {
                let i = choose|i: int| 0 <= i < after.len() && after[i] == x;
                if i < p {
                    assert(before[i] == x);
                } else if i > p {
                    assert(before[i - 1] == x);
                }
            }
            if before.to_set().contains(x) {
                let i = choose|i: int| 0 <= i < before.len() && before[i] == x;
                if i < p {
                    assert(after[i] == x);
                } else {
                    assert(after[i + 1] == x);
                }
            }
            if x == qv {
                assert(after[p as int] == x);
            }
        }
        assert(after.to_set() =~= before.to_set().insert(qv));
    }
}

/// Deduplicates and sorts subscription queries.
pub fn normalize_queries(queries: Vec<String>) -> (res: Vec<String>)
    ensures
        is_normal_form(texts(queries@), texts(res@)),
{
    let ghost input = texts(queries@);
    let mut res: Vec<String> = Vec::new();
    proof {
        assert(texts(res@) =~= Seq::<Seq<char>>::empty());
        assert(input.take(0) =~= Seq::<Seq<char>>::empty());
        assert(input.take(0).to_set() =~= Set::<Seq<char>>::empty());
        assert(texts(res@).to_set() =~= Set::<Seq<char>>::empty());
    }
    for q in it: queries
        invariant
            texts(it.seq()) == input,
            strictly_sorted(texts(res@)),
            texts(res@).to_set() == input.take(it.index() as int).to_set(),
    {
        let ghost i = it.index() as int;
        proof {
            assert(input[i] == q@);
            assert(input.take(i + 1) =~= input.take(i).push(q@));
            input.take(i).lemma_push_to_set_commute(q@);
        }
        insert_sorted_unique(&mut res, q);
    }
    proof {
        assert(input.take(input.len() as int) =~= input);
    }
    res
}


/// A subscription profile as a mathematical value.
pub ghost enum ProfileView {
    Spectator,
    Editor,
    EditorDebug,
    EditorDebugEntities(Seq<u64>),
    Player(u64),
    Custom(Seq<Seq<char>>),
}

/// Which tables and rows the adapter subscribes to.
#[derive(Debug, Clone)]
pub enum SubscriptionProfile {
    /// Read-only spectator mode. Receives all public world tables and events.
    Spectator,
    /// Editor/dashboards: all world state without transient events.
    Editor,
    /// Editor/dashboards with debug telemetry streams enabled.
    EditorDebug,
    /// Editor/dashboards with entity-scoped raw debug telemetry.
    EditorDebugEntities(Vec<u64>),
    /// Player mode for a single controlled entity + public events.
    Player(u64),
    /// Caller-supplied custom query set.
    Custom(Vec<String>),
}

impl View for SubscriptionProfile {
    type V = ProfileView;

    open spec fn view(&self) -> ProfileView {
        match self {
            SubscriptionProfile::Spectator => ProfileView::Spectator,
            SubscriptionProfile::Editor => ProfileView::Editor,
            SubscriptionProfile::EditorDebug => ProfileView::EditorDebug,
            SubscriptionProfile::EditorDebugEntities(ids) => ProfileView::EditorDebugEntities(ids@),
            SubscriptionProfile::Player(id) => ProfileView::Player(*id),
            SubscriptionProfile::Custom(queries) => ProfileView::Custom(texts(queries@)),
        }
    }
}

fn same_ids(a: &Vec<u64>, b: &Vec<u64>) -> (res: bool)
    ensures
        res == (a@ == b@),
{
    if a.len() != b.len() {
        return false;
    }
    let mut i: usize = 0;
    while i < a.len()
        invariant
            a@.len() == b@.len(),
            i <= a@.len(),
            forall|j: int| 0 <= j < i ==> a@[j] == b@[j],
        decreases a.len() - i,
    {
        if a[i] != b[i] {
            return false;
        }
        i = i + 1;
    }
    assert(a@ =~= b@);
    true
}

fn same_texts(a: &Vec<String>, b: &Vec<String>) -> (res: bool)
    ensures
        res == (texts(a@) == texts(b@)),
{
    if a.len() != b.len() {
        assert(texts(a@).len() != texts(b@).len());
        return false;
    }
    let mut i: usize = 0;
    while i < a.len()
        invariant
            a@.len() == b@.len(),
            i <= a@.len(),
            forall|j: int| 0 <= j < i ==> a@[j]@ == b@[j]@,
        decreases a.len() - i,
    {
        if a[i] != b[i] {
            assert(texts(a@)[i as int] != texts(b@)[i as int]);
            return false;
        }
        i = i + 1;
    }
    assert(texts(a@) =~= texts(b@));
    true
}

fn same_profile(a: &SubscriptionProfile, b: &SubscriptionProfile) -> (res: bool)
    ensures
        res == (a@ == b@),
{
    match (a, b) {
        (SubscriptionProfile::Spectator, SubscriptionProfile::Spectator) => true,
        (SubscriptionProfile::Editor, SubscriptionProfile::Editor) => true,
        (SubscriptionProfile::EditorDebug, SubscriptionProfile::EditorDebug) => true,
        (
            SubscriptionProfile::EditorDebugEntities(x),
            SubscriptionProfile::EditorDebugEntities(y),
        ) => same_ids(x, y),
        (SubscriptionProfile::Player(x), SubscriptionProfile::Player(y)) => *x == *y,
        (SubscriptionProfile::Custom(x), SubscriptionProfile::Custom(y)) => same_texts(x, y),
        _ => false,
    }
}

/// Tracks the wanted subscription profile, the queries currently active on
/// the connection, and whether the wanted profile still has to be applied.
#[derive(Debug)]
pub struct SpacetimeSubscriptionManager {
    profile: SubscriptionProfile,
    active_queries: Vec<String>,
    pending: bool,
}

impl SpacetimeSubscriptionManager {
    /// The wanted profile.
    pub closed spec fn wanted(self) -> ProfileView {
        self.profile@
    }

    /// The queries active on the connection.
    pub closed spec fn active(self) -> Seq<Seq<char>> {
        texts(self.active_queries@)
    }

    /// Whether the wanted profile still has to be applied.
    pub closed spec fn is_pending(self) -> bool {
        self.pending
    }

    /// Spectator profile, nothing active, application pending.
    pub fn new() -> (res: Self)
        ensures
            res.wanted() == ProfileView::Spectator,
            res.active() == Seq::<Seq<char>>::empty(),
            res.is_pending(),
    {
        let res = SpacetimeSubscriptionManager {
            profile: SubscriptionProfile::Spectator,
            active_queries: Vec::new(),
            pending: true,
        };
        assert(texts(res.active_queries@) =~= Seq::<Seq<char>>::empty());
        res
    }

    /// Switches to `profile`. Returns whether it differs from the wanted one;
    /// only then is it staged for application.
    pub fn set_profile(&mut self, profile: SubscriptionProfile) -> (res: bool)
        ensures
            res == (old(self).wanted() != profile@),
            final(self).wanted() == profile@,
            final(self).active() == old(self).active(),
            final(self).is_pending() == (res || old(self).is_pending()),
    {
        if same_profile(&self.profile, &profile) {
            return false;
        }
        self.profile = profile;
        self.pending = true;
        true
    }

    pub fn set_spectator(&mut self) -> (res: bool)
        ensures
            res == (old(self).wanted() != ProfileView::Spectator),
            final(self).wanted() == ProfileView::Spectator,
            final(self).active() == old(self).active(),
            final(self).is_pending() == (res || old(self).is_pending()),
    {
        self.set_profile(SubscriptionProfile::Spectator)
    }

    pub fn set_editor(&mut self) -> (res: bool)
        ensures
            res == (old(self).wanted() != ProfileView::Editor),
            final(self).wanted() == ProfileView::Editor,
            final(self).active() == old(self).active(),
            final(self).is_pending() == (res || old(self).is_pending()),
    {
        self.set_profile(SubscriptionProfile::Editor)
    }

    pub fn set_editor_debug(&mut self) -> (res: bool)
        ensures
            res == (old(self).wanted() != ProfileView::EditorDebug),
            final(self).wanted() == ProfileView::EditorDebug,
            final(self).active() == old(self).active(),
            final(self).is_pending() == (res || old(self).is_pending()),
    {
        self.set_profile(SubscriptionProfile::EditorDebug)
    }

    pub fn set_editor_debug_entities(&mut self, entity_ids: Vec<u64>) -> (res: bool)
        ensures
            res == (old(self).wanted() != ProfileView::EditorDebugEntities(entity_ids@)),
            final(self).wanted() == ProfileView::EditorDebugEntities(entity_ids@),
            final(self).active() == old(self).active(),
            final(self).is_pending() == (res || old(self).is_pending()),
    {
        self.set_profile(SubscriptionProfile::EditorDebugEntities(entity_ids))
    }

    pub fn set_player(&mut self, entity_id: u64) -> (res: bool)
        ensures
            res == (old(self).wanted() != ProfileView::Player(entity_id)),
            final(self).wanted() == ProfileView::Player(entity_id),
            final(self).active() == old(self).active(),
            final(self).is_pending() == (res || old(self).is_pending()),
    {
        self.set_profile(SubscriptionProfile::Player(entity_id))
    }

    /// Switches to a custom query set, normalised (deduplicated and sorted).
    pub fn set_custom(&mut self, queries: Vec<String>) -> (res: bool)
        ensures
            final(self).wanted() matches ProfileView::Custom(q) && is_normal_form(
                texts(queries@),
                q,
            ),
            res == (old(self).wanted() != final(self).wanted()),
            final(self).active() == old(self).active(),
            final(self).is_pending() == (res || old(self).is_pending()),
    {
        self.set_profile(SubscriptionProfile::Custom(normalize_queries(queries)))
    }

    /// Mirrors an editor selection: a selected entity narrows debug
    /// telemetry to it, no selection falls back to the plain editor profile.
    pub fn set_debug_focus(&mut self, entity_id: Option<u64>) -> (res: bool)
        ensures
            final(self).wanted() == match entity_id {
                Some(id) => ProfileView::EditorDebugEntities(seq![id]),
                None => ProfileView::Editor,
            },
            res == (old(self).wanted() != final(self).wanted()),
            final(self).active() == old(self).active(),
            final(self).is_pending() == (res || old(self).is_pending()),
    {
        match entity_id {
            Some(id) => {
                let ids = vec![id];
                assert(ids@ =~= seq![id]);
                self.set_editor_debug_entities(ids)
            },
            None => self.set_editor(),
        }
    }

    pub fn is_spectator(&self) -> (res: bool)
        ensures
            res == (self.wanted() == ProfileView::Spectator),
    {
        matches!(self.profile, SubscriptionProfile::Spectator)
    }

    /// The wanted profile.
    pub fn profile(&self) -> (res: &SubscriptionProfile)
        ensures
            res@ == self.wanted(),
    {
        &self.profile
    }

    /// The queries active on the connection.
    pub fn active_queries(&self) -> (res: &Vec<String>)
        ensures
            texts(res@) == self.active(),
    {
        &self.active_queries
    }

    /// Whether the wanted profile still has to be applied.
    pub fn pending(&self) -> (res: bool)
        ensures
            res == self.is_pending(),
    {
        self.pending
    }

    /// A lost connection drops every active query and stages the wanted
    /// profile again.
    pub fn reset_connection(&mut self)
        ensures
            final(self).wanted() == old(self).wanted(),
            final(self).active() == Seq::<Seq<char>>::empty(),
            final(self).is_pending(),
    {
        self.active_queries = Vec::new();
        self.pending = true;
        assert(texts(self.active_queries@) =~= Seq::<Seq<char>>::empty());
    }

    /// Whether the wanted profile should be applied now: it is staged and
    /// the connection is up.
    pub fn apply_due(&self, connected: bool) -> (res: bool)
        ensures
            res == (self.is_pending() && connected),
    {
        self.pending && connected
    }

    /// Whether applying `queries` needs a subscribe call (they differ from
    /// the active ones).
    pub fn needs_subscribe(&self, queries: &Vec<String>) -> (res: bool)
        ensures
            res == (self.active() != texts(queries@)),
    {
        !same_texts(&self.active_queries, queries)
    }

    /// Marks the wanted profile as applied with `queries` active.
    pub fn complete_apply(&mut self, queries: Vec<String>)
        ensures
            final(self).wanted() == old(self).wanted(),
            final(self).active() == texts(queries@),
            !final(self).is_pending(),
    {
        self.active_queries = queries;
        self.pending = false;
    }
}

} // verus!
