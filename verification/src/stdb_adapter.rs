//! Plain data and decisions of the SpacetimeDB client adapter: errors, the
//! Rust SDK adapter vocabulary, action hints, and topology-feed parity
//! reports.

use vstd::prelude::*;
use crate::decimal::{decimal_digits, decimal_string};
use crate::entity::SkillKind;

verus! {

/// Errors from the SpacetimeDB client adapter.
#[derive(Debug, Clone)]
pub enum StdbClientError {
    /// Not connected to SpacetimeDB.
    NotConnected,
    /// Connection attempt failed.
    Connection(String),
    /// Reducer call failed.
    Reducer(String),
    /// Subscription setup failed.
    Subscription(String),
    /// TOON document ingest failed.
    Document(String),
    /// Invalid state for the requested operation.
    InvalidState(String),
}

impl StdbClientError {
    /// The display text of the error.
    pub fn message(&self) -> (res: String)
        ensures
            res@ == match self {
                StdbClientError::NotConnected => "Not connected to SpacetimeDB"@,
                StdbClientError::Connection(m) => "SpacetimeDB connection error: "@ + m@,
                StdbClientError::Reducer(m) => "SpacetimeDB reducer error: "@ + m@,
                StdbClientError::Subscription(m) => "SpacetimeDB subscription error: "@ + m@,
                StdbClientError::Document(m) => "SpacetimeDB document error: "@ + m@,
                StdbClientError::InvalidState(m) => "SpacetimeDB invalid state: "@ + m@,
            },
    {
        match self {
            StdbClientError::NotConnected => String::from_str("Not connected to SpacetimeDB"),
            StdbClientError::Connection(m) => String::from_str("SpacetimeDB connection error: ").concat(m.as_str()),
            StdbClientError::Reducer(m) => String::from_str("SpacetimeDB reducer error: ").concat(m.as_str()),
            StdbClientError::Subscription(m) => String::from_str("SpacetimeDB subscription error: ").concat(m.as_str()),
            StdbClientError::Document(m) => String::from_str("SpacetimeDB document error: ").concat(m.as_str()),
            StdbClientError::InvalidState(m) => String::from_str("SpacetimeDB invalid state: ").concat(m.as_str()),
        }
    }
}

/// Select how a thin Rust SDK adapter host should wire the underlying client.
#[derive(Debug, Clone, Copy, PartialEq, Eq, Structural)]
pub enum RustSdkAdapterRuntimeMode {
    /// Local deterministic fallback with no generated runtime.
    Emulated,
    /// Generated command/callback seam for deterministic adapter tests.
    GeneratedBinding,
    /// Real generated SpacetimeDB SDK runtime.
    GeneratedSdk,
}

impl Default for RustSdkAdapterRuntimeMode {
    fn default() -> (res: Self)
        ensures
            res == RustSdkAdapterRuntimeMode::Emulated,
    {
        RustSdkAdapterRuntimeMode::Emulated
    }
}

/// Dialog the SDK runtime currently shows.
#[derive(Debug, Clone)]
pub struct RustSdkDialogState {
    pub speaker: String,
    pub prompt: String,
    pub options: Vec<String>,
}

/// Shop the SDK runtime currently has open.
#[derive(Debug, Clone)]
pub struct RustSdkShopState {
    pub shop_name: String,
    pub offer_count: u16,
    pub can_buy: bool,
    pub can_sell: bool,
}

/// Bank the SDK runtime currently has open.
#[derive(Debug, Clone)]
pub struct RustSdkBankState {
    pub bank_name: String,
    pub tab_count: u8,
    pub item_count: u16,
    pub can_deposit: bool,
    pub can_withdraw: bool,
}

/// How the SDK adapter should execute a translated action.
#[derive(Debug, Clone, Copy, PartialEq, Eq, Structural)]
pub enum RustSdkActionExecutionMode {
    /// Immediate low-level call on the SDK runtime.
    Immediate,
    /// Completion-aware helper that may walk, wait, or retry internally.
    CompletionAware,
}

impl Default for RustSdkActionExecutionMode {
    fn default() -> (res: Self)
        ensures
            res == RustSdkActionExecutionMode::Immediate,
    {
        RustSdkActionExecutionMode::Immediate
    }
}

/// An action the SDK adapter cannot translate.
#[derive(Debug, Clone, PartialEq, Eq)]
pub enum RustSdkActionAdapterError {
    UnsupportedAction { action: &'static str, reason: String },
}

impl RustSdkActionAdapterError {
    /// The display text of the error.
    pub fn message(&self) -> (res: String)
        ensures
            self matches RustSdkActionAdapterError::UnsupportedAction { action, reason }
                && res@ == "unsupported Rust SDK action "@ + action@ + ": "@ + reason@,
    {
        match self {
            RustSdkActionAdapterError::UnsupportedAction { action, reason } => {
                let mut res = String::from_str("unsupported Rust SDK action ");
                res.append(action);
                res.append(": ");
                res.append(reason.as_str());
                res
            },
        }
    }
}

/// How loudly an agent speaks.
#[derive(Debug, Clone, Copy, PartialEq, Eq, Structural)]
pub enum SpeakVolume {
    Whisper,
    Normal,
    Shout,
}

/// A game action as the SDK adapter receives it. Entities are named by
/// their ids. Payloads that the adapter only carries through are type
/// parameters: `V` a planar vector (movement direction, look-at point,
/// spawn position), `R` a rotation angle, `T` an ability target and `C` a
/// companion command.
#[derive(Debug, Clone)]
pub enum GameAction<V, R, T, C> {
    Move { direction: V },
    Stop,
    Rotate { angle: R },
    LookAt { target: V },
    Attack,
    AttackTarget { target: u64 },
    UseAbility { slot: u8, target: Option<T> },
    CaptureCreature { target: u64, tool_slot: Option<u8> },
    SummonCompanion { slot: u8 },
    CommandCompanion { slot: u8, command: C, target: Option<u64> },
    Interact,
    InteractWith { target: u64 },
    Pickup { target: u64 },
    Drop { slot: u8 },
    UseItem { slot: u8 },
    GatherResource { target: u64, skill: SkillKind },
    Loot { target: u64 },
    Speak { message: String, volume: SpeakVolume },
    Signal { signal_type: String, data: String },
    SetAutoRetaliate { enabled: bool },
    Idle,
    Spawn { prefab: String, position: V },
}

/// Repo-owned action intent produced before a concrete SDK method call.
#[derive(Debug, Clone)]
pub enum RustSdkActionIntent<V, R, T, C> {
    MoveDirection { direction: V },
    Stop,
    Rotate { angle: R },
    LookAtPosition { target: V },
    AttackCurrentTarget,
    AttackEntity { entity_id: u64 },
    UseAbility { slot: u8, target: Option<T> },
    CaptureCreature { entity_id: u64, tool_slot: Option<u8> },
    SummonCompanion { slot: u8 },
    CommandCompanion { slot: u8, command: C, target_entity_id: Option<u64> },
    InteractNearest,
    InteractEntity { entity_id: u64 },
    PickupEntity { entity_id: u64 },
    DropInventorySlot { slot: u8 },
    UseInventorySlot { slot: u8 },
    GatherEntity { entity_id: u64, skill: SkillKind },
    LootEntity { entity_id: u64 },
    Speak { message: String, volume: SpeakVolume },
    Signal { signal_type: String, data: String },
    SetAutoRetaliate { enabled: bool },
    Idle,
}

/// A translated action: how to execute it and what to do.
#[derive(Debug, Clone)]
pub struct RustSdkActionPlan<V, R, T, C> {
    pub execution_mode: RustSdkActionExecutionMode,
    pub intent: RustSdkActionIntent<V, R, T, C>,
}

/// The intent of `action`: each targeted entity becomes its id, every other
/// payload is carried over unchanged. A spawn request has none.
pub open spec fn spec_action_intent<V, R, T, C>(action: GameAction<V, R, T, C>) -> Option<RustSdkActionIntent<V, R, T, C>> {
    match action {
        GameAction::Move { direction } => Some(RustSdkActionIntent::MoveDirection { direction }),
        GameAction::Stop => Some(RustSdkActionIntent::Stop),
        GameAction::Rotate { angle } => Some(RustSdkActionIntent::Rotate { angle }),
        GameAction::LookAt { target } => Some(RustSdkActionIntent::LookAtPosition { target }),
        GameAction::Attack => Some(RustSdkActionIntent::AttackCurrentTarget),
        GameAction::AttackTarget { target } => Some(RustSdkActionIntent::AttackEntity { entity_id: target }),
        GameAction::UseAbility { slot, target } => Some(RustSdkActionIntent::UseAbility { slot, target }),
        GameAction::CaptureCreature { target, tool_slot } => Some(
            RustSdkActionIntent::CaptureCreature { entity_id: target, tool_slot },
        ),
        GameAction::SummonCompanion { slot } => Some(RustSdkActionIntent::SummonCompanion { slot }),
        GameAction::CommandCompanion { slot, command, target } => Some(
            RustSdkActionIntent::CommandCompanion { slot, command, target_entity_id: target },
        ),
        GameAction::Interact => Some(RustSdkActionIntent::InteractNearest),
        GameAction::InteractWith { target } => Some(RustSdkActionIntent::InteractEntity { entity_id: target }),
        GameAction::Pickup { target } => Some(RustSdkActionIntent::PickupEntity { entity_id: target }),
        GameAction::Drop { slot } => Some(RustSdkActionIntent::DropInventorySlot { slot }),
        GameAction::UseItem { slot } => Some(RustSdkActionIntent::UseInventorySlot { slot }),
        GameAction::GatherResource { target, skill } => Some(
            RustSdkActionIntent::GatherEntity { entity_id: target, skill },
        ),
        GameAction::Loot { target } => Some(RustSdkActionIntent::LootEntity { entity_id: target }),
        GameAction::Speak { message, volume } => Some(RustSdkActionIntent::Speak { message, volume }),
        GameAction::Signal { signal_type, data } => Some(RustSdkActionIntent::Signal { signal_type, data }),
        GameAction::SetAutoRetaliate { enabled } => Some(RustSdkActionIntent::SetAutoRetaliate { enabled }),
        GameAction::Idle => Some(RustSdkActionIntent::Idle),
        GameAction::Spawn { .. } => None,
    }
}

/// Whether an action goes through a completion-aware SDK helper:
/// interacting, picking up, gathering and looting may walk, wait or retry.
pub open spec fn is_completion_aware<V, R, T, C>(action: GameAction<V, R, T, C>) -> bool {
    action is Interact || action is InteractWith || action is Pickup || action is GatherResource
        || action is Loot
}

/// Translates `action` into an SDK action plan: completion-aware for
/// interacting, picking up, gathering and looting, immediate otherwise,
/// with the intent of `spec_action_intent`. Spawning is refused:
/// world-authority spawn requests stay outside the adapter.
pub fn build_rust_sdk_action_plan<V: Copy, R: Copy, T: Copy, C: Copy>(
    action: &GameAction<V, R, T, C>,
) -> (res: Result<RustSdkActionPlan<V, R, T, C>, RustSdkActionAdapterError>)
    ensures
        *action is Spawn ==> (res matches Err(RustSdkActionAdapterError::UnsupportedAction { action, reason }) && action@
            == "Spawn"@ && reason@ == "world-authority spawn requests stay outside the SDK adapter"@),
        !(*action is Spawn) ==> (res matches Ok(plan) && Some(plan.intent) == spec_action_intent(*action)
            && plan.execution_mode == (if is_completion_aware(*action) {
            RustSdkActionExecutionMode::CompletionAware
        } else {
            RustSdkActionExecutionMode::Immediate
        })),
{
    let immediate = RustSdkActionExecutionMode::Immediate;
    let aware = RustSdkActionExecutionMode::CompletionAware;
    let (execution_mode, intent) = match action {
        GameAction::Move { direction } => (immediate, RustSdkActionIntent::MoveDirection { direction: *direction }),
        GameAction::Stop => (immediate, RustSdkActionIntent::Stop),
        GameAction::Rotate { angle } => (immediate, RustSdkActionIntent::Rotate { angle: *angle }),
        GameAction::LookAt { target } => (immediate, RustSdkActionIntent::LookAtPosition { target: *target }),
        GameAction::Attack => (immediate, RustSdkActionIntent::AttackCurrentTarget),
        GameAction::AttackTarget { target } => (immediate, RustSdkActionIntent::AttackEntity { entity_id: *target }),
        GameAction::UseAbility { slot, target } => (
            immediate,
            RustSdkActionIntent::UseAbility { slot: *slot, target: *target },
        ),
        GameAction::CaptureCreature { target, tool_slot } => (
            immediate,
            RustSdkActionIntent::CaptureCreature { entity_id: *target, tool_slot: *tool_slot },
        ),
        GameAction::SummonCompanion { slot } => (immediate, RustSdkActionIntent::SummonCompanion { slot: *slot }),
        GameAction::CommandCompanion { slot, command, target } => (
            immediate,
            RustSdkActionIntent::CommandCompanion { slot: *slot, command: *command, target_entity_id: *target },
        ),
        GameAction::Interact => (aware, RustSdkActionIntent::InteractNearest),
        GameAction::InteractWith { target } => (aware, RustSdkActionIntent::InteractEntity { entity_id: *target }),
        GameAction::Pickup { target } => (aware, RustSdkActionIntent::PickupEntity { entity_id: *target }),
        GameAction::Drop { slot } => (immediate, RustSdkActionIntent::DropInventorySlot { slot: *slot }),
        GameAction::UseItem { slot } => (immediate, RustSdkActionIntent::UseInventorySlot { slot: *slot }),
        GameAction::GatherResource { target, skill } => (
            aware,
            RustSdkActionIntent::GatherEntity { entity_id: *target, skill: *skill },
        ),
        GameAction::Loot { target } => (aware, RustSdkActionIntent::LootEntity { entity_id: *target }),
        GameAction::Speak { message, volume } => (
            immediate,
            RustSdkActionIntent::Speak { message: message.clone(), volume: *volume },
        ),
        GameAction::Signal { signal_type, data } => (
            immediate,
            RustSdkActionIntent::Signal { signal_type: signal_type.clone(), data: data.clone() },
        ),
        GameAction::SetAutoRetaliate { enabled } => (
            immediate,
            RustSdkActionIntent::SetAutoRetaliate { enabled: *enabled },
        ),
        GameAction::Idle => (immediate, RustSdkActionIntent::Idle),
        GameAction::Spawn { .. } => {
            return Err(
                RustSdkActionAdapterError::UnsupportedAction {
                    action: "Spawn",
                    reason: String::from_str("world-authority spawn requests stay outside the SDK adapter"),
                },
            );
        },
    };
    Ok(RustSdkActionPlan { execution_mode, intent })
}

/// The agent identity the adapter gives a remote entity: the UUID whose
/// 128-bit value is the entity id.
pub fn agent_id_from_entity(entity_id: u64) -> (res: u128)
    ensures
        res == entity_id as u128,
{
    entity_id as u128
}

/// `actions` with `hint` appended unless it is already there.
pub open spec fn push_unique(actions: Seq<Seq<char>>, hint: Seq<char>) -> Seq<Seq<char>> {
    if actions.contains(hint) {
        actions
    } else {
        actions.push(hint)
    }
}

/// The texts of a sequence of strings.
pub open spec fn texts(v: Seq<String>) -> Seq<Seq<char>> {
    v.map_values(|s: String| s@)
}

/// Appends `hint` unless an equal hint is already listed.
pub fn push_unique_action_hint(actions: &mut Vec<String>, hint: &str)
    ensures
        texts(final(actions)@) == push_unique(texts(old(actions)@), hint@),
{
    let ghost before = texts(actions@);
    let mut i: usize = 0;
    while i < actions.len()
        invariant
            i <= actions@.len(),
            texts(actions@) == before,
            forall|j: int| 0 <= j < i ==> actions@[j]@ != hint@,
        decreases actions.len() - i,
    {
        if string_eq_str(&actions[i], hint) {
            assert(before[i as int] == hint@);
            return;
        }
        i = i + 1;
    }
    assert(!before.contains(hint@)) by {
        if before.contains(hint@) {
            let k = choose|k: int| 0 <= k < before.len() && before[k] == hint@;
            assert(actions@[k]@ == hint@);
        }
    }
    actions.push(String::from_str(hint));
    assert(texts(actions@) =~= before.push(hint@));
}

fn string_eq_str(a: &String, b: &str) -> (res: bool)
    ensures
        res == (a@ == b@),
{
    let bs = String::from_str(b);
    *a == bs
}

/// The action hints offered by an SDK state: the listed hints plus, without
/// duplicates, dialog continuation and selection, shop buy/sell and bank
/// deposit/withdraw where the open dialog, shop or bank allows them.
pub open spec fn spec_augmented_actions(
    base: Seq<Seq<char>>,
    dialog_open: bool,
    shop: Option<(bool, bool)>,
    bank: Option<(bool, bool)>,
) -> Seq<Seq<char>> {
    let a1 = if dialog_open {
        push_unique(push_unique(base, "Dialog:Continue"@), "Dialog:SelectOption"@)
    } else {
        base
    };
    let a2 = match shop {
        Some((buy, sell)) => {
            let b = if buy {
                push_unique(a1, "Shop:Buy"@)
            } else {
                a1
            };
            if sell {
                push_unique(b, "Shop:Sell"@)
            } else {
                b
            }
        },
        None => a1,
    };
    match bank {
        Some((deposit, withdraw)) => {
            let b = if deposit {
                push_unique(a2, "Bank:Deposit"@)
            } else {
                a2
            };
            if withdraw {
                push_unique(b, "Bank:Withdraw"@)
            } else {
                b
            }
        },
        None => a2,
    }
}

/// Adds the context-dependent action hints of an SDK state to `actions`.
pub fn augment_available_actions(
    actions: &mut Vec<String>,
    dialog: Option<&RustSdkDialogState>,
    shop: Option<&RustSdkShopState>,
    bank: Option<&RustSdkBankState>,
)
    ensures
        texts(final(actions)@) == spec_augmented_actions(
            texts(old(actions)@),
            dialog is Some,
            match shop {
                Some(s) => Some((s.can_buy, s.can_sell)),
                None => None,
            },
            match bank {
                Some(b) => Some((b.can_deposit, b.can_withdraw)),
                None => None,
            },
        ),
{
    if dialog.is_some() {
        push_unique_action_hint(actions, "Dialog:Continue");
        push_unique_action_hint(actions, "Dialog:SelectOption");
    }
    if let Some(shop) = shop {
        if shop.can_buy {
            push_unique_action_hint(actions, "Shop:Buy");
        }
        if shop.can_sell {
            push_unique_action_hint(actions, "Shop:Sell");
        }
    }
    if let Some(bank) = bank {
        if bank.can_deposit {
            push_unique_action_hint(actions, "Bank:Deposit");
        }
        if bank.can_withdraw {
            push_unique_action_hint(actions, "Bank:Withdraw");
        }
    }
}

/// One boolean benchmark check for authority-fed topology ingestion.
#[derive(Debug, Clone)]
pub struct TopologyFeedCheck {
    pub metric: String,
    pub passed: bool,
    pub expected: String,
    pub observed: String,
}

/// Per-path topology parity report for one resolved world.
#[derive(Debug, Clone)]
pub struct TopologyFeedWorldPathReport {
    pub resolved_world_id: Option<String>,
    pub resolved_world_matches: bool,
    pub quest_binding_matches: bool,
    pub applied_world_state_matches: bool,
    pub evaluation_matches: bool,
    pub world_tournament_orchestration_matches: bool,
    pub tournament_control_plane_matches: bool,
    pub tournament_orchestration_matches: bool,
}

/// Combined authority-row and generated-runtime parity report for one world.
#[derive(Debug, Clone)]
pub struct TopologyFeedWorldReport {
    pub world_id: String,
    pub authority_row: TopologyFeedWorldPathReport,
    pub generated_runtime: TopologyFeedWorldPathReport,
}

/// Benchmark artifact for replaying a topology bundle through the ingestion paths.
#[derive(Debug, Clone)]
pub struct TopologyFeedMeasurementsReport {
    pub schema_version: u32,
    pub scenario_id: String,
    pub profile_id: String,
    pub world_count: usize,
    pub worlds: Vec<TopologyFeedWorldReport>,
    pub checks: Vec<TopologyFeedCheck>,
}

/// Whether every check passed.
pub open spec fn all_passed(checks: Seq<TopologyFeedCheck>) -> bool {
    forall|i: int| 0 <= i < checks.len() ==> (#[trigger] checks[i]).passed
}

impl TopologyFeedMeasurementsReport {
    /// Whether every check of the report passed (vacuously so without checks).
    pub fn all_checks_passed(&self) -> (res: bool)
        ensures
            res == all_passed(self.checks@),
    {
        let mut i: usize = 0;
        while i < self.checks.len()
            invariant
                i <= self.checks@.len(),
                forall|j: int| 0 <= j < i ==> (#[trigger] self.checks@[j]).passed,
            decreases self.checks.len() - i,
        {
            if !self.checks[i].passed {
                return false;
            }
            i = i + 1;
        }
        true
    }
}

/// Configuration for exercising the generated path through the real SpacetimeDB SDK.
#[derive(Debug, Clone)]
pub struct LiveGeneratedSdkTopologyFeedConfig {
    pub host: String,
    pub auth_token: Option<String>,
    pub timeout_ms: u64,
    pub poll_interval_ms: u64,
}

impl Default for LiveGeneratedSdkTopologyFeedConfig {
    fn default() -> (res: Self)
        ensures
            res.host@ == "http://localhost:3000"@,
            res.auth_token is None,
            res.timeout_ms == 5000,
            res.poll_interval_ms == 10,
    {
        LiveGeneratedSdkTopologyFeedConfig {
            host: String::from_str("http://localhost:3000"),
            auth_token: None,
            timeout_ms: 5000,
            poll_interval_ms: 10,
        }
    }
}

/// Select how the generated half of the topology benchmark should run.
#[derive(Debug, Clone)]
pub enum TopologyFeedGeneratedRuntimeMode {
    /// Deterministic command-driven generated runtime used by CI.
    DeterministicBinding,
    /// Real generated SDK runtime backed by SpacetimeDB's generated Rust bindings.
    LiveSdk(LiveGeneratedSdkTopologyFeedConfig),
}

impl Default for TopologyFeedGeneratedRuntimeMode {
    fn default() -> (res: Self)
        ensures
            res is DeterministicBinding,
    {
        TopologyFeedGeneratedRuntimeMode::DeterministicBinding
    }
}

/// Optional knobs for topology feed benchmarking.
#[derive(Debug, Clone)]
pub struct TopologyFeedMeasurementsOptions {
    pub generated_runtime_mode: TopologyFeedGeneratedRuntimeMode,
}

impl Default for TopologyFeedMeasurementsOptions {
    fn default() -> (res: Self)
        ensures
            res.generated_runtime_mode is DeterministicBinding,
    {
        TopologyFeedMeasurementsOptions {
            generated_runtime_mode: TopologyFeedGeneratedRuntimeMode::DeterministicBinding,
        }
    }
}

/// Builds one parity check.
pub fn build_topology_feed_check(metric: String, passed: bool, expected: String, observed: String) -> (res:
    TopologyFeedCheck)
    ensures
        res.metric@ == metric@,
        res.passed == passed,
        res.expected@ == expected@,
        res.observed@ == observed@,
{
    TopologyFeedCheck { metric, passed, expected, observed }
}

/// The lowercase hexadecimal digit of `n` (0 to 15).
pub open spec fn hex_digit(n: int) -> char {
    if n < 10 {
        ('0' as int + n) as char
    } else {
        ('a' as int + n - 10) as char
    }
}

/// How JSON writes `c` inside a string: quote and backslash behind a
/// backslash, the usual short escapes for backspace, tab, line feed, form
/// feed and carriage return, `\u00XX` for any other control character
/// below 0x20, and every other character as itself.
pub open spec fn json_escape_char(c: char) -> Seq<char> {
    if c == '"' {
        seq!['\\', '"']
    } else if c == '\\' {
        seq!['\\', '\\']
    } else if c == '\x08' {
        seq!['\\', 'b']
    } else if c == '\t' {
        seq!['\\', 't']
    } else if c == '\n' {
        seq!['\\', 'n']
    } else if c == '\x0C' {
        seq!['\\', 'f']
    } else if c == '\r' {
        seq!['\\', 'r']
    } else if (c as int) < 0x20 {
        seq!['\\', 'u', '0', '0', hex_digit(c as int / 16), hex_digit(c as int % 16)]
    } else {
        seq![c]
    }
}

/// The escaped contents of a JSON string holding `s`.
pub open spec fn json_escaped(s: Seq<char>) -> Seq<char>
    decreases s.len(),
{
    if s.len() == 0 {
        Seq::empty()
    } else {
        json_escaped(s.drop_last()) + json_escape_char(s.last())
    }
}

/// The JSON text of an optional string: `null`, or the string quoted and
/// escaped.
pub open spec fn json_optional_text(value: Option<Seq<char>>) -> Seq<char> {
    match value {
        None => "null"@,
        Some(s) => seq!['"'] + json_escaped(s) + seq!['"'],
    }
}

/// `serde_json::to_string` on an optional string (compact formatting):
/// `null` for `None`, and for `Some` the string between double quotes with
/// the escapes of `json_escape_char`. Serialising an `Option<String>` does
/// not fail; were it to, the value's debug form would be returned instead,
/// as the adapter does.
#[verifier::external_body]
fn json_encode_optional_text(value: &Option<String>) -> (res: String)
    ensures
        res@ == json_optional_text(
            match value {
                Some(s) => Some(s@),
                None => None,
            },
        ),
{
    match serde_json::to_string(value) {
        Ok(text) => text,
        Err(_) => format!("{:?}", value),
    }
}

/// The text `bool::to_string` gives.
pub open spec fn bool_text(b: bool) -> Seq<char> {
    if b {
        "true"@
    } else {
        "false"@
    }
}

fn bool_string(b: bool) -> (res: String)
    ensures
        res@ == bool_text(b),
{
    if b {
        String::from_str("true")
    } else {
        String::from_str("false")
    }
}

/// `path.world.metric`.
pub open spec fn metric_name(path_name: Seq<char>, world_id: Seq<char>, metric: Seq<char>) -> Seq<char> {
    path_name + "."@ + world_id + "."@ + metric
}

fn build_metric_name(path_name: &str, world_id: &str, metric: &str) -> (res: String)
    ensures
        res@ == metric_name(path_name@, world_id@, metric@),
{
    let mut res = String::from_str(path_name);
    res.append(".");
    res.append(world_id);
    res.append(".");
    res.append(metric);
    res
}

fn bool_check(path_name: &str, world_id: &str, metric: &str, passed: bool) -> (res: TopologyFeedCheck)
    ensures
        res.metric@ == metric_name(path_name@, world_id@, metric@),
        res.passed == passed,
        res.expected@ == "true"@,
        res.observed@ == bool_text(passed),
{
    build_topology_feed_check(
        build_metric_name(path_name, world_id, metric),
        passed,
        String::from_str("true"),
        bool_string(passed),
    )
}

/// Whether the resolved world id equals `world_id`.
pub open spec fn resolved_is(path: TopologyFeedWorldPathReport, world_id: Seq<char>) -> bool {
    match path.resolved_world_id {
        Some(id) => id@ == world_id,
        None => false,
    }
}

/// The eight parity checks of one ingestion path for one world, in order:
/// the seven flags of the path report (the first observing the JSON text of
/// the resolved world id), then whether the resolved id is the world's id.
pub fn collect_topology_feed_checks(world_id: &str, path_name: &str, path: &TopologyFeedWorldPathReport) -> (res:
    Vec<TopologyFeedCheck>)
    ensures
        res@.len() == 8,
        res@[0].metric@ == metric_name(path_name@, world_id@, "resolved_world_matches"@),
        res@[0].passed == path.resolved_world_matches,
        res@[0].expected@ == "true"@,
        res@[0].observed@ == json_optional_text(
            match path.resolved_world_id {
                Some(s) => Some(s@),
                None => None,
            },
        ),
        res@[1].metric@ == metric_name(path_name@, world_id@, "quest_binding_matches"@),
        res@[1].passed == path.quest_binding_matches,
        res@[1].observed@ == bool_text(path.quest_binding_matches),
        res@[2].metric@ == metric_name(path_name@, world_id@, "applied_world_state_matches"@),
        res@[2].passed == path.applied_world_state_matches,
        res@[2].observed@ == bool_text(path.applied_world_state_matches),
        res@[3].metric@ == metric_name(path_name@, world_id@, "evaluation_matches"@),
        res@[3].passed == path.evaluation_matches,
        res@[3].observed@ == bool_text(path.evaluation_matches),
        res@[4].metric@ == metric_name(
            path_name@,
            world_id@,
            "world_tournament_orchestration_matches"@,
        ),
        res@[4].passed == path.world_tournament_orchestration_matches,
        res@[4].observed@ == bool_text(path.world_tournament_orchestration_matches),
        res@[5].metric@ == metric_name(path_name@, world_id@, "tournament_control_plane_matches"@),
        res@[5].passed == path.tournament_control_plane_matches,
        res@[5].observed@ == bool_text(path.tournament_control_plane_matches),
        res@[6].metric@ == metric_name(path_name@, world_id@, "tournament_orchestration_matches"@),
        res@[6].passed == path.tournament_orchestration_matches,
        res@[6].observed@ == bool_text(path.tournament_orchestration_matches),
        forall|i: int| 1 <= i < 7 ==> (#[trigger] res@[i]).expected@ == "true"@,
        res@[7].metric@ == metric_name(path_name@, world_id@, "resolved_world_id"@),
        res@[7].passed == resolved_is(*path, world_id@),
        res@[7].expected@ == world_id@,
        res@[7].observed@ == match path.resolved_world_id {
            Some(id) => id@,
            None => "null"@,
        },
{
    let mut checks: Vec<TopologyFeedCheck> = Vec::new();
    checks.push(
        build_topology_feed_check(
            build_metric_name(path_name, world_id, "resolved_world_matches"),
            path.resolved_world_matches,
            String::from_str("true"),
            json_encode_optional_text(&path.resolved_world_id),
        ),
    );
    checks.push(bool_check(path_name, world_id, "quest_binding_matches", path.quest_binding_matches));
    checks.push(
        bool_check(path_name, world_id, "applied_world_state_matches", path.applied_world_state_matches),
    );
    checks.push(bool_check(path_name, world_id, "evaluation_matches", path.evaluation_matches));
    checks.push(
        bool_check(
            path_name,
            world_id,
            "world_tournament_orchestration_matches",
            path.world_tournament_orchestration_matches,
        ),
    );
    checks.push(
        bool_check(
            path_name,
            world_id,
            "tournament_control_plane_matches",
            path.tournament_control_plane_matches,
        ),
    );
    checks.push(
        bool_check(
            path_name,
            world_id,
            "tournament_orchestration_matches",
            path.tournament_orchestration_matches,
        ),
    );
    let resolved_matches = match &path.resolved_world_id {
        Some(id) => string_eq_str(id, world_id),
        None => false,
    };
    let observed = match &path.resolved_world_id {
        Some(id) => id.clone(),
        None => String::from_str("null"),
    };
    checks.push(
        build_topology_feed_check(
            build_metric_name(path_name, world_id, "resolved_world_id"),
            resolved_matches,
            String::from_str(world_id),
            observed,
        ),
    );
    checks
}

/// `values` joined with `separator` between consecutive items.
pub open spec fn joined(values: Seq<Seq<char>>, separator: Seq<char>) -> Seq<char>
    decreases values.len(),
{
    if values.len() == 0 {
        Seq::empty()
    } else if values.len() == 1 {
        values[0]
    } else {
        joined(values.drop_last(), separator) + separator + values.last()
    }
}

/// Joins the texts of `values` with `separator` between consecutive items.
pub fn join_with(values: &Vec<String>, separator: &str) -> (res: String)
    ensures
        res@ == joined(texts(values@), separator@),
{
    let mut res = String::new();
    let mut i: usize = 0;
    while i < values.len()
        invariant
            i <= values@.len(),
            res@ == joined(texts(values@.take(i as int)), separator@),
        decreases values@.len() - i,
    {
        proof {
            assert(texts(values@.take(i + 1)).drop_last() =~= texts(values@.take(i as int)));
            assert(texts(values@.take(i + 1)).last() == values@[i as int]@);
            assert(texts(values@.take(i + 1)).len() == i + 1);
        }
        if i > 0 {
            res.append(separator);
        } else {
            assert(texts(values@.take(1))[0] == values@[0]@);
        }
        res.append(values[i].as_str());
        i = i + 1;
    }
    proof {
        assert(values@.take(i as int) =~= values@);
    }
    res
}

/// The context line describing an open dialog.
pub open spec fn dialog_text(dialog: RustSdkDialogState) -> Seq<char> {
    let options = texts(dialog.options@);
    "dialog:"@ + dialog.speaker@ + " prompt=\""@ + dialog.prompt@ + "\" options=["@ + (if options.len() == 0 {
        "no options"@
    } else {
        joined(options, ", "@)
    }) + "]"@
}

/// The context line describing an open shop.
pub open spec fn shop_text(shop: RustSdkShopState) -> Seq<char> {
    "shop:"@ + shop.shop_name@ + " offers="@ + decimal_digits(shop.offer_count as nat) + " can_buy="@
        + bool_text(shop.can_buy) + " can_sell="@ + bool_text(shop.can_sell)
}

/// The context line describing an open bank.
pub open spec fn bank_text(bank: RustSdkBankState) -> Seq<char> {
    "bank:"@ + bank.bank_name@ + " tabs="@ + decimal_digits(bank.tab_count as nat) + " items="@
        + decimal_digits(bank.item_count as nat) + " deposit="@ + bool_text(bank.can_deposit)
        + " withdraw="@ + bool_text(bank.can_withdraw)
}

/// The context lines an SDK state adds to the agent's direct messages: one
/// for an open dialog, shop and bank each, in that order.
pub open spec fn spec_context_texts(
    dialog: Option<RustSdkDialogState>,
    shop: Option<RustSdkShopState>,
    bank: Option<RustSdkBankState>,
) -> Seq<Seq<char>> {
    let a: Seq<Seq<char>> = match dialog {
        Some(d) => seq![dialog_text(d)],
        None => Seq::empty(),
    };
    let b = match shop {
        Some(s) => a.push(shop_text(s)),
        None => a,
    };
    match bank {
        Some(k) => b.push(bank_text(k)),
        None => b,
    }
}

/// Builds the context lines of an SDK state (see [`spec_context_texts`]).
pub fn context_message_texts(
    dialog: &Option<RustSdkDialogState>,
    shop: &Option<RustSdkShopState>,
    bank: &Option<RustSdkBankState>,
) -> (res: Vec<String>)
    ensures
        texts(res@) == spec_context_texts(*dialog, *shop, *bank),
{
    let mut lines: Vec<String> = Vec::new();
    if let Some(d) = dialog {
        let options = if d.options.len() == 0 {
            String::from_str("no options")
        } else {
            join_with(&d.options, ", ")
        };
        let mut text = String::from_str("dialog:");
        text.append(d.speaker.as_str());
        text.append(" prompt=\"");
        text.append(d.prompt.as_str());
        text.append("\" options=[");
        text.append(options.as_str());
        text.append("]");
        lines.push(text);
    }
    let ghost after_dialog = texts(lines@);
    if let Some(s) = shop {
        let mut text = String::from_str("shop:");
        text.append(s.shop_name.as_str());
        text.append(" offers=");
        text.append(decimal_string(s.offer_count as u64).as_str());
        text.append(" can_buy=");
        text.append(bool_string(s.can_buy).as_str());
        text.append(" can_sell=");
        text.append(bool_string(s.can_sell).as_str());
        lines.push(text);
        proof {
            assert(texts(lines@) =~= after_dialog.push(shop_text(*s)));
        }
    }
    let ghost after_shop = texts(lines@);
    if let Some(k) = bank {
        let mut text = String::from_str("bank:");
        text.append(k.bank_name.as_str());
        text.append(" tabs=");
        text.append(decimal_string(k.tab_count as u64).as_str());
        text.append(" items=");
        text.append(decimal_string(k.item_count as u64).as_str());
        text.append(" deposit=");
        text.append(bool_string(k.can_deposit).as_str());
        text.append(" withdraw=");
        text.append(bool_string(k.can_withdraw).as_str());
        lines.push(text);
        proof {
            assert(texts(lines@) =~= after_shop.push(bank_text(*k)));
        }
    }
    proof {
        assert(texts(lines@) =~= spec_context_texts(*dialog, *shop, *bank));
    }
    lines
}

/// The entity an action is aimed at, if it names one.
pub open spec fn action_target<V, R, T, C>(action: GameAction<V, R, T, C>) -> Option<u64> {
    match action {
        GameAction::AttackTarget { target } => Some(target),
        GameAction::CaptureCreature { target, .. } => Some(target),
        GameAction::CommandCompanion { target, .. } => target,
        GameAction::InteractWith { target } => Some(target),
        GameAction::Pickup { target } => Some(target),
        GameAction::GatherResource { target, .. } => Some(target),
        GameAction::Loot { target } => Some(target),
        _ => None,
    }
}

/// The entity an intent is aimed at, if it names one.
pub open spec fn intent_target<V, R, T, C>(intent: RustSdkActionIntent<V, R, T, C>) -> Option<u64> {
    match intent {
        RustSdkActionIntent::AttackEntity { entity_id } => Some(entity_id),
        RustSdkActionIntent::CaptureCreature { entity_id, .. } => Some(entity_id),
        RustSdkActionIntent::CommandCompanion { target_entity_id, .. } => target_entity_id,
        RustSdkActionIntent::InteractEntity { entity_id } => Some(entity_id),
        RustSdkActionIntent::PickupEntity { entity_id } => Some(entity_id),
        RustSdkActionIntent::GatherEntity { entity_id, .. } => Some(entity_id),
        RustSdkActionIntent::LootEntity { entity_id } => Some(entity_id),
        _ => None,
    }
}

/// The slot an action uses, if it names one.
pub open spec fn action_slot<V, R, T, C>(action: GameAction<V, R, T, C>) -> Option<u8> {
    match action {
        GameAction::UseAbility { slot, .. } => Some(slot),
        GameAction::SummonCompanion { slot } => Some(slot),
        GameAction::CommandCompanion { slot, .. } => Some(slot),
        GameAction::Drop { slot } => Some(slot),
        GameAction::UseItem { slot } => Some(slot),
        _ => None,
    }
}

/// The slot an intent uses, if it names one.
pub open spec fn intent_slot<V, R, T, C>(intent: RustSdkActionIntent<V, R, T, C>) -> Option<u8> {
    match intent {
        RustSdkActionIntent::UseAbility { slot, .. } => Some(slot),
        RustSdkActionIntent::SummonCompanion { slot } => Some(slot),
        RustSdkActionIntent::CommandCompanion { slot, .. } => Some(slot),
        RustSdkActionIntent::DropInventorySlot { slot } => Some(slot),
        RustSdkActionIntent::UseInventorySlot { slot } => Some(slot),
        _ => None,
    }
}

/// Translation keeps what an action names: every action but a spawn gets
/// an intent; the intent is aimed at exactly the entity the action is aimed
/// at (an attack on entity `t` attacks entity `t`, not the current target)
/// and uses exactly the slot the action uses; an action without a target
/// gives an intent without one; every other payload is carried over as it
/// is; and the actions run completion-aware are exactly interacting,
/// picking up, gathering and looting.
pub proof fn lemma_action_plan_keeps_targets<V, R, T, C>(action: GameAction<V, R, T, C>)
    ensures
        (action is Spawn) <==> spec_action_intent(action) is None,
        spec_action_intent(action) matches Some(intent) ==> {
            &&& intent_target(intent) == action_target(action)
            &&& intent_slot(intent) == action_slot(action)
        },
        action matches GameAction::AttackTarget { target } ==> spec_action_intent(action) == Some(
            RustSdkActionIntent::<V, R, T, C>::AttackEntity { entity_id: target },
        ),
        action is Attack ==> spec_action_intent(action) == Some(RustSdkActionIntent::<V, R, T, C>::AttackCurrentTarget),
        action matches GameAction::Move { direction } ==> spec_action_intent(action) == Some(
            RustSdkActionIntent::<V, R, T, C>::MoveDirection { direction },
        ),
        action matches GameAction::LookAt { target } ==> spec_action_intent(action) == Some(
            RustSdkActionIntent::<V, R, T, C>::LookAtPosition { target },
        ),
        action matches GameAction::Rotate { angle } ==> spec_action_intent(action) == Some(
            RustSdkActionIntent::<V, R, T, C>::Rotate { angle },
        ),
        action matches GameAction::UseAbility { slot, target } ==> spec_action_intent(action) == Some(
            RustSdkActionIntent::<V, R, T, C>::UseAbility { slot, target },
        ),
        action matches GameAction::CaptureCreature { target, tool_slot } ==> spec_action_intent(action) == Some(
            RustSdkActionIntent::<V, R, T, C>::CaptureCreature { entity_id: target, tool_slot },
        ),
        action matches GameAction::GatherResource { target, skill } ==> spec_action_intent(action) == Some(
            RustSdkActionIntent::<V, R, T, C>::GatherEntity { entity_id: target, skill },
        ),
        action matches GameAction::Speak { message, volume } ==> spec_action_intent(action) == Some(
            RustSdkActionIntent::<V, R, T, C>::Speak { message, volume },
        ),
        action matches GameAction::Signal { signal_type, data } ==> spec_action_intent(action) == Some(
            RustSdkActionIntent::<V, R, T, C>::Signal { signal_type, data },
        ),
        action matches GameAction::SetAutoRetaliate { enabled } ==> spec_action_intent(action) == Some(
            RustSdkActionIntent::<V, R, T, C>::SetAutoRetaliate { enabled },
        ),
        is_completion_aware(action) <==> (action is Interact || action is InteractWith || action is Pickup
            || action is GatherResource || action is Loot),
{
}

} // verus!
