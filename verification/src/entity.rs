//! Authoritative entity classification, interaction affordances and the
//! outcome types of snapshot updates.

use vstd::prelude::*;

verus! {

/// Coarse authoritative classification for world entities.
#[derive(Debug, Clone, Copy, PartialEq, Eq, Structural)]
pub enum EntityKind {
    Unknown,
    Player,
    Npc,
    WildCreature,
    Companion,
    ResourceNode,
    LootContainer,
    Scenery,
}

impl Default for EntityKind {
    fn default() -> (res: Self)
        ensures
            res == EntityKind::Unknown,
    {
        EntityKind::Unknown
    }
}

/// Action affordances exposed to creator/browser tooling from authoritative state.
#[derive(Debug, Clone, Copy, PartialEq, Eq, Structural)]
pub struct EntityInteractionHints {
    pub can_inspect: bool,
    pub can_interact: bool,
    pub can_attack: bool,
    pub can_gather: bool,
    pub can_loot: bool,
    pub can_capture: bool,
    pub can_command_companion: bool,
    pub can_chat: bool,
}

impl Default for EntityInteractionHints {
    fn default() -> (res: Self)
        ensures
            !res.can_inspect && !res.can_interact && !res.can_attack && !res.can_gather
                && !res.can_loot && !res.can_capture && !res.can_command_companion
                && !res.can_chat,
    {
        EntityInteractionHints {
            can_inspect: false,
            can_interact: false,
            can_attack: false,
            can_gather: false,
            can_loot: false,
            can_capture: false,
            can_command_companion: false,
            can_chat: false,
        }
    }
}

/// What a loot container holds, as far as interaction is concerned.
#[derive(Debug, Clone, Copy, PartialEq, Eq, Structural)]
pub struct LootFacts {
    pub claimed: bool,
    pub coins: u64,
    pub item_count: u64,
}

/// The components of an entity that classification and affordances read.
#[derive(Debug, Clone, Copy, PartialEq, Eq, Structural)]
pub struct EntityComponentFacts {
    /// Whether an agent slot controls the entity.
    pub controlled: bool,
    /// Remaining uses of its resource-node component, if it has one.
    pub resource_remaining_uses: Option<u64>,
    /// Its loot-container component, if it has one.
    pub loot: Option<LootFacts>,
    /// Whether its creature identity is wild, if it has one.
    pub creature_is_wild: Option<bool>,
    /// Whether it carries a combat loadout.
    pub has_combat_loadout: bool,
    /// Whether its current health is above zero, if it has a health component.
    pub health_positive: Option<bool>,
}

/// Classification precedence: resource node, loot container, creature (wild or
/// companion), controlled player, combatant NPC, scenery.
pub open spec fn spec_classify_entity_kind(facts: EntityComponentFacts) -> EntityKind {
    if facts.resource_remaining_uses is Some {
        EntityKind::ResourceNode
    } else if facts.loot is Some {
        EntityKind::LootContainer
    } else if facts.creature_is_wild is Some {
        if facts.creature_is_wild->0 {
            EntityKind::WildCreature
        } else {
            EntityKind::Companion
        }
    } else if facts.controlled {
        EntityKind::Player
    } else if facts.has_combat_loadout || facts.health_positive is Some {
        EntityKind::Npc
    } else {
        EntityKind::Scenery
    }
}

/// Classifies an entity from its components.
pub fn classify_entity_kind(facts: &EntityComponentFacts) -> (res: EntityKind)
    ensures
        res == spec_classify_entity_kind(*facts),
{
    if facts.resource_remaining_uses.is_some() {
        EntityKind::ResourceNode
    } else if facts.loot.is_some() {
        EntityKind::LootContainer
    } else if let Some(is_wild) = facts.creature_is_wild {
        if is_wild {
            EntityKind::WildCreature
        } else {
            EntityKind::Companion
        }
    } else if facts.controlled {
        EntityKind::Player
    } else if facts.has_combat_loadout || facts.health_positive.is_some() {
        EntityKind::Npc
    } else {
        EntityKind::Scenery
    }
}

pub open spec fn is_actor(kind: EntityKind) -> bool {
    kind == EntityKind::Player || kind == EntityKind::Npc || kind == EntityKind::WildCreature
        || kind == EntityKind::Companion
}

/// The affordances of an entity of `kind` with the given components.
pub open spec fn spec_interaction_hints(kind: EntityKind, facts: EntityComponentFacts) -> EntityInteractionHints {
    let has_health = match facts.health_positive {
        Some(p) => p,
        None => false,
    };
    EntityInteractionHints {
        can_inspect: kind != EntityKind::Unknown,
        can_interact: kind == EntityKind::Player || kind == EntityKind::Npc,
        can_attack: is_actor(kind) && (facts.has_combat_loadout || has_health),
        can_gather: match facts.resource_remaining_uses {
            Some(uses) => uses > 0,
            None => false,
        },
        can_loot: match facts.loot {
            Some(loot) => !loot.claimed && (loot.coins > 0 || loot.item_count > 0),
            None => false,
        },
        can_capture: match facts.creature_is_wild {
            Some(w) => w,
            None => false,
        },
        can_command_companion: kind == EntityKind::Companion,
        can_chat: kind == EntityKind::Player || kind == EntityKind::Npc,
    }
}

/// Interaction affordances for an entity of `kind`.
pub fn interaction_hints_for_entity(kind: EntityKind, facts: &EntityComponentFacts) -> (res:
    EntityInteractionHints)
    ensures
        res == spec_interaction_hints(kind, *facts),
{
    let has_health = match facts.health_positive {
        Some(p) => p,
        None => false,
    };
    let actor = match kind {
        EntityKind::Player | EntityKind::Npc | EntityKind::WildCreature | EntityKind::Companion => true,
        _ => false,
    };
    let talker = match kind {
        EntityKind::Player | EntityKind::Npc => true,
        _ => false,
    };
    EntityInteractionHints {
        can_inspect: !matches!(kind, EntityKind::Unknown),
        can_interact: talker,
        can_attack: actor && (facts.has_combat_loadout || has_health),
        can_gather: match facts.resource_remaining_uses {
            Some(uses) => uses > 0,
            None => false,
        },
        can_loot: match facts.loot {
            Some(loot) => !loot.claimed && (loot.coins > 0 || loot.item_count > 0),
            None => false,
        },
        can_capture: match facts.creature_is_wild {
            Some(w) => w,
            None => false,
        },
        can_command_companion: matches!(kind, EntityKind::Companion),
        can_chat: talker,
    }
}

/// The stable lower-case name of a kind, as hashed into snapshot digests.
pub open spec fn spec_entity_kind_name(kind: EntityKind) -> Seq<char> {
    match kind {
        EntityKind::Unknown => "unknown"@,
        EntityKind::Player => "player"@,
        EntityKind::Npc => "npc"@,
        EntityKind::WildCreature => "wild_creature"@,
        EntityKind::Companion => "companion"@,
        EntityKind::ResourceNode => "resource_node"@,
        EntityKind::LootContainer => "loot_container"@,
        EntityKind::Scenery => "scenery"@,
    }
}

/// The stable lower-case name of a kind.
pub fn entity_kind_name(kind: EntityKind) -> (res: &'static str)
    ensures
        res@ == spec_entity_kind_name(kind),
{
    match kind {
        EntityKind::Unknown => "unknown",
        EntityKind::Player => "player",
        EntityKind::Npc => "npc",
        EntityKind::WildCreature => "wild_creature",
        EntityKind::Companion => "companion",
        EntityKind::ResourceNode => "resource_node",
        EntityKind::LootContainer => "loot_container",
        EntityKind::Scenery => "scenery",
    }
}

/// Why an authoritative update could not be applied.
#[derive(Debug, Clone, PartialEq, Eq, Structural)]
pub enum SnapshotUpdateError {
    /// A partial delta arrived without a baseline to apply it to.
    MissingBaseline { tick: u64 },
    /// The rebuilt snapshot does not hash to the authoritative digest.
    DigestMismatch { tick: u64, expected: u64, actual: u64 },
}

/// How a presentation snapshot was produced.
#[derive(Debug, Clone, Copy, PartialEq, Eq, Structural)]
pub enum SnapshotSampleMode {
    Exact,
    Interpolated,
    Extrapolated,
    ClampedPast,
    ClampedFuture,
}

/// An update at `tick` needs a baseline unless it is a full snapshot.
pub fn require_update_baseline(has_baseline: bool, tick: u64, is_full_snapshot: bool) -> (res: Result<
    (),
    SnapshotUpdateError,
>)
    ensures
        res == if is_full_snapshot || has_baseline {
            Ok::<(), SnapshotUpdateError>(())
        } else {
            Err(SnapshotUpdateError::MissingBaseline { tick })
        },
{
    if is_full_snapshot || has_baseline {
        Ok(())
    } else {
        Err(SnapshotUpdateError::MissingBaseline { tick })
    }
}

/// The rebuilt snapshot is accepted only when its digest matches the
/// authoritative one.
pub fn check_authoritative_digest(tick: u64, authoritative_digest: u64, actual_digest: u64) -> (res:
    Result<(), SnapshotUpdateError>)
    ensures
        res == if actual_digest == authoritative_digest {
            Ok::<(), SnapshotUpdateError>(())
        } else {
            Err(
                SnapshotUpdateError::DigestMismatch {
                    tick,
                    expected: authoritative_digest,
                    actual: actual_digest,
                },
            )
        },
{
    if actual_digest != authoritative_digest {
        return Err(
            SnapshotUpdateError::DigestMismatch {
                tick,
                expected: authoritative_digest,
                actual: actual_digest,
            },
        );
    }
    Ok(())
}

/// Team membership of an entity.
#[derive(Debug, Clone, Copy, PartialEq, Eq, Structural)]
pub enum Team {
    Unaffiliated,
    Team(u8),
}

/// The team id a snapshot records: none for no team.
pub fn team_to_id(team: Team) -> (res: Option<u8>)
    ensures
        res == match team {
            Team::Unaffiliated => None,
            Team::Team(id) => Some(id),
        },
{
    match team {
        Team::Unaffiliated => None,
        Team::Team(id) => Some(id),
    }
}

/// How an entity fights.
#[derive(Debug, Clone, Copy, PartialEq, Eq, Structural)]
pub enum CombatStyle {
    Melee,
    Ranged,
    Magic,
    Summoning,
}

/// Snapshot name of a combat style.
pub fn combat_style_name(style: CombatStyle) -> (res: &'static str)
    ensures
        res@ == match style {
            CombatStyle::Melee => "melee"@,
            CombatStyle::Ranged => "ranged"@,
            CombatStyle::Magic => "magic"@,
            CombatStyle::Summoning => "summoning"@,
        },
{
    match style {
        CombatStyle::Melee => "melee",
        CombatStyle::Ranged => "ranged",
        CombatStyle::Magic => "magic",
        CombatStyle::Summoning => "summoning",
    }
}

/// A trainable skill.
#[derive(Debug, Clone, Copy, PartialEq, Eq, Structural)]
pub enum SkillKind {
    Attack,
    Strength,
    Defence,
    Ranged,
    Magic,
    Constitution,
    Mining,
    Woodcutting,
    Fishing,
    Cooking,
    Smithing,
    Crafting,
    Slayer,
    Taming,
    Bonding,
}

/// Snapshot name of a skill.
pub fn skill_kind_name(skill: SkillKind) -> (res: &'static str)
    ensures
        res@ == match skill {
            SkillKind::Attack => "attack"@,
            SkillKind::Strength => "strength"@,
            SkillKind::Defence => "defence"@,
            SkillKind::Ranged => "ranged"@,
            SkillKind::Magic => "magic"@,
            SkillKind::Constitution => "constitution"@,
            SkillKind::Mining => "mining"@,
            SkillKind::Woodcutting => "woodcutting"@,
            SkillKind::Fishing => "fishing"@,
            SkillKind::Cooking => "cooking"@,
            SkillKind::Smithing => "smithing"@,
            SkillKind::Crafting => "crafting"@,
            SkillKind::Slayer => "slayer"@,
            SkillKind::Taming => "taming"@,
            SkillKind::Bonding => "bonding"@,
        },
{
    match skill {
        SkillKind::Attack => "attack",
        SkillKind::Strength => "strength",
        SkillKind::Defence => "defence",
        SkillKind::Ranged => "ranged",
        SkillKind::Magic => "magic",
        SkillKind::Constitution => "constitution",
        SkillKind::Mining => "mining",
        SkillKind::Woodcutting => "woodcutting",
        SkillKind::Fishing => "fishing",
        SkillKind::Cooking => "cooking",
        SkillKind::Smithing => "smithing",
        SkillKind::Crafting => "crafting",
        SkillKind::Slayer => "slayer",
        SkillKind::Taming => "taming",
        SkillKind::Bonding => "bonding",
    }
}

/// The kind of an encounter.
#[derive(Debug, Clone, Copy, PartialEq, Eq, Structural)]
pub enum EncounterKind {
    OpenWorld,
    Duel,
    WildCreature,
    Boss,
    Raid,
}

/// Snapshot name of an encounter kind.
pub fn encounter_kind_name(kind: EncounterKind) -> (res: &'static str)
    ensures
        res@ == match kind {
            EncounterKind::OpenWorld => "open_world"@,
            EncounterKind::Duel => "duel"@,
            EncounterKind::WildCreature => "wild_creature"@,
            EncounterKind::Boss => "boss"@,
            EncounterKind::Raid => "raid"@,
        },
{
    match kind {
        EncounterKind::OpenWorld => "open_world",
        EncounterKind::Duel => "duel",
        EncounterKind::WildCreature => "wild_creature",
        EncounterKind::Boss => "boss",
        EncounterKind::Raid => "raid",
    }
}

/// Classification follows the components: a resource node or loot
/// container is that first; otherwise a creature identity decides between
/// wild creature and companion (a creature that is not wild is a
/// companion); otherwise a controlled entity is a player, an uncontrolled
/// one with a combat loadout or health an NPC, and anything else scenery.
/// For creatures the hints agree with the kind: only a wild creature can be
/// captured and only a companion commanded.
pub proof fn lemma_classification_follows_components(facts: EntityComponentFacts)
    ensures
        facts.resource_remaining_uses is Some ==> spec_classify_entity_kind(facts) == EntityKind::ResourceNode,
        facts.resource_remaining_uses is None && facts.loot is Some ==> spec_classify_entity_kind(facts)
            == EntityKind::LootContainer,
        facts.resource_remaining_uses is None && facts.loot is None && facts.creature_is_wild == Some(true)
            ==> spec_classify_entity_kind(facts) == EntityKind::WildCreature,
        facts.resource_remaining_uses is None && facts.loot is None && facts.creature_is_wild == Some(false)
            ==> spec_classify_entity_kind(facts) == EntityKind::Companion,
        facts.resource_remaining_uses is None && facts.loot is None && facts.creature_is_wild is None
            && facts.controlled ==> spec_classify_entity_kind(facts) == EntityKind::Player,
        facts.resource_remaining_uses is None && facts.loot is None && facts.creature_is_wild is None
            && !facts.controlled && (facts.has_combat_loadout || facts.health_positive is Some)
            ==> spec_classify_entity_kind(facts) == EntityKind::Npc,
        facts.resource_remaining_uses is None && facts.loot is None && facts.creature_is_wild is None
            && !facts.controlled && !facts.has_combat_loadout && facts.health_positive is None
            ==> spec_classify_entity_kind(facts) == EntityKind::Scenery,
        facts.resource_remaining_uses is None && facts.loot is None && facts.creature_is_wild is Some ==> ({
            let kind = spec_classify_entity_kind(facts);
            let hints = spec_interaction_hints(kind, facts);
            &&& hints.can_capture <==> kind == EntityKind::WildCreature
            &&& hints.can_command_companion <==> kind == EntityKind::Companion
            &&& hints.can_capture != hints.can_command_companion
        }),
{
}

/// The affordances follow the kind and components: anything known can be
/// inspected; only players and NPCs can be talked to or interacted with;
/// only living actors (players, NPCs and creatures) with a combat loadout
/// or positive health can be attacked; a resource node can be gathered
/// while it has uses left; a container can be looted while unclaimed and
/// not empty; only wild creatures can be captured and only companions
/// commanded.
pub proof fn lemma_interaction_hints_follow_components(kind: EntityKind, facts: EntityComponentFacts)
    ensures
        spec_interaction_hints(kind, facts).can_inspect <==> kind != EntityKind::Unknown,
        spec_interaction_hints(kind, facts).can_chat <==> (kind == EntityKind::Player || kind == EntityKind::Npc),
        spec_interaction_hints(kind, facts).can_interact <==> (kind == EntityKind::Player || kind == EntityKind::Npc),
        spec_interaction_hints(kind, facts).can_attack <==> ((kind == EntityKind::Player || kind == EntityKind::Npc
            || kind == EntityKind::WildCreature || kind == EntityKind::Companion) && (facts.has_combat_loadout
            || facts.health_positive == Some(true))),
        spec_interaction_hints(kind, facts).can_gather <==> (facts.resource_remaining_uses matches Some(uses)
            && uses > 0),
        spec_interaction_hints(kind, facts).can_loot <==> (facts.loot matches Some(loot) && !loot.claimed && (
        loot.coins > 0 || loot.item_count > 0)),
        spec_interaction_hints(kind, facts).can_capture <==> facts.creature_is_wild == Some(true),
        spec_interaction_hints(kind, facts).can_command_companion <==> kind == EntityKind::Companion,
{
}

} // verus!
