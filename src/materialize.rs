use vstd::prelude::*;
use rand::seq::SliceRandom;
use crate::debounce::AssetEvent;

verus! {

/// Spatial transform of an entity (engine units).
#[derive(Clone, Copy, Debug, PartialEq, Eq, Structural)]
pub struct Position {
    pub x: i64,
    pub y: i64,
    pub z: i64,
}

/// Stat block of a fighter.
#[derive(Clone, Copy, Debug, PartialEq, Eq, Structural)]
pub struct Stats {
    pub max_health: u64,
    pub damage: u64,
    pub movement_speed: u64,
}

/// Animation timing and the (opaque) animation set it plays.
#[derive(Clone, Copy, Debug, PartialEq, Eq, Structural)]
pub struct Animation {
    pub fps: u64,
    pub set: u64,
}

/// Role marker of a fighter entity.
#[derive(Clone, Copy, Debug, PartialEq, Eq, Structural)]
pub enum Role {
    /// The player with this index in the level's player list.
    Player(usize),
    Enemy { boss: bool },
}

/// A fighter definition: identity, the alternative animation atlases, timing,
/// and stats.
#[derive(Clone, Debug)]
pub struct FighterDef {
    pub name: String,
    pub atlas_variants: Vec<u64>,
    pub animation_fps: u64,
    pub animation_set: u64,
    pub stats: Stats,
}

/// Components that a fighter entity gets when it is materialized.
#[derive(Clone, Debug)]
pub struct FighterBody {
    pub name: String,
    pub atlas: u64,
    pub animation: Animation,
    pub stats: Stats,
    /// Gameplay-owned state: set at materialization, never touched by a reload.
    pub health: u64,
}

/// A fighter entity: a stub while `body` is `None`, materialized after.
#[derive(Clone, Debug)]
pub struct FighterEntity {
    pub position: Position,
    pub role: Role,
    pub fighter: usize,
    pub body: Option<FighterBody>,
}

/// Resolved fighter definitions by handle; `None` is not resolved yet.
#[derive(Clone, Debug)]
pub struct FighterStore {
    pub defs: Vec<Option<FighterDef>>,
}

/// An item definition: the image its sprite shows.
#[derive(Clone, Copy, Debug, PartialEq, Eq, Structural)]
pub struct ItemDef {
    pub image: u64,
}

/// An item entity; `sprite` is filled in once its definition resolves.
#[derive(Clone, Copy, Debug, PartialEq, Eq, Structural)]
pub struct ItemEntity {
    pub position: Position,
    pub item: usize,
    pub spawn_sprite: bool,
    pub sprite: Option<u64>,
}

/// Resolved item definitions by handle; `None` is not resolved yet.
#[derive(Clone, Debug)]
pub struct ItemStore {
    pub defs: Vec<Option<ItemDef>>,
}

impl FighterStore {
    pub open spec fn def_of(&self, h: usize) -> Option<FighterDef> {
        if h < self.defs.len() {
            self.defs@[h as int]
        } else {
            None
        }
    }
}

/// Every stub whose fighter has resolved can draw an atlas: its fighter
/// declares at least one.
pub open spec fn stubs_ready(entities: Seq<FighterEntity>, store: FighterStore) -> bool {
    forall|i: int|
        0 <= i < entities.len() && (#[trigger] entities[i]).body is None && store.def_of(
            entities[i].fighter,
        ) is Some ==> store.def_of(entities[i].fighter)->Some_0.atlas_variants.len() > 0
}

/// Every materialized entity whose resolved fighter `events` modify can draw an
/// atlas: its fighter declares at least one.
pub open spec fn reloads_ready(
    entities: Seq<FighterEntity>,
    store: FighterStore,
    events: Seq<AssetEvent>,
) -> bool {
    forall|i: int|
        0 <= i < entities.len() && (#[trigger] entities[i]).body is Some && modifies(
            events,
            entities[i].fighter,
        ) && store.def_of(entities[i].fighter) is Some ==> store.def_of(
            entities[i].fighter,
        )->Some_0.atlas_variants.len() > 0
}

impl ItemStore {
    pub open spec fn def_of(&self, h: usize) -> Option<ItemDef> {
        if h < self.defs.len() {
            self.defs@[h as int]
        } else {
            None
        }
    }
}

pub open spec fn animation_of(def: FighterDef) -> Animation {
    Animation { fps: def.animation_fps, set: def.animation_set }
}

/// The body a fighter gets from `def` with the atlas `atlas`, at full health.
pub open spec fn body_of(def: FighterDef, atlas: u64) -> FighterBody {
    FighterBody {
        name: def.name,
        atlas,
        animation: animation_of(def),
        stats: def.stats,
        health: def.stats.max_health,
    }
}

pub open spec fn same_stub(a: FighterEntity, b: FighterEntity) -> bool {
    a.position == b.position && a.role == b.role && a.fighter == b.fighter
}

/// `new` is the stub `old` materialized from `def`, with one of its atlases.
pub open spec fn materialized_from(old: FighterEntity, new: FighterEntity, def: FighterDef) -> bool {
    &&& same_stub(old, new)
    &&& new.body matches Some(b)
    &&& def.atlas_variants@.contains(b.atlas)
    &&& b == body_of(def, b.atlas)
}

/// `new` is the materialized `old` with identity, atlas, animation and stats
/// taken from `def`, and its health kept.
pub open spec fn reloaded_from(old: FighterEntity, new: FighterEntity, def: FighterDef) -> bool {
    &&& same_stub(old, new)
    &&& old.body matches Some(ob)
    &&& new.body matches Some(nb)
    &&& def.atlas_variants@.contains(nb.atlas)
    &&& nb.name == def.name
    &&& nb.animation == animation_of(def)
    &&& nb.stats == def.stats
    &&& nb.health == ob.health
}

/// Relies on rand's `SliceRandom::choose` with the thread-local generator:
/// `None` exactly for an empty slice, else one of its elements.
#[verifier::external_body]
fn choose_variant(alts: &Vec<u64>) -> (r: Option<u64>)
    ensures
        alts@.len() == 0 <==> r is None,
        r matches Some(a) ==> alts@.contains(a),
{
    alts.choose(&mut rand::thread_rng()).copied()
}

/// Picks the atlas of a fighter: the only one when one is declared, else one
/// drawn at random among them.
fn pick_atlas(def: &FighterDef) -> (r: u64)
    requires
        def.atlas_variants.len() > 0,
    ensures
        def.atlas_variants@.contains(r),
{
    if def.atlas_variants.len() == 1 {
        def.atlas_variants[0]
    } else {
        match choose_variant(&def.atlas_variants) {
            Some(a) => a,
            None => def.atlas_variants[0],
        }
    }
}

/// The materialized form of `stub` from `def`, with the drawn atlas `atlas`.
pub fn materialize_stub(stub: &FighterEntity, def: &FighterDef, atlas: u64) -> (r:
    FighterEntity)
    requires
        def.atlas_variants@.contains(atlas),
    ensures
        same_stub(*stub, r),
        r.body == Some(body_of(*def, atlas)),
        materialized_from(*stub, r, *def),
{
    let body = FighterBody {
        name: def.name.clone(),
        atlas,
        animation: Animation { fps: def.animation_fps, set: def.animation_set },
        stats: def.stats,
        health: def.stats.max_health,
    };
    FighterEntity { position: stub.position, role: stub.role, fighter: stub.fighter, body: Some(body) }
}

/// The materialized `entity` reloaded from `def` with the drawn atlas `atlas`:
/// identity, atlas, animation and stats replaced, health kept.
pub fn reload_fighter(entity: &FighterEntity, def: &FighterDef, atlas: u64) -> (r: FighterEntity)
    requires
        entity.body is Some,
        def.atlas_variants@.contains(atlas),
    ensures
        same_stub(*entity, r),
        r.body == Some(FighterBody { health: entity.body->Some_0.health, ..body_of(*def, atlas) }),
        reloaded_from(*entity, r, *def),
{
    let health = match &entity.body {
        Some(b) => b.health,
        None => def.stats.max_health,
    };
    let body = FighterBody {
        name: def.name.clone(),
        atlas,
        animation: Animation { fps: def.animation_fps, set: def.animation_set },
        stats: def.stats,
        health,
    };
    FighterEntity {
        position: entity.position,
        role: entity.role,
        fighter: entity.fighter,
        body: Some(body),
    }
}

/// What one tick of the materializer does to one fighter entity.
pub open spec fn fighter_step(o: FighterEntity, n: FighterEntity, store: FighterStore) -> bool {
    if o.body is None && store.def_of(o.fighter) is Some {
        materialized_from(o, n, store.def_of(o.fighter)->Some_0)
    } else {
        n == o
    }
}

pub open spec fn fighters_tick(
    old: Seq<FighterEntity>,
    new: Seq<FighterEntity>,
    store: FighterStore,
) -> bool {
    &&& new.len() == old.len()
    &&& forall|i: int| 0 <= i < old.len() ==> fighter_step(#[trigger] old[i], new[i], store)
}

/// Over a run of materializer ticks (`worlds[k + 1]` follows `worlds[k]` under
/// `stores[k]`): a stub stays the same stub for as long as its handle does not
/// resolve, and once an entity is materialized no later tick changes it.
pub proof fn lemma_stub_lifecycle(
    worlds: Seq<Seq<FighterEntity>>,
    stores: Seq<FighterStore>,
    i: int,
    k: int,
)
    requires
        worlds.len() == stores.len() + 1,
        forall|t: int| 0 <= t < stores.len() ==> fighters_tick(worlds[t], #[trigger] worlds[t + 1], stores[t]),
        0 <= i < worlds[0].len(),
        0 <= k < worlds.len(),
    ensures
        worlds[k].len() == worlds[0].len(),
        worlds[0][i].body is None && (forall|t: int| 0 <= t < k ==> (#[trigger] stores[t]).def_of(worlds[0][i].fighter) is None)
            ==> worlds[k][i] == worlds[0][i],
        worlds[0][i].body is Some ==> worlds[k][i] == worlds[0][i],
        k + 1 < worlds.len() && worlds[k][i].body is None && stores[k].def_of(worlds[k][i].fighter) is Some
            ==> worlds[k + 1][i].body is Some,
    decreases k,
{
    if k > 0 {
        lemma_stub_lifecycle(worlds, stores, i, k - 1);
        assert(fighters_tick(worlds[k - 1], worlds[k], stores[k - 1]));
        assert(fighter_step(worlds[k - 1][i], worlds[k][i], stores[k - 1]));
    }
    if k + 1 < worlds.len() {
        assert(fighters_tick(worlds[k], worlds[k + 1], stores[k]));
        assert(fighter_step(worlds[k][i], worlds[k + 1][i], stores[k]));
    }
}

/// Materializes every stub whose fighter definition has resolved, with an atlas
/// drawn among the declared ones. Unresolved stubs and materialized entities are
/// left as they are, so a materialized entity is never selected again.
pub fn load_fighters(entities: &mut Vec<FighterEntity>, store: &FighterStore)
    requires
        stubs_ready(old(entities)@, *store),
    ensures
        final(entities).len() == old(entities).len(),
        fighters_tick(old(entities)@, final(entities)@, *store),
{
    let mut i: usize = 0;
    while i < entities.len()
        invariant
            stubs_ready(old(entities)@, *store),
            0 <= i <= entities.len(),
            entities.len() == old(entities).len(),
            forall|j: int|
                i <= j < entities.len() ==> #[trigger] entities@[j] == old(entities)@[j],
            forall|j: int|
                0 <= j < i ==> fighter_step(#[trigger] old(entities)@[j], entities@[j], *store),
        decreases entities.len() - i,
    {
        let h = entities[i].fighter;
        if entities[i].body.is_none() && h < store.defs.len() {
            match &store.defs[h] {
                Some(def) => {
                    assert(store.def_of(h) == Some(*def));
                    let atlas = pick_atlas(def);
                    let e = materialize_stub(&entities[i], def, atlas);
                    entities.set(i, e);
                },
                None => {},
            }
        }
        i = i + 1;
    }
}

/// Gives a sprite to every item entity without one whose definition has
/// resolved, unless the entity asks for no sprite.
pub fn load_items(items: &mut Vec<ItemEntity>, store: &ItemStore)
    ensures
        final(items).len() == old(items).len(),
        forall|i: int|
            0 <= i < old(items).len() ==> {
                let o = #[trigger] old(items)@[i];
                let n = final(items)@[i];
                if o.sprite is None && o.spawn_sprite && store.def_of(o.item) is Some {
                    n == ItemEntity { sprite: Some(store.def_of(o.item)->Some_0.image), ..o }
                } else {
                    n == o
                }
            },
{
    let mut i: usize = 0;
    while i < items.len()
        invariant
            0 <= i <= items.len(),
            items.len() == old(items).len(),
            forall|j: int| i <= j < items.len() ==> #[trigger] items@[j] == old(items)@[j],
            forall|j: int|
                0 <= j < i ==> {
                    let o = #[trigger] old(items)@[j];
                    let n = items@[j];
                    if o.sprite is None && o.spawn_sprite && store.def_of(o.item) is Some {
                        n == ItemEntity { sprite: Some(store.def_of(o.item)->Some_0.image), ..o }
                    } else {
                        n == o
                    }
                },
        decreases items.len() - i,
    {
        let e = items[i];
        if e.sprite.is_none() && e.spawn_sprite && e.item < store.defs.len() {
            match store.defs[e.item] {
                Some(def) => {
                    items.set(i, ItemEntity { sprite: Some(def.image), ..e });
                },
                None => {},
            }
        }
        i = i + 1;
    }
}

/// Whether `events` holds a `Modified` notification of handle `h`.
pub open spec fn modifies(events: Seq<AssetEvent>, h: usize) -> bool {
    exists|j: int| 0 <= j < events.len() && events[j] == AssetEvent::Modified(h)
}

pub(crate) fn is_modified(events: &Vec<AssetEvent>, h: usize) -> (r: bool)
    ensures
        r == modifies(events@, h),
{
    let mut i: usize = 0;
    while i < events.len()
        invariant
            0 <= i <= events.len(),
            forall|j: int| 0 <= j < i ==> events@[j] != AssetEvent::Modified(h),
        decreases events.len() - i,
    {
        if events[i] == AssetEvent::Modified(h) {
            return true;
        }
        i = i + 1;
    }
    false
}

/// Re-applies modified fighter definitions to every materialized entity that
/// references them: identity, atlas, animation and stats are overwritten in
/// place, health is kept. Every other entity is left as it is.
pub fn hot_reload_fighters(
    entities: &mut Vec<FighterEntity>,
    store: &FighterStore,
    events: &Vec<AssetEvent>,
)
    requires
        reloads_ready(old(entities)@, *store, events@),
    ensures
        final(entities).len() == old(entities).len(),
        forall|i: int|
            0 <= i < old(entities).len() ==> {
                let o = #[trigger] old(entities)@[i];
                let n = final(entities)@[i];
                if o.body is Some && modifies(events@, o.fighter) && store.def_of(
                    o.fighter,
                ) is Some {
                    reloaded_from(o, n, store.def_of(o.fighter)->Some_0)
                } else {
                    n == o
                }
            },
{
    let mut i: usize = 0;
    while i < entities.len()
        invariant
            reloads_ready(old(entities)@, *store, events@),
            0 <= i <= entities.len(),
            entities.len() == old(entities).len(),
            forall|j: int|
                i <= j < entities.len() ==> #[trigger] entities@[j] == old(entities)@[j],
            forall|j: int|
                0 <= j < i ==> {
                    let o = #[trigger] old(entities)@[j];
                    let n = entities@[j];
                    if o.body is Some && modifies(events@, o.fighter) && store.def_of(
                        o.fighter,
                    ) is Some {
                        reloaded_from(o, n, store.def_of(o.fighter)->Some_0)
                    } else {
                        n == o
                    }
                },
        decreases entities.len() - i,
    {
        let h = entities[i].fighter;
        if h < store.defs.len() && is_modified(events, h) {
            if entities[i].body.is_some() {
                match &store.defs[h] {
                    Some(def) => {
                        assert(store.def_of(h) == Some(*def));
                        let atlas = pick_atlas(def);
                        let e = reload_fighter(&entities[i], def, atlas);
                        entities.set(i, e);
                    },
                    None => {},
                }
            }
        }
        i = i + 1;
    }
}

} // verus!
