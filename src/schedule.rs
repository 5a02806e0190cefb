use vstd::prelude::*;
use crate::debounce::{scan, AssetEvent};
use crate::lifecycle::{
    applied, fighter_stubs, same_level, game_gate_fires, item_stubs, level_gate_fires, GameDef, GameLoader,
    GameState, LevelDef,
};
use crate::materialize::{
    fighter_step, hot_reload_fighters, load_fighters, load_items, modifies, reloaded_from,
    reloads_ready, stubs_ready,
    FighterEntity, FighterStore, ItemEntity, ItemStore,
};
use crate::progress::AssetStore;

verus! {

/// The entities the core spawns and materializes.
pub struct World {
    pub fighters: Vec<FighterEntity>,
    pub items: Vec<ItemEntity>,
    /// The stored player settings the current level's players started with.
    pub player_settings: Option<Vec<u8>>,
}

/// The notifications drained from the asset store in one tick, per kind.
pub struct TickEvents {
    pub game: Vec<AssetEvent>,
    pub level: Vec<AssetEvent>,
    pub fighters: Vec<AssetEvent>,
}

/// What a tick did.
#[derive(Clone, Copy, Debug, PartialEq, Eq, Structural)]
pub struct TickReport {
    pub game_loaded: bool,
    pub level_loaded: bool,
    pub game_reloaded: bool,
    pub level_reloaded: bool,
}

/// What an in-game tick does to one fighter entity: a hot reload of its
/// definition when it is materialized and its definition was modified, else the
/// materializer's step.
pub open spec fn in_game_step(
    o: FighterEntity,
    n: FighterEntity,
    store: FighterStore,
    events: Seq<AssetEvent>,
    hot_reload: bool,
) -> bool {
    if hot_reload && o.body is Some && modifies(events, o.fighter) && store.def_of(
        o.fighter,
    ) is Some {
        reloaded_from(o, n, store.def_of(o.fighter)->Some_0)
    } else {
        fighter_step(o, n, store)
    }
}

/// What an in-game tick does to one item entity.
pub open spec fn item_step(o: ItemEntity, n: ItemEntity, store: ItemStore) -> bool {
    if o.sprite is None && o.spawn_sprite && store.def_of(o.item) is Some {
        n == ItemEntity { sprite: Some(store.def_of(o.item)->Some_0.image), ..o }
    } else {
        n == o
    }
}

impl GameLoader {
    /// One tick, in a fixed order: the readiness gate of the state the tick
    /// began in, then (with hot reload on) the game's hot reload, and in game
    /// the level's and the fighters' hot reloads; last, in game, the stub
    /// materializers. Stubs of a level that loads this tick are appended to the
    /// world and first materialized on the next tick.
    pub fn tick(
        &mut self,
        world: &mut World,
        graph: &AssetStore,
        game_handle: usize,
        game: &Option<GameDef>,
        level_handle: usize,
        level: &Option<LevelDef>,
        player_settings: Option<Vec<u8>>,
        fighters: &FighterStore,
        items: &ItemStore,
        events: &TickEvents,
        hot_reload: bool,
    ) -> (r: TickReport)
        requires
            old(self).wf(),
            graph.wf(),
            old(self).state == GameState::InGame ==> stubs_ready(old(world).fighters@, *fighters),
            old(self).state == GameState::InGame && hot_reload ==> reloads_ready(
                old(world).fighters@,
                *fighters,
                events.fighters@,
            ),
        ensures
            final(self).wf(),
            r.game_loaded == game_gate_fires(old(self).state, *graph, game_handle, *game),
            r.level_loaded == level_gate_fires(*old(self), *graph, level_handle, *level),
            r.game_reloaded == (hot_reload && scan(old(self).game_skip.pending, events.game@).1 > 0
                && game is Some),
            r.level_reloaded == (hot_reload && old(self).state == GameState::InGame && modifies(
                events.level@,
                level_handle,
            ) && level is Some),
            final(self).state == if r.game_loaded {
                GameState::MainMenu
            } else if r.level_loaded {
                GameState::InGame
            } else {
                old(self).state
            },
            r.game_loaded || r.game_reloaded ==> applied(*final(self), game->Some_0),
            !r.game_loaded && !r.game_reloaded ==> final(self).camera == old(self).camera
                && final(self).game == old(self).game,
            final(self).game_skip.pending == if r.game_reloaded {
                true
            } else if hot_reload {
                scan(old(self).game_skip.pending, events.game@).0
            } else {
                old(self).game_skip.pending
            },
            r.level_reloaded ==> final(self).clear_color == Some(level->Some_0.background_color),
            r.level_loaded ==> final(self).clear_color == Some(level->Some_0.background_color),
            r.level_loaded ==> (final(self).level matches Some(l) && same_level(l, level->Some_0)),
            r.level_loaded ==> (final(self).background matches Some(b) && b.camera_height == old(
                self,
            ).camera->Some_0.height && b.layers@ == level->Some_0.layers@),
            r.level_reloaded ==> (final(self).background matches Some(b) && b.camera_height
                == final(self).camera->Some_0.height && b.layers@ == level->Some_0.layers@),
            r.level_loaded ==> final(world).fighters@ == old(world).fighters@ + fighter_stubs(
                level->Some_0,
            ) && final(world).items@ == old(world).items@ + item_stubs(level->Some_0)
                && final(world).player_settings == player_settings,
            old(self).state == GameState::InGame ==> final(world).fighters.len() == old(
                world,
            ).fighters.len() && final(world).items.len() == old(world).items.len(),
            old(self).state == GameState::InGame ==> forall|i: int|
                0 <= i < old(world).fighters.len() ==> in_game_step(
                    #[trigger] old(world).fighters@[i],
                    final(world).fighters@[i],
                    *fighters,
                    events.fighters@,
                    hot_reload,
                ),
            old(self).state == GameState::InGame ==> forall|i: int|
                0 <= i < old(world).items.len() ==> item_step(
                    #[trigger] old(world).items@[i],
                    final(world).items@[i],
                    *items,
                ),
            old(self).state != GameState::InGame && !r.level_loaded ==> final(world).fighters@
                == old(world).fighters@ && final(world).items@ == old(world).items@,
            !r.level_loaded ==> final(world).player_settings == old(world).player_settings,
    {
        let state = self.state;
        let mut report = TickReport {
            game_loaded: false,
            level_loaded: false,
            game_reloaded: false,
            level_reloaded: false,
        };
        if state == GameState::LoadingGame {
            report.game_loaded = self.poll_game_gate(graph, game_handle, game);
        } else if state == GameState::LoadingLevel {
            match self.poll_level_gate(graph, level_handle, level, player_settings) {
                Some(spawn) => {
                    let mut spawned = spawn;
                    world.fighters.append(&mut spawned.fighters);
                    world.items.append(&mut spawned.items);
                    world.player_settings = spawned.player_settings;
                    report.level_loaded = true;
                },
                None => {},
            }
        }
        if hot_reload {
            report.game_reloaded = self.hot_reload_game(&events.game, game);
            if state == GameState::InGame {
                report.level_reloaded = self.hot_reload_level(&events.level, level_handle, level);
                hot_reload_fighters(&mut world.fighters, fighters, &events.fighters);
            }
        }
        if state == GameState::InGame {
            assert(stubs_ready(world.fighters@, *fighters)) by {
                assert forall|i: int|
                    0 <= i < world.fighters.len() && (#[trigger] world.fighters@[i]).body is None
                        && fighters.def_of(world.fighters@[i].fighter) is Some implies fighters.def_of(
                    world.fighters@[i].fighter,
                )->Some_0.atlas_variants.len() > 0 by {
                    assert(old(world).fighters@[i] == old(world).fighters@[i]);
                }
            }
            load_fighters(&mut world.fighters, fighters);
            load_items(&mut world.items, items);
        }
        report
    }
}

} // verus!
