use vstd::prelude::*;
use crate::debounce::{AssetEvent, SkipFlag};
use crate::materialize::{modifies, FighterEntity, ItemEntity, Position, Role};
use crate::progress::{assets_loaded, root_progress, AssetStore};

verus! {

/// The process-wide state machine.
#[derive(Clone, Copy, Debug, PartialEq, Eq, Structural)]
pub enum GameState {
    Uninitialized,
    LoadingGame,
    MainMenu,
    LoadingLevel,
    InGame,
}

/// The game definition: what the singletons are rebuilt from.
#[derive(Clone, Debug)]
pub struct GameDef {
    pub camera_height: u64,
    pub font_families: Vec<String>,
    pub detected_locale: Option<String>,
    pub default_locale: String,
    pub border_images: Vec<u64>,
}

/// Where a fighter of the level starts.
#[derive(Clone, Copy, Debug, PartialEq, Eq, Structural)]
pub struct FighterSpawn {
    pub fighter: usize,
    pub position: Position,
}

#[derive(Clone, Copy, Debug, PartialEq, Eq, Structural)]
pub struct EnemySpawn {
    pub fighter: usize,
    pub position: Position,
    pub boss: bool,
}

#[derive(Clone, Copy, Debug, PartialEq, Eq, Structural)]
pub struct ItemSpawn {
    pub item: usize,
    pub position: Position,
}

#[derive(Clone, Copy, Debug, PartialEq, Eq, Structural)]
pub struct Color {
    pub r: u8,
    pub g: u8,
    pub b: u8,
    pub a: u8,
}

/// The level definition.
#[derive(Clone, Debug)]
pub struct LevelDef {
    pub players: Vec<FighterSpawn>,
    pub enemies: Vec<EnemySpawn>,
    pub items: Vec<ItemSpawn>,
    /// Parallax layers, as opaque layer descriptions.
    pub layers: Vec<u64>,
    pub background_color: Color,
}

/// The active locale: the language asked for, and the fallback.
#[derive(Clone, Debug)]
pub struct Locale {
    pub requested: String,
    pub fallback: String,
}

/// The live camera singleton.
#[derive(Clone, Copy, Debug, PartialEq, Eq, Structural)]
pub struct Camera {
    pub height: u64,
}

/// Parallax background layers, built against the camera of the given height.
#[derive(Clone, Debug)]
pub struct Background {
    pub camera_height: u64,
    pub layers: Vec<u64>,
}

/// The stub entities that a level spawns.
pub struct LevelSpawn {
    pub fighters: Vec<FighterEntity>,
    pub items: Vec<ItemEntity>,
    /// The stored player settings the players start with, as read from storage.
    pub player_settings: Option<Vec<u8>>,
}

/// Loads and hot-reloads the game and its levels: owns the state machine and
/// the singleton resources, and is their only writer.
pub struct GameLoader {
    pub state: GameState,
    pub camera: Option<Camera>,
    pub locale: Option<Locale>,
    /// Empty placeholders, one per declared font family.
    pub fonts: Vec<String>,
    /// Border images registered with the UI.
    pub borders: Vec<u64>,
    pub game: Option<GameDef>,
    pub level: Option<LevelDef>,
    pub background: Option<Background>,
    pub clear_color: Option<Color>,
    pub game_skip: SkipFlag,
}

/// The locale a game definition asks for: the detected language, or the
/// default one when none was detected.
pub open spec fn locale_of(def: GameDef) -> Locale {
    Locale {
        requested: match def.detected_locale {
            Some(d) => d,
            None => def.default_locale,
        },
        fallback: def.default_locale,
    }
}

/// Two game definitions with the same content.
pub open spec fn same_game(a: GameDef, b: GameDef) -> bool {
    &&& a.camera_height == b.camera_height
    &&& a.font_families@ == b.font_families@
    &&& a.detected_locale == b.detected_locale
    &&& a.default_locale == b.default_locale
    &&& a.border_images@ == b.border_images@
}

/// Two level definitions with the same content.
pub open spec fn same_level(a: LevelDef, b: LevelDef) -> bool {
    &&& a.players@ == b.players@
    &&& a.enemies@ == b.enemies@
    &&& a.items@ == b.items@
    &&& a.layers@ == b.layers@
    &&& a.background_color == b.background_color
}

/// `c` holds every singleton rebuilt from `def`.
pub open spec fn applied(c: GameLoader, def: GameDef) -> bool {
    &&& c.camera == Some(Camera { height: def.camera_height })
    &&& c.locale == Some(locale_of(def))
    &&& c.fonts@ == def.font_families@
    &&& c.borders@ == def.border_images@
    &&& c.game matches Some(g) && same_game(g, def)
}

/// The readiness gate of the game: waiting for it, the game definition has
/// resolved, and it and everything it depends on have loaded.
pub open spec fn game_gate_fires(
    state: GameState,
    store: AssetStore,
    root: usize,
    game: Option<GameDef>,
) -> bool {
    &&& state == GameState::LoadingGame
    &&& game is Some
    &&& root_progress(store.spec_nodes(), root as int).0 >= root_progress(
        store.spec_nodes(),
        root as int,
    ).1
}

/// The readiness gate of a level: waiting for it, with the game definition in
/// place, the level has resolved and it and everything it depends on have loaded.
pub open spec fn level_gate_fires(
    c: GameLoader,
    store: AssetStore,
    root: usize,
    level: Option<LevelDef>,
) -> bool {
    &&& c.state == GameState::LoadingLevel
    &&& c.game is Some
    &&& level is Some
    &&& root_progress(store.spec_nodes(), root as int).0 >= root_progress(
        store.spec_nodes(),
        root as int,
    ).1
}

/// The stubs a level spawns: players first (each with its index), then enemies,
/// none of them materialized.
pub open spec fn fighter_stubs(level: LevelDef) -> Seq<FighterEntity> {
    Seq::new(
        level.players.len() as nat,
        |i: int|
            FighterEntity {
                position: level.players@[i].position,
                role: Role::Player(i as usize),
                fighter: level.players@[i].fighter,
                body: None,
            },
    ) + Seq::new(
        level.enemies.len() as nat,
        |i: int|
            FighterEntity {
                position: level.enemies@[i].position,
                role: Role::Enemy { boss: level.enemies@[i].boss },
                fighter: level.enemies@[i].fighter,
                body: None,
            },
    )
}

/// The item entities a level spawns, each waiting for its sprite.
pub open spec fn item_stubs(level: LevelDef) -> Seq<ItemEntity> {
    Seq::new(
        level.items.len() as nat,
        |i: int|
            ItemEntity {
                position: level.items@[i].position,
                item: level.items@[i].item,
                spawn_sprite: true,
                sprite: None,
            },
    )
}

/// One poll of the game gate as the state machine sees it: a poll that fires
/// leaves `LoadingGame` for `MainMenu`; one that does not leaves the state alone.
pub open spec fn game_poll_step(before: GameState, after: GameState, fired: bool) -> bool {
    if fired {
        before == GameState::LoadingGame && after == GameState::MainMenu
    } else {
        after == before
    }
}

proof fn lemma_stays_in_menu(states: Seq<GameState>, fired: Seq<bool>, i: int, k: int)
    requires
        states.len() == fired.len() + 1,
        forall|t: int| 0 <= t < fired.len() ==> game_poll_step(states[t], states[t + 1], #[trigger] fired[t]),
        0 <= i < fired.len(),
        fired[i],
        i < k <= fired.len(),
    ensures
        states[k] == GameState::MainMenu,
    decreases k - i,
{
    assert(game_poll_step(states[i], states[i + 1], fired[i]));
    if k > i + 1 {
        lemma_stays_in_menu(states, fired, i, k - 1);
        assert(game_poll_step(states[k - 1], states[k], fired[k - 1]));
    }
}

/// Over any run of game-gate polls, where each state follows the one before
/// and each flag tells whether that poll made the transition, it happens at
/// most once: after it has happened, no later poll makes it, whatever the progress.
pub proof fn lemma_game_gate_fires_once(states: Seq<GameState>, fired: Seq<bool>, i: int, j: int)
    requires
        states.len() == fired.len() + 1,
        forall|t: int| 0 <= t < fired.len() ==> game_poll_step(states[t], states[t + 1], #[trigger] fired[t]),
        0 <= i < j < fired.len(),
        fired[i],
    ensures
        !fired[j],
{
    lemma_stays_in_menu(states, fired, i, j);
    assert(game_poll_step(states[j], states[j + 1], fired[j]));
}

proof fn lemma_waits_until_ready(
    states: Seq<GameState>,
    fired: Seq<bool>,
    ready: Seq<bool>,
    k: int,
    t: int,
)
    requires
        states.len() == fired.len() + 1,
        ready.len() == fired.len(),
        states[0] == GameState::LoadingGame,
        forall|u: int| 0 <= u < fired.len() ==> game_poll_step(states[u], states[u + 1], #[trigger] fired[u]),
        forall|u: int| 0 <= u < fired.len() ==> #[trigger] fired[u] == (states[u] == GameState::LoadingGame && ready[u]),
        forall|u: int| 0 <= u < k ==> !(#[trigger] ready[u]),
        0 <= t <= k < fired.len(),
    ensures
        states[t] == GameState::LoadingGame,
    decreases t,
{
    if t > 0 {
        lemma_waits_until_ready(states, fired, ready, k, t - 1);
        assert(fired[t - 1] == (states[t - 1] == GameState::LoadingGame && ready[t - 1]));
        assert(game_poll_step(states[t - 1], states[t], fired[t - 1]));
    }
}

/// Over a run of game-gate polls that starts while the game loads, where
/// `ready[t]` tells whether the game definition had resolved and fully loaded
/// at poll `t` (so a poll moves on exactly when the state is still loading and
/// the game is ready), the transition happens at the first ready poll and at
/// no other.
pub proof fn lemma_game_gate_fires_at_first_ready(
    states: Seq<GameState>,
    fired: Seq<bool>,
    ready: Seq<bool>,
    k: int,
)
    requires
        states.len() == fired.len() + 1,
        ready.len() == fired.len(),
        states[0] == GameState::LoadingGame,
        forall|u: int| 0 <= u < fired.len() ==> game_poll_step(states[u], states[u + 1], #[trigger] fired[u]),
        forall|u: int| 0 <= u < fired.len() ==> #[trigger] fired[u] == (states[u] == GameState::LoadingGame && ready[u]),
        0 <= k < fired.len(),
        ready[k],
        forall|u: int| 0 <= u < k ==> !(#[trigger] ready[u]),
    ensures
        fired[k],
        forall|u: int| 0 <= u < fired.len() && u != k ==> !(#[trigger] fired[u]),
{
    lemma_waits_until_ready(states, fired, ready, k, k);
    assert(fired[k] == (states[k] == GameState::LoadingGame && ready[k]));
    assert forall|u: int| 0 <= u < fired.len() && u != k implies !(#[trigger] fired[u]) by {
        if u < k {
            assert(fired[u] == (states[u] == GameState::LoadingGame && ready[u]));
        } else {
            lemma_game_gate_fires_once(states, fired, k, u);
        }
    }
}

fn copy_strings(v: &Vec<String>) -> (r: Vec<String>)
    ensures
        r@ == v@,
{
    let mut r: Vec<String> = Vec::new();
    let mut i: usize = 0;
    while i < v.len()
        invariant
            0 <= i <= v.len(),
            r@ == v@.take(i as int),
        decreases v.len() - i,
    {
        r.push(v[i].clone());
        i = i + 1;
        assert(r@ =~= v@.take(i as int));
    }
    assert(v@.take(v.len() as int) =~= v@);
    r
}

fn copy_vec<T: Copy>(v: &Vec<T>) -> (r: Vec<T>)
    ensures
        r@ == v@,
{
    let mut r: Vec<T> = Vec::new();
    let mut i: usize = 0;
    while i < v.len()
        invariant
            0 <= i <= v.len(),
            r@ == v@.take(i as int),
        decreases v.len() - i,
    {
        r.push(v[i]);
        i = i + 1;
        assert(r@ =~= v@.take(i as int));
    }
    assert(v@.take(v.len() as int) =~= v@);
    r
}

fn copy_game(def: &GameDef) -> (r: GameDef)
    ensures
        same_game(r, *def),
{
    GameDef {
        camera_height: def.camera_height,
        font_families: copy_strings(&def.font_families),
        detected_locale: match &def.detected_locale {
            Some(d) => Some(d.clone()),
            None => None,
        },
        default_locale: def.default_locale.clone(),
        border_images: copy_vec(&def.border_images),
    }
}

fn copy_level(def: &LevelDef) -> (r: LevelDef)
    ensures
        same_level(r, *def),
{
    LevelDef {
        players: copy_vec(&def.players),
        enemies: copy_vec(&def.enemies),
        items: copy_vec(&def.items),
        layers: copy_vec(&def.layers),
        background_color: def.background_color,
    }
}

impl GameLoader {
    /// Camera and game definition are in place in every state past the
    /// game's loading.
    pub open spec fn wf(&self) -> bool {
        (self.state == GameState::MainMenu || self.state == GameState::LoadingLevel || self.state
            == GameState::InGame) ==> self.camera is Some && self.game is Some
    }

    /// Whether the invariant holds, for callers that cannot see it.
    pub fn is_consistent(&self) -> (r: bool)
        ensures
            r == self.wf(),
    {
        match self.state {
            GameState::MainMenu | GameState::LoadingLevel | GameState::InGame => {
                self.camera.is_some() && self.game.is_some()
            },
            _ => true,
        }
    }

    pub fn new() -> (r: GameLoader)
        ensures
            r.wf(),
            r.state == GameState::Uninitialized,
            r.camera is None,
            r.game is None,
            !r.game_skip.pending,
    {
        GameLoader {
            state: GameState::Uninitialized,
            camera: None,
            locale: None,
            fonts: Vec::new(),
            borders: Vec::new(),
            game: None,
            level: None,
            background: None,
            clear_color: None,
            game_skip: SkipFlag::new(),
        }
    }

    /// Rebuilds every singleton from `def` and installs it. The old camera, if
    /// any, is replaced, never kept beside the new one. Returns whether there
    /// was one to despawn.
    fn apply_game(&mut self, def: &GameDef) -> (r: bool)
        ensures
            r == old(self).camera is Some,
            applied(*final(self), *def),
            final(self).state == old(self).state,
            final(self).level == old(self).level,
            final(self).background == old(self).background,
            final(self).clear_color == old(self).clear_color,
            final(self).game_skip == old(self).game_skip,
    {
        let despawned = self.camera.is_some();
        self.camera = None;
        self.fonts = copy_strings(&def.font_families);
        let requested = match &def.detected_locale {
            Some(d) => d.clone(),
            None => def.default_locale.clone(),
        };
        self.locale = Some(Locale { requested, fallback: def.default_locale.clone() });
        self.borders = copy_vec(&def.border_images);
        self.camera = Some(Camera { height: def.camera_height });
        self.game = Some(copy_game(def));
        despawned
    }

    /// Startup: the state machine leaves `Uninitialized` for `LoadingGame`;
    /// in any other state nothing changes.
    pub fn start(&mut self)
        requires
            old(self).wf(),
        ensures
            final(self).wf(),
            final(self).state == if old(self).state == GameState::Uninitialized {
                GameState::LoadingGame
            } else {
                old(self).state
            },
            final(self).camera == old(self).camera,
            final(self).game == old(self).game,
    {
        if self.state == GameState::Uninitialized {
            self.state = GameState::LoadingGame;
        }
    }

    /// One poll of the game's readiness gate. The game definition is given as
    /// resolved by the store, if it is. When everything has loaded, every singleton is built
    /// from the definition, which becomes the current one, and the state moves
    /// to the main menu; otherwise nothing changes. Returns whether it fired.
    pub fn poll_game_gate(&mut self, store: &AssetStore, root: usize, game: &Option<GameDef>) -> (r:
        bool)
        requires
            old(self).wf(),
            store.wf(),
        ensures
            final(self).wf(),
            r == game_gate_fires(old(self).state, *store, root, *game),
            r ==> final(self).state == GameState::MainMenu && applied(*final(self), game->Some_0),
            r ==> final(self).game_skip == old(self).game_skip && final(self).level == old(
                self,
            ).level && final(self).background == old(self).background && final(self).clear_color
                == old(self).clear_color,
            game_poll_step(old(self).state, final(self).state, r),
            !r ==> *final(self) == *old(self),
    {
        if self.state != GameState::LoadingGame {
            return false;
        }
        let def = match game {
            Some(d) => d,
            None => {
                return false;
            },
        };
        if !assets_loaded(store, root) {
            return false;
        }
        self.apply_game(def);
        self.state = GameState::MainMenu;
        true
    }

    /// The menu picked a level: `MainMenu` moves to `LoadingLevel`; in any
    /// other state nothing changes.
    pub fn select_level(&mut self)
        requires
            old(self).wf(),
        ensures
            final(self).wf(),
            old(self).state == GameState::MainMenu ==> *final(self) == (GameLoader {
                state: GameState::LoadingLevel,
                ..*old(self)
            }),
            old(self).state != GameState::MainMenu ==> *final(self) == *old(self),
    {
        if self.state == GameState::MainMenu {
            self.state = GameState::LoadingLevel;
        }
    }

    /// The pause menu's "main menu" action, with the world reset: `InGame`
    /// moves to `MainMenu`, and the level with its background and clear color
    /// is dropped; in any other state nothing changes.
    pub fn return_to_menu(&mut self)
        requires
            old(self).wf(),
        ensures
            final(self).wf(),
            old(self).state == GameState::InGame ==> *final(self) == (GameLoader {
                state: GameState::MainMenu,
                level: None,
                background: None,
                clear_color: None,
                ..*old(self)
            }),
            old(self).state != GameState::InGame ==> *final(self) == *old(self),
    {
        if self.state == GameState::InGame {
            self.state = GameState::MainMenu;
            self.level = None;
            self.background = None;
            self.clear_color = None;
        }
    }

    /// One poll of the level's readiness gate. The level definition is given as
    /// resolved by the store, if it is. When everything has loaded, the background
    /// is built against the live camera, the clear color set, the stubs of every
    /// player, enemy and item returned for spawning, the level installed as the
    /// current one, and the state moves to `InGame`; otherwise nothing changes.
    pub fn poll_level_gate(
        &mut self,
        store: &AssetStore,
        root: usize,
        level: &Option<LevelDef>,
        player_settings: Option<Vec<u8>>,
    ) -> (r: Option<LevelSpawn>)
        requires
            old(self).wf(),
            store.wf(),
        ensures
            final(self).wf(),
            r is Some == level_gate_fires(*old(self), *store, root, *level),
            r matches Some(sp) ==> {
                &&& sp.fighters@ == fighter_stubs(level->Some_0)
                &&& sp.items@ == item_stubs(level->Some_0)
                &&& sp.player_settings == player_settings
                &&& final(self).state == GameState::InGame
                &&& final(self).level matches Some(l) && same_level(l, level->Some_0)
                &&& final(self).fonts == old(self).fonts
                &&& final(self).borders == old(self).borders
                &&& final(self).background matches Some(b) && b.camera_height
                    == old(self).camera->Some_0.height && b.layers@ == level->Some_0.layers@
                &&& final(self).clear_color == Some(level->Some_0.background_color)
                &&& final(self).camera == old(self).camera
                &&& final(self).game == old(self).game
                &&& final(self).locale == old(self).locale
                &&& final(self).game_skip == old(self).game_skip
            },
            r is None ==> *final(self) == *old(self),
    {
        if self.state != GameState::LoadingLevel || self.game.is_none() {
            return None;
        }
        let def = match level {
            Some(d) => d,
            None => {
                return None;
            },
        };
        if !assets_loaded(store, root) {
            return None;
        }
        let camera_height = match self.camera {
            Some(c) => c.height,
            None => {
                return None;
            },
        };
        let mut fighters: Vec<FighterEntity> = Vec::new();
        let mut i: usize = 0;
        while i < def.players.len()
            invariant
                0 <= i <= def.players.len(),
                fighters@ == fighter_stubs(*def).take(i as int),
            decreases def.players.len() - i,
        {
            let p = def.players[i];
            fighters.push(
                FighterEntity { position: p.position, role: Role::Player(i), fighter: p.fighter, body: None },
            );
            i = i + 1;
            assert(fighters@ =~= fighter_stubs(*def).take(i as int));
        }
        let mut j: usize = 0;
        while j < def.enemies.len()
            invariant
                0 <= j <= def.enemies.len(),
                fighters@ == fighter_stubs(*def).take(def.players.len() + j),
            decreases def.enemies.len() - j,
        {
            let e = def.enemies[j];
            fighters.push(
                FighterEntity {
                    position: e.position,
                    role: Role::Enemy { boss: e.boss },
                    fighter: e.fighter,
                    body: None,
                },
            );
            j = j + 1;
            assert(fighters@ =~= fighter_stubs(*def).take(def.players.len() + j));
        }
        assert(fighters@ =~= fighter_stubs(*def));
        let mut items: Vec<ItemEntity> = Vec::new();
        let mut k: usize = 0;
        while k < def.items.len()
            invariant
                0 <= k <= def.items.len(),
                items@ == item_stubs(*def).take(k as int),
            decreases def.items.len() - k,
        {
            let it = def.items[k];
            items.push(ItemEntity { position: it.position, item: it.item, spawn_sprite: true, sprite: None });
            k = k + 1;
            assert(items@ =~= item_stubs(*def).take(k as int));
        }
        assert(items@ =~= item_stubs(*def));
        self.background = Some(Background { camera_height, layers: copy_vec(&def.layers) });
        self.clear_color = Some(def.background_color);
        self.level = Some(copy_level(def));
        self.state = GameState::InGame;
        Some(LevelSpawn { fighters, items, player_settings })
    }

    /// Hot reload of the game definition. The tick's notifications go through
    /// the game's skip flag; when one of them is a real change and the game
    /// definition resolves (`game`), the flag is armed for the write back this
    /// causes and every singleton is rebuilt from the definition, the old camera
    /// despawned first. Returns whether it re-applied.
    pub fn hot_reload_game(&mut self, events: &Vec<AssetEvent>, game: &Option<GameDef>) -> (r: bool)
        requires
            old(self).wf(),
        ensures
            final(self).wf(),
            r == (crate::debounce::scan(old(self).game_skip.pending, events@).1 > 0
                && game is Some),
            r ==> final(self).game_skip.pending && applied(*final(self), game->Some_0)
                && final(self).state == old(self).state,
            r ==> final(self).level == old(self).level && final(self).background == old(
                self,
            ).background && final(self).clear_color == old(self).clear_color,
            !r ==> *final(self) == (GameLoader {
                game_skip: SkipFlag {
                    pending: crate::debounce::scan(old(self).game_skip.pending, events@).0,
                },
                ..*old(self)
            }),
    {
        let changed = self.game_skip.filter(events);
        if !changed {
            return false;
        }
        match game {
            Some(def) => {
                self.game_skip.arm();
                self.apply_game(def);
                true
            },
            None => false,
        }
    }

    /// Hot reload of the current level while in game: when `events` modify the
    /// level's handle and it resolves (`level`), the background is rebuilt
    /// against the live camera and the clear color updated. Entities are not
    /// respawned. Returns whether it refreshed anything.
    pub fn hot_reload_level(
        &mut self,
        events: &Vec<AssetEvent>,
        level_handle: usize,
        level: &Option<LevelDef>,
    ) -> (r: bool)
        requires
            old(self).wf(),
        ensures
            final(self).wf(),
            r == (old(self).state == GameState::InGame && modifies(events@, level_handle)
                && level is Some),
            r ==> (final(self).background matches Some(b) && b.camera_height == old(
                self,
            ).camera->Some_0.height && b.layers@ == level->Some_0.layers@),
            r ==> final(self).clear_color == Some(level->Some_0.background_color),
            r ==> *final(self) == (GameLoader {
                background: final(self).background,
                clear_color: final(self).clear_color,
                ..*old(self)
            }),
            !r ==> *final(self) == *old(self),
    {
        if self.state != GameState::InGame {
            return false;
        }
        if !crate::materialize::is_modified(events, level_handle) {
            return false;
        }
        let camera_height = match self.camera {
            Some(c) => c.height,
            None => {
                return false;
            },
        };
        match level {
            Some(def) => {
                self.background = Some(Background { camera_height, layers: copy_vec(&def.layers) });
                self.clear_color = Some(def.background_color);
                true
            },
            None => false,
        }
    }
}

} // verus!