use punchy_loading::debounce::{AssetEvent, SkipFlag};
use punchy_loading::input::{menu_input_map, Key, MenuAction, MenuInput, PadButton, StickAxis};
use punchy_loading::lifecycle::{
    Color, GameLoader, EnemySpawn, FighterSpawn, GameDef, GameState, ItemSpawn, LevelDef,
};
use punchy_loading::materialize::{
    hot_reload_fighters, load_fighters, load_items, materialize_stub, reload_fighter, FighterBody, FighterDef,
    FighterEntity, FighterStore, ItemDef, ItemEntity, ItemStore, Position, Role, Stats,
};
use punchy_loading::progress::{assets_loaded, AssetStore, DefinitionNode, LoadProgress};
use punchy_loading::schedule::{TickEvents, TickReport, World};

fn node(resolved: bool, deps: Vec<usize>) -> DefinitionNode {
    DefinitionNode { resolved, deps }
}

fn pos(x: i64, y: i64) -> Position {
    Position { x, y, z: 0 }
}

fn stats(hp: u64) -> Stats {
    Stats { max_health: hp, damage: 3, movement_speed: 5 }
}

fn fighter(name: &str, variants: Vec<u64>, hp: u64) -> FighterDef {
    FighterDef {
        name: name.to_string(),
        atlas_variants: variants,
        animation_fps: 12,
        animation_set: 40,
        stats: stats(hp),
    }
}

fn stub(h: usize) -> FighterEntity {
    FighterEntity { position: pos(1, 2), role: Role::Enemy { boss: false }, fighter: h, body: None }
}

fn game_def(detected: Option<&str>) -> GameDef {
    GameDef {
        camera_height: 448,
        font_families: vec!["title".to_string(), "body".to_string()],
        detected_locale: detected.map(|s| s.to_string()),
        default_locale: "en-US".to_string(),
        border_images: vec![3, 4, 5],
    }
}

#[test]
fn progress_counts_nested_definitions() {
    // 0 -> [1, 2]; 1 -> [3, 4]; 2 unresolved; 3 resolved; 4 unresolved
    let store = AssetStore {
        nodes: vec![
            node(true, vec![1, 2]),
            node(true, vec![3, 4]),
            node(false, vec![]),
            node(true, vec![]),
            node(false, vec![]),
        ],
    };
    let p = store.load_progress(0);
    assert_eq!(p, LoadProgress { loaded: 3, total: 5 });
    assert!(p.loaded <= p.total);
    assert_eq!(p.as_percent(), 60);
    assert!(!p.is_complete());
    assert!(!assets_loaded(&store, 0));
}

#[test]
fn progress_of_unresolved_root_and_empty_total() {
    let store = AssetStore { nodes: vec![node(false, vec![])] };
    assert_eq!(store.load_progress(0), LoadProgress { loaded: 0, total: 1 });
    assert_eq!(store.load_progress(9), LoadProgress { loaded: 0, total: 1 });
    assert_eq!(LoadProgress { loaded: 0, total: 0 }.as_percent(), 100);
    assert!(LoadProgress { loaded: 0, total: 0 }.is_complete());
    assert_eq!(LoadProgress { loaded: 1, total: 3 }.as_percent(), 33);
}

#[test]
fn progress_never_decreases_as_leaves_resolve() {
    let mut store = AssetStore {
        nodes: vec![node(true, vec![1, 2, 3]), node(false, vec![]), node(false, vec![]), node(false, vec![])],
    };
    let mut last = 0;
    for h in 1..4 {
        let p = store.load_progress(0);
        assert!(p.loaded <= p.total);
        assert!(p.as_percent() >= last);
        last = p.as_percent();
        store.nodes[h].resolved = true;
    }
    assert_eq!(store.load_progress(0).as_percent(), 100);
    assert!(assets_loaded(&store, 0));
}

#[test]
fn progress_total_grows_when_graph_is_discovered() {
    let mut store = AssetStore { nodes: vec![node(true, vec![1]), node(false, vec![2, 3]), node(true, vec![]), node(false, vec![])] };
    assert_eq!(store.load_progress(0), LoadProgress { loaded: 1, total: 2 });
    store.nodes[1].resolved = true;
    assert_eq!(store.load_progress(0), LoadProgress { loaded: 3, total: 4 });
}

#[test]
fn self_dependency_counts_once() {
    let store = AssetStore { nodes: vec![node(true, vec![0])] };
    assert_eq!(store.load_progress(0), LoadProgress { loaded: 1, total: 1 });
}

#[test]
fn shared_dependency_counts_once() {
    // 64 stacked diamonds: every level shares the next one twice
    let mut nodes = Vec::new();
    for i in 0..64usize {
        let base = 3 * i;
        nodes.push(node(true, vec![base + 1, base + 2]));
        nodes.push(node(true, vec![base + 3]));
        nodes.push(node(true, vec![base + 3]));
    }
    nodes.push(node(false, vec![]));
    let store = AssetStore { nodes };
    assert!(store.is_well_formed());
    assert_eq!(store.load_progress(0), LoadProgress { loaded: 192, total: 193 });
    assert!(!assets_loaded(&store, 0));
}

#[test]
fn store_with_foreign_dependency_is_not_well_formed() {
    let store = AssetStore { nodes: vec![node(true, vec![5])] };
    assert!(!store.is_well_formed());
    assert!(AssetStore { nodes: vec![node(true, vec![0])] }.is_well_formed());
}

#[test]
fn progress_on_a_cycle_terminates() {
    let store = AssetStore { nodes: vec![node(true, vec![1]), node(true, vec![0])] };
    let p = store.load_progress(0);
    assert!(p.loaded <= p.total);
    assert!(p.is_complete());
}

#[test]
fn game_gate_fires_once() {
    let mut store = AssetStore { nodes: vec![node(true, vec![1]), node(false, vec![])] };
    let mut core = GameLoader::new();
    assert!(!core.poll_game_gate(&store, 0, &Some(game_def(None))));
    assert_eq!(core.state, GameState::Uninitialized);
    core.start();
    assert_eq!(core.state, GameState::LoadingGame);
    assert!(!core.poll_game_gate(&store, 0, &Some(game_def(None))));
    assert!(!core.poll_game_gate(&store, 0, &None));
    store.nodes[1].resolved = true;
    assert!(core.poll_game_gate(&store, 0, &Some(game_def(None))));
    assert_eq!(core.state, GameState::MainMenu);
    assert!(!core.poll_game_gate(&store, 0, &Some(game_def(None))));
    assert!(!core.poll_game_gate(&store, 0, &Some(game_def(None))));
    assert_eq!(core.state, GameState::MainMenu);
}

#[test]
fn game_with_ten_dependencies_loads_main_menu() {
    let mut nodes = vec![node(true, (1..11).collect())];
    for _ in 0..10 {
        nodes.push(node(true, vec![]));
    }
    let store = AssetStore { nodes };
    assert_eq!(store.load_progress(0), LoadProgress { loaded: 11, total: 11 });
    let mut core = GameLoader::new();
    core.start();
    assert!(core.camera.is_none());
    assert!(core.poll_game_gate(&store, 0, &Some(game_def(None))));
    assert_eq!(core.camera.unwrap().height, 448);
    let locale = core.locale.clone().unwrap();
    assert_eq!(locale.requested, "en-US");
    assert_eq!(locale.fallback, "en-US");
    assert_eq!(core.fonts, vec!["title".to_string(), "body".to_string()]);
    assert_eq!(core.borders, vec![3, 4, 5]);
    assert_eq!(core.state, GameState::MainMenu);
}

#[test]
fn detected_locale_wins_over_default() {
    let store = AssetStore { nodes: vec![node(true, vec![])] };
    let mut core = GameLoader::new();
    core.start();
    assert!(core.poll_game_gate(&store, 0, &Some(game_def(Some("fr-FR")))));
    let locale = core.locale.clone().unwrap();
    assert_eq!(locale.requested, "fr-FR");
    assert_eq!(locale.fallback, "en-US");
}

#[test]
fn real_then_self_caused_modification_counts_once() {
    let mut flag = SkipFlag::new();
    assert!(flag.filter(&vec![AssetEvent::Modified(0)]));
    flag.arm();
    assert!(!flag.filter(&vec![AssetEvent::Modified(0)]));
    assert!(!flag.pending);
}

#[test]
fn two_real_modifications_coalesce() {
    let mut flag = SkipFlag::new();
    assert!(flag.filter(&vec![AssetEvent::Modified(0), AssetEvent::Modified(0)]));
    flag.arm();
    assert!(flag.pending);
    // the one self-caused notification is swallowed, a further edit is real
    assert!(!flag.filter(&vec![AssetEvent::Modified(0)]));
    flag.arm();
    assert!(flag.filter(&vec![AssetEvent::Modified(0), AssetEvent::Modified(0)]));
    assert!(!flag.pending);
}

#[test]
fn non_modified_events_are_ignored() {
    let mut flag = SkipFlag::new();
    assert!(!flag.filter(&vec![AssetEvent::Created(0), AssetEvent::Removed(0)]));
    assert!(!flag.filter(&vec![]));
    flag.arm();
    assert!(!flag.filter(&vec![AssetEvent::Created(1)]));
    assert!(flag.pending);
}

#[test]
fn game_hot_reload_replaces_camera_and_skips_own_write() {
    let store = AssetStore { nodes: vec![node(true, vec![])] };
    let mut core = GameLoader::new();
    core.start();
    assert!(core.poll_game_gate(&store, 0, &Some(game_def(None))));
    let mut changed = game_def(Some("de-DE"));
    changed.camera_height = 600;
    assert!(core.hot_reload_game(&vec![AssetEvent::Modified(0)], &Some(changed)));
    assert_eq!(core.camera.unwrap().height, 600);
    assert_eq!(core.locale.clone().unwrap().requested, "de-DE");
    assert!(core.game_skip.pending);
    assert_eq!(core.state, GameState::MainMenu);
    // the write back of the re-apply is swallowed
    assert!(!core.hot_reload_game(&vec![AssetEvent::Modified(0)], &Some(game_def(None))));
    assert_eq!(core.camera.unwrap().height, 600);
    assert!(!core.game_skip.pending);
    // no events, nothing happens
    assert!(!core.hot_reload_game(&vec![], &Some(game_def(None))));
    // a real change with an unresolved definition does not arm the flag
    assert!(!core.hot_reload_game(&vec![AssetEvent::Modified(0)], &None));
    assert!(!core.game_skip.pending);
}

fn level_def() -> LevelDef {
    LevelDef {
        players: vec![
            FighterSpawn { fighter: 1, position: pos(0, 0) },
            FighterSpawn { fighter: 1, position: pos(10, 0) },
            FighterSpawn { fighter: 2, position: pos(20, 0) },
        ],
        enemies: vec![
            EnemySpawn { fighter: 3, position: pos(100, 5), boss: false },
            EnemySpawn { fighter: 3, position: pos(200, 5), boss: true },
        ],
        items: vec![ItemSpawn { item: 4, position: pos(50, 1) }],
        layers: vec![70, 71, 72],
        background_color: Color { r: 10, g: 20, b: 30, a: 255 },
    }
}

#[test]
fn level_with_players_enemies_and_item_loads_in_game() {
    let game_store = AssetStore { nodes: vec![node(true, vec![])] };
    // level 0 depends on fighters 1, 2, 3 and item 4
    let mut store = AssetStore {
        nodes: vec![
            node(true, vec![1, 2, 3, 4]),
            node(true, vec![]),
            node(false, vec![]),
            node(true, vec![]),
            node(false, vec![]),
        ],
    };
    let mut core = GameLoader::new();
    core.start();
    assert!(core.poll_game_gate(&game_store, 0, &Some(game_def(None))));
    assert!(core.poll_level_gate(&store, 0, &Some(level_def()), None).is_none());
    core.select_level();
    assert_eq!(core.state, GameState::LoadingLevel);
    assert!(core.poll_level_gate(&store, 0, &Some(level_def()), None).is_none());
    store.nodes[2].resolved = true;
    assert!(core.poll_level_gate(&store, 0, &Some(level_def()), None).is_none());
    assert_eq!(core.state, GameState::LoadingLevel);
    store.nodes[4].resolved = true;
    let spawn = core.poll_level_gate(&store, 0, &Some(level_def()), None).unwrap();
    assert_eq!(core.state, GameState::InGame);
    let players: Vec<&FighterEntity> =
        spawn.fighters.iter().filter(|f| matches!(f.role, Role::Player(_))).collect();
    let enemies: Vec<&FighterEntity> =
        spawn.fighters.iter().filter(|f| matches!(f.role, Role::Enemy { .. })).collect();
    assert_eq!(players.len(), 3);
    assert_eq!(enemies.len(), 2);
    assert!(matches!(players[2].role, Role::Player(2)));
    assert_eq!(players[2].fighter, 2);
    assert_eq!(enemies.iter().filter(|f| matches!(f.role, Role::Enemy { boss: true })).count(), 1);
    assert!(spawn.fighters.iter().all(|f| f.body.is_none()));
    assert_eq!(spawn.items.len(), 1);
    assert_eq!(spawn.items[0].item, 4);
    assert_eq!(spawn.items[0].position, pos(50, 1));
    let bg = core.background.clone().unwrap();
    assert_eq!(bg.layers, vec![70, 71, 72]);
    assert_eq!(bg.camera_height, 448);
    assert_eq!(core.clear_color, Some(Color { r: 10, g: 20, b: 30, a: 255 }));
    assert!(core.poll_level_gate(&store, 0, &Some(level_def()), None).is_none());
}

#[test]
fn level_hot_reload_refreshes_background_only() {
    let store = AssetStore { nodes: vec![node(true, vec![])] };
    let mut core = GameLoader::new();
    core.start();
    assert!(core.poll_game_gate(&store, 0, &Some(game_def(None))));
    core.select_level();
    assert!(core.poll_level_gate(&store, 0, &Some(level_def()), None).is_some());
    let mut edited = level_def();
    edited.layers = vec![90];
    edited.background_color = Color { r: 1, g: 2, b: 3, a: 4 };
    edited.players.clear();
    assert!(!core.hot_reload_level(&vec![AssetEvent::Modified(7)], 0, &Some(edited.clone())));
    assert!(core.hot_reload_level(&vec![AssetEvent::Modified(0)], 0, &Some(edited)));
    assert_eq!(core.background.clone().unwrap().layers, vec![90]);
    assert_eq!(core.clear_color, Some(Color { r: 1, g: 2, b: 3, a: 4 }));
    assert_eq!(core.level.as_ref().unwrap().players.len(), 3);
    core.return_to_menu();
    assert_eq!(core.state, GameState::MainMenu);
    assert!(core.level.is_none());
    assert!(core.camera.is_some());
    assert!(!core.hot_reload_level(&vec![AssetEvent::Modified(0)], 0, &Some(level_def())));
}

#[test]
fn stub_stays_until_handle_resolves_then_is_never_reselected() {
    let mut entities = vec![stub(0)];
    let mut store = FighterStore { defs: vec![None] };
    for _ in 0..5 {
        load_fighters(&mut entities, &store);
        assert!(entities[0].body.is_none());
    }
    store.defs[0] = Some(fighter("Brute", vec![11, 12], 50));
    load_fighters(&mut entities, &store);
    let body = entities[0].body.clone().unwrap();
    assert!(body.atlas == 11 || body.atlas == 12);
    assert_eq!(body.name, "Brute");
    assert_eq!(body.health, 50);
    store.defs[0] = Some(fighter("Other", vec![99], 80));
    for _ in 0..3 {
        load_fighters(&mut entities, &store);
        assert_eq!(entities[0].body.clone().unwrap().name, "Brute");
        assert_eq!(entities[0].body.clone().unwrap().atlas, body.atlas);
    }
}

#[test]
fn materialize_stub_uses_chosen_variant() {
    let def = fighter("Slinger", vec![21, 22, 23], 30);
    let e = materialize_stub(&stub(4), &def, 23);
    let body = e.body.unwrap();
    assert_eq!(body.atlas, 23);
    assert_eq!(body.name, "Slinger");
    assert_eq!(body.stats, stats(30));
    assert_eq!(body.animation.fps, 12);
    assert_eq!(body.animation.set, 40);
    assert_eq!(e.fighter, 4);
    assert_eq!(e.position, pos(1, 2));
}

#[test]
fn reload_fighter_keeps_health() {
    let old = materialize_stub(&stub(0), &fighter("A", vec![1], 10), 1);
    let mut hurt = old.clone();
    hurt.body.as_mut().unwrap().health = 4;
    let r = reload_fighter(&hurt, &fighter("B", vec![8, 9], 70), 9);
    let b = r.body.unwrap();
    assert_eq!(b.name, "B");
    assert_eq!(b.atlas, 9);
    assert_eq!(b.stats, stats(70));
    assert_eq!(b.health, 4);
    assert_eq!(r.position, pos(1, 2));
}

#[test]
fn random_atlas_is_one_of_the_declared() {
    let store = FighterStore { defs: vec![Some(fighter("A", vec![5, 6, 7], 10))] };
    let mut entities: Vec<FighterEntity> = (0..20).map(|_| stub(0)).collect();
    load_fighters(&mut entities, &store);
    for e in &entities {
        let a = e.body.as_ref().unwrap().atlas;
        assert!(a == 5 || a == 6 || a == 7);
    }
}

#[test]
fn fighter_hot_reload_updates_all_referencing_entities() {
    let mut store = FighterStore {
        defs: vec![Some(fighter("Old", vec![1], 40)), Some(fighter("Else", vec![2], 60))],
    };
    let mut entities: Vec<FighterEntity> = (0..4).map(|_| stub(0)).collect();
    entities.push(stub(1));
    load_fighters(&mut entities, &store);
    for e in entities.iter_mut() {
        if let Some(b) = e.body.as_mut() {
            b.health = 7;
        }
    }
    store.defs[0] = Some(FighterDef { animation_fps: 24, animation_set: 41, ..fighter("New", vec![3], 90) });
    hot_reload_fighters(&mut entities, &store, &vec![AssetEvent::Modified(0)]);
    for e in &entities[0..4] {
        let b: &FighterBody = e.body.as_ref().unwrap();
        assert_eq!(b.name, "New");
        assert_eq!(b.atlas, 3);
        assert_eq!(b.animation.fps, 24);
        assert_eq!(b.animation.set, 41);
        assert_eq!(b.stats, stats(90));
        assert_eq!(b.health, 7);
    }
    let other = entities[4].body.as_ref().unwrap();
    assert_eq!(other.name, "Else");
    assert_eq!(other.atlas, 2);
    assert_eq!(other.stats, stats(60));
}

#[test]
fn fighter_hot_reload_ignores_stubs_and_other_events() {
    let store = FighterStore { defs: vec![Some(fighter("F", vec![1], 40))] };
    let mut entities = vec![stub(0)];
    hot_reload_fighters(&mut entities, &store, &vec![AssetEvent::Modified(0)]);
    assert!(entities[0].body.is_none());
    load_fighters(&mut entities, &store);
    entities[0].body.as_mut().unwrap().health = 3;
    hot_reload_fighters(&mut entities, &store, &vec![AssetEvent::Created(0), AssetEvent::Modified(1)]);
    assert_eq!(entities[0].body.as_ref().unwrap().health, 3);
}

#[test]
fn items_get_sprites_once_resolved() {
    let mut store = ItemStore { defs: vec![None, Some(ItemDef { image: 77 })] };
    let mut items = vec![
        ItemEntity { position: pos(0, 0), item: 0, spawn_sprite: true, sprite: None },
        ItemEntity { position: pos(1, 0), item: 1, spawn_sprite: true, sprite: None },
        ItemEntity { position: pos(2, 0), item: 1, spawn_sprite: false, sprite: None },
    ];
    load_items(&mut items, &store);
    assert_eq!(items[0].sprite, None);
    assert_eq!(items[1].sprite, Some(77));
    assert_eq!(items[1].position, pos(1, 0));
    assert_eq!(items[2].sprite, None);
    store.defs[0] = Some(ItemDef { image: 78 });
    store.defs[1] = Some(ItemDef { image: 79 });
    load_items(&mut items, &store);
    assert_eq!(items[0].sprite, Some(78));
    assert_eq!(items[1].sprite, Some(77));
}

#[test]
fn menu_bindings_cover_every_action() {
    let map = menu_input_map();
    assert_eq!(map.len(), 21);
    assert_eq!(map[0], (MenuInput::Key(Key::Up), MenuAction::Up));
    assert_eq!(
        map[5],
        (MenuInput::Stick { axis: StickAxis::LeftStickX, positive_low: 100, negative_low: -50 }, MenuAction::Left)
    );
    assert!(map.contains(&(MenuInput::Button(PadButton::Start), MenuAction::Pause)));
    assert!(map.contains(&(MenuInput::Key(Key::Escape), MenuAction::Back)));
    assert!(map.contains(&(MenuInput::Key(Key::F11), MenuAction::ToggleFullscreen)));
}

#[test]
fn tick_runs_a_whole_session() {
    // 0: game; 1: level -> fighters 2, 3 and item 4
    let graph = AssetStore {
        nodes: vec![
            node(true, vec![]),
            node(true, vec![2, 3, 4]),
            node(true, vec![]),
            node(true, vec![]),
            node(true, vec![]),
        ],
    };
    let mut level = level_def();
    for p in level.players.iter_mut() {
        p.fighter = 0;
    }
    for e in level.enemies.iter_mut() {
        e.fighter = 1;
    }
    level.items[0].item = 0;
    let mut fighters = FighterStore { defs: vec![Some(fighter("Hero", vec![1], 100)), None] };
    let items = ItemStore { defs: vec![Some(ItemDef { image: 9 })] };
    let quiet = TickEvents { game: vec![], level: vec![], fighters: vec![] };
    let mut world = World { fighters: vec![], items: vec![], player_settings: None };
    let mut core = GameLoader::new();
    core.start();
    let game = Some(game_def(None));
    let lv = Some(level);

    let r = core.tick(&mut world, &graph, 0, &game, 1, &lv, Some(vec![7u8]), &fighters, &items, &quiet, true);
    assert!(r.game_loaded && !r.level_loaded && !r.game_reloaded);
    assert_eq!(core.state, GameState::MainMenu);
    let r = core.tick(&mut world, &graph, 0, &game, 1, &lv, Some(vec![7u8]), &fighters, &items, &quiet, true);
    assert_eq!(r, TickReport { game_loaded: false, level_loaded: false, game_reloaded: false, level_reloaded: false });

    core.select_level();
    let r = core.tick(&mut world, &graph, 0, &game, 1, &lv, Some(vec![7u8]), &fighters, &items, &quiet, true);
    assert!(r.level_loaded);
    assert_eq!(world.player_settings, Some(vec![7u8]));
    assert_eq!(core.state, GameState::InGame);
    assert_eq!(world.fighters.len(), 5);
    assert_eq!(world.items.len(), 1);
    assert!(world.fighters.iter().all(|f| f.body.is_none()));

    core.tick(&mut world, &graph, 0, &game, 1, &lv, Some(vec![7u8]), &fighters, &items, &quiet, true);
    assert_eq!(world.fighters.iter().filter(|f| f.body.is_some()).count(), 3);
    assert_eq!(world.items[0].sprite, Some(9));

    fighters.defs[1] = Some(fighter("Goon", vec![2], 20));
    fighters.defs[0] = Some(fighter("Hero2", vec![1], 120));
    let edits = TickEvents { game: vec![], level: vec![], fighters: vec![AssetEvent::Modified(0)] };
    core.tick(&mut world, &graph, 0, &game, 1, &lv, Some(vec![7u8]), &fighters, &items, &edits, true);
    assert!(world.fighters.iter().all(|f| f.body.is_some()));
    let heroes: Vec<&FighterEntity> = world.fighters.iter().filter(|f| f.fighter == 0).collect();
    assert!(heroes.iter().all(|f| f.body.as_ref().unwrap().name == "Hero2"));
    assert!(heroes.iter().all(|f| f.body.as_ref().unwrap().health == 100));

    let game_edit = TickEvents { game: vec![AssetEvent::Modified(0)], level: vec![], fighters: vec![] };
    let r = core.tick(&mut world, &graph, 0, &game, 1, &lv, Some(vec![7u8]), &fighters, &items, &game_edit, true);
    assert!(r.game_reloaded);
    let r = core.tick(&mut world, &graph, 0, &game, 1, &lv, Some(vec![7u8]), &fighters, &items, &game_edit, true);
    assert!(!r.game_reloaded);
    let r = core.tick(&mut world, &graph, 0, &game, 1, &lv, Some(vec![7u8]), &fighters, &items, &game_edit, false);
    assert!(!r.game_reloaded);
}
