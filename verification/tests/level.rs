use matubokkuri::components::{
    Bird, BirdState, Bullet, Components, Entity, Matubokkuri, Motion, Position, Row,
};
use matubokkuri::scenes::level::{
    dispatch, handle_mouse, new_bird, set_open, shot_bullet, tally, LevelScene, Mouse,
};
use matubokkuri::components::GameState;
use matubokkuri::store::{register_components, CAPACITY};
use matubokkuri::systems::{MatubokkuriSystem, WindowMode};
use matubokkuri::table::Store;
use matubokkuri::types::{Point2, Vector2};
use specs::Builder;

fn px(n: i64) -> i64 {
    n * 1000
}

fn at(x: i64, y: i64) -> Option<Position> {
    Some(Position(Point2 { x, y }))
}

fn moving(vx: i64, vy: i64, ax: i64, ay: i64) -> Option<Motion> {
    Some(Motion { velocity: Vector2 { x: vx, y: vy }, acceleration: Vector2 { x: ax, y: ay } })
}

fn cone_at(x: i64, y: i64, m: Matubokkuri) -> Components {
    Components {
        position: at(x, y),
        motion: moving(0, 0, 0, 0),
        matubokkuri: Some(m),
        ..Components::none()
    }
}

fn landed() -> Matubokkuri {
    let mut m = Matubokkuri::default();
    m.deactivate();
    m
}

fn row(index: u32, components: Components) -> Row {
    Row { id: Entity { index, generation: 1 }, deleted: false, components }
}

fn idle() -> Mouse {
    Mouse { left: false, right: false, position: Point2 { x: 0, y: 0 } }
}

fn window() -> WindowMode {
    WindowMode { width: px(800), height: px(600) }
}


#[test]
fn score_sums_the_landed_cones() {
    let rows = vec![
        row(0, cone_at(px(10), px(540), landed())),
        row(1, cone_at(px(20), px(540), landed())),
        row(2, cone_at(px(30), px(540), landed())),
        row(3, cone_at(px(999), px(300), Matubokkuri::default())),
    ];
    assert_eq!(tally(&rows), 60);
}

#[test]
fn score_leaves_out_what_a_bird_carries() {
    let carried = Matubokkuri { is_bringing: true, ..landed() };
    let rows = vec![
        row(0, cone_at(px(10), px(540), landed())),
        row(1, cone_at(px(500), px(100), carried)),
        row(2, Components { matubokkuri: Some(landed()), ..Components::none() }),
        row(3, Components { position: at(px(77), 0), bullet: Some(Bullet::default()), ..Components::none() }),
    ];
    assert_eq!(tally(&rows), 10);
    assert_eq!(tally(&Vec::new()), 0);
}

#[test]
fn score_rounds_the_sum_toward_zero() {
    let rows = vec![row(0, cone_at(10_600, 0, landed())), row(1, cone_at(20_600, 0, landed()))];
    assert_eq!(tally(&rows), 31);
    let rows = vec![row(0, cone_at(-10_600, 0, landed())), row(1, cone_at(-20_600, 0, landed()))];
    assert_eq!(tally(&rows), -31);
    let rows = vec![row(0, cone_at(-500, 0, landed()))];
    assert_eq!(tally(&rows), 0);
    let rows = vec![row(0, cone_at(px(5), 0, landed())), row(1, cone_at(px(-7), 0, landed()))];
    assert_eq!(tally(&rows), -2);
}

#[test]
fn score_stops_at_the_ends_of_its_range() {
    let rows = vec![row(0, cone_at(i64::MAX, 0, landed())), row(1, cone_at(i64::MAX, 0, landed()))];
    assert_eq!(tally(&rows), i32::MAX);
    let rows = vec![row(0, cone_at(i64::MIN, 0, landed())), row(1, cone_at(i64::MIN, 0, landed()))];
    assert_eq!(tally(&rows), i32::MIN);
    let rows = vec![row(0, cone_at(px(i32::MAX as i64), 0, landed()))];
    assert_eq!(tally(&rows), i32::MAX);
    let rows = vec![row(0, cone_at(px(i32::MIN as i64), 0, landed()))];
    assert_eq!(tally(&rows), i32::MIN);
    let rows = vec![row(0, cone_at(px(i32::MIN as i64) + 1, 0, landed()))];
    assert_eq!(tally(&rows), i32::MIN + 1);
}

#[test]
fn left_button_fires_from_every_falling_cone() {
    let mut rows = vec![
        row(0, cone_at(px(100), px(100), Matubokkuri { is_open: true, ..Matubokkuri::default() })),
        row(1, cone_at(px(50), px(540), landed())),
        row(2, Components { matubokkuri: Some(Matubokkuri::default()), ..Components::none() }),
        row(3, cone_at(px(725), px(125), Matubokkuri::default())),
    ];
    let mut pending = vec![new_bird()];
    let mouse = Mouse { left: true, right: true, position: Point2 { x: px(425), y: px(525) } };
    handle_mouse(&mut rows, &mut pending, &mouse);
    assert_eq!(pending.len(), 3);
    assert_eq!(pending[0], new_bird());
    assert_eq!(
        pending[1],
        Components {
            position: at(px(125), px(125)),
            motion: moving(1800, 2400, 0, 0),
            bullet: Some(Bullet::default()),
            ..Components::none()
        }
    );
    assert_eq!(
        pending[2],
        Components {
            position: at(px(750), px(150)),
            motion: moving(-1964, 2267, 0, 0),
            bullet: Some(Bullet::default()),
            ..Components::none()
        }
    );
    assert!(rows.iter().all(|r| !r.components.matubokkuri.unwrap().is_open));
}

#[test]
fn shot_at_the_muzzle_itself_does_not_move() {
    let rows = vec![row(0, cone_at(px(100), px(100), Matubokkuri::default()))];
    let mut pending = Vec::new();
    shot_bullet(&rows, Point2 { x: px(125), y: px(125) }, &mut pending);
    assert_eq!(pending.len(), 1);
    assert_eq!(pending[0].motion, moving(0, 0, 0, 0));
    assert_eq!(pending[0].position, at(px(125), px(125)));
}

#[test]
fn right_button_alone_opens_the_cones() {
    let mut rows = vec![
        row(0, cone_at(px(100), px(100), Matubokkuri::default())),
        row(1, cone_at(px(50), px(540), landed())),
        row(2, Components { position: at(1, 2), ..Components::none() }),
    ];
    let mut pending = Vec::new();
    handle_mouse(&mut rows, &mut pending, &Mouse { right: true, ..idle() });
    assert!(pending.is_empty());
    assert!(rows[0].components.matubokkuri.unwrap().is_open);
    assert!(rows[1].components.matubokkuri.unwrap().is_open);
    assert_eq!(rows[2], row(2, Components { position: at(1, 2), ..Components::none() }));
    handle_mouse(&mut rows, &mut pending, &idle());
    assert!(pending.is_empty());
    assert!(!rows[0].components.matubokkuri.unwrap().is_open);
    assert!(!rows[1].components.matubokkuri.unwrap().is_open);
    set_open(&mut rows, true);
    assert!(rows[0].components.matubokkuri.unwrap().is_open);
    assert!(rows[0].components.matubokkuri.unwrap().is_active());
}

#[test]
fn arriving_bird_flies_in_from_the_right() {
    let b = new_bird();
    assert_eq!(b.position, at(px(800), px(200)));
    assert_eq!(b.motion, moving(-2000, 0, 0, 0));
    assert_eq!(b.bird, Some(Bird { state: BirdState::Entry, grab_timer: 100, is_active: true }));
    assert_eq!(b.matubokkuri, None);
    assert_eq!(b.bullet, None);
}

#[test]
fn dispatch_runs_the_systems_in_order() {
    // the cone is moved below the ground line, and lands in the same frame;
    // the shot is moved into the bird, and hits it in the same frame;
    // the seeking bird finds the cone that has just landed
    let mut rows = vec![
        row(
            0,
            Components {
                position: at(px(240), px(540)),
                motion: moving(0, 1000, 0, 10),
                matubokkuri: Some(Matubokkuri::default()),
                ..Components::none()
            },
        ),
        row(
            1,
            Components {
                position: at(px(100), px(90)),
                motion: moving(0, 20_000, 0, 0),
                bullet: Some(Bullet::default()),
                ..Components::none()
            },
        ),
        row(
            2,
            Components {
                position: at(px(100), px(100)),
                motion: moving(0, 0, 0, 0),
                bird: Some(Bird { state: BirdState::Entry, ..Bird::default() }),
                ..Components::none()
            },
        ),
        row(
            3,
            Components {
                position: at(px(400), px(200)),
                motion: moving(-2000, 0, 0, 0),
                bird: Some(Bird { state: BirdState::Seeking, ..Bird::default() }),
                ..Components::none()
            },
        ),
    ];
    let mut pending = Vec::new();
    let mut game_state = GameState::default();
    dispatch(&mut rows, &mut pending, &mut game_state, &window());
    assert_eq!(rows[0].components.position, at(px(240), px(541)));
    assert_eq!(
        rows[0].components.matubokkuri,
        Some(Matubokkuri { is_open: false, is_active: false, is_target: true, is_bringing: false })
    );
    assert_eq!(rows[0].components.motion, moving(0, 0, 0, 0));
    assert_eq!(game_state.matubokkuri_fall, 1);
    assert_eq!(pending, vec![MatubokkuriSystem::new_matubokkuri()]);
    assert!(rows[1].deleted && rows[2].deleted);
    assert!(!rows[1].components.bullet.unwrap().is_active());
    assert!(!rows[2].components.bird.unwrap().is_active());
    // a bird that has been shot takes no turn
    assert_eq!(rows[2].components.bird.unwrap().state, BirdState::Entry);
    assert_eq!(rows[3].components.bird.unwrap().state, BirdState::Reaching(rows[0].id));
    assert_eq!(rows[3].components.position, at(px(398), px(200)));
    assert!(!rows[3].deleted && !rows[0].deleted);
}

#[test]
fn store_gives_back_what_was_spawned() {
    let mut store = Store::new();
    assert!(store.load().is_empty());
    assert_eq!(store.remaining(), CAPACITY);
    let cone = cone_at(px(240), px(110), Matubokkuri::default());
    let bird = new_bird();
    let a = store.spawn(&cone).unwrap();
    let b = store.spawn(&bird).unwrap();
    let c = store.spawn(&Components::none()).unwrap();
    assert_ne!(a.index, b.index);
    assert_ne!(b.index, c.index);
    assert_ne!(a.index, c.index);
    assert_eq!(store.remaining(), CAPACITY - 3);
    let rows = store.load();
    assert_eq!(
        rows,
        vec![
            Row { id: a, deleted: false, components: cone },
            Row { id: b, deleted: false, components: bird },
            Row { id: c, deleted: false, components: Components::none() },
        ]
    );
    assert_eq!(store.entities(), vec![(a, cone), (b, bird), (c, Components::none())]);
}

#[test]
fn store_keeps_what_was_saved() {
    let mut store = Store::new();
    let a = store.spawn(&cone_at(px(240), px(110), Matubokkuri::default())).unwrap();
    let b = store.spawn(&new_bird()).unwrap();
    let s = store
        .spawn(&Components {
            position: at(1, 1),
            motion: moving(1, 1, 1, 1),
            bullet: Some(Bullet::default()),
            ..Components::none()
        })
        .unwrap();
    let mut rows = store.load();
    rows[0].components.position = at(px(1), px(2));
    rows[0].components.matubokkuri = Some(landed());
    rows[1].components.motion = moving(5, 6, 7, 8);
    rows[1].components.bird =
        Some(Bird { state: BirdState::Reaching(a), grab_timer: 3, is_active: true });
    rows[2].components.bullet = Some(Bullet { is_active: false });
    store.save(&rows);
    let again = store.load();
    assert_eq!(again, rows);
    assert_eq!(again[0].id, a);
    assert_eq!(again[1].id, b);
    assert_eq!(again[2].id, s);
    assert_eq!(again[0].components.motion, moving(0, 0, 0, 0));
    assert_eq!(again[1].components.bird.unwrap().state, BirdState::Reaching(a));
    assert_eq!(again[2].components.position, at(1, 1));
    assert_eq!(store.remaining(), CAPACITY - 3);
}

#[test]
fn marked_entity_is_gone_after_the_commit() {
    let mut store = Store::new();
    let a = store.spawn(&cone_at(px(240), px(110), Matubokkuri::default())).unwrap();
    let b = store.spawn(&new_bird()).unwrap();
    let c = store.spawn(&cone_at(px(10), px(540), landed())).unwrap();
    let mut rows = store.load();
    rows[1].deleted = true;
    store.save(&rows);
    // until the commit the entity is still there, with its components
    let between = store.entities();
    assert_eq!(between.len(), 3);
    assert_eq!(between[1], (b, new_bird()));
    let mut pending = Vec::new();
    store.commit(&mut pending);
    let after = store.load();
    assert_eq!(after.len(), 2);
    assert_eq!(after[0].id, a);
    assert_eq!(after[1].id, c);
    assert_eq!(after[0].components, cone_at(px(240), px(110), Matubokkuri::default()));
    assert_eq!(after[1].components, cone_at(px(10), px(540), landed()));
    assert!(after.iter().all(|r| r.id != b && !r.deleted));
    assert_eq!(store.remaining(), CAPACITY - 3);
}

#[test]
fn commit_lets_the_queue_in() {
    let mut store = Store::new();
    let old = store.spawn(&cone_at(px(10), px(540), landed())).unwrap();
    let mut pending = vec![new_bird(), MatubokkuriSystem::new_matubokkuri()];
    store.commit(&mut pending);
    assert!(pending.is_empty());
    let rows = store.load();
    assert_eq!(rows.len(), 3);
    assert_eq!(rows.iter().filter(|r| r.id == old).count(), 1);
    assert_eq!(rows.iter().filter(|r| r.components == new_bird()).count(), 1);
    assert_eq!(
        rows.iter().filter(|r| r.components == MatubokkuriSystem::new_matubokkuri()).count(),
        1
    );
    let mut slots: Vec<u32> = rows.iter().map(|r| r.id.index).collect();
    slots.sort();
    slots.dedup();
    assert_eq!(slots.len(), 3);
    assert_eq!(store.remaining(), CAPACITY - 3);
}

#[test]
fn new_entity_in_an_old_slot_has_a_new_name() {
    let mut store = Store::new();
    let a = store.spawn(&new_bird()).unwrap();
    let mut rows = store.load();
    rows[0].deleted = true;
    store.save(&rows);
    let mut pending = vec![cone_at(px(10), px(540), landed())];
    store.commit(&mut pending);
    let rows = store.load();
    assert_eq!(rows.len(), 1);
    assert_ne!(rows[0].id, a);
    assert_eq!(rows[0].components, cone_at(px(10), px(540), landed()));
    assert_eq!(rows[0].components.bird, None);
}

#[test]
fn registered_world_takes_every_component() {
    let mut world = specs::World::new();
    register_components(&mut world);
    let e = world.create_entity().build();
    world.write_storage::<Position>().insert(e, Position(Point2 { x: 1, y: 2 })).unwrap();
    world.write_storage::<Motion>().insert(e, moving(1, 2, 3, 4).unwrap()).unwrap();
    world.write_storage::<Matubokkuri>().insert(e, landed()).unwrap();
    world.write_storage::<Bullet>().insert(e, Bullet::default()).unwrap();
    world.write_storage::<Bird>().insert(e, Bird::default()).unwrap();
    // registering again keeps what is stored
    register_components(&mut world);
    assert_eq!(world.read_storage::<Position>().get(e), Some(&Position(Point2 { x: 1, y: 2 })));
    assert_eq!(world.read_storage::<Motion>().get(e), moving(1, 2, 3, 4).as_ref());
    assert_eq!(world.read_storage::<Matubokkuri>().get(e), Some(&landed()));
    assert_eq!(world.read_storage::<Bullet>().get(e), Some(&Bullet::default()));
    assert_eq!(world.read_storage::<Bird>().get(e), Some(&Bird::default()));
}

#[test]
fn new_level_waits_for_its_first_cone() {
    let scene = LevelScene::new();
    assert!(scene.entities().is_empty());
    assert_eq!(scene.queued(), &vec![MatubokkuriSystem::new_matubokkuri()]);
    assert_eq!(scene.score(), 0);
    assert_eq!(scene.falls(), 0);
    assert!(!scene.is_done());
}

#[test]
fn first_frame_brings_the_cone_in_and_moves_it() {
    let mut scene = LevelScene::new();
    assert_eq!(scene.update(&idle(), &window()), None);
    let entities = scene.entities();
    assert_eq!(entities.len(), 1);
    assert_eq!(entities[0].1.position, at(px(240), px(111)));
    assert_eq!(entities[0].1.motion, moving(0, 1010, 0, 10));
    assert_eq!(entities[0].1.matubokkuri, Some(Matubokkuri::default()));
    assert!(scene.queued().is_empty());
}

#[test]
fn held_right_button_makes_the_cone_drift() {
    let mut scene = LevelScene::new();
    let right = Mouse { right: true, ..idle() };
    scene.update(&right, &window());
    assert!(scene.entities()[0].1.matubokkuri.unwrap().is_open);
    assert_eq!(scene.entities()[0].1.position, at(px(240), px(111)));
    scene.update(&right, &window());
    // the drift is set in the second frame and moves the cone in the third
    assert_eq!(scene.entities()[0].1.motion, moving(1500, 1020, 0, 10));
    assert_eq!(scene.entities()[0].1.position, at(px(240), px(112) + 10));
    scene.update(&idle(), &window());
    assert_eq!(scene.entities()[0].1.position, at(px(240) + 1500, px(113) + 30));
    assert!(!scene.entities()[0].1.matubokkuri.unwrap().is_open);
}

#[test]
fn shots_enter_one_frame_after_the_button() {
    let mut scene = LevelScene::new();
    scene.update(&idle(), &window());
    let aim = Point2 { x: px(265), y: px(136) + 300_000 };
    scene.update(&Mouse { left: true, right: false, position: aim }, &window());
    assert_eq!(scene.entities().len(), 1);
    let shot = Components {
        position: at(px(265), px(137) + 10),
        motion: moving(0, 3000, 0, 0),
        bullet: Some(Bullet::default()),
        ..Components::none()
    };
    assert_eq!(scene.queued(), &vec![shot]);
    scene.update(&idle(), &window());
    let entities = scene.entities();
    assert_eq!(entities.len(), 2);
    let bullet = entities.iter().find(|e| e.1.bullet.is_some()).unwrap();
    assert_eq!(bullet.1.position, at(px(265), px(140) + 10));
    assert_eq!(bullet.1.motion, moving(0, 3000, 0, 0));
}

#[test]
fn bird_arrives_when_the_timer_has_run_out() {
    let mut scene = LevelScene::new();
    let tall = WindowMode { width: px(800), height: px(1_000_000) };
    for _ in 0..180 {
        scene.update(&idle(), &tall);
        assert!(scene.queued().is_empty());
    }
    scene.update(&idle(), &tall);
    assert_eq!(scene.queued(), &vec![new_bird()]);
    scene.update(&idle(), &tall);
    assert!(scene.queued().is_empty());
    let entities = scene.entities();
    assert_eq!(entities.len(), 2);
    let bird = entities.iter().find(|e| e.1.bird.is_some()).unwrap();
    assert_eq!(bird.1.position, at(px(798), px(200)));
    for _ in 0..179 {
        scene.update(&idle(), &tall);
        assert!(scene.queued().is_empty());
    }
    scene.update(&idle(), &tall);
    assert_eq!(scene.queued(), &vec![new_bird()]);
}

#[test]
fn nothing_lands_in_a_thousand_frames_of_a_deep_level() {
    let mut scene = LevelScene::new();
    let deep = WindowMode { width: px(800), height: px(1_000_000) };
    for _ in 0..1000 {
        assert_eq!(scene.update(&idle(), &deep), None);
        assert_eq!(scene.falls(), 0);
        assert_eq!(scene.score(), 0);
        assert!(!scene.is_done());
    }
    let cones: Vec<Components> =
        scene.entities().iter().map(|e| e.1).filter(|c| c.matubokkuri.is_some()).collect();
    assert_eq!(cones.len(), 1);
    assert!(cones[0].matubokkuri.unwrap().is_active());
}

#[test]
fn game_is_over_when_the_tenth_cone_lands() {
    let mut scene = LevelScene::new();
    // the ground line is above the tree: every cone lands in its first frame
    let shallow = WindowMode { width: px(800), height: 0 };
    for frame in 1..10 {
        assert_eq!(scene.update(&idle(), &shallow), None);
        assert_eq!(scene.falls(), frame);
        assert_eq!(scene.score(), 240 * (frame as i32));
        assert!(!scene.is_done());
    }
    assert_eq!(scene.update(&idle(), &shallow), Some(2400));
    assert_eq!(scene.falls(), 10);
    assert!(scene.is_done());
    assert_eq!(scene.score(), 2400);
    // the end is final
    assert_eq!(scene.update(&idle(), &shallow), Some(2640));
    assert_eq!(scene.falls(), 11);
    assert!(scene.is_done());
}

#[test]
fn menu_button_ends_the_game() {
    let mut scene = LevelScene::new();
    scene.input(false);
    assert!(!scene.is_done());
    assert_eq!(scene.update(&idle(), &window()), None);
    scene.input(true);
    assert!(scene.is_done());
    scene.input(false);
    assert!(scene.is_done());
    assert_eq!(scene.update(&idle(), &window()), Some(0));
}

#[test]
fn bird_carries_a_landed_cone_away_and_a_shot_frees_it() {
    let mut scene = LevelScene::new();
    let w = window();
    // a landed cone left of the tree, and a bird right above it
    scene.input(false);
    scene.spawn(cone_at(px(300), px(541), landed()));
    scene.spawn(Components {
        position: at(px(300), px(531)),
        motion: moving(0, 0, 0, 0),
        bird: Some(Bird { state: BirdState::Seeking, grab_timer: 2, is_active: true }),
        ..Components::none()
    });
    scene.update(&idle(), &w);
    let landed_id = scene.entities().iter().find(|e| e.1.matubokkuri == Some(Matubokkuri { is_target: true, ..landed() })).unwrap().0;
    let bird_of = |scene: &LevelScene| scene.entities().iter().find(|e| e.1.bird.is_some()).unwrap().1;
    let cone_of = |scene: &LevelScene| scene.entities().iter().find(|e| e.0 == landed_id).unwrap().1;
    assert_eq!(bird_of(&scene).bird.unwrap().state, BirdState::Reaching(landed_id));
    assert_eq!(scene.score(), 300);
    // it flies down at two pixels a frame until it is less than one pixel away
    let mut frames = 0;
    while bird_of(&scene).bird.unwrap().state == BirdState::Reaching(landed_id) {
        scene.update(&idle(), &w);
        frames += 1;
        assert!(frames < 20);
    }
    assert_eq!(frames, 6);
    assert_eq!(bird_of(&scene).bird.unwrap().state, BirdState::Grabbing(landed_id));
    assert_eq!(bird_of(&scene).position, at(px(300), px(541)));
    scene.update(&idle(), &w);
    assert_eq!(bird_of(&scene).bird.unwrap().state, BirdState::Grabbing(landed_id));
    scene.update(&idle(), &w);
    assert_eq!(bird_of(&scene).bird.unwrap().state, BirdState::Bringing(landed_id));
    assert_eq!(scene.score(), 300);
    scene.update(&idle(), &w);
    assert!(cone_of(&scene).matubokkuri.unwrap().is_bringing);
    assert_eq!(scene.score(), 0);
    assert_eq!(cone_of(&scene).position, at(px(300), px(541)));
    scene.update(&idle(), &w);
    // the cone trails the bird by one frame
    assert_eq!(bird_of(&scene).position, at(px(300) + 1500, px(541) - 2000));
    assert_eq!(cone_of(&scene).position, at(px(300), px(541)));
    scene.update(&idle(), &w);
    assert_eq!(bird_of(&scene).position, at(px(303), px(537)));
    assert_eq!(cone_of(&scene).position, at(px(300) + 1500, px(541) - 2000));
    // a shot into the bird
    scene.spawn(Components {
        position: at(px(305) + 500, px(536)),
        motion: moving(0, 0, 0, 0),
        bullet: Some(Bullet::default()),
        ..Components::none()
    });
    scene.update(&idle(), &w);
    let b = bird_of(&scene);
    assert!(!b.bird.unwrap().is_active());
    assert_eq!(
        cone_of(&scene).matubokkuri,
        Some(Matubokkuri { is_open: false, is_active: false, is_target: false, is_bringing: false })
    );
    // the cone was one frame behind the bird, and drops from there
    assert_eq!(cone_of(&scene).position, at(px(300) + 1500, px(540)));
    assert_eq!(scene.score(), 301);
    scene.update(&idle(), &w);
    assert!(scene.entities().iter().all(|e| e.1.bird.is_none() && e.1.bullet.is_none()));
    assert_eq!(scene.score(), 301);
}

#[test]
fn rows_come_in_the_order_of_their_slots() {
    let mut store = Store::new();
    let a = store.spawn(&new_bird()).unwrap();
    let b = store.spawn(&cone_at(px(1), px(1), landed())).unwrap();
    let c = store.spawn(&cone_at(px(2), px(2), landed())).unwrap();
    assert!(a.index < b.index && b.index < c.index);
    let mut rows = store.load();
    rows[0].deleted = true;
    store.save(&rows);
    let mut pending = vec![cone_at(px(3), px(3), landed()), cone_at(px(4), px(4), landed())];
    store.commit(&mut pending);
    let rows = store.load();
    assert_eq!(rows.len(), 4);
    for pair in rows.windows(2) {
        assert!(pair[0].id.index < pair[1].id.index);
    }
    // the two that stayed keep their names and their order
    let stayed: Vec<Entity> = rows.iter().map(|r| r.id).filter(|id| *id == b || *id == c).collect();
    assert_eq!(stayed, vec![b, c]);
    // the freed slot is taken again, by an entity of a later generation
    let reused = rows.iter().find(|r| r.id.index == a.index).unwrap();
    assert!(reused.id.generation > a.generation);
    assert!(reused.components.bird.is_none());
}

#[test]
fn one_cone_is_in_play_in_every_frame() {
    let mut scene = LevelScene::new();
    let mut landings = 0;
    for frame in 0..700 {
        let mouse = Mouse { left: frame % 50 == 0, right: frame % 3 == 0, position: Point2 { x: px(700), y: px(100) } };
        let before = scene.falls();
        scene.update(&mouse, &window());
        let falling = scene
            .entities()
            .iter()
            .filter(|e| e.1.matubokkuri.map_or(false, |m| m.is_active()))
            .count();
        let waiting =
            scene.queued().iter().filter(|c| c.matubokkuri.map_or(false, |m| m.is_active())).count();
        assert_eq!(falling + waiting, 1);
        assert!(scene.falls() == before || scene.falls() == before + 1);
        if scene.falls() == before + 1 {
            landings += 1;
            assert_eq!(waiting, 1);
        }
    }
    assert_eq!(scene.falls(), landings);
    assert!(landings >= 2);
    assert!(!scene.is_done());
}

#[test]
fn full_store_takes_no_more() {
    let mut store = Store::new();
    for _ in 1..CAPACITY {
        assert!(store.spawn(&Components::none()).is_some());
    }
    assert_eq!(store.remaining(), 1);
    let last = store.spawn(&new_bird()).unwrap();
    assert_eq!(last.index, CAPACITY - 1);
    assert_eq!(store.remaining(), 0);
    assert_eq!(store.spawn(&new_bird()), None);
    assert_eq!(store.remaining(), 0);
    // the entity in the highest slot is there, with its components
    let mut rows = store.load();
    assert_eq!(rows.len(), CAPACITY as usize);
    assert_eq!(rows[rows.len() - 1], Row { id: last, deleted: false, components: new_bird() });
    // what is queued stays queued
    let mut pending = vec![new_bird(), MatubokkuriSystem::new_matubokkuri()];
    store.commit(&mut pending);
    assert_eq!(pending, vec![new_bird(), MatubokkuriSystem::new_matubokkuri()]);
    assert_eq!(store.entities().len(), CAPACITY as usize);
    // the highest slot can be written and left
    let top = rows.len() - 1;
    rows[top].components.position = at(px(1), px(2));
    rows[top].deleted = true;
    store.save(&rows);
    assert_eq!(store.entities()[top].1.position, at(px(1), px(2)));
    store.commit(&mut pending);
    assert_eq!(store.entities().len(), CAPACITY as usize - 1);
    // a slot that is free again does not make room: the count of creations stands
    assert_eq!(pending.len(), 2);
    assert_eq!(store.remaining(), 0);
    assert_eq!(store.spawn(&new_bird()), None);
}
