use invaders::dice::Dice;
use invaders::entities::{Bullet, Entity, Invader, MoveState, Moves, Player};
use invaders::geometry::{Point, Rect};
use invaders::input::{Command, InputState};
use invaders::world::{strike, State};

fn invader_at(x: i64, y: i64) -> Invader {
    Invader::spawned_at(Point { x, y }, Moves::with_allowed(100))
}

/// Four adversaries high up and out of the way, so that no spawn happens.
fn crowd() -> Vec<Invader> {
    vec![
        invader_at(100, 550),
        invader_at(250, 550),
        invader_at(550, 550),
        invader_at(650, 550),
    ]
}

#[test]
fn fire_spawns_one_bullet_and_resets_timeout() {
    let mut state = State::new();
    let mut dice = Dice::seeded(7);
    assert_eq!(state.player.position.x, 400);
    state.key_down_event(Command::Fire);
    let sig = state.update(&mut dice);
    assert!(sig.shot_fired);
    assert_eq!(state.bullets.len(), 1);
    assert_eq!(state.bullets[0].position.x, 440);
    // 0.3 s at 60 ticks per second
    assert_eq!(state.player.shot_timeout, 18);
}

#[test]
fn fire_waits_for_timeout() {
    let mut state = State::new();
    let mut dice = Dice::seeded(7);
    state.key_down_event(Command::Fire);
    state.update(&mut dice);
    let mut shots = 0;
    for _ in 0..17 {
        if state.update(&mut dice).shot_fired {
            shots += 1;
        }
    }
    assert_eq!(shots, 0);
    assert!(state.update(&mut dice).shot_fired);
}

#[test]
fn bullet_kills_adversary_and_scores() {
    let mut state = State::new();
    let mut dice = Dice::seeded(1);
    let mut invaders = crowd();
    invaders.push(invader_at(400, 400));
    state.invaders = invaders;
    state.bullets = vec![Bullet { position: Point { x: 420, y: 370 } }];
    let sig = state.update(&mut dice);
    assert_eq!(sig.bullet_hits, 1);
    assert_eq!(state.points, 1);
    assert!(state.bullets.is_empty());
    assert_eq!(state.invaders.len(), 4);
}

#[test]
fn bullet_hit_drops_health_to_zero() {
    let mut state = State::new();
    state.invaders = vec![invader_at(400, 400)];
    state.bullets = vec![Bullet { position: Point { x: 420, y: 370 } }];
    let hits = state.resolve_bullets();
    assert_eq!(hits, 1);
    assert_eq!(state.invaders[0].health, 0);
    assert_eq!(state.points, 1);
    assert_eq!(state.bullets[0].position.y, 600);
    state.prune();
    assert!(state.bullets.is_empty());
    assert!(state.invaders.is_empty());
}

#[test]
fn ramming_adversary_ends_session() {
    let mut state = State::new();
    let mut dice = Dice::seeded(3);
    state.player.health = 1;
    let mut invaders = crowd();
    invaders.insert(0, invader_at(400, 120));
    state.invaders = invaders;
    let sig = state.update(&mut dice);
    assert_eq!(sig.ship_hits, 1);
    assert_eq!(state.invaders[0].health, 0);
    assert_eq!(state.player.health, 0);
    assert!(state.game_over());
    let before = state.invaders.clone();
    let sig = state.update(&mut dice);
    assert_eq!(sig.ship_hits, 0);
    assert_eq!(state.invaders, before);
    assert!(state.game_over());
}

#[test]
fn frozen_session_changes_nothing() {
    let mut state = State::new();
    let mut dice = Dice::seeded(5);
    state.update(&mut dice);
    state.key_down_event(Command::Fire);
    state.key_down_event(Command::MoveRight);
    state.update(&mut dice);
    state.player.health = 0;
    let player = state.player;
    let bullets = state.bullets.clone();
    let invaders = state.invaders.clone();
    let points = state.points;
    for _ in 0..10 {
        let sig = state.update(&mut dice);
        assert!(!sig.shot_fired);
    }
    assert_eq!(state.player, player);
    assert_eq!(state.bullets, bullets);
    assert_eq!(state.invaders, invaders);
    assert_eq!(state.points, points);
}

#[test]
fn ship_stays_within_field() {
    let mut state = State::new();
    let mut dice = Dice::seeded(11);
    state.key_down_event(Command::MoveRight);
    for _ in 0..100 {
        state.update(&mut dice);
        if state.game_over() {
            break;
        }
        let r = state.player.get_rect();
        assert!(r.x >= 0 && r.x <= 800 - r.w);
    }
    assert_eq!(state.player.position.x, 705);
    let mut state = State::new();
    state.key_down_event(Command::MoveLeft);
    state.key_down_event(Command::MoveDown);
    for _ in 0..100 {
        state.move_player();
    }
    assert_eq!(state.player.position.x, 0);
    assert_eq!(state.player.position.y, 100);
    state.key_down_event(Command::MoveUp);
    for _ in 0..100 {
        state.move_player();
    }
    assert_eq!(state.player.position.y, 600);
}

#[test]
fn one_bullet_damages_one_of_two() {
    let mut invaders = vec![invader_at(400, 400), invader_at(410, 400)];
    let r = Rect { x: 420, y: 370, w: 20, h: 20 };
    let hit = strike(&mut invaders, &r);
    assert_eq!(hit, Some(0));
    assert_eq!(invaders[0].health, 0);
    assert_eq!(invaders[1].health, 1);
    let hit = strike(&mut invaders, &r);
    assert_eq!(hit, Some(1));
    assert_eq!(invaders[1].health, 0);
    assert_eq!(strike(&mut invaders, &r), None);
}

#[test]
fn population_is_topped_up() {
    let mut state = State::new();
    let mut dice = Dice::seeded(2);
    state.top_up(&mut dice);
    assert_eq!(state.invaders.len(), 5);
    let mut state = State::new();
    for _ in 0..20 {
        state.update(&mut dice);
        assert!(state.invaders.len() >= 5);
    }
}

#[test]
fn patrol_turns_after_allowed_distance() {
    let mut inv = invader_at(100, 500);
    inv.movement = Moves::with_allowed(50);
    let mut turned_at = 0;
    for k in 1..=30 {
        inv.step();
        if inv.movement.state == MoveState::Backwards {
            turned_at = k;
            break;
        }
    }
    // 16 steps of 3 travel 48, the 17th passes 50
    assert_eq!(turned_at, 17);
    assert_eq!(inv.movement.current, 51);
    assert_eq!(inv.position.x, 151);
    let mut back_at = 0;
    for k in 1..=30 {
        inv.step();
        if inv.movement.state == MoveState::Forward {
            back_at = k;
            break;
        }
    }
    assert_eq!(back_at, 18);
    assert_eq!(inv.movement.current, -3);
    assert_eq!(inv.position.y, 500 - 35);
}

#[test]
fn patrol_turns_at_right_edge() {
    let mut inv = invader_at(715, 500);
    inv.step();
    assert_eq!(inv.position.x, 718);
    assert_eq!(inv.movement.state, MoveState::Forward);
    inv.step();
    assert_eq!(inv.position.x, 721);
    assert_eq!(inv.movement.state, MoveState::Backwards);
}

#[test]
fn restart_twice_equals_once() {
    let mut state = State::new();
    let mut dice = Dice::seeded(9);
    state.key_down_event(Command::Fire);
    state.update(&mut dice);
    state.points = 4;
    state.player.health = 0;
    state.key_up_event(Command::Restart);
    assert_eq!(state.points, 0);
    assert_eq!(state.player, Player::new());
    assert!(state.bullets.is_empty());
    assert!(state.invaders.is_empty());
    assert_eq!(state.input, InputState::new());
    state.restart();
    assert_eq!(state.points, 0);
    assert_eq!(state.player, Player::new());
    assert!(state.bullets.is_empty());
    assert!(state.invaders.is_empty());
    assert_eq!(state.input, InputState::new());
}

#[test]
fn restart_is_noop_while_active() {
    let mut state = State::new();
    state.points = 2;
    state.player.health = 2;
    state.restart();
    assert_eq!(state.points, 2);
    assert_eq!(state.player.health, 2);
}

#[test]
fn escape_costs_a_point() {
    let mut state = State::new();
    let mut dice = Dice::seeded(4);
    let mut invaders = crowd();
    invaders.push(invader_at(100, 1));
    state.invaders = invaders;
    state.update(&mut dice);
    assert_eq!(state.points, -1);
    // the escapee is pruned after this tick's top-up, so one tick runs short
    state.update(&mut dice);
    assert_eq!(state.invaders.len(), 4);
    state.update(&mut dice);
    assert_eq!(state.invaders.len(), 5);
}

#[test]
fn key_release_keeps_opposite_direction() {
    let mut input = InputState::new();
    input.key_down(Command::MoveRight);
    input.key_down(Command::MoveLeft);
    input.key_up(Command::MoveRight);
    assert_eq!(input.xaxis, -10);
    input.key_up(Command::MoveLeft);
    assert_eq!(input.xaxis, 0);
    input.key_down(Command::MoveUp);
    input.key_up(Command::MoveDown);
    assert_eq!(input.yaxis, 10);
    input.key_down(Command::Fire);
    assert!(input.fire);
    input.key_up(Command::Fire);
    assert!(!input.fire);
}

#[test]
fn rect_overlap_needs_area() {
    let a = Rect { x: 0, y: 0, w: 10, h: 10 };
    let touching = Rect { x: 10, y: 0, w: 10, h: 10 };
    let inside = Rect { x: 9, y: 9, w: 10, h: 10 };
    assert!(!a.overlaps(&touching));
    assert!(a.overlaps(&inside));
    assert!(inside.overlaps(&a));
}

#[test]
fn flipped_point() {
    let p = Point { x: 3, y: 100 }.flipped();
    assert_eq!(p, Point { x: 3, y: 500 });
}

#[test]
fn dice_rolls_in_range_and_repeat_by_seed() {
    let mut a = Dice::seeded(42);
    let mut b = Dice::seeded(42);
    for _ in 0..50 {
        let x = a.roll(-5, 5);
        assert!(x >= -5 && x < 5);
        assert_eq!(x, b.roll(-5, 5));
    }
    assert_eq!(a.roll(1000, 1001), 1000);
    let mut c = Dice::seeded(43);
    let y = c.roll(10, 20);
    assert!(y >= 10 && y < 20);
}

#[test]
fn spawned_adversary_in_band() {
    let mut dice = Dice::seeded(8);
    for _ in 0..50 {
        let inv = Invader::new(&mut dice);
        assert!(inv.position.x >= 100 && inv.position.x < 700);
        assert!(inv.position.y >= 300 && inv.position.y < 500);
        assert!(inv.movement.allowed >= 50 && inv.movement.allowed < 300);
        assert_eq!(inv.health, 1);
        assert_eq!(inv.movement.state, MoveState::Forward);
    }
}

#[test]
fn fresh_session_keeps_its_one_bullet() {
    let mut state = State::new();
    let mut dice = Dice::seeded(12);
    state.key_down_event(Command::Fire);
    let sig = state.update(&mut dice);
    assert!(sig.shot_fired);
    assert_eq!(state.bullets.len(), 1);
    assert_eq!(state.bullets[0].position, Point { x: 440, y: 120 });
    assert_eq!(state.points, 0);
    assert_eq!(state.invaders.len(), 5);
}

#[test]
fn bullet_between_two_adversaries_hits_first_in_tick() {
    let mut state = State::new();
    let mut dice = Dice::seeded(6);
    let mut invaders = crowd();
    invaders.insert(0, invader_at(400, 400));
    invaders.insert(1, invader_at(410, 400));
    state.invaders = invaders;
    state.bullets = vec![Bullet { position: Point { x: 420, y: 370 } }];
    let sig = state.update(&mut dice);
    assert_eq!(sig.bullet_hits, 1);
    assert_eq!(state.points, 1);
    assert!(state.bullets.is_empty());
    assert_eq!(state.invaders.len(), 5);
    assert_eq!(state.invaders[0].health, 1);
    assert_eq!(state.invaders[0].position, Point { x: 413, y: 399 });
}
