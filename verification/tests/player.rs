use breakout::geometry::Rect;
use breakout::host::{Color, Screen, Sprite};
use breakout::player::Player;

const SCREEN: Screen = Screen { width: 800_000, height: 600_000 };

fn player_at(x: i64) -> Player {
    Player { rectangle: Rect { x, y: 500_000, w: 150_000, h: 32_000 } }
}

#[test]
fn new_player_is_centred_above_the_bottom() {
    let player = Player::new(SCREEN);
    assert_eq!(player.rectangle, Rect { x: 325_000, y: 500_000, w: 150_000, h: 32_000 });
}

#[test]
fn new_player_on_an_empty_screen_hangs_off_it() {
    let player = Player::new(Screen { width: 0, height: 0 });
    assert_eq!(player.rectangle, Rect { x: -75_000, y: -100_000, w: 150_000, h: 32_000 });
}

#[test]
fn player_is_drawn_blue() {
    let player = player_at(10_000);
    assert_eq!(player.draw(), Sprite { rect: player.rectangle, color: Color::Blue });
}

#[test]
fn right_key_moves_right() {
    let mut player = player_at(325_000);
    player.update(16_000, false, true, SCREEN);
    assert_eq!(player.rectangle, Rect { x: 337_000, y: 500_000, w: 150_000, h: 32_000 });
}

#[test]
fn left_key_moves_left() {
    let mut player = player_at(325_000);
    player.update(16_000, true, false, SCREEN);
    assert_eq!(player.rectangle, Rect { x: 313_000, y: 500_000, w: 150_000, h: 32_000 });
}

#[test]
fn both_keys_or_none_do_not_move() {
    let mut player = player_at(325_000);
    player.update(16_000, true, true, SCREEN);
    assert_eq!(player, player_at(325_000));
    player.update(16_000, false, false, SCREEN);
    assert_eq!(player, player_at(325_000));
}

#[test]
fn a_second_covers_seven_hundred_and_fifty_pixels() {
    let wide = Screen { width: 2_000_000, height: 600_000 };
    let mut player = player_at(100_000);
    player.update(1_000_000, false, true, wide);
    assert_eq!(player.rectangle.x, 850_000);
}

#[test]
fn player_stops_at_the_left_edge() {
    let mut player = player_at(5_000);
    player.update(16_000, true, false, SCREEN);
    assert_eq!(player.rectangle.x, 0);
}

#[test]
fn player_stops_at_the_right_edge() {
    let mut player = player_at(645_000);
    player.update(16_000, false, true, SCREEN);
    assert_eq!(player.rectangle.x, 650_000);
}

#[test]
fn player_off_screen_is_brought_back_without_keys() {
    let mut player = player_at(-400_000);
    player.update(0, false, false, SCREEN);
    assert_eq!(player.rectangle.x, 0);
    let mut player = player_at(9_000_000);
    player.update(0, false, false, SCREEN);
    assert_eq!(player.rectangle.x, 650_000);
}

#[test]
fn player_stays_on_screen_for_every_key_combination() {
    for start in [-1_000_000_i64, -1, 0, 1, 325_000, 649_999, 650_000, 650_001, 5_000_000] {
        for dt in [0_u32, 1, 16_000, 1_000_000, u32::MAX] {
            for (left, right) in [(false, false), (true, false), (false, true), (true, true)] {
                let mut player = player_at(start);
                player.update(dt, left, right, SCREEN);
                assert!(0 <= player.rectangle.x && player.rectangle.x <= 650_000);
                assert_eq!(player.rectangle.y, 500_000);
            }
        }
    }
}

#[test]
fn player_wider_than_the_screen_ends_left_of_it() {
    let narrow = Screen { width: 100_000, height: 600_000 };
    let mut player = player_at(20_000);
    player.update(16_000, false, true, narrow);
    assert_eq!(player.rectangle.x, -50_000);
}
