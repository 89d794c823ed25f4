use breakout::ball::Ball;
use breakout::block::{Block, BlockType};
use breakout::game::{launch_balls, remove_destroyed, remove_fallen, reset_game, Game, GameState};
use breakout::geometry::{Rect, Vec2};
use breakout::host::{Input, Screen};
use breakout::player::Player;

const SCREEN: Screen = Screen { width: 800_000, height: 600_000 };
const IDLE: Input = Input { left: false, right: false, start: false };
const START: Input = Input { left: false, right: false, start: true };

fn ball(x: i64, y: i64, vx: i64, vy: i64) -> Ball {
    Ball { square: Rect { x, y, w: 50_000, h: 50_000 }, velocity: Vec2 { x: vx, y: vy } }
}

fn block(x: i64, y: i64, lives: i32, block_type: BlockType) -> Block {
    Block { rectangle: Rect { x, y, w: 80_000, h: 32_000 }, lives, block_type }
}

fn paddle() -> Player {
    Player { rectangle: Rect { x: 325_000, y: 500_000, w: 150_000, h: 32_000 } }
}

fn playing(lives: u32, blocks: Vec<Block>, balls: Vec<Ball>) -> Game {
    let game = Game {
        game_state: GameState::Game,
        score: 0,
        player_lives: lives,
        player: paddle(),
        blocks,
        balls,
    };
    assert!(game.is_wf());
    game
}

fn is_fresh_at(ball: &Ball, pos: Vec2) -> bool {
    (-1000..1000).any(|heading| Ball::with_heading(pos, heading) == *ball)
}

fn assert_new_round(game: &Game) {
    assert_eq!(game.score, 0);
    assert_eq!(game.player_lives, 3);
    assert_eq!(game.player, Player::new(SCREEN));
    assert_eq!(game.blocks.len(), 36);
    for (i, b) in game.blocks.iter().enumerate() {
        let column = (i % 6) as i64;
        let row = (i / 6) as i64;
        assert_eq!(
            b.rectangle,
            Rect { x: 145_000 + column * 85_000, y: 50_000 + row * 37_000, w: 80_000, h: 32_000 }
        );
        assert_eq!(b.lives, 2);
    }
    let special =
        game.blocks.iter().filter(|b| b.block_type == BlockType::SpawnBallOnDeath).count();
    assert!(1 <= special && special <= 3);
    assert_eq!(game.balls.len(), 1);
    assert!(is_fresh_at(&game.balls[0], Vec2 { x: 400_000, y: 300_000 }));
}

#[test]
fn new_game_waits_in_the_menu_with_a_round_set_up() {
    let game = Game::new(SCREEN);
    assert_eq!(game.game_state, GameState::Menu);
    assert_new_round(&game);
    assert!(game.is_wf());
}

#[test]
fn a_game_on_the_largest_screen_can_be_played() {
    let huge = Screen { width: u32::MAX, height: u32::MAX };
    let mut game = Game::new(huge);
    assert!(game.is_wf());
    game.update(START, 0, huge);
    for _ in 0..50 {
        game.update(Input { left: false, right: true, start: false }, u32::MAX, huge);
        assert!(game.is_wf());
    }
    let tiny = Screen { width: 0, height: 0 };
    for _ in 0..50 {
        game.update(Input { left: true, right: false, start: true }, u32::MAX, tiny);
        assert!(game.is_wf());
    }
}

#[test]
fn a_game_stays_well_formed_through_many_frames() {
    let mut game = Game::new(SCREEN);
    game.update(START, 16_000, SCREEN);
    let mut frames = 0;
    while frames < 20_000 {
        let input = Input { left: frames % 7 < 3, right: frames % 5 < 2, start: frames % 11 == 0 };
        game.update(input, 16_667, SCREEN);
        assert!(game.is_wf());
        assert!(game.player.rectangle.x >= 0 && game.player.rectangle.x <= 650_000);
        for b in &game.balls {
            assert!(b.square.y <= 600_000);
            assert!(b.velocity.x.abs() <= 1000 && b.velocity.y.abs() <= 1000);
        }
        for b in &game.blocks {
            assert!(b.lives == 1 || b.lives == 2);
        }
        frames += 1;
    }
}

#[test]
fn is_wf_tells_when_the_score_has_no_room_left() {
    let mut game = playing(3, vec![block(0, 0, 1, BlockType::Regular)], vec![]);
    game.score = u32::MAX - 10;
    assert!(game.is_wf());
    game.score = u32::MAX - 9;
    assert!(!game.is_wf());
    game.blocks.clear();
    assert!(game.is_wf());
    game.score = u32::MAX;
    assert!(game.is_wf());
}

#[test]
fn is_wf_tells_when_a_block_has_no_life_or_too_many() {
    let mut game = playing(3, vec![block(0, 0, 1, BlockType::Regular)], vec![]);
    game.blocks[0].lives = 2;
    assert!(game.is_wf());
    game.blocks[0].lives = 0;
    assert!(!game.is_wf());
    game.blocks[0].lives = -1;
    assert!(!game.is_wf());
    game.blocks[0].lives = 3;
    assert!(!game.is_wf());
    game.blocks[0].block_type = BlockType::SpawnBallOnDeath;
    game.blocks[0].lives = 1;
    assert!(game.is_wf());
}

#[test]
fn is_wf_tells_when_an_entity_is_out_of_bounds() {
    let limit: i64 = 0x0100_0000_0000;
    let mut game = playing(3, vec![block(0, 0, 1, BlockType::Regular)], vec![ball(0, 0, 0, 0)]);
    game.player.rectangle.x = limit;
    assert!(game.is_wf());
    game.player.rectangle.x = limit + 1;
    assert!(!game.is_wf());
    game.player.rectangle.x = 0;
    game.blocks[0].rectangle.y = -limit - 1;
    assert!(!game.is_wf());
    game.blocks[0].rectangle.y = -limit;
    assert!(game.is_wf());
    game.blocks[0].rectangle.w = -1;
    assert!(!game.is_wf());
    game.blocks[0].rectangle.w = 0;
    assert!(game.is_wf());
    game.balls[0].velocity.x = 1001;
    assert!(!game.is_wf());
    game.balls[0].velocity.x = 1000;
    assert!(game.is_wf());
    game.balls[0].square.y = 3 * limit + 1;
    assert!(!game.is_wf());
}

#[test]
fn menu_ignores_everything_but_start() {
    let mut game = Game::new(SCREEN);
    let blocks = game.blocks.clone();
    let balls = game.balls.clone();
    game.update(Input { left: true, right: false, start: false }, 16_000, SCREEN);
    game.update(Input { left: false, right: true, start: false }, 1_000_000, SCREEN);
    assert_eq!(game.game_state, GameState::Menu);
    assert_eq!(game.player, Player::new(SCREEN));
    assert_eq!(game.blocks, blocks);
    assert_eq!(game.balls, balls);
    assert_eq!((game.score, game.player_lives), (0, 3));
}

#[test]
fn start_in_the_menu_begins_play_and_moves_nothing() {
    let mut game = Game::new(SCREEN);
    let blocks = game.blocks.clone();
    let balls = game.balls.clone();
    game.update(Input { left: true, right: false, start: true }, 16_000, SCREEN);
    assert_eq!(game.game_state, GameState::Game);
    assert_eq!(game.player, Player::new(SCREEN));
    assert_eq!(game.blocks, blocks);
    assert_eq!(game.balls, balls);
}

#[test]
fn a_frame_of_play_moves_the_paddle_and_the_balls() {
    let mut game = playing(
        3,
        vec![block(600_000, 100_000, 2, BlockType::Regular)],
        vec![ball(100_000, 300_000, 600, -800)],
    );
    game.update(Input { left: false, right: true, start: false }, 10_000, SCREEN);
    assert_eq!(game.game_state, GameState::Game);
    assert_eq!(game.player.rectangle.x, 332_500);
    assert_eq!(game.balls, vec![ball(102_400, 296_800, 600, -800)]);
    assert_eq!(game.blocks, vec![block(600_000, 100_000, 2, BlockType::Regular)]);
    assert_eq!((game.score, game.player_lives), (0, 3));
}

#[test]
fn start_during_play_launches_no_ball() {
    let mut game = playing(
        3,
        vec![block(600_000, 100_000, 2, BlockType::Regular)],
        vec![ball(100_000, 300_000, 600, -800)],
    );
    game.update(START, 0, SCREEN);
    assert_eq!(game.game_state, GameState::Game);
    assert_eq!(game.balls, vec![ball(100_000, 300_000, 600, -800)]);
}

#[test]
fn balls_meet_the_paddle_where_it_is_after_its_move() {
    // The paddle moves 7 500 to the right and then reaches the ball.
    let mut game = playing(
        3,
        vec![block(600_000, 100_000, 2, BlockType::Regular)],
        vec![ball(480_000, 490_000, 0, 0)],
    );
    game.update(Input { left: false, right: true, start: false }, 10_000, SCREEN);
    assert_eq!(game.player.rectangle.x, 332_500);
    assert_eq!(game.balls, vec![ball(482_500, 490_000, 0, 0)]);
}

#[test]
fn single_ball_falls_with_one_life_left() {
    let mut game = playing(
        1,
        vec![block(600_000, 100_000, 2, BlockType::Regular)],
        vec![ball(100_000, 599_000, 0, 1000)],
    );
    game.update(IDLE, 10_000, SCREEN);
    assert_eq!(game.player_lives, 0);
    assert_eq!(game.game_state, GameState::Lost);
    assert_eq!(game.balls.len(), 1);
    assert!(is_fresh_at(&game.balls[0], Vec2 { x: 375_000, y: 450_000 }));
    assert_eq!(game.blocks.len(), 1);
    assert_eq!(game.score, 0);
}

#[test]
fn a_ball_whose_top_is_at_the_bottom_edge_stays() {
    let mut game = playing(
        3,
        vec![block(600_000, 100_000, 2, BlockType::Regular)],
        vec![ball(100_000, 600_000, 0, 0)],
    );
    game.update(IDLE, 0, SCREEN);
    assert_eq!(game.player_lives, 3);
    assert_eq!(game.game_state, GameState::Game);
    assert_eq!(game.balls, vec![ball(100_000, 600_000, 0, 0)]);
}

#[test]
fn a_ball_that_flies_exactly_to_the_bottom_edge_stays() {
    // A quarter of a second at 400 pixels a second: 100 pixels down.
    let mut game = playing(
        1,
        vec![block(600_000, 100_000, 2, BlockType::Regular)],
        vec![ball(100_000, 500_000, 0, 1000)],
    );
    game.update(IDLE, 250_000, SCREEN);
    assert_eq!(game.player_lives, 1);
    assert_eq!(game.game_state, GameState::Game);
    assert_eq!(game.balls, vec![ball(100_000, 600_000, 0, 1000)]);
}

#[test]
fn a_ball_whose_top_is_below_the_bottom_edge_is_gone() {
    let mut game = playing(
        3,
        vec![block(600_000, 100_000, 2, BlockType::Regular)],
        vec![ball(100_000, 600_001, 0, 0)],
    );
    game.update(IDLE, 0, SCREEN);
    assert_eq!(game.player_lives, 2);
    assert_eq!(game.game_state, GameState::Game);
    assert_eq!(game.balls.len(), 1);
    assert!(is_fresh_at(&game.balls[0], Vec2 { x: 375_000, y: 450_000 }));
}

#[test]
fn a_ball_at_the_bottom_edge_saves_the_life_when_another_falls() {
    let mut game = playing(
        1,
        vec![block(600_000, 100_000, 2, BlockType::Regular)],
        vec![ball(100_000, 600_001, 0, 0), ball(200_000, 600_000, 0, 0)],
    );
    game.update(IDLE, 0, SCREEN);
    assert_eq!(game.player_lives, 1);
    assert_eq!(game.game_state, GameState::Game);
    assert_eq!(game.balls, vec![ball(200_000, 600_000, 0, 0)]);
}

#[test]
fn losing_one_of_several_balls_costs_no_life() {
    let mut game = playing(
        3,
        vec![block(600_000, 100_000, 2, BlockType::Regular)],
        vec![ball(100_000, 700_000, 0, 1000), ball(100_000, 300_000, 0, 0)],
    );
    game.update(IDLE, 0, SCREEN);
    assert_eq!(game.player_lives, 3);
    assert_eq!(game.game_state, GameState::Game);
    assert_eq!(game.balls, vec![ball(100_000, 300_000, 0, 0)]);
}

#[test]
fn losing_all_balls_at_once_costs_one_life() {
    let mut game = playing(
        3,
        vec![block(600_000, 100_000, 2, BlockType::Regular)],
        vec![ball(100_000, 700_000, 0, 1000), ball(200_000, 650_000, 0, 0)],
    );
    game.update(IDLE, 0, SCREEN);
    assert_eq!(game.player_lives, 2);
    assert_eq!(game.game_state, GameState::Game);
    assert_eq!(game.balls.len(), 1);
    assert!(is_fresh_at(&game.balls[0], Vec2 { x: 375_000, y: 450_000 }));
}

#[test]
fn play_without_balls_costs_no_life() {
    let mut game = playing(3, vec![block(600_000, 100_000, 2, BlockType::Regular)], vec![]);
    game.update(IDLE, 16_000, SCREEN);
    assert_eq!(game.player_lives, 3);
    assert_eq!(game.game_state, GameState::Game);
    assert!(game.balls.is_empty());
}

#[test]
fn lives_do_not_go_below_zero() {
    let mut game = playing(
        0,
        vec![block(600_000, 100_000, 2, BlockType::Regular)],
        vec![ball(100_000, 700_000, 0, 1000)],
    );
    game.update(IDLE, 0, SCREEN);
    assert_eq!(game.player_lives, 0);
    assert_eq!(game.game_state, GameState::Lost);
}

#[test]
fn special_block_hit_twice_launches_a_ball_after_the_pass() {
    let mut game = playing(
        3,
        vec![
            block(0, 100_000, 2, BlockType::SpawnBallOnDeath),
            block(600_000, 100_000, 2, BlockType::Regular),
        ],
        vec![ball(10_000, 60_000, 0, 1000), ball(75_000, 105_000, -1000, 0)],
    );
    game.update(IDLE, 0, SCREEN);
    assert_eq!(game.score, 10);
    assert_eq!(game.blocks, vec![block(600_000, 100_000, 2, BlockType::Regular)]);
    assert_eq!(game.balls.len(), 3);
    assert_eq!(game.balls[0], ball(10_000, 50_000, 0, -1000));
    assert_eq!(game.balls[1], ball(80_000, 105_000, 1000, 0));
    // The new ball stands where the second hit left its ball: it took no
    // turn in the frame that launched it.
    assert!(is_fresh_at(&game.balls[2], Vec2 { x: 80_000, y: 105_000 }));
    assert_eq!(game.game_state, GameState::Game);
    assert_eq!(game.player_lives, 3);

    let launched = game.balls[2];
    game.update(IDLE, 10_000, SCREEN);
    let mut flown = launched;
    flown.update(10_000, SCREEN);
    assert_eq!(game.balls[2], flown);
}

#[test]
fn special_block_hit_in_two_frames_launches_a_ball() {
    let mut game = playing(
        3,
        vec![
            block(0, 100_000, 2, BlockType::SpawnBallOnDeath),
            block(600_000, 100_000, 2, BlockType::Regular),
        ],
        vec![ball(10_000, 60_000, 0, 1000)],
    );
    game.update(IDLE, 0, SCREEN);
    assert_eq!(game.blocks[0].lives, 1);
    assert_eq!(game.score, 0);
    assert_eq!(game.balls, vec![ball(10_000, 50_000, 0, -1000)]);

    game.balls[0] = ball(10_000, 60_000, 0, 1000);
    game.update(IDLE, 0, SCREEN);
    assert_eq!(game.score, 10);
    assert_eq!(game.blocks, vec![block(600_000, 100_000, 2, BlockType::Regular)]);
    assert_eq!(game.balls.len(), 2);
    assert_eq!(game.balls[0], ball(10_000, 50_000, 0, -1000));
    assert!(is_fresh_at(&game.balls[1], Vec2 { x: 10_000, y: 50_000 }));
}

#[test]
fn a_ball_launched_below_the_screen_falls_with_the_rest() {
    // The only ball fells a special block and is pushed below the screen;
    // the ball launched in its place is removed with it.
    let mut game = playing(
        2,
        vec![
            block(0, 599_000, 1, BlockType::SpawnBallOnDeath),
            block(600_000, 100_000, 2, BlockType::Regular),
        ],
        vec![ball(0, 610_000, 0, 1000)],
    );
    game.update(IDLE, 0, SCREEN);
    assert_eq!(game.score, 10);
    assert_eq!(game.player_lives, 1);
    assert_eq!(game.balls.len(), 1);
    assert!(is_fresh_at(&game.balls[0], Vec2 { x: 375_000, y: 450_000 }));
}

#[test]
fn a_ball_launched_on_the_screen_stays_with_its_parent() {
    let mut game = playing(
        2,
        vec![
            block(0, 580_000, 1, BlockType::SpawnBallOnDeath),
            block(600_000, 100_000, 2, BlockType::Regular),
        ],
        vec![ball(0, 540_000, 0, 1000)],
    );
    game.update(IDLE, 0, SCREEN);
    assert_eq!(game.score, 10);
    assert_eq!(game.player_lives, 2);
    assert_eq!(game.balls.len(), 2);
    assert_eq!(game.balls[0], ball(0, 530_000, 0, -1000));
    assert!(is_fresh_at(&game.balls[1], Vec2 { x: 0, y: 530_000 }));
}

#[test]
fn emptying_the_grid_wins_in_the_same_frame() {
    let mut game = playing(
        3,
        vec![
            block(0, 100_000, 1, BlockType::Regular),
            block(200_000, 100_000, 1, BlockType::Regular),
            block(400_000, 100_000, 1, BlockType::Regular),
        ],
        vec![
            ball(10_000, 60_000, 0, 1000),
            ball(210_000, 60_000, 0, 1000),
            ball(410_000, 60_000, 0, 1000),
        ],
    );
    game.update(IDLE, 0, SCREEN);
    assert_eq!(game.game_state, GameState::Completed);
    assert!(game.blocks.is_empty());
    assert_eq!(game.score, 30);
    assert_eq!(game.player_lives, 3);
    assert_eq!(game.balls.len(), 3);
}

#[test]
fn destroying_the_last_block_wins() {
    let mut game =
        playing(1, vec![block(0, 100_000, 1, BlockType::Regular)], vec![ball(10_000, 60_000, 0, 1000)]);
    game.score = 350;
    game.update(IDLE, 0, SCREEN);
    assert_eq!(game.game_state, GameState::Completed);
    assert_eq!(game.score, 360);
    assert!(game.blocks.is_empty());
}

#[test]
fn a_win_outranks_a_loss_in_the_same_frame() {
    let mut game = playing(
        1,
        vec![block(0, 590_000, 1, BlockType::Regular)],
        vec![ball(0, 600_000, 0, -1000)],
    );
    game.update(IDLE, 0, SCREEN);
    assert_eq!(game.game_state, GameState::Completed);
    assert_eq!(game.player_lives, 0);
    assert_eq!(game.score, 10);
    assert!(game.blocks.is_empty());
    assert_eq!(game.balls.len(), 1);
    assert!(is_fresh_at(&game.balls[0], Vec2 { x: 375_000, y: 450_000 }));
}

#[test]
fn play_with_no_blocks_is_won_at_once() {
    let mut game = playing(3, vec![], vec![ball(100_000, 300_000, 0, 0)]);
    game.update(IDLE, 0, SCREEN);
    assert_eq!(game.game_state, GameState::Completed);
}

#[test]
fn won_and_lost_wait_for_start() {
    for state in [GameState::Completed, GameState::Lost] {
        let mut game = playing(
            2,
            vec![block(600_000, 100_000, 2, BlockType::Regular)],
            vec![ball(100_000, 300_000, 600, -800)],
        );
        game.game_state = state;
        game.score = 70;
        game.update(Input { left: true, right: true, start: false }, 16_000, SCREEN);
        assert_eq!(game.game_state, state);
        assert_eq!((game.score, game.player_lives), (70, 2));
        assert_eq!(game.player, paddle());
        assert_eq!(game.blocks, vec![block(600_000, 100_000, 2, BlockType::Regular)]);
        assert_eq!(game.balls, vec![ball(100_000, 300_000, 600, -800)]);
    }
}

#[test]
fn start_after_a_round_resets_and_returns_to_the_menu() {
    for state in [GameState::Completed, GameState::Lost] {
        let mut game = playing(
            0,
            vec![block(600_000, 100_000, 1, BlockType::Regular)],
            vec![ball(100_000, 300_000, 600, -800), ball(1, 2, 3, 4)],
        );
        game.game_state = state;
        game.score = 120;
        game.player.rectangle.x = 0;
        game.update(START, 16_000, SCREEN);
        assert_eq!(game.game_state, GameState::Menu);
        assert_new_round(&game);
    }
}

#[test]
fn a_whole_round_can_be_lost_and_started_again() {
    let mut game = Game::new(SCREEN);
    game.update(START, 16_000, SCREEN);
    assert_eq!(game.game_state, GameState::Game);
    let mut frames = 0;
    while game.game_state == GameState::Game {
        for b in game.balls.iter_mut() {
            b.square.y = 700_000;
        }
        game.update(IDLE, 16_000, SCREEN);
        frames += 1;
        assert!(frames <= 3);
        assert_eq!(game.balls.len(), 1);
    }
    assert_eq!(frames, 3);
    assert_eq!(game.game_state, GameState::Lost);
    assert_eq!(game.player_lives, 0);
    game.update(START, 16_000, SCREEN);
    assert_eq!(game.game_state, GameState::Menu);
    assert_new_round(&game);
}

#[test]
fn play_is_the_frame_that_update_runs_during_play() {
    let mut by_update = playing(
        3,
        vec![block(0, 100_000, 2, BlockType::Regular)],
        vec![ball(10_000, 40_000, 0, 1000)],
    );
    let mut by_play = playing(
        3,
        vec![block(0, 100_000, 2, BlockType::Regular)],
        vec![ball(10_000, 40_000, 0, 1000)],
    );
    by_update.update(IDLE, 50_000, SCREEN);
    by_play.play(IDLE, 50_000, SCREEN);
    assert_eq!(by_update.balls, vec![ball(10_000, 50_000, 0, -1000)]);
    assert_eq!(by_play.balls, by_update.balls);
    assert_eq!(by_play.blocks, by_update.blocks);
    assert_eq!(by_play.game_state, GameState::Game);
}

#[test]
fn reset_game_sets_up_a_round() {
    let mut score: u32 = 90;
    let mut lives: u32 = 1;
    let mut blocks = vec![block(1, 2, 1, BlockType::Regular)];
    let mut balls = vec![ball(1, 2, 3, 4), ball(5, 6, 7, 8)];
    let mut player = paddle();
    player.rectangle.x = 11;
    reset_game(&mut score, &mut lives, &mut blocks, &mut balls, &mut player, SCREEN);
    let game = Game {
        game_state: GameState::Menu,
        score,
        player_lives: lives,
        player,
        blocks,
        balls,
    };
    assert_new_round(&game);
}

#[test]
fn launch_balls_appends_one_new_ball_per_place() {
    let mut balls = vec![ball(1, 2, 3, 4)];
    let places = vec![Vec2 { x: 10, y: 20 }, Vec2 { x: -30, y: 40 }];
    launch_balls(&mut balls, &places);
    assert_eq!(balls.len(), 3);
    assert_eq!(balls[0], ball(1, 2, 3, 4));
    assert!(is_fresh_at(&balls[1], places[0]));
    assert!(is_fresh_at(&balls[2], places[1]));
    launch_balls(&mut balls, &Vec::new());
    assert_eq!(balls.len(), 3);
}

#[test]
fn remove_fallen_keeps_the_balls_not_below_the_bottom_in_order() {
    let mut balls = vec![
        ball(0, 600_000, 0, 0),
        ball(1, 599_999, 0, 0),
        ball(2, 900_000, 0, 0),
        ball(3, -50_000, 0, 0),
        ball(4, 600_001, 0, 0),
    ];
    assert_eq!(remove_fallen(&mut balls, SCREEN), 2);
    assert_eq!(
        balls,
        vec![ball(0, 600_000, 0, 0), ball(1, 599_999, 0, 0), ball(3, -50_000, 0, 0)]
    );
    assert_eq!(remove_fallen(&mut balls, SCREEN), 0);
    assert_eq!(balls.len(), 3);
    assert_eq!(remove_fallen(&mut balls, Screen { width: 800_000, height: 599_999 }), 1);
    assert_eq!(balls, vec![ball(1, 599_999, 0, 0), ball(3, -50_000, 0, 0)]);
    assert_eq!(remove_fallen(&mut balls, Screen { width: 800_000, height: 0 }), 1);
    assert_eq!(balls, vec![ball(3, -50_000, 0, 0)]);
}

#[test]
fn remove_destroyed_keeps_the_standing_blocks_in_order() {
    let mut blocks = vec![
        block(0, 0, 0, BlockType::Regular),
        block(1, 0, 2, BlockType::Regular),
        block(2, 0, -1, BlockType::SpawnBallOnDeath),
        block(3, 0, 1, BlockType::SpawnBallOnDeath),
    ];
    remove_destroyed(&mut blocks);
    assert_eq!(
        blocks,
        vec![block(1, 0, 2, BlockType::Regular), block(3, 0, 1, BlockType::SpawnBallOnDeath)]
    );
    remove_destroyed(&mut blocks);
    assert_eq!(blocks.len(), 2);
}
