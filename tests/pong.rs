use kernel::pong::{Key, PongGame};
use kernel::runtime::Runtime;
use kernel::screen::{FrameBufferInfo, PixelFormat, ScreenWriter};

fn surface(width: usize, height: usize) -> ScreenWriter {
    let i = FrameBufferInfo {
        byte_len: width * height * 4,
        width,
        height,
        pixel_format: PixelFormat::Rgb,
        bytes_per_pixel: 4,
        stride: width,
    };
    ScreenWriter::new(vec![0u8; i.byte_len], i).unwrap()
}

fn pixel(w: &ScreenWriter, x: usize, y: usize) -> Vec<u8> {
    let o = (y * w.info().stride + x) * 4;
    w.framebuffer()[o..o + 4].to_vec()
}

#[test]
fn initial_layout_500_by_300() {
    let g = PongGame::new(500, 300);
    assert_eq!((g.ball_x, g.ball_y), (245, 145));
    assert_eq!((g.player_paddle_x, g.player_paddle_y), (25, 100));
    assert_eq!(g.player_paddle_height, 50);
    assert_eq!(g.player_paddle_width, 10);
    assert_eq!(g.computer_paddle_x, 465);
    assert_eq!(g.computer_paddle_y, 100);
    assert_eq!(g.ball_size, 10);
    assert_eq!((g.ball_velocity_x, g.ball_velocity_y), (35, 30));
    assert_eq!((g.player_score, g.computer_score, g.game_over), (0, 0, false));
    assert!(g.player_position_history.iter().all(|y| *y == 100));
}

#[test]
fn ball_leaving_left_scores_for_computer() {
    let mut g = PongGame::new(500, 300);
    g.ball_x = 10;
    g.ball_velocity_x = -35;
    g.update();
    assert_eq!(g.computer_score, 1);
    assert_eq!(g.player_score, 0);
    assert!(!g.game_over);
    assert_eq!((g.ball_x, g.ball_y), (245, 145));
    assert_eq!(g.ball_velocity_x, 6);
    assert_eq!(g.ball_velocity_y, -3);
    assert_eq!(g.player_paddle_y, 100);
}

#[test]
fn ball_leaving_right_scores_for_player() {
    let mut g = PongGame::new(500, 300);
    g.ball_x = 480;
    g.ball_y = 20;
    g.ball_velocity_x = 35;
    g.update();
    assert_eq!(g.player_score, 1);
    assert_eq!(g.computer_score, 0);
    assert_eq!((g.ball_x, g.ball_y), (245, 145));
    assert_eq!(g.ball_velocity_x, -6);
}

#[test]
fn restart_after_game_over() {
    let mut g = PongGame::new(500, 300);
    g.player_score = 5;
    g.computer_score = 3;
    g.game_over = true;
    g.ball_x = 100;
    g.ball_y = 40;
    g.player_paddle_y = 0;
    g.computer_paddle_y = 250;
    g.handle_key(Key::Unicode(' '));
    assert_eq!((g.player_score, g.computer_score, g.game_over), (0, 0, false));
    assert_eq!((g.ball_x, g.ball_y), (245, 145));
    assert_eq!(g.player_paddle_y, 100);
    assert_eq!(g.computer_paddle_y, 100);
    assert_eq!(g.history_index, 0);
}

#[test]
fn restart_while_playing_is_ignored() {
    let mut g = PongGame::new(500, 300);
    g.player_score = 2;
    g.ball_x = 100;
    g.handle_key(Key::Unicode(' '));
    assert_eq!(g.player_score, 2);
    assert_eq!(g.ball_x, 100);
    g.handle_key(Key::Other);
    g.handle_key(Key::Unicode('x'));
    assert_eq!(g.player_score, 2);
}

#[test]
fn fifth_point_ends_match_and_ticks_stop() {
    let mut g = PongGame::new(500, 300);
    g.computer_score = 4;
    g.player_score = 2;
    g.ball_x = 10;
    g.ball_velocity_x = -35;
    g.update();
    assert_eq!(g.computer_score, 5);
    assert!(g.game_over);
    let before = (g.ball_x, g.ball_y, g.computer_paddle_y, g.history_index);
    g.update();
    assert_eq!((g.ball_x, g.ball_y, g.computer_paddle_y, g.history_index), before);
    assert_eq!(g.computer_score, 5);
}

#[test]
fn fourth_point_does_not_end_match() {
    let mut g = PongGame::new(500, 300);
    g.player_score = 3;
    g.ball_x = 480;
    g.ball_velocity_x = 35;
    g.update();
    assert_eq!(g.player_score, 4);
    assert!(!g.game_over);
}

#[test]
fn paddle_stays_on_screen() {
    let mut g = PongGame::new(500, 300);
    for _ in 0..100 {
        g.handle_key(Key::ArrowUp);
        assert!(g.player_paddle_y + g.player_paddle_height <= 300);
    }
    assert_eq!(g.player_paddle_y, 0);
    g.handle_key(Key::ArrowDown);
    assert_eq!(g.player_paddle_y, 6);
    for _ in 0..100 {
        g.handle_key(Key::ArrowDown);
    }
    assert_eq!(g.player_paddle_y, 250);
}

#[test]
fn wall_contact_inverts_vertical_velocity_once() {
    let mut g = PongGame::new(500, 300);
    g.ball_x = 200;
    g.ball_y = 10;
    g.ball_velocity_x = 6;
    g.ball_velocity_y = -20;
    g.update();
    assert_eq!(g.ball_y, -10);
    assert_eq!(g.ball_velocity_y, 20);
    g.update();
    assert_eq!(g.ball_y, 10);
    assert_eq!(g.ball_velocity_y, 20);
}

#[test]
fn bottom_wall_inverts_vertical_velocity() {
    let mut g = PongGame::new(500, 300);
    g.ball_x = 200;
    g.ball_y = 280;
    g.ball_velocity_x = 6;
    g.ball_velocity_y = 15;
    g.update();
    assert_eq!(g.ball_y, 295);
    assert_eq!(g.ball_velocity_y, -15);
}

#[test]
fn paddle_hit_reverses_and_spins() {
    let mut g = PongGame::new(500, 300);
    g.ball_x = 40;
    g.ball_y = 95;
    g.ball_velocity_x = -10;
    g.ball_velocity_y = 0;
    g.update();
    // paddle centre 125, ball centre 100: spin = -(25 / 5) = -5
    assert_eq!(g.ball_velocity_x, 10);
    assert_eq!(g.ball_velocity_y, -5);
    assert_eq!((g.ball_x, g.ball_y), (30, 95));
}

#[test]
fn centred_paddle_hit_gets_parity_spin() {
    let mut g = PongGame::new(500, 300);
    g.ball_x = 40;
    g.ball_y = 118;
    g.ball_velocity_x = -10;
    g.ball_velocity_y = 0;
    g.update();
    // paddle centre 125, ball centre 123: -(2 / 5) == 0, even y gives 3
    assert_eq!(g.ball_velocity_y, 3);
}

#[test]
fn opponent_follows_delayed_player_only_when_ball_approaches() {
    let mut g = PongGame::new(500, 300);
    for i in 0..30 {
        g.player_position_history[i] = 0;
    }
    g.ball_x = 200;
    g.ball_velocity_x = 6;
    g.ball_velocity_y = 0;
    g.update();
    assert_eq!(g.computer_paddle_y, 94);
    assert_eq!(g.history_index, 1);
    assert_eq!(g.player_position_history[0], 100);
    g.ball_velocity_x = -6;
    g.update();
    assert_eq!(g.computer_paddle_y, 94);
}

#[test]
fn history_wraps_around() {
    let mut g = PongGame::new(500, 300);
    g.ball_x = 200;
    g.ball_velocity_x = 6;
    g.ball_velocity_y = 0;
    g.history_index = 29;
    g.player_paddle_y = 7;
    g.update();
    assert_eq!(g.history_index, 0);
    assert_eq!(g.player_position_history[29], 7);
}

#[test]
fn reset_keeps_scores() {
    let mut g = PongGame::new(500, 300);
    g.player_score = 3;
    g.computer_score = 1;
    g.ball_x = 17;
    g.reset();
    assert_eq!((g.player_score, g.computer_score), (3, 1));
    assert_eq!(g.ball_x, 245);
    assert_eq!(g.ball_velocity_x, -6);
}

#[test]
fn new_game_zeroes_scores() {
    let mut g = PongGame::new(500, 300);
    g.player_score = 3;
    g.computer_score = 1;
    g.history_index = 12;
    g.new_game();
    assert_eq!((g.player_score, g.computer_score, g.game_over), (0, 0, false));
    assert_eq!(g.history_index, 0);
    assert_eq!(g.ball_velocity_x, 6);
}

#[test]
fn render_draws_paddles_ball_and_divider() {
    let g = PongGame::new(500, 300);
    let mut w = surface(500, 300);
    g.render(&mut w);
    assert_eq!(pixel(&w, 30, 120), vec![255, 255, 255, 0]);
    assert_eq!(pixel(&w, 30, 150), vec![0, 0, 0, 0]);
    assert_eq!(pixel(&w, 470, 120), vec![255, 255, 255, 0]);
    assert_eq!(pixel(&w, 250, 150), vec![255, 255, 0, 0]);
    assert_eq!(pixel(&w, 250, 42), vec![50, 50, 50, 0]);
    assert_eq!(pixel(&w, 250, 47), vec![0, 0, 0, 0]);
    assert_eq!(pixel(&w, 125, 20), vec![63, 255, 127, 0]);
    assert_eq!(w.cursor(), (0, 16));
}

#[test]
fn render_game_over_writes_three_lines() {
    let mut g = PongGame::new(500, 300);
    g.player_score = 5;
    g.game_over = true;
    let mut w = surface(500, 300);
    g.render(&mut w);
    assert_eq!(w.cursor(), (0, 48));
}

#[test]
fn render_clips_ball_above_screen() {
    let mut g = PongGame::new(500, 300);
    g.ball_x = 300;
    g.ball_y = -5;
    let mut w = surface(500, 300);
    g.render(&mut w);
    assert_eq!(pixel(&w, 305, 4), vec![255, 255, 0, 0]);
    assert_eq!(pixel(&w, 305, 5), vec![0, 0, 0, 0]);
}

#[test]
fn runtime_dispatches_callbacks() {
    let mut rt = Runtime::new(surface(500, 300));
    rt.tick();
    rt.key(Key::ArrowUp);
    assert!(rt.game.is_none());
    rt.install(PongGame::new(500, 300));
    rt.start();
    assert_eq!(rt.screen.cursor(), (0, 16));
    rt.key(Key::ArrowUp);
    assert_eq!(rt.game.as_ref().unwrap().player_paddle_y, 94);
    rt.tick();
    let g = rt.game.as_ref().unwrap();
    assert_eq!((g.ball_x, g.ball_y), (280, 175));
}
