//! The Pong engine: paddles, ball and score, advanced one step per tick.
use vstd::prelude::*;

use crate::screen::{after_text, fill, gray, plot, FrameBufferInfo, ScreenWriter};

verus! {

/// Largest screen side the engine accepts, so that positions fit in `i64`.
pub const MAX_DIM: usize = 0x4000_0000;

/// Points needed to win a match.
pub const WIN_SCORE: usize = 5;

/// Length of the player's position history.
pub const HISTORY_LEN: usize = 30;

/// How many ticks the opponent lags behind the player.
pub const DELAY_FRAMES: usize = 15;

/// Divisor that damps the spin given by a paddle hit.
pub const SPIN_DAMPING: i64 = 5;

/// A decoded key press, as far as the game reads it.
#[derive(Debug, Clone, Copy, PartialEq, Eq, Structural)]
pub enum Key {
    ArrowUp,
    ArrowDown,
    Unicode(char),
    Other,
}

/// A match of Pong: field size, both paddles, the ball, the score and the
/// player's recent places, which the opponent follows with a delay.
pub struct PongGame {
    pub width: usize,
    pub height: usize,
    pub player_paddle_x: usize,
    pub player_paddle_y: usize,
    pub player_paddle_width: usize,
    pub player_paddle_height: usize,
    pub player_paddle_speed: usize,
    pub computer_paddle_x: usize,
    pub computer_paddle_y: usize,
    pub computer_paddle_width: usize,
    pub computer_paddle_height: usize,
    pub computer_paddle_speed: usize,
    pub ball_x: i64,
    pub ball_y: i64,
    pub ball_size: usize,
    pub ball_velocity_x: i64,
    pub ball_velocity_y: i64,
    pub player_score: usize,
    pub computer_score: usize,
    pub game_over: bool,
    /// Recent vertical positions of the player's paddle, a ring buffer.
    pub player_position_history: Vec<usize>,
    pub history_index: usize,
}

/// Starting top of a paddle of height `h` on a field of height `height`:
/// half the field height less the paddle height.
pub open spec fn paddle_start(height: int, h: int) -> int {
    height / 2 - h
}

/// One step of `speed` up, stopping at the top edge.
pub open spec fn step_up(y: int, speed: int) -> int {
    if y > speed {
        y - speed
    } else {
        0
    }
}

/// One step of `speed` down, stopping where the paddle touches the bottom edge.
pub open spec fn step_down(y: int, h: int, speed: int, height: int) -> int {
    if y + h + speed < height {
        y + speed
    } else {
        height - h
    }
}

/// One step of a paddle at `y` toward `target`.
pub open spec fn follow(y: int, h: int, speed: int, height: int, target: int) -> int {
    if y < target {
        step_down(y, h, speed, height)
    } else if y > target {
        step_up(y, speed)
    } else {
        y
    }
}

/// Truncating quotient of `a` by a positive `d`, as Rust divides.
pub open spec fn div_trunc(a: int, d: int) -> int {
    if a >= 0 {
        a / d
    } else {
        -((-a) / d)
    }
}

/// Vertical speed given by a paddle whose top is `py` (height `ph`) to a ball
/// whose top is `by` (side `size`); never zero.
pub open spec fn spin(py: int, ph: int, by: int, size: int) -> int {
    let s = -div_trunc((py + ph / 2) - (by + size / 2), SPIN_DAMPING as int);
    if s != 0 {
        s
    } else if by % 2 == 0 {
        3
    } else {
        -3
    }
}

/// Whether `v` is even.
fn is_even(v: i64) -> (r: bool)
    ensures
        r == (v % 2 == 0),
{
    if v >= 0 {
        (v as u64) % 2 == 0
    } else {
        let m: u64 = ((-(v as i128)) as u64) % 2;
        assert((-(v as int)) % 2 == 0 <==> v % 2 == 0) by (nonlinear_arith);
        m == 0
    }
}

/// The vertical speed that a paddle hit gives the ball: `spin(py, ph, by, size)`.
fn spin_of(py: usize, ph: usize, by: i64, size: usize) -> (r: i64)
    requires
        py + ph <= MAX_DIM,
        size <= MAX_DIM,
        -(2 * MAX_DIM) <= by <= 2 * MAX_DIM,
    ensures
        r == spin(py as int, ph as int, by as int, size as int),
{
    let rel: i64 = (py as i64 + (ph / 2) as i64) - (by + (size / 2) as i64);
    let s: i64 = if rel >= 0 {
        -(((rel as u64) / 5) as i64)
    } else {
        (((-rel) as u64) / 5) as i64
    };
    if s != 0 {
        s
    } else if is_even(by) {
        3
    } else {
        -3
    }
}

/// Bound on the ball's vertical speed on a field of height `h` with a ball of side `size`.
pub open spec fn max_vy(h: int, size: int) -> int {
    h + size + 35
}

/// Where the ball may be and how fast it may go. Vertically it may stand
/// beyond an edge for a while, but then its velocity brings it back within
/// a bounded band.
pub open spec fn ball_inv(x: int, y: int, vx: int, vy: int, w: int, h: int, size: int) -> bool {
    let lo = -(size + max_vy(h, size));
    let hi = h + max_vy(h, size);
    &&& 0 <= x <= w
    &&& lo <= y <= hi
    &&& y < 0 ==> lo <= y + vy
    &&& y + size > h ==> y + vy <= hi
    &&& -35 <= vx <= 35
    &&& -max_vy(h, size) <= vy <= max_vy(h, size)
}

/// A paddle hit gives a speed within the bound when the ball box overlaps
/// the paddle vertically.
pub proof fn lemma_spin_bound(py: int, ph: int, by: int, size: int, h: int)
    requires
        0 <= py,
        0 <= ph,
        py + ph <= h,
        0 <= size,
        by + size >= py,
        by <= py + ph,
    ensures
        -max_vy(h, size) <= spin(py, ph, by, size) <= max_vy(h, size),
{
}

/// A tick that commits the candidate ball keeps the ball within its band,
/// whatever the velocity checks gave, as long as a paddle hit happened only
/// where the ball box overlaps the field.
pub proof fn lemma_ball_step(
    x: int,
    y: int,
    vx: int,
    vy: int,
    nvx: int,
    nvy: int,
    w: int,
    h: int,
    size: int,
)
    requires
        ball_inv(x, y, vx, vy, w, h, size),
        0 <= size,
        0 < h,
        0 < x + vx,
        x + vx + size < w,
        -35 <= nvx <= 35,
        -max_vy(h, size) <= nvy <= max_vy(h, size),
        (nvy == vy && 0 < y + vy && y + vy + size < h) || (nvy == -vy && (y + vy <= 0 || y
            + vy + size >= h)) || (-size <= y + vy <= h),
    ensures
        ball_inv(x + vx, y + vy, nvx, nvy, w, h, size),
{
}

/// The decimal digit for `d`, below ten.
pub open spec fn digit(d: int) -> char {
    if d == 0 {
        '0'
    } else if d == 1 {
        '1'
    } else if d == 2 {
        '2'
    } else if d == 3 {
        '3'
    } else if d == 4 {
        '4'
    } else if d == 5 {
        '5'
    } else if d == 6 {
        '6'
    } else if d == 7 {
        '7'
    } else if d == 8 {
        '8'
    } else {
        '9'
    }
}

fn digit_char(d: usize) -> (r: char)
    requires
        d < 10,
    ensures
        r == digit(d as int),
{
    if d == 0 {
        '0'
    } else if d == 1 {
        '1'
    } else if d == 2 {
        '2'
    } else if d == 3 {
        '3'
    } else if d == 4 {
        '4'
    } else if d == 5 {
        '5'
    } else if d == 6 {
        '6'
    } else if d == 7 {
        '7'
    } else if d == 8 {
        '8'
    } else {
        '9'
    }
}

/// Spaces between the two scores of the score line.
pub const SCORE_GAP: usize = 27;

/// The score line: the player's score, a gap, the opponent's score, a newline.
pub open spec fn score_line(player: int, computer: int) -> Seq<char> {
    seq![digit(player)] + Seq::new(SCORE_GAP as nat, |i: int| ' ') + seq![digit(computer), '\n']
}

/// Paints dashes `d .. n` of the centre divider: each one pixel wide and five
/// high, one every ten rows.
pub open spec fn dashes(fb: Seq<u8>, info: FrameBufferInfo, x: int, d: int, n: int) -> Seq<u8>
    decreases n - d,
{
    if d >= n {
        fb
    } else {
        dashes(fill(fb, info, x, 10 * d, 1, 5, (50u8, 50u8, 50u8)), info, x, d + 1, n)
    }
}

impl PongGame {
    pub open spec fn wf(&self) -> bool {
        &&& 0 < self.width <= MAX_DIM
        &&& 0 < self.height <= MAX_DIM
        &&& self.player_paddle_height == self.height / 6
        &&& self.computer_paddle_height == self.player_paddle_height
        &&& self.player_paddle_width == self.width / 50
        &&& self.computer_paddle_width == self.player_paddle_width
        &&& self.player_paddle_speed == self.height / 50
        &&& self.computer_paddle_speed == self.player_paddle_speed
        &&& self.player_paddle_x == self.width / 20
        &&& self.computer_paddle_x == self.width - self.width / 20 - self.player_paddle_width
        &&& self.ball_size == self.width / 50
        &&& self.player_paddle_y + self.player_paddle_height <= self.height
        &&& self.computer_paddle_y + self.computer_paddle_height <= self.height
        &&& ball_inv(self.ball_x as int, self.ball_y as int, self.ball_velocity_x as int, self.ball_velocity_y as int, self.width as int, self.height as int, self.ball_size as int)
        &&& self.player_score <= WIN_SCORE
        &&& self.computer_score <= WIN_SCORE
        &&& self.game_over <==> (self.player_score >= WIN_SCORE || self.computer_score
            >= WIN_SCORE)
        &&& self.player_position_history@.len() == HISTORY_LEN
        &&& self.history_index < HISTORY_LEN
        &&& forall|i: int|
            0 <= i < HISTORY_LEN ==> #[trigger] self.player_position_history@[i]
                + self.player_paddle_height <= self.height
    }

    /// The ball sits at the centre, heading toward the side that is behind,
    /// its vertical direction set by the parity of its place.
    pub open spec fn ball_centered(&self) -> bool {
        &&& self.ball_x == self.width / 2 - self.ball_size / 2
        &&& self.ball_y == self.height / 2 - self.ball_size / 2
        &&& self.ball_velocity_x == (if self.player_score > self.computer_score {
            -6i64
        } else {
            6i64
        })
        &&& self.ball_velocity_y == (if self.ball_y % 2 == 0 {
            3i64
        } else {
            -3i64
        })
    }

    /// Ball and both paddles sit at their starting places.
    pub open spec fn is_centered(&self) -> bool {
        &&& self.ball_centered()
        &&& self.player_paddle_y == paddle_start(self.height as int, self.player_paddle_height as int)
        &&& self.computer_paddle_y == paddle_start(
            self.height as int,
            self.computer_paddle_height as int,
        )
    }

    /// Everything but the ball, the paddles' vertical places and the velocity
    /// is as in `other`.
    pub open spec fn same_frame(&self, other: &PongGame) -> bool {
        &&& self.width == other.width
        &&& self.height == other.height
        &&& self.player_paddle_x == other.player_paddle_x
        &&& self.player_paddle_width == other.player_paddle_width
        &&& self.player_paddle_height == other.player_paddle_height
        &&& self.player_paddle_speed == other.player_paddle_speed
        &&& self.computer_paddle_x == other.computer_paddle_x
        &&& self.computer_paddle_width == other.computer_paddle_width
        &&& self.computer_paddle_height == other.computer_paddle_height
        &&& self.computer_paddle_speed == other.computer_paddle_speed
        &&& self.ball_size == other.ball_size
    }

    /// A new game on a field of `width` by `height` pixels.
    pub fn new(width: usize, height: usize) -> (r: Self)
        requires
            0 < width <= MAX_DIM,
            0 < height <= MAX_DIM,
        ensures
            r.wf(),
            r.width == width,
            r.height == height,
            r.player_paddle_height == height / 6,
            r.player_paddle_width == width / 50,
            r.player_paddle_speed == height / 50,
            r.player_paddle_x == width / 20,
            r.player_paddle_y == paddle_start(height as int, (height / 6) as int),
            r.computer_paddle_x == width - width / 20 - width / 50,
            r.computer_paddle_y == paddle_start(height as int, (height / 6) as int),
            r.ball_size == width / 50,
            r.ball_x == width / 2 - (width / 50) / 2,
            r.ball_y == height / 2 - (width / 50) / 2,
            r.ball_velocity_x == 35,
            r.ball_velocity_y == 30,
            r.player_score == 0,
            r.computer_score == 0,
            !r.game_over,
            r.history_index == 0,
            forall|i: int|
                0 <= i < HISTORY_LEN ==> #[trigger] r.player_position_history@[i] == paddle_start(
                    height as int,
                    (height / 6) as int,
                ),
    {
        let player_paddle_height = height / 6;
        let player_paddle_width = width / 50;
        let ball_size = width / 50;
        let start_y = height / 2 - player_paddle_height;
        let mut history: Vec<usize> = Vec::new();
        let mut i: usize = 0;
        while i < HISTORY_LEN
            invariant
                i <= HISTORY_LEN,
                history@.len() == i,
                forall|k: int| 0 <= k < i ==> #[trigger] history@[k] == start_y,
            decreases HISTORY_LEN - i,
        {
            history.push(start_y);
            i = i + 1;
        }
        PongGame {
            width,
            height,
            player_paddle_x: width / 20,
            player_paddle_y: start_y,
            player_paddle_width,
            player_paddle_height,
            player_paddle_speed: height / 50,
            computer_paddle_x: width - width / 20 - player_paddle_width,
            computer_paddle_y: start_y,
            computer_paddle_width: player_paddle_width,
            computer_paddle_height: player_paddle_height,
            computer_paddle_speed: height / 50,
            ball_x: (width / 2 - ball_size / 2) as i64,
            ball_y: (height / 2) as i64 - (ball_size / 2) as i64,
            ball_size,
            ball_velocity_x: 35,
            ball_velocity_y: 30,
            player_score: 0,
            computer_score: 0,
            game_over: false,
            player_position_history: history,
            history_index: 0,
        }
    }

    /// Where the ball would go this tick.
    pub open spec fn cand_x(&self) -> int {
        self.ball_x + self.ball_velocity_x
    }

    pub open spec fn cand_y(&self) -> int {
        self.ball_y + self.ball_velocity_y
    }

    /// The candidate ball touches the top or the bottom edge.
    pub open spec fn hits_wall(&self) -> bool {
        self.cand_y() <= 0 || self.cand_y() + self.ball_size >= self.height
    }

    /// The candidate ball box overlaps the player's paddle.
    pub open spec fn hits_player(&self) -> bool {
        &&& self.cand_x() <= self.player_paddle_x + self.player_paddle_width
        &&& self.cand_x() >= self.player_paddle_x
        &&& self.cand_y() + self.ball_size >= self.player_paddle_y
        &&& self.cand_y() <= self.player_paddle_y + self.player_paddle_height
    }

    /// The candidate ball box overlaps the opponent's paddle.
    pub open spec fn hits_computer(&self) -> bool {
        &&& self.cand_x() + self.ball_size >= self.computer_paddle_x
        &&& self.cand_x() <= self.computer_paddle_x + self.computer_paddle_width
        &&& self.cand_y() + self.ball_size >= self.computer_paddle_y
        &&& self.cand_y() <= self.computer_paddle_y + self.computer_paddle_height
    }

    /// Horizontal velocity after the paddle checks.
    pub open spec fn vx_after_hits(&self) -> int {
        let v0 = self.ball_velocity_x as int;
        let v1 = if self.hits_player() {
            -v0
        } else {
            v0
        };
        if self.hits_computer() {
            -v1
        } else {
            v1
        }
    }

    /// Vertical velocity after the wall and paddle checks.
    pub open spec fn vy_after_hits(&self) -> int {
        let v0 = if self.hits_wall() {
            -self.ball_velocity_y
        } else {
            self.ball_velocity_y as int
        };
        let v1 = if self.hits_player() {
            spin(
                self.player_paddle_y as int,
                self.player_paddle_height as int,
                self.cand_y(),
                self.ball_size as int,
            )
        } else {
            v0
        };
        if self.hits_computer() {
            spin(
                self.computer_paddle_y as int,
                self.computer_paddle_height as int,
                self.cand_y(),
                self.ball_size as int,
            )
        } else {
            v1
        }
    }

    /// The candidate ball leaves on the left: the opponent scores.
    pub open spec fn computer_scores(&self) -> bool {
        self.cand_x() <= 0
    }

    /// The candidate ball leaves on the right: the player scores.
    pub open spec fn player_scores(&self) -> bool {
        !self.computer_scores() && self.cand_x() + self.ball_size >= self.width
    }

    /// The history after recording the player's place.
    pub open spec fn history_after(&self) -> Seq<usize> {
        self.player_position_history@.update(self.history_index as int, self.player_paddle_y)
    }

    pub open spec fn index_after(&self) -> int {
        (self.history_index + 1) % (HISTORY_LEN as int)
    }

    /// The player's place `DELAY_FRAMES` ticks ago, which the opponent chases.
    pub open spec fn delayed_target(&self) -> int {
        self.history_after()[(self.index_after() + HISTORY_LEN - DELAY_FRAMES) % (
        HISTORY_LEN as int)] as int
    }

    /// `self` is the state one tick after `o`, a game in play.
    pub open spec fn stepped_from(&self, o: &PongGame) -> bool {
        let scored = o.computer_scores() || o.player_scores();
        let cy0 = if scored {
            paddle_start(o.height as int, o.computer_paddle_height as int)
        } else {
            o.computer_paddle_y as int
        };
        &&& self.same_frame(o)
        &&& self.player_position_history@ == o.history_after()
        &&& self.history_index == o.index_after()
        &&& self.computer_score == o.computer_score + (if o.computer_scores() {
            1int
        } else {
            0int
        })
        &&& self.player_score == o.player_score + (if o.player_scores() {
            1int
        } else {
            0int
        })
        &&& self.game_over == (self.player_score >= WIN_SCORE || self.computer_score >= WIN_SCORE)
        &&& if scored {
            &&& self.ball_centered()
            &&& self.player_paddle_y == paddle_start(
                o.height as int,
                o.player_paddle_height as int,
            )
        } else {
            &&& self.ball_x == o.cand_x()
            &&& self.ball_y == o.cand_y()
            &&& self.ball_velocity_x == o.vx_after_hits()
            &&& self.ball_velocity_y == o.vy_after_hits()
            &&& self.player_paddle_y == o.player_paddle_y
        }
        &&& self.computer_paddle_y == if self.ball_velocity_x > 0 {
            follow(
                cy0,
                o.computer_paddle_height as int,
                o.computer_paddle_speed as int,
                o.height as int,
                o.delayed_target(),
            )
        } else {
            cy0
        }
    }

    /// `self` is the state that key `key` leaves from `o`.
    pub open spec fn keyed_from(&self, o: &PongGame, key: Key) -> bool {
        match key {
            Key::ArrowUp => *self == (PongGame {
                player_paddle_y: step_up(
                    o.player_paddle_y as int,
                    o.player_paddle_speed as int,
                ) as usize,
                ..*o
            }),
            Key::ArrowDown => *self == (PongGame {
                player_paddle_y: step_down(
                    o.player_paddle_y as int,
                    o.player_paddle_height as int,
                    o.player_paddle_speed as int,
                    o.height as int,
                ) as usize,
                ..*o
            }),
            Key::Unicode(c) => if c == ' ' && o.game_over {
                &&& self.same_frame(o)
                &&& self.is_centered()
                &&& self.player_score == 0
                &&& self.computer_score == 0
                &&& !self.game_over
                &&& self.history_index == 0
                &&& forall|i: int|
                    0 <= i < HISTORY_LEN ==> #[trigger] self.player_position_history@[i]
                        == paddle_start(o.height as int, o.player_paddle_height as int)
            } else {
                *self == *o
            },
            Key::Other => *self == *o,
        }
    }

    /// `self` is the state that a tick leaves from `o`.
    pub open spec fn ticked_from(&self, o: &PongGame) -> bool {
        &&& o.game_over ==> *self == *o
        &&& !o.game_over ==> self.stepped_from(o)
    }

    /// Re-centres ball and paddles after a point; the ball heads toward the
    /// side that is behind, its vertical direction set by the parity of its
    /// place. Scores and the end-of-match flag stay.
    pub fn reset(&mut self)
        requires
            old(self).wf(),
        ensures
            final(self).wf(),
            final(self).same_frame(old(self)),
            final(self).is_centered(),
            final(self).player_score == old(self).player_score,
            final(self).computer_score == old(self).computer_score,
            final(self).game_over == old(self).game_over,
            final(self).player_position_history@ == old(self).player_position_history@,
            final(self).history_index == old(self).history_index,
    {
        self.ball_x = (self.width / 2 - self.ball_size / 2) as i64;
        self.ball_y = (self.height / 2) as i64 - (self.ball_size / 2) as i64;
        self.player_paddle_y = self.height / 2 - self.player_paddle_height;
        self.computer_paddle_y = self.height / 2 - self.computer_paddle_height;
        let direction: i64 = if self.player_score > self.computer_score {
            -1
        } else {
            1
        };
        self.ball_velocity_x = direction * 6;
        self.ball_velocity_y = if is_even(self.ball_y) {
            3
        } else {
            -3
        };
    }

    /// Starts a fresh match: both scores zero, history cleared, all re-centred.
    pub fn new_game(&mut self)
        requires
            old(self).wf(),
        ensures
            final(self).wf(),
            final(self).same_frame(old(self)),
            final(self).is_centered(),
            final(self).player_score == 0,
            final(self).computer_score == 0,
            !final(self).game_over,
            final(self).history_index == 0,
            forall|i: int|
                0 <= i < HISTORY_LEN ==> #[trigger] final(self).player_position_history@[i]
                    == paddle_start(old(self).height as int, old(self).player_paddle_height as int),
    {
        self.player_score = 0;
        self.computer_score = 0;
        self.game_over = false;
        let start_y = self.height / 2 - self.player_paddle_height;
        let mut i: usize = 0;
        while i < HISTORY_LEN
            invariant
                i <= HISTORY_LEN,
                self.wf(),
                self.same_frame(old(self)),
                self.player_score == 0,
                self.computer_score == 0,
                !self.game_over,
                start_y == paddle_start(self.height as int, self.player_paddle_height as int),
                forall|k: int| 0 <= k < i ==> #[trigger] self.player_position_history@[k] == start_y,
            decreases HISTORY_LEN - i,
        {
            self.player_position_history.set(i, start_y);
            i = i + 1;
        }
        self.history_index = 0;
        self.reset();
    }

    /// Applies one key press: arrows move the player's paddle one step,
    /// staying on screen; a space restarts a finished match; the rest is ignored.
    pub fn handle_key(&mut self, key: Key)
        requires
            old(self).wf(),
        ensures
            final(self).wf(),
            final(self).keyed_from(old(self), key),
    {
        match key {
            Key::ArrowUp => {
                if self.player_paddle_y > self.player_paddle_speed {
                    self.player_paddle_y = self.player_paddle_y - self.player_paddle_speed;
                } else {
                    self.player_paddle_y = 0;
                }
            },
            Key::ArrowDown => {
                if self.player_paddle_y + self.player_paddle_height + self.player_paddle_speed
                    < self.height {
                    self.player_paddle_y = self.player_paddle_y + self.player_paddle_speed;
                } else {
                    self.player_paddle_y = self.height - self.player_paddle_height;
                }
            },
            Key::Unicode(c) => {
                if c == ' ' && self.game_over {
                    self.new_game();
                }
            },
            Key::Other => {},
        }
    }

    /// Velocities after the wall and paddle checks on the candidate ball.
    fn bounce(&self) -> (r: (i64, i64))
        requires
            self.wf(),
        ensures
            r.0 == self.vx_after_hits(),
            r.1 == self.vy_after_hits(),
            -35 <= r.0 <= 35,
            -max_vy(self.height as int, self.ball_size as int) <= r.1 <= max_vy(
                self.height as int,
                self.ball_size as int,
            ),
            (r.1 == self.ball_velocity_y && !self.hits_wall()) || (r.1 == -self.ball_velocity_y
                && self.hits_wall()) || (-self.ball_size <= self.cand_y() <= self.height),
    {
        let size = self.ball_size as i64;
        let new_ball_x: i64 = self.ball_x + self.ball_velocity_x;
        let new_ball_y: i64 = self.ball_y + self.ball_velocity_y;
        let mut vx: i64 = self.ball_velocity_x;
        let mut vy: i64 = self.ball_velocity_y;
        if new_ball_y <= 0 || new_ball_y + size >= self.height as i64 {
            vy = -vy;
        }
        if new_ball_x <= (self.player_paddle_x + self.player_paddle_width) as i64 && new_ball_x
            >= self.player_paddle_x as i64 && new_ball_y + size >= self.player_paddle_y as i64
            && new_ball_y <= (self.player_paddle_y + self.player_paddle_height) as i64 {
            vx = -vx;
            vy = spin_of(self.player_paddle_y, self.player_paddle_height, new_ball_y, self.ball_size);
            proof {
                lemma_spin_bound(
                    self.player_paddle_y as int,
                    self.player_paddle_height as int,
                    new_ball_y as int,
                    self.ball_size as int,
                    self.height as int,
                );
            }
        }
        if new_ball_x + size >= self.computer_paddle_x as i64 && new_ball_x <= (
        self.computer_paddle_x + self.computer_paddle_width) as i64 && new_ball_y + size
            >= self.computer_paddle_y as i64 && new_ball_y <= (self.computer_paddle_y
            + self.computer_paddle_height) as i64 {
            vx = -vx;
            vy = spin_of(
                self.computer_paddle_y,
                self.computer_paddle_height,
                new_ball_y,
                self.ball_size,
            );
            proof {
                lemma_spin_bound(
                    self.computer_paddle_y as int,
                    self.computer_paddle_height as int,
                    new_ball_y as int,
                    self.ball_size as int,
                    self.height as int,
                );
            }
        }
        (vx, vy)
    }

    /// Moves the opponent's paddle one step toward the player's delayed
    /// place, while the ball heads its way.
    fn chase(&mut self)
        requires
            old(self).wf(),
        ensures
            final(self).wf(),
            *final(self) == (PongGame {
                computer_paddle_y: if old(self).ball_velocity_x > 0 {
                    follow(
                        old(self).computer_paddle_y as int,
                        old(self).computer_paddle_height as int,
                        old(self).computer_paddle_speed as int,
                        old(self).height as int,
                        old(self).player_position_history@[(old(self).history_index + HISTORY_LEN
                            - DELAY_FRAMES) % (HISTORY_LEN as int)] as int,
                    ) as usize
                } else {
                    old(self).computer_paddle_y
                },
                ..*old(self)
            }),
    {
        if self.ball_velocity_x > 0 {
            let delayed_index = (self.history_index + HISTORY_LEN - DELAY_FRAMES) % HISTORY_LEN;
            let target = self.player_position_history[delayed_index];
            if self.computer_paddle_y < target {
                if self.computer_paddle_y + self.computer_paddle_height + self.computer_paddle_speed
                    < self.height {
                    self.computer_paddle_y = self.computer_paddle_y + self.computer_paddle_speed;
                } else {
                    self.computer_paddle_y = self.height - self.computer_paddle_height;
                }
            } else if self.computer_paddle_y > target {
                if self.computer_paddle_y > self.computer_paddle_speed {
                    self.computer_paddle_y = self.computer_paddle_y - self.computer_paddle_speed;
                } else {
                    self.computer_paddle_y = 0;
                }
            }
        }
    }

    /// Advances the match one tick; does nothing once the match is over.
    #[verifier::rlimit(60)]
    pub fn update(&mut self)
        requires
            old(self).wf(),
        ensures
            final(self).wf(),
            old(self).game_over ==> *final(self) == *old(self),
            !old(self).game_over ==> final(self).stepped_from(old(self)),
    {
        if self.game_over {
            return;
        }
        let ghost o = *self;
        let (vx, vy) = self.bounce();
        self.player_position_history.set(self.history_index, self.player_paddle_y);
        self.history_index = (self.history_index + 1) % HISTORY_LEN;

        let size = self.ball_size as i64;
        let new_ball_x: i64 = self.ball_x + self.ball_velocity_x;
        let new_ball_y: i64 = self.ball_y + self.ball_velocity_y;
        if new_ball_x <= 0 {
            self.computer_score = self.computer_score + 1;
            self.game_over = self.computer_score >= WIN_SCORE;
            self.reset();
        } else if new_ball_x + size >= self.width as i64 {
            self.player_score = self.player_score + 1;
            self.game_over = self.player_score >= WIN_SCORE;
            self.reset();
        } else {
            proof {
                lemma_ball_step(
                    o.ball_x as int,
                    o.ball_y as int,
                    o.ball_velocity_x as int,
                    o.ball_velocity_y as int,
                    vx as int,
                    vy as int,
                    o.width as int,
                    o.height as int,
                    o.ball_size as int,
                );
            }
            self.ball_x = new_ball_x;
            self.ball_y = new_ball_y;
            self.ball_velocity_x = vx;
            self.ball_velocity_y = vy;
        }
        assert(self.player_position_history@ == o.history_after());
        self.chase();
    }

    /// The surface `(buffer, cursor x, cursor y)` after drawing this state
    /// on a surface `st`: cleared, the dashed divider, both paddles, the ball,
    /// the score line and, once the match is over, the result and a prompt.
    pub open spec fn scene(&self, info: FrameBufferInfo, st: (Seq<u8>, int, int)) -> (
        Seq<u8>,
        int,
        int,
    ) {
        let white = (255u8, 255u8, 255u8);
        let fb0 = Seq::new(st.0.len(), |i: int| 0u8);
        let fb1 = dashes(fb0, info, (self.width / 2) as int, 0, (self.height + 9) / 10);
        let fb2 = fill(
            fb1,
            info,
            self.player_paddle_x as int,
            self.player_paddle_y as int,
            self.player_paddle_width as int,
            self.player_paddle_height as int,
            white,
        );
        let fb3 = fill(
            fb2,
            info,
            self.computer_paddle_x as int,
            self.computer_paddle_y as int,
            self.computer_paddle_width as int,
            self.computer_paddle_height as int,
            white,
        );
        let fb4 = fill(
            fb3,
            info,
            self.ball_x as int,
            self.ball_y as int,
            self.ball_size as int,
            self.ball_size as int,
            (255u8, 255u8, 0u8),
        );
        let fb5 = plot(fb4, info, (self.width / 4) as int, 20, gray(255));
        let st6 = after_text(
            info,
            (fb5, 0, 0),
            score_line(self.player_score as int, self.computer_score as int),
        );
        if self.game_over {
            let st7 = (plot(st6.0, info, self.width / 2 - 40, self.height / 2 - 20, gray(255)), st6.1, st6.2);
            let st8 = after_text(
                info,
                st7,
                if self.player_score > self.computer_score {
                    "You Win!\n"@
                } else {
                    "Computer Wins!\n"@
                },
            );
            let st9 = (plot(st8.0, info, self.width / 2 - 100, (self.height / 2) as int, gray(255)), st8.1, st8.2);
            after_text(info, st9, "Press SPACE to play again\n"@)
        } else {
            st6
        }
    }

    /// Draws the current state on `writer`; the game itself is not changed.
    pub fn render(&self, writer: &mut ScreenWriter)
        requires
            self.wf(),
            old(writer).wf(),
        ensures
            final(writer).wf(),
            final(writer).info_spec() == old(writer).info_spec(),
            final(writer).text_state() == self.scene(old(writer).info_spec(), old(writer).text_state()),
    {
        let ghost info = writer.info_spec();
        writer.clear();

        let mid = (self.width / 2) as i64;
        let n = (self.height + 9) / 10;
        let ghost fb1 = dashes(writer.fb(), info, mid as int, 0, n as int);
        let mut d: usize = 0;
        while d < n
            invariant
                writer.wf(),
                writer.info_spec() == info,
                writer.x_spec() == 0,
                writer.y_spec() == 0,
                d <= n,
                self.wf(),
                n == (self.height + 9) / 10,
                mid == self.width / 2,
                dashes(writer.fb(), info, mid as int, d as int, n as int) == fb1,
            decreases n - d,
        {
            writer.fill_rect(mid, (10 * d) as i64, 1, 5, (50, 50, 50));
            d = d + 1;
        }

        writer.fill_rect(
            self.player_paddle_x as i64,
            self.player_paddle_y as i64,
            self.player_paddle_width,
            self.player_paddle_height,
            (255, 255, 255),
        );
        writer.fill_rect(
            self.computer_paddle_x as i64,
            self.computer_paddle_y as i64,
            self.computer_paddle_width,
            self.computer_paddle_height,
            (255, 255, 255),
        );
        writer.fill_rect(self.ball_x, self.ball_y, self.ball_size, self.ball_size, (255, 255, 0));

        writer.plot_pixel((self.width / 4) as i64, 20, (255 / 4, 255, 255 / 2));
        let mut line: Vec<char> = Vec::new();
        line.push(digit_char(self.player_score));
        let mut i: usize = 0;
        while i < SCORE_GAP
            invariant
                i <= SCORE_GAP,
                line@ == seq![digit(self.player_score as int)] + Seq::new(i as nat, |k: int| ' '),
            decreases SCORE_GAP - i,
        {
            line.push(' ');
            i = i + 1;
            assert(line@ =~= seq![digit(self.player_score as int)] + Seq::new(i as nat, |k: int| ' '));
        }
        line.push(digit_char(self.computer_score));
        line.push('\n');
        assert(line@ =~= score_line(self.player_score as int, self.computer_score as int));
        writer.write_chars(line.as_slice());

        if self.game_over {
            writer.plot_pixel(
                (self.width / 2) as i64 - 40,
                (self.height / 2) as i64 - 20,
                (255 / 4, 255, 255 / 2),
            );
            if self.player_score > self.computer_score {
                writer.write_str("You Win!\n");
            } else {
                writer.write_str("Computer Wins!\n");
            }
            writer.plot_pixel((self.width / 2) as i64 - 100, (self.height / 2) as i64, (255 / 4, 255, 255 / 2));
            writer.write_str("Press SPACE to play again\n");
        }
    }
}

/// What one tick does to the match, for any state `pre` in play and the
/// state `post` that `update` leaves: scores never fall and grow by at most
/// one point in all; the end-of-match flag holds exactly when a score has
/// reached the winning score, is raised only on the tick that first reaches
/// it and is never lowered by a tick; without a paddle hit or a point the
/// vertical velocity is inverted at most once, on wall contact; both paddles
/// stay on screen.
pub proof fn lemma_tick_laws(pre: PongGame, post: PongGame)
    requires
        pre.wf(),
        post.wf(),
        post.ticked_from(&pre),
    ensures
        post.player_score >= pre.player_score,
        post.computer_score >= pre.computer_score,
        post.player_score + post.computer_score <= pre.player_score + pre.computer_score + 1,
        post.game_over <==> (post.player_score >= WIN_SCORE || post.computer_score >= WIN_SCORE),
        pre.game_over ==> post.game_over,
        !pre.game_over && post.game_over ==> pre.player_score < WIN_SCORE && pre.computer_score
            < WIN_SCORE && (post.player_score == WIN_SCORE || post.computer_score == WIN_SCORE),
        !pre.game_over && !pre.computer_scores() && !pre.player_scores() && !pre.hits_player()
            && !pre.hits_computer() ==> post.ball_velocity_y == (if pre.hits_wall() {
            -pre.ball_velocity_y
        } else {
            pre.ball_velocity_y as int
        }),
        post.player_paddle_y + post.player_paddle_height <= post.height,
        post.computer_paddle_y + post.computer_paddle_height <= post.height,
{
}

/// What a key does to the match, for any state `pre` and the state `post`
/// that `handle_key` leaves: a restart while the match is over zeroes both
/// scores and clears the end-of-match flag, a restart during play changes
/// nothing, no key raises a score, and both paddles stay on screen.
pub proof fn lemma_key_laws(pre: PongGame, post: PongGame, key: Key)
    requires
        pre.wf(),
        post.wf(),
        post.keyed_from(&pre, key),
    ensures
        key == Key::Unicode(' ') && pre.game_over ==> post.player_score == 0
            && post.computer_score == 0 && !post.game_over,
        key == Key::Unicode(' ') && !pre.game_over ==> post == pre,
        key != Key::Unicode(' ') ==> post.player_score == pre.player_score
            && post.computer_score == pre.computer_score && post.game_over == pre.game_over,
        0 <= post.player_paddle_y <= post.height - post.player_paddle_height,
        0 <= post.computer_paddle_y <= post.height - post.computer_paddle_height,
{
}

} // verus!
