use std::time::Instant;
use vstd::prelude::*;

use crate::clock::{clock_now, millis_since};
use crate::input::InputHandler;

verus! {

/// Columns of the grid; playable columns are `1..=WIDTH - 2`.
pub const WIDTH: u16 = 40;

/// Rows of the grid; the player stands on row `HEIGHT - 2`.
pub const HEIGHT: u16 = 20;

/// Milliseconds between two moves of the formation.
pub const MARCH_INTERVAL_MS: u128 = 500;

/// Points for each invader destroyed.
pub const REWARD: u32 = 10;

/// The formation's first row.
pub const FORMATION_TOP: u16 = 1;

/// Rows in the formation.
pub const FORMATION_ROWS: u16 = 3;

/// The formation starts at column `FORMATION_LEFT` and stops short of the
/// last `FORMATION_MARGIN` columns.
pub const FORMATION_LEFT: u16 = 5;

pub const FORMATION_MARGIN: u16 = 5;

/// Where a game stands: `GameOver` and `Won` are final.
#[derive(Clone, Copy, Debug, PartialEq, Eq, Structural)]
pub enum GameState {
    Playing,
    GameOver,
    Won,
}

/// A game in progress: the player, the projectile, the formation, the score,
/// the display mode and the timer that paces the formation.
pub struct Game {
    pub player_x: u16,
    pub player_y: u16,
    /// The one projectile in flight, if any, as `(x, y)`.
    pub bullet: Option<(u16, u16)>,
    /// The invaders as `(x, y)`, in the order in which hits are tested.
    pub invaders: Vec<(u16, u16)>,
    /// `1` while the formation marches right, `-1` while it marches left.
    pub invader_direction: i16,
    pub state: GameState,
    pub score: u32,
    /// Whether invaders are drawn with the pictographic glyph.
    pub iconic_mode: bool,
    pub last_invader_move: Instant,
}

/// The simulated part of a game: everything but the display mode and the clock.
pub struct GameView {
    pub player_x: u16,
    pub player_y: u16,
    pub bullet: Option<(u16, u16)>,
    pub invaders: Seq<(u16, u16)>,
    pub invader_direction: i16,
    pub state: GameState,
    pub score: u32,
}

impl View for Game {
    type V = GameView;

    open spec fn view(&self) -> GameView {
        GameView {
            player_x: self.player_x,
            player_y: self.player_y,
            bullet: self.bullet,
            invaders: self.invaders@,
            invader_direction: self.invader_direction,
            state: self.state,
            score: self.score,
        }
    }
}

/// The hit test: the invader stands on row `y` and at most one column away
/// from `x`.
pub open spec fn hits(invader: (u16, u16), x: u16, y: u16) -> bool {
    &&& invader.1 == y
    &&& -1 <= invader.0 - x <= 1
}

/// `i` is the first invader of `invaders` that the hit test at `(x, y)` finds.
pub open spec fn is_first_hit(invaders: Seq<(u16, u16)>, x: u16, y: u16, i: int) -> bool {
    &&& 0 <= i < invaders.len()
    &&& hits(invaders[i], x, y)
    &&& forall|j: int| 0 <= j < i ==> !#[trigger] hits(invaders[j], x, y)
}

/// Some invader of `invaders` meets the hit test at `(x, y)`.
pub open spec fn any_hit(invaders: Seq<(u16, u16)>, x: u16, y: u16) -> bool {
    exists|i: int| 0 <= i < invaders.len() && #[trigger] hits(invaders[i], x, y)
}

/// The invader that a projectile moving to `(x, y)` destroys, when `any_hit`.
pub open spec fn first_hit(invaders: Seq<(u16, u16)>, x: u16, y: u16) -> int {
    choose|i: int| is_first_hit(invaders, x, y, i)
}

/// Some invader has reached the side the formation is marching toward.
pub open spec fn at_edge(invaders: Seq<(u16, u16)>, direction: i16) -> bool {
    exists|i: int|
        0 <= i < invaders.len() && {
            let x = #[trigger] invaders[i].0;
            (direction == 1 && x >= WIDTH - 2) || (direction == -1 && x <= 1)
        }
}

/// Some invader stands on row `y` or below it.
pub open spec fn any_reached(invaders: Seq<(u16, u16)>, y: u16) -> bool {
    exists|i: int| 0 <= i < invaders.len() && #[trigger] invaders[i].1 >= y
}

pub open spec fn descended(p: (u16, u16)) -> (u16, u16) {
    (p.0, (p.1 + 1) as u16)
}

pub open spec fn shifted(p: (u16, u16), direction: i16) -> (u16, u16) {
    ((p.0 + direction) as u16, p.1)
}

/// Row `y` of the starting formation, as far as column `x` (excluded): an
/// invader at each even column from `FORMATION_LEFT` on, left to right.
pub open spec fn row_upto(y: u16, x: int) -> Seq<(u16, u16)>
    decreases x,
{
    if x <= FORMATION_LEFT {
        Seq::empty()
    } else {
        let before = row_upto(y, x - 1);
        if (x - 1) % 2 == 0 {
            before.push(((x - 1) as u16, y))
        } else {
            before
        }
    }
}

/// The rows of the starting formation above row `y`, top row first.
pub open spec fn formation_upto(y: int) -> Seq<(u16, u16)>
    decreases y,
{
    if y <= FORMATION_TOP {
        Seq::empty()
    } else {
        formation_upto(y - 1) + row_upto((y - 1) as u16, WIDTH - FORMATION_MARGIN)
    }
}

/// The starting formation: `FORMATION_ROWS` rows from `FORMATION_TOP` down,
/// each with an invader at every even column of
/// `FORMATION_LEFT..WIDTH - FORMATION_MARGIN`.
pub open spec fn initial_formation() -> Seq<(u16, u16)> {
    formation_upto(FORMATION_TOP + FORMATION_ROWS)
}

/// The game as it starts.
pub open spec fn initial_game() -> GameView {
    GameView {
        player_x: (WIDTH / 2) as u16,
        player_y: (HEIGHT - 2) as u16,
        bullet: None,
        invaders: initial_formation(),
        invader_direction: 1,
        state: GameState::Playing,
        score: 0,
    }
}

impl GameView {
    /// The invariant of a game: positions inside the grid, a direction of one
    /// column, and room in the score for every invader left.
    pub open spec fn wf(self) -> bool {
        &&& self.player_y == HEIGHT - 2
        &&& 1 <= self.player_x <= WIDTH - 2
        &&& self.invader_direction == 1 || self.invader_direction == -1
        &&& (self.bullet matches Some(b) ==> 1 <= b.0 <= WIDTH - 2 && b.1 < self.player_y)
        &&& forall|i: int|
            0 <= i < self.invaders.len() ==> 1 <= (#[trigger] self.invaders[i]).0 <= WIDTH - 2
                && self.invaders[i].1 <= HEIGHT
        &&& self.state == GameState::Playing ==> !any_reached(self.invaders, self.player_y)
        &&& self.score + REWARD * self.invaders.len() <= u32::MAX
    }

    /// Step 1 of a tick: the player moves left, then right, never past a side.
    pub open spec fn moved(self, left: bool, right: bool) -> GameView {
        let x1 = if left && self.player_x > 1 { (self.player_x - 1) as u16 } else { self.player_x };
        let x2 = if right && x1 < WIDTH - 2 { (x1 + 1) as u16 } else { x1 };
        GameView { player_x: x2, ..self }
    }

    /// Step 2: a projectile appears above the player, unless one is in flight.
    pub open spec fn fired(self, shoot: bool) -> GameView {
        if shoot && self.bullet is None {
            GameView { bullet: Some((self.player_x, (self.player_y - 1) as u16)), ..self }
        } else {
            self
        }
    }

    /// Step 3: the projectile rises one row, destroying the first invader it
    /// meets there, or leaves the grid from the top row.
    pub open spec fn shot(self) -> GameView {
        match self.bullet {
            None => self,
            Some(b) => {
                if b.1 == 0 {
                    GameView { bullet: None, ..self }
                } else {
                    let y = (b.1 - 1) as u16;
                    if any_hit(self.invaders, b.0, y) {
                        GameView {
                            bullet: None,
                            invaders: self.invaders.remove(first_hit(self.invaders, b.0, y)),
                            score: (self.score + REWARD) as u32,
                            ..self
                        }
                    } else {
                        GameView { bullet: Some((b.0, y)), ..self }
                    }
                }
            },
        }
    }

    /// Step 4, on a cadence tick: the formation descends and turns at an edge,
    /// or else shifts one column; then the game is lost if an invader reached
    /// the player's row, and won if none is left.
    pub open spec fn marched(self) -> GameView {
        let edge = at_edge(self.invaders, self.invader_direction);
        let invaders = if edge {
            self.invaders.map_values(|p: (u16, u16)| descended(p))
        } else {
            self.invaders.map_values(|p: (u16, u16)| shifted(p, self.invader_direction))
        };
        let direction = if edge { (-self.invader_direction) as i16 } else { self.invader_direction };
        let state = if any_reached(invaders, self.player_y) {
            GameState::GameOver
        } else if invaders.len() == 0 {
            GameState::Won
        } else {
            self.state
        };
        GameView { invaders, invader_direction: direction, state, ..self }
    }

    /// The first three steps of a tick, before the formation may move.
    pub open spec fn before_march(self, input: InputHandler) -> GameView {
        self.moved(input.left, input.right).fired(input.shoot).shot()
    }

    /// One tick: nothing changes once the game is over; otherwise the four
    /// steps, the last only when `march` (the cadence has elapsed).
    pub open spec fn next(self, input: InputHandler, march: bool) -> GameView {
        if self.state != GameState::Playing {
            self
        } else if march {
            self.before_march(input).marched()
        } else {
            self.before_march(input)
        }
    }

    /// The game after a sequence of ticks, each with its input and cadence flag.
    pub open spec fn run(self, ticks: Seq<(InputHandler, bool)>) -> GameView
        decreases ticks.len(),
    {
        if ticks.len() == 0 {
            self
        } else {
            self.next(ticks[0].0, ticks[0].1).run(ticks.drop_first())
        }
    }
}


/// The first invader that the hit test at `(x, y)` finds, if any.
fn find_hit(invaders: &Vec<(u16, u16)>, x: u16, y: u16) -> (r: Option<usize>)
    ensures
        match r {
            Some(i) => is_first_hit(invaders@, x, y, i as int),
            None => !any_hit(invaders@, x, y),
        },
{
    let n = invaders.len();
    let mut i: usize = 0;
    while i < n
        invariant
            n == invaders.len(),
            i <= n,
            forall|j: int| 0 <= j < i ==> !#[trigger] hits(invaders@[j], x, y),
        decreases n - i,
    {
        let (ix, iy) = invaders[i];
        if iy == y && ix as i32 - x as i32 <= 1 && x as i32 - ix as i32 <= 1 {
            return Some(i);
        }
        i += 1;
    }
    None
}

/// Whether some invader has reached the side the formation marches toward.
fn formation_at_edge(invaders: &Vec<(u16, u16)>, direction: i16) -> (r: bool)
    ensures
        r == at_edge(invaders@, direction),
{
    let n = invaders.len();
    let mut i: usize = 0;
    while i < n
        invariant
            n == invaders.len(),
            i <= n,
            forall|j: int|
                0 <= j < i ==> {
                    let x = #[trigger] invaders@[j].0;
                    !((direction == 1 && x >= WIDTH - 2) || (direction == -1 && x <= 1))
                },
        decreases n - i,
    {
        let x = invaders[i].0;
        if (direction == 1 && x >= WIDTH - 2) || (direction == -1 && x <= 1) {
            return true;
        }
        i += 1;
    }
    false
}

/// Whether some invader stands on row `y` or below it.
fn formation_reached(invaders: &Vec<(u16, u16)>, y: u16) -> (r: bool)
    ensures
        r == any_reached(invaders@, y),
{
    let n = invaders.len();
    let mut i: usize = 0;
    while i < n
        invariant
            n == invaders.len(),
            i <= n,
            forall|j: int| 0 <= j < i ==> #[trigger] invaders@[j].1 < y,
        decreases n - i,
    {
        if invaders[i].1 >= y {
            return true;
        }
        i += 1;
    }
    false
}

pub(crate) proof fn lemma_first_hit_unique(invaders: Seq<(u16, u16)>, x: u16, y: u16, i: int)
    requires
        is_first_hit(invaders, x, y, i),
    ensures
        first_hit(invaders, x, y) == i,
        any_hit(invaders, x, y),
{
    let k = first_hit(invaders, x, y);
    assert(is_first_hit(invaders, x, y, k));
    if k < i {
        assert(!hits(invaders[k], x, y));
    } else if k > i {
        assert(!hits(invaders[i], x, y));
    }
}

impl Game {
    /// The invariant of the game's state (see `GameView::wf`).
    pub open spec fn wf(&self) -> bool {
        self@.wf()
    }

    /// A new game: the player in the middle of its row, no projectile, the
    /// starting formation marching right, and the cadence timer started now.
    pub fn new(iconic_mode: bool) -> (r: Self)
        ensures
            r@ == initial_game(),
            r.wf(),
            r.iconic_mode == iconic_mode,
    {
        let mut invaders: Vec<(u16, u16)> = Vec::new();
        let mut y: u16 = FORMATION_TOP;
        while y < FORMATION_TOP + FORMATION_ROWS
            invariant
                FORMATION_TOP <= y <= FORMATION_TOP + FORMATION_ROWS,
                invaders@ == formation_upto(y as int),
                invaders@.len() <= WIDTH * (y - FORMATION_TOP),
                forall|i: int|
                    0 <= i < invaders@.len() ==> FORMATION_LEFT <= (#[trigger] invaders@[i]).0
                        < WIDTH - FORMATION_MARGIN && FORMATION_TOP <= invaders@[i].1 < y,
            decreases FORMATION_TOP + FORMATION_ROWS - y,
        {
            let mut x: u16 = FORMATION_LEFT;
            while x < WIDTH - FORMATION_MARGIN
                invariant
                    FORMATION_TOP <= y < FORMATION_TOP + FORMATION_ROWS,
                    FORMATION_LEFT <= x <= WIDTH - FORMATION_MARGIN,
                    invaders@ == formation_upto(y as int) + row_upto(y, x as int),
                    invaders@.len() <= WIDTH * (y - FORMATION_TOP) + x,
                    forall|i: int|
                        0 <= i < invaders@.len() ==> FORMATION_LEFT <= (#[trigger] invaders@[i]).0
                            < WIDTH - FORMATION_MARGIN && FORMATION_TOP <= invaders@[i].1 <= y,
                decreases WIDTH - FORMATION_MARGIN - x,
            {
                if x % 2 == 0 {
                    invaders.push((x, y));
                }
                proof {
                    assert(invaders@ =~= formation_upto(y as int) + row_upto(y, x + 1));
                }
                x += 1;
            }
            y += 1;
        }
        let g = Game {
            player_x: WIDTH / 2,
            player_y: HEIGHT - 2,
            bullet: None,
            invaders,
            invader_direction: 1,
            state: GameState::Playing,
            score: 0,
            iconic_mode,
            last_invader_move: clock_now(),
        };
        assert(g@ == initial_game());
        g
    }

    /// Whether the game has ended, lost or won.
    pub fn is_finished(&self) -> (r: bool)
        ensures
            r == (self.state != GameState::Playing),
    {
        self.state != GameState::Playing
    }

    /// Runs one tick, given the milliseconds that have passed since the
    /// formation last moved: the formation moves when they reach
    /// `MARCH_INTERVAL_MS`, and the cadence timer then restarts. Does nothing
    /// once the game is over.
    pub fn tick(&mut self, input: &InputHandler, elapsed_ms: u128)
        requires
            old(self).wf(),
        ensures
            final(self)@ == old(self)@.next(*input, elapsed_ms >= MARCH_INTERVAL_MS),
            final(self).wf(),
            final(self).iconic_mode == old(self).iconic_mode,
            !(old(self).state == GameState::Playing && elapsed_ms >= MARCH_INTERVAL_MS)
                ==> final(self).last_invader_move == old(self).last_invader_move,
    {
        let march = elapsed_ms >= MARCH_INTERVAL_MS;
        if self.state == GameState::Playing && march {
            self.last_invader_move = clock_now();
        }
        self.step(input, march);
    }

    /// Runs one tick at the present time (see `tick`), reading the clock for
    /// the time since the formation last moved. Does nothing once the game is
    /// over.
    pub fn update(&mut self, input: &InputHandler)
        requires
            old(self).wf(),
        ensures
            final(self).wf(),
            final(self)@ == old(self)@.next(*input, true) || final(self)@ == old(self)@.next(
                *input,
                false,
            ),
            final(self).last_invader_move != old(self).last_invader_move ==> final(self)@ == old(
                self,
            )@.next(*input, true),
            old(self).state != GameState::Playing ==> final(self)@ == old(self)@
                && final(self).last_invader_move == old(self).last_invader_move,
            final(self).iconic_mode == old(self).iconic_mode,
    {
        if self.state == GameState::Playing {
            let elapsed_ms = millis_since(&self.last_invader_move);
            self.tick(input, elapsed_ms);
        }
    }

    fn move_player(&mut self, left: bool, right: bool)
        ensures
            final(self)@ == old(self)@.moved(left, right),
            final(self).iconic_mode == old(self).iconic_mode,
            final(self).last_invader_move == old(self).last_invader_move,
    {
        if left && self.player_x > 1 {
            self.player_x = self.player_x - 1;
        }
        if right && self.player_x < WIDTH - 2 {
            self.player_x = self.player_x + 1;
        }
    }

    fn fire(&mut self, shoot: bool)
        requires
            old(self).player_y >= 1,
        ensures
            final(self)@ == old(self)@.fired(shoot),
            final(self).iconic_mode == old(self).iconic_mode,
            final(self).last_invader_move == old(self).last_invader_move,
    {
        if shoot && self.bullet.is_none() {
            self.bullet = Some((self.player_x, self.player_y - 1));
        }
    }

    fn advance_bullet(&mut self)
        requires
            old(self)@.score + REWARD * old(self)@.invaders.len() <= u32::MAX,
        ensures
            final(self)@ == old(self)@.shot(),
            final(self).iconic_mode == old(self).iconic_mode,
            final(self).last_invader_move == old(self).last_invader_move,
    {
        if let Some((bx, by)) = self.bullet {
            if by > 0 {
                let y = by - 1;
                match find_hit(&self.invaders, bx, y) {
                    Some(i) => {
                        proof {
                            lemma_first_hit_unique(self.invaders@, bx, y, i as int);
                        }
                        self.invaders.remove(i);
                        self.bullet = None;
                        self.score = self.score + REWARD;
                    },
                    None => {
                        self.bullet = Some((bx, y));
                    },
                }
            } else {
                self.bullet = None;
            }
        }
    }

    fn march_formation(&mut self)
        requires
            old(self)@.invader_direction == 1 || old(self)@.invader_direction == -1,
            forall|i: int|
                0 <= i < old(self)@.invaders.len() ==> 1 <= (#[trigger] old(self)@.invaders[i]).0
                    <= WIDTH - 2 && old(self)@.invaders[i].1 <= HEIGHT,
        ensures
            final(self)@ == old(self)@.marched(),
            final(self).iconic_mode == old(self).iconic_mode,
            final(self).last_invader_move == old(self).last_invader_move,
    {
        let ghost before = self.invaders@;
        let direction = self.invader_direction;
        let n = self.invaders.len();
        let edge = formation_at_edge(&self.invaders, direction);
        let mut i: usize = 0;
        while i < n
            invariant
                n == self.invaders.len(),
                n == before.len(),
                i <= n,
                direction == 1 || direction == -1,
                direction == old(self).invader_direction,
                self.invader_direction == direction,
                edge == at_edge(before, direction),
                self.player_x == old(self).player_x,
                self.player_y == old(self).player_y,
                self.bullet == old(self).bullet,
                self.state == old(self).state,
                self.score == old(self).score,
                self.iconic_mode == old(self).iconic_mode,
                self.last_invader_move == old(self).last_invader_move,
                forall|j: int|
                    0 <= j < n ==> 1 <= (#[trigger] before[j]).0 <= WIDTH - 2 && before[j].1
                        <= HEIGHT,
                forall|j: int|
                    0 <= j < i ==> #[trigger] self.invaders@[j] == if edge {
                        descended(before[j])
                    } else {
                        shifted(before[j], direction)
                    },
                forall|j: int| i <= j < n ==> #[trigger] self.invaders@[j] == before[j],
            decreases n - i,
        {
            let (x, y) = self.invaders[i];
            if edge {
                self.invaders.set(i, (x, y + 1));
            } else if direction == 1 {
                proof {
                    assert(!(direction == 1 && before[i as int].0 >= WIDTH - 2));
                }
                self.invaders.set(i, (x + 1, y));
            } else {
                proof {
                    assert(!(direction == -1 && before[i as int].0 <= 1));
                }
                self.invaders.set(i, (x - 1, y));
            }
            i += 1;
        }
        proof {
            assert(self.invaders@ =~= old(self)@.marched().invaders);
        }
        if edge {
            self.invader_direction = -direction;
        }
        let reached = formation_reached(&self.invaders, self.player_y);
        if reached {
            self.state = GameState::GameOver;
        } else if self.invaders.len() == 0 {
            self.state = GameState::Won;
        }
    }

    /// Runs one tick, given whether the formation's cadence has elapsed since
    /// its last move. Does nothing once the game is over.
    pub fn step(&mut self, input: &InputHandler, march: bool)
        requires
            old(self).wf(),
        ensures
            final(self)@ == old(self)@.next(*input, march),
            final(self).wf(),
            final(self).iconic_mode == old(self).iconic_mode,
            final(self).last_invader_move == old(self).last_invader_move,
    {
        proof {
            lemma_next_wf(self@, *input, march);
        }
        if self.state == GameState::Playing {
            proof {
                lemma_before_march_wf(self@, *input);
            }
            self.move_player(input.left, input.right);
            self.fire(input.shoot);
            self.advance_bullet();
            if march {
                self.march_formation();
            }
        }
    }
}

pub(crate) proof fn lemma_before_march_wf(g: GameView, input: InputHandler)
    requires
        g.wf(),
        g.state == GameState::Playing,
    ensures
        g.before_march(input).wf(),
        g.before_march(input).state == GameState::Playing,
{
    let f = g.moved(input.left, input.right).fired(input.shoot);
    assert(f.wf());
    let s = f.shot();
    if let Some(b) = f.bullet {
        if b.1 != 0 {
            let y = (b.1 - 1) as u16;
            if any_hit(f.invaders, b.0, y) {
                let k = first_hit(f.invaders, b.0, y);
                let w = choose|i: int| 0 <= i < f.invaders.len() && #[trigger] hits(f.invaders[i], b.0, y);
                lemma_first_hit_exists(f.invaders, b.0, y, w);
                assert(is_first_hit(f.invaders, b.0, y, k));
                let r = f.invaders.remove(k);
                assert forall|i: int| 0 <= i < r.len() implies r[i] == (if i < k {
                    f.invaders[i]
                } else {
                    f.invaders[i + 1]
                }) by {}
                assert forall|i: int| 0 <= i < r.len() implies 1 <= (#[trigger] r[i]).0 <= WIDTH - 2
                    && r[i].1 <= HEIGHT by {
                    if i >= k {
                        assert(r[i] == f.invaders[i + 1]);
                    }
                }
                if any_reached(r, f.player_y) {
                    let i = choose|i: int| 0 <= i < r.len() && #[trigger] r[i].1 >= f.player_y;
                    if i < k {
                        assert(f.invaders[i].1 >= f.player_y);
                    } else {
                        assert(f.invaders[i + 1].1 >= f.player_y);
                    }
                }
                assert(s.wf());
            }
        }
    }
}

/// A hit exists at `w`, so a first one exists.
proof fn lemma_first_hit_exists(invaders: Seq<(u16, u16)>, x: u16, y: u16, w: int)
    requires
        0 <= w < invaders.len(),
        hits(invaders[w], x, y),
    ensures
        is_first_hit(invaders, x, y, first_hit(invaders, x, y)),
    decreases w,
{
    if forall|j: int| 0 <= j < w ==> !#[trigger] hits(invaders[j], x, y) {
        assert(is_first_hit(invaders, x, y, w));
    } else {
        let j = choose|j: int| 0 <= j < w && #[trigger] hits(invaders[j], x, y);
        lemma_first_hit_exists(invaders, x, y, j);
    }
}

proof fn lemma_marched_wf(g: GameView)
    requires
        g.wf(),
        g.state == GameState::Playing,
    ensures
        g.marched().wf(),
{
    let m = g.marched();
    let edge = at_edge(g.invaders, g.invader_direction);
    assert forall|i: int| 0 <= i < m.invaders.len() implies 1 <= (#[trigger] m.invaders[i]).0
        <= WIDTH - 2 && m.invaders[i].1 <= HEIGHT by {
        assert(g.invaders[i].1 < g.player_y);
        if !edge {
            let x = g.invaders[i].0;
            assert(!((g.invader_direction == 1 && x >= WIDTH - 2) || (g.invader_direction == -1
                && x <= 1)));
        }
    }
}

/// A tick keeps the invariant.
pub proof fn lemma_next_wf(g: GameView, input: InputHandler, march: bool)
    requires
        g.wf(),
    ensures
        g.next(input, march).wf(),
{
    if g.state == GameState::Playing {
        lemma_before_march_wf(g, input);
        if march {
            lemma_marched_wf(g.before_march(input));
        }
    }
}

} // verus!
