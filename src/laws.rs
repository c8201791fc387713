use vstd::prelude::*;

use crate::game::{
    at_edge, is_first_hit, lemma_next_wf, GameState, GameView, REWARD, WIDTH,
};
use crate::input::InputHandler;

verus! {

/// Whatever the inputs and whenever the formation moves, the player's column
/// stays within `1..=WIDTH - 2` (and the whole invariant holds throughout).
pub proof fn player_stays_on_grid(g: GameView, ticks: Seq<(InputHandler, bool)>)
    requires
        g.wf(),
    ensures
        g.run(ticks).wf(),
        1 <= g.run(ticks).player_x <= WIDTH - 2,
    decreases ticks.len(),
{
    if ticks.len() > 0 {
        lemma_next_wf(g, ticks[0].0, ticks[0].1);
        player_stays_on_grid(g.next(ticks[0].0, ticks[0].1), ticks.drop_first());
    }
}

/// While a projectile is in flight, asking to fire changes nothing: the tick
/// comes out the same as without the intent.
pub proof fn fire_ignored_in_flight(g: GameView, input: InputHandler, march: bool)
    requires
        g.wf(),
        g.bullet is Some,
    ensures
        g.next(input, march) == g.next(InputHandler { shoot: false, ..input }, march),
{
}

/// When several invaders meet the hit test on the projectile's next row, the
/// first of them in order is destroyed, and no other: the projectile is
/// spent and the score grows by one reward.
pub proof fn first_hit_destroyed(g: GameView, input: InputHandler, i: int)
    requires
        g.wf(),
        g.state == GameState::Playing,
        g.bullet matches Some(b) && b.1 > 0 && is_first_hit(g.invaders, b.0, (b.1 - 1) as u16, i),
    ensures
        g.next(input, false).invaders == g.invaders.remove(i),
        g.next(input, false).bullet is None,
        g.next(input, false).score == g.score + REWARD,
{
    let b = g.bullet->Some_0;
    crate::game::lemma_first_hit_unique(g.invaders, b.0, (b.1 - 1) as u16, i);
}

/// On a cadence tick, if some invader stands at the side the formation
/// marches toward, every invader descends one row in place and the direction
/// turns; otherwise every invader shifts one column in the direction, on its
/// row. Without the cadence the formation does not move.
pub proof fn formation_reflects(g: GameView, input: InputHandler)
    requires
        g.wf(),
        g.state == GameState::Playing,
    ensures
        ({
            let s = g.before_march(input);
            let h = g.next(input, true);
            &&& s.invader_direction == g.invader_direction
            &&& h.invaders.len() == s.invaders.len()
            &&& at_edge(s.invaders, s.invader_direction) ==> {
                &&& h.invader_direction == -s.invader_direction
                &&& forall|k: int|
                    0 <= k < h.invaders.len() ==> #[trigger] h.invaders[k].0 == s.invaders[k].0
                        && h.invaders[k].1 == s.invaders[k].1 + 1
            }
            &&& !at_edge(s.invaders, s.invader_direction) ==> {
                &&& h.invader_direction == s.invader_direction
                &&& forall|k: int|
                    0 <= k < h.invaders.len() ==> #[trigger] h.invaders[k].0 == s.invaders[k].0
                        + s.invader_direction && h.invaders[k].1 == s.invaders[k].1
            }
        }),
        g.next(input, false).invaders == g.before_march(input).invaders,
        g.next(input, false).invader_direction == g.invader_direction,
{
    let s = g.before_march(input);
    crate::game::lemma_before_march_wf(g, input);
    let h = g.next(input, true);
    if !at_edge(s.invaders, s.invader_direction) {
        assert forall|k: int| 0 <= k < h.invaders.len() implies #[trigger] h.invaders[k].0
            == s.invaders[k].0 + s.invader_direction by {
            let x = s.invaders[k].0;
            assert(!((s.invader_direction == 1 && x >= WIDTH - 2) || (s.invader_direction == -1
                && x <= 1)));
        }
    } else {
        assert forall|k: int| 0 <= k < h.invaders.len() implies #[trigger] h.invaders[k].1
            == s.invaders[k].1 + 1 by {
            assert(s.invaders[k].1 < s.player_y);
        }
    }
}

/// Once the game is lost or won, no sequence of ticks changes anything.
pub proof fn finished_game_frozen(g: GameView, ticks: Seq<(InputHandler, bool)>)
    requires
        g.state != GameState::Playing,
    ensures
        g.run(ticks) == g,
    decreases ticks.len(),
{
    if ticks.len() > 0 {
        finished_game_frozen(g.next(ticks[0].0, ticks[0].1), ticks.drop_first());
    }
}

/// Destroying the last invader does not win by itself: the game is won on
/// the first cadence tick that finds the formation empty.
pub proof fn win_waits_for_cadence(g: GameView, input: InputHandler)
    requires
        g.wf(),
        g.state == GameState::Playing,
        g.before_march(input).invaders.len() == 0,
    ensures
        g.next(input, false).state == GameState::Playing,
        g.next(input, true).state == GameState::Won,
{
    crate::game::lemma_before_march_wf(g, input);
}

} // verus!
