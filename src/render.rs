use vstd::prelude::*;

use crate::game::{Game, GameView, HEIGHT, WIDTH};

verus! {

/// What is drawn in one cell of the screen.
#[derive(Clone, Copy, Debug, PartialEq, Eq, Structural)]
pub enum Glyph {
    /// The top and bottom border.
    HorizontalEdge,
    /// The left and right border.
    VerticalEdge,
    Player,
    Bullet,
    Invader,
    /// The start of the score line; the score follows it.
    ScoreLabel,
}

/// A glyph to draw at column `x`, row `y`.
#[derive(Clone, Copy, Debug, PartialEq, Eq, Structural)]
pub struct Mark {
    pub x: u16,
    pub y: u16,
    pub glyph: Glyph,
}

/// Column and row of the score line.
pub const SCORE_X: u16 = 2;

pub const SCORE_Y: u16 = HEIGHT + 1;

/// The top and bottom border, column by column: for each column the top cell,
/// then the bottom one.
pub open spec fn horizontal_edges() -> Seq<Mark> {
    Seq::new(
        2 * (WIDTH + 1) as nat,
        |i: int|
            Mark {
                x: (i / 2) as u16,
                y: if i % 2 == 0 {
                    0
                } else {
                    HEIGHT
                },
                glyph: Glyph::HorizontalEdge,
            },
    )
}

/// The left and right border, row by row: for each row the left cell, then
/// the right one.
pub open spec fn vertical_edges() -> Seq<Mark> {
    Seq::new(
        2 * (HEIGHT + 1) as nat,
        |i: int|
            Mark {
                x: if i % 2 == 0 {
                    0
                } else {
                    WIDTH
                },
                y: (i / 2) as u16,
                glyph: Glyph::VerticalEdge,
            },
    )
}

pub open spec fn invader_mark(p: (u16, u16)) -> Mark {
    Mark { x: p.0, y: p.1, glyph: Glyph::Invader }
}

/// A frame of the game, in drawing order (a later mark covers an earlier one
/// in the same cell): the border, the player, the projectile if any, the
/// invaders, and the score line.
pub open spec fn frame(g: GameView) -> Seq<Mark> {
    let bullet = match g.bullet {
        Some(b) => seq![Mark { x: b.0, y: b.1, glyph: Glyph::Bullet }],
        None => Seq::empty(),
    };
    horizontal_edges() + vertical_edges() + seq![
        Mark { x: g.player_x, y: g.player_y, glyph: Glyph::Player },
    ] + bullet + g.invaders.map_values(|p: (u16, u16)| invader_mark(p)) + seq![
        Mark { x: SCORE_X, y: SCORE_Y, glyph: Glyph::ScoreLabel },
    ]
}

/// The text of a glyph; `iconic` picks the pictographic invader.
pub open spec fn glyph_chars(glyph: Glyph, iconic: bool) -> Seq<char> {
    match glyph {
        Glyph::HorizontalEdge => seq!['-'],
        Glyph::VerticalEdge => seq!['|'],
        Glyph::Player => seq!['A'],
        Glyph::Bullet => seq!['|'],
        Glyph::Invader => if iconic {
            seq!['\u{1F47E}']
        } else {
            seq!['X']
        },
        Glyph::ScoreLabel => seq!['S', 'c', 'o', 'r', 'e', ':', ' '],
    }
}

/// The text that draws `glyph`.
pub fn glyph_text(glyph: Glyph, iconic: bool) -> (r: &'static str)
    ensures
        r@ == glyph_chars(glyph, iconic),
{
    match glyph {
        Glyph::HorizontalEdge => {
            proof {
                reveal_strlit("-");
            }
            "-"
        },
        Glyph::VerticalEdge => {
            proof {
                reveal_strlit("|");
            }
            "|"
        },
        Glyph::Player => {
            proof {
                reveal_strlit("A");
            }
            "A"
        },
        Glyph::Bullet => {
            proof {
                reveal_strlit("|");
            }
            "|"
        },
        Glyph::Invader => {
            if iconic {
                proof {
                    reveal_strlit("\u{1F47E}");
                }
                "\u{1F47E}"
            } else {
                proof {
                    reveal_strlit("X");
                }
                "X"
            }
        },
        Glyph::ScoreLabel => {
            proof {
                reveal_strlit("Score: ");
            }
            "Score: "
        },
    }
}

impl Game {
    /// The marks that draw the present state, in drawing order.
    pub fn scene(&self) -> (r: Vec<Mark>)
        ensures
            r@ == frame(self@),
    {
        let mut marks: Vec<Mark> = Vec::new();
        let mut x: u16 = 0;
        while x <= WIDTH
            invariant
                x <= WIDTH + 1,
                marks@ == horizontal_edges().take(2 * x),
            decreases WIDTH + 1 - x,
        {
            marks.push(Mark { x, y: 0, glyph: Glyph::HorizontalEdge });
            marks.push(Mark { x, y: HEIGHT, glyph: Glyph::HorizontalEdge });
            proof {
                assert(marks@ =~= horizontal_edges().take(2 * x + 2));
            }
            x += 1;
        }
        assert(marks@ =~= horizontal_edges());
        let mut y: u16 = 0;
        while y <= HEIGHT
            invariant
                y <= HEIGHT + 1,
                marks@ == horizontal_edges() + vertical_edges().take(2 * y),
            decreases HEIGHT + 1 - y,
        {
            marks.push(Mark { x: 0, y, glyph: Glyph::VerticalEdge });
            marks.push(Mark { x: WIDTH, y, glyph: Glyph::VerticalEdge });
            proof {
                assert(marks@ =~= horizontal_edges() + vertical_edges().take(2 * y + 2));
            }
            y += 1;
        }
        assert(vertical_edges().take(2 * y) =~= vertical_edges());
        marks.push(Mark { x: self.player_x, y: self.player_y, glyph: Glyph::Player });
        if let Some((bx, by)) = self.bullet {
            marks.push(Mark { x: bx, y: by, glyph: Glyph::Bullet });
        }
        let ghost head = marks@;
        let n = self.invaders.len();
        let mut i: usize = 0;
        while i < n
            invariant
                n == self.invaders.len(),
                i <= n,
                marks@ == head + self.invaders@.take(i as int).map_values(
                    |p: (u16, u16)| invader_mark(p),
                ),
            decreases n - i,
        {
            let (ix, iy) = self.invaders[i];
            marks.push(Mark { x: ix, y: iy, glyph: Glyph::Invader });
            proof {
                assert(marks@ =~= head + self.invaders@.take(i + 1).map_values(
                    |p: (u16, u16)| invader_mark(p),
                ));
            }
            i += 1;
        }
        assert(self.invaders@.take(n as int) =~= self.invaders@);
        marks.push(Mark { x: SCORE_X, y: SCORE_Y, glyph: Glyph::ScoreLabel });
        assert(marks@ =~= frame(self@));
        marks
    }
}

} // verus!
