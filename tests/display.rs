use invaders::display::{iconic_from_env, mentions_utf};
use invaders::game::Game;
use invaders::render::{glyph_text, Glyph, Mark};

#[test]
fn iconic_flag_and_locale() {
    assert!(iconic_from_env("1", ""));
    assert!(iconic_from_env("", "en_US.UTF-8"));
    assert!(iconic_from_env("0", "de_DE.utf8"));
    assert!(!iconic_from_env("", ""));
    assert!(!iconic_from_env("11", "C"));
    assert!(!iconic_from_env("0", "POSIX"));
}

#[test]
fn utf_marker_search() {
    assert!(mentions_utf("utf"));
    assert!(mentions_utf("en_us.utf-8"));
    assert!(!mentions_utf("ut"));
    assert!(!mentions_utf("UTF-8"));
    assert!(!mentions_utf(""));
}

#[test]
fn glyph_texts() {
    assert_eq!(glyph_text(Glyph::Invader, false), "X");
    assert_eq!(glyph_text(Glyph::Invader, true), "\u{1F47E}");
    assert_eq!(glyph_text(Glyph::Player, false), "A");
    assert_eq!(glyph_text(Glyph::Bullet, true), "|");
    assert_eq!(glyph_text(Glyph::HorizontalEdge, true), "-");
    assert_eq!(glyph_text(Glyph::ScoreLabel, false), "Score: ");
}

#[test]
fn scene_lists_every_mark() {
    let mut game = Game::new(false);
    let marks = game.scene();
    assert_eq!(marks.len(), 82 + 42 + 1 + 45 + 1);
    assert_eq!(marks[0], Mark { x: 0, y: 0, glyph: Glyph::HorizontalEdge });
    assert_eq!(marks[1], Mark { x: 0, y: 20, glyph: Glyph::HorizontalEdge });
    assert_eq!(marks[82], Mark { x: 0, y: 0, glyph: Glyph::VerticalEdge });
    assert_eq!(marks[83], Mark { x: 40, y: 0, glyph: Glyph::VerticalEdge });
    assert_eq!(marks[124], Mark { x: 20, y: 18, glyph: Glyph::Player });
    assert_eq!(marks[125], Mark { x: 6, y: 1, glyph: Glyph::Invader });
    assert_eq!(marks[170], Mark { x: 2, y: 21, glyph: Glyph::ScoreLabel });
    game.bullet = Some((20, 17));
    let marks = game.scene();
    assert_eq!(marks.len(), 172);
    assert_eq!(marks[125], Mark { x: 20, y: 17, glyph: Glyph::Bullet });
}
