use vstd::prelude::*;
use vstd::string::*;

verus! {

/// What `str::to_lowercase` makes of a string.
pub uninterp spec fn lower_of(s: Seq<char>) -> Seq<char>;

/// Relies on str::to_lowercase: the lowercase form of `s`, which depends on
/// the characters of `s` alone.
#[verifier::external_body]
fn lowercase(s: &str) -> (r: String)
    ensures
        r@ == lower_of(s@),
{
    s.to_lowercase()
}

/// `w` occurs in `s` as a run of consecutive characters.
pub open spec fn has_infix(s: Seq<char>, w: Seq<char>) -> bool {
    exists|i: int| 0 <= i && i + w.len() <= s.len() && #[trigger] s.subrange(i, i + w.len()) == w
}

/// The marker of a Unicode-capable locale.
pub open spec fn utf_marker() -> Seq<char> {
    seq!['u', 't', 'f']
}

/// Whether `folded` (a locale name already in lowercase) names a Unicode
/// encoding.
pub fn mentions_utf(folded: &str) -> (r: bool)
    ensures
        r == has_infix(folded@, utf_marker()),
{
    let n = folded.unicode_len();
    if n < 3 {
        proof {
            if has_infix(folded@, utf_marker()) {
                let i = choose|i: int|
                    0 <= i && i + 3 <= folded@.len() && #[trigger] folded@.subrange(i, i + 3)
                        == utf_marker();
            }
        }
        return false;
    }
    let mut i: usize = 0;
    while i < n - 2
        invariant
            n == folded@.len(),
            n >= 3,
            i + 2 <= n,
            forall|j: int|
                0 <= j < i ==> #[trigger] folded@.subrange(j, j + 3) != utf_marker(),
        decreases n - i,
    {
        let a = folded.get_char(i);
        let b = folded.get_char(i + 1);
        let c = folded.get_char(i + 2);
        if a == 'u' && b == 't' && c == 'f' {
            proof {
                assert(folded@.subrange(i as int, i + 3) =~= utf_marker());
            }
            return true;
        }
        proof {
            let sub = folded@.subrange(i as int, i + 3);
            assert(sub[0] == a && sub[1] == b && sub[2] == c);
            assert(utf_marker()[0] == 'u' && utf_marker()[1] == 't' && utf_marker()[2] == 'f');
        }
        i += 1;
    }
    proof {
        if has_infix(folded@, utf_marker()) {
            let j = choose|j: int|
                0 <= j && j + 3 <= folded@.len() && #[trigger] folded@.subrange(j, j + 3)
                    == utf_marker();
            assert(folded@.subrange(j, j + 3) != utf_marker());
        }
    }
    false
}

/// Whether invaders are drawn with the pictographic glyph: the flag variable
/// is exactly `1`, or the locale, in lowercase, mentions `utf`. An unset
/// variable reads as the empty string.
pub fn iconic_from_env(flag: &str, locale: &str) -> (r: bool)
    ensures
        r == (flag@ == seq!['1'] || has_infix(lower_of(locale@), utf_marker())),
{
    let is_one = flag.unicode_len() == 1 && flag.get_char(0) == '1';
    proof {
        if is_one {
            assert(flag@ =~= seq!['1']);
        }
    }
    if is_one {
        return true;
    }
    let folded = lowercase(locale);
    mentions_utf(folded.as_str())
}

} // verus!
