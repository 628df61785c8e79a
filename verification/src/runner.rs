//! Choosing a game by name. The launcher takes one game name and runs the
//! matching game; the comparison ignores ASCII case, and an unknown name
//! selects nothing.

use vstd::prelude::*;

verus! {

/// The games the engine ships with.
#[derive(Clone, Copy, PartialEq, Eq, Structural, Debug)]
pub enum Game {
    GameOfLife,
    Tetris,
}

/// Whether `c` is an ASCII capital letter.
pub open spec fn is_ascii_upper(c: char) -> bool {
    65 <= c as u32 && c as u32 <= 90
}

/// Whether two characters are equal up to ASCII case: they are the same, or
/// one is the ASCII capital of the other.
pub open spec fn chars_eq_ascii_ci(a: char, b: char) -> bool {
    ||| a == b
    ||| (is_ascii_upper(a) && a as u32 + 32 == b as u32)
    ||| (is_ascii_upper(b) && b as u32 + 32 == a as u32)
}

/// Whether two strings are equal up to ASCII case, character by character.
pub open spec fn str_eq_ascii_ci(a: Seq<char>, b: Seq<char>) -> bool {
    a.len() == b.len() && forall|i: int| 0 <= i < a.len() ==> chars_eq_ascii_ci(a[i], b[i])
}

/// Compares two strings for equality up to ASCII case.
pub fn eq_ignore_ascii_case(a: &str, b: &str) -> (equal: bool)
    ensures
        equal == str_eq_ascii_ci(a@, b@),
{
    let a_len = a.unicode_len();
    let b_len = b.unicode_len();
    if a_len != b_len {
        return false;
    }
    let mut i: usize = 0;
    while i < a_len
        invariant
            i <= a_len,
            a_len == a@.len(),
            a_len == b@.len(),
            forall|j: int| 0 <= j < i ==> chars_eq_ascii_ci(a@[j], b@[j]),
        decreases a_len - i,
    {
        let ca = a.get_char(i);
        let cb = b.get_char(i);
        let ua = ca as u32;
        let ub = cb as u32;
        let same = ca == cb || (65 <= ua && ua <= 90 && ua + 32 == ub) || (65 <= ub && ub <= 90
            && ub + 32 == ua);
        if !same {
            assert(!chars_eq_ascii_ci(a@[i as int], b@[i as int]));
            return false;
        }
        i = i + 1;
    }
    true
}

/// Picks the game a name selects: the names of the two games, compared
/// without regard to ASCII case; any other name selects nothing.
pub fn select_game(name: &str) -> (game: Option<Game>)
    ensures
        game == Some(Game::GameOfLife) <==> str_eq_ascii_ci(name@, "gol"@),
        game == Some(Game::Tetris) <==> str_eq_ascii_ci(name@, "tetris"@),
        game is None <==> !str_eq_ascii_ci(name@, "gol"@) && !str_eq_ascii_ci(name@, "tetris"@),
{
    proof {
        reveal_strlit("gol");
        reveal_strlit("tetris");
    }
    if eq_ignore_ascii_case(name, "gol") {
        Some(Game::GameOfLife)
    } else if eq_ignore_ascii_case(name, "tetris") {
        Some(Game::Tetris)
    } else {
        None
    }
}

} // verus!
