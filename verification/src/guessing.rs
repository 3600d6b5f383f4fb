//! A number-guessing game: a secret between 1 and 100, and the verdict on a
//! guess.

use rand::Rng;
use vstd::prelude::*;

verus! {

/// What the player is told about a guess.
#[derive(Debug, Clone, Copy, PartialEq, Eq)]
pub enum Verdict {
    TooSmall,
    TooBig,
    Win,
}

/// What the game knows after a guess.
#[derive(Debug, Clone, Copy, PartialEq, Eq)]
pub enum Round {
    /// The game goes on: the next guess is awaited.
    Playing,
    /// The secret was guessed.
    Over,
}

/// The smallest secret a game can have.
pub const LOWEST: u32 = 1;

/// The largest secret a game can have.
pub const HIGHEST: u32 = 100;

/// The verdict on `guess` against `secret`.
pub open spec fn verdict_of(guess: u32, secret: u32) -> Verdict {
    if guess < secret {
        Verdict::TooSmall
    } else if guess > secret {
        Verdict::TooBig
    } else {
        Verdict::Win
    }
}

/// Calls `Rng::gen_range` on `rand::thread_rng()` with the inclusive range
/// from `low` to `high`. Trusted: the number drawn lies in that range; which
/// one it is differs from call to call. The call panics on an empty range,
/// which the precondition leaves out, and where the system gives the
/// generator no seed, which no precondition can.
#[verifier::external_body]
fn draw(low: u32, high: u32) -> (n: u32)
    requires
        low <= high,
    ensures
        low <= n <= high,
{
    rand::thread_rng().gen_range(low..=high)
}

/// Draws the secret of a new game.
pub fn secret_number() -> (n: u32)
    ensures
        LOWEST <= n <= HIGHEST,
{
    draw(LOWEST, HIGHEST)
}

/// Compares a guess with the secret.
pub fn judge(guess: u32, secret: u32) -> (v: Verdict)
    ensures
        v == verdict_of(guess, secret),
{
    if guess < secret {
        Verdict::TooSmall
    } else if guess > secret {
        Verdict::TooBig
    } else {
        Verdict::Win
    }
}

/// One turn of the game: the verdict to show, and whether the game is over.
/// It is over exactly when the guess is the secret.
pub fn play(guess: u32, secret: u32) -> (r: (Verdict, Round))
    ensures
        r.0 == verdict_of(guess, secret),
        r.1 == Round::Over <==> guess == secret,
{
    let verdict = judge(guess, secret);
    let round = match verdict {
        Verdict::Win => Round::Over,
        _ => Round::Playing,
    };
    (verdict, round)
}

} // verus!
