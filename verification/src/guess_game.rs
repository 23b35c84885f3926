//! A single guessing-game instance: host, opponent, secret word, remaining
//! attempts, and the state machine a guess drives.

use vstd::prelude::*;

verus! {

use std::time::{SystemTime, Duration, SystemTimeError};
use crate::text::lower_of;

#[verifier::external_type_specification]
#[verifier::external_body]
pub struct ExSystemTime(SystemTime);

#[verifier::external_type_specification]
#[verifier::external_body]
pub struct ExSystemTimeError(SystemTimeError);

/// Relies on SystemTime::now. The clock value depends on the machine's time,
/// so nothing is promised of it.
pub assume_specification[ SystemTime::now ]() -> SystemTime;

/// Relies on std::time::UNIX_EPOCH: the fixed reference instant.
#[verifier::external_body]
fn unix_epoch() -> SystemTime {
    std::time::UNIX_EPOCH
}

/// Relies on SystemTime::duration_since. Which way the comparison goes
/// depends on the clock, so nothing is promised of it.
pub assume_specification[ SystemTime::duration_since ](
    t: &SystemTime,
    earlier: SystemTime,
) -> Result<Duration, SystemTimeError>;

/// Relies on Duration::as_secs: the whole seconds of the duration.
pub assume_specification[ Duration::as_secs ](d: &Duration) -> u64;

/// Relies on Duration::subsec_nanos: the fractional part of the duration,
/// which its documentation bounds below one billion.
pub assume_specification[ Duration::subsec_nanos ](d: &Duration) -> (r: u32)
    ensures
        r < 1_000_000_000,
;

/// The moment of the call in nanoseconds since the Unix epoch: 0 before the
/// epoch, and the largest value when the count no longer fits.
fn now_nanos() -> u64 {
    let now = SystemTime::now();
    match now.duration_since(unix_epoch()) {
        Ok(d) => {
            let secs = d.as_secs();
            let nanos = d.subsec_nanos() as u64;
            if secs <= (u64::MAX - nanos) / 1_000_000_000 {
                proof {
                    assert(secs * 1_000_000_000 + nanos <= u64::MAX) by (nonlinear_arith)
                        requires
                            secs <= (u64::MAX - nanos) / 1_000_000_000,
                            nanos < 1_000_000_000,
                    ;
                }
                secs * 1_000_000_000 + nanos
            } else {
                u64::MAX
            }
        },
        Err(_) => 0,
    }
}

/// The game identifier derived from a clock stamp and the two participants:
/// the stamp fills the high 64 bits and the participants fold into the low
/// 64, so games started at different instants never share an identifier.
pub open spec fn game_id_of(stamp: u64, host_id: u64, opponent_id: u64) -> u128 {
    ((stamp * 0x1_0000_0000_0000_0000)
        + ((host_id * 0x1_0000_0000 + opponent_id) % 0x1_0000_0000_0000_0000)) as u128
}

/// The state in which a game is in.
#[derive(Debug, Clone, Copy, PartialEq, Eq, Structural)]
pub enum GameState {
    Victory,
    Defeat,
    Ongoing,
}

/// A game has many tracked parameters.
#[derive(Debug)]
pub struct Game {
    game_id: u128,
    host_id: u64,
    opponent_id: u64,
    secret: String,
    attempts: u8,
    last_guess: String,
    last_hint: String,
    game_state: GameState,
}

/// The mathematical content of a [`Game`].
#[verifier::ext_equal]
pub struct GameV {
    pub game_id: u128,
    pub host_id: u64,
    pub opponent_id: u64,
    pub secret: Seq<char>,
    pub attempts: u8,
    pub last_guess: Seq<char>,
    pub last_hint: Seq<char>,
    pub game_state: GameState,
}

impl View for Game {
    type V = GameV;

    closed spec fn view(&self) -> GameV {
        GameV {
            game_id: self.game_id,
            host_id: self.host_id,
            opponent_id: self.opponent_id,
            secret: self.secret@,
            attempts: self.attempts,
            last_guess: self.last_guess@,
            last_hint: self.last_hint@,
            game_state: self.game_state,
        }
    }
}

impl DeepView for Game {
    type V = GameV;

    open spec fn deep_view(&self) -> GameV {
        self.view()
    }
}

/// Whether a guess wins: it is compared to the secret without regard to
/// letter case.
pub open spec fn guess_matches(guess: Seq<char>, secret: Seq<char>) -> bool {
    lower_of(guess) == lower_of(secret)
}

/// One transition of the game state machine on a guess.
///
/// A matching guess on an ongoing game wins at once, whatever the remaining
/// attempts. A wrong guess is recorded and costs one attempt; at none left
/// the game is lost. There is no transition out of a finished game.
pub open spec fn spec_guess_step(g: GameV, guess: Seq<char>) -> GameV
    recommends
        g.game_state == GameState::Ongoing ==> g.attempts >= 1,
{
    if g.game_state != GameState::Ongoing {
        g
    } else if guess_matches(guess, g.secret) {
        GameV { game_state: GameState::Victory, ..g }
    } else if g.attempts == 1 {
        GameV { attempts: 0, last_guess: guess, game_state: GameState::Defeat, ..g }
    } else {
        GameV { attempts: (g.attempts - 1) as u8, last_guess: guess, ..g }
    }
}

impl Clone for Game {
    /// Clones the game, keeping every tracked parameter.
    fn clone(&self) -> (res: Self)
        ensures
            res@ == self@,
    {
        Game {
            game_id: self.game_id,
            host_id: self.host_id,
            opponent_id: self.opponent_id,
            secret: self.secret.clone(),
            attempts: self.attempts,
            last_guess: self.last_guess.clone(),
            last_hint: self.last_hint.clone(),
            game_state: self.game_state,
        }
    }
}

impl Game {
    /// Creates a new [`Game`] whose identifier is derived from the given
    /// clock stamp and the two participants.
    pub fn with_stamp(stamp: u64, id_host: u64, id_guest: u64, secret: String) -> (r: Self)
        ensures
            r@ == (GameV {
                game_id: game_id_of(stamp, id_host, id_guest),
                host_id: id_host,
                opponent_id: id_guest,
                secret: secret@,
                attempts: 3,
                last_guess: Seq::<char>::empty(),
                last_hint: Seq::<char>::empty(),
                game_state: GameState::Ongoing,
            }),
    {
        let folded: u128 = ((id_host as u128) * 0x1_0000_0000 + (id_guest as u128))
            % 0x1_0000_0000_0000_0000;
        let game_id: u128 = (stamp as u128) * 0x1_0000_0000_0000_0000 + folded;
        Self {
            game_id,
            host_id: id_host,
            opponent_id: id_guest,
            secret,
            attempts: 3,
            last_guess: String::new(),
            last_hint: String::new(),
            game_state: GameState::Ongoing,
        }
    }

    /// Creates a new [`Game`], stamped with the clock of the call. Everything
    /// but the identifier is pinned down; the identifier is derived from the
    /// clock and the two participants, and follows the clock.
    pub fn new(id_host: u64, id_guest: u64, secret: String) -> (r: Self)
        ensures
            r@ == (GameV { game_id: r@.game_id, ..Self::spec_new(id_host, id_guest, secret@) }),
            exists|stamp: u64| r@.game_id == game_id_of(stamp, id_host, id_guest),
    {
        let stamp = now_nanos();
        let r = Self::with_stamp(stamp, id_host, id_guest, secret);
        proof {
            assert(r@.game_id == game_id_of(stamp, id_host, id_guest));
        }
        r
    }

    /// A fresh game between the two participants, but for its identifier.
    pub open spec fn spec_new(id_host: u64, id_guest: u64, secret: Seq<char>) -> GameV {
        GameV {
            game_id: 0,
            host_id: id_host,
            opponent_id: id_guest,
            secret: secret,
            attempts: 3,
            last_guess: Seq::<char>::empty(),
            last_hint: Seq::<char>::empty(),
            game_state: GameState::Ongoing,
        }
    }

    /// Returns the unique identifier of the game.
    pub fn get_game_id(&self) -> (r: u128)
        ensures
            r == self@.game_id,
    {
        self.game_id
    }

    /// Returns the host_id from a game.
    pub fn get_host_id(&self) -> (r: u64)
        ensures
            r == self@.host_id,
    {
        self.host_id
    }

    /// Returns the opponent_id from a game.
    pub fn get_opponent_id(&self) -> (r: u64)
        ensures
            r == self@.opponent_id,
    {
        self.opponent_id
    }

    /// Returns the secret from a game.
    pub fn get_secret(&self) -> (r: &String)
        ensures
            r@ == self@.secret,
    {
        &self.secret
    }

    /// Returns the attempts from a game.
    pub fn get_attempts(&self) -> (r: u8)
        ensures
            r == self@.attempts,
    {
        self.attempts
    }

    /// Returns the last guess from a game.
    pub fn get_last_guess(&self) -> (r: &String)
        ensures
            r@ == self@.last_guess,
    {
        &self.last_guess
    }

    /// Returns the last hint from a game.
    pub fn get_last_hint(&self) -> (r: &String)
        ensures
            r@ == self@.last_hint,
    {
        &self.last_hint
    }

    /// Returns the game state from a game.
    pub fn get_game_state(&self) -> (r: &GameState)
        ensures
            r == self@.game_state,
    {
        &self.game_state
    }

    /// Sets the game game ID to a game ID.
    pub fn set_game_id(&mut self, game_id: u128)
        ensures
            final(self)@ == (GameV { game_id, ..old(self)@ }),
    {
        self.game_id = game_id;
    }

    /// Sets the host ID to a game.
    pub fn set_host_id(&mut self, host_id: u64)
        ensures
            final(self)@ == (GameV { host_id, ..old(self)@ }),
    {
        self.host_id = host_id;
    }

    /// Sets the opponent ID to a game.
    pub fn set_opponent_id(&mut self, opponent_id: u64)
        ensures
            final(self)@ == (GameV { opponent_id, ..old(self)@ }),
    {
        self.opponent_id = opponent_id;
    }

    /// Sets the secret to a game.
    pub fn set_secret(&mut self, secret: String)
        ensures
            final(self)@ == (GameV { secret: secret@, ..old(self)@ }),
    {
        self.secret = secret;
    }

    /// Sets the attempts to a game.
    pub fn set_attempts(&mut self, attempts: u8)
        ensures
            final(self)@ == (GameV { attempts, ..old(self)@ }),
    {
        self.attempts = attempts;
    }

    /// Sets the last guess to a game.
    pub fn set_last_guess(&mut self, last_guess: String)
        ensures
            final(self)@ == (GameV { last_guess: last_guess@, ..old(self)@ }),
    {
        self.last_guess = last_guess;
    }

    /// Sets the last hint to a game.
    pub fn set_last_hint(&mut self, last_hint: String)
        ensures
            final(self)@ == (GameV { last_hint: last_hint@, ..old(self)@ }),
    {
        self.last_hint = last_hint;
    }

    /// Sets the game state to a game.
    pub fn set_game_state(&mut self, game_state: GameState)
        ensures
            final(self)@ == (GameV { game_state, ..old(self)@ }),
    {
        self.game_state = game_state;
    }
}

/// An ongoing game with three attempts left takes three wrong guesses to
/// lose: after the first two it is still ongoing, the third ends in defeat.
pub proof fn lemma_three_wrong_guesses(g: GameV, g1: Seq<char>, g2: Seq<char>, g3: Seq<char>)
    requires
        g.game_state == GameState::Ongoing,
        g.attempts == 3,
        !guess_matches(g1, g.secret),
        !guess_matches(g2, g.secret),
        !guess_matches(g3, g.secret),
    ensures
        spec_guess_step(g, g1).game_state == GameState::Ongoing,
        spec_guess_step(spec_guess_step(g, g1), g2).game_state == GameState::Ongoing,
        spec_guess_step(spec_guess_step(spec_guess_step(g, g1), g2), g3).game_state
            == GameState::Defeat,
{
}

/// A matching guess on an ongoing game wins at once, whatever the remaining
/// attempts.
pub proof fn lemma_correct_guess_wins(g: GameV, guess: Seq<char>)
    requires
        g.game_state == GameState::Ongoing,
        guess_matches(guess, g.secret),
    ensures
        spec_guess_step(g, guess).game_state == GameState::Victory,
        spec_guess_step(g, guess).attempts == g.attempts,
{
}

} // verus!
