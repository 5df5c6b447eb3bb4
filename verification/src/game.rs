//! The deductive digit-guessing game: secret generation, guess validation,
//! and the session state machine that scores one guess per step.

use vstd::prelude::*;
use vstd::string::StrSliceExecFns;
use crate::clues::clue_text_spec;
use crate::clues::fermi_count;
use crate::clues::get_clues;
use crate::clues::pico_count;
use crate::errors::ValidationError;
use crate::numbers::digit_part;
use crate::numbers::digits_value;
use crate::numbers::is_decimal_digit;
use crate::numbers::is_numeric;
use crate::numbers::parse_unsigned;
use crate::rng::shuffle_chars;
use crate::strbuf::push_char;

verus! {

/// A well-formed secret of the given length: that many decimal digits, no
/// digit repeated.
pub open spec fn is_secret_code(s: Seq<char>, length: nat) -> bool {
    &&& s.len() == length
    &&& s.no_duplicates()
    &&& forall|i: int| 0 <= i < s.len() ==> is_decimal_digit(s[i])
}

/// Draw a secret: shuffle the full digit alphabet and keep the first
/// `length` symbols, so the digits are distinct by construction.
pub fn generate_secret(length: usize) -> (r: String)
    requires
        1 <= length <= 10,
    ensures
        is_secret_code(r@, length as nat),
{
    let mut digits: Vec<char> = Vec::new();
    digits.push('0');
    digits.push('1');
    digits.push('2');
    digits.push('3');
    digits.push('4');
    digits.push('5');
    digits.push('6');
    digits.push('7');
    digits.push('8');
    digits.push('9');
    let ghost alphabet = digits@;
    assert(alphabet.no_duplicates());
    assert(forall|i: int| 0 <= i < alphabet.len() ==> is_decimal_digit(alphabet[i]));
    shuffle_chars(&mut digits);
    proof {
        broadcast use vstd::seq_lib::group_to_multiset_ensures;

        alphabet.lemma_multiset_has_no_duplicates();
        assert(digits@.len() == digits@.to_multiset().len());
        assert(digits@.len() == 10);
        assert forall|x: char| digits@.to_multiset().contains(x) implies digits@.to_multiset().count(
            x,
        ) == 1 by {
            assert(alphabet.to_multiset().count(x) == digits@.to_multiset().count(x));
        }
        digits@.lemma_multiset_has_no_duplicates_conv();
        assert forall|i: int| 0 <= i < digits@.len() implies is_decimal_digit(digits@[i]) by {
            assert(digits@.contains(digits@[i]));
            assert(digits@.to_multiset().count(digits@[i]) > 0);
            assert(alphabet.to_multiset().count(digits@[i]) > 0);
            assert(alphabet.contains(digits@[i]));
        }
    }
    let mut out = String::new();
    let mut i: usize = 0;
    while i < length
        invariant
            i <= length,
            length <= digits@.len(),
            digits@.no_duplicates(),
            forall|k: int| 0 <= k < digits@.len() ==> is_decimal_digit(digits@[k]),
            out@ == digits@.subrange(0, i as int),
        decreases length - i,
    {
        let c = digits[i];
        push_char(&mut out, c);
        proof {
            assert(out@ =~= digits@.subrange(0, i + 1 as int));
        }
        i += 1;
    }
    proof {
        let sub = digits@.subrange(0, length as int);
        assert forall|a: int, b: int|
            0 <= a < sub.len() && 0 <= b < sub.len() && a != b implies sub[a] != sub[b] by {
            assert(sub[a] == digits@[a]);
            assert(sub[b] == digits@[b]);
        }
    }
    out
}

/// Check a candidate guess: it must have exactly the expected length and
/// parse as an unsigned decimal integer.  Repeated digits are accepted; only
/// the secret is guaranteed unique.
pub fn validate_guess(input: &str, length: usize) -> (r: Result<String, ValidationError>)
    ensures
        input@.len() != length ==> r == Err::<String, ValidationError>(
            ValidationError::WrongLength,
        ),
        input@.len() == length && !(is_numeric(input@) && digits_value(digit_part(input@))
            <= usize::MAX) ==> r == Err::<String, ValidationError>(ValidationError::NotNumeric),
        input@.len() == length && is_numeric(input@) && digits_value(digit_part(input@))
            <= usize::MAX ==> (r matches Ok(code) && code@ == input@),
{
    if input.unicode_len() != length {
        return Err(ValidationError::WrongLength);
    }
    match parse_unsigned(input) {
        Some(_) => Ok(input.to_owned()),
        None => Err(ValidationError::NotNumeric),
    }
}

/// Where one game session stands.
#[derive(Clone, Copy, Debug, PartialEq, Eq, Structural)]
pub enum GameStatus {
    /// The player may still guess.
    AwaitingGuess,
    /// The last guess matched the secret.
    Won,
    /// The allowed guesses are spent without a match.
    Lost,
}

/// What the game answers to one guess.
#[derive(Debug)]
pub enum GuessOutcome {
    /// The guess matched the secret.
    Win,
    /// No attempts remain; the secret is revealed.
    Loss { secret: String },
    /// The clue string for a wrong guess; the game goes on.
    Clues { clues: String },
}

/// One session of the guessing game.  A session holds an immutable secret
/// and a bounded number of attempts, and steps once per guess.
pub struct Game {
    secret: String,
    attempts_used: usize,
    max_attempts: usize,
    status: GameStatus,
}

impl Game {
    /// The secret the session was created with.
    pub closed spec fn secret_spec(self) -> Seq<char> {
        self.secret@
    }

    /// Guesses already consumed.
    pub closed spec fn attempts_used_spec(self) -> nat {
        self.attempts_used as nat
    }

    /// The attempt budget of the session.
    pub closed spec fn max_attempts_spec(self) -> nat {
        self.max_attempts as nat
    }

    /// The session's state-machine state.
    pub closed spec fn status_spec(self) -> GameStatus {
        self.status
    }

    /// Session invariant: the secret is a well-formed code, the budget is
    /// positive, and while a guess is awaited some budget remains.
    pub open spec fn wf(self) -> bool {
        &&& is_secret_code(self.secret_spec(), self.secret_spec().len())
        &&& self.secret_spec().len() >= 1
        &&& 1 <= self.max_attempts_spec()
        &&& self.attempts_used_spec() <= self.max_attempts_spec()
        &&& self.status_spec() == GameStatus::AwaitingGuess ==> self.attempts_used_spec()
            < self.max_attempts_spec()
    }

    /// Open a session over a freshly generated secret.
    pub fn new(secret: String, max_attempts: usize) -> (g: Game)
        requires
            is_secret_code(secret@, secret@.len()),
            secret@.len() >= 1,
            max_attempts >= 1,
        ensures
            g.wf(),
            g.secret_spec() == secret@,
            g.attempts_used_spec() == 0,
            g.max_attempts_spec() == max_attempts,
            g.status_spec() == GameStatus::AwaitingGuess,
    {
        Game { secret, attempts_used: 0, max_attempts, status: GameStatus::AwaitingGuess }
    }

    /// Open a session over a freshly drawn secret of the given length.
    pub fn start(length: usize, max_attempts: usize) -> (g: Game)
        requires
            1 <= length <= 10,
            max_attempts >= 1,
        ensures
            g.wf(),
            is_secret_code(g.secret_spec(), length as nat),
            g.attempts_used_spec() == 0,
            g.max_attempts_spec() == max_attempts,
            g.status_spec() == GameStatus::AwaitingGuess,
    {
        let secret = generate_secret(length);
        Game::new(secret, max_attempts)
    }

    /// Whether the session still awaits a guess.
    pub fn is_awaiting(&self) -> (r: bool)
        ensures
            r == (self.status_spec() == GameStatus::AwaitingGuess),
    {
        match self.status {
            GameStatus::AwaitingGuess => true,
            GameStatus::Won => false,
            GameStatus::Lost => false,
        }
    }

    /// The session's current state.
    pub fn status(&self) -> (r: GameStatus)
        ensures
            r == self.status_spec(),
    {
        self.status
    }

    /// Step the session on one guess.  A match wins; otherwise the guess
    /// costs one attempt, and the session either answers with the clue
    /// string or, when the budget is spent, is lost and reveals the secret.
    pub fn guess(&mut self, guess: &str) -> (r: GuessOutcome)
        requires
            old(self).wf(),
            old(self).status_spec() == GameStatus::AwaitingGuess,
        ensures
            final(self).wf(),
            final(self).secret_spec() == old(self).secret_spec(),
            final(self).max_attempts_spec() == old(self).max_attempts_spec(),
            guess@ == old(self).secret_spec() ==> {
                &&& r matches GuessOutcome::Win
                &&& final(self).status_spec() == GameStatus::Won
                &&& final(self).attempts_used_spec() == old(self).attempts_used_spec()
            },
            guess@ != old(self).secret_spec() && old(self).attempts_used_spec() + 1 == old(
                self,
            ).max_attempts_spec() ==> {
                &&& r matches GuessOutcome::Loss { secret } && secret@ == old(self).secret_spec()
                &&& final(self).status_spec() == GameStatus::Lost
                &&& final(self).attempts_used_spec() == old(self).max_attempts_spec()
            },
            guess@ != old(self).secret_spec() && old(self).attempts_used_spec() + 1 < old(
                self,
            ).max_attempts_spec() ==> {
                &&& r matches GuessOutcome::Clues { clues } && clues@ == clue_text_spec(
                    fermi_count(guess@, old(self).secret_spec()),
                    pico_count(guess@, old(self).secret_spec()),
                )
                &&& final(self).status_spec() == GameStatus::AwaitingGuess
                &&& final(self).attempts_used_spec() == old(self).attempts_used_spec() + 1
            },
    {
        let g = guess.to_owned();
        if self.secret == g {
            self.status = GameStatus::Won;
            return GuessOutcome::Win;
        }
        self.attempts_used = self.attempts_used + 1;
        if self.attempts_used >= self.max_attempts {
            self.status = GameStatus::Lost;
            return GuessOutcome::Loss { secret: self.secret.clone() };
        }
        let clues = get_clues(guess, self.secret.as_str());
        GuessOutcome::Clues { clues }
    }
}

} // verus!
