//! The word-guessing game: a secret word, the characters guessed so far, and
//! a countdown of wrong guesses that may still be made.
use vstd::prelude::*;
use vstd::string::StrSliceExecFns;
use crate::input::{is_quit, is_single_code_point, normalize, quit_command, trimmed};

verus! {

/// Wrong guesses a new game allows.
pub const STARTING_GUESSES: i8 = 5;

/// The symbol shown for a character of the secret word not guessed yet.
pub const PLACEHOLDER: char = '_';

/// The mathematical state of a game.
pub ghost struct GameState {
    pub secret: Seq<char>,
    pub guessed: Seq<char>,
    pub remaining: int,
}

/// Where a game stands after a guess.
#[derive(PartialEq, Eq, Structural, Debug, Clone, Copy)]
pub enum Verdict {
    /// Every character of the secret word is revealed.
    Won,
    /// No wrong guess is left.
    Lost,
    /// The game goes on with this many wrong guesses left.
    Left(i8),
}

/// The answer to one line of input.
#[derive(Debug)]
pub enum Reply {
    /// The player asked to stop.
    Quit,
    /// The input was not exactly one character; nothing changed.
    NotSingle,
    /// A guess was taken.
    Guess { correct: bool, progress: Vec<char>, verdict: Verdict },
}

impl GameState {
    /// Whether the character at position `i` of the secret word is shown.
    pub open spec fn revealed(self, i: int) -> bool {
        self.guessed.contains(self.secret[i])
    }

    /// The secret word with each unguessed character replaced by the placeholder.
    pub open spec fn masked(self) -> Seq<char> {
        Seq::new(
            self.secret.len(),
            |i: int|
                if self.revealed(i) {
                    self.secret[i]
                } else {
                    PLACEHOLDER
                },
        )
    }

    /// Whether every position of the secret word is shown.
    pub open spec fn all_revealed(self) -> bool {
        forall|i: int| 0 <= i < self.secret.len() ==> #[trigger] self.revealed(i)
    }

    /// The state after guessing `c`: the guess is recorded, and a wrong one
    /// costs one of the remaining guesses.
    pub open spec fn after_guess(self, c: char) -> GameState {
        GameState {
            secret: self.secret,
            guessed: self.guessed.push(c),
            remaining: if self.secret.contains(c) {
                self.remaining
            } else {
                self.remaining - 1
            },
        }
    }

    /// Won once the word is revealed (checked first), lost once no wrong
    /// guess is left, else still going.
    pub open spec fn verdict(self) -> Verdict {
        if self.all_revealed() {
            Verdict::Won
        } else if self.remaining == 0 {
            Verdict::Lost
        } else {
            Verdict::Left(self.remaining as i8)
        }
    }

    /// A game that can still take a guess.
    pub open spec fn in_play(self) -> bool {
        0 < self.remaining <= STARTING_GUESSES
    }
}

/// A new game on `secret`.
pub open spec fn fresh(secret: Seq<char>) -> GameState {
    GameState { secret, guessed: Seq::empty(), remaining: STARTING_GUESSES as int }
}

/// The state after guessing each character of `g` in turn.
pub open spec fn play_all(s: GameState, g: Seq<char>) -> GameState
    decreases g.len(),
{
    if g.len() == 0 {
        s
    } else {
        play_all(s, g.drop_last()).after_guess(g.last())
    }
}

/// Every guess adds exactly one entry to the guessed characters.
pub proof fn lemma_guess_adds_one(s: GameState, c: char)
    ensures
        s.after_guess(c).guessed.len() == s.guessed.len() + 1,
{
}

/// The masked progress has as many characters as the secret word.
pub proof fn lemma_masked_length(s: GameState)
    ensures
        s.masked().len() == s.secret.len(),
{
}

/// From a new game, guesses that all miss are recorded in order and each
/// costs one remaining guess.
proof fn lemma_misses(secret: Seq<char>, g: Seq<char>)
    requires
        forall|j: int| 0 <= j < g.len() ==> !secret.contains(#[trigger] g[j]),
    ensures
        play_all(fresh(secret), g) == (GameState {
            secret,
            guessed: g,
            remaining: STARTING_GUESSES - g.len(),
        }),
    decreases g.len(),
{
    if g.len() > 0 {
        let p = g.drop_last();
        assert forall|j: int| 0 <= j < p.len() implies !secret.contains(#[trigger] p[j]) by {
            assert(p[j] == g[j]);
        }
        lemma_misses(secret, p);
        assert(p.push(g.last()) =~= g);
        assert(!secret.contains(g[g.len() - 1]));
    } else {
        assert(g =~= Seq::<char>::empty());
    }
}

/// From a new game, guesses that all hit are recorded in order and cost
/// nothing.
proof fn lemma_hits(secret: Seq<char>, g: Seq<char>)
    requires
        forall|j: int| 0 <= j < g.len() ==> secret.contains(#[trigger] g[j]),
    ensures
        play_all(fresh(secret), g) == (GameState {
            secret,
            guessed: g,
            remaining: STARTING_GUESSES as int,
        }),
    decreases g.len(),
{
    if g.len() > 0 {
        let p = g.drop_last();
        assert forall|j: int| 0 <= j < p.len() implies secret.contains(#[trigger] p[j]) by {
            assert(p[j] == g[j]);
        }
        lemma_hits(secret, p);
        assert(p.push(g.last()) =~= g);
        assert(secret.contains(g[g.len() - 1]));
    } else {
        assert(g =~= Seq::<char>::empty());
    }
}

/// On a five-letter secret word, five wrong guesses in a row from a new game
/// lose it on the fifth: the game is still on after each of the first four
/// and lost right after the fifth.
pub proof fn lemma_five_misses_lose(secret: Seq<char>, g: Seq<char>)
    requires
        secret.len() == 5,
        g.len() == 5,
        forall|j: int| 0 <= j < g.len() ==> !secret.contains(#[trigger] g[j]),
    ensures
        forall|k: int|
            0 <= k < 5 ==> (#[trigger] play_all(fresh(secret), g.take(k))).in_play()
                && play_all(fresh(secret), g.take(k)).verdict() != Verdict::Lost,
        play_all(fresh(secret), g).verdict() == Verdict::Lost,
{
    assert forall|k: int|
        0 <= k < 5 implies (#[trigger] play_all(fresh(secret), g.take(k))).in_play()
        && play_all(fresh(secret), g.take(k)).verdict() != Verdict::Lost by {
        let t = g.take(k);
        assert forall|j: int| 0 <= j < t.len() implies !secret.contains(#[trigger] t[j]) by {
            assert(t[j] == g[j]);
        }
        lemma_misses(secret, t);
    }
    lemma_misses(secret, g);
    let s = play_all(fresh(secret), g);
    assert(!s.all_revealed()) by {
        if s.all_revealed() {
            assert(s.revealed(0));
            let j = choose|j: int| 0 <= j < g.len() && g[j] == secret[0];
            assert(secret.contains(g[j]));
        }
    }
}

/// Guessing, from a new game, characters of the secret word that cover all of
/// its distinct characters (in any order, repeats allowed) reveals the whole
/// word and wins, without costing a guess.
pub proof fn lemma_cover_wins(secret: Seq<char>, g: Seq<char>)
    requires
        forall|j: int| 0 <= j < g.len() ==> secret.contains(#[trigger] g[j]),
        forall|i: int| 0 <= i < secret.len() ==> g.contains(#[trigger] secret[i]),
    ensures
        play_all(fresh(secret), g).masked() == secret,
        play_all(fresh(secret), g).remaining == STARTING_GUESSES,
        play_all(fresh(secret), g).verdict() == Verdict::Won,
{
    lemma_hits(secret, g);
    let s = play_all(fresh(secret), g);
    assert(s.masked() =~= secret);
    assert(s.all_revealed());
}

/// A game in progress.
pub struct WordGame {
    secret: Vec<char>,
    guessed: Vec<char>,
    remaining: i8,
}

impl View for WordGame {
    type V = GameState;

    closed spec fn view(&self) -> GameState {
        GameState { secret: self.secret@, guessed: self.guessed@, remaining: self.remaining as int }
    }
}

impl WordGame {
    /// The remaining count never leaves `0..=STARTING_GUESSES`.
    pub closed spec fn wf(&self) -> bool {
        0 <= self.remaining <= STARTING_GUESSES
    }

    /// A new game on `secret`, with nothing guessed.
    pub fn new(secret: &str) -> (g: WordGame)
        ensures
            g.wf(),
            g@.secret == secret@,
            g@.guessed == Seq::<char>::empty(),
            g@.remaining == STARTING_GUESSES,
    {
        let n = secret.unicode_len();
        let mut chars: Vec<char> = Vec::new();
        let mut i: usize = 0;
        while i < n
            invariant
                n == secret@.len(),
                i <= n,
                chars@ == secret@.subrange(0, i as int),
            decreases n - i,
        {
            chars.push(secret.get_char(i));
            i = i + 1;
        }
        assert(chars@ =~= secret@);
        WordGame { secret: chars, guessed: Vec::new(), remaining: STARTING_GUESSES }
    }

    /// Wrong guesses still allowed.
    pub fn remaining_guesses(&self) -> (r: i8)
        ensures
            r == self@.remaining,
    {
        self.remaining
    }

    /// The characters guessed so far, in the order they came, repeats included.
    pub fn guessed(&self) -> (r: &Vec<char>)
        ensures
            r@ == self@.guessed,
    {
        &self.guessed
    }

    /// The secret word, one character per element.
    pub fn secret(&self) -> (r: &Vec<char>)
        ensures
            r@ == self@.secret,
    {
        &self.secret
    }

    /// Whether `c` has been guessed.
    fn was_guessed(&self, c: char) -> (r: bool)
        ensures
            r == self@.guessed.contains(c),
    {
        let mut i: usize = 0;
        while i < self.guessed.len()
            invariant
                i <= self.guessed@.len(),
                forall|k: int| 0 <= k < i ==> self.guessed@[k] != c,
            decreases self.guessed@.len() - i,
        {
            if self.guessed[i] == c {
                return true;
            }
            i = i + 1;
        }
        false
    }

    /// Whether `c` occurs in the secret word.
    fn in_secret(&self, c: char) -> (r: bool)
        ensures
            r == self@.secret.contains(c),
    {
        let mut i: usize = 0;
        while i < self.secret.len()
            invariant
                i <= self.secret@.len(),
                forall|k: int| 0 <= k < i ==> self.secret@[k] != c,
            decreases self.secret@.len() - i,
        {
            if self.secret[i] == c {
                return true;
            }
            i = i + 1;
        }
        false
    }

    /// The masked progress: guessed characters shown, the others hidden.
    pub fn masked_progress(&self) -> (r: Vec<char>)
        ensures
            r@ == self@.masked(),
            r@.len() == self@.secret.len(),
    {
        let mut out: Vec<char> = Vec::new();
        let mut i: usize = 0;
        while i < self.secret.len()
            invariant
                i <= self.secret@.len(),
                out@ == self@.masked().subrange(0, i as int),
            decreases self.secret@.len() - i,
        {
            let c = self.secret[i];
            if self.was_guessed(c) {
                out.push(c);
            } else {
                out.push(PLACEHOLDER);
            }
            i = i + 1;
        }
        assert(out@ =~= self@.masked());
        out
    }

    /// Whether every character of the secret word is revealed.
    pub fn is_won(&self) -> (r: bool)
        ensures
            r == self@.all_revealed(),
    {
        let mut i: usize = 0;
        while i < self.secret.len()
            invariant
                i <= self.secret@.len(),
                forall|k: int| 0 <= k < i ==> #[trigger] self@.revealed(k),
            decreases self.secret@.len() - i,
        {
            if !self.was_guessed(self.secret[i]) {
                assert(!self@.revealed(i as int));
                return false;
            }
            i = i + 1;
        }
        true
    }

    /// Where the game stands: won, lost, or going on.
    pub fn verdict(&self) -> (r: Verdict)
        requires
            self.wf(),
        ensures
            r == self@.verdict(),
    {
        if self.is_won() {
            Verdict::Won
        } else if self.remaining == 0 {
            Verdict::Lost
        } else {
            Verdict::Left(self.remaining)
        }
    }

    /// Records the guess `c`; a character absent from the secret word costs
    /// one remaining guess. Returns whether the guess was correct.
    pub fn guess(&mut self, c: char) -> (correct: bool)
        requires
            old(self).wf(),
            old(self)@.in_play(),
        ensures
            final(self).wf(),
            final(self)@ == old(self)@.after_guess(c),
            final(self)@.guessed.len() == old(self)@.guessed.len() + 1,
            correct == old(self)@.secret.contains(c),
    {
        self.guessed.push(c);
        let correct = self.in_secret(c);
        if !correct {
            self.remaining = self.remaining - 1;
        }
        correct
    }

    /// Plays one trimmed line: `quit` stops, anything but one character is
    /// refused without cost, and one character is taken as a guess.
    pub fn submit(&mut self, input: &str) -> (r: Reply)
        requires
            old(self).wf(),
            old(self)@.in_play(),
        ensures
            final(self).wf(),
            input@ == quit_command() ==> r is Quit && final(self)@ == old(self)@,
            input@ != quit_command() && input@.len() != 1 ==> r is NotSingle
                && final(self)@ == old(self)@,
            input@ != quit_command() && input@.len() == 1 ==> {
                &&& final(self)@ == old(self)@.after_guess(input@[0])
                &&& match r {
                    Reply::Guess { correct, progress, verdict } => {
                        &&& correct == old(self)@.secret.contains(input@[0])
                        &&& progress@ == final(self)@.masked()
                        &&& verdict == final(self)@.verdict()
                    },
                    _ => false,
                }
            },
    {
        if is_quit(input) {
            return Reply::Quit;
        }
        if !is_single_code_point(input) {
            return Reply::NotSingle;
        }
        let c = input.get_char(0);
        let correct = self.guess(c);
        let progress = self.masked_progress();
        let verdict = self.verdict();
        Reply::Guess { correct, progress, verdict }
    }

    /// Plays one raw line of input: it is trimmed, then played as `submit`
    /// plays it.
    pub fn submit_line(&mut self, line: &str) -> (r: Reply)
        requires
            old(self).wf(),
            old(self)@.in_play(),
        ensures
            final(self).wf(),
            trimmed(line@) == quit_command() ==> r is Quit && final(self)@ == old(self)@,
            trimmed(line@) != quit_command() && trimmed(line@).len() != 1 ==> r is NotSingle
                && final(self)@ == old(self)@,
            trimmed(line@) != quit_command() && trimmed(line@).len() == 1 ==> {
                &&& final(self)@ == old(self)@.after_guess(trimmed(line@)[0])
                &&& match r {
                    Reply::Guess { correct, progress, verdict } => {
                        &&& correct == old(self)@.secret.contains(trimmed(line@)[0])
                        &&& progress@ == final(self)@.masked()
                        &&& verdict == final(self)@.verdict()
                    },
                    _ => false,
                }
            },
    {
        let input = normalize(line);
        self.submit(input)
    }
}

} // verus!
