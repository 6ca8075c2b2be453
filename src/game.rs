use vstd::prelude::*;
use crate::words::{
    WordBank,
    bank_wf,
    bank_has,
    bank_description,
    is_game_word,
    standard_entries,
};
use crate::laws::lemma_won_iff_all_letters_guessed;

verus! {

/// Wrong guesses after which the game is lost.
pub const MAX_WRONG: usize = 6;

/// Wrong guesses from which on the description of the word is shown.
pub const HINT_THRESHOLD: usize = 3;

/// Wrong-guess count at which the first and last letters are offered.
pub const PARTIAL_REVEAL_AT: usize = 2;

/// Stands for a letter that has not been guessed yet.
pub const PLACEHOLDER: char = '_';

/// Position in the standard bank of the word a new game is played on.
pub const DEFAULT_WORD_INDEX: usize = 2;

/// What the player sees of `secret` once `guessed` has been tried: each
/// guessed letter in place, a placeholder elsewhere.
pub open spec fn revealed(secret: Seq<char>, guessed: Seq<char>) -> Seq<char> {
    Seq::new(
        secret.len(),
        |i: int|
            if guessed.contains(secret[i]) {
                secret[i]
            } else {
                PLACEHOLDER
            },
    )
}

/// How many letters of `guessed` occur nowhere in `secret`.
pub open spec fn misses(secret: Seq<char>, guessed: Seq<char>) -> nat
    decreases guessed.len(),
{
    if guessed.len() == 0 {
        0
    } else {
        misses(secret, guessed.drop_last()) + if secret.contains(guessed.last()) {
            0nat
        } else {
            1nat
        }
    }
}

/// The state of a game, as values.
pub struct GameView {
    pub secret: Seq<char>,
    pub display: Seq<char>,
    pub guessed: Seq<char>,
    pub wrong: nat,
    pub max_wrong: nat,
    pub bank: Seq<(Seq<char>, Seq<char>)>,
}

impl GameView {
    /// A game on `secret` before any guess.
    pub open spec fn fresh(secret: Seq<char>, bank: Seq<(Seq<char>, Seq<char>)>) -> GameView {
        GameView {
            secret,
            display: Seq::new(secret.len(), |i: int| PLACEHOLDER),
            guessed: Seq::empty(),
            wrong: 0,
            max_wrong: MAX_WRONG as nat,
            bank,
        }
    }

    /// The state after guessing `c`: `c` is recorded, every position of the
    /// secret holding `c` shows it, and a guess that hits nothing counts as
    /// one more wrong guess.
    pub open spec fn after_guess(self, c: char) -> GameView {
        GameView {
            secret: self.secret,
            display: Seq::new(
                self.display.len(),
                |i: int|
                    if self.secret[i] == c {
                        c
                    } else {
                        self.display[i]
                    },
            ),
            guessed: self.guessed.push(c),
            wrong: if self.secret.contains(c) {
                self.wrong
            } else {
                self.wrong + 1
            },
            max_wrong: self.max_wrong,
            bank: self.bank,
        }
    }

    /// The invariant of every reachable state.
    pub open spec fn wf(self) -> bool {
        &&& is_game_word(self.secret)
        &&& bank_wf(self.bank)
        &&& bank_has(self.bank, self.secret)
        &&& self.display == revealed(self.secret, self.guessed)
        &&& self.guessed.no_duplicates()
        &&& self.wrong == misses(self.secret, self.guessed)
        &&& self.max_wrong == MAX_WRONG
    }

    /// No placeholder is left.
    pub open spec fn won(self) -> bool {
        !self.display.contains(PLACEHOLDER)
    }

    /// The wrong guesses have reached the maximum.
    pub open spec fn lost(self) -> bool {
        self.wrong >= self.max_wrong
    }

    /// Every letter of the secret has been guessed.
    pub open spec fn all_letters_guessed(self) -> bool {
        forall|i: int| 0 <= i < self.secret.len() ==> self.guessed.contains(#[trigger] self.secret[i])
    }
}

/// The phase of a game. A game that is both won and lost counts as won.
#[derive(Clone, Copy, Debug, PartialEq, Eq, Structural)]
pub enum GameStatus {
    Playing,
    Won,
    Lost,
}

/// How a submitted letter was taken.
#[derive(Clone, Copy, Debug, PartialEq, Eq, Structural)]
pub enum GuessOutcome {
    /// The letter had been tried before; nothing changed.
    AlreadyGuessed,
    /// The letter occurs in the word.
    Correct,
    /// The letter occurs nowhere in the word.
    Wrong,
}

impl GameView {
    /// The phase of the game, a win taking precedence over a loss.
    pub open spec fn status(self) -> GameStatus {
        if self.won() {
            GameStatus::Won
        } else if self.lost() {
            GameStatus::Lost
        } else {
            GameStatus::Playing
        }
    }

    /// The description of the secret once enough wrong guesses were made.
    pub open spec fn hint(self) -> Option<Seq<char>> {
        if self.wrong >= HINT_THRESHOLD {
            bank_description(self.bank, self.secret)
        } else {
            None
        }
    }
}

/// The message naming the first and last letters of `w`, or saying that
/// `w` is too short for it.
pub open spec fn partial_reveal_text(w: Seq<char>) -> Seq<char> {
    if w.len() > 2 {
        "Starts with '"@ + w.subrange(0, 1) + "', ends with '"@ + w.subrange(
            w.len() - 1,
            w.len() as int,
        ) + "'"@
    } else {
        "Word is too short for hints"@
    }
}

/// Names the first and last letters of `word` when it has more than two.
pub fn partial_reveal(word: &str) -> (r: String)
    ensures
        r@ == partial_reveal_text(word@),
{
    let n = word.unicode_len();
    if n > 2 {
        let mut r = String::from_str("Starts with '");
        r.append(word.substring_char(0, 1));
        r.append("', ends with '");
        r.append(word.substring_char(n - 1, n));
        r.append("'");
        r
    } else {
        String::from_str("Word is too short for hints")
    }
}

/// A game of hangman on one word of a word bank.
pub struct HangmanGame {
    secret_word: String,
    display_word: Vec<char>,
    guessed_letters: Vec<char>,
    wrong_guesses: usize,
    max_wrong: usize,
    word_bank: WordBank,
}

impl View for HangmanGame {
    type V = GameView;

    closed spec fn view(&self) -> GameView {
        GameView {
            secret: self.secret_word@,
            display: self.display_word@,
            guessed: self.guessed_letters@,
            wrong: self.wrong_guesses as nat,
            max_wrong: self.max_wrong as nat,
            bank: self.word_bank@,
        }
    }
}

/// Misses never outnumber the guesses.
proof fn lemma_misses_le_len(secret: Seq<char>, guessed: Seq<char>)
    ensures
        misses(secret, guessed) <= guessed.len(),
    decreases guessed.len(),
{
    if guessed.len() > 0 {
        lemma_misses_le_len(secret, guessed.drop_last());
    }
}

/// A guess keeps the invariant, provided the letter is new.
pub proof fn lemma_after_guess_wf(v: GameView, c: char)
    requires
        v.wf(),
        !v.guessed.contains(c),
    ensures
        v.after_guess(c).wf(),
{
    let w = v.after_guess(c);
    assert(w.guessed.drop_last() =~= v.guessed);
    assert forall|x: char| #[trigger] w.guessed.contains(x) <==> (v.guessed.contains(x) || x == c) by {
        if v.guessed.contains(x) {
            let k = choose|k: int| 0 <= k < v.guessed.len() && v.guessed[k] == x;
            assert(w.guessed[k] == x);
        }
        if x == c {
            assert(w.guessed[v.guessed.len() as int] == c);
        }
    }
    assert(w.display =~= revealed(w.secret, w.guessed));
    assert(w.guessed.no_duplicates()) by {
        assert forall|i: int, j: int|
            0 <= i < w.guessed.len() && 0 <= j < w.guessed.len() && i != j implies w.guessed[i]
            != w.guessed[j] by {
            if i < v.guessed.len() && j < v.guessed.len() {
                assert(w.guessed[i] == v.guessed[i] && w.guessed[j] == v.guessed[j]);
            } else if i < v.guessed.len() {
                assert(v.guessed.contains(w.guessed[i]));
            } else {
                assert(v.guessed.contains(w.guessed[j]));
            }
        }
    }
}

impl HangmanGame {
    /// The invariant of the game, over its view.
    pub open spec fn wf(&self) -> bool {
        self@.wf()
    }

    /// A game on the word at position `index` of the standard bank.
    pub fn with_word(index: usize) -> (r: HangmanGame)
        requires
            index < standard_entries().len(),
        ensures
            r@ == GameView::fresh(standard_entries()[index as int].0, standard_entries()),
            r.wf(),
    {
        let word_bank = WordBank::standard();
        let secret_word = word_bank.word(index);
        let n = secret_word.as_str().unicode_len();
        let mut display_word: Vec<char> = Vec::new();
        let mut i: usize = 0;
        while i < n
            invariant
                i <= n,
                display_word@ =~= Seq::new(i as nat, |k: int| PLACEHOLDER),
            decreases n - i,
        {
            display_word.push(PLACEHOLDER);
            i = i + 1;
        }
        let r = HangmanGame {
            secret_word,
            display_word,
            guessed_letters: Vec::new(),
            wrong_guesses: 0,
            max_wrong: MAX_WRONG,
            word_bank,
        };
        proof {
            let v = r@;
            assert(bank_wf(v.bank));
            assert(is_game_word(v.secret));
            assert(v.display =~= revealed(v.secret, v.guessed)) by {
                assert forall|k: int| 0 <= k < v.secret.len() implies !v.guessed.contains(
                    #[trigger] v.secret[k],
                ) by {}
            }
            assert(v.guessed.no_duplicates());
        }
        r
    }

    /// A game on the standard bank's default word.
    pub fn new() -> (r: HangmanGame)
        ensures
            r@ == GameView::fresh(
                standard_entries()[DEFAULT_WORD_INDEX as int].0,
                standard_entries(),
            ),
            r.wf(),
    {
        HangmanGame::with_word(DEFAULT_WORD_INDEX)
    }

    /// Records the guess `guess`, reveals every position holding it, and
    /// counts a wrong guess when there is none. Returns whether the guess hit.
    pub fn process_guess(&mut self, guess: char) -> (r: bool)
        requires
            old(self).wf(),
            !old(self)@.guessed.contains(guess),
        ensures
            final(self)@ == old(self)@.after_guess(guess),
            final(self).wf(),
            r == old(self)@.secret.contains(guess),
    {
        let ghost pre = self@;
        self.guessed_letters.push(guess);
        let total = self.guessed_letters.len();
        let n = self.secret_word.as_str().unicode_len();
        let mut correct_guess = false;
        let mut i: usize = 0;
        while i < n
            invariant
                n == pre.secret.len(),
                i <= n,
                self.secret_word@ == pre.secret,
                self.guessed_letters@ == pre.guessed.push(guess),
                self.wrong_guesses == pre.wrong,
                self.max_wrong == pre.max_wrong,
                self.word_bank@ == pre.bank,
                self.display_word@.len() == n,
                pre.display.len() == n,
                forall|k: int|
                    0 <= k < i ==> #[trigger] self.display_word@[k] == (if pre.secret[k] == guess {
                        guess
                    } else {
                        pre.display[k]
                    }),
                forall|k: int| i <= k < n ==> #[trigger] self.display_word@[k] == pre.display[k],
                correct_guess <==> exists|k: int| 0 <= k < i && #[trigger] pre.secret[k] == guess,
            decreases n - i,
        {
            let letter = self.secret_word.as_str().get_char(i);
            if letter == guess {
                self.display_word.set(i, guess);
                correct_guess = true;
            }
            i = i + 1;
        }
        if !correct_guess {
            proof {
                lemma_misses_le_len(pre.secret, pre.guessed);
            }
            self.wrong_guesses = self.wrong_guesses + 1;
        }
        proof {
            assert(self@.display =~= pre.after_guess(guess).display);
            lemma_after_guess_wf(pre, guess);
        }
        correct_guess
    }

    /// Whether every letter has been revealed.
    pub fn is_won(&self) -> (r: bool)
        requires
            self.wf(),
        ensures
            r == self@.won(),
            r == self@.all_letters_guessed(),
    {
        let mut i: usize = 0;
        while i < self.display_word.len()
            invariant
                self.wf(),
                i <= self@.display.len(),
                forall|k: int| 0 <= k < i ==> #[trigger] self@.display[k] != PLACEHOLDER,
            decreases self@.display.len() - i,
        {
            if self.display_word[i] == PLACEHOLDER {
                proof {
                    lemma_won_iff_all_letters_guessed(self@);
                }
                return false;
            }
            i = i + 1;
        }
        proof {
            lemma_won_iff_all_letters_guessed(self@);
        }
        true
    }

    /// Whether the wrong guesses have reached the maximum.
    pub fn is_lost(&self) -> (r: bool)
        ensures
            r == self@.lost(),
    {
        self.wrong_guesses >= self.max_wrong
    }

    /// The phase of the game; a win is checked first.
    pub fn status(&self) -> (r: GameStatus)
        requires
            self.wf(),
        ensures
            r == self@.status(),
    {
        if self.is_won() {
            GameStatus::Won
        } else if self.is_lost() {
            GameStatus::Lost
        } else {
            GameStatus::Playing
        }
    }

    /// Whether `letter` has been guessed already.
    pub fn has_guessed(&self, letter: char) -> (r: bool)
        ensures
            r == self@.guessed.contains(letter),
    {
        let mut i: usize = 0;
        while i < self.guessed_letters.len()
            invariant
                i <= self@.guessed.len(),
                forall|k: int| 0 <= k < i ==> #[trigger] self@.guessed[k] != letter,
            decreases self@.guessed.len() - i,
        {
            if self.guessed_letters[i] == letter {
                assert(self@.guessed[i as int] == letter);
                return true;
            }
            i = i + 1;
        }
        false
    }

    /// Takes a letter from the player: one tried before is refused and
    /// leaves the game as it was, a new one is applied as a guess.
    pub fn submit_guess(&mut self, letter: char) -> (r: GuessOutcome)
        requires
            old(self).wf(),
        ensures
            final(self).wf(),
            old(self)@.guessed.contains(letter) ==> r == GuessOutcome::AlreadyGuessed,
            old(self)@.guessed.contains(letter) ==> final(self)@ == old(self)@,
            !old(self)@.guessed.contains(letter) ==> final(self)@ == old(self)@.after_guess(letter),
            !old(self)@.guessed.contains(letter) ==> r == (if old(self)@.secret.contains(letter) {
                GuessOutcome::Correct
            } else {
                GuessOutcome::Wrong
            }),
    {
        if self.has_guessed(letter) {
            GuessOutcome::AlreadyGuessed
        } else if self.process_guess(letter) {
            GuessOutcome::Correct
        } else {
            GuessOutcome::Wrong
        }
    }

    /// The description of the secret word from the word bank.
    pub fn description(&self) -> (r: Option<String>)
        requires
            self.wf(),
        ensures
            r.deep_view() == bank_description(self@.bank, self@.secret),
            r is Some,
    {
        self.word_bank.description_of(&self.secret_word)
    }

    /// The description of the secret word, once the wrong guesses have
    /// reached the hint threshold; nothing before.
    pub fn hint(&self) -> (r: Option<String>)
        requires
            self.wf(),
        ensures
            r.deep_view() == self@.hint(),
            r is Some <==> self@.wrong >= HINT_THRESHOLD,
    {
        if self.wrong_guesses >= HINT_THRESHOLD {
            self.description()
        } else {
            None
        }
    }

    /// The first and last letters of the secret word, as a message.
    pub fn reveal_partial_word(&self) -> (r: String)
        ensures
            r@ == partial_reveal_text(self@.secret),
    {
        partial_reveal(self.secret_word.as_str())
    }

    /// Whether this is the moment to offer the first and last letters.
    pub fn offers_partial_reveal(&self) -> (r: bool)
        ensures
            r == (self@.wrong == PARTIAL_REVEAL_AT),
    {
        self.wrong_guesses == PARTIAL_REVEAL_AT
    }

    /// Which drawing of the gallows to show: one per wrong guess, up to the
    /// maximum.
    pub fn stage_index(&self) -> (r: usize)
        ensures
            r == if self@.wrong <= MAX_WRONG {
                self@.wrong
            } else {
                MAX_WRONG as nat
            },
    {
        if self.wrong_guesses <= MAX_WRONG {
            self.wrong_guesses
        } else {
            MAX_WRONG
        }
    }

    /// The word to guess.
    pub fn secret_word(&self) -> (r: &str)
        ensures
            r@ == self@.secret,
    {
        self.secret_word.as_str()
    }

    /// The word as shown: guessed letters in place, placeholders elsewhere.
    pub fn display_word(&self) -> (r: &Vec<char>)
        ensures
            r@ == self@.display,
    {
        &self.display_word
    }

    /// The letters tried so far, in the order they were guessed.
    pub fn guessed_letters(&self) -> (r: &Vec<char>)
        ensures
            r@ == self@.guessed,
    {
        &self.guessed_letters
    }

    /// The number of guesses that hit no letter.
    pub fn wrong_guesses(&self) -> (r: usize)
        ensures
            r == self@.wrong,
    {
        self.wrong_guesses
    }

    /// The number of wrong guesses that loses the game.
    pub fn max_wrong(&self) -> (r: usize)
        ensures
            r == self@.max_wrong,
    {
        self.max_wrong
    }

    /// The bank the word was taken from.
    pub fn word_bank(&self) -> (r: &WordBank)
        ensures
            r@ == self@.bank,
    {
        &self.word_bank
    }

    /// Wrong guesses the player may still make before losing.
    pub fn remaining_guesses(&self) -> (r: usize)
        ensures
            r == if self@.wrong <= self@.max_wrong {
                self@.max_wrong - self@.wrong
            } else {
                0
            },
    {
        if self.wrong_guesses <= self.max_wrong {
            self.max_wrong - self.wrong_guesses
        } else {
            0
        }
    }
}

} // verus!
