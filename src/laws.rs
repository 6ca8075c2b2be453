use vstd::prelude::*;
use crate::game::{GameView, HINT_THRESHOLD, MAX_WRONG, PLACEHOLDER, revealed};
use crate::words::is_upper_letter;

verus! {

/// The state after guessing the letters of `guesses` in order.
pub open spec fn after_guesses(v: GameView, guesses: Seq<char>) -> GameView
    decreases guesses.len(),
{
    if guesses.len() == 0 {
        v
    } else {
        after_guesses(v, guesses.drop_last()).after_guess(guesses.last())
    }
}

/// A letter of the word, once guessed, shows at every position that holds
/// it, and costs no wrong guess.
pub proof fn lemma_correct_guess_reveals(v: GameView, c: char)
    requires
        v.wf(),
        v.secret.contains(c),
    ensures
        forall|i: int|
            0 <= i < v.secret.len() && v.secret[i] == c ==> #[trigger] v.after_guess(c).display[i]
                == c && v.after_guess(c).display[i] != PLACEHOLDER,
        v.after_guess(c).wrong == v.wrong,
{
    let k = choose|k: int| 0 <= k < v.secret.len() && v.secret[k] == c;
    assert(is_upper_letter(v.secret[k]));
}

/// A letter that is not in the word adds exactly one wrong guess and
/// reveals nothing.
pub proof fn lemma_wrong_guess_counts_once(v: GameView, c: char)
    requires
        v.wf(),
        !v.secret.contains(c),
    ensures
        v.after_guess(c).wrong == v.wrong + 1,
        v.after_guess(c).display == v.display,
{
    assert forall|i: int| 0 <= i < v.secret.len() implies v.secret[i] != c by {
        if v.secret[i] == c {
            assert(v.secret.contains(c));
        }
    }
    assert(v.after_guess(c).display =~= v.display);
}

/// The game is won exactly when every letter of the word has been guessed.
pub proof fn lemma_won_iff_all_letters_guessed(v: GameView)
    requires
        v.wf(),
    ensures
        v.won() <==> v.all_letters_guessed(),
{
    if v.all_letters_guessed() {
        assert forall|k: int| 0 <= k < v.display.len() implies v.display[k] != PLACEHOLDER by {
            assert(v.guessed.contains(v.secret[k]));
            assert(is_upper_letter(v.secret[k]));
        }
    }
    if v.won() {
        assert forall|k: int| 0 <= k < v.secret.len() implies v.guessed.contains(
            #[trigger] v.secret[k],
        ) by {
            assert(v.display[k] == revealed(v.secret, v.guessed)[k]);
            if !v.guessed.contains(v.secret[k]) {
                assert(v.display[k] == PLACEHOLDER);
                assert(v.display.contains(PLACEHOLDER));
            }
        }
    }
}

/// Guesses never lower the wrong-guess count and keep the word, the bank
/// and the limit.
pub proof fn lemma_guesses_monotonic(v: GameView, guesses: Seq<char>)
    ensures
        after_guesses(v, guesses).wrong >= v.wrong,
        after_guesses(v, guesses).secret == v.secret,
        after_guesses(v, guesses).bank == v.bank,
        after_guesses(v, guesses).max_wrong == v.max_wrong,
    decreases guesses.len(),
{
    if guesses.len() > 0 {
        lemma_guesses_monotonic(v, guesses.drop_last());
    }
}

/// The game is lost exactly when the wrong guesses reach the maximum: a
/// guess that loses it brings the count to the maximum, and once lost it
/// stays lost whatever is guessed next.
pub proof fn lemma_lost_at_max_and_stays_lost(v: GameView, c: char, guesses: Seq<char>)
    requires
        v.wf(),
    ensures
        v.lost() <==> v.wrong >= MAX_WRONG,
        !v.lost() && v.after_guess(c).lost() ==> v.after_guess(c).wrong == MAX_WRONG,
        v.lost() ==> after_guesses(v, guesses).lost(),
{
    lemma_guesses_monotonic(v, guesses);
}

/// No hint is given below the threshold; from the threshold on the hint is
/// the word's description, and it stays the same whatever is guessed next.
pub proof fn lemma_hint_after_threshold(v: GameView, guesses: Seq<char>)
    requires
        v.wf(),
    ensures
        v.wrong < HINT_THRESHOLD ==> v.hint() is None,
        v.wrong >= HINT_THRESHOLD ==> v.hint() is Some,
        v.wrong >= HINT_THRESHOLD ==> after_guesses(v, guesses).hint() == v.hint(),
{
    lemma_guesses_monotonic(v, guesses);
}

} // verus!
