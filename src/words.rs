use vstd::prelude::*;

verus! {

/// An uppercase ASCII letter.
pub open spec fn is_upper_letter(c: char) -> bool {
    'A' <= c && c <= 'Z'
}

/// A word the game can be played on: non-empty, uppercase letters only.
pub open spec fn is_game_word(w: Seq<char>) -> bool {
    &&& w.len() > 0
    &&& forall|i: int| 0 <= i < w.len() ==> is_upper_letter(#[trigger] w[i])
}

/// The fixed dictionary, in order: each word with its one-line description.
pub open spec fn standard_entries() -> Seq<(Seq<char>, Seq<char>)> {
    seq![
        ("RUST"@, "A systems programming language"@),
        ("JAVA"@, "Write once, run anywhere"@),
        ("SWIFT"@, "Apple's programming language"@),
        ("PYTHON"@, "Known for its simplicity"@),
        ("GOLANG"@, "Created by Google"@),
    ]
}

/// An ordered table from word to description, with unique words.
pub struct WordBank {
    entries: Vec<(String, String)>,
}

impl View for WordBank {
    type V = Seq<(Seq<char>, Seq<char>)>;

    closed spec fn view(&self) -> Seq<(Seq<char>, Seq<char>)> {
        self.entries@.map_values(|e: (String, String)| (e.0@, e.1@))
    }
}

/// Every word of `entries` is playable and no word occurs twice.
pub open spec fn bank_wf(entries: Seq<(Seq<char>, Seq<char>)>) -> bool {
    &&& forall|i: int| 0 <= i < entries.len() ==> is_game_word(#[trigger] entries[i].0)
    &&& forall|i: int, j: int|
        #![trigger entries[i], entries[j]]
        0 <= i < entries.len() && 0 <= j < entries.len() && i != j ==> entries[i].0
            != entries[j].0
}

/// Whether `w` is one of the words of `entries`.
pub open spec fn bank_has(entries: Seq<(Seq<char>, Seq<char>)>, w: Seq<char>) -> bool {
    exists|i: int| 0 <= i < entries.len() && #[trigger] entries[i].0 == w
}

/// The description paired with `w` in `entries`, if `w` is there.
pub open spec fn bank_description(entries: Seq<(Seq<char>, Seq<char>)>, w: Seq<char>) -> Option<
    Seq<char>,
> {
    if bank_has(entries, w) {
        Some(entries[choose|i: int| 0 <= i < entries.len() && #[trigger] entries[i].0 == w].1)
    } else {
        None
    }
}

impl WordBank {
    pub open spec fn wf(&self) -> bool {
        bank_wf(self@)
    }

    /// The five programming languages of the game.
    pub fn standard() -> (r: WordBank)
        ensures
            r@ == standard_entries(),
            bank_wf(r@),
    {
        let mut entries: Vec<(String, String)> = Vec::new();
        entries.push(
            (String::from_str("RUST"), String::from_str("A systems programming language")),
        );
        entries.push((String::from_str("JAVA"), String::from_str("Write once, run anywhere")));
        entries.push(
            (String::from_str("SWIFT"), String::from_str("Apple's programming language")),
        );
        entries.push((String::from_str("PYTHON"), String::from_str("Known for its simplicity")));
        entries.push((String::from_str("GOLANG"), String::from_str("Created by Google")));
        let r = WordBank { entries };
        proof {
            reveal_strlit("RUST");
            reveal_strlit("JAVA");
            reveal_strlit("SWIFT");
            reveal_strlit("PYTHON");
            reveal_strlit("GOLANG");
            assert(r@ =~= standard_entries());
            let e = standard_entries();
            assert(is_game_word(e[0].0));
            assert(is_game_word(e[1].0));
            assert(is_game_word(e[2].0));
            assert(is_game_word(e[3].0));
            assert(is_game_word(e[4].0));
            assert(e[0].0[0] != e[1].0[0] && e[0].0[0] != e[2].0[0] && e[0].0[0] != e[3].0[0]);
            assert(e[0].0[0] != e[4].0[0] && e[1].0[0] != e[2].0[0] && e[1].0[0] != e[3].0[0]);
            assert(e[1].0[0] != e[4].0[0] && e[2].0[0] != e[3].0[0] && e[2].0[0] != e[4].0[0]);
            assert(e[3].0[0] != e[4].0[0]);
        }
        r
    }

    /// Number of words.
    pub fn len(&self) -> (r: usize)
        ensures
            r == self@.len(),
    {
        self.entries.len()
    }

    /// The word at position `index`.
    pub fn word(&self, index: usize) -> (r: String)
        requires
            index < self@.len(),
        ensures
            r@ == self@[index as int].0,
    {
        self.entries[index].0.clone()
    }

    /// The description of `word`, or `None` when the bank does not hold it.
    pub fn description_of(&self, word: &String) -> (r: Option<String>)
        requires
            self.wf(),
        ensures
            r.deep_view() == bank_description(self@, word@),
    {
        let mut i: usize = 0;
        while i < self.entries.len()
            invariant
                self.wf(),
                i <= self@.len(),
                forall|k: int| 0 <= k < i ==> self@[k].0 != word@,
            decreases self@.len() - i,
        {
            if self.entries[i].0.eq(word) {
                assert(self@[i as int].0 == word@);
                let d = self.entries[i].1.clone();
                proof {
                    assert(bank_has(self@, word@));
                    let j = choose|j: int| 0 <= j < self@.len() && #[trigger] self@[j].0 == word@;
                    assert(j == i);
                    assert(d@ == self@[i as int].1);
                }
                return Some(d);
            }
            i = i + 1;
        }
        None
    }
}

} // verus!
