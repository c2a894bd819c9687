use vstd::prelude::*;
use rand::Rng;

verus! {

/// The number of wrong guesses a player may make.
pub const NUM_INCORRECT_GUESSES: u32 = 5;

/// The pieces of `s` between its `'\n'` characters, as `str::split('\n')` gives them.
pub uninterp spec fn split_lines(s: Seq<char>) -> Seq<Seq<char>>;

/// `s` without leading and trailing white space, as `str::trim` gives it.
pub uninterp spec fn trimmed(s: Seq<char>) -> Seq<char>;

/// Relies on `str::split` with a `'\n'` pattern: it yields at least one piece (the whole
/// string where it holds no `'\n'`).
#[verifier::external_body]
fn lines_of(s: &str) -> (r: Vec<&str>)
    ensures
        r@.len() == split_lines(s@).len(),
        r@.len() >= 1,
        forall|i: int| 0 <= i < r@.len() ==> #[trigger] r@[i]@ == split_lines(s@)[i],
{
    s.split('\n').collect()
}

/// Relies on `str::trim`: the result depends on the characters alone.
#[verifier::external_body]
fn trim_of(s: &str) -> (r: String)
    ensures
        r@ == trimmed(s@),
{
    s.trim().to_string()
}

/// Relies on rand's `Rng::gen_range(low, high)` on the thread-local generator: a value in
/// `[low, high)`; it panics where `low >= high`.
#[verifier::external_body]
fn random_index(n: usize) -> (r: usize)
    requires
        n > 0,
    ensures
        r < n,
{
    rand::thread_rng().gen_range(0, n)
}

/// The line number `index` of a word list, without its surrounding white space, or
/// `None` where the list has no such line.
pub fn word_at(contents: &str, index: usize) -> (r: Option<String>)
    ensures
        index < split_lines(contents@).len() ==> (r matches Some(w) && w@ == trimmed(
            split_lines(contents@)[index as int],
        )),
        index >= split_lines(contents@).len() ==> r is None,
{
    let words = lines_of(contents);
    if index < words.len() {
        Some(trim_of(words[index]))
    } else {
        None
    }
}

/// Picks a line of a word list at random, without its surrounding white space.
pub fn pick_a_random_word(contents: &str) -> (r: String)
    ensures
        exists|i: int|
            0 <= i < split_lines(contents@).len() && r@ == trimmed(
                #[trigger] split_lines(contents@)[i],
            ),
{
    let n = lines_of(contents).len();
    let i = random_index(n);
    let r = word_at(contents, i).unwrap();
    assert(r@ == trimmed(split_lines(contents@)[i as int]));
    r
}

/// The position of the first `c` in `s`, or `None` where `s` holds no `c`.
pub open spec fn first_index(s: Seq<char>, c: char) -> Option<int> {
    if exists|i: int| 0 <= i < s.len() && s[i] == c {
        Some(choose|i: int| 0 <= i < s.len() && s[i] == c && forall|j: int| 0 <= j < i ==> s[j] != c)
    } else {
        None
    }
}

/// A game of hangman: the letters of the secret word not yet found (a found one is
/// blanked out with `'\0'`), the word as guessed so far (`'-'` where not yet found),
/// the letters guessed, and the wrong guesses left.
pub struct Game {
    secret: Vec<char>,
    guessed: Vec<char>,
    letters: Vec<char>,
    guesses_left: u32,
}

impl Game {
    pub closed spec fn spec_secret(&self) -> Seq<char> {
        self.secret@
    }

    pub closed spec fn spec_guessed(&self) -> Seq<char> {
        self.guessed@
    }

    pub closed spec fn spec_letters(&self) -> Seq<char> {
        self.letters@
    }

    pub closed spec fn spec_guesses_left(&self) -> u32 {
        self.guesses_left
    }

    /// The game's invariant: the guessed word is as long as the secret one.
    pub open spec fn wf(&self) -> bool {
        self.spec_guessed().len() == self.spec_secret().len()
    }

    /// Starts a game on a secret word, with nothing found and all guesses left.
    pub fn new(secret: &Vec<char>) -> (r: Game)
        ensures
            r.wf(),
            r.spec_secret() == secret@,
            r.spec_guessed() == Seq::new(secret@.len(), |i: int| '-'),
            r.spec_letters() == Seq::<char>::empty(),
            r.spec_guesses_left() == NUM_INCORRECT_GUESSES,
    {
        let mut guessed: Vec<char> = Vec::new();
        let mut i: usize = 0;
        while i < secret.len()
            invariant
                i <= secret@.len(),
                guessed@ == Seq::new(i as nat, |k: int| '-'),
            decreases secret@.len() - i,
        {
            guessed.push('-');
            i += 1;
            assert(guessed@ =~= Seq::new(i as nat, |k: int| '-'));
        }
        Game { secret: secret.clone(), guessed, letters: Vec::new(), guesses_left: NUM_INCORRECT_GUESSES }
    }

    /// Whether the whole word was found.
    pub fn is_won(&self) -> (r: bool)
        ensures
            r == !self.spec_guessed().contains('-'),
    {
        let mut i: usize = 0;
        while i < self.guessed.len()
            invariant
                i <= self.guessed@.len(),
                forall|j: int| 0 <= j < i ==> self.guessed@[j] != '-',
            decreases self.guessed@.len() - i,
        {
            if self.guessed[i] == '-' {
                assert(self.guessed@[i as int] == '-');
                return false;
            }
            i += 1;
        }
        true
    }

    /// Whether the game goes on: guesses are left and the word is not found yet.
    pub fn in_progress(&self) -> (r: bool)
        ensures
            r == (self.spec_guesses_left() > 0 && self.spec_guessed().contains('-')),
    {
        self.guesses_left > 0 && !self.is_won()
    }

    /// The wrong guesses left.
    pub fn guesses_left(&self) -> (r: u32)
        ensures
            r == self.spec_guesses_left(),
    {
        self.guesses_left
    }

    /// The word as guessed so far.
    pub fn guessed_word(&self) -> (r: &Vec<char>)
        ensures
            r@ == self.spec_guessed(),
    {
        &self.guessed
    }

    /// The letters guessed so far, in order.
    pub fn guessed_letters(&self) -> (r: &Vec<char>)
        ensures
            r@ == self.spec_letters(),
    {
        &self.letters
    }

    /// Plays the letter `c`: the first not yet found occurrence of it in the secret word
    /// is revealed, or, where there is none, one wrong guess is used up. Returns whether
    /// the letter was found.
    pub fn guess(&mut self, c: char) -> (r: bool)
        requires
            old(self).wf(),
            old(self).spec_guesses_left() > 0,
        ensures
            final(self).wf(),
            final(self).spec_letters() == old(self).spec_letters().push(c),
            r == (first_index(old(self).spec_secret(), c) is Some),
            match first_index(old(self).spec_secret(), c) {
                Some(i) => {
                    &&& final(self).spec_secret() == old(self).spec_secret().update(i, '\0')
                    &&& final(self).spec_guessed() == old(self).spec_guessed().update(i, c)
                    &&& final(self).spec_guesses_left() == old(self).spec_guesses_left()
                },
                None => {
                    &&& final(self).spec_secret() == old(self).spec_secret()
                    &&& final(self).spec_guessed() == old(self).spec_guessed()
                    &&& final(self).spec_guesses_left() == old(self).spec_guesses_left() - 1
                },
            },
    {
        self.letters.push(c);
        let mut i: usize = 0;
        while i < self.secret.len()
            invariant
                i <= self.secret@.len(),
                self.secret@ == old(self).secret@,
                self.guessed@ == old(self).guessed@,
                self.letters@ == old(self).letters@.push(c),
                self.guesses_left == old(self).guesses_left,
                old(self).guesses_left > 0,
                old(self).wf(),
                forall|j: int| 0 <= j < i ==> self.secret@[j] != c,
            decreases self.secret@.len() - i,
        {
            if self.secret[i] == c {
                assert(first_index(old(self).spec_secret(), c) == Some(i as int)) by {
                    let s = old(self).spec_secret();
                    assert(0 <= i < s.len() && s[i as int] == c);
                    let k = choose|k: int| 0 <= k < s.len() && s[k] == c && forall|j: int| 0 <= j < k ==> s[j] != c;
                    assert(0 <= i < s.len() && s[i as int] == c && forall|j: int| 0 <= j < i ==> s[j] != c);
                    assert(k == i as int) by {
                        if k < i {
                            assert(s[k] != c);
                        } else if k > i {
                            assert(s[i as int] != c);
                        }
                    }
                }
                self.secret.set(i, '\0');
                self.guessed.set(i, c);
                return true;
            }
            i += 1;
        }
        self.guesses_left = self.guesses_left - 1;
        false
    }
}

} // verus!
