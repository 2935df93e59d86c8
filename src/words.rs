use vstd::prelude::*;
use vstd::hash_map::StringHashMap;

verus! {

/// Whether `char::is_whitespace` holds of a character (Unicode `White_Space`).
pub uninterp spec fn space_char(c: char) -> bool;

/// Relies on `char::is_whitespace`, a property of the character alone; it
/// decides where `str::split_whitespace` cuts.
#[verifier::external_body]
fn char_is_space(c: char) -> (r: bool)
    ensures
        r == space_char(c),
{
    c.is_whitespace()
}

/// The words of `s`, as `str::split_whitespace` yields them: the maximal
/// runs of characters that are not white space, in order.
pub open spec fn words(s: Seq<char>) -> Seq<Seq<char>>
    decreases s.len(),
{
    if s.len() == 0 {
        Seq::empty()
    } else {
        let w = words(s.drop_last());
        let c = s.last();
        if space_char(c) {
            w
        } else if s.len() == 1 || space_char(s[s.len() - 2]) {
            w.push(seq![c])
        } else {
            w.update(w.len() - 1, w.last().push(c))
        }
    }
}

/// How many times `w` stands in `ws`.
pub open spec fn occurrences(ws: Seq<Seq<char>>, w: Seq<char>) -> nat
    decreases ws.len(),
{
    if ws.len() == 0 {
        0
    } else {
        occurrences(ws.drop_last(), w) + if ws.last() == w {
            1nat
        } else {
            0nat
        }
    }
}

proof fn lemma_occurrences_bounded(ws: Seq<Seq<char>>, w: Seq<char>)
    ensures
        occurrences(ws, w) <= ws.len(),
    decreases ws.len(),
{
    if ws.len() > 0 {
        lemma_occurrences_bounded(ws.drop_last(), w);
    }
}

proof fn lemma_occurrences_push(ws: Seq<Seq<char>>, x: Seq<char>, w: Seq<char>)
    ensures
        occurrences(ws.push(x), w) == occurrences(ws, w) + if x == w {
            1nat
        } else {
            0nat
        },
{
    assert(ws.push(x).drop_last() =~= ws);
}

/// How often each word of a text occurs, with the distinct words in the
/// order they first occur.
pub struct WordCounts {
    counts: StringHashMap<usize>,
    order: Vec<String>,
}

/// The views of a list of strings.
pub open spec fn texts(v: Seq<String>) -> Seq<Seq<char>> {
    v.map_values(|s: String| s@)
}

impl WordCounts {
    /// How often `w` occurs (0 for a word that never does).
    pub closed spec fn count_of(&self, w: Seq<char>) -> nat {
        if self.counts@.contains_key(w) {
            self.counts@[w] as nat
        } else {
            0
        }
    }

    /// The distinct words.
    pub closed spec fn listed(&self) -> Seq<Seq<char>> {
        texts(self.order@)
    }

    /// The counts agree with the list of words `done`, and the list of
    /// distinct words holds each counted word once.
    closed spec fn tallies(&self, done: Seq<Seq<char>>) -> bool {
        &&& forall|w: Seq<char>| #[trigger]
            self.counts@.contains_key(w) ==> self.counts@[w] == occurrences(done, w)
                && occurrences(done, w) > 0
        &&& forall|w: Seq<char>| !#[trigger] self.counts@.contains_key(w) ==> occurrences(done, w)
            == 0
        &&& forall|w: Seq<char>| #[trigger]
            self.counts@.contains_key(w) <==> texts(self.order@).contains(w)
        &&& forall|i: int, j: int|
            0 <= i < j < self.order@.len() ==> texts(self.order@)[i] != texts(self.order@)[j]
    }

    /// Counts one more occurrence of `word` after the words `done`.
    fn record(&mut self, word: String, Ghost(done): Ghost<Seq<Seq<char>>>)
        requires
            old(self).tallies(done),
            done.len() < usize::MAX,
        ensures
            final(self).tallies(done.push(word@)),
    {
        let ghost w0 = word@;
        proof {
            lemma_occurrences_bounded(done, w0);
            assert forall|w: Seq<char>| occurrences(done.push(w0), w) == occurrences(done, w) + if w0
                == w {
                1nat
            } else {
                0nat
            } by {
                lemma_occurrences_push(done, w0, w);
            }
        }
        let found = match self.counts.get(word.as_str()) {
            Some(n) => Some(*n),
            None => None,
        };
        match found {
            Some(n) => {
                self.counts.insert(word, n + 1);
                assert(texts(self.order@) == texts(old(self).order@));
            },
            None => {
                let ghost before = texts(self.order@);
                self.order.push(word.clone());
                self.counts.insert(word, 1);
                proof {
                    assert(texts(self.order@) =~= before.push(w0));
                    assert(!before.contains(w0));
                    assert forall|w: Seq<char>| #[trigger]
                        self.counts@.contains_key(w) <==> texts(self.order@).contains(w) by {
                        if w != w0 && before.contains(w) {
                            let k = choose|k: int| 0 <= k < before.len() && before[k] == w;
                            assert(texts(self.order@)[k] == w);
                        }
                        if texts(self.order@).contains(w) && w != w0 {
                            let k = choose|k: int|
                                0 <= k < texts(self.order@).len() && texts(self.order@)[k] == w;
                            assert(before[k] == w);
                        }
                        if w == w0 {
                            assert(texts(self.order@)[before.len() as int] == w0);
                        }
                    }
                    assert forall|i: int, j: int|
                        0 <= i < j < self.order@.len() implies texts(self.order@)[i] != texts(
                        self.order@,
                    )[j] by {
                        if j == before.len() {
                            assert(before[i] == texts(self.order@)[i]);
                        }
                    }
                }
            },
        }
    }

    /// How often `word` occurs.
    pub fn count(&self, word: &str) -> (r: usize)
        ensures
            r == self.count_of(word@),
    {
        match self.counts.get(word) {
            Some(n) => *n,
            None => 0,
        }
    }

    /// The distinct words, in the order they first occur.
    pub fn distinct_words(&self) -> (r: Vec<String>)
        ensures
            texts(r@) == self.listed(),
    {
        let mut r: Vec<String> = Vec::new();
        let mut i: usize = 0;
        while i < self.order.len()
            invariant
                i <= self.order@.len(),
                r@.len() == i,
                forall|k: int| 0 <= k < i ==> (#[trigger] r@[k])@ == self.order@[k]@,
            decreases self.order@.len() - i,
        {
            let s = self.order[i].clone();
            assert(s@ == self.order@[i as int]@);
            r.push(s);
            i = i + 1;
        }
        assert(texts(r@) =~= texts(self.order@));
        r
    }
}

/// Counts the words of `text`, split at white space.
pub fn word_frequencies(text: &str) -> (r: WordCounts)
    ensures
        forall|w: Seq<char>| #[trigger] r.count_of(w) == occurrences(words(text@), w),
        forall|w: Seq<char>| #[trigger]
            r.listed().contains(w) <==> occurrences(words(text@), w) > 0,
        forall|i: int, j: int| 0 <= i < j < r.listed().len() ==> r.listed()[i] != r.listed()[j],
{
    let mut r = WordCounts { counts: StringHashMap::new(), order: Vec::new() };
    let n = text.unicode_len();
    let mut i: usize = 0;
    let mut start: usize = 0;
    let mut in_word = false;
    let ghost mut done: Seq<Seq<char>> = Seq::empty();
    assert(text@.subrange(0, 0) =~= Seq::<char>::empty());
    assert(texts(r.order@) =~= Seq::<Seq<char>>::empty());
    while i < n
        invariant
            n == text@.len(),
            i <= n,
            done.len() <= i,
            in_word ==> done.len() <= start,
            start <= i,
            r.tallies(done),
            in_word ==> start < i && !space_char(text@[i - 1]),
            !in_word ==> i == 0 || space_char(text@[i - 1]),
            words(text@.subrange(0, i as int)) == if in_word {
                done.push(text@.subrange(start as int, i as int))
            } else {
                done
            },
        decreases n - i,
    {
        let c = text.get_char(i);
        let ghost prefix = text@.subrange(0, i + 1);
        assert(prefix.drop_last() =~= text@.subrange(0, i as int));
        assert(prefix.last() == c);
        if char_is_space(c) {
            if in_word {
                let word = String::from_str(text.substring_char(start, i));
                r.record(word, Ghost(done));
                proof {
                    done = done.push(text@.subrange(start as int, i as int));
                }
                in_word = false;
            }
        } else {
            if in_word {
                proof {
                    assert(prefix[i - 1] == text@[i - 1]);
                    assert(text@.subrange(start as int, i as int).push(c) =~= text@.subrange(
                        start as int,
                        i + 1,
                    ));
                    assert(words(prefix) =~= done.push(text@.subrange(start as int, i + 1)));
                }
            } else {
                proof {
                    if i > 0 {
                        assert(prefix[i - 1] == text@[i - 1]);
                    }
                    assert(seq![c] =~= text@.subrange(i as int, i + 1));
                }
                start = i;
                in_word = true;
            }
        }
        i = i + 1;
    }
    assert(text@.subrange(0, n as int) =~= text@);
    if in_word {
        let word = String::from_str(text.substring_char(start, n));
        r.record(word, Ghost(done));
        proof {
            done = done.push(text@.subrange(start as int, n as int));
        }
    }
    proof {
        assert forall|w: Seq<char>| #[trigger] r.count_of(w) == occurrences(words(text@), w) by {
        }
        assert forall|w: Seq<char>| #[trigger]
            r.listed().contains(w) <==> occurrences(words(text@), w) > 0 by {
            if r.listed().contains(w) {
                assert(r.counts@.contains_key(w));
            }
            if occurrences(words(text@), w) > 0 {
                assert(r.counts@.contains_key(w));
                assert(texts(r.order@).contains(w));
            }
        }
    }
    r
}

} // verus!
