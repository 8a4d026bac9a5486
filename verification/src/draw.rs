//! Drawing the two words of a game from the keywords the players have
//! submitted.
//!
//! The citizens' word and the wolves' word must differ, so the draw is
//! made among the different keywords, each counted once.

use crate::random::sample_indices;
use crate::types::GameError;
use vstd::prelude::*;

verus! {

/// The texts of `words`.
pub open spec fn texts(words: Seq<String>) -> Seq<Seq<char>> {
    words.map_values(|w: String| w@)
}

/// The different texts among `words`, each once, in the order in which
/// they first appear.
pub open spec fn distinct_words(words: Seq<Seq<char>>) -> Seq<Seq<char>>
    decreases words.len(),
{
    if words.len() == 0 {
        Seq::empty()
    } else {
        let before = distinct_words(words.drop_last());
        if before.contains(words.last()) {
            before
        } else {
            before.push(words.last())
        }
    }
}

/// The different words hold every word once and nothing else.
pub proof fn distinct_words_are_the_words(words: Seq<Seq<char>>)
    ensures
        distinct_words(words).no_duplicates(),
        forall|w: Seq<char>| distinct_words(words).contains(w) <==> words.contains(w),
        distinct_words(words).len() <= words.len(),
    decreases words.len(),
{
    if words.len() > 0 {
        let before = distinct_words(words.drop_last());
        distinct_words_are_the_words(words.drop_last());
        assert forall|w: Seq<char>| distinct_words(words).contains(w) <==> words.contains(w) by {
            if words.contains(w) {
                let i = choose|i: int| 0 <= i < words.len() && words[i] == w;
                if i < words.len() - 1 {
                    assert(words.drop_last()[i] == w);
                    assert(words.drop_last().contains(w));
                    assert(before.contains(w));
                    let j = choose|j: int| 0 <= j < before.len() && before[j] == w;
                    assert(distinct_words(words)[j] == w);
                } else if !before.contains(w) {
                    assert(distinct_words(words)[before.len() as int] == w);
                }
            }
            if distinct_words(words).contains(w) {
                let j = choose|j: int|
                    0 <= j < distinct_words(words).len() && distinct_words(words)[j] == w;
                if j < before.len() {
                    assert(before[j] == w);
                    assert(words.drop_last().contains(w));
                    let i = choose|i: int|
                        0 <= i < words.drop_last().len() && words.drop_last()[i] == w;
                    assert(words[i] == w);
                } else {
                    assert(words[words.len() - 1] == w);
                }
            }
        }
    }
}

fn holds(words: &Vec<String>, word: &String) -> (found: bool)
    ensures
        found == texts(words@).contains(word@),
{
    let mut i: usize = 0;
    while i < words.len()
        invariant
            i <= words.len(),
            forall|j: int| 0 <= j < i ==> texts(words@)[j] != word@,
        decreases words.len() - i,
    {
        if words[i] == *word {
            assert(texts(words@)[i as int] == word@);
            return true;
        }
        i = i + 1;
    }
    false
}

/// The different words among `words`, each once, in the order in which
/// they first appear.
pub fn distinct(words: &Vec<String>) -> (different: Vec<String>)
    ensures
        texts(different@) == distinct_words(texts(words@)),
{
    let mut different: Vec<String> = Vec::new();
    let mut i: usize = 0;
    assert(texts(different@) == Seq::<Seq<char>>::empty());
    while i < words.len()
        invariant
            i <= words.len(),
            texts(different@) == distinct_words(texts(words@).take(i as int)),
        decreases words.len() - i,
    {
        proof {
            assert(texts(words@).take(i + 1).drop_last() == texts(words@).take(i as int));
            assert(texts(words@).take(i + 1).last() == words@[i as int]@);
        }
        if !holds(&different, &words[i]) {
            let ghost before = different@;
            different.push(words[i].clone());
            assert(texts(different@) == texts(before).push(words@[i as int]@));
        }
        i = i + 1;
    }
    assert(texts(words@).take(words.len() as int) == texts(words@));
    different
}

/// Whether `pair` can be drawn from `words`: its two words differ and
/// both are among `words`.
pub open spec fn drawn_from(words: Seq<Seq<char>>, pair: (Seq<char>, Seq<char>)) -> bool {
    pair.0 != pair.1 && words.contains(pair.0) && words.contains(pair.1)
}

/// The pair of the different words at the positions `first` and
/// `second`: the first is for the citizens, the second for the wolves.
pub fn pick_two(words: &Vec<String>, first: usize, second: usize) -> (pair: (String, String))
    requires
        first != second,
        first < distinct_words(texts(words@)).len(),
        second < distinct_words(texts(words@)).len(),
    ensures
        pair.0@ == distinct_words(texts(words@))[first as int],
        pair.1@ == distinct_words(texts(words@))[second as int],
        drawn_from(texts(words@), (pair.0@, pair.1@)),
{
    let different = distinct(words);
    proof {
        distinct_words_are_the_words(texts(words@));
        let d = distinct_words(texts(words@));
        assert(texts(different@)[first as int] == different@[first as int]@);
        assert(texts(different@)[second as int] == different@[second as int]@);
        assert(d.contains(d[first as int]));
        assert(d.contains(d[second as int]));
    }
    (different[first].clone(), different[second].clone())
}

/// Draws two different words from `words` at random: the first is for
/// the citizens, the second for the wolves.  Fails when `words` holds
/// fewer than two different words.
pub fn draw_two(words: &Vec<String>) -> (r: Result<(String, String), GameError>)
    ensures
        r is Ok <==> distinct_words(texts(words@)).len() >= 2,
        r is Err ==> r->Err_0 == GameError::InsufficientKeywords,
        r is Ok ==> drawn_from(texts(words@), (r->Ok_0.0@, r->Ok_0.1@)),
{
    let different = distinct(words);
    if different.len() < 2 {
        return Err(GameError::InsufficientKeywords);
    }
    let picked = sample_indices(different.len(), 2);
    assert(picked@[0] != picked@[1]);
    Ok(pick_two(words, picked[0], picked[1]))
}

} // verus!
