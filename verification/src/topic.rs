//! The keyword pool: the genre of a game, the keywords its players
//! submit, and the two words drawn from them.
//!
//! A player has one keyword at a time; submitting again replaces it.
//! Once every expected player has submitted, two different keywords are
//! drawn: the first for the villagers, the second for the wolf.  The
//! draw is made once and then kept.

use crate::draw::{distinct_words, draw_two, drawn_from, texts};
use crate::random::random_usize;
use crate::text::{trim, trimmed};
use crate::types::GameError;
use vstd::prelude::*;

verus! {

/// The keyword a player has submitted.
#[derive(Debug)]
pub struct PlayerKeyword {
    pub player_id: u32,
    pub keyword: String,
}

impl Clone for PlayerKeyword {
    fn clone(&self) -> (k: PlayerKeyword)
        ensures
            k == *self,
    {
        PlayerKeyword { player_id: self.player_id, keyword: self.keyword.clone() }
    }
}

/// The keyword pool of a game.
#[derive(Debug)]
pub struct TopicManager {
    /// The genre the keywords are to be taken from.
    genre: String,
    /// The keywords submitted, one for each player, in the order in
    /// which the players first submitted.
    submitted_keywords: Vec<PlayerKeyword>,
    /// The number of players who are to submit.
    expected_players: usize,
    /// The words drawn: the villagers' word, then the wolf's.
    selected_words: Option<(String, String)>,
}

/// The genres a game can be played in.
pub open spec fn genres() -> Seq<Seq<char>> {
    seq![
        "フルーツ"@,
        "スポーツ"@,
        "都道府県"@,
        "お菓子"@,
        "ジュース"@,
        "麺類"@,
        "料理"@,
        "文房具"@,
        "家具"@,
        "色"@,
        "乗り物"@,
    ]
}

/// The genre that the draw `draw` selects.
pub fn genre_at(draw: usize) -> (genre: String)
    ensures
        genre@ == genres()[(draw % 11) as int],
{
    let k = draw % 11;
    if k == 0 {
        "フルーツ".to_string()
    } else if k == 1 {
        "スポーツ".to_string()
    } else if k == 2 {
        "都道府県".to_string()
    } else if k == 3 {
        "お菓子".to_string()
    } else if k == 4 {
        "ジュース".to_string()
    } else if k == 5 {
        "麺類".to_string()
    } else if k == 6 {
        "料理".to_string()
    } else if k == 7 {
        "文房具".to_string()
    } else if k == 8 {
        "家具".to_string()
    } else if k == 9 {
        "色".to_string()
    } else {
        "乗り物".to_string()
    }
}

/// Whether `player_id` has a keyword in `entries`.
pub open spec fn has_submitted(entries: Seq<PlayerKeyword>, player_id: u32) -> bool {
    exists|k: int| 0 <= k < entries.len() && (#[trigger] entries[k]).player_id == player_id
}

/// Whether `after` is `before` with the keyword `word` recorded for
/// `player_id`: in the place of the player's earlier keyword if there
/// is one, at the end otherwise.
pub open spec fn keyword_recorded(
    before: Seq<PlayerKeyword>,
    after: Seq<PlayerKeyword>,
    player_id: u32,
    word: Seq<char>,
) -> bool {
    if has_submitted(before, player_id) {
        exists|k: int|
            0 <= k < before.len() && (#[trigger] before[k]).player_id == player_id && after.len()
                == before.len() && after[k].player_id == player_id && after[k].keyword@ == word
                && forall|l: int| 0 <= l < before.len() && l != k ==> after[l] == before[l]
    } else {
        after.len() == before.len() + 1 && after.last().player_id == player_id
            && after.last().keyword@ == word && after.drop_last() == before
    }
}

/// The keywords of `entries`, in their order.
pub open spec fn keywords(entries: Seq<PlayerKeyword>) -> Seq<Seq<char>> {
    entries.map_values(|e: PlayerKeyword| e.keyword@)
}

impl TopicManager {
    /// The keywords submitted, one for each player, in the order in
    /// which the players first submitted.
    pub closed spec fn submissions(&self) -> Seq<PlayerKeyword> {
        self.submitted_keywords@
    }

    /// The number of players who are to submit.
    pub closed spec fn expected(&self) -> usize {
        self.expected_players
    }

    /// What holds of the pool between two commands: every player has at
    /// most one keyword.
    pub closed spec fn wf(&self) -> bool {
        forall|k: int, l: int|
            0 <= k < l < self.submitted_keywords@.len() ==> (
            #[trigger] self.submitted_keywords@[k]).player_id != (
            #[trigger] self.submitted_keywords@[l]).player_id
    }

    /// The genre the keywords are to be taken from.
    pub closed spec fn theme(&self) -> Seq<char> {
        self.genre@
    }

    /// The words drawn: the villagers' word, then the wolf's.
    pub closed spec fn drawn(&self) -> Option<(String, String)> {
        self.selected_words
    }

    /// The words drawn, as texts.
    pub open spec fn selected(&self) -> Option<(Seq<char>, Seq<char>)> {
        match self.drawn() {
            Some(pair) => Some((pair.0@, pair.1@)),
            None => None,
        }
    }

    /// The genre the keywords are to be taken from.
    pub fn genre(&self) -> (genre: &String)
        ensures
            genre@ == self.theme(),
    {
        &self.genre
    }

    /// The words drawn: the villagers' word, then the wolf's.
    pub fn selected_words(&self) -> (words: &Option<(String, String)>)
        ensures
            *words == self.drawn(),
    {
        &self.selected_words
    }

    /// An empty pool: no genre, no keywords, nobody expected.
    pub fn new() -> (t: Self)
        ensures
            t.wf(),
            t.theme().len() == 0,
            t.submissions().len() == 0,
            t.expected() == 0,
            t.drawn() is None,
    {
        TopicManager {
            genre: String::new(),
            submitted_keywords: Vec::new(),
            expected_players: 0,
            selected_words: None,
        }
    }

    /// Opens the submission of keywords for `players` players in the
    /// genre that `draw` selects, and returns the genre.  What was
    /// submitted or drawn before is forgotten.
    pub fn start_theme_phase_with(&mut self, players: usize, draw: usize) -> (genre: String)
        ensures
            final(self).wf(),
            genre@ == genres()[(draw % 11) as int],
            final(self).theme() == genre@,
            final(self).submissions().len() == 0,
            final(self).expected() == players,
            final(self).drawn() is None,
    {
        self.genre = genre_at(draw);
        self.submitted_keywords.clear();
        self.expected_players = players;
        self.selected_words = None;
        self.genre.clone()
    }

    /// Opens the submission of keywords for `players` players in a genre
    /// drawn at random, and returns the genre.  What was submitted or
    /// drawn before is forgotten.
    pub fn start_theme_phase(&mut self, players: usize) -> (genre: String)
        ensures
            final(self).wf(),
            genres().contains(genre@),
            final(self).theme() == genre@,
            final(self).submissions().len() == 0,
            final(self).expected() == players,
            final(self).drawn() is None,
    {
        let draw = random_usize();
        let genre = self.start_theme_phase_with(players, draw);
        assert(genres()[(draw % 11) as int] == genre@);
        genre
    }

    fn find(&self, player_id: u32) -> (r: Option<usize>)
        ensures
            match r {
                Some(k) => k < self.submitted_keywords@.len() && self.submitted_keywords@[k as int].player_id
                    == player_id,
                None => !has_submitted(self.submitted_keywords@, player_id),
            },
    {
        let mut k: usize = 0;
        while k < self.submitted_keywords.len()
            invariant
                k <= self.submitted_keywords.len(),
                forall|j: int|
                    0 <= j < k ==> (#[trigger] self.submitted_keywords@[j]).player_id != player_id,
            decreases self.submitted_keywords.len() - k,
        {
            if self.submitted_keywords[k].player_id == player_id {
                return Some(k);
            }
            k = k + 1;
        }
        None
    }

    /// Records the keyword of a player, without the white space around
    /// it.  A keyword submitted before is replaced.
    pub fn record(&mut self, player_id: u32, keyword: String)
        requires
            old(self).wf(),
        ensures
            final(self).wf(),
            keyword_recorded(
                old(self).submissions(),
                final(self).submissions(),
                player_id,
                trimmed(keyword@),
            ),
            final(self).theme() == old(self).theme(),
            final(self).expected() == old(self).expected(),
            final(self).drawn() == old(self).drawn(),
    {
        let word = trim(keyword.as_str());
        let ghost before = self.submitted_keywords@;
        match self.find(player_id) {
            Some(k) => {
                self.submitted_keywords.set(k, PlayerKeyword { player_id, keyword: word });
            },
            None => {
                self.submitted_keywords.push(PlayerKeyword { player_id, keyword: word });
                assert(self.submitted_keywords@.drop_last() == before);
            },
        }
    }

    /// The keywords submitted, in the order of the submissions.
    pub fn words(&self) -> (words: Vec<String>)
        ensures
            texts(words@) == keywords(self.submissions()),
    {
        let mut words: Vec<String> = Vec::new();
        let mut i: usize = 0;
        while i < self.submitted_keywords.len()
            invariant
                i <= self.submitted_keywords.len(),
                texts(words@) == keywords(self.submitted_keywords@.take(i as int)),
            decreases self.submitted_keywords.len() - i,
        {
            let ghost before = words@;
            words.push(self.submitted_keywords[i].keyword.clone());
            proof {
                let entries = self.submitted_keywords@;
                assert(entries.take(i + 1) == entries.take(i as int).push(entries[i as int]));
                assert(texts(words@) == texts(before).push(entries[i as int].keyword@));
                assert(keywords(entries.take(i + 1)) == keywords(entries.take(i as int)).push(
                    entries[i as int].keyword@,
                ));
            }
            i = i + 1;
        }
        assert(self.submitted_keywords@.take(self.submitted_keywords.len() as int)
            == self.submitted_keywords@);
        words
    }

    /// Whether a draw is due: nothing is drawn yet and every expected
    /// player has submitted.
    pub open spec fn draw_due(&self) -> bool {
        self.drawn() is None && self.submissions().len() >= self.expected()
    }

    /// Draws the two words if the draw is due.  A draw that has been
    /// made stays; a draw among fewer than two different keywords fails
    /// and leaves the pool as it is.
    pub fn try_draw(&mut self) -> (r: Result<(), GameError>)
        ensures
            final(self).theme() == old(self).theme(),
            final(self).submissions() == old(self).submissions(),
            final(self).expected() == old(self).expected(),
            old(self).wf() ==> final(self).wf(),
            !old(self).draw_due() ==> r is Ok && final(self).drawn() == old(self).drawn(),
            old(self).draw_due() ==> {
                let words = keywords(old(self).submissions());
                &&& r is Ok <==> distinct_words(words).len() >= 2
                &&& r is Err ==> r->Err_0 == GameError::InsufficientKeywords && final(self).drawn() is None
                &&& r is Ok ==> final(self).selected() is Some && drawn_from(
                    words,
                    final(self).selected()->Some_0,
                )
            },
    {
        if self.selected_words.is_some() || self.submitted_keywords.len() < self.expected_players {
            return Ok(());
        }
        let words = self.words();
        match draw_two(&words) {
            Ok(pair) => {
                self.selected_words = Some(pair);
                Ok(())
            },
            Err(e) => Err(e),
        }
    }

    /// What a submission makes of the pool, and what the pool answers.
    ///
    /// The keyword is recorded in any case.  A draw that has been made
    /// stays.  Without one, and with a keyword from every expected
    /// player, the words are drawn; if there are not two different
    /// keywords to draw from, the answer is `InsufficientKeywords` and
    /// nothing is drawn.
    pub open spec fn submitted(
        before: &TopicManager,
        after: &TopicManager,
        player_id: u32,
        keyword: Seq<char>,
        r: Result<(), GameError>,
    ) -> bool {
        let words = keywords(after.submissions());
        &&& keyword_recorded(before.submissions(), after.submissions(), player_id, trimmed(keyword))
        &&& after.theme() == before.theme()
        &&& after.expected() == before.expected()
        &&& if before.drawn() is Some {
            r is Ok && after.drawn() == before.drawn()
        } else if after.submissions().len() < before.expected() {
            r is Ok && after.drawn() is None
        } else if distinct_words(words).len() >= 2 {
            r is Ok && after.selected() is Some && drawn_from(words, after.selected()->Some_0)
        } else {
            r == Err::<(), GameError>(GameError::InsufficientKeywords) && after.drawn() is None
        }
    }

    /// Records the keyword of a player, without the white space around
    /// it, in the place of the keyword that the player submitted before
    /// if there is one.  When that completes the submissions, the two
    /// words are drawn.
    pub fn submit_keyword(&mut self, player_id: u32, keyword: String) -> (r: Result<(), GameError>)
        requires
            old(self).wf(),
        ensures
            final(self).wf(),
            TopicManager::submitted(old(self), final(self), player_id, keyword@, r),
    {
        self.record(player_id, keyword);
        self.try_draw()
    }

    /// Whether the submissions are complete and the words drawn.
    pub fn all_submitted(&self) -> (b: bool)
        ensures
            b == self.drawn() is Some,
    {
        self.selected_words.is_some()
    }

    /// The word of a player once the words are drawn: the wolf's word
    /// for the wolf, the villagers' word for everybody else.
    pub fn get_word_for_player(&self, player_id: u32, wolf_id: u32) -> (word: Option<String>)
        ensures
            word is Some == self.drawn() is Some,
            word is Some ==> word->Some_0 == (if player_id == wolf_id {
                self.drawn()->Some_0.1
            } else {
                self.drawn()->Some_0.0
            }),
    {
        match &self.selected_words {
            Some(pair) => {
                if player_id == wolf_id {
                    Some(pair.1.clone())
                } else {
                    Some(pair.0.clone())
                }
            },
            None => None,
        }
    }

    /// The keyword that a player has submitted, if any.
    pub fn keyword_of(&self, player_id: u32) -> (word: Option<String>)
        ensures
            word is Some == has_submitted(self.submissions(), player_id),
            word is Some ==> exists|k: int|
                0 <= k < self.submissions().len() && (#[trigger] self.submissions()[k]).player_id
                    == player_id && self.submissions()[k].keyword == word->Some_0,
    {
        match self.find(player_id) {
            Some(k) => {
                let word = self.submitted_keywords[k].keyword.clone();
                assert(self.submissions()[k as int].player_id == player_id);
                Some(word)
            },
            None => None,
        }
    }

    /// The number of players who have submitted a keyword.
    pub fn submitted_count(&self) -> (n: usize)
        ensures
            n == self.submissions().len(),
    {
        self.submitted_keywords.len()
    }
}

/// Under this policy the last keyword of a player counts: after a
/// player has submitted twice, the pool holds the second keyword for
/// them and nothing of the first.
pub proof fn last_keyword_wins(
    a: Seq<PlayerKeyword>,
    b: Seq<PlayerKeyword>,
    c: Seq<PlayerKeyword>,
    player_id: u32,
    first: Seq<char>,
    second: Seq<char>,
)
    requires
        forall|k: int, l: int|
            0 <= k < l < a.len() ==> (#[trigger] a[k]).player_id != (#[trigger] a[l]).player_id,
        keyword_recorded(a, b, player_id, first),
        keyword_recorded(b, c, player_id, second),
    ensures
        keyword_recorded(a, c, player_id, second),
        c.len() == b.len(),
        forall|k: int|
            0 <= k < c.len() && (#[trigger] c[k]).player_id == player_id ==> c[k].keyword@ == second,
{
    if has_submitted(a, player_id) {
        let k = choose|k: int|
            0 <= k < a.len() && (#[trigger] a[k]).player_id == player_id && b.len() == a.len()
                && b[k].player_id == player_id && b[k].keyword@ == first && forall|l: int|
                0 <= l < a.len() && l != k ==> b[l] == a[l];
        assert(has_submitted(b, player_id));
        let m = choose|m: int|
            0 <= m < b.len() && (#[trigger] b[m]).player_id == player_id && c.len() == b.len()
                && c[m].player_id == player_id && c[m].keyword@ == second && forall|l: int|
                0 <= l < b.len() && l != m ==> c[l] == b[l];
        assert(m == k) by {
            if m != k {
                assert(b[m] == a[m]);
                assert(a[m].player_id == a[k].player_id);
            }
        }
        assert forall|j: int| 0 <= j < c.len() && (#[trigger] c[j]).player_id == player_id implies c[j].keyword@
            == second by {
            if j != k {
                assert(c[j] == a[j]);
                assert(a[j].player_id == a[k].player_id);
            }
        }
    } else {
        assert(b.last().player_id == player_id);
        assert(has_submitted(b, player_id));
        let m = choose|m: int|
            0 <= m < b.len() && (#[trigger] b[m]).player_id == player_id && c.len() == b.len()
                && c[m].player_id == player_id && c[m].keyword@ == second && forall|l: int|
                0 <= l < b.len() && l != m ==> c[l] == b[l];
        assert(m == b.len() - 1) by {
            if m != b.len() - 1 {
                assert(b.drop_last()[m] == b[m]);
                assert(a[m].player_id == player_id);
            }
        }
        assert(c.drop_last() == a) by {
            assert forall|j: int| 0 <= j < a.len() implies c.drop_last()[j] == a[j] by {
                assert(c[j] == b[j]);
                assert(b.drop_last()[j] == b[j]);
            }
        }
        assert forall|j: int| 0 <= j < c.len() && (#[trigger] c[j]).player_id == player_id implies c[j].keyword@
            == second by {
            if j != m {
                assert(c[j] == b[j]);
                assert(b.drop_last()[j] == b[j]);
                assert(a[j].player_id == player_id);
            }
        }
    }
}

impl Default for TopicManager {
    fn default() -> (t: Self)
        ensures
            t.wf(),
            t.submissions().len() == 0,
            t.drawn() is None,
    {
        TopicManager::new()
    }
}

} // verus!
