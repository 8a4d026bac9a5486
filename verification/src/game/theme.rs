//! The words of the game: pairs of related themes, grouped by genre.

use crate::random::random_usize;
use crate::types::{GenreView, ThemeGenre};
use vstd::prelude::*;

verus! {

/// Two related words: the citizens get one, the wolves the other.
#[derive(Debug)]
pub struct ThemePair {
    pub citizen_theme: String,
    pub wolf_theme: String,
}

impl Clone for ThemePair {
    fn clone(&self) -> (p: ThemePair)
        ensures
            p == *self,
    {
        ThemePair {
            citizen_theme: self.citizen_theme.clone(),
            wolf_theme: self.wolf_theme.clone(),
        }
    }
}

/// The texts of a pair: the citizens' word, then the wolves'.
pub open spec fn pair_texts(pair: ThemePair) -> (Seq<char>, Seq<char>) {
    (pair.citizen_theme@, pair.wolf_theme@)
}

impl ThemePair {
    pub fn new(citizen_theme: String, wolf_theme: String) -> (pair: Self)
        ensures
            pair.citizen_theme == citizen_theme,
            pair.wolf_theme == wolf_theme,
    {
        ThemePair { citizen_theme, wolf_theme }
    }

    fn of(citizen_theme: &str, wolf_theme: &str) -> (pair: Self)
        ensures
            pair_texts(pair) == (citizen_theme@, wolf_theme@),
    {
        ThemePair { citizen_theme: citizen_theme.to_string(), wolf_theme: wolf_theme.to_string() }
    }
}

/// The pairs of one genre.
struct GenreThemes {
    genre: ThemeGenre,
    pairs: Vec<ThemePair>,
}

/// The themes known to the game, by genre.
pub struct ThemeDatabase {
    themes: Vec<GenreThemes>,
}

/// The pairs of the built-in genre "food".
pub open spec fn food_themes() -> Seq<(Seq<char>, Seq<char>)> {
    seq![
        ("りんご"@, "みかん"@),
        ("カレー"@, "シチュー"@),
        ("ラーメン"@, "うどん"@),
        ("寿司"@, "刺身"@),
    ]
}

/// The pairs of the built-in genre "animal".
pub open spec fn animal_themes() -> Seq<(Seq<char>, Seq<char>)> {
    seq![("犬"@, "猫"@), ("ライオン"@, "トラ"@), ("イルカ"@, "クジラ"@)]
}

/// The pairs of the built-in genre "place".
pub open spec fn place_themes() -> Seq<(Seq<char>, Seq<char>)> {
    seq![("海"@, "山"@), ("図書館"@, "書店"@), ("公園"@, "遊園地"@)]
}

/// The pairs of the built-in genre "object".
pub open spec fn object_themes() -> Seq<(Seq<char>, Seq<char>)> {
    seq![("鉛筆"@, "ペン"@), ("椅子"@, "ソファ"@), ("時計"@, "タイマー"@)]
}

/// The pair handed out for every custom genre.
pub open spec fn custom_theme() -> (Seq<char>, Seq<char>) {
    ("テーマA"@, "テーマB"@)
}

/// The pairs that a room of the given genre can be dealt from the
/// built-in themes.
pub open spec fn builtin_themes(genre: GenreView) -> Seq<(Seq<char>, Seq<char>)> {
    match genre {
        GenreView::Food => food_themes(),
        GenreView::Animal => animal_themes(),
        GenreView::Place => place_themes(),
        GenreView::Object => object_themes(),
        GenreView::Custom(_) => seq![custom_theme()],
    }
}

impl ThemeDatabase {
    /// The representation invariant: every genre is listed once, with at
    /// least one pair.
    pub closed spec fn wf(&self) -> bool {
        &&& forall|k: int, l: int|
            0 <= k < l < self.themes@.len() ==> (#[trigger] self.themes@[k]).genre@ != (
            #[trigger] self.themes@[l]).genre@
        &&& forall|k: int| 0 <= k < self.themes@.len() ==> (#[trigger] self.themes@[k]).pairs@.len() > 0
    }

    spec fn listed(&self, genre: GenreView, k: int) -> bool {
        0 <= k < self.themes@.len() && self.themes@[k].genre@ == genre
    }

    /// The pairs stored for `genre`, in the order in which they were
    /// added; empty when the genre is unknown.
    pub closed spec fn pairs_of(&self, genre: GenreView) -> Seq<ThemePair> {
        if exists|k: int| self.listed(genre, k) {
            self.themes@[choose|k: int| self.listed(genre, k)].pairs@
        } else {
            Seq::empty()
        }
    }

    /// The texts of the pairs stored for `genre`.
    pub open spec fn texts_of(&self, genre: GenreView) -> Seq<(Seq<char>, Seq<char>)> {
        self.pairs_of(genre).map_values(|p: ThemePair| pair_texts(p))
    }

    proof fn pairs_at(&self, genre: GenreView, k: int)
        requires
            self.wf(),
            self.listed(genre, k),
        ensures
            self.pairs_of(genre) == self.themes@[k].pairs@,
    {
        let c = choose|c: int| self.listed(genre, c);
        assert(c == k);
    }

    fn find(&self, genre: &ThemeGenre) -> (r: Option<usize>)
        ensures
            match r {
                Some(k) => self.listed(genre@, k as int),
                None => forall|k: int| !self.listed(genre@, k),
            },
    {
        let mut k: usize = 0;
        while k < self.themes.len()
            invariant
                k <= self.themes.len(),
                forall|j: int| 0 <= j < k ==> !self.listed(genre@, j),
            decreases self.themes.len() - k,
        {
            if self.themes[k].genre.same_as(genre) {
                return Some(k);
            }
            k = k + 1;
        }
        None
    }

    /// The database of built-in themes: food, animals, places and objects.
    pub fn new() -> (db: Self)
        ensures
            db.wf(),
            db.texts_of(GenreView::Food) == food_themes(),
            db.texts_of(GenreView::Animal) == animal_themes(),
            db.texts_of(GenreView::Place) == place_themes(),
            db.texts_of(GenreView::Object) == object_themes(),
            forall|name: Seq<char>| db.pairs_of(GenreView::Custom(name)).len() == 0,
    {
        let mut food: Vec<ThemePair> = Vec::new();
        food.push(ThemePair::of("りんご", "みかん"));
        food.push(ThemePair::of("カレー", "シチュー"));
        food.push(ThemePair::of("ラーメン", "うどん"));
        food.push(ThemePair::of("寿司", "刺身"));

        let mut animal: Vec<ThemePair> = Vec::new();
        animal.push(ThemePair::of("犬", "猫"));
        animal.push(ThemePair::of("ライオン", "トラ"));
        animal.push(ThemePair::of("イルカ", "クジラ"));

        let mut place: Vec<ThemePair> = Vec::new();
        place.push(ThemePair::of("海", "山"));
        place.push(ThemePair::of("図書館", "書店"));
        place.push(ThemePair::of("公園", "遊園地"));

        let mut object: Vec<ThemePair> = Vec::new();
        object.push(ThemePair::of("鉛筆", "ペン"));
        object.push(ThemePair::of("椅子", "ソファ"));
        object.push(ThemePair::of("時計", "タイマー"));

        let mut themes: Vec<GenreThemes> = Vec::new();
        themes.push(GenreThemes { genre: ThemeGenre::Food, pairs: food });
        themes.push(GenreThemes { genre: ThemeGenre::Animal, pairs: animal });
        themes.push(GenreThemes { genre: ThemeGenre::Place, pairs: place });
        themes.push(GenreThemes { genre: ThemeGenre::Object, pairs: object });
        let db = ThemeDatabase { themes };
        proof {
            assert(db.listed(GenreView::Food, 0));
            assert(db.listed(GenreView::Animal, 1));
            assert(db.listed(GenreView::Place, 2));
            assert(db.listed(GenreView::Object, 3));
            db.pairs_at(GenreView::Food, 0);
            db.pairs_at(GenreView::Animal, 1);
            db.pairs_at(GenreView::Place, 2);
            db.pairs_at(GenreView::Object, 3);
            assert(db.texts_of(GenreView::Food) =~= food_themes());
            assert(db.texts_of(GenreView::Animal) =~= animal_themes());
            assert(db.texts_of(GenreView::Place) =~= place_themes());
            assert(db.texts_of(GenreView::Object) =~= object_themes());
            assert forall|name: Seq<char>| db.pairs_of(GenreView::Custom(name)).len() == 0 by {
                assert(forall|k: int| !db.listed(GenreView::Custom(name), k));
            }
        }
        db
    }

    /// Whether the database holds pairs for `genre`.
    pub fn has_genre(&self, genre: &ThemeGenre) -> (b: bool)
        requires
            self.wf(),
        ensures
            b == (self.pairs_of(genre@).len() > 0),
    {
        match self.find(genre) {
            Some(k) => {
                proof {
                    self.pairs_at(genre@, k as int);
                }
                true
            },
            None => false,
        }
    }

    /// The pair that a draw of `r` selects for `genre`: the fixed pair
    /// for a custom genre, the pair at position `r` modulo the number of
    /// pairs for a known genre, none for an unknown one.
    pub open spec fn selected(&self, genre: GenreView, r: usize) -> Option<(Seq<char>, Seq<char>)> {
        if genre is Custom {
            Some(custom_theme())
        } else if self.pairs_of(genre).len() == 0 {
            None
        } else {
            Some(self.texts_of(genre)[(r as int) % (self.pairs_of(genre).len() as int)])
        }
    }

    /// The pair for `genre` that the draw `r` selects.
    pub fn theme_at(&self, genre: &ThemeGenre, r: usize) -> (pair: Option<ThemePair>)
        requires
            self.wf(),
        ensures
            pair is Some == self.selected(genre@, r) is Some,
            pair is Some ==> pair_texts(pair->Some_0) == self.selected(genre@, r)->Some_0,
    {
        match genre {
            ThemeGenre::Custom(_) => Some(ThemePair::of("テーマA", "テーマB")),
            _ => {
                match self.find(genre) {
                    Some(k) => {
                        proof {
                            self.pairs_at(genre@, k as int);
                        }
                        let theme_list = &self.themes[k].pairs;
                        let index = r % theme_list.len();
                        Some(theme_list[index].clone())
                    },
                    None => None,
                }
            },
        }
    }

    /// A pair for `genre`, drawn at random among those stored for it; the
    /// fixed pair for a custom genre; none for an unknown genre.
    pub fn get_random_theme(&self, genre: &ThemeGenre) -> (pair: Option<ThemePair>)
        requires
            self.wf(),
        ensures
            pair is Some == (genre@ is Custom || self.pairs_of(genre@).len() > 0),
            pair is Some ==> exists|r: usize| #[trigger]
                self.selected(genre@, r) == Some(pair_texts(pair->Some_0)),
    {
        let r = random_usize();
        let pair = self.theme_at(genre, r);
        proof {
            if pair is Some {
                assert(self.selected(genre@, r) == Some(pair_texts(pair->Some_0)));
            }
        }
        pair
    }

    /// A number below `max`, drawn at random.
    pub fn simple_random(&self, max: usize) -> (r: usize)
        requires
            max > 0,
        ensures
            r < max,
    {
        random_usize() % max
    }

    /// Adds `pair` at the end of the pairs of `genre`, which becomes
    /// known if it was not.
    pub fn add_custom_theme(&mut self, genre: ThemeGenre, pair: ThemePair)
        requires
            old(self).wf(),
        ensures
            final(self).wf(),
            final(self).pairs_of(genre@) == old(self).pairs_of(genre@).push(pair),
            forall|other: GenreView|
                other != genre@ ==> final(self).pairs_of(other) == old(self).pairs_of(other),
    {
        match self.find(&genre) {
            Some(k) => {
                let mut pairs: Vec<ThemePair> = Vec::new();
                let mut i: usize = 0;
                while i < self.themes[k].pairs.len()
                    invariant
                        k < self.themes@.len(),
                        i <= self.themes@[k as int].pairs@.len(),
                        pairs@ == self.themes@[k as int].pairs@.take(i as int),
                    decreases self.themes@[k as int].pairs@.len() - i,
                {
                    pairs.push(self.themes[k].pairs[i].clone());
                    assert(self.themes@[k as int].pairs@.take(i + 1) == self.themes@[k as int].pairs@.take(
                        i as int,
                    ).push(self.themes@[k as int].pairs@[i as int]));
                    i = i + 1;
                }
                assert(self.themes@[k as int].pairs@.take(i as int) == self.themes@[k as int].pairs@);
                pairs.push(pair);
                self.themes.set(k, GenreThemes { genre, pairs });
                proof {
                    old(self).pairs_at(genre@, k as int);
                    assert(forall|j: int|
                        0 <= j < self.themes@.len() && j != k ==> self.themes@[j] == old(
                            self,
                        ).themes@[j]);
                    assert(self.wf());
                    assert(self.listed(genre@, k as int));
                    self.pairs_at(genre@, k as int);
                    assert forall|other: GenreView| other != genre@ implies self.pairs_of(other)
                        == old(self).pairs_of(other) by {
                        self.same_elsewhere(*old(self), other, k as int);
                    }
                }
            },
            None => {
                let mut pairs: Vec<ThemePair> = Vec::new();
                pairs.push(pair);
                let ghost g = genre@;
                self.themes.push(GenreThemes { genre, pairs });
                proof {
                    let k = old(self).themes@.len() as int;
                    assert(forall|j: int| 0 <= j < k ==> self.themes@[j] == old(self).themes@[j]);
                    assert forall|a: int, b: int| 0 <= a < b < self.themes@.len() implies (
                    #[trigger] self.themes@[a]).genre@ != (#[trigger] self.themes@[b]).genre@ by {
                        if b == k {
                            assert(!old(self).listed(g, a));
                        }
                    }
                    assert(self.wf());
                    assert(self.listed(g, k));
                    self.pairs_at(g, k);
                    assert(old(self).pairs_of(g) == Seq::<ThemePair>::empty());
                    assert(self.pairs_of(g) =~= old(self).pairs_of(g).push(pair));
                    assert forall|other: GenreView| other != g implies self.pairs_of(other) == old(
                        self,
                    ).pairs_of(other) by {
                        self.same_elsewhere(*old(self), other, k);
                    }
                }
            },
        }
    }

    /// Two databases that differ at most in the entry at position `k`
    /// store the same pairs for every genre that is not listed there.
    proof fn same_elsewhere(&self, before: ThemeDatabase, other: GenreView, k: int)
        requires
            self.wf(),
            before.wf(),
            0 <= k < self.themes@.len(),
            self.themes@[k].genre@ != other,
            before.themes@.len() == self.themes@.len() || (before.themes@.len() == k
                && self.themes@.len() == k + 1),
            forall|j: int|
                0 <= j < before.themes@.len() && j != k ==> before.themes@[j] == self.themes@[j],
            k < before.themes@.len() ==> before.themes@[k].genre@ == self.themes@[k].genre@,
        ensures
            self.pairs_of(other) == before.pairs_of(other),
    {
        if exists|j: int| self.listed(other, j) {
            let j = choose|j: int| self.listed(other, j);
            assert(before.listed(other, j));
            self.pairs_at(other, j);
            before.pairs_at(other, j);
        } else {
            assert forall|j: int| !before.listed(other, j) by {
                if before.listed(other, j) {
                    assert(self.listed(other, j));
                }
            }
        }
    }
}

impl Default for ThemeDatabase {
    fn default() -> (db: Self)
        ensures
            db.wf(),
            db.texts_of(GenreView::Food) == food_themes(),
            db.texts_of(GenreView::Animal) == animal_themes(),
            db.texts_of(GenreView::Place) == place_themes(),
            db.texts_of(GenreView::Object) == object_themes(),
    {
        ThemeDatabase::new()
    }
}

} // verus!
