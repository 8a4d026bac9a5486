//! The game as played in the chat room: the players type their keywords
//! into the chat, and the server whispers to each of them their role
//! and word.
//!
//! Here a keyword, once submitted, stays: a player cannot change it.

use crate::draw::{distinct, distinct_words, drawn_from, pick_two, texts};
use crate::network::form::{number_of, parse_number};
use crate::network::http::{after_first_word, first_word, next_word};
use crate::network::scan::piece_text;
use crate::random::{random_usize, sample_indices};
use crate::text::{chars_of, decimal, decimal_digits, trim, trimmed};
use crate::types::GameError;
use vstd::prelude::*;
use vstd::string::StringExecFns;

verus! {

/// The phases of a chat game.
#[derive(Debug, Clone, Copy, PartialEq, Eq, Structural)]
pub enum GamePhase {
    /// No game is on.
    Waiting,
    /// The players submit keywords.
    ThemeSelection,
    /// Roles and words are dealt.
    GameStart,
}

/// What a player was dealt.
#[derive(Debug)]
pub struct PlayerStatus {
    pub is_wolf: bool,
    pub word: String,
}

impl Clone for PlayerStatus {
    fn clone(&self) -> (s: PlayerStatus)
        ensures
            s == *self,
    {
        PlayerStatus { is_wolf: self.is_wolf, word: self.word.clone() }
    }
}

/// The keyword of one player.
#[derive(Debug)]
pub struct Submission {
    pub player_id: String,
    pub keyword: String,
}

/// The deal of one player.
#[derive(Debug)]
pub struct Assignment {
    pub player_id: String,
    pub status: PlayerStatus,
}

/// A chat game.
#[derive(Debug)]
pub struct WordWolfGame {
    pub phase: GamePhase,
    /// The theme the keywords are to be taken from.
    pub theme: String,
    /// The keywords submitted, one for each player, in the order in
    /// which they were submitted.
    pub submitted_keywords: Vec<Submission>,
    /// What the players were dealt, in the order of their submissions.
    pub assignments: Vec<Assignment>,
    /// The number of players who are to submit.
    pub expected_players: usize,
}

/// The themes a chat game can have.
pub open spec fn themes() -> Seq<Seq<char>> {
    seq![
        "フルーツ"@,
        "スポーツ"@,
        "都道府県"@,
        "お菓子"@,
        "ジュース"@,
        "麺類"@,
        "料理"@,
        "文房具"@,
        "家具"@,
        "色"@,
        "麺類"@,
        "乗り物"@,
    ]
}

/// The theme that the draw `draw` selects.
pub fn theme_at(draw: usize) -> (theme: String)
    ensures
        theme@ == themes()[(draw % 12) as int],
{
    let k = draw % 12;
    if k == 0 {
        "フルーツ".to_string()
    } else if k == 1 {
        "スポーツ".to_string()
    } else if k == 2 {
        "都道府県".to_string()
    } else if k == 3 {
        "お菓子".to_string()
    } else if k == 4 {
        "ジュース".to_string()
    } else if k == 5 {
        "麺類".to_string()
    } else if k == 6 {
        "料理".to_string()
    } else if k == 7 {
        "文房具".to_string()
    } else if k == 8 {
        "家具".to_string()
    } else if k == 9 {
        "色".to_string()
    } else if k == 10 {
        "麺類".to_string()
    } else {
        "乗り物".to_string()
    }
}

/// Whether `player_id` has a keyword in `entries`.
pub open spec fn has_keyword(entries: Seq<Submission>, player_id: Seq<char>) -> bool {
    exists|k: int| 0 <= k < entries.len() && (#[trigger] entries[k]).player_id@ == player_id
}

/// The keywords of `entries`, in their order.
pub open spec fn keywords_of(entries: Seq<Submission>) -> Seq<Seq<char>> {
    entries.map_values(|e: Submission| e.keyword@)
}

/// The announcement of a new game for `players` players on `theme`.
pub open spec fn opening_text(players: nat, theme: Seq<char>) -> Seq<char> {
    "【システム】ゲーム開始！(参加予定: "@ + decimal_digits(players) + "人) お題は「"@ + theme
        + "」です。関連ワードを入力してください。"@
}

/// The acknowledgement of a keyword when `count` of `expected` players
/// have submitted.
pub open spec fn accepted_text(count: nat, expected: nat) -> Seq<char> {
    "【システム】キーワードを受け付けました。（現在 "@ + decimal_digits(count) + "/"@
        + decimal_digits(expected) + " 人）"@
}

/// The whisper that tells a player their role and word.
pub open spec fn secret_text(is_wolf: bool, word: Seq<char>) -> Seq<char> {
    "【秘密の通知】あなたの役職は「"@ + (if is_wolf {
        "ウルフ"@
    } else {
        "市民"@
    }) + "」、ワードは「"@ + word + "」です。"@
}

/// Whether `dealt` is the deal of `entries` in which the player at
/// `wolf_position` is the wolf and holds the second of `words` while
/// everybody else holds the first.
pub open spec fn dealt_from(
    entries: Seq<Submission>,
    dealt: Seq<Assignment>,
    wolf_position: int,
    words: (Seq<char>, Seq<char>),
) -> bool {
    &&& dealt.len() == entries.len()
    &&& forall|k: int|
        0 <= k < entries.len() ==> {
            &&& (#[trigger] dealt[k]).player_id@ == entries[k].player_id@
            &&& dealt[k].status.is_wolf == (k == wolf_position)
            &&& dealt[k].status.word@ == (if k == wolf_position {
                words.1
            } else {
                words.0
            })
        }
}

/// The number of wolves in `dealt`.
pub open spec fn wolves_in(dealt: Seq<Assignment>) -> nat
    decreases dealt.len(),
{
    if dealt.len() == 0 {
        0
    } else {
        wolves_in(dealt.drop_last()) + if dealt.last().status.is_wolf {
            1nat
        } else {
            0nat
        }
    }
}

/// A deal has exactly one wolf.
pub proof fn one_wolf_is_dealt(
    entries: Seq<Submission>,
    dealt: Seq<Assignment>,
    wolf_position: int,
    words: (Seq<char>, Seq<char>),
)
    requires
        dealt_from(entries, dealt, wolf_position, words),
        0 <= wolf_position < entries.len(),
    ensures
        wolves_in(dealt) == 1,
{
    wolves_up_to(dealt, wolf_position, dealt.len() as int);
    assert(dealt.take(dealt.len() as int) == dealt);
}

proof fn wolves_up_to(dealt: Seq<Assignment>, wolf_position: int, n: int)
    requires
        0 <= n <= dealt.len(),
        forall|k: int| 0 <= k < dealt.len() ==> (#[trigger] dealt[k]).status.is_wolf == (k
            == wolf_position),
    ensures
        wolves_in(dealt.take(n)) == (if 0 <= wolf_position < n {
            1nat
        } else {
            0nat
        }),
    decreases n,
{
    if n > 0 {
        wolves_up_to(dealt, wolf_position, n - 1);
        assert(dealt.take(n).drop_last() == dealt.take(n - 1));
        assert(dealt.take(n).last() == dealt[n - 1]);
    }
}

impl WordWolfGame {
    /// What holds of a game between two commands: every player has at
    /// most one keyword and at most one deal.
    pub open spec fn wf(&self) -> bool {
        &&& forall|k: int, l: int|
            0 <= k < l < self.submitted_keywords@.len() ==> (
            #[trigger] self.submitted_keywords@[k]).player_id@ != (
            #[trigger] self.submitted_keywords@[l]).player_id@
        &&& forall|k: int, l: int|
            0 <= k < l < self.assignments@.len() ==> (#[trigger] self.assignments@[k]).player_id@
                != (#[trigger] self.assignments@[l]).player_id@
    }

    /// A game that waits to be started.
    pub fn new() -> (g: Self)
        ensures
            g.wf(),
            g.phase == GamePhase::Waiting,
            g.theme@.len() == 0,
            g.submitted_keywords@.len() == 0,
            g.assignments@.len() == 0,
            g.expected_players == 0,
    {
        WordWolfGame {
            phase: GamePhase::Waiting,
            theme: String::new(),
            submitted_keywords: Vec::new(),
            assignments: Vec::new(),
            expected_players: 0,
        }
    }

    /// Starts a game for `players` players on the theme that `draw`
    /// selects, and returns the announcement.  Keywords and deals of an
    /// earlier game are forgotten.
    pub fn start_theme_phase_with(&mut self, players: usize, draw: usize) -> (message: String)
        ensures
            final(self).wf(),
            final(self).phase == GamePhase::ThemeSelection,
            final(self).theme@ == themes()[(draw % 12) as int],
            final(self).submitted_keywords@.len() == 0,
            final(self).assignments@.len() == 0,
            final(self).expected_players == players,
            message@ == opening_text(players as nat, final(self).theme@),
    {
        self.theme = theme_at(draw);
        self.phase = GamePhase::ThemeSelection;
        self.submitted_keywords.clear();
        self.assignments.clear();
        self.expected_players = players;
        let mut message = String::from_str("【システム】ゲーム開始！(参加予定: ");
        message.append(decimal(players as u64).as_str());
        message.append("人) お題は「");
        message.append(self.theme.as_str());
        message.append("」です。関連ワードを入力してください。");
        message
    }

    /// Starts a game for `players` players on a theme drawn at random,
    /// and returns the announcement.  Keywords and deals of an earlier
    /// game are forgotten.
    pub fn start_theme_phase(&mut self, players: usize) -> (message: String)
        ensures
            final(self).wf(),
            final(self).phase == GamePhase::ThemeSelection,
            themes().contains(final(self).theme@),
            final(self).submitted_keywords@.len() == 0,
            final(self).assignments@.len() == 0,
            final(self).expected_players == players,
            message@ == opening_text(players as nat, final(self).theme@),
    {
        let draw = random_usize();
        let message = self.start_theme_phase_with(players, draw);
        assert(themes()[(draw % 12) as int] == self.theme@);
        message
    }

    fn find(&self, player_id: &String) -> (r: Option<usize>)
        ensures
            match r {
                Some(k) => k < self.submitted_keywords@.len() && self.submitted_keywords@[k as int].player_id@
                    == player_id@,
                None => !has_keyword(self.submitted_keywords@, player_id@),
            },
    {
        let mut k: usize = 0;
        while k < self.submitted_keywords.len()
            invariant
                k <= self.submitted_keywords.len(),
                forall|j: int|
                    0 <= j < k ==> (#[trigger] self.submitted_keywords@[j]).player_id@ != player_id@,
            decreases self.submitted_keywords.len() - k,
        {
            if self.submitted_keywords[k].player_id == *player_id {
                return Some(k);
            }
            k = k + 1;
        }
        None
    }

    /// Takes the keyword of a player, without the white space around
    /// it, and returns the acknowledgement.  Keywords are taken only
    /// while they are collected, and only one from each player: the
    /// first one stays.
    pub fn submit_keyword(&mut self, player_id: String, keyword: String) -> (r: Result<
        String,
        GameError,
    >)
        requires
            old(self).wf(),
        ensures
            final(self).wf(),
            r is Ok == submission_verdict(old(self), player_id@) is Ok,
            r is Err ==> r->Err_0 == submission_verdict(old(self), player_id@)->Err_0 && *final(self) == *old(self),
            r is Ok ==> {
                &&& final(self).submitted_keywords@.len() == old(self).submitted_keywords@.len()
                    + 1
                &&& final(self).submitted_keywords@.drop_last() == old(self).submitted_keywords@
                &&& final(self).submitted_keywords@.last().player_id == player_id
                &&& final(self).submitted_keywords@.last().keyword@ == trimmed(keyword@)
                &&& *final(self) == (WordWolfGame {
                    submitted_keywords: final(self).submitted_keywords,
                    ..*old(self)
                })
                &&& r->Ok_0@ == accepted_text(
                    final(self).submitted_keywords@.len(),
                    old(self).expected_players as nat,
                )
            },
    {
        if self.phase != GamePhase::ThemeSelection {
            return Err(GameError::InvalidPhase);
        }
        if self.find(&player_id).is_some() {
            return Err(GameError::DuplicateSubmission);
        }
        let word = trim(keyword.as_str());
        self.submitted_keywords.push(Submission { player_id, keyword: word });
        assert(self.submitted_keywords@.drop_last() == old(self).submitted_keywords@);
        let mut message = String::from_str("【システム】キーワードを受け付けました。（現在 ");
        message.append(decimal(self.submitted_keywords.len() as u64).as_str());
        message.append("/");
        message.append(decimal(self.expected_players as u64).as_str());
        message.append(" 人）");
        Ok(message)
    }

    /// The text that tells a player why their keyword was not taken.
    pub fn refusal_text(error: GameError) -> (s: String)
        ensures
            s@ == (match error {
                GameError::DuplicateSubmission => "【エラー】キーワードは既に入力済みです。変更できません。"@,
                GameError::InsufficientKeywords => "【エラー】異なるキーワードが2つ以上必要です。"@,
                _ => "【システム】現在はキーワード入力期間ではありません。"@,
            }),
    {
        match error {
            GameError::DuplicateSubmission => String::from_str(
                "【エラー】キーワードは既に入力済みです。変更できません。",
            ),
            GameError::InsufficientKeywords => String::from_str(
                "【エラー】異なるキーワードが2つ以上必要です。",
            ),
            _ => String::from_str("【システム】現在はキーワード入力期間ではありません。"),
        }
    }

    /// Whether every expected player has submitted and there are at
    /// least two of them.
    pub fn check_ready_to_distribute(&self) -> (b: bool)
        ensures
            b == (self.submitted_keywords@.len() >= self.expected_players && self.expected_players
                >= 2),
    {
        self.submitted_keywords.len() >= self.expected_players && self.expected_players >= 2
    }

    /// The keywords submitted, in the order of the submissions.
    pub fn words(&self) -> (words: Vec<String>)
        ensures
            texts(words@) == keywords_of(self.submitted_keywords@),
    {
        let mut words: Vec<String> = Vec::new();
        let mut i: usize = 0;
        while i < self.submitted_keywords.len()
            invariant
                i <= self.submitted_keywords.len(),
                texts(words@) == keywords_of(self.submitted_keywords@.take(i as int)),
            decreases self.submitted_keywords.len() - i,
        {
            let ghost before = words@;
            words.push(self.submitted_keywords[i].keyword.clone());
            proof {
                let entries = self.submitted_keywords@;
                assert(entries.take(i + 1) == entries.take(i as int).push(entries[i as int]));
                assert(texts(words@) == texts(before).push(entries[i as int].keyword@));
                assert(keywords_of(entries.take(i + 1)) == keywords_of(entries.take(i as int)).push(
                    entries[i as int].keyword@,
                ));
            }
            i = i + 1;
        }
        assert(self.submitted_keywords@.take(self.submitted_keywords.len() as int)
            == self.submitted_keywords@);
        words
    }

    /// Deals roles and words as drawn: of the different keywords, the
    /// one at `first` goes to the citizens and the one at `second` to
    /// the wolf, who is the player at `wolf_position` in the order of
    /// the submissions.
    pub fn distribute_roles_with(&mut self, first: usize, second: usize, wolf_position: usize)
        requires
            old(self).wf(),
            old(self).phase == GamePhase::ThemeSelection,
            first != second,
            first < distinct_words(keywords_of(old(self).submitted_keywords@)).len(),
            second < distinct_words(keywords_of(old(self).submitted_keywords@)).len(),
            wolf_position < old(self).submitted_keywords@.len(),
        ensures
            final(self).wf(),
            dealt_from(
                old(self).submitted_keywords@,
                final(self).assignments@,
                wolf_position as int,
                (
                    distinct_words(keywords_of(old(self).submitted_keywords@))[first as int],
                    distinct_words(keywords_of(old(self).submitted_keywords@))[second as int],
                ),
            ),
            wolves_in(final(self).assignments@) == 1,
            *final(self) == (WordWolfGame {
                phase: GamePhase::GameStart,
                assignments: final(self).assignments,
                ..*old(self)
            }),
    {
        let words = self.words();
        let (citizen_word, wolf_word) = pick_two(&words, first, second);
        let mut dealt: Vec<Assignment> = Vec::new();
        let n = self.submitted_keywords.len();
        let mut k: usize = 0;
        while k < n
            invariant
                k <= n,
                n == self.submitted_keywords@.len(),
                wolf_position < n,
                dealt_from(
                    self.submitted_keywords@.take(k as int),
                    dealt@,
                    wolf_position as int,
                    (citizen_word@, wolf_word@),
                ),
            decreases n - k,
        {
            let is_wolf = k == wolf_position;
            let word = if is_wolf {
                wolf_word.clone()
            } else {
                citizen_word.clone()
            };
            dealt.push(
                Assignment {
                    player_id: self.submitted_keywords[k].player_id.clone(),
                    status: PlayerStatus { is_wolf, word },
                },
            );
            k = k + 1;
        }
        assert(self.submitted_keywords@.take(n as int) == self.submitted_keywords@);
        proof {
            one_wolf_is_dealt(
                self.submitted_keywords@,
                dealt@,
                wolf_position as int,
                (citizen_word@, wolf_word@),
            );
        }
        self.assignments = dealt;
        self.phase = GamePhase::GameStart;
    }

    /// Deals roles and words at random: two different keywords are
    /// drawn, one for the citizens and one for the wolf, and one of the
    /// players who submitted is made the wolf.  Fails, and leaves the
    /// game as it is, when keywords are not being collected or fewer
    /// than two different keywords were submitted.
    pub fn distribute_roles(&mut self) -> (r: Result<(), GameError>)
        requires
            old(self).wf(),
        ensures
            final(self).wf(),
            r == (if old(self).phase != GamePhase::ThemeSelection {
                Err::<(), GameError>(GameError::InvalidPhase)
            } else if distinct_words(keywords_of(old(self).submitted_keywords@)).len() < 2 {
                Err(GameError::InsufficientKeywords)
            } else {
                Ok(())
            }),
            r is Err ==> *final(self) == *old(self),
            r is Ok ==> {
                &&& exists|wolf_position: int, words: (Seq<char>, Seq<char>)| #[trigger]
                    dealt_from(
                        old(self).submitted_keywords@,
                        final(self).assignments@,
                        wolf_position,
                        words,
                    ) && 0 <= wolf_position < old(self).submitted_keywords@.len() && drawn_from(
                        keywords_of(old(self).submitted_keywords@),
                        words,
                    )
                &&& wolves_in(final(self).assignments@) == 1
                &&& *final(self) == (WordWolfGame {
                    phase: GamePhase::GameStart,
                    assignments: final(self).assignments,
                    ..*old(self)
                })
            },
    {
        if self.phase != GamePhase::ThemeSelection {
            return Err(GameError::InvalidPhase);
        }
        let words = self.words();
        let different = distinct(&words);
        if different.len() < 2 {
            return Err(GameError::InsufficientKeywords);
        }
        proof {
            crate::draw::distinct_words_are_the_words(keywords_of(self.submitted_keywords@));
        }
        let picked = sample_indices(different.len(), 2);
        assert(picked@[0] != picked@[1]);
        let wolf_position = random_usize() % self.submitted_keywords.len();
        self.distribute_roles_with(picked[0], picked[1], wolf_position);
        proof {
            let d = distinct_words(keywords_of(old(self).submitted_keywords@));
            let pair = (d[picked@[0] as int], d[picked@[1] as int]);
            assert(d.contains(pair.0) && d.contains(pair.1));
            assert(dealt_from(
                old(self).submitted_keywords@,
                self.assignments@,
                wolf_position as int,
                pair,
            ));
        }
        Ok(())
    }

    /// The whisper for a player: their role and word, once dealt.
    pub fn get_secret_message(&self, player_id: &str) -> (message: Option<String>)
        ensures
            message is Some == exists|k: int|
                0 <= k < self.assignments@.len() && (#[trigger] self.assignments@[k]).player_id@
                    == player_id@,
            message is Some ==> exists|k: int|
                0 <= k < self.assignments@.len() && (#[trigger] self.assignments@[k]).player_id@
                    == player_id@ && message->Some_0@ == secret_text(
                    self.assignments@[k].status.is_wolf,
                    self.assignments@[k].status.word@,
                ),
    {
        let mut k: usize = 0;
        while k < self.assignments.len()
            invariant
                k <= self.assignments.len(),
                forall|j: int|
                    0 <= j < k ==> (#[trigger] self.assignments@[j]).player_id@ != player_id@,
            decreases self.assignments.len() - k,
        {
            if crate::text::text_eq(self.assignments[k].player_id.as_str(), player_id) {
                let status = &self.assignments[k].status;
                let mut message = String::from_str("【秘密の通知】あなたの役職は「");
                if status.is_wolf {
                    message.append("ウルフ");
                } else {
                    message.append("市民");
                }
                message.append("」、ワードは「");
                message.append(status.word.as_str());
                message.append("」です。");
                return Some(message);
            }
            k = k + 1;
        }
        None
    }
}

/// Under this policy the first keyword of a player counts: a player who
/// has a keyword is turned away, whatever they submit.
pub proof fn first_keyword_stays(game: WordWolfGame, player_id: Seq<char>)
    requires
        game.phase == GamePhase::ThemeSelection,
        has_keyword(game.submitted_keywords@, player_id),
    ensures
        submission_verdict(&game, player_id) == Err::<(), GameError>(
            GameError::DuplicateSubmission,
        ),
{
}

/// Whether the game takes a keyword of the player `player_id`.
pub open spec fn submission_verdict(game: &WordWolfGame, player_id: Seq<char>) -> Result<
    (),
    GameError,
> {
    if game.phase != GamePhase::ThemeSelection {
        Err(GameError::InvalidPhase)
    } else if has_keyword(game.submitted_keywords@, player_id) {
        Err(GameError::DuplicateSubmission)
    } else {
        Ok(())
    }
}

impl Default for WordWolfGame {
    fn default() -> (g: Self)
        ensures
            g.wf(),
            g.phase == GamePhase::Waiting,
    {
        WordWolfGame::new()
    }
}

/// A message for one player alone.
#[derive(Debug, PartialEq, Eq)]
pub struct Whisper {
    pub player_id: String,
    pub message: String,
}

/// What is to be sent after a message of a player was handled.
#[derive(Debug, PartialEq, Eq)]
pub struct SendOutcome {
    /// For everybody.
    pub broadcast: Option<String>,
    /// For the player who sent the message.
    pub reply: Option<String>,
    /// For single players: their role and word.
    pub whispers: Vec<Whisper>,
}

/// Whether a message is the command that starts a game: it begins with
/// `start`.
pub open spec fn is_start(message: Seq<char>) -> bool {
    message.len() >= 5 && message.take(5) == "start"@
}

/// The number of players that a start command asks for: the number in
/// its second word, or two if there is none.
pub open spec fn players_asked(message: Seq<char>) -> usize {
    match first_word(after_first_word(message)) {
        Some(word) => match number_of(word) {
            Some(n) => if n <= usize::MAX {
                n as usize
            } else {
                2
            },
            None => 2,
        },
        None => 2,
    }
}

/// The notice that somebody has submitted a keyword.
pub open spec fn progress_text(count: nat, expected: nat) -> Seq<char> {
    "誰かがキーワードを入力しました（現在 "@ + decimal_digits(count) + "/"@ + decimal_digits(
        expected,
    ) + " 人）"@
}

/// The whispers for a deal: to every player their role and word, in the
/// order of the deal.
pub open spec fn whispers_for(dealt: Seq<Assignment>, whispers: Seq<Whisper>) -> bool {
    &&& whispers.len() == dealt.len()
    &&& forall|k: int|
        0 <= k < dealt.len() ==> (#[trigger] whispers[k]).player_id@ == dealt[k].player_id@
            && whispers[k].message@ == secret_text(dealt[k].status.is_wolf, dealt[k].status.word@)
}

fn starts(chars: &Vec<char>) -> (b: bool)
    ensures
        b == is_start(chars@),
{
    if chars.len() < 5 {
        return false;
    }
    proof {
        reveal_strlit("start");
        let head = chars@.take(5);
        assert(head[0] == chars@[0] && head[1] == chars@[1] && head[2] == chars@[2] && head[3]
            == chars@[3] && head[4] == chars@[4]);
        if chars@[0] == 's' && chars@[1] == 't' && chars@[2] == 'a' && chars@[3] == 'r'
            && chars@[4] == 't' {
            assert(head =~= "start"@);
        }
    }
    chars[0] == 's' && chars[1] == 't' && chars[2] == 'a' && chars[3] == 'r' && chars[4] == 't'
}

fn asked(chars: &Vec<char>) -> (n: usize)
    ensures
        n == players_asked(chars@),
{
    assert(chars@.skip(0) == chars@);
    let first_end = match next_word(chars, 0) {
        Some((_, end)) => end,
        None => {
            proof {
                // Without a first word there is no second.
                assert(crate::text::strip_front(chars@).len() == 0);
                assert(after_first_word(chars@) == Seq::<char>::empty());
            }
            return 2;
        },
    };
    match next_word(chars, first_end) {
        Some((begin, end)) => {
            let word = piece_text(chars, begin, end);
            match parse_number(word.as_str()) {
                Some(n) => if n <= usize::MAX as u64 {
                    n as usize
                } else {
                    2
                },
                None => 2,
            }
        },
        None => 2,
    }
}

impl WordWolfGame {
    /// The whispers that tell every player their role and word.
    pub fn whispers(&self) -> (whispers: Vec<Whisper>)
        ensures
            whispers_for(self.assignments@, whispers@),
    {
        let mut whispers: Vec<Whisper> = Vec::new();
        let mut k: usize = 0;
        while k < self.assignments.len()
            invariant
                k <= self.assignments.len(),
                whispers_for(self.assignments@.take(k as int), whispers@),
            decreases self.assignments.len() - k,
        {
            let status = &self.assignments[k].status;
            let mut message = String::from_str("【秘密の通知】あなたの役職は「");
            if status.is_wolf {
                message.append("ウルフ");
            } else {
                message.append("市民");
            }
            message.append("」、ワードは「");
            message.append(status.word.as_str());
            message.append("」です。");
            whispers.push(Whisper { player_id: self.assignments[k].player_id.clone(), message });
            k = k + 1;
        }
        assert(self.assignments@.take(self.assignments.len() as int) == self.assignments@);
        whispers
    }

    /// Handles a message that a player has typed into the chat.
    ///
    /// A message that begins with `start` starts a game for as many
    /// players as it says.  While keywords are collected, every other
    /// message is the keyword of its sender; when the last keyword is
    /// in, roles and words are dealt and whispered.  At any other time
    /// a message is chat.
    pub fn handle_message(&mut self, client_id: String, message: &str) -> (outcome: SendOutcome)
        requires
            old(self).wf(),
        ensures
            final(self).wf(),
            is_start(message@) ==> {
                &&& final(self).phase == GamePhase::ThemeSelection
                &&& themes().contains(final(self).theme@)
                &&& final(self).submitted_keywords@.len() == 0
                &&& final(self).assignments@.len() == 0
                &&& final(self).expected_players == players_asked(message@)
                &&& outcome.broadcast is Some && outcome.broadcast->Some_0@ == opening_text(
                    players_asked(message@) as nat,
                    final(self).theme@,
                )
                &&& outcome.reply is None
                &&& outcome.whispers@.len() == 0
            },
            !is_start(message@) && old(self).phase != GamePhase::ThemeSelection ==> {
                &&& *final(self) == *old(self)
                &&& outcome.broadcast is Some && outcome.broadcast->Some_0@ == "User: "@ + message@
                &&& outcome.reply is None
                &&& outcome.whispers@.len() == 0
            },
            !is_start(message@) && old(self).phase == GamePhase::ThemeSelection && has_keyword(
                old(self).submitted_keywords@,
                client_id@,
            ) ==> {
                &&& *final(self) == *old(self)
                &&& outcome.broadcast is None
                &&& outcome.reply is Some && outcome.reply->Some_0@
                    == "【エラー】キーワードは既に入力済みです。変更できません。"@
                &&& outcome.whispers@.len() == 0
            },
            !is_start(message@) && old(self).phase == GamePhase::ThemeSelection && !has_keyword(
                old(self).submitted_keywords@,
                client_id@,
            ) ==> {
                let count = old(self).submitted_keywords@.len() + 1;
                let ready = count >= old(self).expected_players && old(self).expected_players >= 2;
                &&& final(self).submitted_keywords@.len() == count
                &&& final(self).submitted_keywords@.drop_last() == old(self).submitted_keywords@
                &&& final(self).submitted_keywords@.last().player_id == client_id
                &&& final(self).submitted_keywords@.last().keyword@ == trimmed(message@)
                &&& final(self).theme == old(self).theme
                &&& final(self).expected_players == old(self).expected_players
                &&& outcome.broadcast is Some && outcome.broadcast->Some_0@ == progress_text(
                    count as nat,
                    old(self).expected_players as nat,
                )
                &&& if ready && distinct_words(keywords_of(final(self).submitted_keywords@)).len()
                    >= 2 {
                    &&& final(self).phase == GamePhase::GameStart
                    &&& wolves_in(final(self).assignments@) == 1
                    &&& exists|wolf_position: int, words: (Seq<char>, Seq<char>)| #[trigger]
                        dealt_from(
                            final(self).submitted_keywords@,
                            final(self).assignments@,
                            wolf_position,
                            words,
                        ) && 0 <= wolf_position < count && drawn_from(
                            keywords_of(final(self).submitted_keywords@),
                            words,
                        )
                    &&& whispers_for(final(self).assignments@, outcome.whispers@)
                    &&& outcome.reply is None
                } else {
                    &&& final(self).phase == GamePhase::ThemeSelection
                    &&& final(self).assignments == old(self).assignments
                    &&& outcome.whispers@.len() == 0
                    &&& if ready {
                        outcome.reply is Some && outcome.reply->Some_0@
                            == "【エラー】異なるキーワードが2つ以上必要です。"@
                    } else {
                        outcome.reply is None
                    }
                }
            },
    {
        let chars = chars_of(message);
        if starts(&chars) {
            let players = asked(&chars);
            let announcement = self.start_theme_phase(players);
            return SendOutcome {
                broadcast: Some(announcement),
                reply: None,
                whispers: Vec::new(),
            };
        }
        if self.phase != GamePhase::ThemeSelection {
            let mut line = String::from_str("User: ");
            line.append(message);
            return SendOutcome { broadcast: Some(line), reply: None, whispers: Vec::new() };
        }
        match self.submit_keyword(client_id, message.to_string()) {
            Ok(_) => {
                let mut notice = String::from_str("誰かがキーワードを入力しました（現在 ");
                notice.append(decimal(self.submitted_keywords.len() as u64).as_str());
                notice.append("/");
                notice.append(decimal(self.expected_players as u64).as_str());
                notice.append(" 人）");
                if self.check_ready_to_distribute() {
                    match self.distribute_roles() {
                        Ok(()) => {
                            let whispers = self.whispers();
                            SendOutcome { broadcast: Some(notice), reply: None, whispers }
                        },
                        Err(e) => SendOutcome {
                            broadcast: Some(notice),
                            reply: Some(WordWolfGame::refusal_text(e)),
                            whispers: Vec::new(),
                        },
                    }
                } else {
                    SendOutcome { broadcast: Some(notice), reply: None, whispers: Vec::new() }
                }
            },
            Err(e) => SendOutcome {
                broadcast: None,
                reply: Some(WordWolfGame::refusal_text(e)),
                whispers: Vec::new(),
            },
        }
    }
}

} // verus!
