//! The commands of a game played with submitted keywords, and the ticks
//! of its two clocks.
//!
//! Every function here is one step of the game: it looks at the state,
//! decides, and leaves the state changed or not.  Whoever drives the
//! game (a request handler, a timer task) holds the lock on the state,
//! calls one of these, and tells the clients afterwards.

use crate::random::random_usize;
use crate::state::{distinct_players, joined, may_follow, GameState, Phase, Player};
use crate::topic::TopicManager;
use crate::types::GameError;
use vstd::prelude::*;

verus! {

/// What a command or a tick has done to the phase: left it, or moved
/// the game along an edge of the order of play.
pub open spec fn phase_step(before: Phase, after: Phase) -> bool {
    after == before || may_follow(before, after)
}

/// Whether the player with the id `wolf_id` has the second of `words`
/// as topic and every other player the first, each with `max_speak`
/// turns to speak, and nothing else about the players has changed.
pub open spec fn topics_dealt(
    before: Seq<Player>,
    after: Seq<Player>,
    wolf_id: u32,
    words: (String, String),
    max_speak: u32,
) -> bool {
    &&& after.len() == before.len()
    &&& forall|i: int|
        0 <= i < before.len() ==> #[trigger] after[i] == (Player {
            topic: Some(
                if before[i].id == wolf_id {
                    words.1
                } else {
                    words.0
                },
            ),
            remaining_speak: max_speak,
            ..before[i]
        })
}

/// Whether `after` is `before` with every vote taken back.
pub open spec fn votes_cleared(before: Seq<Player>, after: Seq<Player>) -> bool {
    &&& after.len() == before.len()
    &&& forall|i: int|
        0 <= i < before.len() ==> #[trigger] after[i] == (Player { vote: None, ..before[i] })
}

/// The number of `players` who have voted for `target`.
pub open spec fn votes_against(players: Seq<Player>, target: u32) -> nat
    decreases players.len(),
{
    if players.len() == 0 {
        0
    } else {
        votes_against(players.drop_last(), target) + if players.last().vote == Some(target) {
            1nat
        } else {
            0nat
        }
    }
}

/// Whether `executed` is the outcome of the votes of `players`: nobody
/// when nobody has voted; otherwise the player named most often, and
/// among several named equally often the one with the lowest id.
pub open spec fn outcome_of(players: Seq<Player>, executed: Option<u32>) -> bool {
    match executed {
        None => forall|i: int| 0 <= i < players.len() ==> (#[trigger] players[i]).vote is None,
        Some(e) => {
            &&& exists|i: int| 0 <= i < players.len() && (#[trigger] players[i]).vote == Some(e)
            &&& forall|i: int|
                0 <= i < players.len() && (#[trigger] players[i]).vote is Some ==> {
                    let t = players[i].vote->Some_0;
                    votes_against(players, t) < votes_against(players, e) || (votes_against(
                        players,
                        t,
                    ) == votes_against(players, e) && e <= t)
                }
        },
    }
}

/// The votes have one outcome.
pub proof fn outcome_is_unique(players: Seq<Player>, a: Option<u32>, b: Option<u32>)
    requires
        outcome_of(players, a),
        outcome_of(players, b),
    ensures
        a == b,
{
    if a is Some && b is Some {
        let i = choose|i: int| 0 <= i < players.len() && (#[trigger] players[i]).vote == a;
        let j = choose|j: int| 0 <= j < players.len() && (#[trigger] players[j]).vote == b;
        assert(players[i].vote is Some && players[j].vote is Some);
    } else if a is Some {
        let i = choose|i: int| 0 <= i < players.len() && (#[trigger] players[i]).vote == a;
        assert(players[i].vote is None);
    } else if b is Some {
        let j = choose|j: int| 0 <= j < players.len() && (#[trigger] players[j]).vote == b;
        assert(players[j].vote is None);
    }
}

/// What holds of a game between two commands: no two players share an
/// id, every vote names a player, and from the discussion on the wolf
/// is one of the players.
pub open spec fn sound(game: &GameState) -> bool {
    &&& distinct_players(game.players@)
    &&& forall|i: int|
        0 <= i < game.players@.len() && (#[trigger] game.players@[i]).vote is Some ==> joined(
            game.players@,
            game.players@[i].vote->Some_0,
        )
    &&& game.phase.stage() >= 2 ==> game.wolf_id is Some && joined(
        game.players@,
        game.wolf_id->Some_0,
    )
}

/// From the discussion on exactly one player is the wolf.
pub proof fn one_wolf(game: GameState)
    requires
        sound(&game),
        game.phase.stage() >= 2,
    ensures
        game.wolf_id is Some,
        exists|i: int|
            0 <= i < game.players@.len() && (#[trigger] game.players@[i]).id == game.wolf_id->Some_0,
        forall|i: int, j: int|
            0 <= i < game.players@.len() && 0 <= j < game.players@.len() && (
            #[trigger] game.players@[i]).id == game.wolf_id->Some_0 && (
            #[trigger] game.players@[j]).id == game.wolf_id->Some_0 ==> i == j,
{
}

/// Whether `after` is `before` with `player` taken in: in the place of
/// the player with the same id if there is one, at the end otherwise.
pub open spec fn player_put(before: Seq<Player>, after: Seq<Player>, player: Player) -> bool {
    if joined(before, player.id) {
        exists|i: int|
            0 <= i < before.len() && (#[trigger] before[i]).id == player.id && after
                == before.update(i, player)
    } else {
        after == before.push(player)
    }
}

/// Takes the player with the id `id` into the game, with all turns to
/// speak, no vote and no topic.
pub fn put_player(game: &mut GameState, id: u32)
    requires
        sound(old(game)),
        old(game).phase == Phase::Waiting,
    ensures
        sound(final(game)),
        player_put(
            old(game).players@,
            final(game).players@,
            Player { id, remaining_speak: old(game).max_speak, vote: None, topic: None },
        ),
        *final(game) == (GameState { players: final(game).players, ..*old(game) }),
{
    let player = Player { id, remaining_speak: game.max_speak, vote: None, topic: None };
    let ghost before = game.players@;
    let found = game.find(id);
    match found {
        Some(i) => {
            game.players.set(i, player);
        },
        None => {
            game.players.push(player);
        },
    }
    proof {
        // Every place keeps its id, so whoever had joined still has.
        assert forall|t: u32| joined(before, t) implies joined(game.players@, t) by {
            let j = choose|j: int| 0 <= j < before.len() && (#[trigger] before[j]).id == t;
            assert(game.players@[j].id == t);
        }
        if found is None {
            assert forall|i: int|
                0 <= i < game.players@.len() && (#[trigger] game.players@[i]).vote is Some implies joined(
                game.players@,
                game.players@[i].vote->Some_0,
            ) by {
                assert(game.players@[i] == before[i]);
            }
        }
    }
}

/// Takes a new player into the game and returns the id given to them:
/// the number of players so far plus one.  A full game takes nobody,
/// and nobody joins once the game has left the waiting phase.
pub fn join(game: &mut GameState) -> (r: Result<u32, GameError>)
    requires
        sound(old(game)),
    ensures
        sound(final(game)),
        phase_step(old(game).phase, final(game).phase),
        r == (if old(game).players@.len() >= old(game).max_players {
            Err::<u32, GameError>(GameError::RoomFull)
        } else if old(game).phase != Phase::Waiting {
            Err(GameError::InvalidPhase)
        } else {
            Ok((old(game).players@.len() + 1) as u32)
        }),
        r is Err ==> *final(game) == *old(game),
        r is Ok ==> player_put(
            old(game).players@,
            final(game).players@,
            Player { id: r->Ok_0, remaining_speak: old(game).max_speak, vote: None, topic: None },
        ) && *final(game) == (GameState { players: final(game).players, ..*old(game) }),
{
    if game.players.len() >= game.max_players as usize {
        return Err(GameError::RoomFull);
    }
    if game.phase != Phase::Waiting {
        return Err(GameError::InvalidPhase);
    }
    let id = (game.players.len() + 1) as u32;
    put_player(game, id);
    Ok(id)
}

/// Opens the submission of keywords in the genre that `draw` selects.
/// At least two players must be waiting.  The game gets a new id.
pub fn start_with(game: &mut GameState, topic_mgr: &mut TopicManager, draw: usize) -> (started: bool)
    requires
        sound(old(game)),
    ensures
        sound(final(game)),
        phase_step(old(game).phase, final(game).phase),
        started == (old(game).phase == Phase::Waiting && old(game).players@.len() >= 2),
        !started ==> *final(game) == *old(game) && *final(topic_mgr) == *old(topic_mgr),
        started ==> {
            &&& *final(game) == (GameState {
                phase: Phase::ThemeSelection,
                genre: final(game).genre,
                game_id: next_game_id(old(game).game_id),
                ..*old(game)
            })
            &&& final(game).genre@ == crate::topic::genres()[(draw % 11) as int]
            &&& final(topic_mgr).wf()
            &&& final(topic_mgr).theme() == final(game).genre@
            &&& final(topic_mgr).submissions().len() == 0
            &&& final(topic_mgr).expected() == old(game).players@.len()
            &&& final(topic_mgr).drawn() is None
        },
{
    if game.phase != Phase::Waiting || game.players.len() < 2 {
        return false;
    }
    game.genre = topic_mgr.start_theme_phase_with(game.players.len(), draw);
    game.phase = Phase::ThemeSelection;
    game.game_id = game.game_id.wrapping_add(1);
    true
}

/// Opens the submission of keywords in a genre drawn at random.  At
/// least two players must be waiting.  The game gets a new id.
pub fn start(game: &mut GameState, topic_mgr: &mut TopicManager) -> (started: bool)
    requires
        sound(old(game)),
    ensures
        sound(final(game)),
        phase_step(old(game).phase, final(game).phase),
        started == (old(game).phase == Phase::Waiting && old(game).players@.len() >= 2),
        !started ==> *final(game) == *old(game) && *final(topic_mgr) == *old(topic_mgr),
        started ==> {
            &&& *final(game) == (GameState {
                phase: Phase::ThemeSelection,
                genre: final(game).genre,
                game_id: next_game_id(old(game).game_id),
                ..*old(game)
            })
            &&& crate::topic::genres().contains(final(game).genre@)
            &&& final(topic_mgr).wf()
            &&& final(topic_mgr).theme() == final(game).genre@
            &&& final(topic_mgr).submissions().len() == 0
            &&& final(topic_mgr).expected() == old(game).players@.len()
            &&& final(topic_mgr).drawn() is None
        },
{
    let draw = random_usize();
    let started = start_with(game, topic_mgr, draw);
    proof {
        if started {
            assert(crate::topic::genres()[(draw % 11) as int] == game.genre@);
        }
    }
    started
}

/// The id of the game that follows the game with the id `game_id`.
pub open spec fn next_game_id(game_id: u64) -> u64 {
    if game_id == u64::MAX {
        0
    } else {
        (game_id + 1) as u64
    }
}

/// Begins the discussion: the player at the position that `draw`
/// selects is the wolf; the wolf gets the wolf's word and everybody
/// else the villagers' word; everybody gets all turns to speak; the
/// clocks are wound up.
pub fn begin_playing(game: &mut GameState, topic_mgr: &TopicManager, draw: usize)
    requires
        sound(old(game)),
        old(game).phase == Phase::ThemeSelection,
        old(game).players@.len() > 0,
        topic_mgr.drawn() is Some,
    ensures
        sound(final(game)),
        final(game).wolf_id == Some(
            old(game).players@[(draw as int) % (old(game).players@.len() as int)].id,
        ),
        topics_dealt(
            old(game).players@,
            final(game).players@,
            final(game).wolf_id->Some_0,
            topic_mgr.drawn()->Some_0,
            old(game).max_speak,
        ),
        *final(game) == (GameState {
            phase: Phase::Playing,
            players: final(game).players,
            wolf_id: final(game).wolf_id,
            remaining_time: old(game).discussion_secs,
            voting_time: old(game).voting_secs,
            ..*old(game)
        }),
{
    let n = game.players.len();
    let wolf = game.players[draw % n].id;
    game.wolf_id = Some(wolf);
    let max_speak = game.max_speak;
    let mut i: usize = 0;
    while i < n
        invariant
            i <= n,
            n == game.players@.len(),
            n == old(game).players@.len(),
            topic_mgr.drawn() is Some,
            topics_dealt(
                old(game).players@.take(i as int),
                game.players@.take(i as int),
                wolf,
                topic_mgr.drawn()->Some_0,
                max_speak,
            ),
            game.players@.skip(i as int) == old(game).players@.skip(i as int),
            *game == (GameState { players: game.players, wolf_id: Some(wolf), ..*old(game) }),
        decreases n - i,
    {
        let ghost before = game.players@;
        let id = game.players[i].id;
        assert(before[i as int] == old(game).players@[i as int]) by {
            assert(before.skip(i as int)[0] == old(game).players@.skip(i as int)[0]);
        }
        let word = topic_mgr.get_word_for_player(id, wolf);
        let vote = game.players[i].vote;
        game.players.set(i, Player { id, remaining_speak: max_speak, vote, topic: word });
        proof {
            let now = game.players@;
            assert(now.skip(i + 1) == old(game).players@.skip(i + 1)) by {
                assert forall|j: int| 0 <= j < now.skip(i + 1).len() implies (
                #[trigger] now.skip(i + 1)[j]) == old(game).players@.skip(i + 1)[j] by {
                    assert(before.skip(i as int)[j + 1] == old(game).players@.skip(i as int)[j + 1]);
                }
            }
            assert forall|j: int| 0 <= j < i + 1 implies #[trigger] now.take(i + 1)[j] == (Player {
                topic: Some(
                    if old(game).players@.take(i + 1)[j].id == wolf {
                        topic_mgr.drawn()->Some_0.1
                    } else {
                        topic_mgr.drawn()->Some_0.0
                    },
                ),
                remaining_speak: max_speak,
                ..old(game).players@.take(i + 1)[j]
            }) by {
                if j < i {
                    assert(now.take(i + 1)[j] == before.take(i as int)[j]);
                    assert(old(game).players@.take(i + 1)[j] == old(game).players@.take(i as int)[j]);
                }
            }
        }
        i = i + 1;
    }
    proof {
        assert(game.players@.take(n as int) == game.players@);
        assert(old(game).players@.take(n as int) == old(game).players@);
    }
    game.phase = Phase::Playing;
    game.remaining_time = game.discussion_secs;
    game.voting_time = game.voting_secs;
    proof {
        let before = old(game).players@;
        let after = game.players@;
        assert forall|t: u32| joined(before, t) implies joined(after, t) by {
            let j = choose|j: int| 0 <= j < before.len() && (#[trigger] before[j]).id == t;
            assert(after[j].id == t);
        }
        assert(before[(draw as int) % (n as int)].id == wolf);
        assert(joined(before, wolf));
        assert forall|i: int|
            0 <= i < after.len() && (#[trigger] after[i]).vote is Some implies joined(
            after,
            after[i].vote->Some_0,
        ) by {
            assert(before[i].vote == after[i].vote);
        }
    }
}

/// Takes the keyword of a player.  When that completes the submissions
/// and two different keywords can be drawn, the discussion begins with
/// a wolf drawn at random; the answer says whether it has begun.
///
/// Keywords are taken during the submission only, and from players
/// only.  A keyword that completes the submissions without there being
/// two different ones is kept, but the answer is `InsufficientKeywords`
/// and the submission goes on.
pub fn submit_keyword(
    game: &mut GameState,
    topic_mgr: &mut TopicManager,
    player_id: u32,
    keyword: String,
) -> (r: Result<bool, GameError>)
    requires
        sound(old(game)),
        old(topic_mgr).wf(),
    ensures
        sound(final(game)),
        final(topic_mgr).wf(),
        phase_step(old(game).phase, final(game).phase),
        old(game).phase != Phase::ThemeSelection ==> r == Err::<bool, GameError>(
            GameError::InvalidPhase,
        ) && *final(game) == *old(game) && *final(topic_mgr) == *old(topic_mgr),
        old(game).phase == Phase::ThemeSelection && !joined(old(game).players@, player_id) ==> r
            == Err::<bool, GameError>(GameError::NotFound) && *final(game) == *old(game) && *final(topic_mgr) == *old(topic_mgr),
        old(game).phase == Phase::ThemeSelection && joined(old(game).players@, player_id) ==> {
            &&& TopicManager::submitted(
                old(topic_mgr),
                final(topic_mgr),
                player_id,
                keyword@,
                match r {
                    Ok(_) => Ok(()),
                    Err(e) => Err(e),
                },
            )
            &&& r is Ok ==> r->Ok_0 == final(topic_mgr).drawn() is Some
            &&& r is Err ==> *final(game) == *old(game)
        },
        r == Ok::<bool, GameError>(false) ==> *final(game) == *old(game),
        r == Ok::<bool, GameError>(true) ==> {
            &&& final(game).phase == Phase::Playing
            &&& final(game).wolf_id is Some
            &&& joined(old(game).players@, final(game).wolf_id->Some_0)
            &&& topics_dealt(
                old(game).players@,
                final(game).players@,
                final(game).wolf_id->Some_0,
                final(topic_mgr).drawn()->Some_0,
                old(game).max_speak,
            )
            &&& *final(game) == (GameState {
                phase: Phase::Playing,
                players: final(game).players,
                wolf_id: final(game).wolf_id,
                remaining_time: old(game).discussion_secs,
                voting_time: old(game).voting_secs,
                ..*old(game)
            })
        },
{
    if game.phase != Phase::ThemeSelection {
        return Err(GameError::InvalidPhase);
    }
    if game.find(player_id).is_none() {
        return Err(GameError::NotFound);
    }
    match topic_mgr.submit_keyword(player_id, keyword) {
        Ok(()) => {},
        Err(e) => {
            return Err(e);
        },
    }
    if topic_mgr.all_submitted() {
        let draw = random_usize();
        begin_playing(game, topic_mgr, draw);
        proof {
            let n = old(game).players@.len() as int;
            let k = (draw as int) % n;
            assert(old(game).players@[k].id == game.wolf_id->Some_0);
        }
        Ok(true)
    } else {
        Ok(false)
    }
}

/// Uses up one of the player's turns to speak, if any is left.
pub fn speak(game: &mut GameState, player_id: u32) -> (r: Result<(), GameError>)
    requires
        sound(old(game)),
    ensures
        sound(final(game)),
        phase_step(old(game).phase, final(game).phase),
        r == (if old(game).phase != Phase::Playing {
            Err::<(), GameError>(GameError::InvalidPhase)
        } else if !joined(old(game).players@, player_id) {
            Err(GameError::NotFound)
        } else {
            Ok(())
        }),
        r is Err ==> *final(game) == *old(game),
        r is Ok ==> *final(game) == (GameState { players: final(game).players, ..*old(game) })
            && exists|i: int|
            0 <= i < old(game).players@.len() && (#[trigger] old(game).players@[i]).id == player_id
                && final(game).players@ == old(game).players@.update(
                i,
                Player {
                    remaining_speak: if old(game).players@[i].remaining_speak > 0 {
                        (old(game).players@[i].remaining_speak - 1) as u32
                    } else {
                        0
                    },
                    ..old(game).players@[i]
                },
            ),
{
    if game.phase != Phase::Playing {
        return Err(GameError::InvalidPhase);
    }
    let i = match game.find(player_id) {
        Some(i) => i,
        None => {
            return Err(GameError::NotFound);
        },
    };
    let ghost before = game.players@;
    let mut player = game.players[i].clone();
    if player.remaining_speak > 0 {
        player.remaining_speak = player.remaining_speak - 1;
    }
    game.players.set(i, player);
    proof {
        let after = game.players@;
        assert forall|t: u32| joined(before, t) implies joined(after, t) by {
            let j = choose|j: int| 0 <= j < before.len() && (#[trigger] before[j]).id == t;
            assert(after[j].id == t);
        }
        assert forall|k: int|
            0 <= k < after.len() && (#[trigger] after[k]).vote is Some implies joined(
            after,
            after[k].vote->Some_0,
        ) by {
            assert(before[k].vote == after[k].vote);
        }
    }
    Ok(())
}

/// Whether `after` is the game `before` as it enters the vote: every
/// vote is taken back and the clock of the vote is wound up.
pub open spec fn voting_entered(before: &GameState, after: &GameState) -> bool {
    &&& votes_cleared(before.players@, after.players@)
    &&& *after == (GameState {
        phase: Phase::Voting,
        players: after.players,
        voting_time: before.voting_secs,
        ..*before
    })
}

/// Moves the game from the discussion to the vote.
fn enter_voting(game: &mut GameState)
    requires
        sound(old(game)),
        old(game).phase == Phase::Playing,
    ensures
        sound(final(game)),
        voting_entered(old(game), final(game)),
{
    let n = game.players.len();
    let mut i: usize = 0;
    while i < n
        invariant
            i <= n,
            n == game.players@.len(),
            n == old(game).players@.len(),
            votes_cleared(old(game).players@.take(i as int), game.players@.take(i as int)),
            game.players@.skip(i as int) == old(game).players@.skip(i as int),
            *game == (GameState { players: game.players, ..*old(game) }),
        decreases n - i,
    {
        let ghost before = game.players@;
        let mut player = game.players[i].clone();
        assert(player == old(game).players@[i as int]) by {
            assert(before.skip(i as int)[0] == old(game).players@.skip(i as int)[0]);
        }
        player.vote = None;
        game.players.set(i, player);
        proof {
            let now = game.players@;
            assert(now.skip(i + 1) == old(game).players@.skip(i + 1)) by {
                assert forall|j: int| 0 <= j < now.skip(i + 1).len() implies (
                #[trigger] now.skip(i + 1)[j]) == old(game).players@.skip(i + 1)[j] by {
                    assert(before.skip(i as int)[j + 1] == old(game).players@.skip(i as int)[j + 1]);
                }
            }
            assert forall|j: int| 0 <= j < i + 1 implies #[trigger] now.take(i + 1)[j] == (Player {
                vote: None,
                ..old(game).players@.take(i + 1)[j]
            }) by {
                if j < i {
                    assert(now.take(i + 1)[j] == before.take(i as int)[j]);
                    assert(old(game).players@.take(i + 1)[j] == old(game).players@.take(i as int)[j]);
                }
            }
        }
        i = i + 1;
    }
    proof {
        assert(game.players@.take(n as int) == game.players@);
        assert(old(game).players@.take(n as int) == old(game).players@);
        let before = old(game).players@;
        let after = game.players@;
        assert forall|t: u32| joined(before, t) implies joined(after, t) by {
            let j = choose|j: int| 0 <= j < before.len() && (#[trigger] before[j]).id == t;
            assert(after[j].id == t);
        }
    }
    game.phase = Phase::Voting;
    game.voting_time = game.voting_secs;
}

/// Ends the discussion and opens the vote.
pub fn start_vote(game: &mut GameState) -> (r: Result<(), GameError>)
    requires
        sound(old(game)),
    ensures
        sound(final(game)),
        phase_step(old(game).phase, final(game).phase),
        r == (if old(game).phase == Phase::Playing {
            Ok::<(), GameError>(())
        } else {
            Err(GameError::InvalidPhase)
        }),
        r is Err ==> *final(game) == *old(game),
        r is Ok ==> voting_entered(old(game), final(game)),
{
    if game.phase != Phase::Playing {
        return Err(GameError::InvalidPhase);
    }
    enter_voting(game);
    Ok(())
}

proof fn votes_against_bounded(players: Seq<Player>, target: u32)
    ensures
        votes_against(players, target) <= players.len(),
    decreases players.len(),
{
    if players.len() > 0 {
        votes_against_bounded(players.drop_last(), target);
    }
}

fn count_votes_against(players: &Vec<Player>, target: u32) -> (n: usize)
    ensures
        n == votes_against(players@, target),
{
    let mut n: usize = 0;
    let mut i: usize = 0;
    while i < players.len()
        invariant
            i <= players.len(),
            n <= i,
            n == votes_against(players@.take(i as int), target),
        decreases players.len() - i,
    {
        proof {
            assert(players@.take(i + 1).drop_last() == players@.take(i as int));
            assert(players@.take(i + 1).last() == players@[i as int]);
        }
        match players[i].vote {
            Some(t) => {
                if t == target {
                    n = n + 1;
                }
            },
            None => {},
        }
        i = i + 1;
    }
    assert(players@.take(players.len() as int) == players@);
    n
}

/// The outcome of the votes: the player named most often, and among
/// several named equally often the one with the lowest id; nobody when
/// nobody has voted.
pub fn count_outcome(players: &Vec<Player>) -> (executed: Option<u32>)
    ensures
        outcome_of(players@, executed),
{
    let mut best: Option<(u32, usize)> = None;
    let mut i: usize = 0;
    while i < players.len()
        invariant
            i <= players.len(),
            match best {
                None => forall|j: int| 0 <= j < i ==> (#[trigger] players@[j]).vote is None,
                Some((e, c)) => {
                    &&& c == votes_against(players@, e)
                    &&& exists|j: int| 0 <= j < i && (#[trigger] players@[j]).vote == Some(e)
                    &&& forall|j: int|
                        0 <= j < i && (#[trigger] players@[j]).vote is Some ==> {
                            let t = players@[j].vote->Some_0;
                            votes_against(players@, t) < c || (votes_against(players@, t) == c && e
                                <= t)
                        }
                },
            },
        decreases players.len() - i,
    {
        match players[i].vote {
            Some(t) => {
                let count = count_votes_against(players, t);
                match best {
                    None => {
                        best = Some((t, count));
                    },
                    Some((e, c)) => {
                        if count > c || (count == c && t < e) {
                            best = Some((t, count));
                        }
                    },
                }
            },
            None => {},
        }
        i = i + 1;
    }
    match best {
        Some((e, _)) => Some(e),
        None => None,
    }
}

/// Whether `after` is the game `before` with the votes counted: the
/// player voted out is named, the villagers have won exactly if that
/// player is the wolf, and the result is shown.  Without votes, or
/// without a wolf, nobody has won.
pub open spec fn judged(before: &GameState, after: &GameState) -> bool {
    &&& outcome_of(before.players@, after.executed_id)
    &&& after.is_villager_win == (match (after.executed_id, before.wolf_id) {
        (Some(e), Some(w)) => Some(e == w),
        _ => None,
    })
    &&& *after == (GameState {
        phase: Phase::Result,
        executed_id: after.executed_id,
        is_villager_win: after.is_villager_win,
        ..*before
    })
}

/// Counts the votes and shows the result.
pub fn judge_and_executed(game: &mut GameState)
    requires
        sound(old(game)),
        old(game).phase == Phase::Voting,
    ensures
        sound(final(game)),
        judged(old(game), final(game)),
{
    let executed = count_outcome(&game.players);
    game.executed_id = executed;
    game.is_villager_win = match (executed, game.wolf_id) {
        (Some(e), Some(w)) => Some(e == w),
        _ => None,
    };
    game.phase = Phase::Result;
}

/// Whether every one of `players` has voted.
pub open spec fn everyone_voted(players: Seq<Player>) -> bool {
    forall|i: int| 0 <= i < players.len() ==> (#[trigger] players[i]).vote is Some
}

fn all_voted(players: &Vec<Player>) -> (b: bool)
    ensures
        b == everyone_voted(players@),
{
    let mut i: usize = 0;
    while i < players.len()
        invariant
            i <= players.len(),
            forall|j: int| 0 <= j < i ==> (#[trigger] players@[j]).vote is Some,
        decreases players.len() - i,
    {
        if players[i].vote.is_none() {
            return false;
        }
        i = i + 1;
    }
    true
}

/// Whether `after` is `before` with the vote of `voter` for `target`
/// recorded and nothing else changed.
pub open spec fn vote_cast(before: Seq<Player>, after: Seq<Player>, voter: u32, target: u32) -> bool {
    exists|i: int|
        0 <= i < before.len() && (#[trigger] before[i]).id == voter && after == before.update(
            i,
            Player { vote: Some(target), ..before[i] },
        )
}

/// Whether the game takes a vote of `voter` for `target`: it must be
/// voting, and both must be players.
pub open spec fn vote_verdict(game: &GameState, voter: u32, target: u32) -> Result<(), GameError> {
    if game.phase != Phase::Voting {
        Err(GameError::InvalidPhase)
    } else if !joined(game.players@, voter) || !joined(game.players@, target) {
        Err(GameError::NotFound)
    } else {
        Ok(())
    }
}

/// Once the result is in no vote is taken: the outcome stands.
pub proof fn no_vote_after_the_result(game: GameState, voter: u32, target: u32)
    requires
        game.phase == Phase::Result,
    ensures
        vote_verdict(&game, voter, target) is Err,
{
}

/// Records the vote of a player; a later vote of the same player
/// replaces the earlier one.  When everybody has voted, the votes are
/// counted and the result is shown; the answer says whether it is.
pub fn vote(game: &mut GameState, player_id: u32, target: u32) -> (r: Result<bool, GameError>)
    requires
        sound(old(game)),
    ensures
        sound(final(game)),
        phase_step(old(game).phase, final(game).phase),
        r is Ok == vote_verdict(old(game), player_id, target) is Ok,
        r is Err ==> r->Err_0 == vote_verdict(old(game), player_id, target)->Err_0 && *final(game)
            == *old(game),
        r is Ok ==> exists|voted: GameState| #[trigger]
            vote_cast(old(game).players@, voted.players@, player_id, target) && voted == (
            GameState { players: voted.players, ..*old(game) }) && r->Ok_0 == everyone_voted(
                voted.players@,
            ) && (if r->Ok_0 {
                judged(&voted, final(game))
            } else {
                *final(game) == voted
            }),
{
    if game.phase != Phase::Voting {
        return Err(GameError::InvalidPhase);
    }
    let i = match game.find(player_id) {
        Some(i) => i,
        None => {
            return Err(GameError::NotFound);
        },
    };
    if game.find(target).is_none() {
        return Err(GameError::NotFound);
    }
    let ghost before = game.players@;
    let mut player = game.players[i].clone();
    player.vote = Some(target);
    game.players.set(i, player);
    proof {
        let after = game.players@;
        assert forall|t: u32| joined(before, t) implies joined(after, t) by {
            let j = choose|j: int| 0 <= j < before.len() && (#[trigger] before[j]).id == t;
            assert(after[j].id == t);
        }
        assert forall|k: int|
            0 <= k < after.len() && (#[trigger] after[k]).vote is Some implies joined(
            after,
            after[k].vote->Some_0,
        ) by {
            if k != i {
                assert(before[k].vote == after[k].vote);
            }
        }
    }
    let ghost voted = *game;
    let complete = all_voted(&game.players);
    if complete {
        judge_and_executed(game);
    }
    proof {
        assert(vote_cast(old(game).players@, voted.players@, player_id, target));
    }
    Ok(complete)
}

/// Whether `after` is a game ready for a new round after `before`:
/// waiting, without players, wolf or result, the clocks at zero, under
/// a new id.
pub open spec fn reset_from(before: &GameState, after: &GameState) -> bool {
    &&& after.phase == Phase::Waiting
    &&& after.players@.len() == 0
    &&& after.wolf_id is None
    &&& after.executed_id is None
    &&& after.is_villager_win is None
    &&& after.remaining_time == 0
    &&& after.voting_time == 0
    &&& after.genre@.len() == 0
    &&& after.game_id == next_game_id(before.game_id)
    &&& after.max_players == before.max_players
    &&& after.max_speak == before.max_speak
    &&& after.discussion_secs == before.discussion_secs
    &&& after.voting_secs == before.voting_secs
}

/// Ends the game, whatever its phase, and makes ready for the next:
/// the players leave, wolf and result are forgotten, the keyword pool
/// is emptied, and the game gets a new id.
pub fn reset(game: &mut GameState, topic_mgr: &mut TopicManager)
    ensures
        sound(final(game)),
        phase_step(old(game).phase, final(game).phase),
        reset_from(old(game), final(game)),
        final(topic_mgr).wf(),
        final(topic_mgr).theme().len() == 0,
        final(topic_mgr).submissions().len() == 0,
        final(topic_mgr).expected() == 0,
        final(topic_mgr).drawn() is None,
{
    game.phase = Phase::Waiting;
    game.players.clear();
    game.wolf_id = None;
    game.is_villager_win = None;
    game.game_id = game.game_id.wrapping_add(1);
    game.executed_id = None;
    game.remaining_time = 0;
    game.voting_time = 0;
    game.genre = String::new();
    *topic_mgr = TopicManager::new();
}

/// A reset gives the game a greater id, as long as ids are left: the
/// greatest id of all is followed by the least.
pub proof fn reset_raises_the_game_id(before: GameState, after: GameState)
    requires
        reset_from(&before, &after),
        before.game_id < u64::MAX,
    ensures
        after.game_id > before.game_id,
        after.game_id != before.game_id,
{
}

/// What a tick of a clock has come to.
#[derive(Debug, Clone, Copy, PartialEq, Eq, Structural)]
pub enum TimerStep {
    /// The clock belongs to a game that is over or has moved on: it
    /// stops, and nothing has changed.
    Stop,
    /// It is not yet the turn of this clock: it waits, and nothing has
    /// changed.
    Idle,
    /// A second has passed: the clock goes on, and the clients are told.
    Ticked,
    /// The time is up: the game has moved to the next phase, the clock
    /// stops, and the clients are told.
    Expired,
}

/// What a tick of the clock of the discussion comes to: the clock stops
/// when the game is another game or not in discussion; else a second
/// passes, and with the last one the time is up.
pub open spec fn playing_verdict(game: &GameState, timer_game_id: u64) -> TimerStep {
    if game.game_id != timer_game_id || game.phase != Phase::Playing {
        TimerStep::Stop
    } else if game.remaining_time <= 1 {
        TimerStep::Expired
    } else {
        TimerStep::Ticked
    }
}

/// What a tick of the clock of the vote comes to: the clock stops when
/// the game is another game and waits while the game is not voting;
/// else a second passes, and with the last one the time is up.
pub open spec fn voting_verdict(game: &GameState, timer_game_id: u64) -> TimerStep {
    if game.game_id != timer_game_id {
        TimerStep::Stop
    } else if game.phase != Phase::Voting {
        TimerStep::Idle
    } else if game.voting_time <= 1 {
        TimerStep::Expired
    } else {
        TimerStep::Ticked
    }
}

/// One tick of the clock of the discussion, wound up for the game with
/// the id `timer_game_id`.
///
/// The clock stops when the game is no longer that game or no longer in
/// discussion.  Otherwise a second passes; when none is left the vote
/// opens.
pub fn playing_tick(game: &mut GameState, timer_game_id: u64) -> (step: TimerStep)
    requires
        sound(old(game)),
    ensures
        sound(final(game)),
        phase_step(old(game).phase, final(game).phase),
        step == playing_verdict(old(game), timer_game_id),
        step == TimerStep::Stop ==> *final(game) == *old(game),
        step == TimerStep::Ticked ==> *final(game) == (GameState {
            remaining_time: (old(game).remaining_time - 1) as i32,
            ..*old(game)
        }),
        step == TimerStep::Expired ==> voting_entered(
            &(GameState { remaining_time: 0, ..*old(game) }),
            final(game),
        ),
{
    if game.game_id != timer_game_id {
        return TimerStep::Stop;
    }
    if game.phase != Phase::Playing {
        return TimerStep::Stop;
    }
    if game.remaining_time <= 1 {
        game.remaining_time = 0;
        enter_voting(game);
        return TimerStep::Expired;
    }
    game.remaining_time = game.remaining_time - 1;
    TimerStep::Ticked
}

/// One tick of the clock of the vote, wound up for the game with the id
/// `timer_game_id`.
///
/// The clock stops when the game is no longer that game, and waits
/// while the game is not voting.  Otherwise a second passes; when none
/// is left the votes are counted and the result is shown.
pub fn voting_tick(game: &mut GameState, timer_game_id: u64) -> (step: TimerStep)
    requires
        sound(old(game)),
    ensures
        sound(final(game)),
        phase_step(old(game).phase, final(game).phase),
        step == voting_verdict(old(game), timer_game_id),
        step == TimerStep::Stop || step == TimerStep::Idle ==> *final(game) == *old(game),
        step == TimerStep::Ticked ==> *final(game) == (GameState {
            voting_time: (old(game).voting_time - 1) as i32,
            ..*old(game)
        }),
        step == TimerStep::Expired ==> judged(
            &(GameState { voting_time: 0, ..*old(game) }),
            final(game),
        ),
{
    if game.game_id != timer_game_id {
        return TimerStep::Stop;
    }
    if game.phase != Phase::Voting {
        return TimerStep::Idle;
    }
    if game.voting_time <= 1 {
        game.voting_time = 0;
        judge_and_executed(game);
        return TimerStep::Expired;
    }
    game.voting_time = game.voting_time - 1;
    TimerStep::Ticked
}

/// A clock wound up for an earlier game stops at its next tick: a start
/// or a reset has given the game another id since.
pub proof fn stale_clocks_stop(game: GameState, timer_game_id: u64)
    requires
        game.game_id != timer_game_id,
    ensures
        playing_verdict(&game, timer_game_id) == TimerStep::Stop,
        voting_verdict(&game, timer_game_id) == TimerStep::Stop,
{
}

/// The status a response carries for an error: 404 for what is not
/// there, 403 for a full room or a taken name, 400 for everything else
/// the caller got wrong.
pub fn http_status(error: GameError) -> (status: u16)
    ensures
        status == (match error {
            GameError::NotFound => 404u16,
            GameError::RoomFull => 403u16,
            GameError::AlreadyExists => 403u16,
            GameError::InvalidPhase => 400u16,
            GameError::DuplicateSubmission => 400u16,
            GameError::InsufficientKeywords => 400u16,
            GameError::InvalidConfig => 400u16,
        }),
{
    match error {
        GameError::NotFound => 404,
        GameError::RoomFull => 403,
        GameError::AlreadyExists => 403,
        _ => 400,
    }
}

} // verus!
