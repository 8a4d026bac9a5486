//! The commands that a client sends over its connection, and what the
//! server does and answers.

use crate::routes::{
    judged, next_game_id, phase_step, put_player, reset, reset_from, sound, speak, start, vote,
    vote_cast,
};
use crate::network::form::{json_quoted, push_json_string};
use crate::state::{joined, GameState, Phase, Player};
use crate::text::{decimal, decimal_digits};
use crate::topic::TopicManager;
use vstd::prelude::*;
use vstd::string::StringExecFns;

verus! {

/// A command of a client.
#[derive(Debug, Clone, Copy, PartialEq, Eq, Structural)]
pub enum ClientMsg {
    /// Take part in the game.
    Join,
    /// Open the submission of keywords.
    Start,
    /// Use one turn to speak.
    Speak,
    /// Vote for the player `target`.
    Vote { target: u32 },
    /// End the game and make ready for the next.
    Reset,
}

/// Why a command was turned down, as the client is told.
#[derive(Debug, Clone, Copy, PartialEq, Eq, Structural)]
pub enum Refusal {
    /// Every seat is taken.
    Full,
    /// The game is under way and takes no new players.
    NotWaiting,
    /// Only players speak.
    SpeakBeforeJoin,
    /// Only players vote.
    VoteBeforeJoin,
    /// The player voted for does not exist.
    NoSuchTarget,
}

impl Refusal {
    /// The text shown to the client.
    pub open spec fn text(&self) -> Seq<char> {
        match *self {
            Refusal::Full => "満員です"@,
            Refusal::NotWaiting => "ゲーム中は参加できません"@,
            Refusal::SpeakBeforeJoin => "参加してから発言してください"@,
            Refusal::VoteBeforeJoin => "参加してから投票してください"@,
            Refusal::NoSuchTarget => "そのプレイヤーはいません"@,
        }
    }

    /// The text shown to the client.
    pub fn message(&self) -> (s: String)
        ensures
            s@ == self.text(),
    {
        match self {
            Refusal::Full => "満員です".to_string(),
            Refusal::NotWaiting => "ゲーム中は参加できません".to_string(),
            Refusal::SpeakBeforeJoin => "参加してから発言してください".to_string(),
            Refusal::VoteBeforeJoin => "参加してから投票してください".to_string(),
            Refusal::NoSuchTarget => "そのプレイヤーはいません".to_string(),
        }
    }
}

/// What the server answers to the client that sent a command.
#[derive(Debug, Clone, Copy, PartialEq, Eq, Structural)]
pub enum Reply {
    /// The client takes part under the id `player_id`.
    Joined { player_id: u32 },
    /// The command was turned down.
    Error { refusal: Refusal },
    /// The game was reset.
    ResetDone,
}

/// What a command has come to.
#[derive(Debug, Clone, Copy, PartialEq, Eq, Structural)]
pub struct Outcome {
    /// The answer for the client that sent the command, if any.
    pub reply: Option<Reply>,
    /// Whether the state has changed and all clients are to be told.
    pub broadcast: bool,
    /// Whether the chat of all clients is to be cleared.
    pub clear_chat: bool,
}

/// An outcome without broadcast.
pub open spec fn quiet(reply: Option<Reply>) -> Outcome {
    Outcome { reply, broadcast: false, clear_chat: false }
}

/// An outcome with a broadcast of the state.
pub open spec fn told(reply: Option<Reply>) -> Outcome {
    Outcome { reply, broadcast: true, clear_chat: false }
}

/// What the command `cmd` of the client `conn_id` comes to in the game
/// `game`.
pub open spec fn verdict(game: &GameState, conn_id: u32, cmd: ClientMsg) -> Outcome {
    match cmd {
        ClientMsg::Join => {
            if joined(game.players@, conn_id) {
                quiet(Some(Reply::Joined { player_id: conn_id }))
            } else if game.players@.len() >= game.max_players {
                quiet(Some(Reply::Error { refusal: Refusal::Full }))
            } else if game.phase != Phase::Waiting {
                quiet(Some(Reply::Error { refusal: Refusal::NotWaiting }))
            } else {
                told(Some(Reply::Joined { player_id: conn_id }))
            }
        },
        ClientMsg::Speak => {
            if !joined(game.players@, conn_id) {
                quiet(Some(Reply::Error { refusal: Refusal::SpeakBeforeJoin }))
            } else if game.phase != Phase::Playing {
                quiet(None)
            } else {
                told(None)
            }
        },
        ClientMsg::Vote { target } => {
            if !joined(game.players@, conn_id) {
                quiet(Some(Reply::Error { refusal: Refusal::VoteBeforeJoin }))
            } else if game.phase != Phase::Voting {
                quiet(None)
            } else if !joined(game.players@, target) {
                quiet(Some(Reply::Error { refusal: Refusal::NoSuchTarget }))
            } else {
                told(None)
            }
        },
        ClientMsg::Start => {
            if game.phase == Phase::Waiting && game.players@.len() >= 2 {
                told(None)
            } else {
                quiet(None)
            }
        },
        ClientMsg::Reset => Outcome {
            reply: Some(Reply::ResetDone),
            broadcast: true,
            clear_chat: true,
        },
    }
}

/// Carries out the command `cmd` of the client `conn_id`.
///
/// A command that is turned down or ignored leaves the game as it is.
/// A command that is carried out changes the game as the command of
/// the same name in [`crate::routes`] does, and all clients are told.
pub fn handle_command(
    game: &mut GameState,
    topic_mgr: &mut TopicManager,
    conn_id: u32,
    cmd: ClientMsg,
) -> (outcome: Outcome)
    requires
        sound(old(game)),
        old(topic_mgr).wf(),
    ensures
        sound(final(game)),
        final(topic_mgr).wf(),
        phase_step(old(game).phase, final(game).phase),
        outcome == verdict(old(game), conn_id, cmd),
        !outcome.broadcast ==> *final(game) == *old(game) && *final(topic_mgr) == *old(topic_mgr),
        outcome.broadcast ==> (match cmd {
            ClientMsg::Join => *final(topic_mgr) == *old(topic_mgr) && final(game).players@ == old(game).players@.push(
                Player {
                    id: conn_id,
                    remaining_speak: old(game).max_speak,
                    vote: None,
                    topic: None,
                },
            ) && *final(game) == (GameState { players: final(game).players, ..*old(game) }),
            ClientMsg::Speak => *final(topic_mgr) == *old(topic_mgr) && *final(game) == (GameState {
                players: final(game).players,
                ..*old(game)
            }) && exists|i: int|
                0 <= i < old(game).players@.len() && (#[trigger] old(game).players@[i]).id
                    == conn_id && final(game).players@ == old(game).players@.update(
                    i,
                    Player {
                        remaining_speak: if old(game).players@[i].remaining_speak > 0 {
                            (old(game).players@[i].remaining_speak - 1) as u32
                        } else {
                            0
                        },
                        ..old(game).players@[i]
                    },
                ),
            ClientMsg::Vote { target } => *final(topic_mgr) == *old(topic_mgr) && exists|
                voted: GameState,
            | #[trigger]
                vote_cast(old(game).players@, voted.players@, conn_id, target) && voted == (
                GameState { players: voted.players, ..*old(game) }) && (if crate::routes::everyone_voted(
                    voted.players@,
                ) {
                    judged(&voted, final(game))
                } else {
                    *final(game) == voted
                }),
            ClientMsg::Start => {
                &&& *final(game) == (GameState {
                    phase: Phase::ThemeSelection,
                    genre: final(game).genre,
                    game_id: next_game_id(old(game).game_id),
                    ..*old(game)
                })
                &&& crate::topic::genres().contains(final(game).genre@)
                &&& final(topic_mgr).theme() == final(game).genre@
                &&& final(topic_mgr).submissions().len() == 0
                &&& final(topic_mgr).expected() == old(game).players@.len()
                &&& final(topic_mgr).drawn() is None
            },
            ClientMsg::Reset => {
                &&& reset_from(old(game), final(game))
                &&& final(topic_mgr).submissions().len() == 0
                &&& final(topic_mgr).drawn() is None
            },
        }),
{
    match cmd {
        ClientMsg::Join => {
            if game.find(conn_id).is_some() {
                return Outcome {
                    reply: Some(Reply::Joined { player_id: conn_id }),
                    broadcast: false,
                    clear_chat: false,
                };
            }
            if game.players.len() >= game.max_players as usize {
                return Outcome {
                    reply: Some(Reply::Error { refusal: Refusal::Full }),
                    broadcast: false,
                    clear_chat: false,
                };
            }
            if game.phase != Phase::Waiting {
                return Outcome {
                    reply: Some(Reply::Error { refusal: Refusal::NotWaiting }),
                    broadcast: false,
                    clear_chat: false,
                };
            }
            put_player(game, conn_id);
            Outcome {
                reply: Some(Reply::Joined { player_id: conn_id }),
                broadcast: true,
                clear_chat: false,
            }
        },
        ClientMsg::Speak => {
            if game.find(conn_id).is_none() {
                return Outcome {
                    reply: Some(Reply::Error { refusal: Refusal::SpeakBeforeJoin }),
                    broadcast: false,
                    clear_chat: false,
                };
            }
            match speak(game, conn_id) {
                Ok(()) => Outcome { reply: None, broadcast: true, clear_chat: false },
                Err(_) => Outcome { reply: None, broadcast: false, clear_chat: false },
            }
        },
        ClientMsg::Vote { target } => {
            if game.find(conn_id).is_none() {
                return Outcome {
                    reply: Some(Reply::Error { refusal: Refusal::VoteBeforeJoin }),
                    broadcast: false,
                    clear_chat: false,
                };
            }
            if game.phase != Phase::Voting {
                return Outcome { reply: None, broadcast: false, clear_chat: false };
            }
            match vote(game, conn_id, target) {
                Ok(_) => Outcome { reply: None, broadcast: true, clear_chat: false },
                Err(_) => Outcome {
                    reply: Some(Reply::Error { refusal: Refusal::NoSuchTarget }),
                    broadcast: false,
                    clear_chat: false,
                },
            }
        },
        ClientMsg::Start => {
            let started = start(game, topic_mgr);
            Outcome { reply: None, broadcast: started, clear_chat: false }
        },
        ClientMsg::Reset => {
            reset(game, topic_mgr);
            Outcome { reply: Some(Reply::ResetDone), broadcast: true, clear_chat: true }
        },
    }
}

impl Reply {
    /// The answer as a JSON object, as it goes over the connection.
    pub open spec fn json(&self) -> Seq<char> {
        match *self {
            Reply::Joined { player_id } => "{\"type\":\"joined\",\"player_id\":"@ + decimal_digits(
                player_id as nat,
            ) + "}"@,
            Reply::Error { refusal } => "{\"type\":\"error\",\"message\":"@ + json_quoted(
                refusal.text(),
            ) + "}"@,
            Reply::ResetDone => "{\"type\":\"reset_done\"}"@,
        }
    }

    /// The answer as a JSON object, as it goes over the connection.
    pub fn to_json(&self) -> (s: String)
        ensures
            s@ == self.json(),
    {
        match self {
            Reply::Joined { player_id } => {
                let mut s = String::from_str("{\"type\":\"joined\",\"player_id\":");
                s.append(decimal(*player_id as u64).as_str());
                s.append("}");
                s
            },
            Reply::Error { refusal } => {
                let mut s = String::from_str("{\"type\":\"error\",\"message\":");
                push_json_string(&mut s, refusal.message().as_str());
                s.append("}");
                s
            },
            Reply::ResetDone => String::from_str("{\"type\":\"reset_done\"}"),
        }
    }
}

/// The greeting for a new connection: a JSON object with the number of
/// the connection.
pub fn welcome_message(conn_id: u32) -> (s: String)
    ensures
        s@ == "{\"type\":\"welcome\",\"conn_id\":"@ + decimal_digits(conn_id as nat) + "}"@,
{
    let mut s = String::from_str("{\"type\":\"welcome\",\"conn_id\":");
    s.append(decimal(conn_id as u64).as_str());
    s.append("}");
    s
}

/// The text of the message that tells a player their word.
pub open spec fn topic_text(topic: Seq<char>) -> Seq<char> {
    "{\"type\":\"your_topic\",\"topic\":"@ + json_quoted(topic) + "}"@
}

/// The message that tells a player their word: a JSON object of the
/// type `your_topic`.  It goes to that player alone.
pub fn private_topic_message(topic: &str) -> (s: String)
    ensures
        s@ == topic_text(topic@),
{
    let mut s = String::from_str("{\"type\":\"your_topic\",\"topic\":");
    push_json_string(&mut s, topic);
    s.append("}");
    s
}

/// The message that tells the player behind the connection `conn_id`
/// their word: none for a connection that is no player, and none for a
/// player without a word.
pub fn private_topic_for(game: &GameState, conn_id: u32) -> (message: Option<String>)
    ensures
        !joined(game.players@, conn_id) ==> message is None,
        joined(game.players@, conn_id) ==> exists|i: int|
            0 <= i < game.players@.len() && (#[trigger] game.players@[i]).id == conn_id && (
            match game.players@[i].topic {
                Some(topic) => message is Some && message->Some_0@ == topic_text(topic@),
                None => message is None,
            }),
{
    match game.find(conn_id) {
        Some(i) => {
            assert(game.players@[i as int].id == conn_id);
            match &game.players[i].topic {
                Some(topic) => Some(private_topic_message(topic.as_str())),
                None => None,
            }
        },
        None => None,
    }
}

/// The word of the first of `players` with the id `id`, if there is
/// such a player and they hold a word.
pub open spec fn word_of(players: Seq<Player>, id: u32) -> Option<Seq<char>>
    decreases players.len(),
{
    if players.len() == 0 {
        None
    } else if players[0].id == id {
        match players[0].topic {
            Some(topic) => Some(topic@),
            None => None,
        }
    } else {
        word_of(players.drop_first(), id)
    }
}

/// Whether the client behind the connection `conn_id` is now to be told
/// their word: the discussion is on, the client is a player who holds
/// a word, and they have not been told for this game, `told_for` being
/// the game they were last told for.
pub open spec fn topic_due(told_for: Option<u64>, game: &GameState, conn_id: u32) -> bool {
    game.phase == Phase::Playing && told_for != Some(game.game_id) && word_of(
        game.players@,
        conn_id,
    ) is Some
}

/// Tells the client behind the connection `conn_id` their word, once
/// for every game: the message when it is due, and nothing otherwise.
/// `told_for` is what the connection remembers, the game it was last
/// told for.
pub fn private_topic_once(told_for: &mut Option<u64>, game: &GameState, conn_id: u32) -> (message:
    Option<String>)
    ensures
        message is Some == topic_due(*old(told_for), game, conn_id),
        message is Some ==> message->Some_0@ == topic_text(word_of(game.players@, conn_id)->Some_0)
            && *final(told_for) == Some(game.game_id),
        message is None ==> *final(told_for) == *old(told_for),
{
    if game.phase != Phase::Playing {
        return None;
    }
    match *told_for {
        Some(id) => {
            if id == game.game_id {
                return None;
            }
        },
        None => {},
    }
    let mut i: usize = 0;
    assert(game.players@.skip(0) == game.players@);
    while i < game.players.len()
        invariant
            i <= game.players.len(),
            *told_for == *old(told_for),
            game.phase == Phase::Playing,
            *told_for != Some(game.game_id),
            word_of(game.players@, conn_id) == word_of(game.players@.skip(i as int), conn_id),
        decreases game.players.len() - i,
    {
        let ghost rest = game.players@.skip(i as int);
        assert(rest[0] == game.players@[i as int]);
        if game.players[i].id == conn_id {
            match &game.players[i].topic {
                Some(topic) => {
                    *told_for = Some(game.game_id);
                    return Some(private_topic_message(topic.as_str()));
                },
                None => {
                    return None;
                },
            }
        }
        assert(rest.drop_first() == game.players@.skip(i + 1));
        i = i + 1;
    }
    None
}

/// A client is told their word once for a game: whoever has been told
/// for the game is not due again while the game is the same.
pub proof fn told_once(game: GameState, conn_id: u32)
    ensures
        !topic_due(Some(game.game_id), &game, conn_id),
{
}

} // verus!
