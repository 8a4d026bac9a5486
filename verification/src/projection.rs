//! The public projection as a JSON text.
//!
//! The text is an object with one member for every field of the
//! projection.  The members that would name the wolf and the player
//! voted out are part of the object only once the result is in.

use crate::network::form::{json_quoted, push_json_string};
use crate::network::scan::{pairs_texts, Pair};
use crate::state::{Phase, Player, PublicState};
use crate::text::{decimal, decimal_digits};
use vstd::prelude::*;
use vstd::string::StringExecFns;

verus! {

/// The members of an object, with commas between them: every name as a
/// string, a colon, and the value as it is.
pub open spec fn members_text(members: Seq<(Seq<char>, Seq<char>)>) -> Seq<char>
    decreases members.len(),
{
    if members.len() == 0 {
        Seq::empty()
    } else if members.len() == 1 {
        json_quoted(members[0].0) + ":"@ + members[0].1
    } else {
        members_text(members.drop_last()) + ","@ + json_quoted(members.last().0) + ":"@
            + members.last().1
    }
}

/// An object with the given members.
pub open spec fn object_text(members: Seq<(Seq<char>, Seq<char>)>) -> Seq<char> {
    "{"@ + members_text(members) + "}"@
}

/// Writes an object with the given members: names and the texts of
/// their values.
pub fn write_object(members: &Vec<Pair>) -> (text: String)
    ensures
        text@ == object_text(pairs_texts(members@)),
{
    let ghost all = pairs_texts(members@);
    let mut text = String::from_str("{");
    let mut i: usize = 0;
    assert(members_text(all.take(0)) == Seq::<char>::empty());
    assert("{"@ + Seq::<char>::empty() == "{"@);
    while i < members.len()
        invariant
            i <= members.len(),
            all == pairs_texts(members@),
            text@ == "{"@ + members_text(all.take(i as int)),
        decreases members.len() - i,
    {
        let ghost so_far = members_text(all.take(i as int));
        let ghost name = json_quoted(members@[i as int].name@);
        let ghost value = members@[i as int].value@;
        proof {
            assert(all.take(i + 1).drop_last() == all.take(i as int));
            assert(all.take(i + 1).last() == all[i as int]);
            if i == 0 {
                assert(all.take(1)[0] == all[0]);
            }
        }
        if i > 0 {
            text.append(",");
        }
        push_json_string(&mut text, members[i].name.as_str());
        text.append(":");
        text.append(members[i].value.as_str());
        proof {
            if i > 0 {
                assert(((("{"@ + so_far) + ","@) + name + ":"@) + value == "{"@ + (so_far + ","@
                    + name + ":"@ + value));
            } else {
                assert(((("{"@ + so_far) + name) + ":"@) + value == "{"@ + (name + ":"@ + value));
            }
        }
        i = i + 1;
    }
    assert(all.take(members.len() as int) == all);
    text.append("}");
    text
}

/// The name of a phase.
pub open spec fn phase_name(phase: Phase) -> Seq<char> {
    match phase {
        Phase::Waiting => "Waiting"@,
        Phase::ThemeSelection => "ThemeSelection"@,
        Phase::Playing => "Playing"@,
        Phase::Voting => "Voting"@,
        Phase::Result => "Result"@,
    }
}

/// A whole number in decimal, with a minus sign if it is negative.
pub open spec fn signed_digits(n: int) -> Seq<char> {
    if n < 0 {
        "-"@ + decimal_digits((-n) as nat)
    } else {
        decimal_digits(n as nat)
    }
}

/// An id, or `null` where there is none.
pub open spec fn optional_id(id: Option<u32>) -> Seq<char> {
    match id {
        Some(n) => decimal_digits(n as nat),
        None => "null"@,
    }
}

/// `true` or `false`, or `null` where nothing is known.
pub open spec fn optional_flag(flag: Option<bool>) -> Seq<char> {
    match flag {
        Some(true) => "true"@,
        Some(false) => "false"@,
        None => "null"@,
    }
}

/// A word as a string, or `null` where there is none.
pub open spec fn optional_word(word: Option<String>) -> Seq<char> {
    match word {
        Some(w) => json_quoted(w@),
        None => "null"@,
    }
}

/// The members of a player.
pub open spec fn player_members(player: Player) -> Seq<(Seq<char>, Seq<char>)> {
    seq![
        ("id"@, decimal_digits(player.id as nat)),
        ("remaining_speak"@, decimal_digits(player.remaining_speak as nat)),
        ("vote"@, optional_id(player.vote)),
        ("topic"@, optional_word(player.topic)),
    ]
}

/// The players as members of an object: every player under their id.
pub open spec fn players_members(players: Seq<Player>) -> Seq<(Seq<char>, Seq<char>)> {
    players.map_values(
        |p: Player| (decimal_digits(p.id as nat), object_text(player_members(p))),
    )
}

/// The members of the projection.
pub open spec fn projection_members(state: PublicState) -> Seq<(Seq<char>, Seq<char>)> {
    let always = seq![
        ("phase"@, json_quoted(phase_name(state.phase))),
        ("players"@, object_text(players_members(state.players@))),
        ("max_players"@, decimal_digits(state.max_players as nat)),
        ("max_speak"@, decimal_digits(state.max_speak as nat)),
        ("genre"@, json_quoted(state.genre@)),
        ("remaining_time"@, signed_digits(state.remaining_time as int)),
        ("voting_time"@, signed_digits(state.voting_time as int)),
        ("is_villager_win"@, optional_flag(state.is_villager_win)),
        ("game_id"@, decimal_digits(state.game_id as nat)),
    ];
    if state.phase == Phase::Result {
        always + seq![
            ("wolf_id"@, optional_id(state.wolf_id)),
            ("executed_id"@, optional_id(state.executed_id)),
        ]
    } else {
        always
    }
}

/// The projection as a JSON text.
pub open spec fn projection_text(state: PublicState) -> Seq<char> {
    object_text(projection_members(state))
}

/// Until the result is in, the projection has no member that names the
/// wolf or the player voted out; once it is in, it has both.
pub proof fn no_secret_members(state: PublicState)
    ensures
        state.phase != Phase::Result ==> forall|k: int|
            0 <= k < projection_members(state).len() ==> (#[trigger] projection_members(state)[k]).0
                != "wolf_id"@ && projection_members(state)[k].0 != "executed_id"@,
        state.phase == Phase::Result ==> projection_members(state)[9].0 == "wolf_id"@
            && projection_members(state)[10].0 == "executed_id"@,
{
    reveal_strlit("phase");
    reveal_strlit("players");
    reveal_strlit("max_players");
    reveal_strlit("max_speak");
    reveal_strlit("genre");
    reveal_strlit("remaining_time");
    reveal_strlit("voting_time");
    reveal_strlit("is_villager_win");
    reveal_strlit("game_id");
    reveal_strlit("wolf_id");
    reveal_strlit("executed_id");
    if state.phase != Phase::Result {
        let m = projection_members(state);
        assert(m.len() == 9);
        // The names differ from the two in length or in their first
        // letter.
        assert("wolf_id"@.len() == 7 && "wolf_id"@[0] == 'w');
        assert("executed_id"@.len() == 11 && "executed_id"@[0] == 'e');
        assert("phase"@.len() == 5);
        assert("players"@.len() == 7 && "players"@[0] == 'p');
        assert("max_players"@.len() == 11 && "max_players"@[0] == 'm');
        assert("max_speak"@.len() == 9);
        assert("genre"@.len() == 5);
        assert("remaining_time"@.len() == 14);
        assert("voting_time"@.len() == 11 && "voting_time"@[0] == 'v');
        assert("is_villager_win"@.len() == 15);
        assert("game_id"@.len() == 7 && "game_id"@[0] == 'g');
    }
}

fn member(name: &str, value: String) -> (m: Pair)
    ensures
        m.name@ == name@,
        m.value == value,
{
    Pair { name: name.to_string(), value }
}

fn signed(n: i32) -> (s: String)
    ensures
        s@ == signed_digits(n as int),
{
    if n < 0 {
        let mut s = String::from_str("-");
        let magnitude: u64 = (-(n as i64)) as u64;
        s.append(decimal(magnitude).as_str());
        s
    } else {
        decimal(n as u64)
    }
}

fn id_or_null(id: Option<u32>) -> (s: String)
    ensures
        s@ == optional_id(id),
{
    match id {
        Some(n) => decimal(n as u64),
        None => String::from_str("null"),
    }
}

fn flag_or_null(flag: Option<bool>) -> (s: String)
    ensures
        s@ == optional_flag(flag),
{
    match flag {
        Some(true) => String::from_str("true"),
        Some(false) => String::from_str("false"),
        None => String::from_str("null"),
    }
}

fn quoted(text: &str) -> (s: String)
    ensures
        s@ == json_quoted(text@),
{
    crate::network::form::json_string(text)
}

fn phase_word(phase: Phase) -> (s: String)
    ensures
        s@ == json_quoted(phase_name(phase)),
{
    match phase {
        Phase::Waiting => quoted("Waiting"),
        Phase::ThemeSelection => quoted("ThemeSelection"),
        Phase::Playing => quoted("Playing"),
        Phase::Voting => quoted("Voting"),
        Phase::Result => quoted("Result"),
    }
}

/// A player as a JSON object.
pub fn player_json(player: &Player) -> (text: String)
    ensures
        text@ == object_text(player_members(*player)),
{
    let mut members: Vec<Pair> = Vec::new();
    members.push(member("id", decimal(player.id as u64)));
    members.push(member("remaining_speak", decimal(player.remaining_speak as u64)));
    members.push(member("vote", id_or_null(player.vote)));
    let topic = match &player.topic {
        Some(word) => quoted(word.as_str()),
        None => String::from_str("null"),
    };
    members.push(member("topic", topic));
    assert(pairs_texts(members@) =~= player_members(*player));
    write_object(&members)
}

/// The players as a JSON object, every player under their id.
pub fn players_json(players: &Vec<Player>) -> (text: String)
    ensures
        text@ == object_text(players_members(players@)),
{
    let mut members: Vec<Pair> = Vec::new();
    let mut i: usize = 0;
    while i < players.len()
        invariant
            i <= players.len(),
            members@.len() == i,
            forall|j: int|
                0 <= j < i ==> (#[trigger] members@[j]).name@ == decimal_digits(
                    players@[j].id as nat,
                ) && members@[j].value@ == object_text(player_members(players@[j])),
        decreases players.len() - i,
    {
        members.push(
            Pair { name: decimal(players[i].id as u64), value: player_json(&players[i]) },
        );
        i = i + 1;
    }
    assert(pairs_texts(members@) =~= players_members(players@));
    write_object(&members)
}

impl PublicState {
    /// The projection as a JSON text, as it is broadcast.
    pub fn to_json(&self) -> (text: String)
        ensures
            text@ == projection_text(*self),
    {
        let mut members: Vec<Pair> = Vec::new();
        members.push(member("phase", phase_word(self.phase)));
        members.push(member("players", players_json(&self.players)));
        members.push(member("max_players", decimal(self.max_players as u64)));
        members.push(member("max_speak", decimal(self.max_speak as u64)));
        members.push(member("genre", quoted(self.genre.as_str())));
        members.push(member("remaining_time", signed(self.remaining_time)));
        members.push(member("voting_time", signed(self.voting_time)));
        members.push(member("is_villager_win", flag_or_null(self.is_villager_win)));
        members.push(member("game_id", decimal(self.game_id)));
        if self.phase == Phase::Result {
            members.push(member("wolf_id", id_or_null(self.wolf_id)));
            members.push(member("executed_id", id_or_null(self.executed_id)));
        }
        assert(pairs_texts(members@) =~= projection_members(*self));
        write_object(&members)
    }
}

} // verus!
