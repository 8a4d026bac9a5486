//! The handlers: from a request to a command for a room and on to a
//! response.
//!
//! A handler reads the fields it needs from the query or the body of
//! the request, has the registry carry out the command, and answers
//! with `200` or with the status that belongs to the error: `404` for
//! what is not there, `403` for a full room or a taken name, `400` for
//! everything else the caller got wrong.

use crate::game::player::{Player, PlayerView};
use crate::network::form::{
    decode_form, decoded_form, field, field_of, json_quoted, number_of, parse_number,
    push_json_string,
};
use crate::network::http::{response_text, HttpRequest, HttpResponse, Method};
use crate::network::scan::{lookup, pairs_texts, params_of, parse_params, Pair};
use crate::rooms::manager::{has_room, room_created, room_named, room_stepped, RoomManager};
use crate::rooms::room::{has_player, Room};
use crate::text::{chars_of, decimal, decimal_digits, text_eq};
use crate::types::{GameError, GenreView, Role, RoomConfig, ThemeGenre};
use vstd::prelude::*;
use vstd::string::StringExecFns;

verus! {

/// The response for an error.
pub open spec fn error_text(error: GameError) -> Seq<char> {
    match error {
        GameError::NotFound => response_text("404 Not Found"@, "text/plain"@, error.text()),
        GameError::RoomFull => response_text("403 Forbidden"@, "text/plain"@, error.text()),
        GameError::AlreadyExists => response_text("403 Forbidden"@, "text/plain"@, error.text()),
        _ => response_text("400 Bad Request"@, "text/plain"@, error.text()),
    }
}

/// The response for the outcome of a command: `OK`, or the error.
pub open spec fn answer_text(r: Result<(), GameError>) -> Seq<char> {
    match r {
        Ok(()) => response_text("200 OK"@, "text/plain"@, "OK"@),
        Err(e) => error_text(e),
    }
}

/// The response for an error.
pub fn error_response(error: GameError) -> (s: String)
    ensures
        s@ == error_text(error),
{
    let message = error.message();
    match error {
        GameError::NotFound => HttpResponse::missing(message.as_str()),
        GameError::RoomFull => HttpResponse::forbidden(message.as_str()),
        GameError::AlreadyExists => HttpResponse::forbidden(message.as_str()),
        _ => HttpResponse::bad_request(message.as_str()),
    }
}

/// The response for the outcome of a command.
pub fn answer(r: Result<(), GameError>) -> (s: String)
    ensures
        s@ == answer_text(r),
{
    match r {
        Ok(()) => HttpResponse::ok("OK", "text/plain"),
        Err(e) => error_response(e),
    }
}

/// What a command for the room `room_id` makes of the rooms `before`,
/// given its answer `r`: without such a room the answer is `NotFound`
/// and nothing changes; otherwise that room goes through `step`.
pub open spec fn commanded(
    before: Seq<Room>,
    after: Seq<Room>,
    room_id: Seq<char>,
    r: Result<(), GameError>,
    step: spec_fn(Room, Room) -> bool,
) -> bool {
    if has_room(before, room_id) {
        room_stepped(before, after, room_id, step)
    } else {
        r == Err::<(), GameError>(GameError::NotFound) && after == before
    }
}

/// The form in the body of a request.
pub open spec fn form_of(req: &HttpRequest) -> Seq<(Seq<char>, Seq<char>)> {
    params_of(req@.body)
}

fn read_form(req: &HttpRequest) -> (form: Vec<Pair>)
    ensures
        pairs_texts(form@) == form_of(req),
{
    let body = chars_of(req.body.as_str());
    parse_params(&body)
}

/// The number in the field `name` of a form, or `default` if the form
/// has no such field or no number in it that fits.
pub open spec fn number_field(
    form: Seq<(Seq<char>, Seq<char>)>,
    name: Seq<char>,
    default: u64,
    limit: u64,
) -> u64 {
    match lookup(form, name) {
        Some(text) => match number_of(text) {
            Some(n) => if n <= limit {
                n
            } else {
                default
            },
            None => default,
        },
        None => default,
    }
}

fn read_number(form: &Vec<Pair>, name: &str, default: u64, limit: u64) -> (n: u64)
    ensures
        n == number_field(pairs_texts(form@), name@, default, limit),
{
    match crate::network::scan::get(form, name) {
        Some(text) => match parse_number(text.as_str()) {
            Some(n) => if n <= limit {
                n
            } else {
                default
            },
            None => default,
        },
        None => default,
    }
}

/// The genre that a word names; food for every other word.
pub open spec fn genre_named(word: Seq<char>) -> GenreView {
    if word == "Animal"@ {
        GenreView::Animal
    } else if word == "Place"@ {
        GenreView::Place
    } else if word == "Object"@ {
        GenreView::Object
    } else {
        GenreView::Food
    }
}

fn genre_of(word: &str) -> (genre: ThemeGenre)
    ensures
        genre@ == genre_named(word@),
{
    if text_eq(word, "Animal") {
        ThemeGenre::Animal
    } else if text_eq(word, "Place") {
        ThemeGenre::Place
    } else if text_eq(word, "Object") {
        ThemeGenre::Object
    } else {
        ThemeGenre::Food
    }
}

/// Whether `config` is the configuration that a form asks for: the
/// name of the room (`Unnamed` if none), four seats, one wolf and three
/// minutes to talk unless the form says otherwise, the genre, and the
/// usual time to vote.
pub open spec fn config_asked(form: Seq<(Seq<char>, Seq<char>)>, config: RoomConfig) -> bool {
    &&& config.room_name@ == field_of(form, "room_name"@, "Unnamed"@)
    &&& config.max_players == number_field(form, "max_players"@, 4, usize::MAX as u64)
    &&& config.wolf_count == number_field(form, "wolf_count"@, 1, usize::MAX as u64)
    &&& config.discussion_time == number_field(form, "discussion_time"@, 180, u64::MAX)
    &&& config.theme_genre@ == genre_named(field_of(form, "genre"@, "Food"@))
    &&& config.voting_time == crate::types::DEFAULT_VOTING_TIME
}

/// The response to the creation of the room `room_id`.
pub open spec fn created_text(room_id: Seq<char>, r: Result<(), GameError>) -> Seq<char> {
    match r {
        Ok(()) => response_text(
            "200 OK"@,
            "application/json"@,
            "{\"room_id\":"@ + json_quoted(room_id) + "}"@,
        ),
        Err(e) => error_text(e),
    }
}

/// What the creation of a room as a request asks for makes of the
/// rooms, and what is answered.
pub open spec fn room_creation_handled(
    req: &HttpRequest,
    before: Seq<Room>,
    after: Seq<Room>,
    response: Seq<char>,
) -> bool {
    &&& exists|config: RoomConfig, r: Result<(), GameError>|
        config_asked(form_of(req), config) && #[trigger] room_created(
            before,
            after,
            field_of(form_of(req), "room_id"@, ""@),
            config,
            r,
        ) && response == created_text(field_of(form_of(req), "room_id"@, ""@), r)
}

/// Creates a room as the form in the body asks.
pub fn handle_create_room(req: HttpRequest, room_manager: &mut RoomManager) -> (response: String)
    requires
        old(room_manager).wf(),
    ensures
        final(room_manager).wf(),
        room_creation_handled(&req, old(room_manager).list(), final(room_manager).list(), response@),
{
    let form = read_form(&req);
    let room_id = field(&form, "room_id", "");
    let room_name = field(&form, "room_name", "Unnamed");
    let max_players = read_number(&form, "max_players", 4, usize::MAX as u64) as usize;
    let wolf_count = read_number(&form, "wolf_count", 1, usize::MAX as u64) as usize;
    let discussion_time = read_number(&form, "discussion_time", 180, u64::MAX);
    let genre = genre_of(field(&form, "genre", "Food").as_str());
    let config = RoomConfig::new(room_name, max_players, wolf_count, genre, discussion_time);
    let ghost asked = config;
    let r = room_manager.create_room(room_id.clone(), config);
    let response = match r {
        Ok(()) => {
            let mut body = String::from_str("{\"room_id\":");
            push_json_string(&mut body, room_id.as_str());
            body.append("}");
            HttpResponse::ok(body.as_str(), "application/json")
        },
        Err(e) => error_response(e),
    };
    proof {
        assert(config_asked(form_of(&req), asked));
        assert(room_created(
            old(room_manager).list(),
            room_manager.list(),
            field_of(form_of(&req), "room_id"@, ""@),
            asked,
            r,
        ));
    }
    response
}

/// Whether `player` is a new player with the id and the name that a
/// form gives: no id is the empty id, no name is `Unknown`.
pub open spec fn player_asked(form: Seq<(Seq<char>, Seq<char>)>, player: Player) -> bool {
    player@ == (PlayerView {
        id: field_of(form, "player_id"@, ""@),
        name: field_of(form, "player_name"@, "Unknown"@),
        role: None,
        theme: None,
        active: true,
    })
}

/// What a request to join makes of the rooms, and what is answered.
pub open spec fn join_handled(
    req: &HttpRequest,
    before: Seq<Room>,
    after: Seq<Room>,
    response: Seq<char>,
) -> bool {
    &&& exists|player: Player, r: Result<(), GameError>|
        #![trigger player_asked(decoded_form(form_of(req)), player), answer_text(r)]
        player_asked(decoded_form(form_of(req)), player) && commanded(
            before,
            after,
            field_of(decoded_form(form_of(req)), "room_id"@, ""@),
            r,
            |before: Room, after: Room| Room::player_added(&before, &after, player, r),
        ) && response == answer_text(r)
}

/// Takes a player into a room.  The values of the form are
/// percent-encoded.
pub fn handle_join_room(req: HttpRequest, room_manager: &mut RoomManager) -> (response: String)
    requires
        old(room_manager).wf(),
    ensures
        final(room_manager).wf(),
        join_handled(&req, old(room_manager).list(), final(room_manager).list(), response@),
{
    let form = decode_form(&read_form(&req));
    let room_id = field(&form, "room_id", "");
    let player_id = field(&form, "player_id", "");
    let player_name = field(&form, "player_name", "Unknown");
    let player = Player::new(player_id, player_name);
    let ghost asked = player;
    let r = room_manager.add_player(&room_id, player);
    proof {
        assert(player_asked(decoded_form(form_of(&req)), asked));
        assert(commanded(
            old(room_manager).list(),
            room_manager.list(),
            room_id@,
            r,
            |before: Room, after: Room| Room::player_added(&before, &after, asked, r),
        ));
    }
    answer(r)
}

/// What a declaration of readiness makes of the rooms, and what is
/// answered.
pub open spec fn ready_handled(
    req: &HttpRequest,
    before: Seq<Room>,
    after: Seq<Room>,
    response: Seq<char>,
) -> bool {
    &&& exists|r: Result<(), GameError>|
        #![trigger answer_text(r)]
        commanded(
            before,
            after,
            field_of(form_of(req), "room_id"@, ""@),
            r,
            |before: Room, after: Room|
                Room::readied(&before, &after, field_of(form_of(req), "player_id"@, ""@), r),
        ) && response == answer_text(r)
}

/// Marks a player as ready.
pub fn handle_mark_ready(req: HttpRequest, room_manager: &mut RoomManager) -> (response: String)
    requires
        old(room_manager).wf(),
    ensures
        final(room_manager).wf(),
        ready_handled(&req, old(room_manager).list(), final(room_manager).list(), response@),
{
    let form = read_form(&req);
    let room_id = field(&form, "room_id", "");
    let player_id = field(&form, "player_id", "");
    let r = room_manager.mark_ready(&room_id, &player_id);
    proof {
        assert(commanded(
            old(room_manager).list(),
            room_manager.list(),
            room_id@,
            r,
            |before: Room, after: Room| Room::readied(&before, &after, player_id@, r),
        ));
    }
    answer(r)
}

/// What a request to open the vote makes of the rooms, and what is
/// answered.
pub open spec fn start_voting_handled(
    req: &HttpRequest,
    before: Seq<Room>,
    after: Seq<Room>,
    response: Seq<char>,
) -> bool {
    &&& exists|r: Result<(), GameError>|
        #![trigger answer_text(r)]
        commanded(
            before,
            after,
            field_of(form_of(req), "room_id"@, ""@),
            r,
            |before: Room, after: Room| Room::vote_opened(&before, &after, r),
        ) && response == answer_text(r)
}

/// Opens the vote.
pub fn handle_start_voting(req: HttpRequest, room_manager: &mut RoomManager) -> (response: String)
    requires
        old(room_manager).wf(),
    ensures
        final(room_manager).wf(),
        start_voting_handled(&req, old(room_manager).list(), final(room_manager).list(), response@),
{
    let form = read_form(&req);
    let room_id = field(&form, "room_id", "");
    let r = room_manager.start_voting(&room_id);
    proof {
        assert(commanded(
            old(room_manager).list(),
            room_manager.list(),
            room_id@,
            r,
            |before: Room, after: Room| Room::vote_opened(&before, &after, r),
        ));
    }
    answer(r)
}

/// What a vote makes of the rooms, and what is answered.
pub open spec fn vote_handled(
    req: &HttpRequest,
    before: Seq<Room>,
    after: Seq<Room>,
    response: Seq<char>,
) -> bool {
    &&& exists|r: Result<(), GameError>|
        #![trigger answer_text(r)]
        commanded(
            before,
            after,
            field_of(form_of(req), "room_id"@, ""@),
            r,
            |before: Room, after: Room|
                Room::vote_taken(
                    &before,
                    &after,
                    field_of(form_of(req), "voter_id"@, ""@),
                    field_of(form_of(req), "target_id"@, ""@),
                    r,
                ),
        ) && response == answer_text(r)
}

/// Records a vote.
pub fn handle_vote(req: HttpRequest, room_manager: &mut RoomManager) -> (response: String)
    requires
        old(room_manager).wf(),
    ensures
        final(room_manager).wf(),
        vote_handled(&req, old(room_manager).list(), final(room_manager).list(), response@),
{
    let form = read_form(&req);
    let room_id = field(&form, "room_id", "");
    let voter_id = field(&form, "voter_id", "");
    let target_id = field(&form, "target_id", "");
    let r = room_manager.submit_vote(&room_id, &voter_id, &target_id);
    proof {
        assert(commanded(
            old(room_manager).list(),
            room_manager.list(),
            room_id@,
            r,
            |before: Room, after: Room|
                Room::vote_taken(&before, &after, voter_id@, target_id@, r),
        ));
    }
    answer(r)
}

/// What a confirmation makes of the rooms, and what is answered.
pub open spec fn confirmation_handled(
    req: &HttpRequest,
    before: Seq<Room>,
    after: Seq<Room>,
    response: Seq<char>,
) -> bool {
    &&& exists|r: Result<(), GameError>|
        #![trigger answer_text(r)]
        commanded(
            before,
            after,
            field_of(form_of(req), "room_id"@, ""@),
            r,
            |before: Room, after: Room|
                Room::confirmed(&before, &after, field_of(form_of(req), "player_id"@, ""@), r),
        ) && response == answer_text(r)
}

/// Records that a player has seen their word.
pub fn handle_confirm_theme(req: HttpRequest, room_manager: &mut RoomManager) -> (response: String)
    requires
        old(room_manager).wf(),
    ensures
        final(room_manager).wf(),
        confirmation_handled(&req, old(room_manager).list(), final(room_manager).list(), response@),
{
    let form = read_form(&req);
    let room_id = field(&form, "room_id", "");
    let player_id = field(&form, "player_id", "");
    let r = room_manager.confirm_theme(&room_id, &player_id);
    proof {
        assert(commanded(
            old(room_manager).list(),
            room_manager.list(),
            room_id@,
            r,
            |before: Room, after: Room| Room::confirmed(&before, &after, player_id@, r),
        ));
    }
    answer(r)
}

/// What a line of chat makes of the rooms, and what is answered.
pub open spec fn chat_handled(
    req: &HttpRequest,
    before: Seq<Room>,
    after: Seq<Room>,
    response: Seq<char>,
) -> bool {
    &&& field_of(decoded_form(form_of(req)), "message"@, ""@).len() == 0 ==> response
        == response_text("400 Bad Request"@, "text/plain"@, "Empty message"@) && after == before
    &&& field_of(decoded_form(form_of(req)), "message"@, ""@).len() > 0 ==> exists|
        r: Result<(), GameError>,
    |
        #![trigger answer_text(r)]
        commanded(
            before,
            after,
            field_of(decoded_form(form_of(req)), "room_id"@, ""@),
            r,
            |before: Room, after: Room|
                Room::chatted(
                    &before,
                    &after,
                    field_of(decoded_form(form_of(req)), "player_name"@, ""@),
                    field_of(decoded_form(form_of(req)), "message"@, ""@),
                    r,
                ),
        ) && response == answer_text(r)
}

/// Sends a line of chat to a room.  The values of the form are
/// percent-encoded.  An empty message is refused.
pub fn handle_chat_message(req: HttpRequest, room_manager: &mut RoomManager) -> (response: String)
    requires
        old(room_manager).wf(),
    ensures
        final(room_manager).wf(),
        chat_handled(&req, old(room_manager).list(), final(room_manager).list(), response@),
{
    let form = decode_form(&read_form(&req));
    let room_id = field(&form, "room_id", "");
    let player_name = field(&form, "player_name", "");
    let message = field(&form, "message", "");
    if message.as_str().unicode_len() == 0 {
        return HttpResponse::bad_request("Empty message");
    }
    let r = room_manager.send_chat_message(&room_id, player_name.as_str(), message.as_str());
    proof {
        assert(commanded(
            old(room_manager).list(),
            room_manager.list(),
            room_id@,
            r,
            |before: Room, after: Room|
                Room::chatted(&before, &after, player_name@, message@, r),
        ));
    }
    answer(r)
}

/// The ids in a JSON array, each as a string, with a comma and a space
/// between them.
pub open spec fn id_list(ids: Seq<Seq<char>>) -> Seq<char>
    decreases ids.len(),
{
    if ids.len() == 0 {
        Seq::empty()
    } else if ids.len() == 1 {
        json_quoted(ids[0])
    } else {
        id_list(ids.drop_last()) + ", "@ + json_quoted(ids.last())
    }
}

/// The ids of `rooms`, in their order.
pub open spec fn room_ids(rooms: Seq<Room>) -> Seq<Seq<char>> {
    rooms.map_values(|room: Room| room.name())
}

/// The response that lists the ids of `rooms`.
pub open spec fn rooms_listed(rooms: Seq<Room>) -> Seq<char> {
    response_text(
        "200 OK"@,
        "application/json"@,
        "{\"rooms\":["@ + id_list(room_ids(rooms)) + "]}"@,
    )
}

/// Lists the ids of all rooms.
pub fn handle_list_rooms(room_manager: &RoomManager) -> (response: String)
    ensures
        response@ == rooms_listed(room_manager.list()),
{
    let rooms = room_manager.list_rooms();
    let ghost ids = room_ids(room_manager.list());
    let mut json = String::from_str("{\"rooms\":[");
    let mut i: usize = 0;
    assert(id_list(ids.take(0)) == Seq::<char>::empty());
    assert("{\"rooms\":["@ + Seq::<char>::empty() == "{\"rooms\":["@);
    while i < rooms.len()
        invariant
            i <= rooms.len(),
            rooms@.len() == ids.len(),
            forall|j: int| 0 <= j < rooms@.len() ==> (#[trigger] rooms@[j])@ == ids[j],
            json@ == "{\"rooms\":["@ + id_list(ids.take(i as int)),
        decreases rooms.len() - i,
    {
        let ghost so_far = id_list(ids.take(i as int));
        proof {
            assert(ids.take(i + 1).drop_last() == ids.take(i as int));
            assert(ids.take(i + 1).last() == rooms@[i as int]@);
            if i == 0 {
                assert(ids.take(1)[0] == rooms@[0]@);
            }
        }
        if i > 0 {
            json.append(", ");
        }
        push_json_string(&mut json, rooms[i].as_str());
        proof {
            let head = "{\"rooms\":["@;
            let q = json_quoted(rooms@[i as int]@);
            if i > 0 {
                assert(((head + so_far) + ", "@) + q == head + (so_far + ", "@ + q));
            } else {
                assert((head + so_far) + q == head + q);
            }
        }
        i = i + 1;
    }
    assert(ids.take(rooms.len() as int) == ids);
    json.append("]}");
    HttpResponse::ok(json.as_str(), "application/json")
}

/// The response to a request that lacks what `message` names.
pub open spec fn missing_text(message: Seq<char>) -> Seq<char> {
    response_text("400 Bad Request"@, "text/plain"@, message)
}

/// What is answered to a request for the snapshot of a room.
pub open spec fn state_shown(req: &HttpRequest, rooms: Seq<Room>, response: Seq<char>) -> bool {
    &&& match lookup(req@.query_params, "room_id"@) {
        None => response == missing_text("Missing room_id"@),
        Some(room_id) => if has_room(rooms, room_id) {
            exists|room: Room| #[trigger]
                room_named(rooms, room_id, room) && response == response_text(
                    "200 OK"@,
                    "application/json"@,
                    room.snapshot(),
                )
        } else {
            response == response_text("404 Not Found"@, "text/plain"@, "Not Found"@)
        },
    }
}

/// Shows a snapshot of a room.
pub fn handle_room_state(req: HttpRequest, room_manager: &RoomManager) -> (response: String)
    requires
        room_manager.wf(),
    ensures
        state_shown(&req, room_manager.list(), response@),
{
    let room_id = match req.query("room_id") {
        Some(id) => id,
        None => {
            return HttpResponse::bad_request("Missing room_id");
        },
    };
    match room_manager.room(room_id) {
        Some(room) => {
            let state = room.get_state_snapshot();
            HttpResponse::ok(state.as_str(), "application/json")
        },
        None => HttpResponse::not_found(),
    }
}

/// The text that tells how much time is left.
pub open spec fn timer_text(remaining: Option<u64>) -> Seq<char> {
    match remaining {
        Some(seconds) => "{\"remaining\":"@ + decimal_digits(seconds as nat) + "}"@,
        None => "{\"remaining\":null}"@,
    }
}

/// The response that tells how much time is left.
pub fn timer_response(remaining: Option<u64>) -> (response: String)
    ensures
        response@ == response_text("200 OK"@, "application/json"@, timer_text(remaining)),
{
    let json = match remaining {
        Some(seconds) => {
            let mut json = String::from_str("{\"remaining\":");
            json.append(decimal(seconds).as_str());
            json.append("}");
            json
        },
        None => String::from_str("{\"remaining\":null}"),
    };
    HttpResponse::ok(json.as_str(), "application/json")
}

/// What is answered to a request for the time left in a room.
pub open spec fn timer_shown(req: &HttpRequest, rooms: Seq<Room>, response: Seq<char>) -> bool {
    &&& match lookup(req@.query_params, "room_id"@) {
        None => response == missing_text("Missing room_id"@),
        Some(room_id) => if has_room(rooms, room_id) {
            exists|room: Room, elapsed: Option<u64>| #[trigger]
                room_named(rooms, room_id, room) && response == response_text(
                    "200 OK"@,
                    "application/json"@,
                    timer_text(#[trigger] room.remaining(elapsed)),
                )
        } else {
            response == error_text(GameError::NotFound)
        },
    }
}

/// Tells how much of the discussion time of a room is left.
pub fn handle_get_timer(req: HttpRequest, room_manager: &RoomManager) -> (response: String)
    requires
        room_manager.wf(),
    ensures
        timer_shown(&req, room_manager.list(), response@),
{
    let room_id = match req.query("room_id") {
        Some(id) => id,
        None => {
            return HttpResponse::bad_request("Missing room_id");
        },
    };
    match room_manager.room(room_id) {
        Some(room) => {
            let remaining = room.get_remaining_time();
            let response = timer_response(remaining);
            proof {
                let elapsed = choose|elapsed: Option<u64>|
                    remaining == #[trigger] room.remaining(elapsed);
                assert(room_named(room_manager.list(), room_id@, *room));
                assert(response@ == response_text(
                    "200 OK"@,
                    "application/json"@,
                    timer_text(room.remaining(elapsed)),
                ));
            }
            response
        },
        None => error_response(GameError::NotFound),
    }
}

/// A player in a listing: id, name and whether they are still in the
/// game.  Neither role nor word is shown.
pub open spec fn listed_player(player: Player) -> Seq<char> {
    "{\"id\":"@ + json_quoted(player@.id) + ",\"name\":"@ + json_quoted(player@.name)
        + ",\"alive\":"@ + (if player@.active {
        "true"@
    } else {
        "false"@
    }) + "}"@
}

/// The players in a JSON array, with commas between them.
pub open spec fn player_list(players: Seq<Player>) -> Seq<char>
    decreases players.len(),
{
    if players.len() == 0 {
        Seq::empty()
    } else if players.len() == 1 {
        listed_player(players[0])
    } else {
        player_list(players.drop_last()) + ","@ + listed_player(players.last())
    }
}

/// The listing of the players of a room.
pub fn players_json(room: &Room) -> (json: String)
    ensures
        json@ == "["@ + player_list(room.roster()) + "]"@,
{
    let players = room.players();
    let mut json = String::from_str("[");
    let mut i: usize = 0;
    assert(player_list(players@.take(0)) == Seq::<char>::empty());
    assert("["@ + Seq::<char>::empty() == "["@);
    while i < players.len()
        invariant
            i <= players.len(),
            json@ == "["@ + player_list(players@.take(i as int)),
        decreases players.len() - i,
    {
        let ghost so_far = player_list(players@.take(i as int));
        let ghost before = json@;
        proof {
            assert(players@.take(i + 1).drop_last() == players@.take(i as int));
            assert(players@.take(i + 1).last() == players@[i as int]);
            if i == 0 {
                assert(players@.take(1)[0] == players@[0]);
            }
        }
        if i > 0 {
            json.append(",");
        }
        let ghost lead = json@;
        let player = &players[i];
        json.append("{\"id\":");
        push_json_string(&mut json, player.id().as_str());
        json.append(",\"name\":");
        push_json_string(&mut json, player.name());
        json.append(",\"alive\":");
        if player.is_active() {
            json.append("true");
        } else {
            json.append("false");
        }
        json.append("}");
        proof {
            let item = listed_player(players@[i as int]);
            let word = if players@[i as int]@.active {
                "true"@
            } else {
                "false"@
            };
            assert(json@ == lead + item) by {
                assert(((((((lead + "{\"id\":"@) + json_quoted(players@[i as int]@.id))
                    + ",\"name\":"@) + json_quoted(players@[i as int]@.name)) + ",\"alive\":"@)
                    + word) + "}"@ == lead + item);
            }
            if i > 0 {
                assert((("["@ + so_far) + ","@) + item == "["@ + (so_far + ","@ + item));
            } else {
                assert(("["@ + so_far) + item == "["@ + item);
            }
        }
        i = i + 1;
    }
    assert(players@.take(players.len() as int) == players@);
    json.append("]");
    json
}

/// What is answered to a request for the players of a room.
pub open spec fn players_shown(req: &HttpRequest, rooms: Seq<Room>, response: Seq<char>) -> bool {
    &&& match lookup(req@.query_params, "room_id"@) {
        None => response == missing_text("Missing room_id"@),
        Some(room_id) => if has_room(rooms, room_id) {
            exists|room: Room| #[trigger]
                room_named(rooms, room_id, room) && response == response_text(
                    "200 OK"@,
                    "application/json"@,
                    "["@ + player_list(room.roster()) + "]"@,
                )
        } else {
            response == error_text(GameError::NotFound)
        },
    }
}

/// Lists the players of a room.
pub fn handle_get_players(req: HttpRequest, room_manager: &RoomManager) -> (response: String)
    requires
        room_manager.wf(),
    ensures
        players_shown(&req, room_manager.list(), response@),
{
    let room_id = match req.query("room_id") {
        Some(id) => id,
        None => {
            return HttpResponse::bad_request("Missing room_id");
        },
    };
    match room_manager.room(room_id) {
        Some(room) => {
            let json = players_json(room);
            HttpResponse::ok(json.as_str(), "application/json")
        },
        None => error_response(GameError::NotFound),
    }
}

/// What a player is told of their own deal: their word and their role.
pub open spec fn deal_text(player: Player) -> Seq<char> {
    "{\"theme\":"@ + json_quoted(player@.theme->Some_0) + ",\"role\":\""@ + (if player@.role
        == Some(Role::Wolf) {
        "Wolf"@
    } else {
        "Citizen"@
    }) + "\"}"@
}

/// What the room answers to the player `player_id` who asks for their
/// deal: the deal, `NotFound` for a stranger, `InvalidPhase` before
/// the words are dealt.
pub open spec fn deal_answer(room: Room, player_id: Seq<char>, response: Seq<char>) -> bool {
    if !has_player(room.roster(), player_id) {
        response == error_text(GameError::NotFound)
    } else {
        exists|i: int|
            0 <= i < room.roster().len() && (#[trigger] room.roster()[i])@.id == player_id && response
                == (if room.roster()[i]@.theme is Some {
                response_text("200 OK"@, "application/json"@, deal_text(room.roster()[i]))
            } else {
                error_text(GameError::InvalidPhase)
            })
    }
}

/// What is answered to a player who asks for their deal.
pub open spec fn deal_shown(req: &HttpRequest, rooms: Seq<Room>, response: Seq<char>) -> bool {
    &&& match (lookup(req@.query_params, "room_id"@), lookup(req@.query_params, "player_id"@)) {
        (None, _) => response == missing_text("Missing room_id"@),
        (Some(_), None) => response == missing_text("Missing player_id"@),
        (Some(room_id), Some(player_id)) => if has_room(rooms, room_id) {
            exists|room: Room| #[trigger]
                room_named(rooms, room_id, room) && deal_answer(
                    room,
                    player_id,
                    response,
                )
        } else {
            response == error_text(GameError::NotFound)
        },
    }
}

/// Tells a player their word and their role.
#[verifier::loop_isolation(false)]
pub fn handle_get_player_theme(req: HttpRequest, room_manager: &RoomManager) -> (response: String)
    requires
        room_manager.wf(),
    ensures
        deal_shown(&req, room_manager.list(), response@),
{
    let room_id = match req.query("room_id") {
        Some(id) => id,
        None => {
            return HttpResponse::bad_request("Missing room_id");
        },
    };
    let player_id = match req.query("player_id") {
        Some(id) => id,
        None => {
            return HttpResponse::bad_request("Missing player_id");
        },
    };
    let room = match room_manager.room(room_id) {
        Some(room) => room,
        None => {
            return error_response(GameError::NotFound);
        },
    };
    let players = room.players();
    let mut i: usize = 0;
    while i < players.len()
        invariant
            i <= players.len(),
            players@ == room.roster(),
            forall|j: int| 0 <= j < i ==> (#[trigger] players@[j])@.id != player_id@,
        decreases players.len() - i,
    {
        if *players[i].id() == *player_id {
            let player = &players[i];
            let response = match player.theme() {
                Some(theme) => {
                    let mut json = String::from_str("{\"theme\":");
                    push_json_string(&mut json, theme);
                    json.append(",\"role\":\"");
                    if player.is_wolf() {
                        json.append("Wolf");
                    } else {
                        json.append("Citizen");
                    }
                    json.append("\"}");
                    HttpResponse::ok(json.as_str(), "application/json")
                },
                None => error_response(GameError::InvalidPhase),
            };
            proof {
                let found = room.roster()[i as int];
                assert(found@.id == player_id@);
                if found@.theme is Some {
                    let word = if found@.role == Some(Role::Wolf) {
                        "Wolf"@
                    } else {
                        "Citizen"@
                    };
                    assert(((("{\"theme\":"@ + json_quoted(found@.theme->Some_0))
                        + ",\"role\":\""@) + word) + "\"}"@ == deal_text(found));
                }
                assert(deal_answer(*room, player_id@, response@));
                assert(room_named(room_manager.list(), room_id@, *room));
            }
            return response;
        }
        i = i + 1;
    }
    let response = error_response(GameError::NotFound);
    proof {
        assert(deal_answer(*room, player_id@, response@));
        assert(room_named(room_manager.list(), room_id@, *room));
    }
    response
}

/// Where a request goes.
#[derive(Debug, PartialEq, Eq)]
pub enum Routed {
    /// The request is answered with this response.
    Respond(String),
    /// The client asks for the events of a room: the connection stays
    /// open and becomes a sink of the room, if the request names one.
    OpenEvents { room_id: Option<String> },
    /// The client asks for the file of this name.
    ServeFile(String),
}

/// Where a request goes, with texts in place of strings.
pub enum RoutedView {
    Respond(Seq<char>),
    OpenEvents { room_id: Option<Seq<char>> },
    ServeFile(Seq<char>),
}

impl View for Routed {
    type V = RoutedView;

    open spec fn view(&self) -> RoutedView {
        match *self {
            Routed::Respond(response) => RoutedView::Respond(response@),
            Routed::OpenEvents { room_id } => RoutedView::OpenEvents {
                room_id: match room_id {
                    Some(id) => Some(id@),
                    None => None,
                },
            },
            Routed::ServeFile(name) => RoutedView::ServeFile(name@),
        }
    }
}

/// Whether a path ends in `.html`.
pub open spec fn is_page(path: Seq<char>) -> bool {
    path.len() >= 5 && path.subrange(path.len() - 5, path.len() as int) == ".html"@
}

fn page(path: &Vec<char>) -> (b: bool)
    ensures
        b == is_page(path@),
{
    let n = path.len();
    if n < 5 {
        return false;
    }
    proof {
        reveal_strlit(".html");
        let tail = path@.subrange(n - 5, n as int);
        assert(tail[0] == path@[n - 5] && tail[1] == path@[n - 4] && tail[2] == path@[n - 3]
            && tail[3] == path@[n - 2] && tail[4] == path@[n - 1]);
        if path@[n - 5] == '.' && path@[n - 4] == 'h' && path@[n - 3] == 't' && path@[n - 2] == 'm'
            && path@[n - 1] == 'l' {
            assert(tail =~= ".html"@);
        }
    }
    path[n - 5] == '.' && path[n - 4] == 'h' && path[n - 3] == 't' && path[n - 2] == 'm' && path[n
        - 1] == 'l'
}

/// The response in `routed`, if it holds one.
pub open spec fn response_of(routed: RoutedView) -> Option<Seq<char>> {
    match routed {
        RoutedView::Respond(response) => Some(response),
        _ => None,
    }
}

/// Where a request goes, what it makes of the rooms, and what is
/// answered.
///
/// A question before a request across origins is answered at once.  A
/// request for events or for a page is handed back; so is a request
/// for `/`, which asks for the login page.  A request with a handler
/// goes to its handler.  Everything else is not found.
pub open spec fn routed_to(
    req: &HttpRequest,
    before: Seq<Room>,
    after: Seq<Room>,
    routed: RoutedView,
) -> bool {
    let path = req@.path;
    match req.method {
        Method::OPTIONS => routed == RoutedView::Respond(
            "HTTP/1.1 200 OK\r\nAccess-Control-Allow-Origin: *\r\nAccess-Control-Allow-Methods: GET, POST, OPTIONS\r\nAccess-Control-Allow-Headers: Content-Type\r\nContent-Length: 0\r\n\r\n"@,
        ) && after == before,
        Method::GET => {
            if path == "/events"@ {
                routed == (RoutedView::OpenEvents {
                    room_id: lookup(req@.query_params, "room_id"@),
                }) && after == before
            } else if path == "/room/list"@ {
                routed == RoutedView::Respond(rooms_listed(before)) && after == before
            } else if path == "/room/state"@ {
                response_of(routed) is Some && state_shown(req, before, response_of(routed)->Some_0)
                    && after == before
            } else if path == "/room/players"@ {
                response_of(routed) is Some && players_shown(
                    req,
                    before,
                    response_of(routed)->Some_0,
                ) && after == before
            } else if path == "/room/timer"@ {
                response_of(routed) is Some && timer_shown(req, before, response_of(routed)->Some_0)
                    && after == before
            } else if path == "/player/theme"@ {
                response_of(routed) is Some && deal_shown(req, before, response_of(routed)->Some_0)
                    && after == before
            } else if path == "/"@ {
                routed == RoutedView::ServeFile("login.html"@) && after == before
            } else if is_page(path) {
                routed == RoutedView::ServeFile(path.skip(1)) && after == before
            } else {
                routed == RoutedView::Respond(
                    response_text("404 Not Found"@, "text/plain"@, "Not Found"@),
                ) && after == before
            }
        },
        Method::POST => {
            if path == "/room/create"@ {
                response_of(routed) is Some && room_creation_handled(
                    req,
                    before,
                    after,
                    response_of(routed)->Some_0,
                )
            } else if path == "/room/join"@ {
                response_of(routed) is Some && join_handled(
                    req,
                    before,
                    after,
                    response_of(routed)->Some_0,
                )
            } else if path == "/room/ready"@ {
                response_of(routed) is Some && ready_handled(
                    req,
                    before,
                    after,
                    response_of(routed)->Some_0,
                )
            } else if path == "/room/start-vote"@ {
                response_of(routed) is Some && start_voting_handled(
                    req,
                    before,
                    after,
                    response_of(routed)->Some_0,
                )
            } else if path == "/room/vote"@ {
                response_of(routed) is Some && vote_handled(
                    req,
                    before,
                    after,
                    response_of(routed)->Some_0,
                )
            } else if path == "/room/theme/confirm"@ {
                response_of(routed) is Some && confirmation_handled(
                    req,
                    before,
                    after,
                    response_of(routed)->Some_0,
                )
            } else if path == "/room/chat"@ {
                response_of(routed) is Some && chat_handled(
                    req,
                    before,
                    after,
                    response_of(routed)->Some_0,
                )
            } else {
                routed == RoutedView::Respond(
                    response_text("404 Not Found"@, "text/plain"@, "Not Found"@),
                ) && after == before
            }
        },
    }
}

/// Sends a request to its handler.
///
/// A request for the events of a room and a request for a page are
/// handed back to the caller, who holds the connection and the files;
/// every other request is answered here.
pub fn route_request(req: HttpRequest, room_manager: &mut RoomManager) -> (routed: Routed)
    requires
        old(room_manager).wf(),
    ensures
        final(room_manager).wf(),
        routed_to(&req, old(room_manager).list(), final(room_manager).list(), routed@),
{
    if req.method == Method::OPTIONS {
        return Routed::Respond(HttpResponse::cors_preflight());
    }
    let path = req.path.as_str();
    match req.method {
        Method::GET => {
            if text_eq(path, "/events") {
                let room_id = match req.query("room_id") {
                    Some(id) => Some(id.clone()),
                    None => None,
                };
                Routed::OpenEvents { room_id }
            } else if text_eq(path, "/room/list") {
                Routed::Respond(handle_list_rooms(room_manager))
            } else if text_eq(path, "/room/state") {
                Routed::Respond(handle_room_state(req, room_manager))
            } else if text_eq(path, "/room/players") {
                Routed::Respond(handle_get_players(req, room_manager))
            } else if text_eq(path, "/room/timer") {
                Routed::Respond(handle_get_timer(req, room_manager))
            } else if text_eq(path, "/player/theme") {
                Routed::Respond(handle_get_player_theme(req, room_manager))
            } else if text_eq(path, "/") {
                Routed::ServeFile(String::from_str("login.html"))
            } else {
                let chars = chars_of(path);
                if page(&chars) {
                    let name = crate::network::scan::piece_text(&chars, 1, chars.len());
                    assert(chars@.subrange(1, chars.len() as int) == chars@.skip(1));
                    Routed::ServeFile(name)
                } else {
                    Routed::Respond(HttpResponse::not_found())
                }
            }
        },
        Method::POST => {
            if text_eq(path, "/room/create") {
                Routed::Respond(handle_create_room(req, room_manager))
            } else if text_eq(path, "/room/join") {
                Routed::Respond(handle_join_room(req, room_manager))
            } else if text_eq(path, "/room/ready") {
                Routed::Respond(handle_mark_ready(req, room_manager))
            } else if text_eq(path, "/room/start-vote") {
                Routed::Respond(handle_start_voting(req, room_manager))
            } else if text_eq(path, "/room/vote") {
                Routed::Respond(handle_vote(req, room_manager))
            } else if text_eq(path, "/room/theme/confirm") {
                Routed::Respond(handle_confirm_theme(req, room_manager))
            } else if text_eq(path, "/room/chat") {
                Routed::Respond(handle_chat_message(req, room_manager))
            } else {
                Routed::Respond(HttpResponse::not_found())
            }
        },
        Method::OPTIONS => Routed::Respond(HttpResponse::cors_preflight()),
    }
}

} // verus!
