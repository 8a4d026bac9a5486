use wordwolf::game::Player;
use wordwolf::network::handlers::{
    answer, error_response, handle_chat_message, handle_confirm_theme, handle_create_room,
    handle_get_player_theme, handle_get_players, handle_get_timer, handle_join_room,
    handle_list_rooms, handle_mark_ready, handle_room_state, handle_start_voting, handle_vote,
    players_json, timer_response, Routed,
};
use wordwolf::network::{route_request, HttpRequest, HttpResponse};
use wordwolf::rooms::RoomManager;
use wordwolf::types::{GameError, RoomConfig, ThemeGenre};

fn post(path: &str, body: &str) -> HttpRequest {
    HttpRequest::parse(&format!("POST {} HTTP/1.1\r\nContent-Type: text/plain\r\n\r\n{}", path, body))
        .unwrap()
}

fn get(target: &str) -> HttpRequest {
    HttpRequest::parse(&format!("GET {} HTTP/1.1\r\n\r\n", target)).unwrap()
}

fn ok(body: &str, content_type: &str) -> String {
    HttpResponse::ok(body, content_type)
}

fn plain_ok() -> String {
    ok("OK", "text/plain")
}

fn status(response: &str) -> &str {
    response.split("\r\n").next().unwrap()
}

fn body(response: &str) -> &str {
    response.split("\r\n\r\n").nth(1).unwrap()
}

/// A registry with the room `r1` (three seats, one wolf) and the
/// players p1, p2, p3 in it.
fn registry() -> RoomManager {
    let mut manager = RoomManager::new();
    let created = handle_create_room(
        post("/room/create", "room_id=r1&room_name=Test&max_players=3&wolf_count=1&discussion_time=60&genre=Animal"),
        &mut manager,
    );
    assert_eq!(created, ok("{\"room_id\":\"r1\"}", "application/json"));
    for (id, name) in [("p1", "Alice"), ("p2", "Bob"), ("p3", "%E3%81%82+%22x%22")] {
        let joined = handle_join_room(
            post("/room/join", &format!("room_id=r1&player_id={}&player_name={}", id, name)),
            &mut manager,
        );
        assert_eq!(joined, plain_ok());
    }
    manager
}

fn discussing() -> RoomManager {
    let mut manager = registry();
    for id in ["p1", "p2", "p3"] {
        let r = handle_mark_ready(post("/room/ready", &format!("room_id=r1&player_id={}", id)), &mut manager);
        assert_eq!(r, plain_ok());
    }
    for id in ["p1", "p2", "p3"] {
        let r = handle_confirm_theme(
            post("/room/theme/confirm", &format!("player_id={}&room_id=r1", id)),
            &mut manager,
        );
        assert_eq!(r, plain_ok());
    }
    manager
}

#[test]
fn errors_get_their_status() {
    assert_eq!(answer(Ok(())), plain_ok());
    assert_eq!(status(&error_response(GameError::NotFound)), "HTTP/1.1 404 Not Found");
    assert_eq!(body(&error_response(GameError::NotFound)), "Not found");
    assert_eq!(status(&error_response(GameError::RoomFull)), "HTTP/1.1 403 Forbidden");
    assert_eq!(body(&error_response(GameError::RoomFull)), "Room is full");
    assert_eq!(status(&error_response(GameError::AlreadyExists)), "HTTP/1.1 403 Forbidden");
    for e in [
        GameError::InvalidPhase,
        GameError::DuplicateSubmission,
        GameError::InsufficientKeywords,
        GameError::InvalidConfig,
    ] {
        assert_eq!(status(&error_response(e)), "HTTP/1.1 400 Bad Request");
        assert_eq!(body(&answer(Err(e))), e.message());
    }
}

#[test]
fn create_room_reads_the_form_and_has_defaults() {
    let mut manager = RoomManager::new();
    let r = handle_create_room(post("/room/create", "room_id=a"), &mut manager);
    assert_eq!(r, ok("{\"room_id\":\"a\"}", "application/json"));
    let config = manager.room(&"a".to_string()).unwrap().config().clone();
    assert_eq!(config.room_name, "Unnamed");
    assert_eq!(config.max_players, 4);
    assert_eq!(config.wolf_count, 1);
    assert_eq!(config.discussion_time, 180);
    assert_eq!(config.voting_time, 10);
    assert_eq!(config.theme_genre, ThemeGenre::Food);

    let r = handle_create_room(
        post(
            "/room/create",
            "room_id=b%20c&room_name=My+Room&max_players=+9&wolf_count=4&discussion_time=0090&genre=Place",
        ),
        &mut manager,
    );
    // The fields of this form are taken as they are.
    assert_eq!(r, ok("{\"room_id\":\"b%20c\"}", "application/json"));
    let config = manager.room(&"b%20c".to_string()).unwrap().config().clone();
    assert_eq!(config.room_name, "My+Room");
    assert_eq!(config.max_players, 9);
    assert_eq!(config.wolf_count, 4);
    assert_eq!(config.discussion_time, 90);
    assert_eq!(config.theme_genre, ThemeGenre::Place);

    // What is no number, or no genre, gives the default.
    let r = handle_create_room(
        post("/room/create", "room_id=d&max_players=many&wolf_count=-1&discussion_time=99999999999999999999&genre=food"),
        &mut manager,
    );
    assert_eq!(status(&r), "HTTP/1.1 200 OK");
    let config = manager.room(&"d".to_string()).unwrap().config().clone();
    assert_eq!((config.max_players, config.wolf_count, config.discussion_time), (4, 1, 180));
    assert_eq!(config.theme_genre, ThemeGenre::Food);
    for (word, genre) in [("Animal", ThemeGenre::Animal), ("Object", ThemeGenre::Object)] {
        handle_create_room(post("/room/create", &format!("room_id={}&genre={}", word, word)), &mut manager);
        assert_eq!(manager.room(&word.to_string()).unwrap().config().theme_genre, genre);
    }

    // No id is the empty id.
    let r = handle_create_room(post("/room/create", ""), &mut manager);
    assert_eq!(r, ok("{\"room_id\":\"\"}", "application/json"));
    assert!(manager.room_exists(&"".to_string()));
}

#[test]
fn create_room_errors() {
    let mut manager = registry();
    let r = handle_create_room(post("/room/create", "room_id=r1"), &mut manager);
    assert_eq!(r, error_response(GameError::AlreadyExists));
    let r = handle_create_room(post("/room/create", "room_id=r2&max_players=2"), &mut manager);
    assert_eq!(r, error_response(GameError::InvalidConfig));
    let r = handle_create_room(post("/room/create", "room_id=r2&wolf_count=2"), &mut manager);
    assert_eq!(r, error_response(GameError::InvalidConfig));
    assert_eq!(manager.list_rooms(), vec!["r1".to_string()]);
    let r = handle_create_room(post("/room/create", "room_id=q\"uote"), &mut manager);
    assert_eq!(body(&r), "{\"room_id\":\"q\\\"uote\"}");
}

#[test]
fn join_decodes_names_and_reports_errors() {
    let mut manager = registry();
    let room = manager.room(&"r1".to_string()).unwrap();
    let names: Vec<&str> = room.players().iter().map(|p| p.name()).collect();
    assert_eq!(names, vec!["Alice", "Bob", "あ \"x\""]);
    let r = handle_join_room(post("/room/join", "room_id=r1&player_id=p4&player_name=D"), &mut manager);
    assert_eq!(r, error_response(GameError::RoomFull));
    let r = handle_join_room(post("/room/join", "room_id=zz&player_id=p4"), &mut manager);
    assert_eq!(r, error_response(GameError::NotFound));

    handle_create_room(post("/room/create", "room_id=r+2"), &mut manager);
    let r = handle_join_room(post("/room/join", "room_id=r%2B2"), &mut manager);
    assert_eq!(r, plain_ok());
    let room = manager.room(&"r+2".to_string()).unwrap();
    assert_eq!(room.players()[0].id(), "");
    assert_eq!(room.players()[0].name(), "Unknown");
}

#[test]
fn a_game_through_the_handlers() {
    let mut manager = discussing();
    let chat = handle_chat_message(
        post("/room/chat", "room_id=r1&player_id=p1&player_name=Alice&message=hello+%E4%B8%96%E7%95%8C"),
        &mut manager,
    );
    assert_eq!(chat, plain_ok());
    assert_eq!(
        handle_room_state(get("/room/state?room_id=r1"), &manager),
        ok("{\"room_id\":\"r1\",\"player_count\":3,\"max_players\":3,\"state\":\"discussion\",\"discussion_time\":60,\"voting_time\":10}", "application/json")
    );
    let timer = handle_get_timer(get("/room/timer?room_id=r1"), &manager);
    assert!(timer == timer_response(Some(60)) || timer == timer_response(Some(59)));
    assert_eq!(body(&timer_response(Some(60))), "{\"remaining\":60}");

    let vote_early = handle_vote(post("/room/vote", "room_id=r1&voter_id=p1&target_id=p2"), &mut manager);
    assert_eq!(vote_early, error_response(GameError::InvalidPhase));
    assert_eq!(handle_start_voting(post("/room/start-vote", "room_id=r1"), &mut manager), plain_ok());
    assert_eq!(
        handle_start_voting(post("/room/start-vote", "room_id=r1"), &mut manager),
        error_response(GameError::InvalidPhase)
    );
    assert_eq!(body(&handle_get_timer(get("/room/timer?room_id=r1"), &manager)), "{\"remaining\":null}");
    for voter in ["p1", "p2", "p3"] {
        let r = handle_vote(
            post("/room/vote", &format!("room_id=r1&voter_id={}&target_id=p2", voter)),
            &mut manager,
        );
        assert_eq!(r, plain_ok());
    }
    let room = manager.room(&"r1".to_string()).unwrap();
    assert!(room.state().is_finished());
    assert!(!room.players()[1].is_active());
    assert_eq!(
        body(&handle_get_players(get("/room/players?room_id=r1"), &manager)),
        "[{\"id\":\"p1\",\"name\":\"Alice\",\"alive\":true},{\"id\":\"p2\",\"name\":\"Bob\",\"alive\":false},{\"id\":\"p3\",\"name\":\"あ \\\"x\\\"\",\"alive\":true}]"
    );
    let r = handle_vote(post("/room/vote", "room_id=r1&voter_id=p1&target_id=p1"), &mut manager);
    assert_eq!(r, error_response(GameError::InvalidPhase));
}

#[test]
fn command_errors() {
    let mut manager = registry();
    assert_eq!(
        handle_mark_ready(post("/room/ready", "room_id=zz&player_id=p1"), &mut manager),
        error_response(GameError::NotFound)
    );
    assert_eq!(
        handle_mark_ready(post("/room/ready", "room_id=r1&player_id=zz"), &mut manager),
        error_response(GameError::NotFound)
    );
    assert_eq!(
        handle_mark_ready(post("/room/ready", "player_id=p1"), &mut manager),
        error_response(GameError::NotFound)
    );
    assert_eq!(
        handle_confirm_theme(post("/room/theme/confirm", "room_id=r1&player_id=p1"), &mut manager),
        error_response(GameError::InvalidPhase)
    );
    assert_eq!(
        handle_start_voting(post("/room/start-vote", "room_id=zz"), &mut manager),
        error_response(GameError::NotFound)
    );
    assert_eq!(
        handle_vote(post("/room/vote", "room_id=r1&voter_id=p1"), &mut manager),
        error_response(GameError::NotFound)
    );
    assert_eq!(
        handle_chat_message(post("/room/chat", "room_id=r1&player_name=A&message=hi"), &mut manager),
        error_response(GameError::InvalidPhase)
    );
    assert_eq!(
        handle_chat_message(post("/room/chat", "room_id=r1&player_name=A&message="), &mut manager),
        HttpResponse::bad_request("Empty message")
    );
    assert_eq!(
        handle_chat_message(post("/room/chat", "room_id=r1"), &mut manager),
        HttpResponse::bad_request("Empty message")
    );
    let mut manager = discussing();
    assert_eq!(
        handle_chat_message(post("/room/chat", "room_id=zz&message=hi"), &mut manager),
        error_response(GameError::NotFound)
    );
}

#[test]
fn listings() {
    let mut manager = RoomManager::new();
    assert_eq!(handle_list_rooms(&manager), ok("{\"rooms\":[]}", "application/json"));
    for id in ["a", "b\\c", "あ"] {
        manager
            .create_room(id.to_string(), RoomConfig::new("n".to_string(), 4, 1, ThemeGenre::Food, 9))
            .unwrap();
    }
    assert_eq!(
        handle_list_rooms(&manager),
        ok("{\"rooms\":[\"a\", \"b\\\\c\", \"あ\"]}", "application/json")
    );
    assert_eq!(body(&handle_get_players(get("/room/players?room_id=a"), &manager)), "[]");
    manager.add_player(&"a".to_string(), Player::new("x".to_string(), "y".to_string())).unwrap();
    assert_eq!(
        players_json(manager.room(&"a".to_string()).unwrap()),
        "[{\"id\":\"x\",\"name\":\"y\",\"alive\":true}]"
    );
}

#[test]
fn queries_need_their_fields() {
    let manager = registry();
    let missing = HttpResponse::bad_request("Missing room_id");
    assert_eq!(handle_room_state(get("/room/state"), &manager), missing);
    assert_eq!(handle_get_timer(get("/room/timer?room=r1"), &manager), missing);
    assert_eq!(handle_get_players(get("/room/players?"), &manager), missing);
    assert_eq!(handle_get_player_theme(get("/player/theme?player_id=p1"), &manager), missing);
    assert_eq!(
        handle_get_player_theme(get("/player/theme?room_id=r1"), &manager),
        HttpResponse::bad_request("Missing player_id")
    );
    assert_eq!(handle_room_state(get("/room/state?room_id=zz"), &manager), HttpResponse::not_found());
    assert_eq!(
        handle_get_timer(get("/room/timer?room_id=zz"), &manager),
        error_response(GameError::NotFound)
    );
    assert_eq!(
        handle_get_players(get("/room/players?room_id=zz"), &manager),
        error_response(GameError::NotFound)
    );
    assert_eq!(
        handle_get_player_theme(get("/player/theme?room_id=zz&player_id=p1"), &manager),
        error_response(GameError::NotFound)
    );
    assert_eq!(
        handle_get_player_theme(get("/player/theme?room_id=r1&player_id=zz"), &manager),
        error_response(GameError::NotFound)
    );
    // Before the game starts nobody holds a word.
    assert_eq!(
        handle_get_player_theme(get("/player/theme?room_id=r1&player_id=p1"), &manager),
        error_response(GameError::InvalidPhase)
    );
    assert_eq!(body(&handle_get_timer(get("/room/timer?room_id=r1"), &manager)), "{\"remaining\":null}");
}

#[test]
fn players_learn_their_own_deal() {
    let manager = discussing();
    let room = manager.room(&"r1".to_string()).unwrap();
    let animal = [("犬", "猫"), ("ライオン", "トラ"), ("イルカ", "クジラ")];
    let mut wolves = 0;
    for p in room.players().iter() {
        let r = handle_get_player_theme(
            get(&format!("/player/theme?room_id=r1&player_id={}", p.id())),
            &manager,
        );
        let role = if p.is_wolf() { "Wolf" } else { "Citizen" };
        let expected = format!("{{\"theme\":\"{}\",\"role\":\"{}\"}}", p.theme().unwrap(), role);
        assert_eq!(r, ok(&expected, "application/json"));
        assert!(animal.iter().any(|(c, w)| p.theme() == Some(if p.is_wolf() { w } else { c })));
        if p.is_wolf() {
            wolves += 1;
        }
    }
    assert_eq!(wolves, 1);
}

#[test]
fn routing() {
    let mut manager = registry();
    let options = HttpRequest::parse("OPTIONS /room/join HTTP/1.1\r\n\r\n").unwrap();
    assert_eq!(route_request(options, &mut manager), Routed::Respond(HttpResponse::cors_preflight()));
    assert_eq!(
        route_request(get("/events?room_id=r1&id=7"), &mut manager),
        Routed::OpenEvents { room_id: Some("r1".to_string()) }
    );
    assert_eq!(route_request(get("/events"), &mut manager), Routed::OpenEvents { room_id: None });
    assert_eq!(route_request(get("/"), &mut manager), Routed::ServeFile("login.html".to_string()));
    assert_eq!(
        route_request(get("/game/lobby.html?x=1"), &mut manager),
        Routed::ServeFile("game/lobby.html".to_string())
    );
    assert_eq!(route_request(get("あ.html"), &mut manager), Routed::ServeFile(".html".to_string()));
    let not_found = Routed::Respond(HttpResponse::not_found());
    assert_eq!(route_request(get("/nothing"), &mut manager), not_found);
    assert_eq!(route_request(get("/x.htm"), &mut manager), not_found);
    assert_eq!(route_request(post("/", ""), &mut manager), not_found);
    assert_eq!(route_request(post("/page.html", ""), &mut manager), not_found);
    assert_eq!(route_request(post("/room/list", ""), &mut manager), not_found);
    assert_eq!(route_request(get("/room/join"), &mut manager), not_found);
    assert_eq!(route_request(post("/events", ""), &mut manager), not_found);

    assert_eq!(
        route_request(get("/room/list"), &mut manager),
        Routed::Respond(ok("{\"rooms\":[\"r1\"]}", "application/json"))
    );
    assert_eq!(
        route_request(get("/room/state?room_id=r1"), &mut manager),
        Routed::Respond(ok(
            "{\"room_id\":\"r1\",\"player_count\":3,\"max_players\":3,\"state\":\"lobby\",\"discussion_time\":60,\"voting_time\":10}",
            "application/json"
        ))
    );
    assert_eq!(
        route_request(get("/room/timer?room_id=r1"), &mut manager),
        Routed::Respond(timer_response(None))
    );
    assert_eq!(
        route_request(get("/player/theme?room_id=r1&player_id=p1"), &mut manager),
        Routed::Respond(error_response(GameError::InvalidPhase))
    );
    match route_request(get("/room/players?room_id=r1"), &mut manager) {
        Routed::Respond(r) => assert!(body(&r).starts_with("[{\"id\":\"p1\"")),
        other => panic!("{:?}", other),
    }
    assert_eq!(
        route_request(post("/room/create", "room_id=r2"), &mut manager),
        Routed::Respond(ok("{\"room_id\":\"r2\"}", "application/json"))
    );
    assert_eq!(
        route_request(post("/room/join", "room_id=r2&player_id=a"), &mut manager),
        Routed::Respond(plain_ok())
    );
    assert_eq!(
        route_request(post("/room/ready", "room_id=r2&player_id=a"), &mut manager),
        Routed::Respond(plain_ok())
    );
    assert_eq!(
        route_request(post("/room/theme/confirm", "room_id=r2&player_id=a"), &mut manager),
        Routed::Respond(error_response(GameError::InvalidPhase))
    );
    assert_eq!(
        route_request(post("/room/start-vote", "room_id=r2"), &mut manager),
        Routed::Respond(error_response(GameError::InvalidPhase))
    );
    assert_eq!(
        route_request(post("/room/vote", "room_id=r2&voter_id=a&target_id=a"), &mut manager),
        Routed::Respond(error_response(GameError::InvalidPhase))
    );
    assert_eq!(
        route_request(post("/room/chat", "room_id=r2&message=x"), &mut manager),
        Routed::Respond(error_response(GameError::InvalidPhase))
    );
    assert_eq!(manager.get_player_count(&"r2".to_string()), Some(1));
}
