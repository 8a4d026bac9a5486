use wordwolf::chat::{
    read_chat_request, read_relay_request, ChatEvent, ChatMessage, ChatRequest, RelayRequest,
};
use wordwolf::chat_game::{theme_at, GamePhase, SendOutcome, WordWolfGame};
use wordwolf::types::GameError;

fn collecting(players: usize, keywords: &[(&str, &str)]) -> WordWolfGame {
    let mut game = WordWolfGame::new();
    game.start_theme_phase(players);
    for (id, word) in keywords {
        game.submit_keyword(id.to_string(), word.to_string()).unwrap();
    }
    game
}

#[test]
fn new_chat_game_waits() {
    let game = WordWolfGame::new();
    assert_eq!(game.phase, GamePhase::Waiting);
    assert_eq!(game.theme, "");
    assert!(game.submitted_keywords.is_empty());
    assert!(game.assignments.is_empty());
    assert_eq!(game.expected_players, 0);
    assert!(!game.check_ready_to_distribute());
    assert_eq!(WordWolfGame::default().phase, GamePhase::Waiting);
}

#[test]
fn start_announces_the_theme() {
    let mut game = WordWolfGame::new();
    let message = game.start_theme_phase_with(3, 2);
    assert_eq!(
        message,
        "【システム】ゲーム開始！(参加予定: 3人) お題は「都道府県」です。関連ワードを入力してください。"
    );
    assert_eq!(game.theme, "都道府県");
    assert_eq!(game.phase, GamePhase::ThemeSelection);
    assert_eq!(game.expected_players, 3);
    let themes = [
        "フルーツ", "スポーツ", "都道府県", "お菓子", "ジュース", "麺類", "料理", "文房具", "家具",
        "色", "麺類", "乗り物",
    ];
    for (k, theme) in themes.iter().enumerate() {
        assert_eq!(theme_at(k), *theme);
        assert_eq!(theme_at(k + 24), *theme);
    }
    for _ in 0..20 {
        let message = game.start_theme_phase(12);
        assert!(themes.contains(&game.theme.as_str()));
        assert_eq!(
            message,
            format!(
                "【システム】ゲーム開始！(参加予定: 12人) お題は「{}」です。関連ワードを入力してください。",
                game.theme
            )
        );
    }
}

#[test]
fn keywords_are_acknowledged_with_the_count() {
    let mut game = WordWolfGame::new();
    assert_eq!(
        game.submit_keyword("a".to_string(), "x".to_string()),
        Err(GameError::InvalidPhase)
    );
    game.start_theme_phase(10);
    assert_eq!(
        game.submit_keyword("a".to_string(), "  りんご \n".to_string()),
        Ok("【システム】キーワードを受け付けました。（現在 1/10 人）".to_string())
    );
    assert_eq!(
        game.submit_keyword("b".to_string(), "みかん".to_string()),
        Ok("【システム】キーワードを受け付けました。（現在 2/10 人）".to_string())
    );
    assert_eq!(game.submitted_keywords[0].player_id, "a");
    assert_eq!(game.submitted_keywords[0].keyword, "りんご");
    assert_eq!(game.words(), vec!["りんご".to_string(), "みかん".to_string()]);
}

#[test]
fn resubmitting_is_refused_and_the_first_keyword_stays() {
    let mut game = collecting(3, &[("a", "first")]);
    assert_eq!(
        game.submit_keyword("a".to_string(), "second".to_string()),
        Err(GameError::DuplicateSubmission)
    );
    assert_eq!(game.submitted_keywords.len(), 1);
    assert_eq!(game.submitted_keywords[0].keyword, "first");
    assert_eq!(
        WordWolfGame::refusal_text(GameError::DuplicateSubmission),
        "【エラー】キーワードは既に入力済みです。変更できません。"
    );
    assert_eq!(
        WordWolfGame::refusal_text(GameError::InvalidPhase),
        "【システム】現在はキーワード入力期間ではありません。"
    );
    assert_eq!(
        WordWolfGame::refusal_text(GameError::InsufficientKeywords),
        "【エラー】異なるキーワードが2つ以上必要です。"
    );
}

#[test]
fn ready_when_all_of_at_least_two_have_submitted() {
    let game = collecting(2, &[("a", "x")]);
    assert!(!game.check_ready_to_distribute());
    let game = collecting(2, &[("a", "x"), ("b", "y")]);
    assert!(game.check_ready_to_distribute());
    let game = collecting(1, &[("a", "x"), ("b", "y")]);
    assert!(!game.check_ready_to_distribute());
    let game = collecting(2, &[("a", "x"), ("b", "y"), ("c", "z")]);
    assert!(game.check_ready_to_distribute());
}

#[test]
fn distribute_with_a_given_draw() {
    let mut game = collecting(3, &[("a", "x"), ("b", "y"), ("c", "x"), ("d", "z")]);
    game.distribute_roles_with(2, 0, 1);
    assert_eq!(game.phase, GamePhase::GameStart);
    let dealt: Vec<(&str, bool, &str)> = game
        .assignments
        .iter()
        .map(|a| (a.player_id.as_str(), a.status.is_wolf, a.status.word.as_str()))
        .collect();
    assert_eq!(
        dealt,
        vec![("a", false, "z"), ("b", true, "x"), ("c", false, "z"), ("d", false, "z")]
    );
    assert_eq!(
        game.get_secret_message("b"),
        Some("【秘密の通知】あなたの役職は「ウルフ」、ワードは「x」です。".to_string())
    );
    assert_eq!(
        game.get_secret_message("d"),
        Some("【秘密の通知】あなたの役職は「市民」、ワードは「z」です。".to_string())
    );
    assert_eq!(game.get_secret_message("nobody"), None);
}

#[test]
fn distribute_deals_one_wolf_and_two_different_words() {
    for _ in 0..50 {
        let mut game = collecting(3, &[("a", "apple"), ("b", "banana"), ("c", "grape")]);
        assert_eq!(game.get_secret_message("a"), None);
        assert_eq!(game.distribute_roles(), Ok(()));
        assert_eq!(game.phase, GamePhase::GameStart);
        assert_eq!(game.assignments.len(), 3);
        assert_eq!(game.assignments.iter().filter(|a| a.status.is_wolf).count(), 1);
        let wolf_word = &game.assignments.iter().find(|a| a.status.is_wolf).unwrap().status.word;
        let citizen_word =
            &game.assignments.iter().find(|a| !a.status.is_wolf).unwrap().status.word;
        assert_ne!(wolf_word, citizen_word);
        for a in game.assignments.iter() {
            assert!(["apple", "banana", "grape"].contains(&a.status.word.as_str()));
            assert_eq!(&a.status.word, if a.status.is_wolf { wolf_word } else { citizen_word });
            assert!(game.get_secret_message(&a.player_id).is_some());
        }
        assert_eq!(game.distribute_roles(), Err(GameError::InvalidPhase));
    }
}

#[test]
fn chat_insufficient_distinct_keywords() {
    let mut game = collecting(3, &[("a", "apple"), ("b", "apple"), ("c", " apple ")]);
    assert!(game.check_ready_to_distribute());
    assert_eq!(game.distribute_roles(), Err(GameError::InsufficientKeywords));
    assert_eq!(game.phase, GamePhase::ThemeSelection);
    assert!(game.assignments.is_empty());
    let mut game = WordWolfGame::new();
    assert_eq!(game.distribute_roles(), Err(GameError::InvalidPhase));
    game.start_theme_phase(2);
    assert_eq!(game.distribute_roles(), Err(GameError::InsufficientKeywords));
}

#[test]
fn a_new_start_forgets_the_old_round() {
    let mut game = collecting(2, &[("a", "x"), ("b", "y")]);
    game.distribute_roles().unwrap();
    game.start_theme_phase(4);
    assert!(game.submitted_keywords.is_empty());
    assert!(game.assignments.is_empty());
    assert_eq!(game.expected_players, 4);
    assert_eq!(game.phase, GamePhase::ThemeSelection);
}

fn quiet_broadcast(text: &str) -> SendOutcome {
    SendOutcome { broadcast: Some(text.to_string()), reply: None, whispers: Vec::new() }
}

#[test]
fn a_chat_game_from_start_to_deal() {
    let mut game = WordWolfGame::new();
    assert_eq!(game.handle_message("a".to_string(), "hello"), quiet_broadcast("User: hello"));
    let started = game.handle_message("a".to_string(), "start 3");
    assert_eq!(game.phase, GamePhase::ThemeSelection);
    assert_eq!(game.expected_players, 3);
    assert_eq!(
        started,
        quiet_broadcast(&format!(
            "【システム】ゲーム開始！(参加予定: 3人) お題は「{}」です。関連ワードを入力してください。",
            game.theme
        ))
    );
    assert_eq!(
        game.handle_message("a".to_string(), " apple "),
        quiet_broadcast("誰かがキーワードを入力しました（現在 1/3 人）")
    );
    assert_eq!(
        game.handle_message("a".to_string(), "again"),
        SendOutcome {
            broadcast: None,
            reply: Some("【エラー】キーワードは既に入力済みです。変更できません。".to_string()),
            whispers: Vec::new(),
        }
    );
    assert_eq!(
        game.handle_message("b".to_string(), "banana"),
        quiet_broadcast("誰かがキーワードを入力しました（現在 2/3 人）")
    );
    let dealt = game.handle_message("c".to_string(), "grape");
    assert_eq!(game.phase, GamePhase::GameStart);
    assert_eq!(dealt.broadcast, Some("誰かがキーワードを入力しました（現在 3/3 人）".to_string()));
    assert_eq!(dealt.reply, None);
    assert_eq!(dealt.whispers.len(), 3);
    assert_eq!(dealt.whispers, game.whispers());
    for (whisper, id) in dealt.whispers.iter().zip(["a", "b", "c"]) {
        assert_eq!(whisper.player_id, id);
        assert_eq!(Some(whisper.message.clone()), game.get_secret_message(id));
    }
    let wolves = dealt.whispers.iter().filter(|w| w.message.contains("「ウルフ」")).count();
    assert_eq!(wolves, 1);
    // After the deal messages are chat again.
    assert_eq!(game.handle_message("a".to_string(), "who?"), quiet_broadcast("User: who?"));
}

#[test]
fn start_reads_the_number_of_players() {
    for (message, players) in [
        ("start", 2),
        ("start 5", 5),
        ("start   12  extra", 12),
        ("startx 4", 4),
        ("start abc", 2),
        ("start -3", 2),
        ("start +3", 3),
        ("start 99999999999999999999999", 2),
        ("start\t7", 7),
        ("starting", 2),
    ] {
        let mut game = WordWolfGame::new();
        let outcome = game.handle_message("x".to_string(), message);
        assert_eq!(game.expected_players, players, "{:?}", message);
        assert!(outcome.broadcast.unwrap().contains(&format!("(参加予定: {}人)", players)));
    }
    // Only a message that begins with the word starts a game.
    let mut game = WordWolfGame::new();
    assert_eq!(game.handle_message("x".to_string(), " start 3"), quiet_broadcast("User:  start 3"));
    assert_eq!(game.handle_message("x".to_string(), "Start 3"), quiet_broadcast("User: Start 3"));
    assert_eq!(game.phase, GamePhase::Waiting);
}

#[test]
fn a_deal_without_two_different_keywords_is_refused() {
    let mut game = WordWolfGame::new();
    game.handle_message("a".to_string(), "start 2");
    game.handle_message("a".to_string(), "same");
    let outcome = game.handle_message("b".to_string(), "same ");
    assert_eq!(
        outcome,
        SendOutcome {
            broadcast: Some("誰かがキーワードを入力しました（現在 2/2 人）".to_string()),
            reply: Some("【エラー】異なるキーワードが2つ以上必要です。".to_string()),
            whispers: Vec::new(),
        }
    );
    assert_eq!(game.phase, GamePhase::ThemeSelection);
    assert!(game.assignments.is_empty());
    // A third player with another keyword completes the deal.
    let outcome = game.handle_message("c".to_string(), "other");
    assert_eq!(game.phase, GamePhase::GameStart);
    assert_eq!(outcome.whispers.len(), 3);
}

#[test]
fn a_game_for_one_never_deals() {
    let mut game = WordWolfGame::new();
    game.handle_message("a".to_string(), "start 1");
    let outcome = game.handle_message("a".to_string(), "x");
    assert_eq!(outcome, quiet_broadcast("誰かがキーワードを入力しました（現在 1/1 人）"));
    assert_eq!(game.phase, GamePhase::ThemeSelection);
}

#[test]
fn chat_events() {
    let message = ChatMessage { msg: "hi there".to_string() };
    assert_eq!(message.payload(), "hi there");
    assert_eq!(message.clone(), message);
    assert_eq!(ChatEvent::Clear.payload(), "__CLEAR__");
    assert_eq!(ChatEvent::Line("x".to_string()).payload(), "x");
    assert_eq!(ChatEvent::read("__CLEAR__"), ChatEvent::Clear);
    assert_eq!(ChatEvent::read("__CLEAR__ "), ChatEvent::Line("__CLEAR__ ".to_string()));
    assert_eq!(ChatEvent::read(""), ChatEvent::Line(String::new()));
}

fn events(id: Option<&str>) -> ChatRequest {
    ChatRequest::Events { client_id: id.map(|s| s.to_string()) }
}

fn send(sender: &str, message: &str) -> ChatRequest {
    ChatRequest::Send { sender: sender.to_string(), message: message.to_string() }
}

#[test]
fn chat_requests_for_events() {
    assert_eq!(
        read_chat_request("GET /events?id=alice HTTP/1.1\r\nHost: x\r\n\r\n"),
        events(Some("alice"))
    );
    assert_eq!(read_chat_request("GET /events HTTP/1.1\r\n\r\n"), events(None));
    assert_eq!(read_chat_request("GET /events"), events(None));
    assert_eq!(read_chat_request("GET /events?id="), events(Some("unknown")));
    assert_eq!(read_chat_request("GET /events?id=   \r\n?id=x"), events(Some("unknown")));
    assert_eq!(read_chat_request("GET /events?id= HTTP/1.1\r\n"), events(Some("HTTP/1.1")));
    assert_eq!(read_chat_request("GET /events?x=1&?id=あ&y HTTP/1.1\n"), events(Some("あ&y")));
    assert_eq!(read_chat_request("GET /events?id=a?id=b c"), events(Some("a?id=b")));
    assert_eq!(read_chat_request("GET /eventsXYZ?id=7\r\n"), events(Some("7")));
    // Only the first line counts.
    assert_eq!(read_chat_request("GET /events HTTP/1.1\r\nX: ?id=9\r\n"), events(None));
}

#[test]
fn chat_requests_that_say_something() {
    let head = "POST /send HTTP/1.1\r\nContent-Type: text/plain\r\n\r\n";
    assert_eq!(read_chat_request(&format!("{}alice\nhello", head)), send("alice", "hello"));
    assert_eq!(
        read_chat_request(&format!("{}alice\r\nhello\r\nworld\r\n", head)),
        send("alice", "hello\nworld")
    );
    assert_eq!(
        read_chat_request(&format!("{}  alice \t\n  hi  there \n\n", head)),
        send("alice", "  hi  there")
    );
    assert_eq!(read_chat_request(&format!("{}a\nstart 3", head)), send("a", "start 3"));
    assert_eq!(read_chat_request(&format!("{}a\nx\ry\r\r\nz", head)), send("a", "x\ry\r\nz"));
    // The body is what follows the last empty line.
    assert_eq!(read_chat_request(&format!("{}a\nb\r\n\r\nc\nd", head)), send("c", "d"));
    // Without an empty line the whole request is the body.
    assert_eq!(read_chat_request("POST /send\nme\nsay"), send("POST /send", "me\nsay"));
    assert_eq!(read_chat_request("POST /send\r\nme\nsay"), send("POST /send", "me\nsay"));
}

#[test]
fn chat_requests_that_say_nothing() {
    let head = "POST /send HTTP/1.1\r\n\r\n";
    for body in ["", "   ", "alice", "alice\n", "alice\n   \n", "\nmessage", " \n \n"] {
        assert_eq!(
            read_chat_request(&format!("{}{}", head, body)),
            ChatRequest::SendNothing,
            "{:?}",
            body
        );
    }
    // A first line of white space only is no id, but the body is
    // trimmed first, so the message moves up and is taken for the id.
    assert_eq!(read_chat_request(&format!("{}  \nbob\nhi", head)), send("bob", "hi"));
}

#[test]
fn other_chat_requests_ask_for_the_page() {
    for request in ["", "GET / HTTP/1.1\r\n\r\n", "GET /event", " GET /events", "POST /sen", "get /events", "\nGET /events"] {
        assert_eq!(read_chat_request(request), ChatRequest::Page, "{:?}", request);
    }
}

#[test]
fn relay_request_is_judged_by_what_it_holds() {
    let send = |m: &str| RelayRequest::Send { message: m.to_string() };
    assert_eq!(read_relay_request("GET /events HTTP/1.1\r\n\r\n"), RelayRequest::Events);
    assert_eq!(read_relay_request("xx GET /events"), RelayRequest::Events);
    // Asked for anywhere, the events win over a post.
    assert_eq!(
        read_relay_request("POST /send HTTP/1.1\r\n\r\nGET /events"),
        RelayRequest::Events
    );
    assert_eq!(
        read_relay_request("POST /send HTTP/1.1\r\nHost: x\r\n\r\nhello there"),
        send("hello there")
    );
    assert_eq!(
        read_relay_request("POST /send HTTP/1.1\r\n\r\nfirst\r\n\r\nlast\r\n"),
        send("last\r\n")
    );
    assert_eq!(read_relay_request("POST /send HTTP/1.1\r\n\r\n  こんにちは "), send("  こんにちは "));
    // Without an empty line the whole request is the body.
    assert_eq!(read_relay_request("POST /send hello"), send("POST /send hello"));
    assert_eq!(read_relay_request("POST /send HTTP/1.1\r\n\r\n"), RelayRequest::SendNothing);
    assert_eq!(
        read_relay_request("POST /send HTTP/1.1\r\n\r\nbody\r\n\r\n"),
        RelayRequest::SendNothing
    );
    assert_eq!(read_relay_request("POST /send\r\n\r\n\r\n"), send("\r\n"));
    assert_eq!(read_relay_request("GET / HTTP/1.1\r\n\r\n"), RelayRequest::Page);
    assert_eq!(read_relay_request("GET /event"), RelayRequest::Page);
    assert_eq!(read_relay_request("POST /sen"), RelayRequest::Page);
    assert_eq!(read_relay_request(""), RelayRequest::Page);
}
