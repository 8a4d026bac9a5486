use std::sync::mpsc;
use wordwolf::rooms::hub::{
    broadcast, broadcast_to_clients, connect, disconnect, offer_all, prune, send_to, Clients,
    Senders,
};
use wordwolf::rooms::messages;
use wordwolf::text::{
    chars_eq, chars_less, chars_of, code_point, decimal, space, text_before, text_eq, trim,
};
use wordwolf::types::GameError;

#[test]
fn chars_of_a_text() {
    assert_eq!(chars_of(""), Vec::<char>::new());
    assert_eq!(chars_of("aあ𝄞"), vec!['a', 'あ', '𝄞']);
    assert_eq!(code_point('A'), 65);
    assert_eq!(code_point('あ'), 0x3042);
}

#[test]
fn equality_of_texts() {
    assert!(text_eq("", ""));
    assert!(text_eq("りんご", "りんご"));
    assert!(!text_eq("りんご", "りんごa"));
    assert!(!text_eq("ab", "ac"));
    assert!(chars_eq(&vec!['x'], &vec!['x']));
    assert!(!chars_eq(&vec!['x'], &vec![]));
}

#[test]
fn dictionary_order() {
    let cases = [
        ("", "", false),
        ("", "a", true),
        ("a", "", false),
        ("a", "b", true),
        ("b", "a", false),
        ("a", "ab", true),
        ("ab", "a", false),
        ("abc", "abd", true),
        ("B", "a", true),
        ("p10", "p2", true),
        ("z", "あ", true),
        ("あ", "い", true),
        ("same", "same", false),
    ];
    for (a, b, expected) in cases {
        assert_eq!(text_before(a, b), expected, "{:?} < {:?}", a, b);
        assert_eq!(chars_less(&chars_of(a), &chars_of(b)), expected);
        // The order agrees with the order of strings.
        assert_eq!(a < b, expected);
    }
}

#[test]
fn decimal_numbers() {
    assert_eq!(decimal(0), "0");
    assert_eq!(decimal(7), "7");
    assert_eq!(decimal(10), "10");
    assert_eq!(decimal(1234567890), "1234567890");
    assert_eq!(decimal(u64::MAX), "18446744073709551615");
    for n in 0..1200u64 {
        assert_eq!(decimal(n), n.to_string());
    }
}

#[test]
fn trimming() {
    assert_eq!(trim(""), "");
    assert_eq!(trim("   "), "");
    assert_eq!(trim("a"), "a");
    assert_eq!(trim("  a b  "), "a b");
    assert_eq!(trim("\t\r\n x \u{b}\u{c}"), "x");
    assert_eq!(trim("\u{3000}りんご\u{2003}"), "りんご");
    assert_eq!(trim("\u{200b}x"), "\u{200b}x");
    // The same white space as the standard library knows.
    for n in 0..0x3100u32 {
        if let Some(c) = char::from_u32(n) {
            assert_eq!(space(c), c.is_whitespace(), "U+{:04X}", n);
            let s = format!("{}x{}", c, c);
            assert_eq!(trim(&s), s.trim());
        }
    }
}

#[test]
fn error_messages() {
    assert_eq!(GameError::InvalidPhase.message(), "Not allowed in the current phase");
    assert_eq!(GameError::NotFound.message(), "Not found");
    assert_eq!(GameError::RoomFull.message(), "Room is full");
    assert_eq!(GameError::DuplicateSubmission.message(), "Keyword already submitted");
    assert_eq!(GameError::InsufficientKeywords.message(), "Not enough different keywords");
    assert_eq!(GameError::InvalidConfig.message(), "Invalid room configuration");
    assert_eq!(GameError::AlreadyExists.message(), "Room already exists");
}

#[test]
fn room_messages() {
    assert_eq!(messages::player_joined("p1"), "Player p1 joined");
    assert_eq!(messages::player_left("p1"), "Player p1 left");
    assert_eq!(
        messages::more_players_needed(2, 1, 2, "abc"),
        "あと2人必要です（現在1人、ワードウルフ2人）。部屋ID「abc」を他のプレイヤーに共有してください！"
    );
    assert_eq!(messages::everyone_ready(), "全員準備完了！ゲームを開始します...");
    assert_eq!(messages::game_started(), "Game started! Check your roles and themes.");
    assert_eq!(
        messages::discussion_started(180),
        "全員確認完了！ディスカッションを開始します。制限時間: 3分0秒"
    );
    assert_eq!(
        messages::discussion_started(59),
        "全員確認完了！ディスカッションを開始します。制限時間: 0分59秒"
    );
    assert_eq!(
        messages::voting_started(),
        "投票フェーズが始まりました！ワードウルフだと思う人に投票してください。"
    );
    assert_eq!(messages::player_eliminated("p3", 2), "p3さんが2票で脱落しました");
    assert_eq!(
        messages::game_over(true),
        "ゲーム終了！市民の勝利です！ワードウルフを見つけました！"
    );
    assert_eq!(
        messages::game_over(false),
        "ゲーム終了！ワードウルフの勝利です！市民を騙すことに成功しました！"
    );
    assert_eq!(messages::nobody_voted(), "投票がなかったため、誰も脱落しませんでした");
    assert_eq!(messages::chat_line("Alice", "hello"), "CHAT|Alice|hello");
    assert_eq!(messages::chat_line("", ""), "CHAT||");
}

#[test]
fn hub_offers_to_all_and_prunes_the_dead() {
    let channels: Vec<(mpsc::Sender<String>, Option<mpsc::Receiver<String>>)> = (0..5)
        .map(|_| {
            let (tx, rx) = mpsc::channel();
            (tx, Some(rx))
        })
        .collect();
    let mut senders: Senders = channels.iter().map(|(tx, _)| tx.clone()).collect();
    let mut channels = channels;
    channels[1].1 = None;
    channels[4].1 = None;
    let accepted = offer_all(&senders, "one");
    assert_eq!(accepted, vec![true, false, true, true, false]);
    assert_eq!(senders.len(), 5);
    prune(&mut senders, &accepted);
    assert_eq!(senders.len(), 3);
    broadcast(&mut senders, "two");
    assert_eq!(senders.len(), 3);
    for k in [0, 2, 3] {
        let rx = channels[k].1.as_ref().unwrap();
        assert_eq!(rx.try_recv(), Ok("one".to_string()));
        assert_eq!(rx.try_recv(), Ok("two".to_string()));
        assert!(rx.try_recv().is_err());
    }
    // The survivors are the sinks at the positions 0, 2, 3, in that order.
    channels[2].1 = None;
    broadcast(&mut senders, "three");
    assert_eq!(senders.len(), 2);
    assert_eq!(channels[0].1.as_ref().unwrap().try_recv(), Ok("three".to_string()));
    assert_eq!(channels[3].1.as_ref().unwrap().try_recv(), Ok("three".to_string()));
}

#[test]
fn prune_keeps_exactly_the_flagged_sinks() {
    let mut kept: Vec<mpsc::Receiver<String>> = Vec::new();
    let mut senders: Senders = Vec::new();
    for _ in 0..4 {
        let (tx, rx) = mpsc::channel();
        senders.push(tx);
        kept.push(rx);
    }
    prune(&mut senders, &vec![false, true, true, false]);
    assert_eq!(senders.len(), 2);
    senders[0].send("a".to_string()).unwrap();
    senders[1].send("b".to_string()).unwrap();
    assert!(kept[0].try_recv().is_err());
    assert_eq!(kept[1].try_recv(), Ok("a".to_string()));
    assert_eq!(kept[2].try_recv(), Ok("b".to_string()));
    assert!(kept[3].try_recv().is_err());
    prune(&mut senders, &vec![true, true]);
    assert_eq!(senders.len(), 2);
    prune(&mut senders, &vec![false, false]);
    assert!(senders.is_empty());
    prune(&mut senders, &vec![]);
    assert!(senders.is_empty());
}

#[test]
fn clients_are_known_by_their_id() {
    let mut clients: Clients = Vec::new();
    let (tx_a, rx_a) = mpsc::channel();
    let (tx_b, rx_b) = mpsc::channel();
    let (tx_a2, rx_a2) = mpsc::channel();
    connect(&mut clients, "a".to_string(), tx_a);
    connect(&mut clients, "b".to_string(), tx_b);
    assert!(send_to(&clients, "a", "one"));
    assert!(!send_to(&clients, "zz", "lost"));
    broadcast_to_clients(&mut clients, "all");
    assert_eq!(rx_a.try_recv(), Ok("one".to_string()));
    assert_eq!(rx_a.try_recv(), Ok("all".to_string()));
    assert_eq!(rx_b.try_recv(), Ok("all".to_string()));
    assert!(rx_b.try_recv().is_err());

    // Who connects again under an id takes the place of the earlier one.
    connect(&mut clients, "a".to_string(), tx_a2);
    assert_eq!(clients.len(), 2);
    assert_eq!(clients[0].id, "b");
    assert_eq!(clients[1].id, "a");
    assert!(send_to(&clients, "a", "two"));
    assert_eq!(rx_a2.try_recv(), Ok("two".to_string()));
    assert!(rx_a.try_recv().is_err());

    // A client that is gone is dropped at the next broadcast.
    drop(rx_b);
    assert!(send_to(&clients, "b", "into the void"));
    assert_eq!(clients.len(), 2);
    broadcast_to_clients(&mut clients, "three");
    assert_eq!(clients.len(), 1);
    assert_eq!(clients[0].id, "a");
    assert!(!send_to(&clients, "b", "x"));

    disconnect(&mut clients, "zz");
    assert_eq!(clients.len(), 1);
    disconnect(&mut clients, "a");
    assert!(clients.is_empty());
    assert!(!send_to(&clients, "a", "x"));
}
