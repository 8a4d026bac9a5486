use wordwolf::routes::{start_vote, submit_keyword};
use wordwolf::state::{GameState, Phase, Player};
use wordwolf::topic::TopicManager;
use wordwolf::ws::{
    handle_command, private_topic_for, private_topic_message, private_topic_once,
    welcome_message, ClientMsg, Outcome, Refusal, Reply,
};

fn quiet(reply: Option<Reply>) -> Outcome {
    Outcome { reply, broadcast: false, clear_chat: false }
}

fn told(reply: Option<Reply>) -> Outcome {
    Outcome { reply, broadcast: true, clear_chat: false }
}

fn refused(refusal: Refusal) -> Outcome {
    quiet(Some(Reply::Error { refusal }))
}

fn lobby(max_players: u32, ids: &[u32]) -> (GameState, TopicManager) {
    let mut game = GameState::new(max_players, 2, 7);
    let mut topics = TopicManager::new();
    for id in ids {
        assert_eq!(
            handle_command(&mut game, &mut topics, *id, ClientMsg::Join),
            told(Some(Reply::Joined { player_id: *id }))
        );
    }
    (game, topics)
}

fn playing(ids: &[u32]) -> (GameState, TopicManager) {
    let (mut game, mut topics) = lobby(8, ids);
    assert_eq!(handle_command(&mut game, &mut topics, ids[0], ClientMsg::Start), told(None));
    for (k, id) in ids.iter().enumerate() {
        submit_keyword(&mut game, &mut topics, *id, format!("word{}", k)).unwrap();
    }
    assert_eq!(game.phase, Phase::Playing);
    (game, topics)
}

#[test]
fn join_takes_the_connection_id() {
    let (mut game, mut topics) = lobby(2, &[10]);
    assert_eq!(game.players, vec![Player { id: 10, remaining_speak: 2, vote: None, topic: None }]);
    // Joining again is answered but changes nothing.
    assert_eq!(
        handle_command(&mut game, &mut topics, 10, ClientMsg::Join),
        quiet(Some(Reply::Joined { player_id: 10 }))
    );
    assert_eq!(game.players.len(), 1);
    assert_eq!(
        handle_command(&mut game, &mut topics, 11, ClientMsg::Join),
        told(Some(Reply::Joined { player_id: 11 }))
    );
    assert_eq!(handle_command(&mut game, &mut topics, 12, ClientMsg::Join), refused(Refusal::Full));
    assert_eq!(
        handle_command(&mut game, &mut topics, 11, ClientMsg::Join),
        quiet(Some(Reply::Joined { player_id: 11 }))
    );
    assert_eq!(game.players.len(), 2);
}

#[test]
fn nobody_joins_after_the_start() {
    let (mut game, mut topics) = lobby(8, &[1, 2]);
    assert_eq!(handle_command(&mut game, &mut topics, 1, ClientMsg::Start), told(None));
    assert_eq!(
        handle_command(&mut game, &mut topics, 3, ClientMsg::Join),
        refused(Refusal::NotWaiting)
    );
    assert_eq!(game.players.len(), 2);
}

#[test]
fn start_needs_two_players_and_a_waiting_game() {
    let (mut game, mut topics) = lobby(8, &[1]);
    assert_eq!(handle_command(&mut game, &mut topics, 1, ClientMsg::Start), quiet(None));
    assert_eq!(game.phase, Phase::Waiting);
    assert_eq!(game.game_id, 7);
    handle_command(&mut game, &mut topics, 2, ClientMsg::Join);
    assert_eq!(handle_command(&mut game, &mut topics, 9, ClientMsg::Start), told(None));
    assert_eq!(game.phase, Phase::ThemeSelection);
    assert_eq!(game.game_id, 8);
    assert!(!game.genre.is_empty());
    assert_eq!(topics.genre(), &game.genre);
    assert_eq!(handle_command(&mut game, &mut topics, 1, ClientMsg::Start), quiet(None));
    assert_eq!(game.game_id, 8);
}

#[test]
fn speak_is_for_players_in_the_discussion() {
    let (mut game, mut topics) = lobby(8, &[1, 2]);
    assert_eq!(
        handle_command(&mut game, &mut topics, 5, ClientMsg::Speak),
        refused(Refusal::SpeakBeforeJoin)
    );
    assert_eq!(handle_command(&mut game, &mut topics, 1, ClientMsg::Speak), quiet(None));
    assert_eq!(game.players[0].remaining_speak, 2);

    let (mut game, mut topics) = playing(&[1, 2, 3]);
    for left in [1, 0, 0] {
        assert_eq!(handle_command(&mut game, &mut topics, 3, ClientMsg::Speak), told(None));
        assert_eq!(game.players[2].remaining_speak, left);
    }
    assert_eq!(game.players[0].remaining_speak, 2);
}

#[test]
fn vote_is_for_players_in_the_vote() {
    let (mut game, mut topics) = playing(&[1, 2, 3]);
    assert_eq!(
        handle_command(&mut game, &mut topics, 5, ClientMsg::Vote { target: 1 }),
        refused(Refusal::VoteBeforeJoin)
    );
    assert_eq!(
        handle_command(&mut game, &mut topics, 1, ClientMsg::Vote { target: 2 }),
        quiet(None)
    );
    assert_eq!(game.players[0].vote, None);
    start_vote(&mut game).unwrap();
    assert_eq!(
        handle_command(&mut game, &mut topics, 1, ClientMsg::Vote { target: 9 }),
        refused(Refusal::NoSuchTarget)
    );
    assert_eq!(
        handle_command(&mut game, &mut topics, 1, ClientMsg::Vote { target: 2 }),
        told(None)
    );
    assert_eq!(game.players[0].vote, Some(2));
    handle_command(&mut game, &mut topics, 2, ClientMsg::Vote { target: 2 });
    assert_eq!(game.phase, Phase::Voting);
    assert_eq!(
        handle_command(&mut game, &mut topics, 3, ClientMsg::Vote { target: 1 }),
        told(None)
    );
    assert_eq!(game.phase, Phase::Result);
    assert_eq!(game.executed_id, Some(2));
    assert_eq!(
        handle_command(&mut game, &mut topics, 3, ClientMsg::Vote { target: 1 }),
        quiet(None)
    );
    assert_eq!(game.executed_id, Some(2));
}

#[test]
fn reset_clears_the_game_and_the_chat() {
    let (mut game, mut topics) = playing(&[1, 2, 3]);
    let id = game.game_id;
    assert_eq!(
        handle_command(&mut game, &mut topics, 77, ClientMsg::Reset),
        Outcome { reply: Some(Reply::ResetDone), broadcast: true, clear_chat: true }
    );
    assert_eq!(game.phase, Phase::Waiting);
    assert!(game.players.is_empty());
    assert_eq!(game.wolf_id, None);
    assert_eq!(game.game_id, id + 1);
    assert_eq!(topics.submitted_count(), 0);
    assert!(!topics.all_submitted());
}

#[test]
fn refusals_have_their_texts() {
    assert_eq!(Refusal::Full.message(), "満員です");
    assert_eq!(Refusal::NotWaiting.message(), "ゲーム中は参加できません");
    assert_eq!(Refusal::SpeakBeforeJoin.message(), "参加してから発言してください");
    assert_eq!(Refusal::VoteBeforeJoin.message(), "参加してから投票してください");
    assert_eq!(Refusal::NoSuchTarget.message(), "そのプレイヤーはいません");
}

#[test]
fn replies_as_json() {
    assert_eq!(Reply::Joined { player_id: 12 }.to_json(), "{\"type\":\"joined\",\"player_id\":12}");
    assert_eq!(
        Reply::Error { refusal: Refusal::Full }.to_json(),
        "{\"type\":\"error\",\"message\":\"満員です\"}"
    );
    assert_eq!(Reply::ResetDone.to_json(), "{\"type\":\"reset_done\"}");
    assert_eq!(welcome_message(0), "{\"type\":\"welcome\",\"conn_id\":0}");
    assert_eq!(welcome_message(u32::MAX), "{\"type\":\"welcome\",\"conn_id\":4294967295}");
}

#[test]
fn private_topic_goes_to_players_with_a_word() {
    assert_eq!(private_topic_message("apple"), "{\"type\":\"your_topic\",\"topic\":\"apple\"}");
    assert_eq!(
        private_topic_message("a\"b\\c\nd"),
        "{\"type\":\"your_topic\",\"topic\":\"a\\\"b\\\\c\\nd\"}"
    );
    let (game, _topics) = lobby(8, &[1, 2]);
    assert_eq!(private_topic_for(&game, 1), None);
    assert_eq!(private_topic_for(&game, 9), None);
    let (game, topics) = playing(&[1, 2, 3]);
    let wolf = game.wolf_id.unwrap();
    let (villager_word, wolf_word) = topics.selected_words().clone().unwrap();
    for id in [1, 2, 3] {
        let word = if id == wolf { &wolf_word } else { &villager_word };
        assert_eq!(private_topic_for(&game, id), Some(private_topic_message(word)));
    }
    // A connection that is no player learns nothing.
    assert_eq!(private_topic_for(&game, 9), None);
}

#[test]
fn a_client_is_told_their_word_once_for_a_game() {
    let (mut game, mut topics) = lobby(8, &[1, 2, 3]);
    let mut told_for = None;
    assert_eq!(private_topic_once(&mut told_for, &game, 1), None);
    assert_eq!(told_for, None);
    handle_command(&mut game, &mut topics, 1, ClientMsg::Start);
    for (k, id) in [1u32, 2, 3].iter().enumerate() {
        submit_keyword(&mut game, &mut topics, *id, format!("word{}", k)).unwrap();
    }
    assert_eq!(game.phase, Phase::Playing);
    // A connection that is no player is told nothing, and nothing is noted.
    let mut stranger = None;
    assert_eq!(private_topic_once(&mut stranger, &game, 9), None);
    assert_eq!(stranger, None);

    let first = private_topic_once(&mut told_for, &game, 2);
    assert_eq!(first, private_topic_for(&game, 2));
    assert!(first.is_some());
    assert_eq!(told_for, Some(game.game_id));
    // Later broadcasts of the same game bring no second message.
    assert_eq!(private_topic_once(&mut told_for, &game, 2), None);
    assert_eq!(private_topic_once(&mut told_for, &game, 2), None);
    assert_eq!(told_for, Some(game.game_id));
    // Nor does the vote.
    start_vote(&mut game).unwrap();
    let mut late = None;
    assert_eq!(private_topic_once(&mut late, &game, 2), None);

    // The next game brings the next word.
    handle_command(&mut game, &mut topics, 2, ClientMsg::Reset);
    let (mut game, mut topics) = (game, topics);
    for id in [1, 2, 3] {
        handle_command(&mut game, &mut topics, id, ClientMsg::Join);
    }
    handle_command(&mut game, &mut topics, 1, ClientMsg::Start);
    for (k, id) in [1u32, 2, 3].iter().enumerate() {
        submit_keyword(&mut game, &mut topics, *id, format!("other{}", k)).unwrap();
    }
    let second = private_topic_once(&mut told_for, &game, 2);
    assert!(second.is_some());
    assert_eq!(told_for, Some(game.game_id));
    assert_eq!(private_topic_once(&mut told_for, &game, 2), None);
}
