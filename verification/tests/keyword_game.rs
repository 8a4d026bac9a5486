use wordwolf::routes::{
    begin_playing, count_outcome, http_status, join, judge_and_executed, playing_tick, put_player,
    reset, speak, start, start_vote, start_with, submit_keyword, vote, voting_tick, TimerStep,
};
use wordwolf::state::{
    GameState, Phase, Player, PublicState, SharedStateInner, PLAYING_SECS, VOTING_SECS,
};
use wordwolf::topic::TopicManager;
use wordwolf::types::GameError;

fn game_of(n: u32) -> (GameState, TopicManager) {
    let mut game = GameState::new(8, 3, 100);
    for i in 0..n {
        assert_eq!(join(&mut game), Ok(i + 1));
    }
    (game, TopicManager::new())
}

/// A game of three in discussion; keywords apple, banana, grape.
fn playing_game() -> (GameState, TopicManager) {
    let (mut game, mut topics) = game_of(3);
    assert!(start(&mut game, &mut topics));
    assert_eq!(submit_keyword(&mut game, &mut topics, 1, "apple".to_string()), Ok(false));
    assert_eq!(submit_keyword(&mut game, &mut topics, 2, "banana".to_string()), Ok(false));
    assert_eq!(submit_keyword(&mut game, &mut topics, 3, "grape".to_string()), Ok(true));
    (game, topics)
}

fn voting_game() -> (GameState, TopicManager) {
    let (mut game, topics) = playing_game();
    start_vote(&mut game).unwrap();
    (game, topics)
}

fn player(id: u32, vote: Option<u32>) -> Player {
    Player { id, remaining_speak: 0, vote, topic: None }
}

#[test]
fn clocks_can_be_set_up() {
    assert!(matches!(GameState::with_clocks(3, 1, 0, 10, 1), Err(GameError::InvalidConfig)));
    assert!(matches!(GameState::with_clocks(3, 1, 60, 0, 1), Err(GameError::InvalidConfig)));
    assert!(matches!(GameState::with_clocks(3, 1, -1, -1, 1), Err(GameError::InvalidConfig)));
    let mut game = GameState::with_clocks(3, 1, 60, 10, 5).unwrap();
    assert_eq!((game.discussion_secs, game.voting_secs, game.game_id), (60, 10, 5));
    assert_eq!((game.max_players, game.max_speak), (3, 1));
    let mut topics = TopicManager::new();
    for _ in 0..3 {
        join(&mut game).unwrap();
    }
    assert!(start(&mut game, &mut topics));
    for (id, word) in [(1, "apple"), (2, "banana"), (3, "grape")] {
        submit_keyword(&mut game, &mut topics, id, word.to_string()).unwrap();
    }
    // The discussion begins with sixty seconds on the clock.
    assert_eq!(game.phase, Phase::Playing);
    assert_eq!(game.remaining_time, 60);
    let id = game.game_id;
    for _ in 0..59 {
        assert_eq!(playing_tick(&mut game, id), TimerStep::Ticked);
    }
    assert_eq!(game.remaining_time, 1);
    assert_eq!(playing_tick(&mut game, id), TimerStep::Expired);
    assert_eq!(game.phase, Phase::Voting);
    assert_eq!(PublicState::from(&game).voting_time, 10);
    reset(&mut game, &mut topics);
    assert_eq!((game.discussion_secs, game.voting_secs), (60, 10));
}

#[test]
fn new_game_waits() {
    let game = GameState::new(5, 2, 42);
    assert_eq!((game.discussion_secs, game.voting_secs), (PLAYING_SECS, VOTING_SECS));
    assert_eq!((PLAYING_SECS, VOTING_SECS), (30, 10));
    assert_eq!(game.phase, Phase::Waiting);
    assert!(game.players.is_empty());
    assert_eq!((game.max_players, game.max_speak, game.game_id), (5, 2, 42));
    assert_eq!((game.wolf_id, game.executed_id, game.is_villager_win), (None, None, None));
    assert_eq!((game.remaining_time, game.voting_time), (0, 0));
    assert_eq!(game.genre, "");
}

#[test]
fn join_numbers_the_players() {
    let mut game = GameState::new(2, 4, 0);
    assert_eq!(join(&mut game), Ok(1));
    assert_eq!(join(&mut game), Ok(2));
    assert_eq!(join(&mut game), Err(GameError::RoomFull));
    assert_eq!(game.players.len(), 2);
    assert_eq!(game.players[1], Player { id: 2, remaining_speak: 4, vote: None, topic: None });
    assert_eq!(game.find(2), Some(1));
    assert_eq!(game.find(3), None);
}

#[test]
fn nobody_joins_a_running_game() {
    let (mut game, mut topics) = game_of(2);
    assert!(start(&mut game, &mut topics));
    assert_eq!(join(&mut game), Err(GameError::InvalidPhase));
    assert_eq!(game.players.len(), 2);
}

#[test]
fn put_player_replaces_a_player_of_the_same_id() {
    let mut game = GameState::new(8, 3, 0);
    put_player(&mut game, 7);
    put_player(&mut game, 9);
    game.players[0].remaining_speak = 1;
    put_player(&mut game, 7);
    assert_eq!(game.players.len(), 2);
    assert_eq!(game.players[0], Player { id: 7, remaining_speak: 3, vote: None, topic: None });
    assert_eq!(game.players[1].id, 9);
}

#[test]
fn start_needs_two_waiting_players() {
    let (mut game, mut topics) = game_of(1);
    assert!(!start(&mut game, &mut topics));
    assert_eq!(game.phase, Phase::Waiting);
    assert_eq!(game.game_id, 100);
    join(&mut game).unwrap();
    assert!(start_with(&mut game, &mut topics, 13));
    assert_eq!(game.phase, Phase::ThemeSelection);
    assert_eq!(game.game_id, 101);
    assert_eq!(game.genre, "都道府県");
    assert_eq!(topics.genre(), "都道府県");
    assert!(!start(&mut game, &mut topics));
    assert_eq!(game.game_id, 101);
}

#[test]
fn keywords_are_taken_during_theme_selection_from_players_only() {
    let (mut game, mut topics) = game_of(3);
    assert_eq!(
        submit_keyword(&mut game, &mut topics, 1, "apple".to_string()),
        Err(GameError::InvalidPhase)
    );
    assert!(start(&mut game, &mut topics));
    assert_eq!(
        submit_keyword(&mut game, &mut topics, 9, "apple".to_string()),
        Err(GameError::NotFound)
    );
    assert_eq!(topics.submitted_count(), 0);
    assert_eq!(submit_keyword(&mut game, &mut topics, 1, " apple\n".to_string()), Ok(false));
    assert_eq!(topics.keyword_of(1), Some("apple".to_string()));
    assert_eq!(game.phase, Phase::ThemeSelection);
}

#[test]
fn third_keyword_starts_the_discussion() {
    for _ in 0..30 {
        let (game, topics) = playing_game();
        assert_eq!(game.phase, Phase::Playing);
        assert_eq!(game.remaining_time, 30);
        assert_eq!(game.voting_time, 10);
        let wolf = game.wolf_id.unwrap();
        assert!([1, 2, 3].contains(&wolf));
        let (villager_word, wolf_word) = topics.selected_words().clone().unwrap();
        assert_ne!(villager_word, wolf_word);
        for w in [&villager_word, &wolf_word] {
            assert!(["apple", "banana", "grape"].contains(&w.as_str()));
        }
        for p in game.players.iter() {
            let expected = if p.id == wolf { &wolf_word } else { &villager_word };
            assert_eq!(p.topic.as_ref(), Some(expected));
            assert_eq!(p.remaining_speak, 3);
            assert_eq!(topics.get_word_for_player(p.id, wolf).as_ref(), Some(expected));
        }
        let wolves = game.players.iter().filter(|p| p.topic.as_ref() == Some(&wolf_word)).count();
        assert_eq!(wolves, 1);
    }
}

#[test]
fn begin_playing_with_a_given_wolf() {
    let (mut game, mut topics) = game_of(3);
    assert!(start(&mut game, &mut topics));
    topics.record(1, "x".to_string());
    topics.record(2, "y".to_string());
    topics.record(3, "y".to_string());
    topics.try_draw().unwrap();
    let (villager_word, wolf_word) = topics.selected_words().clone().unwrap();
    begin_playing(&mut game, &topics, 7);
    assert_eq!(game.wolf_id, Some(2));
    assert_eq!(game.players[0].topic, Some(villager_word.clone()));
    assert_eq!(game.players[1].topic, Some(wolf_word));
    assert_eq!(game.players[2].topic, Some(villager_word));
    assert_eq!(game.phase, Phase::Playing);
    assert_eq!((game.remaining_time, game.voting_time), (PLAYING_SECS, VOTING_SECS));
}

#[test]
fn insufficient_distinct_keywords() {
    let (mut game, mut topics) = game_of(3);
    assert!(start(&mut game, &mut topics));
    assert_eq!(submit_keyword(&mut game, &mut topics, 1, "apple".to_string()), Ok(false));
    assert_eq!(submit_keyword(&mut game, &mut topics, 2, "apple".to_string()), Ok(false));
    assert_eq!(
        submit_keyword(&mut game, &mut topics, 3, "apple".to_string()),
        Err(GameError::InsufficientKeywords)
    );
    assert_eq!(game.phase, Phase::ThemeSelection);
    assert!(!topics.all_submitted());
    assert_eq!(topics.try_draw(), Err(GameError::InsufficientKeywords));
    assert_eq!(game.wolf_id, None);
    // White space does not make a keyword different.
    assert_eq!(
        submit_keyword(&mut game, &mut topics, 2, "  apple ".to_string()),
        Err(GameError::InsufficientKeywords)
    );
    // A player who resubmits something else unblocks the game.
    assert_eq!(submit_keyword(&mut game, &mut topics, 2, "pear".to_string()), Ok(true));
    assert_eq!(game.phase, Phase::Playing);
    let (a, b) = topics.selected_words().clone().unwrap();
    let mut drawn = vec![a, b];
    drawn.sort();
    assert_eq!(drawn, vec!["apple".to_string(), "pear".to_string()]);
}

#[test]
fn speak_uses_up_turns() {
    let (mut game, _topics) = game_of(2);
    assert_eq!(speak(&mut game, 1), Err(GameError::InvalidPhase));
    let (mut game, _topics) = playing_game();
    assert_eq!(speak(&mut game, 9), Err(GameError::NotFound));
    for left in [2, 1, 0, 0, 0] {
        assert_eq!(speak(&mut game, 2), Ok(()));
        assert_eq!(game.players[1].remaining_speak, left);
    }
    assert_eq!(game.players[0].remaining_speak, 3);
    assert_eq!(game.players[2].remaining_speak, 3);
}

#[test]
fn start_vote_only_from_the_discussion() {
    let (mut game, _t) = game_of(3);
    assert_eq!(start_vote(&mut game), Err(GameError::InvalidPhase));
    let (mut game, _t) = playing_game();
    game.players[0].vote = Some(2);
    game.voting_time = 3;
    assert_eq!(start_vote(&mut game), Ok(()));
    assert_eq!(game.phase, Phase::Voting);
    assert_eq!(game.voting_time, 10);
    assert!(game.players.iter().all(|p| p.vote.is_none()));
    assert_eq!(start_vote(&mut game), Err(GameError::InvalidPhase));
}

#[test]
fn happy_path_all_vote_for_the_second_player() {
    let (mut game, _topics) = voting_game();
    let wolf = game.wolf_id.unwrap();
    assert_eq!(vote(&mut game, 1, 2), Ok(false));
    assert_eq!(vote(&mut game, 2, 2), Ok(false));
    assert_eq!(game.phase, Phase::Voting);
    assert_eq!(vote(&mut game, 3, 2), Ok(true));
    assert_eq!(game.phase, Phase::Result);
    assert_eq!(game.executed_id, Some(2));
    assert_eq!(game.is_villager_win, Some(wolf == 2));
}

#[test]
fn keyword_game_vote_errors() {
    let (mut game, _t) = playing_game();
    assert_eq!(vote(&mut game, 1, 2), Err(GameError::InvalidPhase));
    start_vote(&mut game).unwrap();
    assert_eq!(vote(&mut game, 9, 2), Err(GameError::NotFound));
    assert_eq!(vote(&mut game, 1, 9), Err(GameError::NotFound));
    assert!(game.players.iter().all(|p| p.vote.is_none()));
}

#[test]
fn vote_change_before_quorum_and_no_vote_after() {
    let (mut game, _t) = voting_game();
    assert_eq!(vote(&mut game, 1, 2), Ok(false));
    assert_eq!(vote(&mut game, 1, 3), Ok(false));
    assert_eq!(game.players[0].vote, Some(3));
    assert_eq!(vote(&mut game, 2, 3), Ok(false));
    assert_eq!(vote(&mut game, 3, 1), Ok(true));
    assert_eq!(game.executed_id, Some(3));
    let won = game.is_villager_win;
    assert_eq!(vote(&mut game, 1, 1), Err(GameError::InvalidPhase));
    assert_eq!(vote(&mut game, 2, 1), Err(GameError::InvalidPhase));
    assert_eq!(game.executed_id, Some(3));
    assert_eq!(game.is_villager_win, won);
    assert_eq!(game.players[0].vote, Some(3));
}

#[test]
fn outcome_counts_votes_and_breaks_ties_by_the_lowest_id() {
    assert_eq!(count_outcome(&vec![]), None);
    assert_eq!(count_outcome(&vec![player(1, None), player(2, None)]), None);
    assert_eq!(count_outcome(&vec![player(1, Some(3)), player(2, None)]), Some(3));
    let tie = vec![player(1, Some(5)), player(2, Some(4)), player(3, Some(5)), player(4, Some(4))];
    assert_eq!(count_outcome(&tie), Some(4));
    let lead = vec![player(1, Some(9)), player(2, Some(9)), player(3, Some(1))];
    assert_eq!(count_outcome(&lead), Some(9));
}

#[test]
fn judging_without_votes_or_wolf_declares_no_winner() {
    let (mut game, _t) = voting_game();
    judge_and_executed(&mut game);
    assert_eq!(game.phase, Phase::Result);
    assert_eq!(game.executed_id, None);
    assert_eq!(game.is_villager_win, None);
}

#[test]
fn timer_driven_voting_entry() {
    let (mut game, _t) = playing_game();
    let id = game.game_id;
    for left in (1..30).rev() {
        assert_eq!(playing_tick(&mut game, id), TimerStep::Ticked);
        assert_eq!(game.remaining_time, left);
        assert_eq!(game.phase, Phase::Playing);
    }
    assert_eq!(playing_tick(&mut game, id), TimerStep::Expired);
    assert_eq!(game.phase, Phase::Voting);
    assert_eq!(game.remaining_time, 0);
    assert_eq!(game.voting_time, 10);
    let public = PublicState::from(&game);
    assert_eq!(public.phase, Phase::Voting);
    assert_eq!(public.voting_time, 10);
    assert_eq!(public.wolf_id, None);
    // The clock of the discussion has nothing more to do.
    assert_eq!(playing_tick(&mut game, id), TimerStep::Stop);
    assert_eq!(game.phase, Phase::Voting);
}

#[test]
fn timer_driven_result_entry() {
    let (mut game, _t) = voting_game();
    let id = game.game_id;
    let wolf = game.wolf_id.unwrap();
    assert_eq!(vote(&mut game, 1, 3), Ok(false));
    for left in (1..10).rev() {
        assert_eq!(voting_tick(&mut game, id), TimerStep::Ticked);
        assert_eq!(game.voting_time, left);
    }
    assert_eq!(voting_tick(&mut game, id), TimerStep::Expired);
    assert_eq!(game.phase, Phase::Result);
    assert_eq!(game.executed_id, Some(3));
    assert_eq!(game.is_villager_win, Some(wolf == 3));
    assert_eq!(voting_tick(&mut game, id), TimerStep::Idle);
}

#[test]
fn voting_clock_idles_until_the_vote() {
    let (mut game, _t) = playing_game();
    let id = game.game_id;
    assert_eq!(voting_tick(&mut game, id), TimerStep::Idle);
    assert_eq!(game.voting_time, 10);
    assert_eq!(game.phase, Phase::Playing);
}

#[test]
fn stale_clocks_stop_without_touching_the_game() {
    let (mut game, mut topics) = playing_game();
    let old_id = game.game_id;
    reset(&mut game, &mut topics);
    assert_eq!(playing_tick(&mut game, old_id), TimerStep::Stop);
    assert_eq!(voting_tick(&mut game, old_id), TimerStep::Stop);
    for _ in 0..3 {
        join(&mut game).unwrap();
    }
    assert!(start(&mut game, &mut topics));
    for (id, word) in [(1, "a"), (2, "b"), (3, "c")] {
        submit_keyword(&mut game, &mut topics, id, word.to_string()).unwrap();
    }
    assert_eq!(game.phase, Phase::Playing);
    assert_eq!(playing_tick(&mut game, old_id), TimerStep::Stop);
    assert_eq!(game.remaining_time, 30);
    let new_id = game.game_id;
    assert_eq!(playing_tick(&mut game, new_id), TimerStep::Ticked);
    assert_eq!(game.remaining_time, 29);
}

#[test]
fn expired_clocks_do_not_run_below_zero() {
    let (mut game, _t) = playing_game();
    let id = game.game_id;
    game.remaining_time = i32::MIN;
    assert_eq!(playing_tick(&mut game, id), TimerStep::Expired);
    assert_eq!(game.remaining_time, 0);
    game.voting_time = -5;
    assert_eq!(voting_tick(&mut game, id), TimerStep::Expired);
    assert_eq!(game.voting_time, 0);
}

#[test]
fn reset_after_result() {
    let (mut game, mut topics) = voting_game();
    for v in [1, 2, 3] {
        vote(&mut game, v, 1).unwrap();
    }
    assert_eq!(game.phase, Phase::Result);
    let before = game.game_id;
    reset(&mut game, &mut topics);
    assert!(game.game_id > before);
    assert_eq!(game.game_id, before + 1);
    assert_eq!(game.phase, Phase::Waiting);
    assert!(game.players.is_empty());
    assert_eq!((game.wolf_id, game.executed_id, game.is_villager_win), (None, None, None));
    assert_eq!((game.remaining_time, game.voting_time), (0, 0));
    assert_eq!(game.genre, "");
    assert_eq!((game.max_players, game.max_speak), (8, 3));
    assert_eq!(topics.submitted_count(), 0);
    assert!(!topics.all_submitted());
    assert_eq!(topics.genre(), "");
    let public = PublicState::from(&game);
    assert_eq!(public.phase, Phase::Waiting);
    assert!(public.players.is_empty());
    assert_eq!((public.wolf_id, public.executed_id), (None, None));
    assert_eq!(public.game_id, before + 1);
}

#[test]
fn reset_works_in_any_phase_and_wraps_the_id() {
    let mut game = GameState::new(4, 1, u64::MAX);
    let mut topics = TopicManager::new();
    join(&mut game).unwrap();
    reset(&mut game, &mut topics);
    assert_eq!(game.game_id, 0);
    assert!(game.players.is_empty());
    let (mut game, mut topics) = playing_game();
    reset(&mut game, &mut topics);
    assert_eq!(game.phase, Phase::Waiting);
}

#[test]
fn projection_hides_wolf_and_executed_until_the_result() {
    let (mut game, _t) = playing_game();
    game.executed_id = Some(1);
    let wolf = game.wolf_id;
    assert!(wolf.is_some());
    for phase in [Phase::Waiting, Phase::ThemeSelection, Phase::Playing, Phase::Voting] {
        game.phase = phase;
        let public = PublicState::from(&game);
        assert_eq!(public.wolf_id, None);
        assert_eq!(public.executed_id, None);
        assert_eq!(public.phase, phase);
    }
    game.players[0].vote = Some(2);
    for phase in [Phase::Waiting, Phase::ThemeSelection, Phase::Playing, Phase::Voting] {
        game.phase = phase;
        let public = PublicState::from(&game);
        assert!(public.players.iter().all(|p| p.topic.is_none() && p.vote.is_none()));
    }
    game.phase = Phase::Result;
    game.is_villager_win = Some(true);
    let public = PublicState::from(&game);
    assert_eq!(public.wolf_id, wolf);
    assert_eq!(public.executed_id, Some(1));
    // Words stay private even then; votes are shown.
    assert!(game.players.iter().all(|p| p.topic.is_some()));
    assert_eq!(public.players.len(), 3);
    for (shown, real) in public.players.iter().zip(game.players.iter()) {
        assert_eq!(shown.topic, None);
        assert_eq!((shown.id, shown.remaining_speak, shown.vote), (real.id, real.remaining_speak, real.vote));
    }
    assert_eq!(public.players[0].vote, Some(2));
    assert_eq!(public.genre, game.genre);
    assert_eq!((public.max_players, public.max_speak), (8, 3));
    assert_eq!((public.remaining_time, public.voting_time), (30, 10));
    assert_eq!(public.is_villager_win, Some(true));
    assert_eq!(public.game_id, game.game_id);
}

#[test]
fn connections_are_numbered_from_one() {
    let mut inner = SharedStateInner::new();
    assert_eq!(inner.connect(), Some(1));
    assert_eq!(inner.connect(), Some(2));
    let mut noted: Vec<(usize, u32)> = inner.connections.iter().map(|(k, v)| (*k, *v)).collect();
    noted.sort();
    assert_eq!(noted, vec![(1, 1), (2, 2)]);
    inner.next_player_id = u32::MAX - 1;
    assert_eq!(inner.connect(), Some(u32::MAX));
    assert_eq!(inner.connect(), None);
    assert_eq!(inner.connections.len(), 3);
}

#[test]
fn errors_map_to_http_statuses() {
    assert_eq!(http_status(GameError::NotFound), 404);
    assert_eq!(http_status(GameError::RoomFull), 403);
    assert_eq!(http_status(GameError::AlreadyExists), 403);
    assert_eq!(http_status(GameError::InvalidPhase), 400);
    assert_eq!(http_status(GameError::DuplicateSubmission), 400);
    assert_eq!(http_status(GameError::InsufficientKeywords), 400);
    assert_eq!(http_status(GameError::InvalidConfig), 400);
}
