use wordwolf::game::state::IdSet;
use wordwolf::game::GameState;
use wordwolf::types::GameError;

#[test]
fn test_state_machine_flow() {
    let mut state = GameState::new();
    assert!(state.is_lobby());

    // Transition to theme submission
    state.transition_to_theme_submission().unwrap();
    assert!(state.is_theme_submission());

    // Transition to discussion
    state.transition_to_discussion(300).unwrap();
    assert!(state.is_discussion());

    // Transition to voting
    state.transition_to_voting().unwrap();
    assert!(state.is_voting());

    // Transition to finished
    state
        .transition_to_finished(true, vec!["player1".to_string()])
        .unwrap();
    assert!(state.is_finished());
}

#[test]
fn test_invalid_transitions() {
    let mut state = GameState::new();

    // Can't go directly to voting from lobby
    let result = state.transition_to_voting();
    assert!(result.is_err());
}

#[test]
fn test_ready_tracking() {
    let mut state = GameState::new();

    state.mark_player_ready("player1".to_string()).unwrap();
    assert!(!state.all_players_ready(2));

    state.mark_player_ready("player2".to_string()).unwrap();
    assert!(state.all_players_ready(2));
}

#[test]
fn double_ready_is_a_no_op() {
    let mut state = GameState::new();
    state.mark_player_ready("player1".to_string()).unwrap();
    state.mark_player_ready("player1".to_string()).unwrap();
    assert!(state.all_players_ready(1));
    assert!(!state.all_players_ready(2));
    state.mark_player_ready("player2".to_string()).unwrap();
    state.mark_player_ready("player1".to_string()).unwrap();
    assert!(state.all_players_ready(2));
}

#[test]
fn every_transition_out_of_order_is_refused_and_changes_nothing() {
    let mut state = GameState::new();
    assert_eq!(state.transition_to_discussion(60), Err(GameError::InvalidPhase));
    assert_eq!(state.transition_to_voting(), Err(GameError::InvalidPhase));
    assert_eq!(state.transition_to_finished(true, vec![]), Err(GameError::InvalidPhase));
    assert_eq!(state.confirm_theme("p".to_string()), Err(GameError::InvalidPhase));
    assert_eq!(state.record_vote("p".to_string()), Err(GameError::InvalidPhase));
    assert!(state.is_lobby());

    state.transition_to_theme_submission().unwrap();
    assert_eq!(state.transition_to_theme_submission(), Err(GameError::InvalidPhase));
    assert_eq!(state.transition_to_voting(), Err(GameError::InvalidPhase));
    assert_eq!(state.mark_player_ready("p".to_string()), Err(GameError::InvalidPhase));
    assert!(state.is_theme_submission());

    state.transition_to_discussion(60).unwrap();
    assert_eq!(state.transition_to_discussion(61), Err(GameError::InvalidPhase));
    assert_eq!(state.transition_to_finished(false, vec![]), Err(GameError::InvalidPhase));
    assert!(state.is_discussion());
    match &state {
        GameState::Discussion { time_remaining } => assert_eq!(*time_remaining, Some(60)),
        _ => panic!("not in discussion"),
    }

    state.transition_to_voting().unwrap();
    assert_eq!(state.transition_to_theme_submission(), Err(GameError::InvalidPhase));
    assert!(state.is_voting());

    state.transition_to_finished(false, vec!["w".to_string()]).unwrap();
    assert_eq!(state.transition_to_voting(), Err(GameError::InvalidPhase));
    assert_eq!(state.transition_to_finished(true, vec![]), Err(GameError::InvalidPhase));
    match &state {
        GameState::Finished { citizens_won, wolves } => {
            assert!(!*citizens_won);
            assert_eq!(wolves, &vec!["w".to_string()]);
        }
        _ => panic!("not finished"),
    }
}

#[test]
fn confirmations_and_votes_are_counted_per_player() {
    let mut state = GameState::new();
    state.transition_to_theme_submission().unwrap();
    assert!(state.all_themes_confirmed(0));
    state.confirm_theme("a".to_string()).unwrap();
    state.confirm_theme("a".to_string()).unwrap();
    assert!(state.all_themes_confirmed(1));
    assert!(!state.all_players_ready(1));
    state.transition_to_discussion(5).unwrap();
    assert!(!state.all_themes_confirmed(0));
    state.transition_to_voting().unwrap();
    assert!(state.all_players_voted(0));
    state.record_vote("a".to_string()).unwrap();
    state.record_vote("b".to_string()).unwrap();
    state.record_vote("a".to_string()).unwrap();
    assert!(state.all_players_voted(2));
    state.unmark_player(&"a".to_string());
    assert!(state.all_players_voted(1));
}

#[test]
fn default_state_is_the_lobby() {
    let state = GameState::default();
    assert!(state.is_lobby());
    assert!(state.all_players_ready(0));
}

#[test]
fn id_set_insert_contains_remove() {
    let mut set = IdSet::new();
    assert_eq!(set.len(), 0);
    set.insert("a".to_string());
    set.insert("b".to_string());
    set.insert("a".to_string());
    assert_eq!(set.len(), 2);
    assert!(set.contains(&"a".to_string()));
    assert!(!set.contains(&"c".to_string()));
    set.remove(&"a".to_string());
    set.remove(&"zz".to_string());
    assert_eq!(set.len(), 1);
    assert!(!set.contains(&"a".to_string()));
    assert!(set.contains(&"b".to_string()));
}
