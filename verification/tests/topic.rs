use wordwolf::draw::{distinct, draw_two, pick_two};
use wordwolf::topic::{genre_at, TopicManager};
use wordwolf::types::GameError;

fn words(list: &[&str]) -> Vec<String> {
    list.iter().map(|w| w.to_string()).collect()
}

#[test]
fn new_pool_is_empty() {
    let topics = TopicManager::new();
    assert_eq!(topics.genre(), "");
    assert_eq!(topics.submitted_count(), 0);
    assert!(!topics.all_submitted());
    assert_eq!(topics.selected_words(), &None);
    assert_eq!(topics.get_word_for_player(1, 1), None);
    let topics = TopicManager::default();
    assert_eq!(topics.submitted_count(), 0);
}

#[test]
fn genres_in_order() {
    let expected = [
        "フルーツ", "スポーツ", "都道府県", "お菓子", "ジュース", "麺類", "料理", "文房具", "家具",
        "色", "乗り物",
    ];
    for (k, genre) in expected.iter().enumerate() {
        assert_eq!(genre_at(k), *genre);
        assert_eq!(genre_at(k + 11), *genre);
    }
    let mut topics = TopicManager::new();
    assert_eq!(topics.start_theme_phase_with(3, 9), "色");
    assert_eq!(topics.genre(), "色");
    for _ in 0..20 {
        let genre = topics.start_theme_phase(3);
        assert!(expected.contains(&genre.as_str()));
        assert_eq!(topics.genre(), &genre);
    }
}

#[test]
fn start_forgets_the_last_round() {
    let mut topics = TopicManager::new();
    topics.start_theme_phase(2);
    topics.submit_keyword(1, "a".to_string()).unwrap();
    topics.submit_keyword(2, "b".to_string()).unwrap();
    assert!(topics.all_submitted());
    topics.start_theme_phase(2);
    assert!(!topics.all_submitted());
    assert_eq!(topics.submitted_count(), 0);
    assert_eq!(topics.keyword_of(1), None);
}

#[test]
fn resubmitting_keeps_the_latest_keyword() {
    let mut topics = TopicManager::new();
    topics.start_theme_phase(3);
    topics.submit_keyword(1, "first".to_string()).unwrap();
    topics.submit_keyword(2, "other".to_string()).unwrap();
    topics.submit_keyword(1, "second".to_string()).unwrap();
    assert_eq!(topics.submitted_count(), 2);
    assert_eq!(topics.keyword_of(1), Some("second".to_string()));
    assert_eq!(topics.keyword_of(2), Some("other".to_string()));
    assert_eq!(topics.words(), words(&["second", "other"]));
    assert!(!topics.all_submitted());
}

#[test]
fn keywords_are_trimmed() {
    let mut topics = TopicManager::new();
    topics.start_theme_phase(3);
    topics.submit_keyword(1, "  りんご \t\n".to_string()).unwrap();
    topics.submit_keyword(2, "\u{3000}a b\u{a0}".to_string()).unwrap();
    assert_eq!(topics.keyword_of(1), Some("りんご".to_string()));
    assert_eq!(topics.keyword_of(2), Some("a b".to_string()));
}

#[test]
fn draw_happens_once_all_have_submitted() {
    for _ in 0..30 {
        let mut topics = TopicManager::new();
        topics.start_theme_phase(3);
        topics.submit_keyword(1, "apple".to_string()).unwrap();
        topics.submit_keyword(2, "banana".to_string()).unwrap();
        assert!(!topics.all_submitted());
        assert_eq!(topics.try_draw(), Ok(()));
        assert!(!topics.all_submitted());
        topics.submit_keyword(3, "apple".to_string()).unwrap();
        assert!(topics.all_submitted());
        let (villager, wolf) = topics.selected_words().clone().unwrap();
        let mut drawn = vec![villager.clone(), wolf.clone()];
        drawn.sort();
        assert_eq!(drawn, words(&["apple", "banana"]));
        assert_eq!(topics.get_word_for_player(2, 2), Some(wolf.clone()));
        assert_eq!(topics.get_word_for_player(1, 2), Some(villager.clone()));
        assert_eq!(topics.get_word_for_player(3, 2), Some(villager.clone()));
        // The draw is made once: later submissions and draws leave it.
        topics.submit_keyword(1, "cherry".to_string()).unwrap();
        assert_eq!(topics.try_draw(), Ok(()));
        assert_eq!(topics.selected_words(), &Some((villager, wolf)));
        assert_eq!(topics.keyword_of(1), Some("cherry".to_string()));
    }
}

#[test]
fn too_few_different_keywords() {
    let mut topics = TopicManager::new();
    topics.start_theme_phase(3);
    topics.submit_keyword(1, "apple".to_string()).unwrap();
    topics.submit_keyword(2, "apple".to_string()).unwrap();
    assert_eq!(
        topics.submit_keyword(3, "apple".to_string()),
        Err(GameError::InsufficientKeywords)
    );
    assert_eq!(topics.submitted_count(), 3);
    assert!(!topics.all_submitted());
    assert_eq!(topics.try_draw(), Err(GameError::InsufficientKeywords));

    // A pool that expects nobody draws at the first keyword and fails.
    let mut topics = TopicManager::new();
    assert_eq!(topics.submit_keyword(1, "a".to_string()), Err(GameError::InsufficientKeywords));
    assert_eq!(topics.submit_keyword(2, "b".to_string()), Ok(()));
    assert!(topics.all_submitted());
}

#[test]
fn distinct_keeps_first_occurrences_in_order() {
    assert_eq!(distinct(&words(&[])), words(&[]));
    assert_eq!(distinct(&words(&["a"])), words(&["a"]));
    assert_eq!(distinct(&words(&["b", "a", "b", "c", "a", "a"])), words(&["b", "a", "c"]));
}

#[test]
fn pick_two_takes_the_different_words_at_the_positions() {
    let list = words(&["b", "a", "b", "c"]);
    assert_eq!(pick_two(&list, 0, 1), ("b".to_string(), "a".to_string()));
    assert_eq!(pick_two(&list, 2, 0), ("c".to_string(), "b".to_string()));
    assert_eq!(pick_two(&list, 1, 2), ("a".to_string(), "c".to_string()));
}

#[test]
fn draw_two_gives_two_different_words() {
    assert_eq!(draw_two(&words(&[])), Err(GameError::InsufficientKeywords));
    assert_eq!(draw_two(&words(&["a"])), Err(GameError::InsufficientKeywords));
    assert_eq!(draw_two(&words(&["a", "a", "a"])), Err(GameError::InsufficientKeywords));
    let list = words(&["a", "a", "b", "a"]);
    let mut seen = Vec::new();
    for _ in 0..200 {
        let (x, y) = draw_two(&list).unwrap();
        assert_ne!(x, y);
        assert!(list.contains(&x) && list.contains(&y));
        if !seen.contains(&x) {
            seen.push(x);
        }
    }
    // Either word can come first.
    assert_eq!(seen.len(), 2);
}
