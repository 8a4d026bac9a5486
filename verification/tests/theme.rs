use wordwolf::game::{ThemeDatabase, ThemePair};
use wordwolf::types::ThemeGenre;

#[test]
fn test_theme_pair_creation() {
    let pair = ThemePair::new("犬".to_string(), "猫".to_string());
    assert_eq!(pair.citizen_theme, "犬");
    assert_eq!(pair.wolf_theme, "猫");
}

#[test]
fn test_database_creation() {
    let db = ThemeDatabase::new();
    assert!(db.has_genre(&ThemeGenre::Food));
    assert!(db.has_genre(&ThemeGenre::Animal));
    assert!(db.has_genre(&ThemeGenre::Place));
    assert!(db.has_genre(&ThemeGenre::Object));
}

#[test]
fn test_get_random_theme() {
    let db = ThemeDatabase::new();
    let theme = db.get_random_theme(&ThemeGenre::Food);
    assert!(theme.is_some());

    let pair = theme.unwrap();
    assert!(!pair.citizen_theme.is_empty());
    assert!(!pair.wolf_theme.is_empty());
}

#[test]
fn test_custom_genre() {
    let db = ThemeDatabase::new();
    let theme = db.get_random_theme(&ThemeGenre::Custom("test".to_string()));
    assert!(theme.is_some());
}

#[test]
fn test_add_custom_theme() {
    let mut db = ThemeDatabase::new();
    let custom_genre = ThemeGenre::Custom("test".to_string());
    let custom_pair = ThemePair::new("A".to_string(), "B".to_string());

    db.add_custom_theme(custom_genre.clone(), custom_pair);
    let theme = db.get_random_theme(&custom_genre);
    assert!(theme.is_some());
}

fn texts(pair: Option<ThemePair>) -> Option<(String, String)> {
    pair.map(|p| (p.citizen_theme, p.wolf_theme))
}

fn some(a: &str, b: &str) -> Option<(String, String)> {
    Some((a.to_string(), b.to_string()))
}

#[test]
fn theme_at_walks_the_builtin_pairs() {
    let db = ThemeDatabase::new();
    assert_eq!(texts(db.theme_at(&ThemeGenre::Food, 0)), some("りんご", "みかん"));
    assert_eq!(texts(db.theme_at(&ThemeGenre::Food, 1)), some("カレー", "シチュー"));
    assert_eq!(texts(db.theme_at(&ThemeGenre::Food, 2)), some("ラーメン", "うどん"));
    assert_eq!(texts(db.theme_at(&ThemeGenre::Food, 3)), some("寿司", "刺身"));
    assert_eq!(texts(db.theme_at(&ThemeGenre::Food, 4)), some("りんご", "みかん"));
    assert_eq!(texts(db.theme_at(&ThemeGenre::Animal, 0)), some("犬", "猫"));
    assert_eq!(texts(db.theme_at(&ThemeGenre::Animal, 1)), some("ライオン", "トラ"));
    assert_eq!(texts(db.theme_at(&ThemeGenre::Animal, 5)), some("イルカ", "クジラ"));
    assert_eq!(texts(db.theme_at(&ThemeGenre::Place, 0)), some("海", "山"));
    assert_eq!(texts(db.theme_at(&ThemeGenre::Place, 1)), some("図書館", "書店"));
    assert_eq!(texts(db.theme_at(&ThemeGenre::Place, 2)), some("公園", "遊園地"));
    assert_eq!(texts(db.theme_at(&ThemeGenre::Object, 0)), some("鉛筆", "ペン"));
    assert_eq!(texts(db.theme_at(&ThemeGenre::Object, 1)), some("椅子", "ソファ"));
    assert_eq!(texts(db.theme_at(&ThemeGenre::Object, usize::MAX)), {
        let k = usize::MAX % 3;
        [some("鉛筆", "ペン"), some("椅子", "ソファ"), some("時計", "タイマー")][k].clone()
    });
}

#[test]
fn custom_genres_always_get_the_fixed_pair() {
    let mut db = ThemeDatabase::new();
    let genre = ThemeGenre::Custom("mine".to_string());
    assert!(!db.has_genre(&genre));
    assert_eq!(texts(db.theme_at(&genre, 7)), some("テーマA", "テーマB"));
    db.add_custom_theme(genre.clone(), ThemePair::new("A".to_string(), "B".to_string()));
    assert!(db.has_genre(&genre));
    assert!(!db.has_genre(&ThemeGenre::Custom("other".to_string())));
    assert_eq!(texts(db.theme_at(&genre, 0)), some("テーマA", "テーマB"));
    assert_eq!(texts(db.get_random_theme(&genre)), some("テーマA", "テーマB"));
}

#[test]
fn added_pairs_go_to_the_end_of_their_genre() {
    let mut db = ThemeDatabase::default();
    db.add_custom_theme(ThemeGenre::Animal, ThemePair::new("馬".to_string(), "鹿".to_string()));
    assert_eq!(texts(db.theme_at(&ThemeGenre::Animal, 3)), some("馬", "鹿"));
    assert_eq!(texts(db.theme_at(&ThemeGenre::Animal, 4)), some("犬", "猫"));
    assert_eq!(texts(db.theme_at(&ThemeGenre::Place, 3)), some("海", "山"));
}

#[test]
fn random_theme_is_one_of_the_genre() {
    let db = ThemeDatabase::new();
    let animal = [some("犬", "猫"), some("ライオン", "トラ"), some("イルカ", "クジラ")];
    for _ in 0..50 {
        let got = texts(db.get_random_theme(&ThemeGenre::Animal));
        assert!(animal.contains(&got));
    }
}

#[test]
fn simple_random_stays_below_its_bound() {
    let db = ThemeDatabase::new();
    for max in 1..20 {
        for _ in 0..20 {
            assert!(db.simple_random(max) < max);
        }
    }
    assert_eq!(db.simple_random(1), 0);
}

#[test]
fn genres_compare_by_kind_and_name() {
    assert!(ThemeGenre::Food.same_as(&ThemeGenre::Food));
    assert!(!ThemeGenre::Food.same_as(&ThemeGenre::Animal));
    assert!(ThemeGenre::Custom("a".to_string()).same_as(&ThemeGenre::Custom("a".to_string())));
    assert!(!ThemeGenre::Custom("a".to_string()).same_as(&ThemeGenre::Custom("b".to_string())));
    assert!(!ThemeGenre::Custom("Food".to_string()).same_as(&ThemeGenre::Food));
}
