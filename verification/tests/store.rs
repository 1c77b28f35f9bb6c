use diet_manager::database::{Database, LoginError, UserError};
use diet_manager::models::{
    ActivityLevel, BasicFood, CalorieCalculationMethod, CompositeFood, FoodComponent,
    FoodLogEntry, Gender, User, UserProfile,
};
use diet_manager::table::{find_key, put};

fn basic(id: &str, calories: u64) -> BasicFood {
    BasicFood {
        id: id.to_string(),
        name: format!("{} (basic)", id),
        keywords: vec!["k".to_string()],
        calories_per_serving: calories,
    }
}

fn eaten(user: &str, date: &str, food: &str, servings: u64) -> FoodLogEntry {
    FoodLogEntry {
        date: date.to_string(),
        food_id: food.to_string(),
        servings,
        user_id: user.to_string(),
    }
}

fn profile(weight_kg: u32) -> UserProfile {
    UserProfile {
        gender: Gender::Female,
        height_cm: 160_000,
        age: 25,
        calorie_method: CalorieCalculationMethod::HarrisBenedict,
        weight_kg,
        activity_level: ActivityLevel::Light,
    }
}

fn user(id: &str, name: &str, password: &str) -> User {
    User {
        user_id: id.to_string(),
        username: name.to_string(),
        password: password.to_string(),
        profile: profile(55_000),
    }
}

fn summary_of(entries: &[FoodLogEntry]) -> Vec<(String, String, u64)> {
    entries.iter().map(|e| (e.user_id.clone(), e.food_id.clone(), e.servings)).collect()
}

#[test]
fn new_database_is_empty() {
    for db in [Database::new(), Database::default()] {
        assert!(db.users().is_empty());
        assert!(db.basic_foods().is_empty());
        assert!(db.composite_foods().is_empty());
        assert!(db.food_logs().is_empty());
        assert_eq!(db.current_user(), "");
    }
}

#[test]
fn adding_a_food_again_replaces_it() {
    let mut db = Database::new();
    db.add_basic_food(basic("apple", 95_000));
    db.add_basic_food(basic("pear", 100_000));
    db.add_basic_food(basic("apple", 52_000));
    assert_eq!(db.basic_foods().len(), 2);
    assert_eq!(db.basic_foods()[0].id, "apple");
    assert_eq!(db.basic_foods()[0].calories_per_serving, 52_000);
    assert_eq!(db.get_food_calories("apple"), Ok(52_000));
    let salad = |servings| CompositeFood {
        id: "salad".to_string(),
        name: "salad".to_string(),
        keywords: Vec::new(),
        components: vec![FoodComponent { food_id: "apple".to_string(), servings }],
    };
    db.add_composite_food(salad(1_000));
    db.add_composite_food(salad(3_000));
    assert_eq!(db.composite_foods().len(), 1);
    assert_eq!(db.get_food_calories("salad"), Ok(156_000));
}

#[test]
fn tables_find_and_replace_by_key() {
    let mut foods: Vec<BasicFood> = Vec::new();
    assert_eq!(find_key(&foods, "apple"), None);
    put(&mut foods, basic("apple", 1));
    put(&mut foods, basic("pear", 2));
    put(&mut foods, basic("apple", 3));
    assert_eq!(foods.len(), 2);
    assert_eq!(find_key(&foods, "apple"), Some(0));
    assert_eq!(find_key(&foods, "pear"), Some(1));
    assert_eq!(find_key(&foods, "pea"), None);
    assert_eq!(foods[0].calories_per_serving, 3);
}

#[test]
fn users_are_unique_by_identifier_and_by_name() {
    let mut db = Database::new();
    assert_eq!(db.add_user(user("1", "ann", "a")), Ok(()));
    assert_eq!(db.add_user(user("2", "bob", "b")), Ok(()));
    assert_eq!(db.add_user(user("1", "cleo", "c")), Err(UserError::UserIdTaken));
    assert_eq!(db.add_user(user("1", "ann", "c")), Err(UserError::UserIdTaken));
    assert_eq!(db.add_user(user("3", "ann", "c")), Err(UserError::UsernameTaken));
    assert_eq!(db.users().len(), 2);
    assert!(db.has_user_named("bob"));
    assert!(!db.has_user_named("cleo"));
    assert!(!db.has_user_named("1"));
}

#[test]
fn profile_can_be_replaced() {
    let mut db = Database::new();
    assert_eq!(db.add_user(user("1", "ann", "a")), Ok(()));
    let before = db.calculate_calories("1", "2024-01-01").1;
    assert_eq!(db.update_profile("1", profile(80_000)), Ok(()));
    assert_eq!(db.update_profile("ann", profile(80_000)), Err(UserError::UserNotFound));
    let after = db.calculate_calories("1", "2024-01-01").1;
    assert_eq!(db.users()[0].profile.weight_kg, 80_000);
    assert_eq!(db.users()[0].username, "ann");
    assert_eq!(db.users()[0].password, "a");
    // 447.593 + 9.247 * 55 + 3.098 * 160 - 4.330 * 25 = 1343.608, times 1.375
    assert_eq!(before, 1_847_461);
    // 447.593 + 9.247 * 80 + 3.098 * 160 - 4.330 * 25 = 1574.783, times 1.375
    assert_eq!(after, 2_165_326);
}

#[test]
fn logging_in_and_out() {
    let mut db = Database::new();
    assert_eq!(db.add_user(user("id-1", "ann", "pw")), Ok(()));
    assert_eq!(db.log_in("bob", "pw"), Err(LoginError::UserNotFound));
    assert_eq!(db.log_in("id-1", "pw"), Err(LoginError::UserNotFound));
    assert_eq!(db.log_in("ann", "wrong"), Err(LoginError::IncorrectPassword));
    assert_eq!(db.current_user(), "");
    assert_eq!(db.log_in("ann", "pw"), Ok(()));
    assert_eq!(db.current_user(), "id-1");
    db.log_out();
    assert_eq!(db.current_user(), "");
}

#[test]
fn a_session_is_resumed_for_a_known_user() {
    let mut db = Database::new();
    assert_eq!(db.add_user(user("id-1", "ann", "pw")), Ok(()));
    assert!(!db.resume_session("ann"));
    assert!(!db.resume_session(""));
    assert_eq!(db.current_user(), "");
    assert!(db.resume_session("id-1"));
    assert_eq!(db.current_user(), "id-1");
    assert!(!db.resume_session("id-2"));
    assert_eq!(db.current_user(), "id-1");
}

#[test]
fn entries_of_a_day_keep_their_order() {
    let mut db = Database::new();
    db.append_log_entry(eaten("ann", "d1", "a", 1));
    db.append_log_entry(eaten("bob", "d1", "b", 2));
    db.append_log_entry(eaten("ann", "d2", "c", 3));
    db.append_log_entry(eaten("ann", "d1", "d", 4));
    db.append_log_entry(eaten("ann", "d1", "e", 5));
    assert_eq!(db.food_logs().len(), 5);
    let day = db.entries_on("ann", "d1");
    assert_eq!(
        summary_of(&day),
        vec![
            ("ann".to_string(), "a".to_string(), 1),
            ("ann".to_string(), "d".to_string(), 4),
            ("ann".to_string(), "e".to_string(), 5)
        ]
    );
    assert!(db.entries_on("ann", "d3").is_empty());
    assert!(db.entries_on("cleo", "d1").is_empty());
}

#[test]
fn deleting_removes_by_position_within_the_day() {
    let mut db = Database::new();
    db.append_log_entry(eaten("ann", "d1", "a", 1));
    db.append_log_entry(eaten("bob", "d1", "b", 2));
    db.append_log_entry(eaten("ann", "d2", "c", 3));
    db.append_log_entry(eaten("ann", "d1", "d", 4));
    db.append_log_entry(eaten("ann", "d1", "e", 5));
    assert!(!db.delete_log_entry("ann", "d1", 3));
    assert!(!db.delete_log_entry("cleo", "d1", 0));
    assert_eq!(db.food_logs().len(), 5);
    assert!(db.delete_log_entry("ann", "d1", 1));
    let foods: Vec<String> = db.food_logs().iter().map(|e| e.food_id.clone()).collect();
    assert_eq!(foods, vec!["a", "b", "c", "e"]);
    assert!(db.delete_log_entry("ann", "d1", 1));
    assert!(db.delete_log_entry("ann", "d1", 0));
    assert!(!db.delete_log_entry("ann", "d1", 0));
    let foods: Vec<String> = db.food_logs().iter().map(|e| e.food_id.clone()).collect();
    assert_eq!(foods, vec!["b", "c"]);
}

#[test]
fn a_copy_is_independent() {
    let mut db = Database::new();
    db.add_basic_food(basic("apple", 95_000));
    assert_eq!(db.add_user(user("1", "ann", "a")), Ok(()));
    db.append_log_entry(eaten("1", "d1", "apple", 1_000));
    assert_eq!(db.log_in("ann", "a"), Ok(()));
    let snapshot = db.clone();
    db.add_basic_food(basic("apple", 1));
    db.append_log_entry(eaten("1", "d1", "apple", 1_000));
    db.log_out();
    assert_eq!(snapshot.get_food_calories("apple"), Ok(95_000));
    assert_eq!(snapshot.calculate_calories("1", "d1").0, 95_000);
    assert_eq!(snapshot.current_user(), "1");
    assert_eq!(snapshot.users().len(), 1);
    assert_eq!(snapshot.basic_foods()[0].name, "apple (basic)");
    assert_eq!(snapshot.basic_foods()[0].keywords, vec!["k".to_string()]);
    assert_eq!(db.calculate_calories("1", "d1").0, 2);
}
