use diet_manager::app_state::AppState;
use diet_manager::database::Database;
use diet_manager::dates::CalendarDay;
use diet_manager::gui::add_basic_food_screen::AddBasicFoodScreen;
use diet_manager::gui::add_food_to_log_screen::AddFoodToLogScreen;
use diet_manager::gui::home_screen::{Balance, HomeButton, HomeScreen};
use diet_manager::gui::login_screen::LoginScreen;
use diet_manager::gui::register_screen::RegisterScreen;
use diet_manager::gui::view_daily_log_screen::ViewDailyLogScreen;
use diet_manager::models::{
    ActivityLevel, BasicFood, CalorieCalculationMethod, CompositeFood, FoodLogEntry, Gender,
    User, UserProfile,
};
use diet_manager::parse::ParseError;

fn profile() -> UserProfile {
    UserProfile {
        gender: Gender::Male,
        height_cm: 175_000,
        age: 30,
        calorie_method: CalorieCalculationMethod::HarrisBenedict,
        weight_kg: 70_000,
        activity_level: ActivityLevel::Sedentary,
    }
}

fn database_with_ann() -> Database {
    let mut db = Database::new();
    let ann = User {
        user_id: "u1".to_string(),
        username: "ann".to_string(),
        password: "pw".to_string(),
        profile: profile(),
    };
    assert_eq!(db.add_user(ann), Ok(()));
    db
}

fn food(id: &str, keywords: &[&str], calories: u64) -> BasicFood {
    BasicFood {
        id: id.to_string(),
        name: id.to_uppercase(),
        keywords: keywords.iter().map(|k| k.to_string()).collect(),
        calories_per_serving: calories,
    }
}

fn eaten(user: &str, date: &str, food: &str, servings: u64) -> FoodLogEntry {
    FoodLogEntry {
        date: date.to_string(),
        food_id: food.to_string(),
        servings,
        user_id: user.to_string(),
    }
}

#[test]
fn login_form_starts_empty() {
    let screen = LoginScreen::new();
    assert_eq!(screen.username, "");
    assert_eq!(screen.password, "");
    assert_eq!(screen.error_message, None);
}

#[test]
fn login_succeeds_with_the_right_password() {
    let mut db = database_with_ann();
    let mut state = AppState::Login;
    let mut screen = LoginScreen::new();
    screen.username = "ann".to_string();
    screen.password = "pw".to_string();
    assert!(screen.submit(&mut db));
    assert_eq!(db.current_user(), "u1");
    assert_eq!(state, AppState::Login);
    screen.finish(Ok(()), &mut state);
    assert_eq!(state, AppState::Home);
    assert_eq!(screen.error_message, None);
}

#[test]
fn login_reports_what_went_wrong() {
    let mut db = database_with_ann();
    let mut state = AppState::Login;
    let mut screen = LoginScreen::new();
    screen.username = "bob".to_string();
    screen.password = "pw".to_string();
    assert!(!screen.submit(&mut db));
    assert_eq!(screen.error_message, Some("User not found.".to_string()));
    screen.username = "ann".to_string();
    screen.password = "nope".to_string();
    assert!(!screen.submit(&mut db));
    assert_eq!(screen.error_message, Some("Incorrect password.".to_string()));
    assert_eq!(db.current_user(), "");
    screen.finish(Err("disk full".to_string()), &mut state);
    assert_eq!(state, AppState::Login);
    assert_eq!(
        screen.error_message,
        Some("Failed to save login state: disk full".to_string())
    );
    screen.open_register(&mut state);
    assert_eq!(state, AppState::Register);
}

#[test]
fn registration_form_starts_with_defaults() {
    let screen = RegisterScreen::new();
    assert_eq!(screen.username, "");
    assert_eq!(screen.password, "");
    assert_eq!(screen.gender, Gender::Male);
    assert_eq!(screen.height_cm, "");
    assert_eq!(screen.age, "");
    assert_eq!(screen.activity_level, ActivityLevel::Sedentary);
    assert_eq!(screen.calorie_method, CalorieCalculationMethod::HarrisBenedict);
    assert_eq!(screen.error_message, None);
}

#[test]
fn registration_adds_the_user() {
    let mut db = database_with_ann();
    let mut state = AppState::Register;
    let mut screen = RegisterScreen::new();
    screen.username = "bob".to_string();
    screen.password = "b".to_string();
    screen.gender = Gender::Female;
    screen.height_cm = "162.5".to_string();
    screen.age = "41".to_string();
    screen.activity_level = ActivityLevel::Moderate;
    screen.calorie_method = CalorieCalculationMethod::MifflinStJeor;
    screen.submit(&mut db, &mut state);
    assert_eq!(state, AppState::Home);
    assert_eq!(screen.error_message, None);
    assert_eq!(db.users().len(), 2);
    let bob = &db.users()[1];
    assert_eq!(bob.user_id, "bob");
    assert_eq!(bob.username, "bob");
    assert_eq!(bob.password, "b");
    assert_eq!(
        bob.profile,
        UserProfile {
            gender: Gender::Female,
            height_cm: 162_500,
            age: 41,
            calorie_method: CalorieCalculationMethod::MifflinStJeor,
            weight_kg: 0,
            activity_level: ActivityLevel::Moderate,
        }
    );
    assert_eq!(db.current_user(), "");
}

#[test]
fn registration_reports_what_is_wrong() {
    let mut db = database_with_ann();
    let mut state = AppState::Register;
    let mut screen = RegisterScreen::new();
    screen.height_cm = "170".to_string();
    screen.age = "20".to_string();
    screen.submit(&mut db, &mut state);
    assert_eq!(screen.error_message, Some("Username and password are required.".to_string()));
    screen.username = "ann".to_string();
    screen.submit(&mut db, &mut state);
    assert_eq!(screen.error_message, Some("Username and password are required.".to_string()));
    screen.password = "x".to_string();
    screen.submit(&mut db, &mut state);
    assert_eq!(screen.error_message, Some("Username already exists.".to_string()));
    screen.age = "zero".to_string();
    screen.submit(&mut db, &mut state);
    assert_eq!(screen.error_message, Some("Username already exists.".to_string()));
    screen.username = "u1".to_string();
    screen.age = "20".to_string();
    screen.submit(&mut db, &mut state);
    assert_eq!(screen.error_message, Some("Username already exists.".to_string()));
    screen.username = "bob".to_string();
    for (height, age) in [
        ("", "20"),
        ("170", ""),
        ("0", "20"),
        ("0.000", "20"),
        ("170", "0"),
        ("tall", "20"),
        ("170", "2.5"),
        ("-170", "20"),
        ("4294967.296", "20"),
        ("170", "4294967296"),
    ] {
        screen.error_message = None;
        screen.height_cm = height.to_string();
        screen.age = age.to_string();
        screen.submit(&mut db, &mut state);
        assert_eq!(screen.error_message, Some("Invalid height or age.".to_string()));
    }
    assert_eq!(state, AppState::Register);
    assert_eq!(db.users().len(), 1);
    screen.height_cm = "4294967.295".to_string();
    screen.age = "4294967295".to_string();
    screen.submit(&mut db, &mut state);
    assert_eq!(state, AppState::Home);
    assert_eq!(db.users()[1].profile.height_cm, u32::MAX);
    assert_eq!(db.users()[1].profile.age, u32::MAX);
    screen.back_to_login(&mut state);
    assert_eq!(state, AppState::Login);
}

#[test]
fn basic_food_form() {
    let start = AddBasicFoodScreen::new();
    assert_eq!(start.new_food_id, "");
    assert_eq!(start.new_food_keywords, "");
    assert_eq!(start.new_food_calories, "");
    let mut db = Database::new();
    let mut state = AppState::AddBasicFood;
    let mut screen = AddBasicFoodScreen::new();
    screen.new_food_id = "apple".to_string();
    screen.new_food_keywords = "fruit, red".to_string();
    screen.new_food_calories = "ninety".to_string();
    assert_eq!(screen.save(&mut db, &mut state), Err(ParseError::InvalidCharacter));
    assert_eq!(state, AppState::AddBasicFood);
    assert!(db.basic_foods().is_empty());
    screen.new_food_calories = String::new();
    assert_eq!(screen.save(&mut db, &mut state), Err(ParseError::Empty));
    screen.new_food_calories = "94.5".to_string();
    assert_eq!(screen.save(&mut db, &mut state), Ok(()));
    assert_eq!(state, AppState::Home);
    let stored = &db.basic_foods()[0];
    assert_eq!(stored.id, "apple");
    assert_eq!(stored.name, "apple");
    assert_eq!(stored.keywords, vec!["fruit".to_string(), "red".to_string()]);
    assert_eq!(stored.calories_per_serving, 94_500);
    state = AppState::AddBasicFood;
    screen.cancel(&mut state);
    assert_eq!(state, AppState::Home);
}

#[test]
fn home_buttons_lead_to_their_screens() {
    let mut db = database_with_ann();
    assert_eq!(db.log_in("ann", "pw"), Ok(()));
    let home = HomeScreen;
    let expected = [
        (HomeButton::AddBasicFood, AppState::AddBasicFood),
        (HomeButton::AddCompositeFood, AppState::AddCompositeFood),
        (HomeButton::ViewDailyLog, AppState::ViewDailyLog),
        (HomeButton::AddFoodToLog, AppState::AddFoodToLog),
        (HomeButton::EditFoodLog, AppState::EditFoodLog),
        (HomeButton::UpdateProfile, AppState::UpdateProfile),
    ];
    for (button, screen) in expected {
        let mut state = AppState::Home;
        home.press(button, &mut db, &mut state);
        assert_eq!(state, screen);
        assert_eq!(db.current_user(), "u1");
    }
    assert_eq!(home.welcome_name(&db), Some("ann".to_string()));
    let mut state = AppState::Home;
    home.press(HomeButton::Logout, &mut db, &mut state);
    assert_eq!(state, AppState::Login);
    assert_eq!(db.current_user(), "");
    assert_eq!(home.welcome_name(&db), None);
}

#[test]
fn undo_puts_the_earlier_database_back() {
    let home = HomeScreen;
    let mut db = database_with_ann();
    let earlier = db.clone();
    db.add_basic_food(food("apple", &[], 95_000));
    home.undo(&mut db, None);
    assert_eq!(db.basic_foods().len(), 1);
    home.undo(&mut db, Some(earlier));
    assert_eq!(db.basic_foods().len(), 0);
    assert_eq!(db.users().len(), 1);
}

#[test]
fn home_shows_the_balance_of_the_day() {
    let home = HomeScreen;
    let mut db = database_with_ann();
    db.add_basic_food(food("apple", &[], 95_000));
    db.append_log_entry(eaten("u1", "2024-03-01", "apple", 2_000));
    let (consumed, target, remaining) = home.calculate_user_calories(&db, "u1", "2024-03-01");
    assert_eq!((consumed, target, remaining), (190_000, 2_034_800, 1_844_800));
    assert_eq!(HomeScreen::balance(consumed, target), Balance::Remaining(1_844_800));
    assert_eq!(HomeScreen::balance(3_000_000, target), Balance::OverBy(965_200));
    assert_eq!(HomeScreen::balance(5, 5), Balance::Remaining(0));
    assert_eq!(HomeScreen::balance(u64::MAX, i64::MIN), Balance::OverBy((1u128 << 64) - 1 + (1u128 << 63)));
    assert_eq!(HomeScreen::balance(0, i64::MAX), Balance::Remaining(i64::MAX as u64));
    assert_eq!(HomeScreen::progress(consumed, target), Some(93));
    assert_eq!(HomeScreen::progress(1_000, 2_000), Some(500));
    assert_eq!(HomeScreen::progress(5_000, 2_000), Some(2_500));
    assert_eq!(HomeScreen::progress(5_000, 0), None);
    assert_eq!(HomeScreen::progress(5_000, -1), None);
    assert_eq!(HomeScreen::progress(u64::MAX, 1), Some(u64::MAX as u128 * 1000));
    assert_eq!(HomeScreen::bar_fill(93), 93);
    assert_eq!(HomeScreen::bar_fill(1_000), 1_000);
    assert_eq!(HomeScreen::bar_fill(2_500), 1_000);
    assert_eq!(HomeScreen::bar_fill(u128::MAX), 1_000);
}

#[test]
fn food_log_form_offers_the_foods_that_pass_the_filter() {
    let mut db = database_with_ann();
    db.add_basic_food(food("apple", &["fruit", "red"], 95_000));
    db.add_basic_food(food("lettuce", &["green", "leaf"], 15_000));
    db.add_composite_food(CompositeFood {
        id: "salad".to_string(),
        name: "Green salad".to_string(),
        keywords: vec!["green".to_string(), "fruit".to_string()],
        components: Vec::new(),
    });
    let mut screen = AddFoodToLogScreen::new("2024-03-01".to_string());
    assert_eq!(screen.selected_food_id, "");
    assert_eq!(screen.servings, 1_000);
    assert_eq!(screen.keywords, "");
    assert!(screen.match_all_keywords);
    assert_eq!(screen.selected_date, "2024-03-01");
    let offered = |screen: &AddFoodToLogScreen, db: &Database| -> Vec<(String, String)> {
        screen.choices(db).into_iter().map(|c| (c.id, c.name)).collect()
    };
    let pair = |id: &str, name: &str| (id.to_string(), name.to_string());
    assert_eq!(
        offered(&screen, &db),
        vec![pair("apple", "APPLE"), pair("lettuce", "LETTUCE"), pair("salad", "Green salad")]
    );
    screen.keywords = " green  fruit ".to_string();
    assert_eq!(offered(&screen, &db), vec![pair("salad", "Green salad")]);
    screen.match_all_keywords = false;
    assert_eq!(
        offered(&screen, &db),
        vec![pair("apple", "APPLE"), pair("lettuce", "LETTUCE"), pair("salad", "Green salad")]
    );
    screen.keywords = "lea".to_string();
    assert_eq!(offered(&screen, &db), vec![pair("lettuce", "LETTUCE")]);
    screen.keywords = "meat".to_string();
    assert!(offered(&screen, &db).is_empty());
    let words = vec!["ed".to_string(), "blue".to_string()];
    assert!(screen.matches_keywords(&db.basic_foods()[0].keywords, &words));
    screen.match_all_keywords = true;
    assert!(!screen.matches_keywords(&db.basic_foods()[0].keywords, &words));
}

#[test]
fn food_log_form_records_for_the_user_who_is_logged_in() {
    let mut db = database_with_ann();
    assert_eq!(db.log_in("ann", "pw"), Ok(()));
    db.add_basic_food(food("apple", &[], 95_000));
    let mut state = AppState::AddFoodToLog;
    let mut screen = AddFoodToLogScreen::new("2024-03-01".to_string());
    screen.select("apple");
    assert_eq!(screen.selected_food_id, "apple");
    screen.servings = 2_500;
    screen.add_to_log(&mut db, &mut state);
    assert_eq!(state, AppState::Home);
    assert_eq!(db.food_logs().len(), 1);
    let entry = &db.food_logs()[0];
    assert_eq!(entry.date, "2024-03-01");
    assert_eq!(entry.food_id, "apple");
    assert_eq!(entry.servings, 2_500);
    assert_eq!(entry.user_id, "u1");
    assert_eq!(db.calculate_calories("u1", "2024-03-01").0, 237_500);
}

#[test]
fn daily_log_moves_from_day_to_day() {
    let mut screen = ViewDailyLogScreen::new(CalendarDay { year: 2024, month: 3, day: 1 });
    assert_eq!(screen.date_text(), Some("2024-03-01".to_string()));
    screen.previous_day();
    assert_eq!(screen.selected_date, CalendarDay { year: 2024, month: 2, day: 29 });
    assert_eq!(screen.date_text(), Some("2024-02-29".to_string()));
    screen.next_day();
    screen.next_day();
    assert_eq!(screen.selected_date, CalendarDay { year: 2024, month: 3, day: 2 });
    let mut nowhere = ViewDailyLogScreen::new(CalendarDay { year: 2024, month: 2, day: 30 });
    nowhere.next_day();
    nowhere.previous_day();
    assert_eq!(nowhere.selected_date, CalendarDay { year: 2024, month: 2, day: 30 });
    assert_eq!(nowhere.date_text(), None);
    let mut state = AppState::ViewDailyLog;
    screen.back(&mut state);
    assert_eq!(state, AppState::Home);
}

#[test]
fn daily_log_shows_and_deletes_the_entries_of_the_day() {
    let mut db = database_with_ann();
    assert_eq!(db.log_in("ann", "pw"), Ok(()));
    db.add_basic_food(food("apple", &[], 95_000));
    db.add_basic_food(food("bread", &[], 265_000));
    db.append_log_entry(eaten("u1", "2024-03-01", "apple", 1_000));
    db.append_log_entry(eaten("u2", "2024-03-01", "apple", 9_000));
    db.append_log_entry(eaten("u1", "2024-03-01", "bread", 2_000));
    db.append_log_entry(eaten("u1", "2024-03-02", "bread", 1_000));
    db.append_log_entry(eaten("u1", "2024-03-01", "apple", 3_000));
    let screen = ViewDailyLogScreen::new(CalendarDay { year: 2024, month: 3, day: 1 });
    assert_eq!(screen.summary(&db), Some((910_000, 2_034_800, 1_124_800)));
    let shown: Vec<(String, u64)> =
        screen.entries(&db).into_iter().map(|e| (e.food_id, e.servings)).collect();
    assert_eq!(
        shown,
        vec![("apple".to_string(), 1_000), ("bread".to_string(), 2_000), ("apple".to_string(), 3_000)]
    );
    screen.delete_entries(&mut db, &vec![0, 2, 7]);
    let left: Vec<(String, String, u64)> = db
        .food_logs()
        .iter()
        .map(|e| (e.user_id.clone(), e.food_id.clone(), e.servings))
        .collect();
    assert_eq!(
        left,
        vec![
            ("u2".to_string(), "apple".to_string(), 9_000),
            ("u1".to_string(), "bread".to_string(), 2_000),
            ("u1".to_string(), "bread".to_string(), 1_000)
        ]
    );
    assert_eq!(screen.summary(&db), Some((530_000, 2_034_800, 1_504_800)));
    let nowhere = ViewDailyLogScreen::new(CalendarDay { year: 2024, month: 2, day: 30 });
    assert_eq!(nowhere.summary(&db), None);
    assert!(nowhere.entries(&db).is_empty());
    nowhere.delete_entries(&mut db, &vec![0]);
    assert_eq!(db.food_logs().len(), 3);
    assert_eq!(screen.calculate_daily_goal(&profile()), 2_034_800);
    let mut weightless = profile();
    weightless.weight_kg = 0;
    assert_eq!(screen.calculate_daily_goal(&weightless), 0);
}
