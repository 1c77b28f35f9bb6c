use diet_manager::database::Database;
use diet_manager::models::{
    ActivityLevel, BasicFood, CalorieCalculationMethod, CompositeFood, FoodComponent,
    FoodLogEntry, Gender, User, UserProfile,
};

fn basic(id: &str, calories: u64) -> BasicFood {
    BasicFood {
        id: id.to_string(),
        name: id.to_string(),
        keywords: Vec::new(),
        calories_per_serving: calories,
    }
}

fn eaten(user: &str, date: &str, food: &str, servings: u64) -> FoodLogEntry {
    FoodLogEntry {
        date: date.to_string(),
        food_id: food.to_string(),
        servings,
        user_id: user.to_string(),
    }
}

fn profile() -> UserProfile {
    UserProfile {
        gender: Gender::Male,
        height_cm: 175_000,
        age: 30,
        calorie_method: CalorieCalculationMethod::HarrisBenedict,
        weight_kg: 70_000,
        activity_level: ActivityLevel::Sedentary,
    }
}

fn user(id: &str, profile: UserProfile) -> User {
    User {
        user_id: id.to_string(),
        username: id.to_string(),
        password: "secret".to_string(),
        profile,
    }
}

#[test]
fn two_apples_are_190_calories() {
    let mut db = Database::new();
    db.add_basic_food(basic("apple", 95_000));
    db.append_log_entry(eaten("ann", "2024-03-01", "apple", 2_000));
    let (consumed, _, _) = db.calculate_calories("ann", "2024-03-01");
    assert_eq!(consumed, 190_000);
    assert!((consumed as f64 / 1000.0 - 190.0).abs() < 1e-6);
}

#[test]
fn empty_day_consumes_nothing_and_leaves_the_target() {
    let mut db = Database::new();
    db.add_basic_food(basic("apple", 95_000));
    assert_eq!(db.add_user(user("ann", profile())), Ok(()));
    db.append_log_entry(eaten("ann", "2024-03-01", "apple", 2_000));
    db.append_log_entry(eaten("bob", "2024-03-02", "apple", 1_000));
    let (consumed, target, remaining) = db.calculate_calories("ann", "2024-03-02");
    assert_eq!(consumed, 0);
    assert_eq!(target, 2_034_800);
    assert_eq!(remaining, 2_034_800);
}

#[test]
fn unknown_user_has_no_target() {
    let mut db = Database::new();
    db.add_basic_food(basic("apple", 95_000));
    db.append_log_entry(eaten("ghost", "2024-03-01", "apple", 1_000));
    assert_eq!(db.calculate_calories("ghost", "2024-03-01"), (95_000, 0, -95_000));
}

#[test]
fn invalid_profile_has_no_target() {
    let mut db = Database::new();
    let mut weightless = profile();
    weightless.weight_kg = 0;
    assert_eq!(db.add_user(user("ann", weightless)), Ok(()));
    assert_eq!(db.calculate_calories("ann", "2024-03-01"), (0, 0, 0));
}

#[test]
fn order_of_the_log_does_not_matter() {
    let entries = vec![
        eaten("ann", "2024-03-01", "apple", 2_000),
        eaten("ann", "2024-03-01", "bread", 1_500),
        eaten("bob", "2024-03-01", "apple", 1_000),
        eaten("ann", "2024-03-02", "bread", 3_000),
        eaten("ann", "2024-03-01", "apple", 333),
    ];
    let orders: [[usize; 5]; 4] =
        [[0, 1, 2, 3, 4], [4, 3, 2, 1, 0], [2, 0, 4, 1, 3], [1, 4, 0, 3, 2]];
    let mut totals = Vec::new();
    for order in orders.iter() {
        let mut db = Database::new();
        db.add_basic_food(basic("apple", 95_000));
        db.add_basic_food(basic("bread", 265_500));
        for &i in order.iter() {
            db.append_log_entry(entries[i].clone());
        }
        totals.push(db.calculate_calories("ann", "2024-03-01").0);
    }
    assert_eq!(totals[0], 190_000 + 398_250 + 31_635);
    assert!(totals.iter().all(|&t| t == totals[0]));
}

#[test]
fn entries_without_calories_count_as_nothing() {
    let mut db = Database::new();
    db.add_basic_food(basic("apple", 95_000));
    db.add_composite_food(CompositeFood {
        id: "loop".to_string(),
        name: "loop".to_string(),
        keywords: Vec::new(),
        components: vec![FoodComponent { food_id: "loop".to_string(), servings: 1_000 }],
    });
    db.append_log_entry(eaten("ann", "2024-03-01", "apple", 1_000));
    db.append_log_entry(eaten("ann", "2024-03-01", "nothing", 5_000));
    db.append_log_entry(eaten("ann", "2024-03-01", "loop", 5_000));
    assert_eq!(db.calculate_calories("ann", "2024-03-01").0, 95_000);
}

#[test]
fn remaining_is_negative_when_over_the_target() {
    let mut db = Database::new();
    db.add_basic_food(basic("feast", 3_000_000));
    assert_eq!(db.add_user(user("ann", profile())), Ok(()));
    db.append_log_entry(eaten("ann", "2024-03-01", "feast", 1_000));
    let (consumed, target, remaining) = db.calculate_calories("ann", "2024-03-01");
    assert_eq!(consumed, 3_000_000);
    assert_eq!(remaining, target as i128 - consumed as i128);
    assert_eq!(remaining, -965_200);
}

#[test]
fn totals_saturate() {
    let mut db = Database::new();
    db.add_basic_food(basic("huge", u64::MAX));
    db.append_log_entry(eaten("ann", "2024-03-01", "huge", 1_000));
    db.append_log_entry(eaten("ann", "2024-03-01", "huge", 1_000));
    assert_eq!(db.calculate_calories("ann", "2024-03-01").0, u64::MAX);
    db.add_composite_food(CompositeFood {
        id: "double".to_string(),
        name: "double".to_string(),
        keywords: Vec::new(),
        components: vec![FoodComponent { food_id: "huge".to_string(), servings: 2_000 }],
    });
    assert_eq!(db.get_food_calories("double"), Ok(u64::MAX));
}

#[test]
fn missing_components_add_nothing() {
    let mut db = Database::new();
    db.add_basic_food(basic("apple", 95_000));
    db.add_composite_food(CompositeFood {
        id: "mix".to_string(),
        name: "mix".to_string(),
        keywords: Vec::new(),
        components: vec![
            FoodComponent { food_id: "gone".to_string(), servings: 1_000 },
            FoodComponent { food_id: "apple".to_string(), servings: 500 },
        ],
    });
    db.add_composite_food(CompositeFood {
        id: "void".to_string(),
        name: "void".to_string(),
        keywords: Vec::new(),
        components: vec![FoodComponent { food_id: "gone".to_string(), servings: 1_000 }],
    });
    assert_eq!(db.get_food_calories("mix"), Ok(47_500));
    assert_eq!(db.get_food_calories("void"), Ok(0));
}

#[test]
fn nested_composites_resolve_and_basic_food_takes_precedence() {
    let mut db = Database::new();
    db.add_basic_food(basic("apple", 95_000));
    db.add_composite_food(CompositeFood {
        id: "bowl".to_string(),
        name: "bowl".to_string(),
        keywords: Vec::new(),
        components: vec![FoodComponent { food_id: "apple".to_string(), servings: 2_000 }],
    });
    db.add_composite_food(CompositeFood {
        id: "menu".to_string(),
        name: "menu".to_string(),
        keywords: Vec::new(),
        components: vec![
            FoodComponent { food_id: "bowl".to_string(), servings: 1_500 },
            FoodComponent { food_id: "bowl".to_string(), servings: 1 },
        ],
    });
    assert_eq!(db.get_food_calories("bowl"), Ok(190_000));
    assert_eq!(db.get_food_calories("menu"), Ok(285_000 + 190));
    db.add_basic_food(basic("bowl", 7_000));
    assert_eq!(db.get_food_calories("bowl"), Ok(7_000));
    assert_eq!(db.get_food_calories("menu"), Ok(10_500 + 7));
}
