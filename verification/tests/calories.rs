use diet_manager::database::Database;
use diet_manager::models::{BasicFood, CompositeFood, FoodComponent};
use diet_manager::resolve::FoodError;

fn basic(id: &str, calories: u64) -> BasicFood {
    BasicFood {
        id: id.to_string(),
        name: id.to_string(),
        keywords: vec![id.to_string()],
        calories_per_serving: calories,
    }
}

fn part(food_id: &str, servings: u64) -> FoodComponent {
    FoodComponent { food_id: food_id.to_string(), servings }
}

fn composite(id: &str, components: Vec<FoodComponent>) -> CompositeFood {
    CompositeFood { id: id.to_string(), name: id.to_string(), keywords: Vec::new(), components }
}

#[test]
fn basic_food_resolves_to_its_stored_calories() {
    let mut db = Database::new();
    db.add_basic_food(basic("apple", 95_000));
    db.add_basic_food(basic("lettuce", 15_000));
    assert_eq!(db.get_food_calories("apple"), Ok(95_000));
    assert_eq!(db.get_food_calories("lettuce"), Ok(15_000));
}

#[test]
fn unknown_food_is_not_found() {
    let mut db = Database::new();
    assert_eq!(db.get_food_calories("nonexistent"), Err(FoodError::FoodNotFound));
    db.add_basic_food(basic("apple", 95_000));
    assert_eq!(db.get_food_calories("nonexistent"), Err(FoodError::FoodNotFound));
    assert_eq!(db.get_food_calories(""), Err(FoodError::FoodNotFound));
}

#[test]
fn salad_is_the_sum_of_its_components() {
    let mut db = Database::new();
    db.add_basic_food(basic("apple", 95_000));
    db.add_basic_food(basic("lettuce", 15_000));
    db.add_composite_food(composite("salad", vec![part("apple", 1_000), part("lettuce", 2_000)]));
    assert_eq!(db.get_food_calories("salad"), Ok(125_000));
    let as_float = db.get_food_calories("salad").unwrap() as f64 / 1000.0;
    assert!((as_float - 125.0).abs() < 1e-6);
}

#[test]
fn food_that_contains_itself_is_cyclic() {
    let mut db = Database::new();
    db.add_basic_food(basic("apple", 95_000));
    db.add_composite_food(composite("loop", vec![part("apple", 1_000), part("loop", 1_000)]));
    assert_eq!(db.get_food_calories("loop"), Err(FoodError::CyclicReference));
    db.add_composite_food(composite("a", vec![part("b", 1_000)]));
    db.add_composite_food(composite("b", vec![part("c", 500)]));
    db.add_composite_food(composite("c", vec![part("apple", 1_000), part("a", 1_000)]));
    assert_eq!(db.get_food_calories("a"), Err(FoodError::CyclicReference));
    assert_eq!(db.get_food_calories("b"), Err(FoodError::CyclicReference));
    assert_eq!(db.get_food_calories("c"), Err(FoodError::CyclicReference));
    assert_eq!(db.get_food_calories("apple"), Ok(95_000));
}
