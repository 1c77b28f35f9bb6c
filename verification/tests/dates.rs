use diet_manager::dates::{CalendarDay, MAX_YEAR, MIN_YEAR};

fn day(year: i32, month: u32, day: u32) -> CalendarDay {
    CalendarDay { year, month, day }
}

#[test]
fn days_that_exist() {
    assert_eq!(CalendarDay::new(2024, 2, 29), Some(day(2024, 2, 29)));
    assert_eq!(CalendarDay::new(2023, 2, 29), None);
    assert_eq!(CalendarDay::new(1900, 2, 29), None);
    assert_eq!(CalendarDay::new(2000, 2, 29), Some(day(2000, 2, 29)));
    assert_eq!(CalendarDay::new(-4, 2, 29), Some(day(-4, 2, 29)));
    assert_eq!(CalendarDay::new(2023, 4, 31), None);
    assert_eq!(CalendarDay::new(2023, 0, 1), None);
    assert_eq!(CalendarDay::new(2023, 13, 1), None);
    assert_eq!(CalendarDay::new(2023, 1, 0), None);
    assert_eq!(CalendarDay::new(MAX_YEAR, 12, 31), Some(day(MAX_YEAR, 12, 31)));
    assert_eq!(CalendarDay::new(MAX_YEAR + 1, 1, 1), None);
    assert_eq!(CalendarDay::new(MIN_YEAR, 1, 1), Some(day(MIN_YEAR, 1, 1)));
    assert_eq!(CalendarDay::new(MIN_YEAR - 1, 12, 31), None);
    assert!(day(2024, 12, 31).is_real());
    assert!(!day(2024, 11, 31).is_real());
}

#[test]
fn the_day_after() {
    assert_eq!(day(2024, 3, 1).next(), Some(day(2024, 3, 2)));
    assert_eq!(day(2024, 2, 28).next(), Some(day(2024, 2, 29)));
    assert_eq!(day(2023, 2, 28).next(), Some(day(2023, 3, 1)));
    assert_eq!(day(2024, 4, 30).next(), Some(day(2024, 5, 1)));
    assert_eq!(day(2024, 12, 31).next(), Some(day(2025, 1, 1)));
    assert_eq!(day(-1, 12, 31).next(), Some(day(0, 1, 1)));
    assert_eq!(day(MAX_YEAR, 12, 31).next(), None);
    assert_eq!(day(2023, 2, 30).next(), None);
}

#[test]
fn the_day_before() {
    assert_eq!(day(2024, 3, 2).previous(), Some(day(2024, 3, 1)));
    assert_eq!(day(2024, 3, 1).previous(), Some(day(2024, 2, 29)));
    assert_eq!(day(2023, 3, 1).previous(), Some(day(2023, 2, 28)));
    assert_eq!(day(2024, 5, 1).previous(), Some(day(2024, 4, 30)));
    assert_eq!(day(2025, 1, 1).previous(), Some(day(2024, 12, 31)));
    assert_eq!(day(2024, 8, 1).previous(), Some(day(2024, 7, 31)));
    assert_eq!(day(MIN_YEAR, 1, 1).previous(), None);
    assert_eq!(day(2023, 2, 30).previous(), None);
}

#[test]
fn next_and_previous_undo_each_other() {
    let mut current = day(2023, 12, 25);
    for _ in 0..800 {
        let next = current.next().unwrap();
        assert_eq!(next.previous(), Some(current));
        current = next;
    }
    assert_eq!(current, day(2026, 3, 4));
}

#[test]
fn written_days() {
    assert_eq!(day(2024, 3, 1).iso_text(), Some("2024-03-01".to_string()));
    assert_eq!(day(2023, 10, 31).iso_text(), Some("2023-10-31".to_string()));
    assert_eq!(day(987, 1, 9).iso_text(), Some("0987-01-09".to_string()));
    assert_eq!(day(0, 12, 25).iso_text(), Some("0000-12-25".to_string()));
    assert_eq!(day(9999, 12, 31).iso_text(), Some("9999-12-31".to_string()));
    assert_eq!(day(2023, 2, 29).iso_text(), None);
    assert!(day(12345, 1, 1).iso_text().is_some());
}
