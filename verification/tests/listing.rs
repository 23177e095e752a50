use todo_list::{
    decimal, list_tasks, parse_position, parse_usize, render, Entry, Listing, Task, TodoError,
};

fn item(description: &str, completed: bool) -> Task {
    Task { description: description.to_string(), completed }
}

fn entry(position: usize, description: &str) -> Entry {
    Entry { position, description: description.to_string() }
}

#[test]
fn listing_groups_by_state_under_list_positions() {
    let tasks = vec![item("A", true), item("B", false), item("C", true)];
    let listing = list_tasks(&tasks).unwrap();
    assert_eq!(
        listing,
        Listing { completed: vec![entry(1, "A"), entry(3, "C")], uncompleted: vec![entry(2, "B")] }
    );
}

#[test]
fn listing_of_empty_list() {
    assert_eq!(list_tasks(&Vec::new()), None);
}

#[test]
fn listing_with_one_group_empty() {
    let tasks = vec![item("A", false), item("B", false)];
    assert_eq!(
        list_tasks(&tasks),
        Some(Listing { completed: vec![], uncompleted: vec![entry(1, "A"), entry(2, "B")] })
    );
}

#[test]
fn entry_lines() {
    assert_eq!(entry(1, "A").line(true), "1. [x] A");
    assert_eq!(entry(2, "B").line(false), "2. [ ] B");
    assert_eq!(entry(120, "pay rent").line(false), "120. [ ] pay rent");
}

#[test]
fn render_shows_completed_first() {
    let tasks = vec![item("A", true), item("B", false), item("C", true)];
    assert_eq!(
        render(&tasks),
        vec!["Completed tasks:", "1. [x] A", "3. [x] C", "Uncompleted tasks:", "2. [ ] B"]
    );
}

#[test]
fn render_empty_list() {
    assert_eq!(render(&Vec::new()), vec!["No tasks in the todo list"]);
}

#[test]
fn render_counts_past_nine() {
    let mut tasks = Vec::new();
    for i in 0..11 {
        tasks.push(item("t", i == 9));
    }
    let lines = render(&tasks);
    assert_eq!(lines.len(), 13);
    assert_eq!(lines[1], "10. [x] t");
    assert_eq!(lines[3], "1. [ ] t");
    assert_eq!(lines[12], "11. [ ] t");
}

#[test]
fn decimal_notation() {
    assert_eq!(decimal(0), "0");
    assert_eq!(decimal(7), "7");
    assert_eq!(decimal(10), "10");
    assert_eq!(decimal(1234567890), "1234567890");
    assert_eq!(decimal(usize::MAX), usize::MAX.to_string());
}

#[test]
fn positions_from_text() {
    assert_eq!(parse_position("1"), Ok(1));
    assert_eq!(parse_position("3"), Ok(3));
    assert_eq!(parse_position("0"), Ok(0));
    assert_eq!(parse_position("007"), Ok(7));
    assert_eq!(parse_position("+12"), Ok(12));
    assert_eq!(parse_position(&usize::MAX.to_string()), Ok(usize::MAX));
}

#[test]
fn positions_from_bad_text() {
    assert_eq!(parse_position(""), Err(TodoError::InvalidIndex));
    assert_eq!(parse_position("+"), Err(TodoError::InvalidIndex));
    assert_eq!(parse_position("-1"), Err(TodoError::InvalidIndex));
    assert_eq!(parse_position("++1"), Err(TodoError::InvalidIndex));
    assert_eq!(parse_position(" 1"), Err(TodoError::InvalidIndex));
    assert_eq!(parse_position("1 "), Err(TodoError::InvalidIndex));
    assert_eq!(parse_position("one"), Err(TodoError::InvalidIndex));
    assert_eq!(parse_position("1.5"), Err(TodoError::InvalidIndex));
    assert_eq!(parse_position("99999999999999999999999999"), Err(TodoError::InvalidIndex));
}

#[test]
fn unsigned_numbers_from_text() {
    assert_eq!(parse_usize("0"), Some(0));
    assert_eq!(parse_usize("42"), Some(42));
    assert_eq!(parse_usize("+42"), Some(42));
    assert_eq!(parse_usize("0000000000000000000000000042"), Some(42));
    assert_eq!(parse_usize("18446744073709551615"), "18446744073709551615".parse::<usize>().ok());
    assert_eq!(parse_usize("18446744073709551616"), None);
    assert_eq!(parse_usize("4294967296"), "4294967296".parse::<usize>().ok());
    assert_eq!(parse_usize(""), None);
    assert_eq!(parse_usize("+"), None);
    assert_eq!(parse_usize("-42"), None);
    assert_eq!(parse_usize("4 2"), None);
    assert_eq!(parse_usize("42x"), None);
    assert_eq!(parse_usize("x42"), None);
    assert_eq!(parse_usize("\u{0664}\u{0662}"), None);
}

#[test]
fn unsigned_numbers_read_as_std_reads_them() {
    for text in ["", "+", "-", "+0", "-0", "00", "9", "10", "+-1", "1+", "1_000", "0x10", " 7", "7\n"] {
        assert_eq!(parse_usize(text), text.parse::<usize>().ok(), "{:?}", text);
    }
}

#[test]
fn decimal_text_reads_back() {
    for n in [0usize, 1, 9, 10, 11, 99, 100, 101, 65535, 1234567890, usize::MAX - 1, usize::MAX] {
        assert_eq!(parse_usize(&decimal(n)), Some(n));
        assert_eq!(decimal(n), n.to_string());
    }
}
