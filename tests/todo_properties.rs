use std::collections::HashSet;

use todo_app::todo::{is_blank, next_stamp};
use todo_app::{Priority, TodoError, TodoList};

fn texts(todos: &TodoList) -> Vec<String> {
    todos.get_all_todos().iter().map(|t| t.text.clone()).collect()
}

#[test]
fn add_appends_fresh_incomplete_record() {
    let mut todos = TodoList::new();
    todos.add_todo("first".to_string(), Priority::High).unwrap();
    let t = todos.add_todo("second".to_string(), Priority::Low).unwrap();
    assert_eq!(todos.get_all_todos().len(), 2);
    assert!(!t.completed);
    assert_eq!(t.created_at, t.updated_at);
    assert_eq!(t.priority, Priority::Low);
    assert_eq!(todos.get_all_todos()[1].id, t.id);
}

#[test]
fn blank_texts_are_refused() {
    let mut todos = TodoList::new();
    todos.add_todo("kept".to_string(), Priority::Medium).unwrap();
    for text in ["", " ", "\t\n", "\u{a0}\u{3000}"] {
        let r = todos.add_todo(text.to_string(), Priority::Medium);
        assert_eq!(r.unwrap_err(), TodoError::EmptyText);
        assert_eq!(todos.get_all_todos().len(), 1);
    }
}

#[test]
fn thousand_adds_give_distinct_ids() {
    let mut todos = TodoList::new();
    let mut seen = HashSet::new();
    for i in 0..1000 {
        let t = todos.add_todo(format!("task {}", i), Priority::Medium).unwrap();
        assert!(seen.insert(t.id));
    }
    assert_eq!(todos.get_all_todos().len(), 1000);
}

#[test]
fn remove_returns_exact_record_and_keeps_order() {
    let mut todos = TodoList::new();
    let a = todos.add_todo_at("a".to_string(), Priority::Low, 10, 100).unwrap();
    let b = todos.add_todo_at("b".to_string(), Priority::High, 20, 200).unwrap();
    let c = todos.add_todo_at("c".to_string(), Priority::Medium, 30, 300).unwrap();
    let removed = todos.remove_todo(b.id).unwrap();
    assert_eq!(removed.id, 20);
    assert_eq!(removed.text, "b");
    assert_eq!(removed.priority, Priority::High);
    assert_eq!(removed.created_at, 200);
    assert_eq!(texts(&todos), vec!["a".to_string(), "c".to_string()]);
    assert_eq!(todos.get_all_todos()[0].id, a.id);
    assert_eq!(todos.get_all_todos()[1].id, c.id);
    assert_eq!(todos.remove_todo(20).unwrap_err(), TodoError::NotFound { id: 20 });
    assert_eq!(todos.get_all_todos().len(), 2);
}

#[test]
fn taken_candidate_falls_back_to_lowest_free_id() {
    let mut todos = TodoList::new();
    todos.add_todo_at("x".to_string(), Priority::Low, 0, 1).unwrap();
    todos.add_todo_at("y".to_string(), Priority::Low, 1, 1).unwrap();
    todos.add_todo_at("z".to_string(), Priority::Low, 5, 1).unwrap();
    let t = todos.add_todo_at("w".to_string(), Priority::Low, 5, 2).unwrap();
    assert_eq!(t.id, 2);
    let u = todos.add_todo_at("v".to_string(), Priority::Low, 7, 3).unwrap();
    assert_eq!(u.id, 7);
}

#[test]
fn toggle_twice_restores_flag_and_advances_time() {
    let mut todos = TodoList::new();
    let t = todos.add_todo_at("t".to_string(), Priority::Medium, 1, 500).unwrap();
    let once = todos.toggle_todo_at(t.id, 800).unwrap();
    assert!(once.completed);
    assert_eq!(once.updated_at, 800);
    assert_eq!(once.created_at, 500);
    // A clock that did not move on still gives a later update time.
    let twice = todos.toggle_todo_at(t.id, 800).unwrap();
    assert!(!twice.completed);
    assert_eq!(twice.updated_at, 801);
    let thrice = todos.toggle_todo_at(t.id, 100).unwrap();
    assert_eq!(thrice.updated_at, 802);
    assert_eq!(todos.toggle_todo_at(99, 900).unwrap_err(), TodoError::NotFound { id: 99 });
}

#[test]
fn completed_records_in_insertion_order() {
    let mut todos = TodoList::new();
    let ids: Vec<u128> = (0..5)
        .map(|i| todos.add_todo(format!("n{}", i), Priority::Low).unwrap().id)
        .collect();
    todos.toggle_todo(ids[3]).unwrap();
    todos.toggle_todo(ids[0]).unwrap();
    todos.toggle_todo(ids[2]).unwrap();
    todos.toggle_todo(ids[2]).unwrap();
    let done: Vec<String> = todos.get_completed_todos().iter().map(|t| t.text.clone()).collect();
    assert_eq!(done, vec!["n0".to_string(), "n3".to_string()]);
}

#[test]
fn lookup_by_id() {
    let mut todos = TodoList::new();
    todos.add_todo_at("one".to_string(), Priority::Low, 11, 5).unwrap();
    todos.add_todo_at("two".to_string(), Priority::High, 12, 6).unwrap();
    let found = todos.get_todo_by_id(12).unwrap();
    assert_eq!(found.text, "two");
    assert_eq!(found.created_at, 6);
    assert!(todos.get_todo_by_id(13).is_none());
}

#[test]
fn scenario_milk_and_report() {
    let mut todos = TodoList::new();
    let milk = todos.add_todo("Buy milk".to_string(), Priority::Low).unwrap().id;
    let report = todos.add_todo("Write report".to_string(), Priority::High).unwrap().id;
    assert_eq!(texts(&todos), vec!["Buy milk".to_string(), "Write report".to_string()]);
    todos.toggle_todo(milk).unwrap();
    let done: Vec<String> = todos.get_completed_todos().iter().map(|t| t.text.clone()).collect();
    assert_eq!(done, vec!["Buy milk".to_string()]);
    todos.remove_todo(report).unwrap();
    assert_eq!(texts(&todos), vec!["Buy milk".to_string()]);
    assert_eq!(todos.remove_todo(report).unwrap_err(), TodoError::NotFound { id: report });
}

#[test]
fn scenario_blank_adds_leave_list_empty() {
    let mut todos = TodoList::new();
    assert_eq!(todos.add_todo("".to_string(), Priority::Medium).unwrap_err(), TodoError::EmptyText);
    assert!(todos.get_all_todos().is_empty());
    assert_eq!(todos.add_todo("   ".to_string(), Priority::Medium).unwrap_err(), TodoError::EmptyText);
    assert!(todos.get_all_todos().is_empty());
}

#[test]
fn blank_detection() {
    assert!(is_blank(""));
    assert!(is_blank(" \t\r\n"));
    assert!(!is_blank("  a  "));
    assert!(!is_blank("x"));
}

#[test]
fn stamps_move_forward() {
    assert_eq!(next_stamp(10, 20), 20);
    assert_eq!(next_stamp(10, 10), 11);
    assert_eq!(next_stamp(10, 3), 11);
    assert_eq!(next_stamp(i64::MAX, 3), i64::MAX);
}

#[test]
fn not_found_message_names_the_uuid() {
    let e = TodoError::NotFound { id: 0x0123_4567_89ab_cdef_0123_4567_89ab_cdef };
    assert_eq!(
        e.message(),
        "Todo with id 01234567-89ab-cdef-0123-456789abcdef not found"
    );
    assert_eq!(TodoError::EmptyText.message(), "Todo text cannot be empty");
}
