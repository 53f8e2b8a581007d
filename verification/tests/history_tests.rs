use cliphist::error::HistoryError;
use cliphist::history::{History, HistoryItem};

fn sample_history() -> History {
    let mut history = History::new();
    history.append("foo".to_owned());
    history.append("bar".to_owned());
    history
}

#[test]
fn a_new_history_is_empty() {
    let history = History::new();
    assert_eq!(history.len(), 0);
}

#[test]
fn append_grows_the_history_at_the_end() {
    let mut history = History::new();
    history.append("foo".to_owned());
    assert_eq!(history.len(), 1);
    history.append("bar".to_owned());
    assert_eq!(history.len(), 2);

    assert_eq!(history.get(0).unwrap().contents, "foo");
    assert_eq!(history.get(1).unwrap().contents, "bar");
}

#[test]
fn a_new_item_keeps_its_contents() {
    let item = HistoryItem::new("snippet".to_owned());
    assert_eq!(item.contents, "snippet");
}

#[test]
fn get_past_the_end_is_rejected() {
    let history = sample_history();
    assert_eq!(
        history.get(2).unwrap_err(),
        HistoryError::IndexOutOfRange { index: 2, len: 2 }
    );
    assert_eq!(
        History::new().get(0).unwrap_err(),
        HistoryError::IndexOutOfRange { index: 0, len: 0 }
    );
}

#[test]
fn remove_returns_the_item_and_shifts_the_rest() {
    let mut history = sample_history();

    let removed = history.remove(0).unwrap();
    assert_eq!(removed.contents, "foo");
    assert_eq!(history.len(), 1);
    assert_eq!(history.get(0).unwrap().contents, "bar");
}

#[test]
fn remove_past_the_end_leaves_the_history_unchanged() {
    let mut history = sample_history();

    assert_eq!(
        history.remove(5).unwrap_err(),
        HistoryError::IndexOutOfRange { index: 5, len: 2 }
    );
    assert_eq!(history.len(), 2);
    assert_eq!(history.get(0).unwrap().contents, "foo");
    assert_eq!(history.get(1).unwrap().contents, "bar");
}

#[test]
fn recent_shows_the_newest_items_oldest_first() {
    let history = sample_history();

    assert_eq!(history.recent(1), vec!["bar".to_owned()]);
    assert_eq!(
        history.recent(2),
        vec!["foo".to_owned(), "bar".to_owned()]
    );
    // Asking for more than there is yields everything.
    assert_eq!(
        history.recent(10),
        vec!["foo".to_owned(), "bar".to_owned()]
    );
    assert_eq!(history.recent(0), Vec::<String>::new());
    assert_eq!(History::new().recent(3), Vec::<String>::new());
}
