use vstd::prelude::*;

use crate::error::HistoryError;

verus! {

/// One recorded clipboard entry: the text that was copied and the moment it
/// was recorded, as a Unix timestamp in milliseconds of local wall-clock time.
#[derive(Debug)]
pub struct HistoryItem {
    pub timestamp: i64,
    pub contents: String,
}

/// Relies on `chrono::Local::now` for the current local time; the result is
/// converted to a plain value with `DateTime::timestamp_millis`. Nothing can
/// be promised of the clock's reading.
#[verifier::external_body]
fn current_timestamp_millis() -> i64 {
    chrono::Local::now().timestamp_millis()
}

impl HistoryItem {
    /// Records `contents` at the current time.
    pub fn new(contents: String) -> (item: HistoryItem)
        ensures
            item.contents == contents,
    {
        HistoryItem { timestamp: current_timestamp_millis(), contents }
    }
}

/// An ordered collection of recorded entries, oldest first and
/// newest last; exclusively owned by its holder and mutated only through
/// `append` and `remove`.
pub struct History {
    items: Vec<HistoryItem>,
}

impl View for History {
    type V = Seq<HistoryItem>;

    closed spec fn view(&self) -> Seq<HistoryItem> {
        self.items@
    }
}

impl History {
    /// An empty history.
    pub fn new() -> (h: History)
        ensures
            h@ === Seq::<HistoryItem>::empty(),
    {
        History { items: Vec::new() }
    }

    /// The count of stored items.
    pub fn len(&self) -> (n: usize)
        ensures
            n == self@.len(),
    {
        self.items.len()
    }

    /// Records `contents` at the current time, placed at the end (most
    /// recent); earlier entries are untouched.
    pub fn append(&mut self, contents: String)
        ensures
            final(self)@.len() == old(self)@.len() + 1,
            final(self)@.last().contents == contents,
            forall|i: int| 0 <= i < old(self)@.len() ==> final(self)@[i] == old(self)@[i],
    {
        let item = HistoryItem::new(contents);
        self.items.push(item);
    }

    /// The item at `index`, or `IndexOutOfRange` when `index >= len`.
    pub fn get(&self, index: usize) -> (r: Result<&HistoryItem, HistoryError>)
        ensures
            index < self@.len() ==> r == Ok::<&HistoryItem, HistoryError>(&self@[index as int]),
            index >= self@.len() ==> r == Err::<&HistoryItem, HistoryError>(
                HistoryError::IndexOutOfRange { index, len: self@.len() as usize },
            ),
    {
        let len = self.items.len();
        if index < len {
            Ok(&self.items[index])
        } else {
            Err(HistoryError::IndexOutOfRange { index, len })
        }
    }

    /// The contents of the most recent `amount` items (all of them when
    /// `amount >= len`), in chronological order: position `i` of the result
    /// holds the item at absolute index `len - count + i`, `count` being the
    /// size of the returned window.
    pub fn recent(&self, amount: usize) -> (r: Vec<String>)
        ensures
            r@.len() == if amount <= self@.len() {
                amount as int
            } else {
                self@.len() as int
            },
            forall|i: int|
                0 <= i < r@.len() ==> #[trigger] r@[i]@ == self@[self@.len() - r@.len()
                    + i].contents@,
    {
        let len = self.items.len();
        let count = if amount < len {
            amount
        } else {
            len
        };
        let start = len - count;
        let mut out: Vec<String> = Vec::new();
        let mut i: usize = 0;
        while i < count
            invariant
                len == self@.len(),
                count <= len,
                start == len - count,
                i <= count,
                out@.len() == i,
                forall|j: int| 0 <= j < i ==> #[trigger] out@[j]@ == self@[start + j].contents@,
            decreases count - i,
        {
            let entry = &self.items[start + i];
            out.push(entry.contents.clone());
            i += 1;
        }
        out
    }

    /// Removes and returns the item at `index`, shifting the items after it
    /// down by one; fails with `IndexOutOfRange` when `index >= len`, leaving
    /// the history unchanged.
    pub fn remove(&mut self, index: usize) -> (r: Result<HistoryItem, HistoryError>)
        ensures
            index < old(self)@.len() ==> r == Ok::<HistoryItem, HistoryError>(old(self)@[index as int])
                && final(self)@ == old(self)@.remove(index as int),
            index >= old(self)@.len() ==> r == Err::<HistoryItem, HistoryError>(
                HistoryError::IndexOutOfRange { index, len: old(self)@.len() as usize },
            ) && final(self)@ == old(self)@,
    {
        let len = self.items.len();
        if index < len {
            Ok(self.items.remove(index))
        } else {
            Err(HistoryError::IndexOutOfRange { index, len })
        }
    }
}

} // verus!
