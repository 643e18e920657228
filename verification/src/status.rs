//! Status updates pushed by the device's installer, and the search for the
//! field that signals completion.

use vstd::prelude::*;
use vstd::string::StringExecFns;

verus! {

/// A status update: a self-describing tree of values, nested to any depth.
pub enum StatusValue {
    /// A text leaf.
    Text(String),
    /// A leaf that is not text: a number, a boolean, a date or binary data.
    Other,
    /// An ordered list of values.
    Array(Vec<StatusValue>),
    /// Keyed values, in the order in which the update lists them.
    Dictionary(Vec<(String, StatusValue)>),
}

/// The key whose value tells how far an installation has come.
pub open spec fn status_key() -> Seq<char> {
    "Status"@
}

/// The value of the status key that signals terminal success.
pub open spec fn complete_value() -> Seq<char> {
    "Complete"@
}

impl StatusValue {
    /// Whether this value is the text `value`.
    pub open spec fn is_text(self, value: Seq<char>) -> bool {
        self matches StatusValue::Text(t) && t@ == value
    }

    /// Whether some dictionary at any depth of this tree holds `key` with the
    /// text `value`.
    pub open spec fn has_entry(self, key: Seq<char>, value: Seq<char>) -> bool
        decreases self, 0int,
    {
        match self {
            StatusValue::Text(_) => false,
            StatusValue::Other => false,
            StatusValue::Array(items) => exists|i: int|
                0 <= i < items@.len() && (#[trigger] items@[i]).has_entry(key, value),
            StatusValue::Dictionary(entries) => exists|i: int|
                0 <= i < entries@.len() && (#[trigger] entries@[i]).1.entry_hit(
                    entries@[i].0@,
                    key,
                    value,
                ),
        }
    }

    /// Whether this value, held under `own_key`, is the entry sought or holds
    /// it further down.
    pub open spec fn entry_hit(self, own_key: Seq<char>, key: Seq<char>, value: Seq<char>) -> bool
        decreases self, 1int,
    {
        (own_key == key && self.is_text(value)) || self.has_entry(key, value)
    }

    /// Whether this update signals that the installation is complete.
    pub open spec fn completes(self) -> bool {
        self.has_entry(status_key(), complete_value())
    }

    /// Tells whether this value is the text `value`.
    pub fn text_equals(&self, value: &String) -> (b: bool)
        ensures
            b == self.is_text(value@),
    {
        match self {
            StatusValue::Text(t) => *t == *value,
            _ => false,
        }
    }

    /// Searches the whole tree for a dictionary entry named `key` whose value
    /// is the text `value`.
    #[verifier::loop_isolation(false)]
    pub fn contains_entry(&self, key: &String, value: &String) -> (found: bool)
        ensures
            found == self.has_entry(key@, value@),
        decreases self,
    {
        match self {
            StatusValue::Text(_) => false,
            StatusValue::Other => false,
            StatusValue::Array(items) => {
                let mut i: usize = 0;
                while i < items.len()
                    invariant
                        i <= items.len(),
                        forall|j: int|
                            0 <= j < i ==> !(#[trigger] items@[j]).has_entry(key@, value@),
                    decreases items.len() - i,
                {
                    proof {
                        assert(decreases_to!(*items => items@));
                        assert(decreases_to!(items@ => items@[i as int]));
                    }
                    if items[i].contains_entry(key, value) {
                        assert(items@[i as int].has_entry(key@, value@));
                        return true;
                    }
                    i += 1;
                }
                false
            },
            StatusValue::Dictionary(entries) => {
                let mut i: usize = 0;
                while i < entries.len()
                    invariant
                        i <= entries.len(),
                        forall|j: int|
                            0 <= j < i ==> !(#[trigger] entries@[j]).1.entry_hit(
                                entries@[j].0@,
                                key@,
                                value@,
                            ),
                    decreases entries.len() - i,
                {
                    let entry = &entries[i];
                    proof {
                        assert(decreases_to!(*entries => entries@));
                        assert(decreases_to!(entries@ => entries@[i as int]));
                        assert(decreases_to!(entries@[i as int] => entries@[i as int].1));
                    }
                    let hit = (entry.0 == *key && entry.1.text_equals(value))
                        || entry.1.contains_entry(key, value);
                    if hit {
                        assert(entries@[i as int].1.entry_hit(
                            entries@[i as int].0@,
                            key@,
                            value@,
                        ));
                        return true;
                    }
                    i += 1;
                }
                false
            },
        }
    }

    /// Tells whether this update signals that the installation is complete:
    /// some dictionary of it, at any depth, holds `Status` with the text
    /// `Complete`.
    pub fn signals_completion(&self) -> (done: bool)
        ensures
            done == self.completes(),
    {
        let key = String::from_str("Status");
        let value = String::from_str("Complete");
        self.contains_entry(&key, &value)
    }
}

} // verus!
