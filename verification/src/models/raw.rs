//! Annotation data as it arrives, before it is given its shape.

use vstd::prelude::*;

verus! {

/// A value of loosely structured data: a tree of lists and keyed members
/// with numbers, texts, truth values and blanks at its leaves.
///
/// A number is a whole number of grid units. The members of an object keep
/// the order in which they were given.
#[derive(Debug)]
pub enum RawValue {
    Null,
    Bool(bool),
    Number(u32),
    Text(String),
    Array(Vec<RawValue>),
    Object(Vec<(String, RawValue)>),
}

/// The value of the first member of `entries` with the key `key`, if there
/// is one.
pub open spec fn first_member(entries: Seq<(String, RawValue)>, key: Seq<char>) -> Option<RawValue>
    decreases entries.len(),
{
    if entries.len() == 0 {
        None
    } else {
        match first_member(entries.drop_last(), key) {
            Some(v) => Some(v),
            None => if entries.last().0@ == key {
                Some(entries.last().1)
            } else {
                None
            },
        }
    }
}

impl RawValue {
    /// The member with the key `key`, where this is an object that has one.
    pub open spec fn member(self, key: Seq<char>) -> Option<RawValue> {
        match self {
            RawValue::Object(entries) => first_member(entries@, key),
            _ => None,
        }
    }

    /// The number of grid units that this stands for as a coordinate: its
    /// own value for a number, and 0 for anything else.
    pub open spec fn coordinate(self) -> nat {
        match self {
            RawValue::Number(n) => n as nat,
            _ => 0,
        }
    }

    /// The member with the key `key`, where this is an object that has one.
    pub fn get(&self, key: &str) -> (found: Option<&RawValue>)
        ensures
            match found {
                Some(v) => self.member(key@) == Some(*v),
                None => self.member(key@) is None,
            },
    {
        match self {
            RawValue::Object(entries) => {
                let wanted = key.to_owned();
                let mut k: usize = 0;
                proof {
                    assert(entries@.take(0) =~= Seq::empty());
                }
                while k < entries.len()
                    invariant
                        k <= entries.len(),
                        wanted@ == key@,
                        self.member(key@) == first_member(entries@, key@),
                        first_member(entries@.take(k as int), key@) is None,
                    decreases entries.len() - k,
                {
                    proof {
                        assert(entries@.take(k + 1).drop_last() =~= entries@.take(k as int));
                        assert(entries@.take(k + 1).last() == entries@[k as int]);
                    }
                    if entries[k].0 == wanted {
                        proof {
                            let upto = entries@.take(k + 1);
                            assert(upto.last().0@ == key@);
                            assert(first_member(upto, key@) == Some(entries@[k as int].1));
                            lemma_first_member_prefix(entries@, k + 1, key@);
                        }
                        return Some(&entries[k].1);
                    }
                    k += 1;
                }
                proof {
                    assert(entries@.take(k as int) =~= entries@);
                }
                None
            },
            _ => None,
        }
    }

    /// The number of grid units that this stands for as a coordinate.
    pub fn as_coordinate(&self) -> (units: u32)
        ensures
            units == self.coordinate(),
    {
        match self {
            RawValue::Number(n) => *n,
            _ => 0,
        }
    }
}

/// A member found among the first `n` entries is the member found among all
/// of them.
pub proof fn lemma_first_member_prefix(entries: Seq<(String, RawValue)>, n: int, key: Seq<char>)
    requires
        0 <= n <= entries.len(),
        first_member(entries.take(n), key) is Some,
    ensures
        first_member(entries, key) == first_member(entries.take(n), key),
    decreases entries.len() - n,
{
    if n < entries.len() {
        assert(entries.take(n + 1).drop_last() =~= entries.take(n));
        lemma_first_member_prefix(entries, n + 1, key);
    } else {
        assert(entries.take(n) =~= entries);
    }
}

} // verus!
