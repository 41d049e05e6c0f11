//! Symbolic constants: the grammar of their labels and the map that resolves them.

use crate::literals::{ascii_bytes, has_hex_prefix, is_decimal, is_digit, spells};
use vstd::prelude::*;
use vstd::string::*;

verus! {

/// `c` may occur in a constant label: an upper-case letter, a digit or an underscore.
pub open spec fn is_label_char(c: char) -> bool {
    ('A' <= c && c <= 'Z') || ('0' <= c && c <= '9') || c == '_'
}

/// `s` is a constant label: it starts with an upper-case letter and goes on with
/// upper-case letters, digits and underscores. A number is therefore never a label,
/// with or without a hexadecimal prefix.
pub open spec fn is_constant_label(s: Seq<char>) -> bool {
    &&& s.len() > 0
    &&& 'A' <= s[0] && s[0] <= 'Z'
    &&& forall|i: int| 0 <= i < s.len() ==> is_label_char(#[trigger] s[i])
}

/// A number is not a constant label, be it decimal or written with the hexadecimal
/// prefix.
pub proof fn lemma_numbers_are_not_labels(s: Seq<char>)
    requires
        is_decimal(s) || has_hex_prefix(s),
    ensures
        !is_constant_label(s),
{
    if is_decimal(s) {
        assert(is_digit(s[0], 10));
    }
}

/// Whether `text` is a constant label.
pub fn is_label(text: &str) -> (b: bool)
    ensures
        b == is_constant_label(text@),
{
    let bytes: &[u8] = match ascii_bytes(text) {
        Some(bytes) => bytes,
        None => {
            return false;
        },
    };
    let n: usize = bytes.len();
    if n == 0 || !(65 <= bytes[0] && bytes[0] <= 90) {
        return false;
    }
    let mut i: usize = 0;
    while i < n
        invariant
            n == bytes@.len(),
            spells(bytes@, text@),
            i <= n,
            forall|j: int| 0 <= j < i ==> is_label_char(#[trigger] text@[j]),
        decreases n - i,
    {
        let b: u8 = bytes[i];
        if !((65 <= b && b <= 90) || (48 <= b && b <= 57) || b == 95) {
            assert(!is_label_char(text@[i as int]));
            return false;
        }
        assert(is_label_char(text@[i as int]));
        i += 1;
    }
    true
}

/// No label occurs twice among `entries`.
spec fn distinct_labels(entries: Seq<(String, u64)>) -> bool {
    forall|i: int, j: int|
        0 <= i < j < entries.len() ==> (#[trigger] entries[i]).0@ != (#[trigger] entries[j]).0@
}

/// Some entry has the label `label`.
spec fn has_label(entries: Seq<(String, u64)>, label: Seq<char>) -> bool {
    exists|i: int| 0 <= i < entries.len() && (#[trigger] entries[i]).0@ == label
}

/// Position of an entry with the label `label`.
spec fn position(entries: Seq<(String, u64)>, label: Seq<char>) -> int {
    choose|i: int| 0 <= i < entries.len() && (#[trigger] entries[i]).0@ == label
}

/// The mapping that `entries` stand for.
spec fn mapping(entries: Seq<(String, u64)>) -> Map<Seq<char>, u64> {
    Map::new(
        |label: Seq<char>| has_label(entries, label),
        |label: Seq<char>| entries[position(entries, label)].1,
    )
}

/// With distinct labels, the entry at `i` is the one its label is mapped to.
proof fn lemma_entry(entries: Seq<(String, u64)>, i: int)
    requires
        distinct_labels(entries),
        0 <= i < entries.len(),
    ensures
        mapping(entries).contains_key(entries[i].0@),
        mapping(entries)[entries[i].0@] == entries[i].1,
{
    let label = entries[i].0@;
    assert(has_label(entries, label));
    let p = position(entries, label);
    assert(0 <= p < entries.len() && entries[p].0@ == label);
    assert(p == i);
}

/// The constants of one procedure: each label with its resolved 64-bit value. Two maps
/// are equal when they define the same labels with the same values.
#[derive(Debug)]
pub struct LocalConstMap {
    entries: Vec<(String, u64)>,
}

impl View for LocalConstMap {
    type V = Map<Seq<char>, u64>;

    closed spec fn view(&self) -> Map<Seq<char>, u64> {
        mapping(self.entries@)
    }
}

impl LocalConstMap {
    #[verifier::type_invariant]
    spec fn labels_are_distinct(self) -> bool {
        distinct_labels(self.entries@)
    }

    /// A map without constants.
    pub fn new() -> (r: LocalConstMap)
        ensures
            r@ == Map::<Seq<char>, u64>::empty(),
    {
        let r = LocalConstMap { entries: Vec::new() };
        assert(r@ =~= Map::<Seq<char>, u64>::empty());
        r
    }

    /// Position of the entry labelled `label`, if there is one.
    fn find(&self, label: &String) -> (r: Option<usize>)
        ensures
            r is Some <==> self@.contains_key(label@),
            r matches Some(i) ==> i < self.entries@.len() && self.entries@[i as int].0@ == label@,
    {
        let n: usize = self.entries.len();
        let mut i: usize = 0;
        while i < n
            invariant
                n == self.entries@.len(),
                i <= n,
                forall|j: int| 0 <= j < i ==> (#[trigger] self.entries@[j]).0@ != label@,
            decreases n - i,
        {
            if self.entries[i].0 == *label {
                assert(has_label(self.entries@, label@));
                return Some(i);
            }
            i += 1;
        }
        None
    }

    /// Whether every constant of this map is defined in `other` with the same value.
    fn is_within(&self, other: &LocalConstMap) -> (b: bool)
        ensures
            b == self@.submap_of(other@),
    {
        proof {
            use_type_invariant(self);
            use_type_invariant(other);
        }
        let n: usize = self.entries.len();
        let mut i: usize = 0;
        while i < n
            invariant
                n == self.entries@.len(),
                i <= n,
                distinct_labels(self.entries@),
                distinct_labels(other.entries@),
                forall|j: int|
                    0 <= j < i ==> other@.contains_key((#[trigger] self.entries@[j]).0@)
                        && other@[self.entries@[j].0@] == self.entries@[j].1,
            decreases n - i,
        {
            proof {
                lemma_entry(self.entries@, i as int);
            }
            match other.find(&self.entries[i].0) {
                Some(at) => {
                    proof {
                        lemma_entry(other.entries@, at as int);
                    }
                    if other.entries[at].1 != self.entries[i].1 {
                        return false;
                    }
                },
                None => {
                    return false;
                },
            }
            i += 1;
        }
        proof {
            assert forall|label: Seq<char>| self@.contains_key(label) implies other@.contains_key(
                label,
            ) && self@[label] == other@[label] by {
                let p = position(self.entries@, label);
                lemma_entry(self.entries@, p);
            }
        }
        true
    }

    /// The value of the constant `label`, if it is defined.
    pub fn get(&self, label: &str) -> (r: Option<u64>)
        ensures
            r == (if self@.contains_key(label@) {
                Some(self@[label@])
            } else {
                None
            }),
    {
        let key: String = String::from_str(label);
        match self.find(&key) {
            Some(i) => {
                proof {
                    use_type_invariant(self);
                    lemma_entry(self.entries@, i as int);
                }
                Some(self.entries[i].1)
            },
            None => None,
        }
    }

    /// Defines the constant `label` as `value`. Returns the value it had before, if any.
    pub fn insert(&mut self, label: String, value: u64) -> (r: Option<u64>)
        ensures
            final(self)@ == old(self)@.insert(label@, value),
            r == (if old(self)@.contains_key(label@) {
                Some(old(self)@[label@])
            } else {
                None
            }),
    {
        proof {
            use_type_invariant(&*self);
        }
        let ghost before = self.entries@;
        match self.find(&label) {
            Some(i) => {
                proof {
                    lemma_entry(before, i as int);
                }
                let previous: u64 = self.entries[i].1;
                let ghost key = label@;
                let mut entries: Vec<(String, u64)> = Vec::new();
                core::mem::swap(&mut self.entries, &mut entries);
                entries.set(i, (label, value));
                proof {
                    let after = entries@;
                    assert(distinct_labels(after)) by {
                        assert forall|a: int, b: int| 0 <= a < b < after.len() implies (
                        #[trigger] after[a]).0@ != (#[trigger] after[b]).0@ by {
                            assert(before[a].0@ != before[b].0@);
                        }
                    }
                    assert forall|k: Seq<char>| has_label(after, k) == has_label(before, k) by {
                        if has_label(before, k) {
                            let p = position(before, k);
                            assert(after[p].0@ == k);
                        }
                        if has_label(after, k) {
                            let p = position(after, k);
                            assert(before[p].0@ == k);
                        }
                    }
                    assert forall|k: Seq<char>| has_label(after, k) implies #[trigger] mapping(
                        after,
                    )[k] == before_or(before, key, value, k) by {
                        let p = position(after, k);
                        lemma_entry(after, p);
                        if k != key {
                            assert(before[p] == after[p]);
                            lemma_entry(before, p);
                        } else {
                            assert(p == i);
                        }
                    }
                    assert(mapping(after) =~= mapping(before).insert(key, value));
                }
                core::mem::swap(&mut self.entries, &mut entries);
                Some(previous)
            },
            None => {
                let ghost key = label@;
                let mut entries: Vec<(String, u64)> = Vec::new();
                core::mem::swap(&mut self.entries, &mut entries);
                entries.push((label, value));
                proof {
                    let after = entries@;
                    assert(distinct_labels(after)) by {
                        assert forall|a: int, b: int| 0 <= a < b < after.len() implies (
                        #[trigger] after[a]).0@ != (#[trigger] after[b]).0@ by {
                            if b < before.len() {
                                assert(before[a].0@ != before[b].0@);
                            } else {
                                assert(before[a] == after[a]);
                                assert(!has_label(before, key));
                            }
                        }
                    }
                    let last = after.len() - 1;
                    assert forall|k: Seq<char>| has_label(after, k) == (has_label(before, k) || k
                        == key) by {
                        if has_label(before, k) {
                            let p = position(before, k);
                            assert(after[p].0@ == k);
                        }
                        if k == key {
                            assert(after[last].0@ == k);
                        }
                        if has_label(after, k) {
                            let p = position(after, k);
                            if p < last {
                                assert(before[p].0@ == k);
                            }
                        }
                    }
                    assert forall|k: Seq<char>| has_label(after, k) implies #[trigger] mapping(
                        after,
                    )[k] == before_or(before, key, value, k) by {
                        let p = position(after, k);
                        lemma_entry(after, p);
                        if k != key {
                            assert(p < last);
                            assert(before[p] == after[p]);
                            lemma_entry(before, p);
                        } else {
                            lemma_entry(after, last);
                        }
                    }
                    assert(mapping(after) =~= mapping(before).insert(key, value));
                }
                core::mem::swap(&mut self.entries, &mut entries);
                None
            },
        }
    }
}

impl PartialEq for LocalConstMap {
    fn eq(&self, other: &Self) -> (r: bool) {
        let equal: bool = self.is_within(other) && other.is_within(self);
        proof {
            if equal {
                assert(self@ =~= other@);
            }
        }
        equal
    }
}

impl vstd::std_specs::cmp::PartialEqSpecImpl for LocalConstMap {
    open spec fn obeys_eq_spec() -> bool {
        true
    }

    open spec fn eq_spec(&self, other: &Self) -> bool {
        self@ == other@
    }
}

impl Eq for LocalConstMap {

}

/// The value of `k` once `key` is set to `value` in the mapping of `before`.
spec fn before_or(before: Seq<(String, u64)>, key: Seq<char>, value: u64, k: Seq<char>) -> u64 {
    if k == key {
        value
    } else {
        mapping(before)[k]
    }
}

} // verus!
