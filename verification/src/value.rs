//! The values that cross the boundary between host and script.
use crate::config::Config;
use crate::config::Features;
use crate::config::Paths;
use vstd::prelude::*;
use vstd::string::StringExecFns;

verus! {

/// What is known of a script function without calling it.
#[derive(Debug, Clone, PartialEq, Eq)]
pub struct FunctionInfo {
    /// The name under which the function is known, if any.
    pub name: Option<String>,
    /// The line on which its definition starts, if known.
    pub line: Option<usize>,
}

/// What a `FunctionInfo` holds, as plain text.
pub struct FunctionView {
    pub name: Option<Seq<char>>,
    pub line: Option<usize>,
}

impl View for FunctionInfo {
    type V = FunctionView;

    open spec fn view(&self) -> FunctionView {
        FunctionView {
            name: match self.name {
                Some(name) => Some(name@),
                None => None,
            },
            line: self.line,
        }
    }
}

impl FunctionInfo {
    /// A copy that equals `self`.
    pub fn duplicate(&self) -> (r: FunctionInfo)
        ensures
            r == *self,
    {
        FunctionInfo {
            name: match &self.name {
                Some(name) => Some(name.clone()),
                None => None,
            },
            line: self.line,
        }
    }
}

/// A host object that a script holds. Scripts cannot look inside one.
#[derive(Debug, Clone)]
pub enum HostObject {
    /// A live configuration handle.
    Config(Config),
    /// The path group of a configuration, as it was when the value was taken.
    Paths(Paths),
    /// The feature group of a configuration, as it was when the value was taken.
    Features(Features),
    /// A thread of the runtime.
    Thread,
    /// A raw pointer that the host gave to the runtime.
    Pointer,
    /// A runtime string whose bytes are no text. It is held as an object
    /// that cannot be looked into, for those who would rather go on
    /// without the string than fail on it.
    Bytes,
    /// Any other host object, with the tag of its type.
    Opaque(String),
}

/// The metadata that a table can carry beside its entries.
#[derive(Debug, Clone, PartialEq, Eq)]
pub struct Metadata {
    /// The identity tag: the name of the module that the table was
    /// registered as, if it was.
    pub identity: Option<String>,
    /// Every other metadata field, by name.
    pub other: Vec<(String, String)>,
}

/// A table: entries in iteration order, and the metadata attached to it.
#[derive(Debug)]
pub struct Table {
    pub entries: Vec<(Value, Value)>,
    /// `None` while the table has no metadata slot.
    pub meta: Option<Metadata>,
}

/// A script value.
#[derive(Debug)]
pub enum Value {
    Nil,
    Bool(bool),
    Int(i64),
    /// A floating-point number, held as its decimal text.
    Float(String),
    Str(String),
    Table(Table),
    Function(FunctionInfo),
    HostObject(HostObject),
    /// An error value with its message.
    Error(String),
}

/// How many levels of tables a value has: none for a value that is no
/// table, and one more than the deepest of its keys and values for a
/// table.
pub open spec fn levels(v: Value) -> nat
    decreases v,
{
    match v {
        Value::Table(t) => 1 + deepest(t.entries@, t.entries@.len()),
        _ => 0,
    }
}

/// The levels of the deepest key or value among the first `n` entries.
pub open spec fn deepest(entries: Seq<(Value, Value)>, n: nat) -> nat
    decreases entries, n,
{
    if n == 0 || n > entries.len() {
        0
    } else {
        let before = deepest(entries, (n - 1) as nat);
        let key = levels(entries[n - 1].0);
        let item = levels(entries[n - 1].1);
        if key >= item && key >= before {
            key
        } else if item >= before {
            item
        } else {
            before
        }
    }
}

/// Entries whose keys and values all have at most `bound` levels are at
/// most `bound` levels deep.
pub proof fn lemma_deepest_is_bounded(entries: Seq<(Value, Value)>, n: nat, bound: nat)
    requires
        n <= entries.len(),
        forall|i: int|
            0 <= i < n ==> levels(#[trigger] entries[i].0) <= bound && levels(entries[i].1)
                <= bound,
    ensures
        deepest(entries, n) <= bound,
    decreases n,
{
    if n > 0 {
        lemma_deepest_is_bounded(entries, (n - 1) as nat, bound);
        assert(levels(entries[n - 1].0) <= bound);
    }
}

/// No key or value among the first `n` entries is deeper than the deepest.
pub proof fn lemma_deepest_covers(entries: Seq<(Value, Value)>, n: nat, i: int)
    requires
        0 <= i < n <= entries.len(),
    ensures
        levels(entries[i].0) <= deepest(entries, n),
        levels(entries[i].1) <= deepest(entries, n),
    decreases n,
{
    if i < n - 1 {
        lemma_deepest_covers(entries, (n - 1) as nat, i);
    }
}

/// Whether two string slices hold the same text.
pub(crate) fn same_text(a: &str, b: &str) -> (r: bool)
    ensures
        r == (a@ == b@),
{
    String::from_str(a) == String::from_str(b)
}

/// Whether `v` is the string `key`.
pub open spec fn is_key(v: Value, key: Seq<char>) -> bool {
    v matches Value::Str(s) && s@ == key
}

/// The index of the first entry at or after `from` whose key is the string
/// `key`; the number of entries if there is none.
pub open spec fn key_index(entries: Seq<(Value, Value)>, key: Seq<char>, from: nat) -> nat
    decreases entries.len() - from,
{
    if from >= entries.len() {
        entries.len()
    } else if is_key(entries[from as int].0, key) {
        from
    } else {
        key_index(entries, key, from + 1)
    }
}

/// What a table holds under the string `key`: the value of the first such
/// entry, `Nil` if there is none.
pub open spec fn field(entries: Seq<(Value, Value)>, key: Seq<char>) -> Value {
    let i = key_index(entries, key, 0);
    if i < entries.len() {
        entries[i as int].1
    } else {
        Value::Nil
    }
}

/// `after` is `before` with `value` written under the string `key`: in
/// place where `before` has such an entry, at the end where it has none.
/// No other entry has moved or changed.
pub open spec fn is_set(
    before: Seq<(Value, Value)>,
    after: Seq<(Value, Value)>,
    key: Seq<char>,
    value: Value,
) -> bool {
    let i = key_index(before, key, 0) as int;
    &&& after.len() == if i < before.len() {
        before.len()
    } else {
        before.len() + 1
    }
    &&& forall|j: int| 0 <= j < before.len() && j != i ==> #[trigger] after[j] == before[j]
    &&& is_key(after[i].0, key)
    &&& after[i].1 == value
}

/// No entry before `to` has the string `key` as its key.
proof fn lemma_key_index_skips(entries: Seq<(Value, Value)>, key: Seq<char>, from: nat, to: nat)
    requires
        from <= to <= entries.len(),
        forall|j: int| from <= j < to ==> !is_key(#[trigger] entries[j].0, key),
    ensures
        key_index(entries, key, from) == key_index(entries, key, to),
    decreases to - from,
{
    if from < to {
        lemma_key_index_skips(entries, key, from + 1, to);
    }
}

/// Where the first entry with the key stands: no entry before it has the
/// key, and it has the key unless it is past the end.
pub proof fn lemma_key_index(entries: Seq<(Value, Value)>, key: Seq<char>, from: nat)
    requires
        from <= entries.len(),
    ensures
        from <= key_index(entries, key, from) <= entries.len(),
        forall|j: int|
            from <= j < key_index(entries, key, from) ==> !is_key(#[trigger] entries[j].0, key),
        key_index(entries, key, from) < entries.len() ==> is_key(
            entries[key_index(entries, key, from) as int].0,
            key,
        ),
    decreases entries.len() - from,
{
    if from < entries.len() && !is_key(entries[from as int].0, key) {
        lemma_key_index(entries, key, from + 1);
    }
}

/// What was written under a key is what the table then holds there, and
/// every other key holds what it held before.
pub proof fn lemma_set_then_get(
    before: Seq<(Value, Value)>,
    after: Seq<(Value, Value)>,
    key: Seq<char>,
    value: Value,
    other: Seq<char>,
)
    requires
        is_set(before, after, key, value),
    ensures
        field(after, key) == value,
        other != key ==> field(after, other) == field(before, other),
{
    let i = key_index(before, key, 0);
    lemma_key_index(before, key, 0);
    assert forall|j: int| 0 <= j < i implies !is_key(#[trigger] after[j].0, key) by {
        assert(after[j] == before[j]);
    }
    lemma_key_index_skips(after, key, 0, i);
    assert(key_index(after, key, i) == i);
    if other != key {
        let k = key_index(before, other, 0);
        lemma_key_index(before, other, 0);
        if k < before.len() {
            assert(is_key(before[k as int].0, other));
            assert(k != i);
            assert forall|j: int| 0 <= j < k implies !is_key(#[trigger] after[j].0, other) by {
                if j != i {
                    assert(after[j] == before[j]);
                }
            }
            lemma_key_index_skips(after, other, 0, k);
            assert(after[k as int] == before[k as int]);
            assert(key_index(after, other, k) == k);
        } else {
            assert forall|j: int| 0 <= j < after.len() implies !is_key(
                #[trigger] after[j].0,
                other,
            ) by {
                if j != i {
                    assert(after[j] == before[j]);
                }
            }
            lemma_key_index_skips(after, other, 0, after.len());
        }
    }
}

/// No two entries have the same string as their key.
pub open spec fn has_distinct_names(entries: Seq<(Value, Value)>) -> bool {
    forall|i: int, j: int, name: Seq<char>|
        0 <= i < j < entries.len() && #[trigger] is_key(entries[i].0, name) ==> !#[trigger] is_key(
            entries[j].0,
            name,
        )
}

/// A table in which each name occurs once stays so when it is written to:
/// a write under a name that the table has replaces, and never adds.
pub proof fn lemma_set_keeps_names_distinct(
    before: Seq<(Value, Value)>,
    after: Seq<(Value, Value)>,
    key: Seq<char>,
    value: Value,
)
    requires
        has_distinct_names(before),
        is_set(before, after, key, value),
    ensures
        has_distinct_names(after),
{
    let at = key_index(before, key, 0) as int;
    lemma_key_index(before, key, 0);
    assert forall|i: int, j: int, name: Seq<char>|
        0 <= i < j < after.len() && #[trigger] is_key(after[i].0, name) implies !#[trigger] is_key(
        after[j].0,
        name,
    ) by {
        if is_key(after[j].0, name) {
            if i != at && j != at {
                assert(after[i] == before[i]);
                assert(after[j] == before[j]);
            } else if at < before.len() {
                assert(is_key(before[at].0, key));
                if i == at {
                    assert(after[j] == before[j]);
                    assert(is_key(before[at].0, name));
                } else {
                    assert(after[i] == before[i]);
                    assert(is_key(before[at].0, name));
                }
            } else {
                assert(j == at);
                assert(after[i] == before[i]);
                assert(name == key);
            }
        }
    }
}

/// The entries of a table built from named values: each name as a string
/// key, with its value, in order.
pub open spec fn is_named(entries: Seq<(Value, Value)>, pairs: Seq<(String, Value)>) -> bool {
    &&& entries.len() == pairs.len()
    &&& forall|i: int|
        0 <= i < pairs.len() ==> (#[trigger] entries[i]).0 == Value::Str(pairs[i].0) && entries[i].1
            == pairs[i].1
}

/// The entries of a list: the values in order, under the keys 1, 2, 3
/// and so on.
pub open spec fn is_list(entries: Seq<(Value, Value)>, values: Seq<Value>) -> bool {
    &&& entries.len() == values.len()
    &&& forall|i: int|
        0 <= i < values.len() ==> (#[trigger] entries[i]).0 == Value::Int((i + 1) as i64)
            && entries[i].1 == values[i]
}

impl Table {
    /// An empty table without metadata.
    pub fn new() -> (r: Table)
        ensures
            r.entries@.len() == 0,
            r.meta is None,
            has_distinct_names(r.entries@),
    {
        Table { entries: Vec::new(), meta: None }
    }

    /// The table that holds each of `pairs` under its name, in order.
    pub fn from_pairs(pairs: Vec<(String, Value)>) -> (r: Table)
        ensures
            is_named(r.entries@, pairs@),
            r.meta is None,
    {
        let mut entries: Vec<(Value, Value)> = Vec::new();
        let mut rest = pairs;
        let ghost all = rest@;
        while rest.len() > 0
            invariant
                entries@.len() + rest@.len() == all.len(),
                forall|i: int|
                    0 <= i < entries@.len() ==> (#[trigger] entries@[i]).0 == Value::Str(all[i].0)
                        && entries@[i].1 == all[i].1,
                forall|i: int| 0 <= i < rest@.len() ==> rest@[i] == all[entries@.len() + i],
            decreases rest@.len(),
        {
            let (name, value) = rest.remove(0);
            entries.push((Value::Str(name), value));
        }
        Table { entries, meta: None }
    }

    /// The list that holds `values` in order: the first under the key 1.
    pub fn array(values: Vec<Value>) -> (r: Table)
        requires
            values@.len() <= i64::MAX,
        ensures
            is_list(r.entries@, values@),
            r.meta is None,
    {
        let mut entries: Vec<(Value, Value)> = Vec::new();
        let mut rest = values;
        let ghost all = rest@;
        let mut next: i64 = 1;
        while rest.len() > 0
            invariant
                entries@.len() + rest@.len() == all.len(),
                all.len() <= i64::MAX,
                rest@.len() > 0 ==> next == entries@.len() + 1,
                forall|i: int|
                    0 <= i < entries@.len() ==> (#[trigger] entries@[i]).0 == Value::Int(
                        (i + 1) as i64,
                    ) && entries@[i].1 == all[i],
                forall|i: int| 0 <= i < rest@.len() ==> rest@[i] == all[entries@.len() + i],
            decreases rest@.len(),
        {
            let value = rest.remove(0);
            entries.push((Value::Int(next), value));
            if rest.len() > 0 {
                next = next + 1;
            }
        }
        Table { entries, meta: None }
    }

    /// Writes `value` under the string `key`: it replaces what the table
    /// holds under that name, or is added where the table holds nothing
    /// there. A table in which each name occurs once stays such a table.
    pub fn set(&mut self, key: &str, value: Value)
        ensures
            is_set(old(self).entries@, final(self).entries@, key@, value),
            final(self).meta == old(self).meta,
            has_distinct_names(old(self).entries@) ==> has_distinct_names(final(self).entries@),
    {
        let i = self.position(key);
        proof {
            lemma_key_index(self.entries@, key@, 0);
        }
        let entry = (Value::Str(String::from_str(key)), value);
        if i < self.entries.len() {
            self.entries.set(i, entry);
        } else {
            self.entries.push(entry);
        }
        proof {
            if has_distinct_names(old(self).entries@) {
                lemma_set_keeps_names_distinct(
                    old(self).entries@,
                    self.entries@,
                    key@,
                    value,
                );
            }
        }
    }

    /// The position of the first entry whose key is the string `key`.
    pub fn position(&self, key: &str) -> (r: usize)
        ensures
            r == key_index(self.entries@, key@, 0),
    {
        let mut i: usize = 0;
        while i < self.entries.len()
            invariant
                i <= self.entries.len(),
                key_index(self.entries@, key@, 0) == key_index(self.entries@, key@, i as nat),
            decreases self.entries.len() - i,
        {
            let found = match &self.entries[i].0 {
                Value::Str(s) => same_text(s.as_str(), key),
                _ => false,
            };
            if found {
                return i;
            }
            i += 1;
        }
        i
    }

    /// The value under the string `key`, if the table has such an entry.
    pub fn get(&self, key: &str) -> (r: Option<&Value>)
        ensures
            key_index(self.entries@, key@, 0) < self.entries@.len() ==> r == Some(
                &field(self.entries@, key@),
            ),
            key_index(self.entries@, key@, 0) >= self.entries@.len() ==> r is None,
    {
        let i = self.position(key);
        if i < self.entries.len() {
            Some(&self.entries[i].1)
        } else {
            None
        }
    }
}

} // verus!
