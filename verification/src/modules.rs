//! The module registry: host tables as named globals that scripts cannot
//! replace unnoticed.
use crate::error::BridgeError;
use crate::value::field;
use crate::value::has_distinct_names;
use crate::value::is_set;
use crate::value::lemma_set_then_get;
use crate::value::Metadata;
use crate::value::same_text;
use crate::value::Table;
use crate::value::Value;
use vstd::prelude::*;
use vstd::string::StringExecFns;

verus! {

/// The identity tag of a table, if its metadata holds one.
pub open spec fn identity(t: Table) -> Option<Seq<char>> {
    match t.meta {
        Some(Metadata { identity: Some(tag), .. }) => Some(tag@),
        _ => None,
    }
}

/// The metadata fields of a table other than the identity tag.
pub open spec fn other_metadata(t: Table) -> Seq<(String, String)> {
    match t.meta {
        Some(m) => m.other@,
        None => Seq::empty(),
    }
}

/// `after` is `before` with the identity tag `name`: the same entries,
/// the same other metadata, and a metadata slot even where `before` had
/// none.
pub open spec fn is_stamped(before: Table, after: Table, name: Seq<char>) -> bool {
    &&& after.entries == before.entries
    &&& after.meta is Some
    &&& identity(after) == Some(name)
    &&& other_metadata(after) == other_metadata(before)
}

/// The module under `name`: the table in that global slot, if its
/// identity tag is `name`.
pub open spec fn resolved(globals: Seq<(Value, Value)>, name: Seq<char>) -> Option<Table> {
    match field(globals, name) {
        Value::Table(t) => if identity(t) == Some(name) {
            Some(t)
        } else {
            None
        },
        _ => None,
    }
}

/// Whether the table carries the identity tag `name`.
pub fn has_identity(table: &Table, name: &str) -> (r: bool)
    ensures
        r == (identity(*table) == Some(name@)),
{
    match &table.meta {
        Some(Metadata { identity: Some(tag), .. }) => same_text(tag.as_str(), name),
        _ => false,
    }
}

/// The outcome of resolving the module `name`, given what was found in
/// its global slot: the table there, if the slot holds a table, with the
/// identity tag of that table, if it has one. The table is the module
/// exactly where its tag is `name`.
pub fn resolution<T>(found: Option<(T, Option<String>)>, name: &str) -> (r: Result<T, BridgeError>)
    ensures
        match found {
            Some((table, Some(tag))) => if tag@ == name@ {
                r == Ok::<T, BridgeError>(table)
            } else {
                r matches Err(BridgeError::ModuleOverridden { name: n }) && n@ == name@
            },
            _ => r matches Err(BridgeError::ModuleOverridden { name: n }) && n@ == name@,
        },
{
    match found {
        Some((table, Some(tag))) => if same_text(tag.as_str(), name) {
            Ok(table)
        } else {
            Err(BridgeError::ModuleOverridden { name: String::from_str(name) })
        },
        _ => Err(BridgeError::ModuleOverridden { name: String::from_str(name) }),
    }
}

/// A table with the identity tag `name`.
pub fn stamp(table: Table, name: &str) -> (r: Table)
    ensures
        is_stamped(table, r, name@),
{
    let Table { entries, meta } = table;
    let other = match meta {
        Some(m) => m.other,
        None => Vec::new(),
    };
    Table { entries, meta: Some(Metadata { identity: Some(String::from_str(name)), other }) }
}

/// The global namespace of a script runtime, with the modules that the
/// host registered in it. A namespace that starts empty and is written
/// only by the methods here holds each name once.
#[derive(Debug)]
pub struct ModuleRegistry {
    /// The global slots, by name.
    pub globals: Table,
}

impl ModuleRegistry {
    /// A namespace without globals.
    pub fn new() -> (r: ModuleRegistry)
        ensures
            r.globals.entries@.len() == 0,
            has_distinct_names(r.globals.entries@),
    {
        ModuleRegistry { globals: Table::new() }
    }

    /// Registers `table` as the module `name`: the table gets the identity
    /// tag `name` and takes the global slot `name`. Whatever held the slot
    /// before is replaced. No other slot changes.
    pub fn register(&mut self, name: &str, table: Table)
        ensures
            resolved(final(self).globals.entries@, name@) matches Some(module) && is_stamped(
                table,
                module,
                name@,
            ) && is_set(
                old(self).globals.entries@,
                final(self).globals.entries@,
                name@,
                Value::Table(module),
            ),
            final(self).globals.meta == old(self).globals.meta,
            has_distinct_names(old(self).globals.entries@) ==> has_distinct_names(
                final(self).globals.entries@,
            ),
    {
        let module = stamp(table, name);
        self.globals.set(name, Value::Table(module));
        proof {
            lemma_set_then_get(
                old(self).globals.entries@,
                self.globals.entries@,
                name@,
                Value::Table(module),
                name@,
            );
        }
    }

    /// Writes a global slot as a script does: the value takes the slot as
    /// it is, and no identity tag is given.
    pub fn set_global(&mut self, name: &str, value: Value)
        ensures
            is_set(old(self).globals.entries@, final(self).globals.entries@, name@, value),
            final(self).globals.meta == old(self).globals.meta,
            has_distinct_names(old(self).globals.entries@) ==> has_distinct_names(
                final(self).globals.entries@,
            ),
    {
        self.globals.set(name, value);
    }

    /// The module `name`. Fails where the global slot `name` holds
    /// anything but a table with the identity tag `name`: then the module
    /// was never registered, or other code has replaced it.
    pub fn resolve(&self, name: &str) -> (r: Result<&Table, BridgeError>)
        ensures
            match resolved(self.globals.entries@, name@) {
                Some(module) => r == Ok::<&Table, BridgeError>(&module),
                None => r matches Err(BridgeError::ModuleOverridden { name: n }) && n@ == name@,
            },
    {
        let found = match self.globals.get(name) {
            Some(Value::Table(t)) => if has_identity(t, name) {
                Some(t)
            } else {
                None
            },
            _ => None,
        };
        match found {
            Some(t) => Ok(t),
            None => Err(BridgeError::ModuleOverridden { name: String::from_str(name) }),
        }
    }
}

/// A registered module resolves until its slot is written again: writes
/// to other slots do not disturb it.
pub proof fn lemma_other_slots_keep_module(
    before: Seq<(Value, Value)>,
    after: Seq<(Value, Value)>,
    name: Seq<char>,
    other: Seq<char>,
    value: Value,
)
    requires
        is_set(before, after, other, value),
        other != name,
    ensures
        resolved(after, name) == resolved(before, name),
{
    lemma_set_then_get(before, after, other, value, name);
}

/// Once the slot of a registered module is overwritten with a table that
/// does not carry the module's identity tag, the module no longer
/// resolves.
pub proof fn lemma_overwritten_module_fails(
    start: Seq<(Value, Value)>,
    registered: Seq<(Value, Value)>,
    overwritten: Seq<(Value, Value)>,
    name: Seq<char>,
    first: Table,
    module: Table,
    second: Table,
)
    requires
        is_stamped(first, module, name),
        is_set(start, registered, name, Value::Table(module)),
        is_set(registered, overwritten, name, Value::Table(second)),
        identity(second) != Some(name),
    ensures
        resolved(registered, name) == Some(module),
        resolved(overwritten, name) is None,
{
    lemma_set_then_get(start, registered, name, Value::Table(module), name);
    lemma_set_then_get(registered, overwritten, name, Value::Table(second), name);
}

} // verus!
