//! Plugins: validation of the descriptors that scripts submit, and the
//! append-only list of the plugins that were accepted.
use crate::error::BridgeError;
use crate::error::field_key;
use crate::error::PluginField;
use crate::error::Shape;
use crate::value::field;
use crate::value::FunctionInfo;
use crate::value::FunctionView;
use crate::value::key_index;
use crate::value::same_text;
use crate::value::Table;
use crate::value::Value;
use vstd::prelude::*;
use vstd::string::StringExecFns;

verus! {

/// A validated plugin: four describing strings, and the functions of its
/// descriptor as hooks, each under the key that it had there. A hook is
/// held as what is known of the function; whoever runs it asks the runtime
/// for the function under the hook's name.
#[derive(Debug, Clone, PartialEq, Eq)]
pub struct Plugin {
    pub name: String,
    pub version: String,
    pub author: String,
    pub description: String,
    pub hooks: Vec<(String, FunctionInfo)>,
}

/// What a plugin holds, as plain text.
pub struct PluginView {
    pub name: Seq<char>,
    pub version: Seq<char>,
    pub author: Seq<char>,
    pub description: Seq<char>,
    pub hooks: Seq<(Seq<char>, FunctionView)>,
}

/// The hooks of a plugin as plain text, in order.
pub open spec fn hooks_view(hooks: Seq<(String, FunctionInfo)>) -> Seq<(Seq<char>, FunctionView)> {
    hooks.map_values(|h: (String, FunctionInfo)| (h.0@, h.1@))
}

impl View for Plugin {
    type V = PluginView;

    open spec fn view(&self) -> PluginView {
        PluginView {
            name: self.name@,
            version: self.version@,
            author: self.author@,
            description: self.description@,
            hooks: hooks_view(self.hooks@),
        }
    }
}

/// The text under `key`, if the table holds a string there.
pub open spec fn text_field(entries: Seq<(Value, Value)>, key: Seq<char>) -> Option<Seq<char>> {
    match field(entries, key) {
        Value::Str(s) => Some(s@),
        _ => None,
    }
}

/// The hooks among the first `n` entries: each entry with a string as its
/// key and a function as its value, in the order of the entries.
pub open spec fn hooks_of(entries: Seq<(Value, Value)>, n: nat) -> Seq<(Seq<char>, FunctionView)>
    decreases n,
{
    if n == 0 || n > entries.len() {
        Seq::empty()
    } else {
        let rest = hooks_of(entries, (n - 1) as nat);
        match entries[n - 1] {
            (Value::Str(key), Value::Function(f)) => rest.push((key@, f@)),
            _ => rest,
        }
    }
}

/// The first required field, in the order name, version, author,
/// description, that the entries lack or hold with another kind than a
/// string.
pub open spec fn first_unfit(entries: Seq<(Value, Value)>) -> Option<PluginField> {
    if text_field(entries, field_key(PluginField::Name)) is None {
        Some(PluginField::Name)
    } else if text_field(entries, field_key(PluginField::Version)) is None {
        Some(PluginField::Version)
    } else if text_field(entries, field_key(PluginField::Author)) is None {
        Some(PluginField::Author)
    } else if text_field(entries, field_key(PluginField::Description)) is None {
        Some(PluginField::Description)
    } else {
        None
    }
}

/// What validation makes of a descriptor: the plugin that it describes, or
/// the reason why it describes none.
pub open spec fn parse(v: Value) -> Result<PluginView, BridgeError> {
    match v {
        Value::Table(t) => match first_unfit(t.entries@) {
            Some(f) => Err(BridgeError::MalformedPlugin { field: f }),
            None => Ok(
                PluginView {
                    name: text_field(t.entries@, field_key(PluginField::Name))->0,
                    version: text_field(t.entries@, field_key(PluginField::Version))->0,
                    author: text_field(t.entries@, field_key(PluginField::Author))->0,
                    description: text_field(t.entries@, field_key(PluginField::Description))->0,
                    hooks: hooks_of(t.entries@, t.entries@.len()),
                },
            ),
        },
        _ => Err(BridgeError::TypeMismatch { expected: Shape::Table }),
    }
}

/// Whether `r` is what validation makes of a descriptor, `expected`.
pub open spec fn is_parsed(
    r: Result<Plugin, BridgeError>,
    expected: Result<PluginView, BridgeError>,
) -> bool {
    match expected {
        Ok(view) => r matches Ok(plugin) && plugin@ == view,
        Err(e) => r matches Err(x) && x == e,
    }
}

/// The string under `key`, if the table holds one there.
fn required<'a>(t: &'a Table, key: &str) -> (r: Option<&'a String>)
    ensures
        match text_field(t.entries@, key@) {
            Some(text) => r matches Some(s) && s@ == text,
            None => r is None,
        },
{
    match t.get(key) {
        Some(Value::Str(s)) => Some(s),
        _ => None,
    }
}

impl Plugin {
    /// Validates a descriptor. It has to be a table that holds a string
    /// under each of `name`, `version`, `author` and `description`.
    pub fn from_value(value: &Value) -> (r: Result<Plugin, BridgeError>)
        ensures
            is_parsed(r, parse(*value)),
    {
        match value {
            Value::Table(t) => {
                let mut hooks: Vec<(String, FunctionInfo)> = Vec::new();
                let mut i: usize = 0;
                while i < t.entries.len()
                    invariant
                        i <= t.entries@.len(),
                        hooks_view(hooks@) == hooks_of(t.entries@, i as nat),
                    decreases t.entries.len() - i,
                {
                    let ghost before = hooks@;
                    match (&t.entries[i].0, &t.entries[i].1) {
                        (Value::Str(key), Value::Function(f)) => {
                            hooks.push((key.clone(), f.duplicate()));
                            assert(hooks_view(hooks@) =~= hooks_view(before).push((key@, f@)));
                        },
                        _ => {},
                    }
                    i += 1;
                }
                let name = match required(t, "name") {
                    Some(s) => s.clone(),
                    None => {
                        return Err(BridgeError::MalformedPlugin { field: PluginField::Name });
                    },
                };
                let version = match required(t, "version") {
                    Some(s) => s.clone(),
                    None => {
                        return Err(BridgeError::MalformedPlugin { field: PluginField::Version });
                    },
                };
                let author = match required(t, "author") {
                    Some(s) => s.clone(),
                    None => {
                        return Err(BridgeError::MalformedPlugin { field: PluginField::Author });
                    },
                };
                let description = match required(t, "description") {
                    Some(s) => s.clone(),
                    None => {
                        return Err(
                            BridgeError::MalformedPlugin { field: PluginField::Description },
                        );
                    },
                };
                Ok(Plugin { name, version, author, description, hooks })
            },
            _ => Err(BridgeError::TypeMismatch { expected: Shape::Table }),
        }
    }
}

/// An entry with the string `key` as its key and the string `text` as its
/// value.
pub open spec fn is_text_entry(e: (Value, Value), key: Seq<char>, text: Seq<char>) -> bool {
    &&& e.0 matches Value::Str(k) && k@ == key
    &&& e.1 matches Value::Str(s) && s@ == text
}

/// An entry that holds the hook `hook`: its name as the key, the function
/// as the value.
pub open spec fn is_hook_entry(e: (Value, Value), hook: (Seq<char>, FunctionView)) -> bool {
    &&& e.0 matches Value::Str(k) && k@ == hook.0
    &&& e.1 matches Value::Function(f) && f@ == hook.1
}

/// Entries that start with the four describing strings of `plugin`, in the
/// order name, version, author, description.
pub open spec fn starts_with_info(entries: Seq<(Value, Value)>, plugin: PluginView) -> bool {
    &&& entries.len() >= 4
    &&& is_text_entry(entries[0], field_key(PluginField::Name), plugin.name)
    &&& is_text_entry(entries[1], field_key(PluginField::Version), plugin.version)
    &&& is_text_entry(entries[2], field_key(PluginField::Author), plugin.author)
    &&& is_text_entry(entries[3], field_key(PluginField::Description), plugin.description)
}

/// The table that stands for `plugin` in the list of plugins: the four
/// describing strings, then one entry for each hook, in order.
pub open spec fn is_record(v: Value, plugin: PluginView) -> bool {
    &&& v matches Value::Table(t)
    &&& t.meta is None
    &&& t.entries@.len() == 4 + plugin.hooks.len()
    &&& starts_with_info(t.entries@, plugin)
    &&& forall|i: int|
        0 <= i < plugin.hooks.len() ==> is_hook_entry(#[trigger] t.entries@[4 + i], plugin.hooks[i])
}

/// The info record that a `setup` hook is called with: the four describing
/// strings of `plugin` and nothing else.
pub open spec fn is_info(t: Table, plugin: PluginView) -> bool {
    &&& t.meta is None
    &&& t.entries@.len() == 4
    &&& starts_with_info(t.entries@, plugin)
}

/// Whether one of the hooks has the name `name`.
pub open spec fn has_hook(hooks: Seq<(Seq<char>, FunctionView)>, name: Seq<char>) -> bool {
    exists|i: int| 0 <= i < hooks.len() && (#[trigger] hooks[i]).0 == name
}

proof fn lemma_field_keys_differ()
    ensures
        "name"@.len() == 4,
        "version"@.len() == 7,
        "author"@.len() == 6,
        "description"@.len() == 11,
{
    reveal_strlit("name");
    reveal_strlit("version");
    reveal_strlit("author");
    reveal_strlit("description");
}

proof fn lemma_info_fields(entries: Seq<(Value, Value)>, plugin: PluginView)
    requires
        starts_with_info(entries, plugin),
    ensures
        text_field(entries, field_key(PluginField::Name)) == Some(plugin.name),
        text_field(entries, field_key(PluginField::Version)) == Some(plugin.version),
        text_field(entries, field_key(PluginField::Author)) == Some(plugin.author),
        text_field(entries, field_key(PluginField::Description)) == Some(plugin.description),
        first_unfit(entries) is None,
{
    lemma_field_keys_differ();
    let name = field_key(PluginField::Name);
    let version = field_key(PluginField::Version);
    let author = field_key(PluginField::Author);
    let description = field_key(PluginField::Description);
    assert(key_index(entries, name, 0) == 0);
    assert(key_index(entries, version, 1) == 1);
    assert(key_index(entries, version, 0) == 1);
    assert(key_index(entries, author, 2) == 2);
    assert(key_index(entries, author, 1) == 2);
    assert(key_index(entries, author, 0) == 2);
    assert(key_index(entries, description, 3) == 3);
    assert(key_index(entries, description, 2) == 3);
    assert(key_index(entries, description, 1) == 3);
    assert(key_index(entries, description, 0) == 3);
}

proof fn lemma_record_hooks(entries: Seq<(Value, Value)>, plugin: PluginView, m: nat)
    requires
        starts_with_info(entries, plugin),
        entries.len() == 4 + plugin.hooks.len(),
        forall|i: int|
            0 <= i < plugin.hooks.len() ==> is_hook_entry(
                #[trigger] entries[4 + i],
                plugin.hooks[i],
            ),
        m <= plugin.hooks.len(),
    ensures
        hooks_of(entries, 4 + m) == plugin.hooks.take(m as int),
    decreases m,
{
    if m == 0 {
        assert(hooks_of(entries, 0) == Seq::<(Seq<char>, FunctionView)>::empty());
        assert(hooks_of(entries, 1) == hooks_of(entries, 0));
        assert(hooks_of(entries, 2) == hooks_of(entries, 1));
        assert(hooks_of(entries, 3) == hooks_of(entries, 2));
        assert(hooks_of(entries, 4) == hooks_of(entries, 3));
        assert(plugin.hooks.take(0) =~= Seq::<(Seq<char>, FunctionView)>::empty());
    } else {
        lemma_record_hooks(entries, plugin, (m - 1) as nat);
        let i = m - 1;
        assert(is_hook_entry(entries[4 + i], plugin.hooks[i]));
        assert(hooks_of(entries, 4 + m) == hooks_of(entries, (4 + m - 1) as nat).push(
            plugin.hooks[i],
        ));
        assert(plugin.hooks.take(m as int) =~= plugin.hooks.take(i).push(plugin.hooks[i]));
    }
}

/// Validation gives a plugin's record back as that plugin: what was
/// registered is what enumeration finds.
pub proof fn lemma_record_parses(v: Value, plugin: PluginView)
    requires
        is_record(v, plugin),
    ensures
        parse(v) == Ok::<PluginView, BridgeError>(plugin),
{
    let entries = v->Table_0.entries@;
    lemma_info_fields(entries, plugin);
    lemma_record_hooks(entries, plugin, plugin.hooks.len());
    assert(plugin.hooks.take(plugin.hooks.len() as int) =~= plugin.hooks);
}

/// A table that lacks one of the required fields, or holds another kind
/// of value than a string there, is no plugin: validation fails with
/// `MalformedPlugin`.
pub proof fn lemma_missing_field_is_malformed(t: Table, f: PluginField)
    requires
        text_field(t.entries@, field_key(f)) is None,
    ensures
        parse(Value::Table(t)) matches Err(BridgeError::MalformedPlugin { .. }),
{
}

fn text_entry(key: &str, text: &String) -> (r: (Value, Value))
    ensures
        is_text_entry(r, key@, text@),
{
    (Value::Str(String::from_str(key)), Value::Str(text.clone()))
}

impl Plugin {
    /// The info record for the `setup` hook.
    pub fn info(&self) -> (r: Table)
        ensures
            is_info(r, self@),
    {
        let mut entries: Vec<(Value, Value)> = Vec::new();
        entries.push(text_entry("name", &self.name));
        entries.push(text_entry("version", &self.version));
        entries.push(text_entry("author", &self.author));
        entries.push(text_entry("description", &self.description));
        Table { entries, meta: None }
    }

    /// The plugin as the table that stands for it in the list of plugins.
    pub fn into_value(&self) -> (r: Value)
        ensures
            is_record(r, self@),
            parse(r) == Ok::<PluginView, BridgeError>(self@),
    {
        let mut entries: Vec<(Value, Value)> = Vec::new();
        entries.push(text_entry("name", &self.name));
        entries.push(text_entry("version", &self.version));
        entries.push(text_entry("author", &self.author));
        entries.push(text_entry("description", &self.description));
        let mut i: usize = 0;
        while i < self.hooks.len()
            invariant
                i <= self.hooks@.len(),
                entries@.len() == 4 + i,
                starts_with_info(entries@, self@),
                forall|j: int|
                    0 <= j < i ==> is_hook_entry(#[trigger] entries@[4 + j], self@.hooks[j]),
            decreases self.hooks.len() - i,
        {
            let key = self.hooks[i].0.clone();
            let f = self.hooks[i].1.duplicate();
            entries.push((Value::Str(key), Value::Function(f)));
            i += 1;
        }
        let r = Value::Table(Table { entries, meta: None });
        proof {
            lemma_record_parses(r, self@);
        }
        r
    }

    /// Whether the plugin has a hook with the name `name`.
    pub fn has_hook(&self, name: &str) -> (r: bool)
        ensures
            r == has_hook(self@.hooks, name@),
    {
        let mut i: usize = 0;
        while i < self.hooks.len()
            invariant
                i <= self.hooks@.len(),
                forall|j: int| 0 <= j < i ==> (#[trigger] self@.hooks[j]).0 != name@,
            decreases self.hooks.len() - i,
        {
            if same_text(self.hooks[i].0.as_str(), name) {
                assert(self@.hooks[i as int].0 == name@);
                return true;
            }
            i += 1;
        }
        false
    }
}

/// The plugins as plain text, in order.
pub open spec fn plugin_views(plugins: Seq<Plugin>) -> Seq<PluginView> {
    plugins.map_values(|p: Plugin| p@)
}

/// What enumeration makes of the first `n` entries of the list: the
/// plugins that they stand for, in order, or the error of the first entry
/// that stands for none.
pub open spec fn parse_all(list: Seq<Value>, n: nat) -> Result<Seq<PluginView>, BridgeError>
    decreases n,
{
    if n == 0 || n > list.len() {
        Ok(Seq::empty())
    } else {
        match parse_all(list, (n - 1) as nat) {
            Err(e) => Err(e),
            Ok(plugins) => match parse(list[n - 1]) {
                Err(e) => Err(e),
                Ok(plugin) => Ok(plugins.push(plugin)),
            },
        }
    }
}

/// An error with which validation can fail: the descriptor is no table,
/// or it is a table that lacks a required string.
pub open spec fn is_validation_failure(e: BridgeError) -> bool {
    e is MalformedPlugin || e == (BridgeError::TypeMismatch { expected: Shape::Table })
}

/// Validation fails in no other way, and so does enumeration.
pub proof fn lemma_failures_are_of_validation(list: Seq<Value>, n: nat)
    ensures
        forall|v: Value| #[trigger] parse(v) matches Err(e) ==> is_validation_failure(e),
        parse_all(list, n) matches Err(e) ==> is_validation_failure(e),
    decreases n,
{
    if n > 0 && n <= list.len() {
        lemma_failures_are_of_validation(list, (n - 1) as nat);
    }
}

/// Whether `r` is what enumeration makes of a list, `expected`.
pub open spec fn is_enumeration(
    r: Result<Vec<Plugin>, BridgeError>,
    expected: Result<Seq<PluginView>, BridgeError>,
) -> bool {
    match expected {
        Ok(views) => r matches Ok(plugins) && plugin_views(plugins@) == views,
        Err(e) => r matches Err(x) && x == e,
    }
}

/// The list `after` is the list `before` with the record of `plugin`
/// appended: nothing that was there has moved or changed.
pub open spec fn is_appended(before: Seq<Value>, after: Seq<Value>, plugin: PluginView) -> bool {
    &&& after.len() == before.len() + 1
    &&& after.drop_last() == before
    &&& is_record(after.last(), plugin)
}

/// Enumeration follows registration: a list that holds, entry by entry,
/// the records of the plugins `plugins` enumerates as exactly these
/// plugins, as many and in that order.
pub proof fn lemma_registration_order(list: Seq<Value>, plugins: Seq<PluginView>)
    requires
        list.len() == plugins.len(),
        forall|i: int| 0 <= i < list.len() ==> is_record(#[trigger] list[i], plugins[i]),
    ensures
        parse_all(list, list.len()) == Ok::<Seq<PluginView>, BridgeError>(plugins),
{
    lemma_registration_prefix(list, plugins, list.len());
    assert(plugins.take(list.len() as int) =~= plugins);
}

proof fn lemma_registration_prefix(list: Seq<Value>, plugins: Seq<PluginView>, n: nat)
    requires
        list.len() == plugins.len(),
        forall|i: int| 0 <= i < list.len() ==> is_record(#[trigger] list[i], plugins[i]),
        n <= list.len(),
    ensures
        parse_all(list, n) == Ok::<Seq<PluginView>, BridgeError>(plugins.take(n as int)),
    decreases n,
{
    if n == 0 {
        assert(plugins.take(0) =~= Seq::<PluginView>::empty());
    } else {
        lemma_registration_prefix(list, plugins, (n - 1) as nat);
        assert(is_record(list[n - 1], plugins[n - 1]));
        lemma_record_parses(list[n - 1], plugins[n - 1]);
        assert(plugins.take(n as int) =~= plugins.take(n - 1).push(plugins[n - 1]));
    }
}

/// A run of registrations: the list starts empty, and each registration
/// appends the record of one plugin.
pub open spec fn is_run(lists: Seq<Seq<Value>>, plugins: Seq<PluginView>) -> bool {
    &&& lists.len() == plugins.len() + 1
    &&& lists[0].len() == 0
    &&& forall|i: int|
        0 <= i < plugins.len() ==> is_appended(#[trigger] lists[i], lists[i + 1], plugins[i])
}

/// After any number of successful registrations the list enumerates as
/// exactly the plugins that were registered, as many and in the order of
/// their registration.
pub proof fn lemma_run_enumerates(lists: Seq<Seq<Value>>, plugins: Seq<PluginView>)
    requires
        is_run(lists, plugins),
    ensures
        lists.last().len() == plugins.len(),
        parse_all(lists.last(), lists.last().len()) == Ok::<Seq<PluginView>, BridgeError>(plugins),
    decreases plugins.len(),
{
    if plugins.len() == 0 {
        assert(plugins =~= Seq::<PluginView>::empty());
    } else {
        let k = plugins.len() - 1;
        let earlier = lists.drop_last();
        let before = plugins.drop_last();
        assert(is_run(earlier, before)) by {
            assert forall|i: int| 0 <= i < before.len() implies is_appended(
                #[trigger] earlier[i],
                earlier[i + 1],
                before[i],
            ) by {
                assert(is_appended(lists[i], lists[i + 1], plugins[i]));
            }
        }
        lemma_run_enumerates(earlier, before);
        assert(earlier.last() == lists[k]);
        assert(is_appended(lists[k], lists[k + 1], plugins[k]));
        lemma_append_extends_enumeration(lists[k], lists[k + 1], before, plugins[k]);
        assert(before.push(plugins[k]) =~= plugins);
    }
}

/// One more registration extends the enumeration by the new plugin, at
/// the end.
pub proof fn lemma_append_extends_enumeration(
    before: Seq<Value>,
    after: Seq<Value>,
    plugins: Seq<PluginView>,
    plugin: PluginView,
)
    requires
        parse_all(before, before.len()) == Ok::<Seq<PluginView>, BridgeError>(plugins),
        is_appended(before, after, plugin),
    ensures
        parse_all(after, after.len()) == Ok::<Seq<PluginView>, BridgeError>(plugins.push(plugin)),
{
    lemma_parse_all_prefix(after, before, before.len());
    lemma_record_parses(after.last(), plugin);
}

proof fn lemma_parse_all_prefix(longer: Seq<Value>, shorter: Seq<Value>, n: nat)
    requires
        shorter.len() <= longer.len(),
        forall|i: int| 0 <= i < shorter.len() ==> longer[i] == shorter[i],
        n <= shorter.len(),
    ensures
        parse_all(longer, n) == parse_all(shorter, n),
    decreases n,
{
    if n > 0 {
        lemma_parse_all_prefix(longer, shorter, (n - 1) as nat);
    }
}

/// The plugin registry: the append-only list of the plugins that were
/// accepted, each as the table that scripts see.
#[derive(Debug)]
pub struct Plugins {
    pub list: Vec<Value>,
}

impl Plugins {
    /// The name of the script module.
    pub fn module_name() -> (r: &'static str)
        ensures
            r@ == "plugins"@,
    {
        "plugins"
    }

    /// A registry without plugins.
    pub fn new() -> (r: Plugins)
        ensures
            r.list@.len() == 0,
    {
        Plugins { list: Vec::new() }
    }

    /// Completes a registration, given how the plugin's `setup` hook ended
    /// (`Ok` where it has none). A failed hook fails the registration with
    /// its message, and the list stays as it was. Otherwise the plugin's
    /// record is appended.
    pub fn complete(&mut self, plugin: &Plugin, setup: Result<(), String>) -> (r: Result<
        (),
        BridgeError,
    >)
        ensures
            match setup {
                Ok(_) => r is Ok && is_appended(old(self).list@, final(self).list@, plugin@),
                Err(m) => r matches Err(BridgeError::HookFailure { message }) && message@ == m@
                    && final(self).list@ == old(self).list@,
            },
    {
        match setup {
            Ok(_) => {
                self.list.push(plugin.into_value());
                assert(self.list@.drop_last() =~= old(self).list@);
                Ok(())
            },
            Err(message) => Err(BridgeError::HookFailure { message }),
        }
    }

    /// Registers the plugin that `descriptor` describes. The descriptor is
    /// validated first; a descriptor that fails validation leaves the list
    /// as it was, and `run_setup` is not called. If the plugin has a
    /// `setup` hook, `run_setup` is then called once with the info record,
    /// to run that hook; where it fails, the registration fails with its
    /// message and the list stays as it was. Otherwise the plugin's record
    /// is appended to the list. `run_setup` has to be callable only on the
    /// info record of the plugin that a valid descriptor with a `setup`
    /// hook describes: on nothing else is it called.
    pub fn new_plugin<F: FnOnce(Table) -> Result<(), String>>(
        &mut self,
        descriptor: &Value,
        run_setup: F,
    ) -> (r: Result<(), BridgeError>)
        requires
            forall|info: Table|
                parse(*descriptor) matches Ok(plugin) && has_hook(plugin.hooks, "setup"@)
                    && is_info(info, plugin) ==> call_requires(run_setup, (info,)),
        ensures
            match parse(*descriptor) {
                Err(e) => r matches Err(x) && x == e && final(self).list@ == old(self).list@,
                Ok(plugin) => if has_hook(plugin.hooks, "setup"@) {
                    exists|info: Table, setup: Result<(), String>|
                        {
                            &&& is_info(info, plugin)
                            &&& call_ensures(run_setup, (info,), setup)
                            &&& match setup {
                                Ok(_) => r is Ok && is_appended(
                                    old(self).list@,
                                    final(self).list@,
                                    plugin,
                                ),
                                Err(m) => r matches Err(BridgeError::HookFailure { message })
                                    && message@ == m@ && final(self).list@ == old(self).list@,
                            }
                        }
                } else {
                    r is Ok && is_appended(old(self).list@, final(self).list@, plugin)
                },
            },
    {
        let plugin = match Plugin::from_value(descriptor) {
            Ok(plugin) => plugin,
            Err(e) => {
                return Err(e);
            },
        };
        if plugin.has_hook("setup") {
            let info = plugin.info();
            let setup = run_setup(info);
            self.complete(&plugin, setup)
        } else {
            self.complete(&plugin, Ok(()))
        }
    }

    /// The plugins of the list, each validated again as on registration,
    /// in the order of the list. An entry that no longer stands for a
    /// plugin fails the enumeration with the error of its validation.
    pub fn get_plugins(&self) -> (r: Result<Vec<Plugin>, BridgeError>)
        ensures
            is_enumeration(r, parse_all(self.list@, self.list@.len())),
    {
        let mut plugins: Vec<Plugin> = Vec::new();
        let mut i: usize = 0;
        assert(plugin_views(plugins@) =~= Seq::<PluginView>::empty());
        while i < self.list.len()
            invariant
                i <= self.list@.len(),
                parse_all(self.list@, i as nat) == Ok::<Seq<PluginView>, BridgeError>(
                    plugin_views(plugins@),
                ),
            decreases self.list.len() - i,
        {
            let ghost before = plugins@;
            match Plugin::from_value(&self.list[i]) {
                Ok(plugin) => {
                    plugins.push(plugin);
                    assert(plugin_views(plugins@) =~= plugin_views(before).push(plugin@));
                },
                Err(e) => {
                    proof {
                        lemma_parse_all_fails(self.list@, (i + 1) as nat, self.list@.len());
                    }
                    return Err(e);
                },
            }
            i += 1;
        }
        Ok(plugins)
    }
}

proof fn lemma_parse_all_fails(list: Seq<Value>, n: nat, m: nat)
    requires
        n <= m <= list.len(),
        parse_all(list, n) is Err,
    ensures
        parse_all(list, m) == parse_all(list, n),
    decreases m,
{
    if n < m {
        lemma_parse_all_fails(list, n, (m - 1) as nat);
    }
}

} // verus!
