//! The bridge at work on a live script runtime: values are taken over from
//! the runtime, and modules, plugins and the search path are written to it.
//!
//! What a runtime holds can change with every script that runs, so the
//! contracts here say what holds whatever the runtime answers; what is done
//! with an answer is stated exactly where the answer is a plain value.
//! What a value is at its top level never changes: its kind, a number, the
//! text of a string, what is known of a function. That much has a name
//! (`kind_of`), and the contracts speak of it. What a table holds has none.
//! A handle belongs to one runtime (`owner_of`), and `mlua` panics where a
//! handle is given to another: each function that hands one on requires
//! that it fits.
use crate::error::BridgeError;
use crate::error::Shape;
use crate::modules::resolution;
use crate::plugin::is_appended;
use crate::plugin::is_validation_failure;
use crate::plugin::lemma_failures_are_of_validation;
use crate::plugin::Plugin;
use crate::plugin::Plugins;
use crate::plugin::PluginView;
use crate::prettify::DEPTH_LIMIT;
use crate::prettify::pformat;
use crate::prettify::render;
use crate::text::joined;
use crate::value::FunctionInfo;
use crate::value::FunctionView;
use crate::value::HostObject;
use crate::value::lemma_deepest_is_bounded;
use crate::value::levels;
use crate::value::Metadata;
use crate::value::Table;
use crate::value::Value;
use mlua::Lua;
use mlua::prelude::LuaError;
use mlua::prelude::LuaFunction;
use mlua::prelude::LuaString;
use mlua::prelude::LuaTable;
use mlua::prelude::LuaValue;
use vstd::pervasive::unreached;
use vstd::prelude::*;
use vstd::string::StringExecFns;

verus! {

/// The script runtime of the `mlua` crate.
#[verifier::external_type_specification]
#[verifier::external_body]
pub struct ExLua(Lua);

/// A value of the runtime.
#[verifier::external_type_specification]
#[verifier::external_body]
pub struct ExLuaValue<'lua>(LuaValue<'lua>);

/// A handle on a table of the runtime.
#[verifier::external_type_specification]
#[verifier::external_body]
pub struct ExLuaTable<'lua>(LuaTable<'lua>);

/// A handle on a function of the runtime.
#[verifier::external_type_specification]
#[verifier::external_body]
pub struct ExLuaFunction<'lua>(LuaFunction<'lua>);

/// A handle on a string of the runtime.
#[verifier::external_type_specification]
#[verifier::external_body]
pub struct ExLuaString<'lua>(LuaString<'lua>);

/// An error of the runtime.
#[verifier::external_type_specification]
#[verifier::external_body]
pub struct ExLuaError(LuaError);

/// One level of a runtime value: its kind, with what it holds.
enum Piece<'lua> {
    Nil,
    Bool(bool),
    Int(i64),
    /// A floating-point number as its decimal text.
    Float(String),
    Str(LuaString<'lua>),
    Table(LuaTable<'lua>),
    Function(LuaFunction<'lua>),
    Error(LuaError),
    Thread,
    Pointer,
    UserData,
}

/// What a runtime value is at its top level, as plain values.
pub enum Kind {
    Nil,
    Bool(bool),
    Int(i64),
    /// A floating-point number, as the text that `Debug` gives it.
    Float(Seq<char>),
    /// A string, with its text where its bytes are valid UTF-8.
    Str(Option<Seq<char>>),
    /// A table. What a table holds is no part of its kind: it changes
    /// with every script that runs.
    Table,
    /// A function, with what the runtime tells of it.
    Function(FunctionView),
    /// An error value, as the text that `Display` gives it.
    Error(Seq<char>),
    Thread,
    Pointer,
    UserData,
}

/// The kind of a runtime value: which variant of `mlua::Value` it is, and
/// what that variant holds.
pub uninterp spec fn kind_of(value: LuaValue) -> Kind;

/// The text of a runtime string, `None` where its bytes are not valid
/// UTF-8. A runtime string never changes.
pub uninterp spec fn text_in(s: LuaString) -> Option<Seq<char>>;

/// What the runtime tells of a function: its name, and the line on which
/// its definition starts. Neither changes while the function lives.
pub uninterp spec fn told_of(f: LuaFunction) -> FunctionView;

/// The text that `Display` gives a runtime error.
pub uninterp spec fn message_of(e: LuaError) -> Seq<char>;

/// The runtime that a table belongs to. A handle is of one runtime for as
/// long as it lives, and `mlua` panics where a handle is given to another.
pub uninterp spec fn owner_of(table: LuaTable) -> Lua;

/// The runtime that a function belongs to.
pub uninterp spec fn owner_of_function(f: LuaFunction) -> Lua;

/// The runtime that a value belongs to, where the value is a handle;
/// `None` for a value that is complete in itself.
pub uninterp spec fn home_of(value: LuaValue) -> Option<Lua>;

/// Whether `value` can be handed to the runtime `lua`: it is complete in
/// itself, or it is a handle of that runtime.
pub open spec fn fits(value: LuaValue, lua: Lua) -> bool {
    home_of(value) matches Some(home) ==> home == lua
}

/// Whether `piece` is the top level of a value of the kind `kind` that
/// belongs to `home`.
spec fn is_piece(piece: Piece, kind: Kind, home: Option<Lua>) -> bool {
    match piece {
        Piece::Nil => kind == Kind::Nil,
        Piece::Bool(b) => kind == Kind::Bool(b),
        Piece::Int(i) => kind == Kind::Int(i),
        Piece::Float(text) => kind == Kind::Float(text@),
        Piece::Str(s) => kind == Kind::Str(text_in(s)),
        Piece::Table(t) => kind == Kind::Table && home == Some(owner_of(t)),
        Piece::Function(f) => kind == Kind::Function(told_of(f)) && home == Some(
            owner_of_function(f),
        ),
        Piece::Error(e) => kind == Kind::Error(message_of(e)),
        Piece::Thread => kind == Kind::Thread,
        Piece::Pointer => kind == Kind::Pointer,
        Piece::UserData => kind == Kind::UserData,
    }
}

/// Tells the variants of `mlua::Value` apart: the result is the variant
/// that the value is, with what it holds. A number comes as the text that
/// `Debug` gives it; a string, a table, a function or an error as it is,
/// and a table or a function belongs to the runtime of the value.
#[verifier::external_body]
fn piece_of<'lua>(value: &LuaValue<'lua>) -> (r: Piece<'lua>)
    ensures
        is_piece(r, kind_of(*value), home_of(*value)),
{
    match value {
        LuaValue::Nil => Piece::Nil,
        LuaValue::Boolean(b) => Piece::Bool(*b),
        LuaValue::Integer(i) => Piece::Int(*i),
        LuaValue::Number(n) => Piece::Float(format!("{:?}", n)),
        LuaValue::String(s) => Piece::Str(s.clone()),
        LuaValue::Table(t) => Piece::Table(t.clone()),
        LuaValue::Function(f) => Piece::Function(f.clone()),
        LuaValue::Error(e) => Piece::Error(e.clone()),
        LuaValue::Thread(_) => Piece::Thread,
        LuaValue::LightUserData(_) => Piece::Pointer,
        LuaValue::UserData(_) => Piece::UserData,
    }
}

/// The variant `Table` of `mlua::Value`: a table handle as a value of the
/// same runtime.
#[verifier::external_body]
fn table_value<'lua>(table: LuaTable<'lua>) -> (r: LuaValue<'lua>)
    ensures
        kind_of(r) == Kind::Table,
        home_of(r) == Some(owner_of(table)),
{
    LuaValue::Table(table)
}

/// The variant `Function` of `mlua::Value`: a function handle as a value
/// of the same runtime.
#[verifier::external_body]
fn function_value<'lua>(f: LuaFunction<'lua>) -> (r: LuaValue<'lua>)
    ensures
        kind_of(r) == Kind::Function(told_of(f)),
        home_of(r) == Some(owner_of_function(f)),
{
    LuaValue::Function(f)
}

/// `mlua::Lua::create_string`: a new string of the runtime `lua` with the
/// text `text`, as a value.
#[verifier::external_body]
fn string_value<'lua>(lua: &'lua Lua, text: &str) -> (r: Result<LuaValue<'lua>, LuaError>)
    ensures
        r matches Ok(value) ==> kind_of(value) == Kind::Str(Some(text@)) && home_of(value) == Some(
            *lua,
        ),
{
    match lua.create_string(text) {
        Ok(s) => Ok(LuaValue::String(s)),
        Err(e) => Err(e),
    }
}

/// `mlua::Lua::create_table`: a new empty table of the runtime `lua`.
#[verifier::external_body]
fn new_table<'lua>(lua: &'lua Lua) -> (r: Result<LuaTable<'lua>, LuaError>)
    ensures
        r matches Ok(table) ==> owner_of(table) == *lua,
{
    lua.create_table()
}

/// `mlua::Lua::globals`: the table of the global slots of the runtime
/// `lua`.
#[verifier::external_body]
fn globals<'lua>(lua: &'lua Lua) -> (r: LuaTable<'lua>)
    ensures
        owner_of(r) == *lua,
{
    lua.globals()
}

/// `mlua::String::to_str`: the text of a runtime string, `None` where its
/// bytes are not valid UTF-8.
#[verifier::external_body]
fn text_of<'lua>(s: &LuaString<'lua>) -> (r: Option<String>)
    ensures
        match text_in(*s) {
            Some(text) => r matches Some(found) && found@ == text,
            None => r is None,
        },
{
    match s.to_str() {
        Ok(text) => Some(text.to_owned()),
        Err(_) => None,
    }
}

/// `mlua::Table::pairs`: the entries of a table in the order in which the
/// runtime walks them, or the error that ended the walk.
#[verifier::external_body]
fn pairs_of<'lua>(table: &LuaTable<'lua>) -> (r: Result<
    Vec<(LuaValue<'lua>, LuaValue<'lua>)>,
    LuaError,
>) {
    table.clone().pairs::<LuaValue, LuaValue>().collect()
}

/// `mlua::Table::sequence_values`: the values under the keys 1, 2, 3 and
/// so on, up to the first key that the table lacks.
#[verifier::external_body]
fn sequence_of<'lua>(table: &LuaTable<'lua>) -> (r: Result<Vec<LuaValue<'lua>>, LuaError>) {
    table.clone().sequence_values::<LuaValue>().collect()
}

/// `mlua::Table::get`: the value under the string `key`, `nil` where the
/// table has none. Metamethods of the table apply. What comes out of a
/// table is of the table's runtime.
#[verifier::external_body]
fn get<'lua>(table: &LuaTable<'lua>, key: &str) -> (r: Result<LuaValue<'lua>, LuaError>)
    ensures
        r matches Ok(value) ==> fits(value, owner_of(*table)),
{
    table.get::<_, LuaValue>(key)
}

/// `mlua::Table::raw_get`: the value under the string `key`, read without
/// metamethods.
#[verifier::external_body]
fn raw_get<'lua>(table: &LuaTable<'lua>, key: &str) -> (r: Result<LuaValue<'lua>, LuaError>)
    ensures
        r matches Ok(value) ==> fits(value, owner_of(*table)),
{
    table.raw_get::<_, LuaValue>(key)
}

/// `mlua::Table::set`: writes `value` under the string `key`. Metamethods
/// of the table apply. The value has to fit the table's runtime.
#[verifier::external_body]
fn set<'lua>(table: &LuaTable<'lua>, key: &str, value: LuaValue<'lua>) -> (r: Result<
    (),
    LuaError,
>)
    requires
        fits(value, owner_of(*table)),
{
    table.set(key, value)
}

/// `mlua::Table::push`: writes `value` under the key that follows the
/// length of the table. The value has to fit the table's runtime.
#[verifier::external_body]
fn push<'lua>(table: &LuaTable<'lua>, value: LuaValue<'lua>) -> (r: Result<(), LuaError>)
    requires
        fits(value, owner_of(*table)),
{
    table.push(value)
}

/// `mlua::Table::get_metatable`: the metatable of a table, if it has one.
/// It is of the table's runtime.
#[verifier::external_body]
fn metatable_of<'lua>(table: &LuaTable<'lua>) -> (r: Option<LuaTable<'lua>>)
    ensures
        r matches Some(meta) ==> owner_of(meta) == owner_of(*table),
{
    table.get_metatable()
}

/// `mlua::Table::set_metatable`: gives a table the metatable `meta`,
/// which has to be of the table's runtime.
#[verifier::external_body]
fn set_metatable<'lua>(table: &LuaTable<'lua>, meta: LuaTable<'lua>)
    requires
        owner_of(meta) == owner_of(*table),
{
    table.set_metatable(Some(meta))
}

/// `mlua::Function::info`: the name of a function and the line on which
/// its definition starts, as far as the runtime knows them.
#[verifier::external_body]
fn info_of<'lua>(f: &LuaFunction<'lua>) -> (r: FunctionInfo)
    ensures
        r@ == told_of(*f),
{
    let info = f.info();
    FunctionInfo { name: info.name, line: info.line_defined }
}

/// `mlua::Function::call`: calls a function with one value as its
/// argument and drops what it returns. An error that the function raises
/// comes back as `Err`. The argument has to fit the function's runtime.
#[verifier::external_body]
fn call_with<'lua>(f: &LuaFunction<'lua>, argument: LuaValue<'lua>) -> (r: Result<(), LuaError>)
    requires
        fits(argument, owner_of_function(*f)),
{
    f.call::<_, ()>(argument)
}

/// `Display` of `mlua::Error`: the message of a runtime error.
#[verifier::external_body]
fn error_text(e: &LuaError) -> (r: String)
    ensures
        r@ == message_of(*e),
{
    e.to_string()
}

/// A runtime error as an error of the bridge, with its message.
fn runtime_error(e: &LuaError) -> (r: BridgeError)
    ensures
        r matches BridgeError::Runtime { message } && message@ == message_of(*e),
{
    BridgeError::Runtime { message: error_text(e) }
}

/// The text of a value that is a string of valid UTF-8.
fn as_text<'lua>(value: &LuaValue<'lua>) -> (r: Option<String>)
    ensures
        match kind_of(*value) {
            Kind::Str(Some(text)) => r matches Some(found) && found@ == text,
            _ => r is None,
        },
{
    match piece_of(value) {
        Piece::Str(s) => text_of(&s),
        _ => None,
    }
}

/// The handle of a value that is a table.
fn as_table<'lua>(value: &LuaValue<'lua>) -> (r: Option<LuaTable<'lua>>)
    ensures
        r is Some <==> kind_of(*value) is Table,
        r matches Some(found) ==> home_of(*value) == Some(owner_of(found)),
{
    match piece_of(value) {
        Piece::Table(found) => Some(found),
        _ => None,
    }
}

/// The handle of a value that is a function.
fn as_function<'lua>(value: &LuaValue<'lua>) -> (r: Option<LuaFunction<'lua>>)
    ensures
        match kind_of(*value) {
            Kind::Function(told) => r matches Some(found) && told_of(found) == told,
            _ => r is None,
        },
        r matches Some(found) ==> home_of(*value) == Some(owner_of_function(found)),
{
    match piece_of(value) {
        Piece::Function(found) => Some(found),
        _ => None,
    }
}

/// The text under the string `key`, read without metamethods; `None`
/// where the table holds no string of valid UTF-8 there.
fn raw_text<'lua>(table: &LuaTable<'lua>, key: &str) -> (r: Option<String>) {
    match raw_get(table, key) {
        Ok(value) => as_text(&value),
        Err(_) => None,
    }
}

/// The table under the string `key`, `None` where the table holds no
/// table there. It is of the same runtime.
fn table_at<'lua>(table: &LuaTable<'lua>, key: &str) -> (r: Option<LuaTable<'lua>>)
    ensures
        r matches Some(found) ==> owner_of(found) == owner_of(*table),
{
    match get(table, key) {
        Ok(value) => as_table(&value),
        Err(_) => None,
    }
}

/// The function under the string `key`, `None` where the table holds no
/// function there. It is of the same runtime.
fn function_at<'lua>(table: &LuaTable<'lua>, key: &str) -> (r: Option<LuaFunction<'lua>>)
    ensures
        r matches Some(found) ==> owner_of_function(found) == owner_of(*table),
{
    match get(table, key) {
        Ok(value) => as_function(&value),
        Err(_) => None,
    }
}

/// Writes the string `text` under the string `key` of a table of `lua`.
fn set_text<'lua>(lua: &'lua Lua, table: &LuaTable<'lua>, key: &str, text: &str) -> (r: Result<
    (),
    LuaError,
>)
    requires
        owner_of(*table) == *lua,
{
    match string_value(lua, text) {
        Ok(value) => set(table, key, value),
        Err(e) => Err(e),
    }
}

/// The metadata of a runtime table: the identity tag that its metatable
/// holds, if it has a metatable.
fn capture_metadata<'lua>(table: &LuaTable<'lua>) -> (r: Option<Metadata>)
    ensures
        r matches Some(m) ==> m.other@.len() == 0,
{
    match metatable_of(table) {
        Some(meta) => Some(
            Metadata { identity: raw_text(&meta, "__metatable"), other: Vec::new() },
        ),
        None => None,
    }
}

/// What a runtime value of the kind `kind` is taken over as: a value of
/// the same kind that holds the same. A string whose bytes are no text, a
/// thread and a raw pointer are each a host object of their own; a
/// userdata is an opaque host object.
pub open spec fn is_capture(v: Value, kind: Kind) -> bool {
    match kind {
        Kind::Nil => v is Nil,
        Kind::Bool(b) => v == Value::Bool(b),
        Kind::Int(i) => v == Value::Int(i),
        Kind::Float(text) => v matches Value::Float(s) && s@ == text,
        Kind::Str(Some(text)) => v matches Value::Str(s) && s@ == text,
        Kind::Str(None) => v == Value::HostObject(HostObject::Bytes),
        Kind::Table => v is Table,
        Kind::Function(told) => v matches Value::Function(f) && f@ == told,
        Kind::Error(message) => v matches Value::Error(s) && s@ == message,
        Kind::Thread => v == Value::HostObject(HostObject::Thread),
        Kind::Pointer => v == Value::HostObject(HostObject::Pointer),
        Kind::UserData => v matches Value::HostObject(HostObject::Opaque(s)) && s@
            == "userdata"@,
    }
}

/// Whether `e` is an error with which taking over a value of the kind
/// `kind` can fail, tables down to `depth` levels. Taken strictly, a
/// string fails, as a type mismatch, where its bytes are not valid UTF-8.
/// A table can fail where its entries are taken over: on such a string
/// inside it, or where the runtime fails to walk it. Nothing else fails.
pub open spec fn is_capture_failure(e: BridgeError, kind: Kind, depth: nat, strict: bool) -> bool {
    match kind {
        Kind::Str(text) => strict && text is None && e == (BridgeError::TypeMismatch {
            expected: Shape::Text,
        }),
        Kind::Table => depth > 0 && (e is Runtime || (strict && e == (BridgeError::TypeMismatch {
            expected: Shape::Text,
        }))),
        _ => false,
    }
}

/// What taking over gives: on success the value that stands for the
/// runtime value, at most `depth + 1` levels deep, and where it was taken
/// strictly no string of invalid bytes at its top; on failure one of the
/// errors that can come.
pub open spec fn is_taken(
    r: Result<Value, BridgeError>,
    kind: Kind,
    depth: nat,
    strict: bool,
) -> bool {
    match r {
        Ok(v) => {
            &&& is_capture(v, kind)
            &&& levels(v) <= depth + 1
            &&& depth == 0 ==> (v matches Value::Table(t) ==> t.entries@.len() == 0)
            &&& strict ==> kind != Kind::Str(None)
        },
        Err(e) => is_capture_failure(e, kind, depth, strict),
    }
}

/// Takes a value over, strictly or not.
fn take<'lua>(value: &LuaValue<'lua>, depth: usize, strict: bool) -> (r: Result<
    Value,
    BridgeError,
>)
    ensures
        is_taken(r, kind_of(*value), depth as nat, strict),
    decreases depth, 0nat,
{
    match piece_of(value) {
        Piece::Nil => Ok(Value::Nil),
        Piece::Bool(b) => Ok(Value::Bool(b)),
        Piece::Int(i) => Ok(Value::Int(i)),
        Piece::Float(text) => Ok(Value::Float(text)),
        Piece::Str(s) => match text_of(&s) {
            Some(text) => Ok(Value::Str(text)),
            None => if strict {
                Err(BridgeError::TypeMismatch { expected: Shape::Text })
            } else {
                Ok(Value::HostObject(HostObject::Bytes))
            },
        },
        Piece::Table(table) => {
            let meta = capture_metadata(&table);
            if depth == 0 {
                return Ok(Value::Table(Table { entries: Vec::new(), meta }));
            }
            let pairs = match pairs_of(&table) {
                Ok(pairs) => pairs,
                Err(e) => {
                    return Err(runtime_error(&e));
                },
            };
            let entries = match capture_pairs(&pairs, depth - 1, strict) {
                Ok(entries) => entries,
                Err(e) => {
                    return Err(e);
                },
            };
            proof {
                lemma_deepest_is_bounded(entries@, entries@.len(), depth as nat);
            }
            Ok(Value::Table(Table { entries, meta }))
        },
        Piece::Function(f) => Ok(Value::Function(info_of(&f))),
        Piece::Error(e) => Ok(Value::Error(error_text(&e))),
        Piece::Thread => Ok(Value::HostObject(HostObject::Thread)),
        Piece::Pointer => Ok(Value::HostObject(HostObject::Pointer)),
        Piece::UserData => Ok(
            Value::HostObject(HostObject::Opaque(String::from_str("userdata"))),
        ),
    }
}

/// Takes a value over from the runtime, tables down to `depth` levels: a
/// table below the last level comes without its entries. However deep the
/// value is in the runtime, and even where a table contains itself, what
/// is taken over has at most `depth + 1` levels. Fails where a string is
/// not valid UTF-8, or where the runtime fails to walk a table.
pub fn capture<'lua>(value: &LuaValue<'lua>, depth: usize) -> (r: Result<Value, BridgeError>)
    ensures
        is_taken(r, kind_of(*value), depth as nat, true),
{
    take(value, depth, true)
}

/// Takes a value over as `capture` does, but goes on where a string is
/// not valid UTF-8: such a string is taken over as a host object that
/// cannot be looked into. Fails only where the runtime fails to walk a
/// table.
pub fn capture_lenient<'lua>(value: &LuaValue<'lua>, depth: usize) -> (r: Result<
    Value,
    BridgeError,
>)
    ensures
        is_taken(r, kind_of(*value), depth as nat, false),
{
    take(value, depth, false)
}

/// The entries `entries` are what the entries `pairs` of a runtime table
/// are taken over as: as many, in the same order, each key and each value
/// as what a value of its kind is taken over as.
pub open spec fn are_captures(
    entries: Seq<(Value, Value)>,
    pairs: Seq<(LuaValue, LuaValue)>,
) -> bool {
    &&& entries.len() == pairs.len()
    &&& forall|i: int|
        0 <= i < pairs.len() ==> is_capture((#[trigger] entries[i]).0, kind_of(pairs[i].0))
            && is_capture(entries[i].1, kind_of(pairs[i].1))
}

/// An error with which taking over the entries of a table can fail.
pub open spec fn is_walk_failure(e: BridgeError, strict: bool) -> bool {
    e is Runtime || (strict && e == (BridgeError::TypeMismatch { expected: Shape::Text }))
}

/// Takes the entries of a runtime table over, in the order in which the
/// runtime gave them, tables inside them down to `depth` levels. Fails
/// with the failure of the first key or value that cannot be taken over.
fn capture_pairs<'lua>(
    pairs: &Vec<(LuaValue<'lua>, LuaValue<'lua>)>,
    depth: usize,
    strict: bool,
) -> (r: Result<Vec<(Value, Value)>, BridgeError>)
    ensures
        match r {
            Ok(entries) => are_captures(entries@, pairs@) && forall|i: int|
                0 <= i < entries@.len() ==> levels(#[trigger] entries@[i].0) <= depth + 1
                    && levels(entries@[i].1) <= depth + 1,
            Err(e) => is_walk_failure(e, strict),
        },
    decreases depth, 1nat,
{
    let mut entries: Vec<(Value, Value)> = Vec::new();
    let mut i: usize = 0;
    while i < pairs.len()
        invariant
            i <= pairs@.len(),
            entries@.len() == i,
            forall|j: int|
                0 <= j < i ==> is_capture((#[trigger] entries@[j]).0, kind_of(pairs@[j].0))
                    && is_capture(entries@[j].1, kind_of(pairs@[j].1)),
            forall|j: int|
                0 <= j < i ==> levels(#[trigger] entries@[j].0) <= depth + 1 && levels(
                    entries@[j].1,
                ) <= depth + 1,
        decreases pairs.len() - i,
    {
        let key = match take(&pairs[i].0, depth, strict) {
            Ok(key) => key,
            Err(e) => {
                return Err(e);
            },
        };
        let item = match take(&pairs[i].1, depth, strict) {
            Ok(item) => item,
            Err(e) => {
                return Err(e);
            },
        };
        entries.push((key, item));
        i += 1;
    }
    Ok(entries)
}

/// The values `taken` are what the runtime values `values` are taken over
/// as: as many, in the same order, each as what a value of its kind is
/// taken over as.
pub open spec fn are_captures_of_values(taken: Seq<Value>, values: Seq<LuaValue>) -> bool {
    &&& taken.len() == values.len()
    &&& forall|i: int| 0 <= i < values.len() ==> is_capture(#[trigger] taken[i], kind_of(values[i]))
}

/// Takes runtime values over, in order, tables down to `depth` levels,
/// and goes on where a string is not valid UTF-8. Fails only where the
/// runtime fails to walk a table.
fn capture_each<'lua>(values: &Vec<LuaValue<'lua>>, depth: usize) -> (r: Result<
    Vec<Value>,
    BridgeError,
>)
    ensures
        match r {
            Ok(taken) => are_captures_of_values(taken@, values@),
            Err(e) => e is Runtime,
        },
{
    let mut taken: Vec<Value> = Vec::new();
    let mut i: usize = 0;
    while i < values.len()
        invariant
            i <= values@.len(),
            taken@.len() == i,
            forall|j: int| 0 <= j < i ==> is_capture(#[trigger] taken@[j], kind_of(values@[j])),
        decreases values.len() - i,
    {
        match capture_lenient(&values[i], depth) {
            Ok(value) => {
                taken.push(value);
            },
            Err(e) => {
                return Err(e);
            },
        }
        i += 1;
    }
    Ok(taken)
}

/// The text of a runtime value at indentation `indent`: the text of the
/// value as it was taken over. For a value that is no table this is the
/// text of that value; for a table it is the text of what the runtime
/// held in it during the call.
pub fn pformat_value<'lua>(value: &LuaValue<'lua>, indent: usize) -> (r: Result<
    String,
    BridgeError,
>)
    ensures
        match r {
            Ok(text) => exists|v: Value|
                is_capture(v, kind_of(*value)) && text@ == render(v, indent, DEPTH_LIMIT as nat),
            Err(e) => is_capture_failure(e, kind_of(*value), DEPTH_LIMIT as nat, true),
        },
{
    match capture(value, DEPTH_LIMIT) {
        Ok(v) => Ok(pformat(&v, indent)),
        Err(e) => Err(e),
    }
}

/// The module in the global slot `name` of the runtime, if the table
/// there still carries the identity tag `name`. Fails, as for a module that
/// was overridden, where the slot holds anything else. What was found in
/// the slot is handed to `resolution`, which decides.
pub fn resolve_module<'lua>(lua: &'lua Lua, name: &str) -> (r: Result<LuaTable<'lua>, BridgeError>)
    ensures
        match r {
            Ok(module) => owner_of(module) == *lua,
            Err(e) => e matches BridgeError::ModuleOverridden { name: n } && n@ == name@,
        },
{
    let found = match table_at(&globals(lua), name) {
        Some(table) => {
            let tag = match capture_metadata(&table) {
                Some(meta) => meta.identity,
                None => None,
            };
            Some((table, tag))
        },
        None => None,
    };
    resolution(found, name)
}

/// Registers `table` as the module `name` of the runtime: the identity
/// tag `name` is written to the table's metatable, which is created where
/// the table has none, and the table takes the global slot `name`. Fails
/// only where the runtime does.
pub fn register_module<'lua>(lua: &'lua Lua, name: &str, table: LuaTable<'lua>) -> (r: Result<
    (),
    BridgeError,
>)
    requires
        owner_of(table) == *lua,
    ensures
        r matches Err(e) ==> e is Runtime,
{
    let meta = match metatable_of(&table) {
        Some(meta) => meta,
        None => match new_table(lua) {
            Ok(meta) => meta,
            Err(e) => {
                return Err(runtime_error(&e));
            },
        },
    };
    match set_text(lua, &meta, "__metatable", name) {
        Ok(_) => {},
        Err(e) => {
            return Err(runtime_error(&e));
        },
    }
    set_metatable(&table, meta);
    match set(&globals(lua), name, table_value(table)) {
        Ok(_) => Ok(()),
        Err(e) => Err(runtime_error(&e)),
    }
}

/// A script module that the host provides.
pub trait Import {
    /// The name of the module, which is also its global slot.
    fn module_name() -> &'static str;

    /// Writes the contents of the module to an existing table of `lua`.
    fn extend(table: &LuaTable<'_>, lua: &Lua) -> Result<(), LuaError>
        requires
            owner_of(*table) == *lua,
    ;

    /// Creates the module as a new table of `lua`.
    fn import(lua: &Lua) -> (r: Result<LuaTable<'_>, LuaError>)
        ensures
            r matches Ok(table) ==> owner_of(table) == *lua,
    {
        let table = match new_table(lua) {
            Ok(table) => table,
            Err(e) => {
                return Err(e);
            },
        };
        match Self::extend(&table, lua) {
            Ok(_) => Ok(table),
            Err(e) => Err(e),
        }
    }
}

/// A runtime in which the host installs modules.
pub trait Require {
    /// The runtime itself.
    spec fn runtime(&self) -> Lua;

    /// Creates the module `I` and registers it under its name, with its
    /// identity tag. Fails only where the runtime does.
    fn require<I: Import>(&self) -> (r: Result<(), BridgeError>)
        ensures
            r matches Err(e) ==> e is Runtime,
    ;

    /// Puts a table of this runtime in the global slot `name` as it is,
    /// without an identity tag. Fails only where the runtime does.
    fn import(&self, name: &str, module: LuaTable<'_>) -> (r: Result<(), BridgeError>)
        requires
            owner_of(module) == self.runtime(),
        ensures
            r matches Err(e) ==> e is Runtime,
    ;
}

impl Require for Lua {
    open spec fn runtime(&self) -> Lua {
        *self
    }

    fn require<I: Import>(&self) -> (r: Result<(), BridgeError>) {
        let table = match I::import(self) {
            Ok(table) => table,
            Err(e) => {
                return Err(runtime_error(&e));
            },
        };
        register_module(self, I::module_name(), table)
    }

    fn import(&self, name: &str, module: LuaTable<'_>) -> (r: Result<(), BridgeError>) {
        match set(&globals(self), name, table_value(module)) {
            Ok(_) => Ok(()),
            Err(e) => Err(runtime_error(&e)),
        }
    }
}

impl Import for Plugins {
    fn module_name() -> (r: &'static str)
        ensures
            r@ == "plugins"@,
    {
        Plugins::module_name()
    }

    /// The module starts with the empty list `plugins`, which scripts see.
    fn extend(table: &LuaTable<'_>, lua: &Lua) -> (r: Result<(), LuaError>) {
        match new_table(lua) {
            Ok(list) => set(table, "plugins", table_value(list)),
            Err(e) => Err(e),
        }
    }
}

/// An error with which finding the list of plugins can fail: the module
/// `plugins` is not installed or was overridden, or it holds no list.
pub open spec fn is_list_failure(e: BridgeError) -> bool {
    ||| e matches BridgeError::ModuleOverridden { name } && name@ == "plugins"@
    ||| e == (BridgeError::TypeMismatch { expected: Shape::Table })
}

/// The list of plugins that scripts see: the table `plugins` of the
/// module `plugins`.
fn plugin_list<'lua>(lua: &'lua Lua) -> (r: Result<LuaTable<'lua>, BridgeError>)
    ensures
        match r {
            Ok(list) => owner_of(list) == *lua,
            Err(e) => is_list_failure(e),
        },
{
    let module = match resolve_module(lua, Plugins::module_name()) {
        Ok(module) => module,
        Err(e) => {
            return Err(e);
        },
    };
    match table_at(&module, "plugins") {
        Some(list) => Ok(list),
        None => Err(BridgeError::TypeMismatch { expected: Shape::Table }),
    }
}

/// Writes a table to a new table of the runtime: each entry that holds a
/// string under a string, and each entry that holds a function under a
/// string, as the function that `functions` holds under the same string.
/// Other entries have no place in the runtime and are left out.
fn write_table<'lua>(
    lua: &'lua Lua,
    table: &Table,
    functions: Option<&LuaTable<'lua>>,
) -> (r: Result<LuaTable<'lua>, LuaError>)
    requires
        functions matches Some(source) ==> owner_of(*source) == *lua,
    ensures
        r matches Ok(written) ==> owner_of(written) == *lua,
{
    let written = match new_table(lua) {
        Ok(written) => written,
        Err(e) => {
            return Err(e);
        },
    };
    let mut i: usize = 0;
    while i < table.entries.len()
        invariant
            i <= table.entries@.len(),
            owner_of(written) == *lua,
            functions matches Some(source) ==> owner_of(*source) == *lua,
        decreases table.entries.len() - i,
    {
        match (&table.entries[i].0, &table.entries[i].1) {
            (Value::Str(key), Value::Str(text)) => {
                match set_text(lua, &written, key.as_str(), text.as_str()) {
                    Ok(_) => {},
                    Err(e) => {
                        return Err(e);
                    },
                }
            },
            (Value::Str(key), Value::Function(_)) => {
                let found = match functions {
                    Some(source) => function_at(source, key.as_str()),
                    None => None,
                };
                match found {
                    Some(f) => match set(&written, key.as_str(), function_value(f)) {
                        Ok(_) => {},
                        Err(e) => {
                            return Err(e);
                        },
                    },
                    None => {},
                }
            },
            _ => {},
        }
        i += 1;
    }
    Ok(written)
}

/// A new runtime table that holds the info record of `plugin`, as
/// `Plugin::info` gives it.
fn info_table<'lua>(lua: &'lua Lua, plugin: &Plugin) -> (r: Result<LuaTable<'lua>, LuaError>)
    ensures
        r matches Ok(info) ==> owner_of(info) == *lua,
{
    let info = plugin.info();
    write_table(lua, &info, None)
}

/// Runs the `setup` hook of a descriptor with the info record of
/// `plugin`. A descriptor without a function under `setup` has no hook to
/// run, which is no failure.
fn run_setup<'lua>(lua: &'lua Lua, descriptor: &LuaTable<'lua>, plugin: &Plugin) -> (r: Result<
    (),
    String,
>)
    requires
        owner_of(*descriptor) == *lua,
{
    let hook = match function_at(descriptor, "setup") {
        Some(hook) => hook,
        None => {
            return Ok(());
        },
    };
    let info = match info_table(lua, plugin) {
        Ok(info) => info,
        Err(e) => {
            return Err(error_text(&e));
        },
    };
    match call_with(&hook, table_value(info)) {
        Ok(_) => Ok(()),
        Err(e) => Err(error_text(&e)),
    }
}

/// Appends the record of `plugin`, as `Plugin::into_value` gives it, to
/// the list that scripts see: its four strings, and each hook as the
/// function that the descriptor holds under the hook's name. Fails where
/// the list is not to be found, or where the runtime fails.
fn publish<'lua>(lua: &'lua Lua, descriptor: &LuaTable<'lua>, plugin: &Plugin) -> (r: Result<
    (),
    BridgeError,
>)
    requires
        owner_of(*descriptor) == *lua,
    ensures
        r matches Err(e) ==> is_list_failure(e) || e is Runtime,
{
    let list = match plugin_list(lua) {
        Ok(list) => list,
        Err(e) => {
            return Err(e);
        },
    };
    let written = match plugin.into_value() {
        Value::Table(record) => write_table(lua, &record, Some(descriptor)),
        _ => unreached(),
    };
    let record = match written {
        Ok(record) => record,
        Err(e) => {
            return Err(runtime_error(&e));
        },
    };
    match push(&list, table_value(record)) {
        Ok(_) => Ok(()),
        Err(e) => Err(runtime_error(&e)),
    }
}

/// An error with which the registration of a table can fail: it is no
/// valid descriptor, its `setup` hook fails, the list that scripts see is
/// not to be found, or the runtime fails.
pub open spec fn is_registration_failure(e: BridgeError) -> bool {
    is_validation_failure(e) || e is HookFailure || is_list_failure(e) || e is Runtime
}

/// Registers the plugin that the runtime value `data` describes. The
/// descriptor is validated as it was taken over; then its `setup` hook,
/// if it has one, runs in the runtime with the plugin's info record; then
/// the plugin's record is appended to the list that scripts see, and to
/// `plugins`. Whatever fails, fails the registration, and `plugins` stays
/// as it was. A value that is no table is no descriptor, whatever the
/// runtime holds. The module `plugins` has to be installed in `lua`, and
/// `data` has to fit `lua`.
pub fn new_plugin<'lua>(lua: &'lua Lua, plugins: &mut Plugins, data: &LuaValue<'lua>) -> (r: Result<
    (),
    BridgeError,
>)
    requires
        fits(*data, *lua),
    ensures
        match r {
            Ok(_) => kind_of(*data) is Table && exists|plugin: PluginView|
                is_appended(old(plugins).list@, final(plugins).list@, plugin),
            Err(e) => final(plugins).list@ == old(plugins).list@ && if kind_of(*data) is Table {
                is_registration_failure(e)
            } else {
                e == (BridgeError::TypeMismatch { expected: Shape::Table })
            },
        },
{
    let descriptor = match capture_lenient(data, 1) {
        Ok(descriptor) => descriptor,
        Err(e) => {
            return Err(e);
        },
    };
    let plugin = match Plugin::from_value(&descriptor) {
        Ok(plugin) => plugin,
        Err(e) => {
            proof {
                lemma_failures_are_of_validation(Seq::empty(), 0);
            }
            return Err(e);
        },
    };
    let table = match as_table(data) {
        Some(table) => table,
        None => {
            return Err(BridgeError::TypeMismatch { expected: Shape::Table });
        },
    };
    let setup = if plugin.has_hook("setup") {
        run_setup(lua, &table, &plugin)
    } else {
        Ok(())
    };
    let setup = match setup {
        Ok(_) => match publish(lua, &table, &plugin) {
            Ok(_) => Ok(()),
            Err(e) => {
                return Err(e);
            },
        },
        Err(message) => Err(message),
    };
    let r = plugins.complete(&plugin, setup);
    proof {
        if r is Ok {
            assert(is_appended(old(plugins).list@, plugins.list@, plugin@));
        }
    }
    r
}

/// An error with which enumerating the list that scripts see can fail:
/// the list is not to be found, the runtime fails, or an entry no longer
/// stands for a plugin.
pub open spec fn is_enumeration_failure(e: BridgeError) -> bool {
    is_list_failure(e) || e is Runtime || is_validation_failure(e)
}

/// The plugins of the list that scripts see, each validated again as on
/// registration, in the order of the list. An entry that scripts have
/// changed so that it no longer stands for a plugin fails the enumeration
/// with the error of its validation. What was found in the list is handed
/// to `Plugins::get_plugins`, which says what is made of it.
pub fn get_plugins(lua: &Lua) -> (r: Result<Vec<Plugin>, BridgeError>)
    ensures
        r matches Err(e) ==> is_enumeration_failure(e),
{
    let list = match plugin_list(lua) {
        Ok(list) => list,
        Err(e) => {
            return Err(e);
        },
    };
    let items = match sequence_of(&list) {
        Ok(items) => items,
        Err(e) => {
            return Err(runtime_error(&e));
        },
    };
    let seen = match capture_each(&items, 1) {
        Ok(list) => Plugins { list },
        Err(e) => {
            return Err(e);
        },
    };
    proof {
        lemma_failures_are_of_validation(seen.list@, seen.list@.len());
    }
    seen.get_plugins()
}

/// The texts of string slices, in order.
pub open spec fn texts(paths: Seq<&str>) -> Seq<Seq<char>> {
    paths.map_values(|p: &str| p@)
}

/// The search path `current` with the first `n` of `paths` appended, each
/// after a `;`.
pub open spec fn extended(current: Seq<char>, paths: Seq<&str>, n: nat) -> Seq<char>
    decreases n,
{
    if n == 0 || n > paths.len() {
        current
    } else {
        extended(current, paths, (n - 1) as nat) + ";"@ + paths[n - 1]@
    }
}

/// The search path that holds `paths`, with `;` between each two.
pub fn search_path(paths: &[&str]) -> (r: String)
    ensures
        r@ == joined(texts(paths@), ";"@, paths@.len()),
{
    let mut out = String::new();
    let mut i: usize = 0;
    while i < paths.len()
        invariant
            i <= paths@.len(),
            out@ == joined(texts(paths@), ";"@, i as nat),
        decreases paths.len() - i,
    {
        if i > 0 {
            out.append(";");
        }
        out.append(paths[i]);
        proof {
            assert(texts(paths@)[i as int] == paths@[i as int]@);
            assert(out@ =~= joined(texts(paths@), ";"@, (i + 1) as nat));
        }
        i += 1;
    }
    out
}

/// The search path `current` with `paths` appended, each after a `;`.
pub fn extended_path(current: &str, paths: &[&str]) -> (r: String)
    ensures
        r@ == extended(current@, paths@, paths@.len()),
{
    let mut out = String::from_str(current);
    let mut i: usize = 0;
    while i < paths.len()
        invariant
            i <= paths@.len(),
            out@ == extended(current@, paths@, i as nat),
        decreases paths.len() - i,
    {
        out.append(";");
        out.append(paths[i]);
        i += 1;
    }
    out
}

/// An error with which writing the search path can fail: the runtime has
/// no table `package`, or the runtime itself fails.
pub open spec fn is_package_failure(e: BridgeError) -> bool {
    e is Runtime || e == (BridgeError::TypeMismatch { expected: Shape::Table })
}

/// An error with which reading the search path can fail: as for writing,
/// or `package.path` is no string of valid UTF-8.
pub open spec fn is_path_failure(e: BridgeError) -> bool {
    is_package_failure(e) || e == (BridgeError::TypeMismatch { expected: Shape::Text })
}

/// The search path of a script runtime: where `require` looks for script
/// modules, as the string `package.path`.
pub trait LuaExt {
    /// The search path as it is now. Fails where the runtime has no table
    /// `package`, where that table holds no string of valid UTF-8 as its
    /// `path`, or where the runtime fails.
    fn path(&self) -> (r: Result<String, BridgeError>)
        ensures
            r matches Err(e) ==> is_path_failure(e),
    ;

    /// Appends one path to the search path, after a `;`. Fails where
    /// reading the search path fails, or where the runtime fails.
    fn append_path(&mut self, path: &str) -> (r: Result<(), BridgeError>)
        ensures
            r matches Err(e) ==> is_path_failure(e),
    ;

    /// Appends paths to the search path, in order, each after a `;`.
    /// Fails where reading the search path fails, or where the runtime
    /// fails.
    fn append_paths(&mut self, paths: &[&str]) -> (r: Result<(), BridgeError>)
        ensures
            r matches Err(e) ==> is_path_failure(e),
    ;

    /// Replaces the search path by one path. Fails where the runtime has
    /// no table `package`, or where the runtime fails.
    fn set_path(&mut self, path: &str) -> (r: Result<(), BridgeError>)
        ensures
            r matches Err(e) ==> is_package_failure(e),
    ;

    /// Replaces the search path by `paths`, with `;` between each two.
    /// Fails where the runtime has no table `package`, or where the
    /// runtime fails.
    fn set_paths(&mut self, paths: &[&str]) -> (r: Result<(), BridgeError>)
        ensures
            r matches Err(e) ==> is_package_failure(e),
    ;
}

/// The table `package` of the runtime.
fn package<'lua>(lua: &'lua Lua) -> (r: Result<LuaTable<'lua>, BridgeError>)
    ensures
        match r {
            Ok(package) => owner_of(package) == *lua,
            Err(e) => e == (BridgeError::TypeMismatch { expected: Shape::Table }),
        },
{
    match table_at(&globals(lua), "package") {
        Some(table) => Ok(table),
        None => Err(BridgeError::TypeMismatch { expected: Shape::Table }),
    }
}

/// Writes `path` as the search path of the runtime.
fn write_path(lua: &Lua, path: &str) -> (r: Result<(), BridgeError>)
    ensures
        r matches Err(e) ==> is_package_failure(e),
{
    let package = match package(lua) {
        Ok(package) => package,
        Err(e) => {
            return Err(e);
        },
    };
    match set_text(lua, &package, "path", path) {
        Ok(_) => Ok(()),
        Err(e) => Err(runtime_error(&e)),
    }
}

impl LuaExt for Lua {
    fn path(&self) -> (r: Result<String, BridgeError>) {
        let package = match package(self) {
            Ok(package) => package,
            Err(e) => {
                return Err(e);
            },
        };
        match get(&package, "path") {
            Ok(value) => match as_text(&value) {
                Some(path) => Ok(path),
                None => Err(BridgeError::TypeMismatch { expected: Shape::Text }),
            },
            Err(e) => Err(runtime_error(&e)),
        }
    }

    fn append_path(&mut self, path: &str) -> (r: Result<(), BridgeError>) {
        let current = match self.path() {
            Ok(current) => current,
            Err(e) => {
                return Err(e);
            },
        };
        let paths: [&str; 1] = [path];
        let out = extended_path(current.as_str(), &paths);
        write_path(self, out.as_str())
    }

    fn append_paths(&mut self, paths: &[&str]) -> (r: Result<(), BridgeError>) {
        let current = match self.path() {
            Ok(current) => current,
            Err(e) => {
                return Err(e);
            },
        };
        let out = extended_path(current.as_str(), paths);
        write_path(self, out.as_str())
    }

    fn set_path(&mut self, path: &str) -> (r: Result<(), BridgeError>) {
        write_path(self, path)
    }

    fn set_paths(&mut self, paths: &[&str]) -> (r: Result<(), BridgeError>) {
        let out = search_path(paths);
        write_path(self, out.as_str())
    }
}

} // verus!
