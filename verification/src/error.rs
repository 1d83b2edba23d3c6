//! The errors of the bridge, and each of them in words.
use vstd::prelude::*;
use vstd::string::StringExecFns;

verus! {

/// The required fields of a plugin descriptor.
#[derive(Debug, Clone, Copy, PartialEq, Eq, Structural)]
pub enum PluginField {
    Name,
    Version,
    Author,
    Description,
}

/// The shapes that the bridge asks for.
#[derive(Debug, Clone, Copy, PartialEq, Eq, Structural)]
pub enum Shape {
    /// A table.
    Table,
    /// A table or a configuration handle.
    Config,
    /// A table or a path group.
    Paths,
    /// A table or a feature group.
    Features,
    /// A string in valid UTF-8.
    Text,
}

/// Why a bridge operation failed.
#[derive(Debug, Clone, PartialEq, Eq)]
pub enum BridgeError {
    /// The value has another kind than the shape that was asked for.
    TypeMismatch { expected: Shape },
    /// The table in a module's global slot is not the one that was registered.
    ModuleOverridden { name: String },
    /// A plugin's `setup` hook raised an error.
    HookFailure { message: String },
    /// A plugin descriptor lacks a required field, or holds it with another
    /// kind than a string.
    MalformedPlugin { field: PluginField },
    /// The script runtime could not carry out what the bridge asked of it.
    Runtime { message: String },
}

/// The key of a required field in a plugin descriptor.
pub open spec fn field_key(f: PluginField) -> Seq<char> {
    match f {
        PluginField::Name => "name"@,
        PluginField::Version => "version"@,
        PluginField::Author => "author"@,
        PluginField::Description => "description"@,
    }
}

/// A shape in words.
pub open spec fn shape_text(s: Shape) -> Seq<char> {
    match s {
        Shape::Table => "a table"@,
        Shape::Config => "a table or a config handle"@,
        Shape::Paths => "a table or a paths handle"@,
        Shape::Features => "a table or a features handle"@,
        Shape::Text => "a string of valid UTF-8"@,
    }
}

/// An error in words: its kind, then what it is about.
pub open spec fn message_text(e: BridgeError) -> Seq<char> {
    match e {
        BridgeError::TypeMismatch { expected } => "type mismatch: expected "@ + shape_text(
            expected,
        ),
        BridgeError::ModuleOverridden { name } => "module overridden: the global `"@ + name@
            + "` was replaced by other code"@,
        BridgeError::HookFailure { message } => "setup hook failed: "@ + message@,
        BridgeError::MalformedPlugin { field } => "malformed plugin: the field `"@ + field_key(
            field,
        ) + "` is missing or is no string"@,
        BridgeError::Runtime { message } => "script runtime failed: "@ + message@,
    }
}

impl PluginField {
    /// The key of the field in a plugin descriptor.
    pub fn key(&self) -> (r: &'static str)
        ensures
            r@ == field_key(*self),
    {
        match self {
            PluginField::Name => "name",
            PluginField::Version => "version",
            PluginField::Author => "author",
            PluginField::Description => "description",
        }
    }
}

impl Shape {
    /// The shape in words.
    pub fn describe(&self) -> (r: &'static str)
        ensures
            r@ == shape_text(*self),
    {
        match self {
            Shape::Table => "a table",
            Shape::Config => "a table or a config handle",
            Shape::Paths => "a table or a paths handle",
            Shape::Features => "a table or a features handle",
            Shape::Text => "a string of valid UTF-8",
        }
    }
}

impl BridgeError {
    /// The error in words.
    pub fn message(&self) -> (r: String)
        ensures
            r@ == message_text(*self),
    {
        match self {
            BridgeError::TypeMismatch { expected } => {
                let mut out = String::from_str("type mismatch: expected ");
                out.append(expected.describe());
                out
            },
            BridgeError::ModuleOverridden { name } => {
                let mut out = String::from_str("module overridden: the global `");
                out.append(name.as_str());
                out.append("` was replaced by other code");
                out
            },
            BridgeError::HookFailure { message } => {
                let mut out = String::from_str("setup hook failed: ");
                out.append(message.as_str());
                out
            },
            BridgeError::MalformedPlugin { field } => {
                let mut out = String::from_str("malformed plugin: the field `");
                out.append(field.key());
                out.append("` is missing or is no string");
                out
            },
            BridgeError::Runtime { message } => {
                let mut out = String::from_str("script runtime failed: ");
                out.append(message.as_str());
                out
            },
        }
    }
}

} // verus!
