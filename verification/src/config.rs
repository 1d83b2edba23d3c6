//! The host configuration record and its shared, lock-protected storage.
use crate::error::BridgeError;
use crate::error::Shape;
use crate::lua::in_quotes;
use crate::lua::inner_level;
use crate::lua::LuaFmt;
use crate::lua::LuaStructFormat;
use crate::lua::struct_text;
use crate::text::decimal;
use crate::text::decimal_string;
use crate::value::field;
use crate::value::HostObject;
use crate::value::Table;
use crate::value::Value;
use std::sync::Arc;
use std::sync::Mutex;
use std::sync::MutexGuard;
use vstd::prelude::*;

verus! {

/// The lock of the standard library. Verus sees nothing inside it.
#[verifier::external_type_specification]
#[verifier::external_body]
#[verifier::reject_recursive_types(T)]
pub struct ExMutex<T: ?Sized>(Mutex<T>);

/// The guard of a held lock. Verus sees nothing inside it.
#[verifier::external_type_specification]
#[verifier::external_body]
#[verifier::reject_recursive_types(T)]
pub struct ExMutexGuard<'a, T: ?Sized + 'a>(MutexGuard<'a, T>);

/// The path group that a lock was made with.
pub uninterp spec fn first_paths(cell: Mutex<Paths>) -> Paths;

/// The feature group that a lock was made with.
pub uninterp spec fn first_features(cell: Mutex<Features>) -> Features;

/// `Mutex::new`: a new lock, made with `paths` as what it guards.
#[verifier::external_body]
fn new_paths_lock(paths: Paths) -> (r: Mutex<Paths>)
    ensures
        first_paths(r) == paths,
{
    Mutex::new(paths)
}

/// `Mutex::new`: a new lock, made with `features` as what it guards.
#[verifier::external_body]
fn new_features_lock(features: Features) -> (r: Mutex<Features>)
    ensures
        first_features(r) == features,
{
    Mutex::new(features)
}

/// `Arc::ptr_eq`: whether two pointers point to the same shared lock. A
/// lock is itself and no other: two locks are equal exactly where they are
/// one lock, reached by two pointers.
#[verifier::external_body]
fn same_cell<T>(a: &Arc<Mutex<T>>, b: &Arc<Mutex<T>>) -> (r: bool)
    ensures
        r == (*a == *b),
{
    Arc::ptr_eq(a, b)
}

/// `Arc::clone`: a second pointer to the same shared value.
#[verifier::external_body]
fn share<T>(cell: &Arc<Mutex<T>>) -> (r: Arc<Mutex<T>>)
    ensures
        r == *cell,
{
    Arc::clone(cell)
}

/// `Mutex::lock`: waits for the lock and takes it. A lock that a
/// panicking holder left behind is taken all the same. The calling thread
/// must not hold the lock already.
#[verifier::external_body]
fn lock<'a, T>(cell: &'a Mutex<T>) -> (r: MutexGuard<'a, T>) {
    match cell.lock() {
        Ok(guard) => guard,
        Err(poisoned) => poisoned.into_inner(),
    }
}

/// What a held lock on a path group guards. While the lock is held, only
/// its holder reads and writes what it guards.
pub uninterp spec fn guarded_paths(guard: MutexGuard<Paths>) -> Paths;

/// What a held lock on a feature group guards.
pub uninterp spec fn guarded_features(guard: MutexGuard<Features>) -> Features;

/// `Deref` of a guard: the path group under the held lock.
#[verifier::external_body]
fn held_paths<'a, 'b>(guard: &'b MutexGuard<'a, Paths>) -> (r: &'b Paths)
    ensures
        *r == guarded_paths(*guard),
{
    &**guard
}

/// `DerefMut` of a guard: replaces the path group under the held lock.
#[verifier::external_body]
fn put_paths<'a>(guard: &mut MutexGuard<'a, Paths>, paths: Paths)
    ensures
        guarded_paths(*final(guard)) == paths,
{
    **guard = paths;
}

/// `Deref` of a guard: the feature group under the held lock.
#[verifier::external_body]
fn held_features<'a, 'b>(guard: &'b MutexGuard<'a, Features>) -> (r: &'b Features)
    ensures
        *r == guarded_features(*guard),
{
    &**guard
}

/// `DerefMut` of a guard: replaces the feature group under the held lock.
#[verifier::external_body]
fn put_features<'a>(guard: &mut MutexGuard<'a, Features>, features: Features)
    ensures
        guarded_features(*final(guard)) == features,
{
    **guard = features;
}

/// Where projects are kept, downloaded to and built.
#[derive(Debug, Clone, PartialEq, Eq)]
pub struct Paths {
    pub projects: String,
    pub download: String,
    pub build: String,
}

/// What a `Paths` holds, as plain text.
pub struct PathsView {
    pub projects: Seq<char>,
    pub download: Seq<char>,
    pub build: Seq<char>,
}

impl View for Paths {
    type V = PathsView;

    open spec fn view(&self) -> PathsView {
        PathsView { projects: self.projects@, download: self.download@, build: self.build@ }
    }
}

/// The fields of a path group.
#[derive(Debug, Clone, Copy, PartialEq, Eq, Structural)]
pub enum PathField {
    Projects,
    Download,
    Build,
}

/// The path in one field of a path group.
pub open spec fn path_at(paths: PathsView, field: PathField) -> Seq<char> {
    match field {
        PathField::Projects => paths.projects,
        PathField::Download => paths.download,
        PathField::Build => paths.build,
    }
}

/// The path group with `path` in one field, the other fields as they were.
pub open spec fn with_path(paths: PathsView, field: PathField, path: Seq<char>) -> PathsView {
    match field {
        PathField::Projects => PathsView { projects: path, ..paths },
        PathField::Download => PathsView { download: path, ..paths },
        PathField::Build => PathsView { build: path, ..paths },
    }
}

/// Optional behaviour that the host can switch on.
#[derive(Debug, Clone, Copy, PartialEq, Eq, Structural)]
pub struct Features {
    pub show_docker_logs: bool,
}

/// The two groups of a configuration as plain values.
#[derive(Debug, Clone, PartialEq, Eq)]
pub struct Settings {
    pub paths: Paths,
    pub features: Features,
}

/// A live handle on the configuration. The two groups are shared
/// independently, each behind its own lock: a clone of the handle reads
/// and writes the same storage. The locks are the handle's own: they are
/// held only inside one call of a method, never across two, so that no
/// call finds its lock held by its own thread.
#[derive(Debug, Clone)]
pub struct Config {
    paths: Arc<Mutex<Paths>>,
    features: Arc<Mutex<Features>>,
}

/// Three empty paths.
pub open spec fn no_paths() -> PathsView {
    PathsView { projects: Seq::empty(), download: Seq::empty(), build: Seq::empty() }
}

/// Every feature switched off.
pub open spec fn no_features() -> Features {
    Features { show_docker_logs: false }
}

/// The path that a table field gives: the text of a string, the decimal
/// text of a number, and the empty path for anything else, a missing field
/// included.
pub open spec fn path_text(v: Value) -> Seq<char> {
    match v {
        Value::Str(s) => s@,
        Value::Int(i) => decimal(i as int),
        Value::Float(text) => text@,
        _ => Seq::empty(),
    }
}

/// The switch that a table field gives: a missing field is off, a boolean
/// is itself, and anything else is on.
pub open spec fn truthy(v: Value) -> bool {
    match v {
        Value::Nil => false,
        Value::Bool(b) => b,
        _ => true,
    }
}

/// The path group that a value gives: the fields of a table, each empty
/// where the table lacks it, or a path group itself.
pub open spec fn paths_of(v: Value) -> Result<PathsView, BridgeError> {
    match v {
        Value::Table(t) => Ok(
            PathsView {
                projects: path_text(field(t.entries@, "projects"@)),
                download: path_text(field(t.entries@, "download"@)),
                build: path_text(field(t.entries@, "build"@)),
            },
        ),
        Value::HostObject(HostObject::Paths(p)) => Ok(p@),
        _ => Err(BridgeError::TypeMismatch { expected: Shape::Paths }),
    }
}

/// The feature group that a value gives: the switches of a table, each
/// off where the table lacks it, or a feature group itself.
pub open spec fn features_of(v: Value) -> Result<Features, BridgeError> {
    match v {
        Value::Table(t) => Ok(
            Features { show_docker_logs: truthy(field(t.entries@, "show_docker_logs"@)) },
        ),
        Value::HostObject(HostObject::Features(f)) => Ok(f),
        _ => Err(BridgeError::TypeMismatch { expected: Shape::Features }),
    }
}

/// The path group of a configuration table: what its field `paths` gives,
/// three empty paths where that is no path group.
pub open spec fn table_paths(entries: Seq<(Value, Value)>) -> PathsView {
    match paths_of(field(entries, "paths"@)) {
        Ok(paths) => paths,
        Err(_) => no_paths(),
    }
}

/// The feature group of a configuration table: what its field `features`
/// gives, every feature off where that is no feature group.
pub open spec fn table_features(entries: Seq<(Value, Value)>) -> Features {
    match features_of(field(entries, "features"@)) {
        Ok(features) => features,
        Err(_) => no_features(),
    }
}

/// The value that was found, `Nil` where none was.
spec fn field_or_nil(v: Option<&Value>) -> Value {
    match v {
        Some(value) => *value,
        None => Value::Nil,
    }
}

/// The path under a table field.
fn path_of(v: Option<&Value>) -> (r: String)
    ensures
        r@ == path_text(field_or_nil(v)),
{
    match v {
        Some(Value::Str(s)) => s.clone(),
        Some(Value::Int(i)) => decimal_string(*i),
        Some(Value::Float(text)) => text.clone(),
        _ => String::new(),
    }
}

impl Default for Paths {
    fn default() -> (r: Paths)
        ensures
            r@ == no_paths(),
    {
        Paths { projects: String::new(), download: String::new(), build: String::new() }
    }
}

impl Default for Features {
    fn default() -> (r: Features)
        ensures
            r == no_features(),
    {
        Features { show_docker_logs: false }
    }
}

impl Paths {
    /// The path in one field.
    pub fn get(&self, field: PathField) -> (r: &String)
        ensures
            r@ == path_at(self@, field),
    {
        match field {
            PathField::Projects => &self.projects,
            PathField::Download => &self.download,
            PathField::Build => &self.build,
        }
    }

    /// Writes `path` to one field.
    pub fn set(&mut self, field: PathField, path: String)
        ensures
            final(self)@ == with_path(old(self)@, field, path@),
    {
        match field {
            PathField::Projects => {
                self.projects = path;
            },
            PathField::Download => {
                self.download = path;
            },
            PathField::Build => {
                self.build = path;
            },
        }
    }

    /// A copy that equals `self`.
    pub fn duplicate(&self) -> (r: Paths)
        ensures
            r == *self,
    {
        Paths {
            projects: self.projects.clone(),
            download: self.download.clone(),
            build: self.build.clone(),
        }
    }

    /// The path group that `value` gives. Only a value that is neither a
    /// table nor a path group gives none.
    pub fn from_value(value: &Value) -> (r: Result<Paths, BridgeError>)
        ensures
            match paths_of(*value) {
                Ok(paths) => r matches Ok(p) && p@ == paths,
                Err(e) => r matches Err(x) && x == e,
            },
    {
        match value {
            Value::Table(t) => {
                let projects = path_of(t.get("projects"));
                let download = path_of(t.get("download"));
                let build = path_of(t.get("build"));
                Ok(Paths { projects, download, build })
            },
            Value::HostObject(HostObject::Paths(p)) => Ok(p.duplicate()),
            _ => Err(BridgeError::TypeMismatch { expected: Shape::Paths }),
        }
    }
}

impl Features {
    /// The feature group that `value` gives. Only a value that is neither
    /// a table nor a feature group gives none.
    pub fn from_value(value: &Value) -> (r: Result<Features, BridgeError>)
        ensures
            match features_of(*value) {
                Ok(features) => r == Ok::<Features, BridgeError>(features),
                Err(e) => r matches Err(x) && x == e,
            },
    {
        match value {
            Value::Table(t) => {
                let show_docker_logs = match t.get("show_docker_logs") {
                    None => false,
                    Some(Value::Nil) => false,
                    Some(Value::Bool(b)) => *b,
                    Some(_) => true,
                };
                Ok(Features { show_docker_logs })
            },
            Value::HostObject(HostObject::Features(f)) => Ok(*f),
            _ => Err(BridgeError::TypeMismatch { expected: Shape::Features }),
        }
    }
}

impl LuaFmt for Paths {
    open spec fn lua_text(&self, pretty: bool, indent: usize) -> Seq<char> {
        struct_text(
            seq![
                ("projects"@, in_quotes(self.projects@)),
                ("download"@, in_quotes(self.download@)),
                ("build"@, in_quotes(self.build@)),
            ],
            pretty,
            indent,
        )
    }

    fn lua_fmt(&self, pretty: bool, indent: usize) -> (r: String) {
        let record = LuaStructFormat::new(pretty, indent).field("projects", &self.projects).field(
            "download",
            &self.download,
        ).field("build", &self.build);
        assert(record.fields() =~= seq![
            ("projects"@, in_quotes(self.projects@)),
            ("download"@, in_quotes(self.download@)),
            ("build"@, in_quotes(self.build@)),
        ]);
        record.to_string()
    }
}

impl LuaFmt for Features {
    open spec fn lua_text(&self, pretty: bool, indent: usize) -> Seq<char> {
        struct_text(
            seq![
                (
                    "show_docker_logs"@,
                    self.show_docker_logs.lua_text(pretty, inner_level(indent)),
                ),
            ],
            pretty,
            indent,
        )
    }

    fn lua_fmt(&self, pretty: bool, indent: usize) -> (r: String) {
        let record = LuaStructFormat::new(pretty, indent).field(
            "show_docker_logs",
            self.show_docker_logs,
        );
        assert(record.fields() =~= seq![
            (
                "show_docker_logs"@,
                self.show_docker_logs.lua_text(pretty, inner_level(indent)),
            ),
        ]);
        record.to_string()
    }
}

impl LuaFmt for Settings {
    open spec fn lua_text(&self, pretty: bool, indent: usize) -> Seq<char> {
        struct_text(
            seq![
                ("paths"@, self.paths.lua_text(pretty, inner_level(indent))),
                ("features"@, self.features.lua_text(pretty, inner_level(indent))),
            ],
            pretty,
            indent,
        )
    }

    fn lua_fmt(&self, pretty: bool, indent: usize) -> (r: String) {
        let record = LuaStructFormat::new(pretty, indent).field("paths", &self.paths).field(
            "features",
            &self.features,
        );
        assert(record.fields() =~= seq![
            ("paths"@, self.paths.lua_text(pretty, inner_level(indent))),
            ("features"@, self.features.lua_text(pretty, inner_level(indent))),
        ]);
        record.to_string()
    }
}

impl Settings {
    /// The two groups that a configuration table gives. A group that the
    /// table lacks, or holds as something that is no such group, is empty:
    /// three empty paths, every feature off.
    pub fn from_table(table: &Table) -> (r: Settings)
        ensures
            r.paths@ == table_paths(table.entries@),
            r.features == table_features(table.entries@),
    {
        let paths = match table.get("paths") {
            Some(value) => match Paths::from_value(value) {
                Ok(paths) => paths,
                Err(_) => Paths::default(),
            },
            None => Paths::default(),
        };
        let features = match table.get("features") {
            Some(value) => match Features::from_value(value) {
                Ok(features) => features,
                Err(_) => Features::default(),
            },
            None => Features::default(),
        };
        Settings { paths, features }
    }
}

/// A table without entries gives the empty configuration: three empty
/// paths and every feature off, whether it is read as a configuration or
/// as one of its groups.
pub proof fn lemma_empty_table_gives_defaults(table: Table)
    requires
        table.entries@.len() == 0,
    ensures
        table_paths(table.entries@) == no_paths(),
        table_features(table.entries@) == no_features(),
        paths_of(Value::Table(table)) == Ok::<PathsView, BridgeError>(no_paths()),
        features_of(Value::Table(table)) == Ok::<Features, BridgeError>(no_features()),
{
}

/// A configuration table never fails to convert, whatever it holds and
/// whatever it lacks: each group is read from its field, and is empty
/// where the field gives none.
pub proof fn lemma_table_always_converts(table: Table)
    ensures
        paths_of(Value::Table(table)) is Ok,
        features_of(Value::Table(table)) is Ok,
{
}

/// One path of the group under a held lock.
fn read_path<'a>(guard: &MutexGuard<'a, Paths>, field: PathField) -> (r: String)
    ensures
        r@ == path_at(guarded_paths(*guard)@, field),
{
    held_paths(guard).get(field).clone()
}

/// Writes one path of the group under a held lock: the group then has
/// `path` in that field, and every other field as it had it.
fn write_path<'a>(guard: &mut MutexGuard<'a, Paths>, field: PathField, path: String)
    ensures
        guarded_paths(*final(guard))@ == with_path(guarded_paths(*old(guard))@, field, path@),
{
    let mut paths = held_paths(guard).duplicate();
    paths.set(field, path);
    put_paths(guard, paths);
}

impl Config {
    /// The groups that the storage of the configuration was made with.
    pub closed spec fn made_with(&self) -> Settings {
        Settings { paths: first_paths(*self.paths), features: first_features(*self.features) }
    }

    /// A configuration of its own, with new storage that holds `paths`
    /// and `features`.
    pub fn new(paths: Paths, features: Features) -> (r: Config)
        ensures
            r.made_with() == (Settings { paths, features }),
    {
        Config {
            paths: Arc::new(new_paths_lock(paths)),
            features: Arc::new(new_features_lock(features)),
        }
    }

    /// A second handle on the same storage.
    pub fn alias(&self) -> (r: Config)
        ensures
            r == *self,
    {
        Config { paths: share(&self.paths), features: share(&self.features) }
    }

    /// Whether both handles are on the same storage, for both groups.
    pub fn shares_storage(&self, other: &Config) -> (r: bool)
        ensures
            r == (*self == *other),
    {
        same_cell(&self.paths, &other.paths) && same_cell(&self.features, &other.features)
    }

    /// The path group as it is now, read as a whole under its lock.
    pub fn get_paths(&self) -> (r: Paths) {
        let guard = lock(&self.paths);
        held_paths(&guard).duplicate()
    }

    /// Replaces the path group as a whole under its lock.
    pub fn set_paths(&self, paths: Paths) {
        let mut guard = lock(&self.paths);
        put_paths(&mut guard, paths);
    }

    /// One path as it is now, read under the lock of the path group.
    pub fn get_path(&self, field: PathField) -> (r: String) {
        let guard = lock(&self.paths);
        read_path(&guard, field)
    }

    /// Writes one path. The lock of the path group is held from reading
    /// the group to writing it back, so that no other write is lost and no
    /// reader sees the group half written.
    pub fn set_path(&self, field: PathField, path: String) {
        let mut guard = lock(&self.paths);
        write_path(&mut guard, field, path);
    }

    /// The feature group as it is now, read under its lock.
    pub fn get_features(&self) -> (r: Features) {
        let guard = lock(&self.features);
        *held_features(&guard)
    }

    /// Replaces the feature group under its lock.
    pub fn set_features(&self, features: Features) {
        let mut guard = lock(&self.features);
        put_features(&mut guard, features);
    }

    /// Both groups as they are now, each read under its own lock.
    pub fn snapshot(&self) -> (r: Settings) {
        let paths = self.get_paths();
        let features = self.get_features();
        Settings { paths, features }
    }

    /// The configuration that `value` gives. A table gives a configuration
    /// of its own, whose storage is made with the groups of the table. A
    /// configuration handle gives a handle on the same storage: nothing is
    /// copied. Any other value gives none.
    pub fn from_value(value: &Value) -> (r: Result<Config, BridgeError>)
        ensures
            match *value {
                Value::Table(t) => r matches Ok(config) && config.made_with().paths@
                    == table_paths(t.entries@) && config.made_with().features == table_features(
                    t.entries@,
                ),
                Value::HostObject(HostObject::Config(handle)) => r == Ok::<Config, BridgeError>(
                    handle,
                ),
                _ => r == Err::<Config, BridgeError>(
                    BridgeError::TypeMismatch { expected: Shape::Config },
                ),
            },
    {
        match value {
            Value::Table(t) => {
                let settings = Settings::from_table(t);
                Ok(Config::new(settings.paths, settings.features))
            },
            Value::HostObject(HostObject::Config(handle)) => Ok(handle.alias()),
            _ => Err(BridgeError::TypeMismatch { expected: Shape::Config }),
        }
    }

    /// The text of the configuration as it is at some moment of the call.
    pub fn lua_fmt(&self, pretty: bool, indent: usize) -> (r: String)
        ensures
            exists|now: Settings| r@ == now.lua_text(pretty, indent),
    {
        let now = self.snapshot();
        now.lua_fmt(pretty, indent)
    }

    /// The text of the configuration at nesting level 0, on one line or,
    /// with `pretty`, on a line for each field.
    pub fn to_display(&self, pretty: bool) -> (r: String)
        ensures
            exists|now: Settings| r@ == now.lua_text(pretty, 0),
    {
        self.lua_fmt(pretty, 0)
    }
}

impl Default for Config {
    fn default() -> (r: Config)
        ensures
            r.made_with().paths@ == no_paths(),
            r.made_with().features == no_features(),
    {
        Config::new(Paths::default(), Features::default())
    }
}

} // verus!
