//! The locker's configuration, read from a TOML document.
//!
//! A document may hold the sections `timer`, `locker`, `auth` and `saver`.
//! Every setting that is missing, or has the wrong type, keeps its default.

use vstd::prelude::*;
use crate::seq_facts::lemma_push_contains;
use crate::toml_access::{
    parse_document, table_get, table_lookup, toml_as_bool, toml_as_integer, toml_as_slice,
    toml_as_str, toml_as_table, toml_parse, value_as_bool, value_as_integer, value_as_slice,
    value_as_str, value_as_table,
};

verus! {

/// Errors met while reading the configuration.
#[derive(Clone, Copy, Debug, PartialEq, Eq, Structural)]
pub enum Error {
    /// The configuration file is not valid TOML.
    Parse,
}

/// Timer settings, in seconds.
#[derive(Clone, Copy, Debug, PartialEq, Eq, Structural)]
pub struct Timer {
    pub beat: u32,
    pub timeout: u32,
    pub lock: Option<u32>,
    pub blank: Option<u32>,
}

/// The timer settings used when the configuration does not give them.
pub open spec fn timer_default() -> Timer {
    Timer { beat: 30, timeout: 360, lock: None, blank: None }
}

impl Default for Timer {
    fn default() -> (t: Timer)
        ensures
            t == timer_default(),
    {
        Timer { beat: 30, timeout: 360, lock: None, blank: None }
    }
}

/// Server settings (there are none yet).
#[derive(Clone, Copy, Debug, PartialEq, Eq, Structural)]
pub struct Server {}

/// Settings of the locker itself.
#[derive(Clone, Debug)]
pub struct Locker {
    /// The X11 display to open; the default display when `None`.
    pub display: Option<String>,
    /// Whether DPMS may be used to power the monitor off.
    pub dpms: bool,
}

/// The abstract value of the locker settings.
pub struct LockerView {
    pub display: Option<Seq<char>>,
    pub dpms: bool,
}

/// The view of an optional string.
pub open spec fn opt_text(s: Option<String>) -> Option<Seq<char>> {
    match s {
        Some(s) => Some(s@),
        None => None,
    }
}

impl View for Locker {
    type V = LockerView;

    open spec fn view(&self) -> LockerView {
        LockerView { display: opt_text(self.display), dpms: self.dpms }
    }
}

/// The locker settings used when the configuration does not give them.
pub open spec fn locker_default() -> LockerView {
    LockerView { display: None, dpms: true }
}

impl Default for Locker {
    fn default() -> (l: Locker)
        ensures
            l@ == locker_default(),
    {
        Locker { display: None, dpms: true }
    }
}

impl Locker {
    /// A copy of these settings.
    pub fn duplicate(&self) -> (l: Locker)
        ensures
            l@ == self@,
    {
        let display = match &self.display {
            Some(name) => Some(name.clone()),
            None => None,
        };
        Locker { display, dpms: self.dpms }
    }
}

/// Settings of the authentication modules: one table per module.
#[derive(Clone, Debug)]
pub struct Auth(toml::Table);

impl View for Auth {
    type V = Map<String, toml::Value>;

    closed spec fn view(&self) -> Map<String, toml::Value> {
        self.0@
    }
}

/// The table stored under `key` in `t`, when there is a value there and it
/// is a table.
pub open spec fn sub_table(t: Map<String, toml::Value>, key: Seq<char>) -> Option<
    Map<String, toml::Value>,
> {
    match table_lookup(t, key) {
        Some(v) => toml_as_table(v),
        None => None,
    }
}

/// A table, or the empty table in its place.
pub open spec fn table_or_empty(t: Option<Map<String, toml::Value>>) -> Map<String, toml::Value> {
    match t {
        Some(t) => t,
        None => Map::empty(),
    }
}

impl Auth {
    /// The settings of the authentication module `name`: its table, or an
    /// empty table when there is none.
    pub fn get(&self, name: &str) -> (t: toml::Table)
        ensures
            t@ == table_or_empty(sub_table(self@, name@)),
    {
        match section(&self.0, name) {
            Some(table) => table.clone(),
            None => toml::Table::new(),
        }
    }
}

/// The saver settings: which savers to use, and a table for each.
pub struct Saver {
    using: Vec<String>,
    table: Vec<(String, toml::Table)>,
}

/// The map that a list of (name, table) entries stands for; a later entry
/// replaces an earlier one of the same name.
pub open spec fn entries_map(s: Seq<(String, toml::Table)>) -> Map<
    Seq<char>,
    Map<String, toml::Value>,
>
    decreases s.len(),
{
    if s.len() == 0 {
        Map::empty()
    } else {
        entries_map(s.drop_last()).insert(s.last().0@, s.last().1@)
    }
}

/// The abstract value of the saver settings.
pub struct SaverView {
    /// The names of the savers to use, in order.
    pub using: Seq<Seq<char>>,
    /// The settings table of each saver.
    pub tables: Map<Seq<char>, Map<String, toml::Value>>,
}

/// The texts of a sequence of strings.
pub open spec fn texts(s: Seq<String>) -> Seq<Seq<char>> {
    s.map_values(|x: String| x@)
}

impl View for Saver {
    type V = SaverView;

    closed spec fn view(&self) -> SaverView {
        SaverView { using: texts(self.using@), tables: entries_map(self.table@) }
    }
}

/// When the entry at `j` is the last one named `k`, the map holds its table
/// under `k`; and `k` is in the map exactly when some entry is named `k`.
proof fn lemma_entries_map_lookup(s: Seq<(String, toml::Table)>, k: Seq<char>)
    ensures
        entries_map(s).contains_key(k) <==> exists|i: int| 0 <= i < s.len() && #[trigger] s[i].0@ == k,
        forall|j: int|
            0 <= j < s.len() && s[j].0@ == k && (forall|m: int| j < m < s.len() ==> #[trigger] s[m].0@ != k)
                ==> entries_map(s)[k] == #[trigger] s[j].1@,
    decreases s.len(),
{
    if s.len() > 0 {
        let p = s.drop_last();
        lemma_entries_map_lookup(p, k);
        assert forall|i: int| 0 <= i < p.len() implies #[trigger] p[i] == s[i] by {}
        if entries_map(s).contains_key(k) && s.last().0@ != k {
            let i = choose|i: int| 0 <= i < p.len() && #[trigger] p[i].0@ == k;
            assert(s[i].0@ == k);
        }
        if exists|i: int| 0 <= i < s.len() && #[trigger] s[i].0@ == k {
            let i = choose|i: int| 0 <= i < s.len() && #[trigger] s[i].0@ == k;
            if i < p.len() {
                assert(p[i].0@ == k);
            }
        }
        assert forall|j: int|
            0 <= j < s.len() && s[j].0@ == k && (forall|m: int| j < m < s.len() ==> #[trigger] s[m].0@ != k)
                implies entries_map(s)[k] == #[trigger] s[j].1@ by {
            if j < p.len() {
                assert(s[s.len() - 1].0@ != k);
                assert(p[j].0@ == k);
                assert forall|m: int| j < m < p.len() implies #[trigger] p[m].0@ != k by {
                    assert(s[m].0@ != k);
                }
            }
        }
    }
}

impl Saver {
    /// No savers.
    pub fn new() -> (s: Saver)
        ensures
            s@.using == Seq::<Seq<char>>::empty(),
            s@.tables == Map::<Seq<char>, Map<String, toml::Value>>::empty(),
    {
        let s = Saver { using: Vec::new(), table: Vec::new() };
        assert(texts(s.using@) =~= Seq::<Seq<char>>::empty());
        s
    }

    /// Appends a saver to use, with its settings table.
    fn add(&mut self, name: &str, table: toml::Table)
        ensures
            final(self)@.using == old(self)@.using.push(name@),
            final(self)@.tables == old(self)@.tables.insert(name@, table@),
    {
        self.using.push(name.to_owned());
        self.table.push((name.to_owned(), table));
        assert(self.table@.drop_last() =~= old(self).table@);
        assert(texts(self.using@) =~= texts(old(self).using@).push(name@));
    }

    /// The settings table of the saver `name`, if it has one.
    fn find(&self, name: &str) -> (r: Option<&toml::Table>)
        ensures
            r is None <==> !self@.tables.contains_key(name@),
            r matches Some(t) ==> self@.tables[name@] == t@,
    {
        let key = name.to_owned();
        let mut i = self.table.len();
        while i > 0
            invariant
                i <= self.table@.len(),
                key@ == name@,
                forall|m: int| i <= m < self.table@.len() ==> #[trigger] self.table@[m].0@ != name@,
            decreases i,
        {
            i = i - 1;
            if self.table[i].0 == key {
                proof {
                    lemma_entries_map_lookup(self.table@, name@);
                }
                return Some(&self.table[i].1);
            }
        }
        proof {
            lemma_entries_map_lookup(self.table@, name@);
        }
        None
    }
}

/// The whole configuration.
pub struct Config {
    timer: Timer,
    server: Server,
    locker: Locker,
    auth: Auth,
    saver: Saver,
}

/// The abstract value of a configuration.
pub struct ConfigView {
    pub timer: Timer,
    pub locker: LockerView,
    pub auth: Map<String, toml::Value>,
    pub saver: SaverView,
}

impl View for Config {
    type V = ConfigView;

    closed spec fn view(&self) -> ConfigView {
        ConfigView {
            timer: self.timer,
            locker: self.locker@,
            auth: self.auth@,
            saver: self.saver@,
        }
    }
}

/// The value stored under `key` in an optional section.
pub open spec fn entry(section: Option<Map<String, toml::Value>>, key: Seq<char>) -> Option<
    toml::Value,
> {
    match section {
        Some(t) => table_lookup(t, key),
        None => None,
    }
}

/// The integer stored under `key` in an optional section.
pub open spec fn integer_entry(section: Option<Map<String, toml::Value>>, key: Seq<char>) -> Option<
    i64,
> {
    match entry(section, key) {
        Some(v) => toml_as_integer(v),
        None => None,
    }
}

/// The string stored under `key` in an optional section.
pub open spec fn str_entry(section: Option<Map<String, toml::Value>>, key: Seq<char>) -> Option<
    Seq<char>,
> {
    match entry(section, key) {
        Some(v) => toml_as_str(v),
        None => None,
    }
}

/// The boolean stored under `key` in an optional section.
pub open spec fn bool_entry(section: Option<Map<String, toml::Value>>, key: Seq<char>) -> Option<
    bool,
> {
    match entry(section, key) {
        Some(v) => toml_as_bool(v),
        None => None,
    }
}

/// The array stored under `key` in an optional section.
pub open spec fn array_entry(section: Option<Map<String, toml::Value>>, key: Seq<char>) -> Option<
    Seq<toml::Value>,
> {
    match entry(section, key) {
        Some(v) => toml_as_slice(v),
        None => None,
    }
}

/// An integer setting narrowed to `u32`, as the `as` cast does.
pub open spec fn seconds(i: i64) -> u32 {
    i as u32
}

/// The timer settings that a document gives.
pub open spec fn timer_of(root: Map<String, toml::Value>) -> Timer {
    let s = sub_table(root, "timer"@);
    Timer {
        beat: match integer_entry(s, "beat"@) {
            Some(i) => seconds(i),
            None => timer_default().beat,
        },
        timeout: match integer_entry(s, "timeout"@) {
            Some(i) => seconds(i),
            None => timer_default().timeout,
        },
        lock: match integer_entry(s, "lock"@) {
            Some(i) => Some(seconds(i)),
            None => timer_default().lock,
        },
        blank: match integer_entry(s, "blank"@) {
            Some(i) => Some(seconds(i)),
            None => timer_default().blank,
        },
    }
}

/// The locker settings that a document gives: `dpms` is only ever turned
/// off, by an explicit `false`.
pub open spec fn locker_of(root: Map<String, toml::Value>) -> LockerView {
    let s = sub_table(root, "locker"@);
    LockerView {
        display: match str_entry(s, "display"@) {
            Some(d) => Some(d),
            None => locker_default().display,
        },
        dpms: if bool_entry(s, "dpms"@) == Some(false) {
            false
        } else {
            locker_default().dpms
        },
    }
}

/// The authentication settings that a document gives.
pub open spec fn auth_of(root: Map<String, toml::Value>) -> Map<String, toml::Value> {
    table_or_empty(sub_table(root, "auth"@))
}

/// The names among a sequence of values that are strings, in order.
pub open spec fn names_of(list: Seq<toml::Value>) -> Seq<Seq<char>>
    decreases list.len(),
{
    if list.len() == 0 {
        Seq::empty()
    } else {
        match toml_as_str(list.last()) {
            Some(name) => names_of(list.drop_last()).push(name),
            None => names_of(list.drop_last()),
        }
    }
}

/// The saver names that a document lists in `saver.use`.
pub open spec fn saver_names_of(root: Map<String, toml::Value>) -> Seq<Seq<char>> {
    match array_entry(sub_table(root, "saver"@), "use"@) {
        Some(list) => names_of(list),
        None => Seq::empty(),
    }
}

/// The settings table of each listed saver: the `saver` section's table of
/// that name, or an empty table.
pub open spec fn saver_tables_of(root: Map<String, toml::Value>) -> Map<
    Seq<char>,
    Map<String, toml::Value>,
> {
    let s = sub_table(root, "saver"@);
    Map::new(
        |n: Seq<char>| saver_names_of(root).contains(n),
        |n: Seq<char>|
            table_or_empty(
                match s {
                    Some(t) => sub_table(t, n),
                    None => None,
                },
            ),
    )
}

/// The configuration that a document gives.
pub open spec fn config_of(root: Map<String, toml::Value>) -> ConfigView {
    ConfigView {
        timer: timer_of(root),
        locker: locker_of(root),
        auth: auth_of(root),
        saver: SaverView { using: saver_names_of(root), tables: saver_tables_of(root) },
    }
}

/// The optional view of an optional table.
pub open spec fn opt_table(t: Option<&toml::Table>) -> Option<Map<String, toml::Value>> {
    match t {
        Some(t) => Some(t@),
        None => None,
    }
}

/// The sub-table stored under `name`, if there is one.
fn section<'a>(t: &'a toml::Table, name: &str) -> (r: Option<&'a toml::Table>)
    ensures
        opt_table(r) == sub_table(t@, name@),
{
    match table_get(t, name) {
        Some(v) => value_as_table(v),
        None => None,
    }
}

/// The value stored under `key` in an optional section.
fn section_entry<'a>(s: Option<&'a toml::Table>, key: &str) -> (r: Option<&'a toml::Value>)
    ensures
        r is None <==> entry(opt_table(s), key@) is None,
        r matches Some(v) ==> entry(opt_table(s), key@) == Some(*v),
{
    match s {
        Some(t) => table_get(t, key),
        None => None,
    }
}

impl Config {
    /// Reads the configuration from the text of the configuration file, or
    /// from nothing when there is no file: then every setting has its
    /// default. Text that is not valid TOML is refused with `Error::Parse`.
    pub fn load(content: Option<&str>) -> (r: Result<Config, Error>)
        ensures
            content is None ==> (r matches Ok(c) && c@ == config_of(Map::empty())),
            content matches Some(text) ==> match toml_parse(text@) {
                Some(root) => r matches Ok(c) && c@ == config_of(root),
                None => r == Err::<Config, Error>(Error::Parse),
            },
    {
        match content {
            None => Ok(Config::from_table(&toml::Table::new())),
            Some(text) => match parse_document(text) {
                Some(root) => Ok(Config::from_table(&root)),
                None => Err(Error::Parse),
            },
        }
    }

    /// Builds the configuration from a parsed document.
    pub fn from_table(root: &toml::Table) -> (c: Config)
        ensures
            c@ == config_of(root@),
    {
        Config {
            timer: timer_from(root),
            server: Server {},
            locker: locker_from(root),
            auth: auth_from(root),
            saver: saver_from(root),
        }
    }

    /// The timer settings.
    pub fn timer(&self) -> (t: Timer)
        ensures
            t == self@.timer,
    {
        self.timer
    }

    /// The server settings.
    pub fn server(&self) -> (s: Server)
        ensures
            s == (Server {}),
    {
        self.server
    }

    /// The locker settings.
    pub fn locker(&self) -> (l: Locker)
        ensures
            l@ == self@.locker,
    {
        self.locker.duplicate()
    }

    /// The authentication settings.
    pub fn auth(&self) -> (a: Auth)
        ensures
            a@ == self@.auth,
    {
        Auth(self.auth.0.clone())
    }

    /// The settings table of the saver `name`, or an empty table.
    pub fn saver(&self, name: &str) -> (t: toml::Table)
        ensures
            t@ == (if self@.saver.tables.contains_key(name@) {
                self@.saver.tables[name@]
            } else {
                Map::empty()
            }),
    {
        match self.saver.find(name) {
            Some(t) => t.clone(),
            None => toml::Table::new(),
        }
    }

    /// The names of the savers to use, in order.
    pub fn savers(&self) -> (s: &[String])
        ensures
            texts(s@) == self@.saver.using,
    {
        self.saver.using.as_slice()
    }
}

/// The timer settings of a document.
fn timer_from(root: &toml::Table) -> (t: Timer)
    ensures
        t == timer_of(root@),
{
    let mut config = Timer::default();
    let s = section(root, "timer");
    if let Some(v) = section_entry(s, "beat") {
        if let Some(value) = value_as_integer(v) {
            config.beat = value as u32;
        }
    }
    if let Some(v) = section_entry(s, "timeout") {
        if let Some(value) = value_as_integer(v) {
            config.timeout = value as u32;
        }
    }
    if let Some(v) = section_entry(s, "lock") {
        if let Some(value) = value_as_integer(v) {
            config.lock = Some(value as u32);
        }
    }
    if let Some(v) = section_entry(s, "blank") {
        if let Some(value) = value_as_integer(v) {
            config.blank = Some(value as u32);
        }
    }
    config
}

/// The locker settings of a document.
fn locker_from(root: &toml::Table) -> (l: Locker)
    ensures
        l@ == locker_of(root@),
{
    let mut config = Locker::default();
    let s = section(root, "locker");
    if let Some(v) = section_entry(s, "display") {
        if let Some(value) = value_as_str(v) {
            config.display = Some(value.to_owned());
        }
    }
    if let Some(v) = section_entry(s, "dpms") {
        if let Some(false) = value_as_bool(v) {
            config.dpms = false;
        }
    }
    config
}

/// The authentication settings of a document.
fn auth_from(root: &toml::Table) -> (a: Auth)
    ensures
        a@ == auth_of(root@),
{
    match section(root, "auth") {
        Some(table) => Auth(table.clone()),
        None => Auth(toml::Table::new()),
    }
}

/// The saver settings of a document.
fn saver_from(root: &toml::Table) -> (s: Saver)
    ensures
        s@.using == saver_names_of(root@),
        s@.tables == saver_tables_of(root@),
{
    let mut config = Saver::new();
    let s = section(root, "saver");
    if let Some(table) = s {
        if let Some(v) = table_get(table, "use") {
            if let Some(list) = value_as_slice(v) {
                let ghost sec = table@;
                let ghost tbl = |n: Seq<char>| table_or_empty(sub_table(sec, n));
                assert(list@.take(0) =~= Seq::<toml::Value>::empty());
                for i in 0..list.len()
                    invariant
                        sec == table@,
                        config@.using == names_of(list@.take(i as int)),
                        config@.tables =~= Map::new(
                            |n: Seq<char>| names_of(list@.take(i as int)).contains(n),
                            |n: Seq<char>| table_or_empty(sub_table(sec, n)),
                        ),
                {
                    assert(list@.take(i + 1).drop_last() =~= list@.take(i as int));
                    if let Some(name) = value_as_str(&list[i]) {
                        let t = match section(table, name) {
                            Some(t) => t.clone(),
                            None => toml::Table::new(),
                        };
                        config.add(name, t);
                        let ghost before = names_of(list@.take(i as int));
                        assert(names_of(list@.take(i + 1)) == before.push(name@));
                        assert forall|n: Seq<char>| #[trigger]
                            before.push(name@).contains(n) <==> (before.contains(n) || n == name@) by {
                            lemma_push_contains(before, name@, n);
                        }
                    } else {
                        assert(names_of(list@.take(i + 1)) == names_of(list@.take(i as int)));
                    }
                }
                assert(list@.take(list@.len() as int) =~= list@);
                return config;
            }
        }
    }
    assert(config@.tables =~= saver_tables_of(root@));
    config
}

/// Without a configuration document every setting has its default: the
/// default timer and locker settings, no authentication settings and no
/// savers.
pub proof fn lemma_empty_document_defaults()
    ensures
        config_of(Map::empty()).timer == timer_default(),
        config_of(Map::empty()).locker == locker_default(),
        config_of(Map::empty()).auth == Map::<String, toml::Value>::empty(),
        config_of(Map::empty()).saver.using == Seq::<Seq<char>>::empty(),
        config_of(Map::empty()).saver.tables == Map::<Seq<char>, Map<String, toml::Value>>::empty(),
{
    let root = Map::<String, toml::Value>::empty();
    assert(sub_table(root, "saver"@) is None);
    assert(saver_tables_of(root) =~= Map::<Seq<char>, Map<String, toml::Value>>::empty());
}

/// DPMS is turned off only by an explicit `dpms = false` in the `locker`
/// section; any other document keeps it on.
pub proof fn lemma_dpms_off_only_when_asked(root: Map<String, toml::Value>)
    ensures
        !locker_of(root).dpms <==> bool_entry(sub_table(root, "locker"@), "dpms"@) == Some(false),
{
}

/// The configured display is the string under `display` in the `locker`
/// section, whenever there is one, whatever else the section holds; with no
/// such string the default display is used.
pub proof fn lemma_display_is_the_configured_string(root: Map<String, toml::Value>)
    ensures
        config_of(root).locker.display == match sub_table(root, "locker"@) {
            Some(section) => match table_lookup(section, "display"@) {
                Some(value) => toml_as_str(value),
                None => None,
            },
            None => None,
        },
{
}

/// Every saver listed in `saver.use`, wherever it stands in the list, gets
/// the `saver` section's table under its name (an empty table when there is
/// none), and only listed savers get a table.
pub proof fn lemma_listed_saver_gets_its_table(root: Map<String, toml::Value>, name: Seq<char>)
    ensures
        config_of(root).saver.tables.contains_key(name) <==> config_of(root).saver.using.contains(
            name,
        ),
        config_of(root).saver.using.contains(name) ==> config_of(root).saver.tables[name]
            == match sub_table(root, "saver"@) {
            Some(section) => match table_lookup(section, name) {
                Some(value) => match toml_as_table(value) {
                    Some(t) => t,
                    None => Map::empty(),
                },
                None => Map::empty(),
            },
            None => Map::empty(),
        },
{
}

} // verus!
