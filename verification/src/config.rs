//! The keybinding table: the defaults, and how the bindings of a
//! configuration text are laid over them.

use vstd::prelude::*;
use vstd::string::*;
use vstd::std_specs::cmp::PartialEqSpecImpl;
use crate::key_shortcut::{
    chord_text, elements_of, fault_text, shortcut_of_elements, InvalidKeybind, KeyCode, KeyModifiers,
    KeyShortcut, KeybindFault,
};
use crate::operations::{operation_name, operation_named, Operation, UnknownOperation};

verus! {

/// One entry of the table: a chord and the operation it triggers.
pub type Binding = (KeyShortcut, Operation);

/// One entry of a configuration text: the chord as written, and the
/// operation's name where the entry's value is a text.
pub type Entry = (String, Option<String>);

/// Editor configuration.
#[derive(Debug, Clone)]
pub struct Config {
    pub key_mappings: Vec<Binding>,
}

/// Why a configuration was rejected.
#[derive(Debug, Clone)]
pub enum ConfigError {
    /// The text is no well-formed document; the parser's own words.
    Parse(String),
    /// A chord is malformed.
    InvalidKeybind(InvalidKeybind),
    /// A value names no operation.
    UnknownOperation(UnknownOperation),
    /// The value written for this chord is no text.
    ValueNotText(String),
    /// Two entries bind this chord.
    DuplicateShortcut(KeyShortcut),
    /// Two entries bind this operation.
    DuplicateOperation(Operation),
}

/// What a `ConfigError` says, in terms of plain values.
pub enum ConfigFault {
    Parse { words: Seq<char> },
    InvalidKeybind { keybind: Seq<char>, fault: KeybindFault },
    UnknownOperation { name: Seq<char> },
    ValueNotText { keybind: Seq<char> },
    DuplicateShortcut(KeyShortcut),
    DuplicateOperation(Operation),
}

impl View for ConfigError {
    type V = ConfigFault;

    open spec fn view(&self) -> ConfigFault {
        match self {
            ConfigError::Parse(detail) => ConfigFault::Parse { words: detail@ },
            ConfigError::InvalidKeybind(e) => ConfigFault::InvalidKeybind {
                keybind: e.keybind@,
                fault: e.fault,
            },
            ConfigError::UnknownOperation(e) => ConfigFault::UnknownOperation { name: e.name@ },
            ConfigError::ValueNotText(keybind) => ConfigFault::ValueNotText { keybind: keybind@ },
            ConfigError::DuplicateShortcut(shortcut) => ConfigFault::DuplicateShortcut(*shortcut),
            ConfigError::DuplicateOperation(op) => ConfigFault::DuplicateOperation(*op),
        }
    }
}

/// Whether some entry of `bindings` binds `shortcut`.
pub open spec fn shortcut_bound(bindings: Seq<Binding>, shortcut: KeyShortcut) -> bool {
    exists|i: int| 0 <= i < bindings.len() && (#[trigger] bindings[i]).0 == shortcut
}

/// Whether some entry of `bindings` binds `op`.
pub open spec fn operation_bound(bindings: Seq<Binding>, op: Operation) -> bool {
    exists|i: int| 0 <= i < bindings.len() && (#[trigger] bindings[i]).1 == op
}

/// No two entries share a chord, and no two share an operation.
pub open spec fn is_bijection(bindings: Seq<Binding>) -> bool {
    forall|i: int, j: int|
        0 <= i < j < bindings.len() ==> (#[trigger] bindings[i]).0 != (#[trigger] bindings[j]).0
            && bindings[i].1 != bindings[j].1
}

/// The operation that the first entry for `shortcut` names, if there is one.
pub open spec fn resolve(bindings: Seq<Binding>, shortcut: KeyShortcut) -> Option<Operation>
    decreases bindings.len(),
{
    if bindings.len() == 0 {
        None
    } else if bindings[0].0 == shortcut {
        Some(bindings[0].1)
    } else {
        resolve(bindings.drop_first(), shortcut)
    }
}

/// Whether a default entry stays when `overrides` are laid over it: neither
/// its chord nor its operation is bound anew.
pub open spec fn survives(overrides: Seq<Binding>) -> spec_fn(Binding) -> bool {
    |entry: Binding| !shortcut_bound(overrides, entry.0) && !operation_bound(overrides, entry.1)
}

/// `overrides` laid over `defaults`: the defaults that stay, then the
/// overrides.
pub open spec fn merged(defaults: Seq<Binding>, overrides: Seq<Binding>) -> Seq<Binding> {
    defaults.filter(survives(overrides)) + overrides
}

/// The fault in adding `entry` to `admitted`, if there is one: its chord is
/// taken, or else its operation is.
pub open spec fn conflict(admitted: Seq<Binding>, entry: Binding) -> Option<ConfigFault> {
    if shortcut_bound(admitted, entry.0) {
        Some(ConfigFault::DuplicateShortcut(entry.0))
    } else if operation_bound(admitted, entry.1) {
        Some(ConfigFault::DuplicateOperation(entry.1))
    } else {
        None
    }
}

/// `overrides` admitted one by one, each checked against those before it.
pub open spec fn admitted(overrides: Seq<Binding>) -> Result<Seq<Binding>, ConfigFault>
    decreases overrides.len(),
{
    if overrides.len() == 0 {
        Ok(Seq::<Binding>::empty())
    } else {
        match admitted(overrides.drop_last()) {
            Err(fault) => Err(fault),
            Ok(before) => match conflict(before, overrides.last()) {
                Some(fault) => Err(fault),
                None => Ok(before.push(overrides.last())),
            },
        }
    }
}

/// The table that `overrides` give when laid over `defaults`, or the first
/// fault among the overrides.
pub open spec fn built(defaults: Seq<Binding>, overrides: Seq<Binding>) -> Result<
    Seq<Binding>,
    ConfigFault,
> {
    match admitted(overrides) {
        Err(fault) => Err(fault),
        Ok(_) => Ok(merged(defaults, overrides)),
    }
}

/// The views of the entries of a configuration text.
pub open spec fn entry_views(entries: Seq<Entry>) -> Seq<(Seq<char>, Option<Seq<char>>)> {
    Seq::new(
        entries.len(),
        |i: int|
            (
                entries[i].0@,
                match entries[i].1 {
                    Some(name) => Some(name@),
                    None => None,
                },
            ),
    )
}

/// The binding that one entry of a configuration text writes down.
pub open spec fn binding_of(entry: (Seq<char>, Option<Seq<char>>)) -> Result<
    Binding,
    ConfigFault,
> {
    match shortcut_of_elements(elements_of(entry.0)) {
        Err(fault) => Err(ConfigFault::InvalidKeybind { keybind: entry.0, fault }),
        Ok(shortcut) => match entry.1 {
            None => Err(ConfigFault::ValueNotText { keybind: entry.0 }),
            Some(name) => match operation_named(name) {
                None => Err(ConfigFault::UnknownOperation { name }),
                Some(op) => Ok((shortcut, op)),
            },
        },
    }
}

/// The bindings that the entries of a configuration text write down, read in
/// order, or the first fault: an entry that cannot be read, or one whose chord
/// or operation an earlier entry has bound.
pub open spec fn pairs_of(entries: Seq<(Seq<char>, Option<Seq<char>>)>) -> Result<
    Seq<Binding>,
    ConfigFault,
>
    decreases entries.len(),
{
    if entries.len() == 0 {
        Ok(Seq::<Binding>::empty())
    } else {
        match pairs_of(entries.drop_last()) {
            Err(fault) => Err(fault),
            Ok(before) => match binding_of(entries.last()) {
                Err(fault) => Err(fault),
                Ok(binding) => match conflict(before, binding) {
                    Some(fault) => Err(fault),
                    None => Ok(before.push(binding)),
                },
            },
        }
    }
}

/// Whether some entry cannot be read: its chord is malformed, its value is
/// no text, or its value names no operation.
pub open spec fn unreadable(entries: Seq<(Seq<char>, Option<Seq<char>>)>) -> bool {
    exists|i: int| 0 <= i < entries.len() && (#[trigger] binding_of(entries[i])) is Err
}

/// Whether the entries at `first` and `second` can both be read and bind
/// the same chord, or the same operation.
pub open spec fn clash(
    entries: Seq<(Seq<char>, Option<Seq<char>>)>,
    first: int,
    second: int,
) -> bool {
    binding_of(entries[first]) matches Ok(a) && binding_of(entries[second]) matches Ok(b) && (a.0
        == b.0 || a.1 == b.1)
}

/// Whether two of the entries clash.
pub open spec fn clashing(entries: Seq<(Seq<char>, Option<Seq<char>>)>) -> bool {
    exists|first: int, second: int|
        0 <= first < second < entries.len() && #[trigger] clash(entries, first, second)
}

/// The table that the entries of a configuration text give when laid over
/// `defaults`.
pub open spec fn configured(
    defaults: Seq<Binding>,
    entries: Seq<(Seq<char>, Option<Seq<char>>)>,
) -> Result<Seq<Binding>, ConfigFault> {
    match pairs_of(entries) {
        Err(fault) => Err(fault),
        Ok(overrides) => Ok(merged(defaults, overrides)),
    }
}

/// The table of a configuration text: unreadable if the text is no document,
/// else what the entries of its `keymaps` section give over the defaults.
pub open spec fn config_of_text(text: Seq<char>) -> Result<Seq<Binding>, ConfigFault> {
    match document_section(text, "keymaps"@) {
        Err(words) => Err(ConfigFault::Parse { words }),
        Ok(entries) => configured(default_bindings(), entries),
    }
}

/// A chord of Control and a character.
pub open spec fn ctrl(c: char) -> KeyShortcut {
    KeyShortcut { code: KeyCode::Char(c), modifiers: KeyModifiers::of(false, true, false) }
}

/// A chord of Control, Shift and a character.
pub open spec fn ctrl_shift(c: char) -> KeyShortcut {
    KeyShortcut { code: KeyCode::Char(c), modifiers: KeyModifiers::of(true, true, false) }
}

/// The bindings of an editor that was given no configuration.
pub open spec fn default_bindings() -> Seq<Binding> {
    seq![
        (ctrl('s'), Operation::SaveBufferToFile),
        (ctrl('o'), Operation::OpenFile),
        (ctrl('n'), Operation::CreateNewBuffer),
        (ctrl('h'), Operation::SwitchToNextBuffer),
        (ctrl('l'), Operation::SwitchToPreviousBuffer),
        (ctrl('b'), Operation::OpenBufferPicker),
        (ctrl('f'), Operation::SearchInCurrentBuffer),
        (ctrl('j'), Operation::SearchAndReplaceInCurrentBuffer),
        (ctrl('z'), Operation::Undo),
        (ctrl('y'), Operation::Redo),
        (ctrl_shift('f'), Operation::FindFilesInCWD),
        (ctrl_shift('p'), Operation::FindTextInCWD),
        (ctrl('q'), Operation::Quit),
    ]
}

/// A parse failure of the `toml` crate.
#[verifier::external_type_specification]
#[verifier::external_body]
pub struct ExDocumentError(toml::de::Error);

/// What the `toml` crate reads out of `text` for the table called `section`:
/// the table's entries in the order in which the crate walks them, each with
/// its key and, where its value is a string, that string; a document without
/// such a table has no entries. Where the text is no TOML document: the
/// words in which the crate says so.
pub uninterp spec fn document_section(text: Seq<char>, section: Seq<char>) -> Result<
    Seq<(Seq<char>, Option<Seq<char>>)>,
    Seq<char>,
>;

/// The words in which a parse failure is told.
pub uninterp spec fn failure_words(error: toml::de::Error) -> Seq<char>;

/// Parses `text` with the `toml` crate (`str::parse` into `toml::Table`) and
/// hands out the entries of the table called `section`. The contract gives
/// the outcome a name; it claims only that the outcome depends on the two
/// texts alone.
#[verifier::external_body]
pub(crate) fn read_section(text: &str, section: &str) -> (read: Result<
    Vec<Entry>,
    toml::de::Error,
>)
    ensures
        match read {
            Ok(entries) => document_section(text@, section@) == Ok::<
                Seq<(Seq<char>, Option<Seq<char>>)>,
                Seq<char>,
            >(entry_views(entries@)),
            Err(error) => document_section(text@, section@) == Err::<
                Seq<(Seq<char>, Option<Seq<char>>)>,
                Seq<char>,
            >(failure_words(error)),
        },
{
    let document = text.parse::<toml::Table>()?;
    Ok(
        match document.get(section).and_then(|value| value.as_table()) {
            Some(table) => table.iter().map(
                |(key, value)| (key.clone(), value.as_str().map(String::from)),
            ).collect(),
            None => Vec::new(),
        },
    )
}

/// The words of a parse failure, through its `Display` impl.
#[verifier::external_body]
pub(crate) fn parse_failure_text(error: &toml::de::Error) -> (text: String)
    ensures
        text@ == failure_words(*error),
{
    error.to_string()
}

/// Whether some entry of `bindings` binds `shortcut`.
pub fn binds_shortcut(bindings: &Vec<Binding>, shortcut: KeyShortcut) -> (bound: bool)
    ensures
        bound == shortcut_bound(bindings@, shortcut),
{
    let mut i: usize = 0;
    while i < bindings.len()
        invariant
            i <= bindings.len(),
            forall|j: int| 0 <= j < i ==> (#[trigger] bindings[j]).0 != shortcut,
        decreases bindings.len() - i,
    {
        if bindings[i].0 == shortcut {
            return true;
        }
        i += 1;
    }
    false
}

/// Whether some entry of `bindings` binds `op`.
pub fn binds_operation(bindings: &Vec<Binding>, op: Operation) -> (bound: bool)
    ensures
        bound == operation_bound(bindings@, op),
{
    let mut i: usize = 0;
    while i < bindings.len()
        invariant
            i <= bindings.len(),
            forall|j: int| 0 <= j < i ==> (#[trigger] bindings[j]).1 != op,
        decreases bindings.len() - i,
    {
        if bindings[i].1 == op {
            return true;
        }
        i += 1;
    }
    false
}

/// The fault in adding `entry` to `admitted`, if there is one.
fn find_conflict(admitted: &Vec<Binding>, entry: Binding) -> (found: Option<ConfigError>)
    ensures
        match found {
            Some(e) => conflict(admitted@, entry) == Some(e@),
            None => conflict(admitted@, entry) is None,
        },
{
    if binds_shortcut(admitted, entry.0) {
        Some(ConfigError::DuplicateShortcut(entry.0))
    } else if binds_operation(admitted, entry.1) {
        Some(ConfigError::DuplicateOperation(entry.1))
    } else {
        None
    }
}

impl Config {
    /// No two entries share a chord, and no two share an operation.
    pub open spec fn wf(&self) -> bool {
        is_bijection(self.key_mappings@)
    }

    /// The operation bound to `shortcut`, if any.
    pub fn get(&self, shortcut: &KeyShortcut) -> (op: Option<Operation>)
        ensures
            op == resolve(self.key_mappings@, *shortcut),
    {
        let mut i: usize = 0;
        while i < self.key_mappings.len()
            invariant
                i <= self.key_mappings.len(),
                forall|j: int| 0 <= j < i ==> (#[trigger] self.key_mappings[j]).0 != *shortcut,
            decreases self.key_mappings.len() - i,
        {
            if self.key_mappings[i].0 == *shortcut {
                proof {
                    lemma_resolve_first(self.key_mappings@, *shortcut, i as int);
                }
                return Some(self.key_mappings[i].1);
            }
            i += 1;
        }
        proof {
            lemma_resolve_unbound(self.key_mappings@, *shortcut);
        }
        None
    }

    /// The number of bindings.
    pub fn len(&self) -> (n: usize)
        ensures
            n == self.key_mappings@.len(),
    {
        self.key_mappings.len()
    }

    /// Lays `overrides` over this table. An override takes the place of the
    /// entry that had its operation, and of the entry that had its chord.
    pub fn merge(&self, overrides: &Vec<Binding>) -> (table: Config)
        ensures
            table.key_mappings@ == merged(self.key_mappings@, overrides@),
            self.wf() && is_bijection(overrides@) ==> table.wf(),
    {
        let mut key_mappings: Vec<Binding> = Vec::new();
        let mut i: usize = 0;
        while i < self.key_mappings.len()
            invariant
                i <= self.key_mappings.len(),
                key_mappings@ == self.key_mappings@.take(i as int).filter(survives(overrides@)),
            decreases self.key_mappings.len() - i,
        {
            let entry = self.key_mappings[i];
            proof {
                reveal(Seq::filter);
                assert(self.key_mappings@.take(i as int + 1).drop_last()
                    == self.key_mappings@.take(i as int));
            }
            if !binds_shortcut(overrides, entry.0) && !binds_operation(overrides, entry.1) {
                key_mappings.push(entry);
            }
            i += 1;
        }
        assert(self.key_mappings@.take(self.key_mappings.len() as int) == self.key_mappings@);
        let mut j: usize = 0;
        let ghost kept = key_mappings@;
        while j < overrides.len()
            invariant
                j <= overrides.len(),
                key_mappings@ == kept + overrides@.take(j as int),
            decreases overrides.len() - j,
        {
            key_mappings.push(overrides[j]);
            j += 1;
        }
        assert(overrides@.take(overrides.len() as int) == overrides@);
        proof {
            if self.wf() && is_bijection(overrides@) {
                lemma_merged_is_bijection(self.key_mappings@, overrides@);
            }
        }
        Config { key_mappings }
    }

    /// Builds a table from defaults and overrides. The overrides are taken in
    /// order; one whose chord or whose operation an earlier override has
    /// bound is a fault, and then no table is built at all.
    pub fn build(defaults: &Config, overrides: &Vec<Binding>) -> (table: Result<
        Config,
        ConfigError,
    >)
        ensures
            match table {
                Ok(config) => built(defaults.key_mappings@, overrides@) == Ok::<
                    Seq<Binding>,
                    ConfigFault,
                >(config.key_mappings@) && (defaults.wf() ==> config.wf()),
                Err(e) => built(defaults.key_mappings@, overrides@) == Err::<
                    Seq<Binding>,
                    ConfigFault,
                >(e@),
            },
    {
        let mut seen: Vec<Binding> = Vec::new();
        let mut i: usize = 0;
        while i < overrides.len()
            invariant
                i <= overrides.len(),
                admitted(overrides@.take(i as int)) == Ok::<Seq<Binding>, ConfigFault>(seen@),
                seen@ == overrides@.take(i as int),
                is_bijection(seen@),
            decreases overrides.len() - i,
        {
            proof {
                assert(overrides@.take(i as int + 1).drop_last() == overrides@.take(i as int));
            }
            match find_conflict(&seen, overrides[i]) {
                Some(e) => {
                    proof {
                        lemma_admitted_fault_stays(overrides@, i as int + 1);
                    }
                    return Err(e);
                },
                None => {
                    seen.push(overrides[i]);
                },
            }
            i += 1;
        }
        assert(overrides@.take(overrides.len() as int) == overrides@);
        Ok(defaults.merge(overrides))
    }

    /// Creates a vector of bindings from the entries of a configuration
    /// text, to be laid over the default configuration.
    pub fn keymap_pairs_from_toml_table(table: &Vec<Entry>) -> (pairs: Result<
        Vec<Binding>,
        ConfigError,
    >)
        ensures
            match pairs {
                Ok(found) => pairs_of(entry_views(table@)) == Ok::<Seq<Binding>, ConfigFault>(
                    found@,
                ) && is_bijection(found@),
                Err(e) => pairs_of(entry_views(table@)) == Err::<Seq<Binding>, ConfigFault>(e@),
            },
            pairs is Err <==> unreadable(entry_views(table@)) || clashing(entry_views(table@)),
            pairs matches Ok(found) ==> found@.len() == table@.len() && forall|i: int|
                0 <= i < table@.len() ==> binding_of(#[trigger] entry_views(table@)[i]) == Ok::<
                    Binding,
                    ConfigFault,
                >(found@[i]),
    {
        let mut return_value: Vec<Binding> = Vec::new();
        let ghost entries = entry_views(table@);
        let mut i: usize = 0;
        while i < table.len()
            invariant
                i <= table.len(),
                entries == entry_views(table@),
                pairs_of(entries.take(i as int)) == Ok::<Seq<Binding>, ConfigFault>(
                    return_value@,
                ),
                is_bijection(return_value@),
            decreases table.len() - i,
        {
            proof {
                assert(entries.take(i as int + 1).drop_last() == entries.take(i as int));
                assert(entries.take(i as int + 1).last() == entries[i as int]);
            }
            let shortcut = match KeyShortcut::from_string(table[i].0.as_str()) {
                Ok(shortcut) => shortcut,
                Err(e) => {
                    proof {
                        lemma_pairs_fault_stays(entries, i as int + 1);
                        lemma_pairs_fail_exactly(entries);
                    }
                    return Err(ConfigError::InvalidKeybind(e));
                },
            };
            let name = match &table[i].1 {
                Some(name) => name,
                None => {
                    proof {
                        lemma_pairs_fault_stays(entries, i as int + 1);
                        lemma_pairs_fail_exactly(entries);
                    }
                    return Err(ConfigError::ValueNotText(table[i].0.clone()));
                },
            };
            let op = match Operation::from_string(name.as_str()) {
                Ok(op) => op,
                Err(e) => {
                    proof {
                        lemma_pairs_fault_stays(entries, i as int + 1);
                        lemma_pairs_fail_exactly(entries);
                    }
                    return Err(ConfigError::UnknownOperation(e));
                },
            };
            match find_conflict(&return_value, (shortcut, op)) {
                Some(e) => {
                    proof {
                        lemma_pairs_fault_stays(entries, i as int + 1);
                        lemma_pairs_fail_exactly(entries);
                    }
                    return Err(e);
                },
                None => {
                    return_value.push((shortcut, op));
                },
            }
            i += 1;
        }
        assert(entries.take(table.len() as int) == entries);
        proof {
            lemma_pairs_fail_exactly(entries);
            lemma_pairs_follow_entries(entries);
        }
        Ok(return_value)
    }

    /// Builds the table that the entries of a configuration text give over
    /// the defaults.
    pub fn from_entries(entries: &Vec<Entry>) -> (table: Result<Config, ConfigError>)
        ensures
            match table {
                Ok(config) => configured(default_bindings(), entry_views(entries@)) == Ok::<
                    Seq<Binding>,
                    ConfigFault,
                >(config.key_mappings@) && config.wf(),
                Err(e) => configured(default_bindings(), entry_views(entries@)) == Err::<
                    Seq<Binding>,
                    ConfigFault,
                >(e@),
            },
    {
        match Config::keymap_pairs_from_toml_table(entries) {
            Ok(pairs) => Ok(Config::default().merge(&pairs)),
            Err(e) => Err(e),
        }
    }

    /// Creates a config instance from the text of a configuration file.
    pub fn from_toml_representation(s: &str) -> (table: Result<Config, ConfigError>)
        ensures
            match table {
                Ok(config) => config_of_text(s@) == Ok::<Seq<Binding>, ConfigFault>(
                    config.key_mappings@,
                ) && config.wf(),
                Err(e) => config_of_text(s@) == Err::<Seq<Binding>, ConfigFault>(e@),
            },
    {
        match read_section(s, "keymaps") {
            Ok(entries) => Config::from_entries(&entries),
            Err(error) => Err(ConfigError::Parse(parse_failure_text(&error))),
        }
    }

    /// The configuration for the text of a configuration file, or the
    /// defaults where there is no file.
    pub fn from_file(contents: Option<&str>) -> (table: Result<Config, ConfigError>)
        ensures
            match table {
                Ok(config) => config.wf() && match contents {
                    Some(text) => config_of_text(text@) == Ok::<Seq<Binding>, ConfigFault>(
                        config.key_mappings@,
                    ),
                    None => config.key_mappings@ == default_bindings(),
                },
                Err(e) => contents matches Some(text) && config_of_text(text@) == Err::<
                    Seq<Binding>,
                    ConfigFault,
                >(e@),
            },
    {
        match contents {
            Some(text) => Config::from_toml_representation(text),
            None => Ok(Config::default()),
        }
    }
}

impl Default for Config {
    fn default() -> (table: Config)
        ensures
            table.key_mappings@ == default_bindings(),
            table.wf(),
    {
        let control = KeyModifiers::control();
        let control_shift = KeyModifiers::shift().union(KeyModifiers::control());
        let mut key_mappings: Vec<Binding> = Vec::new();
        key_mappings.push((KeyShortcut::new(KeyCode::Char('s'), control), Operation::SaveBufferToFile));
        key_mappings.push((KeyShortcut::new(KeyCode::Char('o'), control), Operation::OpenFile));
        key_mappings.push((KeyShortcut::new(KeyCode::Char('n'), control), Operation::CreateNewBuffer));
        key_mappings.push(
            (KeyShortcut::new(KeyCode::Char('h'), control), Operation::SwitchToNextBuffer),
        );
        key_mappings.push(
            (KeyShortcut::new(KeyCode::Char('l'), control), Operation::SwitchToPreviousBuffer),
        );
        key_mappings.push((KeyShortcut::new(KeyCode::Char('b'), control), Operation::OpenBufferPicker));
        key_mappings.push(
            (KeyShortcut::new(KeyCode::Char('f'), control), Operation::SearchInCurrentBuffer),
        );
        key_mappings.push(
            (
                KeyShortcut::new(KeyCode::Char('j'), control),
                Operation::SearchAndReplaceInCurrentBuffer,
            ),
        );
        key_mappings.push((KeyShortcut::new(KeyCode::Char('z'), control), Operation::Undo));
        key_mappings.push((KeyShortcut::new(KeyCode::Char('y'), control), Operation::Redo));
        key_mappings.push(
            (KeyShortcut::new(KeyCode::Char('f'), control_shift), Operation::FindFilesInCWD),
        );
        key_mappings.push(
            (KeyShortcut::new(KeyCode::Char('p'), control_shift), Operation::FindTextInCWD),
        );
        key_mappings.push((KeyShortcut::new(KeyCode::Char('q'), control), Operation::Quit));
        proof {
            assert(key_mappings@ == default_bindings());
            lemma_default_is_bijection();
        }
        Config { key_mappings }
    }
}

impl PartialEqSpecImpl for Config {
    open spec fn obeys_eq_spec() -> bool {
        true
    }

    /// Two tables are equal when every chord resolves alike in both.
    open spec fn eq_spec(&self, other: &Config) -> bool {
        forall|shortcut: KeyShortcut|
            resolve(self.key_mappings@, shortcut) == resolve(other.key_mappings@, shortcut)
    }
}

impl PartialEq for Config {
    fn eq(&self, other: &Config) -> (same: bool) {
        let mut i: usize = 0;
        while i < self.key_mappings.len()
            invariant
                i <= self.key_mappings.len(),
                forall|j: int|
                    0 <= j < i ==> resolve(self.key_mappings@, (#[trigger] self.key_mappings[j]).0)
                        == resolve(other.key_mappings@, self.key_mappings[j].0),
            decreases self.key_mappings.len() - i,
        {
            let shortcut = self.key_mappings[i].0;
            if self.get(&shortcut) != other.get(&shortcut) {
                return false;
            }
            i += 1;
        }
        let mut k: usize = 0;
        while k < other.key_mappings.len()
            invariant
                k <= other.key_mappings.len(),
                forall|j: int|
                    0 <= j < k ==> resolve(
                        self.key_mappings@,
                        (#[trigger] other.key_mappings[j]).0,
                    ) == resolve(other.key_mappings@, other.key_mappings[j].0),
            decreases other.key_mappings.len() - k,
        {
            let shortcut = other.key_mappings[k].0;
            if self.get(&shortcut) != other.get(&shortcut) {
                return false;
            }
            k += 1;
        }
        proof {
            assert forall|shortcut: KeyShortcut|
                resolve(self.key_mappings@, shortcut) == resolve(
                    other.key_mappings@,
                    shortcut,
                ) by {
                lemma_resolve_bound(self.key_mappings@, shortcut);
                lemma_resolve_bound(other.key_mappings@, shortcut);
            }
        }
        true
    }
}

impl Eq for Config {

}

/// The sentence that tells of a rejected configuration.
pub open spec fn message_of(error: ConfigError) -> Seq<char> {
    match error {
        ConfigError::Parse(detail) => "Error parsing configuration file: "@ + detail@,
        ConfigError::InvalidKeybind(e) => fault_text(e.fault) + e.keybind@,
        ConfigError::UnknownOperation(e) => "Invalid operation in config: "@ + e.name@,
        ConfigError::ValueNotText(keybind) => "Operation is not a text for keybind: "@ + keybind@,
        ConfigError::DuplicateShortcut(shortcut) => "Duplicate keybinding found: "@ + chord_text(
            shortcut,
        ),
        ConfigError::DuplicateOperation(op) => "Duplicate keymap operation found: "@
            + operation_name(op),
    }
}

impl ConfigError {
    /// A sentence that says what was wrong.
    pub fn message(&self) -> (text: String)
        ensures
            text@ == message_of(*self),
    {
        match self {
            ConfigError::Parse(detail) => String::from_str(
                "Error parsing configuration file: ",
            ).concat(detail.as_str()),
            ConfigError::InvalidKeybind(e) => e.message(),
            ConfigError::UnknownOperation(e) => e.message(),
            ConfigError::ValueNotText(keybind) => String::from_str(
                "Operation is not a text for keybind: ",
            ).concat(keybind.as_str()),
            ConfigError::DuplicateShortcut(shortcut) => String::from_str(
                "Duplicate keybinding found: ",
            ).concat(shortcut.describe().as_str()),
            ConfigError::DuplicateOperation(op) => String::from_str(
                "Duplicate keymap operation found: ",
            ).concat(op.name().as_str()),
        }
    }
}

/// The entry at `at` decides a lookup when no earlier entry binds the chord.
pub proof fn lemma_resolve_first(bindings: Seq<Binding>, shortcut: KeyShortcut, at: int)
    requires
        0 <= at < bindings.len(),
        bindings[at].0 == shortcut,
        forall|j: int| 0 <= j < at ==> (#[trigger] bindings[j]).0 != shortcut,
    ensures
        resolve(bindings, shortcut) == Some(bindings[at].1),
    decreases at,
{
    if at > 0 {
        let rest = bindings.drop_first();
        assert forall|j: int| 0 <= j < at - 1 implies (#[trigger] rest[j]).0 != shortcut by {
            assert(rest[j] == bindings[j + 1]);
        }
        lemma_resolve_first(rest, shortcut, at - 1);
    }
}

/// A chord that no entry binds resolves to nothing.
pub proof fn lemma_resolve_unbound(bindings: Seq<Binding>, shortcut: KeyShortcut)
    requires
        forall|j: int| 0 <= j < bindings.len() ==> (#[trigger] bindings[j]).0 != shortcut,
    ensures
        resolve(bindings, shortcut) is None,
    decreases bindings.len(),
{
    if bindings.len() > 0 {
        let rest = bindings.drop_first();
        assert forall|j: int| 0 <= j < rest.len() implies (#[trigger] rest[j]).0 != shortcut by {
            assert(rest[j] == bindings[j + 1]);
        }
        lemma_resolve_unbound(rest, shortcut);
    }
}

/// A lookup finds an operation exactly for the chords that some entry binds,
/// and then it is the operation of such an entry.
pub proof fn lemma_resolve_bound(bindings: Seq<Binding>, shortcut: KeyShortcut)
    ensures
        resolve(bindings, shortcut) is Some <==> shortcut_bound(bindings, shortcut),
        resolve(bindings, shortcut) matches Some(op) ==> exists|i: int|
            0 <= i < bindings.len() && #[trigger] bindings[i] == (shortcut, op),
    decreases bindings.len(),
{
    if bindings.len() > 0 {
        let rest = bindings.drop_first();
        lemma_resolve_bound(rest, shortcut);
        if bindings[0].0 == shortcut {
            assert(bindings[0] == (shortcut, bindings[0].1));
        } else {
            if shortcut_bound(bindings, shortcut) {
                let i = choose|i: int| 0 <= i < bindings.len() && (#[trigger] bindings[i]).0 == shortcut;
                assert(rest[i - 1] == bindings[i]);
            }
            if shortcut_bound(rest, shortcut) {
                let i = choose|i: int| 0 <= i < rest.len() && (#[trigger] rest[i]).0 == shortcut;
                assert(bindings[i + 1] == rest[i]);
            }
            if resolve(rest, shortcut) is Some {
                let op = resolve(rest, shortcut)->0;
                let i = choose|i: int| 0 <= i < rest.len() && #[trigger] rest[i] == (shortcut, op);
                assert(bindings[i + 1] == rest[i]);
            }
        }
    }
}

/// Once the overrides up to some point are at fault, the fault stays.
pub proof fn lemma_admitted_fault_stays(overrides: Seq<Binding>, upto: int)
    requires
        0 <= upto <= overrides.len(),
        admitted(overrides.take(upto)) is Err,
    ensures
        admitted(overrides) == admitted(overrides.take(upto)),
    decreases overrides.len() - upto,
{
    if upto == overrides.len() {
        assert(overrides.take(upto) == overrides);
    } else {
        assert(overrides.take(upto + 1).drop_last() == overrides.take(upto));
        lemma_admitted_fault_stays(overrides, upto + 1);
    }
}

/// Once the entries up to some point are at fault, the fault stays.
pub proof fn lemma_pairs_fault_stays(entries: Seq<(Seq<char>, Option<Seq<char>>)>, upto: int)
    requires
        0 <= upto <= entries.len(),
        pairs_of(entries.take(upto)) is Err,
    ensures
        pairs_of(entries) == pairs_of(entries.take(upto)),
    decreases entries.len() - upto,
{
    if upto == entries.len() {
        assert(entries.take(upto) == entries);
    } else {
        assert(entries.take(upto + 1).drop_last() == entries.take(upto));
        lemma_pairs_fault_stays(entries, upto + 1);
    }
}

/// Every entry that stays after a filter was an entry before, and entries
/// that stay keep their order.
pub proof fn lemma_filter_keeps_bijection(bindings: Seq<Binding>, keep: spec_fn(Binding) -> bool)
    requires
        is_bijection(bindings),
    ensures
        is_bijection(bindings.filter(keep)),
        forall|i: int|
            0 <= i < bindings.filter(keep).len() ==> keep(#[trigger] bindings.filter(keep)[i])
                && bindings.contains(bindings.filter(keep)[i]),
    decreases bindings.len(),
{
    reveal(Seq::filter);
    if bindings.len() > 0 {
        let front = bindings.drop_last();
        assert forall|i: int, j: int| 0 <= i < j < front.len() implies (#[trigger] front[i]).0 != (
        #[trigger] front[j]).0 && front[i].1 != front[j].1 by {
            assert(front[i] == bindings[i] && front[j] == bindings[j]);
        }
        lemma_filter_keeps_bijection(front, keep);
        let kept = front.filter(keep);
        assert forall|i: int| 0 <= i < kept.len() implies bindings.contains(
            #[trigger] kept[i],
        ) by {
            let k = choose|k: int| 0 <= k < front.len() && front[k] == kept[i];
            assert(bindings[k] == kept[i]);
        }
        if keep(bindings.last()) {
            let all = kept.push(bindings.last());
            assert(bindings[bindings.len() - 1] == bindings.last());
            assert forall|i: int, j: int| 0 <= i < j < all.len() implies (#[trigger] all[i]).0 != (
            #[trigger] all[j]).0 && all[i].1 != all[j].1 by {
                if j == kept.len() {
                    let k = choose|k: int| 0 <= k < front.len() && front[k] == kept[i];
                    assert(bindings[k] == kept[i]);
                    assert(all[i] == bindings[k]);
                    assert(all[j] == bindings[bindings.len() - 1]);
                } else {
                    assert(all[i] == kept[i] && all[j] == kept[j]);
                }
            }
        }
    }
}

/// Laying a conflict-free set of overrides over a conflict-free table gives a
/// conflict-free table.
pub proof fn lemma_merged_is_bijection(defaults: Seq<Binding>, overrides: Seq<Binding>)
    requires
        is_bijection(defaults),
        is_bijection(overrides),
    ensures
        is_bijection(merged(defaults, overrides)),
{
    let kept = defaults.filter(survives(overrides));
    lemma_filter_keeps_bijection(defaults, survives(overrides));
    let all = merged(defaults, overrides);
    assert forall|i: int, j: int| 0 <= i < j < all.len() implies (#[trigger] all[i]).0 != (
    #[trigger] all[j]).0 && all[i].1 != all[j].1 by {
        if j < kept.len() {
            assert(all[i] == kept[i] && all[j] == kept[j]);
        } else if i >= kept.len() {
            assert(all[i] == overrides[i - kept.len()]);
            assert(all[j] == overrides[j - kept.len()]);
        } else {
            assert(all[i] == kept[i]);
            assert(all[j] == overrides[j - kept.len()]);
            assert(survives(overrides)(kept[i]));
        }
    }
}

/// The default table binds no chord and no operation twice.
pub proof fn lemma_default_is_bijection()
    ensures
        is_bijection(default_bindings()),
{
    let table = default_bindings();
    assert(table.len() == 13);
    assert forall|i: int, j: int| 0 <= i < j < table.len() implies (#[trigger] table[i]).0 != (
    #[trigger] table[j]).0 && table[i].1 != table[j].1 by {
        assert(table[0].0.code == KeyCode::Char('s'));
        assert(table[1].0.code == KeyCode::Char('o'));
        assert(table[2].0.code == KeyCode::Char('n'));
        assert(table[3].0.code == KeyCode::Char('h'));
        assert(table[4].0.code == KeyCode::Char('l'));
        assert(table[5].0.code == KeyCode::Char('b'));
        assert(table[6].0 == ctrl('f'));
        assert(table[7].0.code == KeyCode::Char('j'));
        assert(table[8].0.code == KeyCode::Char('z'));
        assert(table[9].0.code == KeyCode::Char('y'));
        assert(table[10].0 == ctrl_shift('f'));
        assert(table[11].0.code == KeyCode::Char('p'));
        assert(table[12].0.code == KeyCode::Char('q'));
        assert(table[0].1 == Operation::SaveBufferToFile);
        assert(table[1].1 == Operation::OpenFile);
        assert(table[2].1 == Operation::CreateNewBuffer);
        assert(table[3].1 == Operation::SwitchToNextBuffer);
        assert(table[4].1 == Operation::SwitchToPreviousBuffer);
        assert(table[5].1 == Operation::OpenBufferPicker);
        assert(table[6].1 == Operation::SearchInCurrentBuffer);
        assert(table[7].1 == Operation::SearchAndReplaceInCurrentBuffer);
        assert(table[8].1 == Operation::Undo);
        assert(table[9].1 == Operation::Redo);
        assert(table[10].1 == Operation::FindFilesInCWD);
        assert(table[11].1 == Operation::FindTextInCWD);
        assert(table[12].1 == Operation::Quit);
    }
}

/// Overrides that are admitted are admitted as they stand.
pub proof fn lemma_admitted_is_identity(overrides: Seq<Binding>)
    requires
        admitted(overrides) is Ok,
    ensures
        admitted(overrides) == Ok::<Seq<Binding>, ConfigFault>(overrides),
    decreases overrides.len(),
{
    if overrides.len() > 0 {
        lemma_admitted_is_identity(overrides.drop_last());
        assert(overrides.drop_last().push(overrides.last()) == overrides);
    } else {
        assert(overrides == Seq::<Binding>::empty());
    }
}

/// Two overrides that share a chord, or that share an operation, make the
/// whole build fail: no table is built, and the defaults stay as they are.
pub proof fn lemma_conflict_fails(
    defaults: Seq<Binding>,
    overrides: Seq<Binding>,
    first: int,
    second: int,
)
    requires
        0 <= first < second < overrides.len(),
        overrides[first].0 == overrides[second].0 || overrides[first].1 == overrides[second].1,
    ensures
        built(defaults, overrides) is Err,
{
    let upto = overrides.take(second + 1);
    let before = overrides.take(second);
    assert(upto.drop_last() == before);
    assert(upto.last() == overrides[second]);
    if admitted(before) is Ok {
        lemma_admitted_is_identity(before);
        assert(before[first] == overrides[first]);
    }
    assert(admitted(upto) is Err);
    lemma_admitted_fault_stays(overrides, second + 1);
}

/// The bindings that are read from entries are the bindings of the entries,
/// one for one.
pub proof fn lemma_pairs_follow_entries(entries: Seq<(Seq<char>, Option<Seq<char>>)>)
    requires
        pairs_of(entries) is Ok,
    ensures
        pairs_of(entries)->Ok_0.len() == entries.len(),
        forall|i: int|
            0 <= i < entries.len() ==> binding_of(#[trigger] entries[i]) == Ok::<
                Binding,
                ConfigFault,
            >(pairs_of(entries)->Ok_0[i]),
    decreases entries.len(),
{
    if entries.len() > 0 {
        lemma_pairs_follow_entries(entries.drop_last());
        let before = pairs_of(entries.drop_last())->Ok_0;
        assert forall|i: int| 0 <= i < entries.len() implies binding_of(#[trigger] entries[i])
            == Ok::<Binding, ConfigFault>(pairs_of(entries)->Ok_0[i]) by {
            if i < entries.len() - 1 {
                assert(entries.drop_last()[i] == entries[i]);
            }
        }
    }
}

/// A configuration in which two entries bind the same chord, or the same
/// operation, is rejected as a whole, whatever else it holds.
pub proof fn lemma_conflicting_entries_fail(
    defaults: Seq<Binding>,
    entries: Seq<(Seq<char>, Option<Seq<char>>)>,
    first: int,
    second: int,
)
    requires
        0 <= first < second < entries.len(),
        binding_of(entries[first]) matches Ok(a) && binding_of(entries[second]) matches Ok(b) && (
        a.0 == b.0 || a.1 == b.1),
    ensures
        configured(defaults, entries) is Err,
{
    let upto = entries.take(second + 1);
    let before = entries.take(second);
    assert(upto.drop_last() == before);
    assert(upto.last() == entries[second]);
    if pairs_of(before) is Ok {
        lemma_pairs_follow_entries(before);
        assert(before[first] == entries[first]);
        let admitted = pairs_of(before)->Ok_0;
        assert(admitted[first] == binding_of(entries[first])->Ok_0);
    }
    assert(pairs_of(upto) is Err);
    lemma_pairs_fault_stays(entries, second + 1);
}

/// The entries of a configuration are rejected exactly when one of them
/// cannot be read or two of them clash.
pub proof fn lemma_pairs_fail_exactly(entries: Seq<(Seq<char>, Option<Seq<char>>)>)
    ensures
        pairs_of(entries) is Err <==> unreadable(entries) || clashing(entries),
    decreases entries.len(),
{
    if entries.len() > 0 {
        let front = entries.drop_last();
        let at = entries.len() - 1;
        lemma_pairs_fail_exactly(front);
        assert forall|i: int| 0 <= i < front.len() implies front[i] == entries[i] by {}
        if pairs_of(entries) is Err {
            if pairs_of(front) is Err {
                if unreadable(front) {
                    let i = choose|i: int|
                        0 <= i < front.len() && (#[trigger] binding_of(front[i])) is Err;
                    assert(binding_of(entries[i]) is Err);
                } else {
                    let (i, j) = choose|i: int, j: int|
                        0 <= i < j < front.len() && #[trigger] clash(front, i, j);
                    assert(clash(entries, i, j));
                }
            } else if binding_of(entries.last()) is Err {
                assert(binding_of(entries[at]) is Err);
            } else {
                lemma_pairs_follow_entries(front);
                let before = pairs_of(front)->Ok_0;
                let binding = binding_of(entries.last())->Ok_0;
                if shortcut_bound(before, binding.0) {
                    let k = choose|k: int|
                        0 <= k < before.len() && (#[trigger] before[k]).0 == binding.0;
                    assert(binding_of(front[k]) == Ok::<Binding, ConfigFault>(before[k]));
                    assert(clash(entries, k, at));
                } else {
                    let k = choose|k: int|
                        0 <= k < before.len() && (#[trigger] before[k]).1 == binding.1;
                    assert(binding_of(front[k]) == Ok::<Binding, ConfigFault>(before[k]));
                    assert(clash(entries, k, at));
                }
            }
        }
        if unreadable(entries) {
            let i = choose|i: int|
                0 <= i < entries.len() && (#[trigger] binding_of(entries[i])) is Err;
            if i < at {
                assert(binding_of(front[i]) is Err);
            }
        }
        if clashing(entries) {
            let (i, j) = choose|i: int, j: int|
                0 <= i < j < entries.len() && #[trigger] clash(entries, i, j);
            lemma_conflicting_entries_fail(Seq::<Binding>::empty(), entries, i, j);
        }
    } else {
        assert(!unreadable(entries));
        assert(!clashing(entries));
    }
}

} // verus!
