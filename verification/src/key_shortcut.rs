//! Key chords: the keys and modifiers the editor tells apart, and the
//! grammar by which a configuration writes a chord down.

use vstd::prelude::*;
use vstd::string::*;
use crate::text::{join_by, joined, push_char, split, split_on, str_eq, views};

verus! {

/// A key of the keyboard.
#[derive(Debug, PartialEq, Eq, Hash, Clone, Copy, Structural)]
pub enum KeyCode {
    Backspace,
    Enter,
    Left,
    Right,
    Up,
    Down,
    Home,
    End,
    PageUp,
    PageDown,
    Tab,
    BackTab,
    Delete,
    Insert,
    /// A function key, by its number.
    F(u8),
    /// A key that types a character.
    Char(char),
    /// No key at all.
    Null,
    Esc,
    CapsLock,
    ScrollLock,
    NumLock,
    PrintScreen,
    Pause,
    Menu,
    KeypadBegin,
    /// A media key, by a number of its own.
    Media(u8),
    /// A modifier pressed as a key of its own, by a number of its own.
    Modifier(u8),
}

/// The modifier keys held down with a key.
#[derive(Debug, PartialEq, Eq, Hash, Clone, Copy, Structural)]
pub struct KeyModifiers {
    pub shift: bool,
    pub control: bool,
    pub alt: bool,
    pub super_key: bool,
    pub hyper: bool,
    pub meta: bool,
}

/// What happened to a key.
#[derive(Debug, PartialEq, Eq, Hash, Clone, Copy, Structural)]
pub enum KeyEventKind {
    Press,
    Repeat,
    Release,
}

/// One event of the keyboard.
#[derive(Debug, PartialEq, Eq, Hash, Clone, Copy, Structural)]
pub struct KeyEvent {
    pub code: KeyCode,
    pub modifiers: KeyModifiers,
    pub kind: KeyEventKind,
}

/// A key together with the modifiers held down with it.
#[derive(Debug, PartialEq, Eq, Hash, Clone, Copy, Structural)]
pub struct KeyShortcut {
    pub code: KeyCode,
    pub modifiers: KeyModifiers,
}

/// Why a text is no key chord.
#[derive(Debug, PartialEq, Eq, Clone, Copy, Structural)]
pub enum KeybindFault {
    /// Two elements name a key.
    MultipleKeycodes,
    /// An element is neither a modifier, a named key nor a single character.
    UnknownKey,
    /// Neither a key nor a modifier is named.
    Empty,
}

/// A text that was rejected as a key chord.
#[derive(Debug, Clone)]
pub struct InvalidKeybind {
    /// The text as it was written.
    pub keybind: String,
    pub fault: KeybindFault,
}

impl KeyModifiers {
    /// The set that holds the three common modifiers as the flags say, and
    /// none of the others.
    pub open spec fn of(shift: bool, control: bool, alt: bool) -> KeyModifiers {
        KeyModifiers { shift, control, alt, super_key: false, hyper: false, meta: false }
    }

    /// No modifier.
    #[verifier::allow_in_spec]
    pub fn none() -> KeyModifiers
        returns
            KeyModifiers::of(false, false, false),
    {
        KeyModifiers {
            shift: false,
            control: false,
            alt: false,
            super_key: false,
            hyper: false,
            meta: false,
        }
    }

    /// Shift alone.
    #[verifier::allow_in_spec]
    pub fn shift() -> KeyModifiers
        returns
            KeyModifiers::of(true, false, false),
    {
        KeyModifiers {
            shift: true,
            control: false,
            alt: false,
            super_key: false,
            hyper: false,
            meta: false,
        }
    }

    /// Control alone.
    #[verifier::allow_in_spec]
    pub fn control() -> KeyModifiers
        returns
            KeyModifiers::of(false, true, false),
    {
        KeyModifiers {
            shift: false,
            control: true,
            alt: false,
            super_key: false,
            hyper: false,
            meta: false,
        }
    }

    /// Alt alone.
    #[verifier::allow_in_spec]
    pub fn alt() -> KeyModifiers
        returns
            KeyModifiers::of(false, false, true),
    {
        KeyModifiers {
            shift: false,
            control: false,
            alt: true,
            super_key: false,
            hyper: false,
            meta: false,
        }
    }

    /// The modifiers of either set.
    pub open spec fn spec_union(self, other: KeyModifiers) -> KeyModifiers {
        KeyModifiers {
            shift: self.shift || other.shift,
            control: self.control || other.control,
            alt: self.alt || other.alt,
            super_key: self.super_key || other.super_key,
            hyper: self.hyper || other.hyper,
            meta: self.meta || other.meta,
        }
    }

    /// Whether every modifier of `other` is in this set.
    pub open spec fn spec_contains(&self, other: KeyModifiers) -> bool {
        self.spec_union(other) == *self
    }

    /// No modifier.
    #[verifier::allow_in_spec]
    pub fn empty() -> KeyModifiers
        returns
            KeyModifiers::of(false, false, false),
    {
        KeyModifiers::none()
    }

    /// Whether no modifier is held.
    pub fn is_empty(&self) -> (none: bool)
        ensures
            none == (*self == KeyModifiers::none()),
    {
        !self.shift && !self.control && !self.alt && !self.super_key && !self.hyper && !self.meta
    }

    #[verifier::when_used_as_spec(spec_union)]
    pub fn union(self, other: KeyModifiers) -> (both: KeyModifiers)
        ensures
            both == self.spec_union(other),
    {
        KeyModifiers {
            shift: self.shift || other.shift,
            control: self.control || other.control,
            alt: self.alt || other.alt,
            super_key: self.super_key || other.super_key,
            hyper: self.hyper || other.hyper,
            meta: self.meta || other.meta,
        }
    }

    #[verifier::when_used_as_spec(spec_contains)]
    pub fn contains(&self, other: KeyModifiers) -> (all: bool)
        ensures
            all == self.spec_contains(other),
    {
        (self.shift || !other.shift) && (self.control || !other.control) && (self.alt
            || !other.alt) && (self.super_key || !other.super_key) && (self.hyper || !other.hyper)
            && (self.meta || !other.meta)
    }
}

impl vstd::std_specs::ops::BitOrSpecImpl for KeyModifiers {
    open spec fn obeys_bitor_spec() -> bool {
        true
    }

    open spec fn bitor_req(self, other: KeyModifiers) -> bool {
        true
    }

    open spec fn bitor_spec(self, other: KeyModifiers) -> KeyModifiers {
        self.spec_union(other)
    }
}

impl core::ops::BitOr for KeyModifiers {
    type Output = KeyModifiers;

    fn bitor(self, other: KeyModifiers) -> (both: KeyModifiers) {
        self.union(other)
    }
}

/// The lower-case form of a text, as `str::to_lowercase` gives it.
pub uninterp spec fn lowercased(text: Seq<char>) -> Seq<char>;

/// Folds a text to lower case, through `str::to_lowercase`. The result is
/// a function of the text alone.
#[verifier::external_body]
pub(crate) fn lowercase(text: &str) -> (lower: String)
    ensures
        lower@ == lowercased(text@),
{
    text.to_lowercase()
}

/// The modifier that an element of a chord names, if it names one.
pub open spec fn modifier_named(element: Seq<char>) -> Option<KeyModifiers> {
    if element == "ctrl"@ {
        Some(KeyModifiers::control())
    } else if element == "shift"@ {
        Some(KeyModifiers::shift())
    } else if element == "alt"@ {
        Some(KeyModifiers::alt())
    } else {
        None
    }
}

/// The key that an element of a chord names: one of the named keys, or the
/// single character that the element consists of.
pub open spec fn keycode_named(element: Seq<char>) -> Option<KeyCode> {
    if element == "esc"@ {
        Some(KeyCode::Esc)
    } else if element == "backspace"@ {
        Some(KeyCode::Backspace)
    } else if element == "enter"@ {
        Some(KeyCode::Enter)
    } else if element == "left"@ {
        Some(KeyCode::Left)
    } else if element == "right"@ {
        Some(KeyCode::Right)
    } else if element == "up"@ {
        Some(KeyCode::Up)
    } else if element == "down"@ {
        Some(KeyCode::Down)
    } else if element == "home"@ {
        Some(KeyCode::Home)
    } else if element == "end"@ {
        Some(KeyCode::End)
    } else if element == "pageup"@ {
        Some(KeyCode::PageUp)
    } else if element == "pagedown"@ {
        Some(KeyCode::PageDown)
    } else if element == "tab"@ {
        Some(KeyCode::Tab)
    } else if element == "backtab"@ {
        Some(KeyCode::BackTab)
    } else if element == "delete"@ {
        Some(KeyCode::Delete)
    } else if element == "insert"@ {
        Some(KeyCode::Insert)
    } else if element == "f1"@ {
        Some(KeyCode::F(1))
    } else if element == "f2"@ {
        Some(KeyCode::F(2))
    } else if element == "f3"@ {
        Some(KeyCode::F(3))
    } else if element == "f4"@ {
        Some(KeyCode::F(4))
    } else if element == "f5"@ {
        Some(KeyCode::F(5))
    } else if element == "f6"@ {
        Some(KeyCode::F(6))
    } else if element == "f7"@ {
        Some(KeyCode::F(7))
    } else if element == "f8"@ {
        Some(KeyCode::F(8))
    } else if element == "f9"@ {
        Some(KeyCode::F(9))
    } else if element == "f10"@ {
        Some(KeyCode::F(10))
    } else if element == "f11"@ {
        Some(KeyCode::F(11))
    } else if element == "f12"@ {
        Some(KeyCode::F(12))
    } else if element.len() == 1 {
        Some(KeyCode::Char(element[0]))
    } else {
        None
    }
}

/// The chord that a run of elements builds up, read from left to right.
/// Modifiers gather whatever their order and number; the first element that
/// is no modifier must name a key, and a second such element is a fault.
pub open spec fn gather(elements: Seq<Seq<char>>) -> Result<KeyShortcut, KeybindFault>
    decreases elements.len(),
{
    if elements.len() == 0 {
        Ok(KeyShortcut { code: KeyCode::Null, modifiers: KeyModifiers::none() })
    } else {
        match gather(elements.drop_last()) {
            Err(fault) => Err(fault),
            Ok(so_far) => match modifier_named(elements.last()) {
                Some(modifier) => Ok(
                    KeyShortcut {
                        code: so_far.code,
                        modifiers: so_far.modifiers.spec_union(modifier),
                    },
                ),
                None => if so_far.code != KeyCode::Null {
                    Err(KeybindFault::MultipleKeycodes)
                } else {
                    match keycode_named(elements.last()) {
                        Some(code) => Ok(KeyShortcut { code, modifiers: so_far.modifiers }),
                        None => Err(KeybindFault::UnknownKey),
                    }
                },
            },
        }
    }
}

/// The chord that lower-case elements stand for: what they build up, unless
/// that names neither a key nor a modifier.
pub open spec fn shortcut_of_elements(elements: Seq<Seq<char>>) -> Result<
    KeyShortcut,
    KeybindFault,
> {
    match gather(elements) {
        Err(fault) => Err(fault),
        Ok(shortcut) => if shortcut.spec_is_empty() {
            Err(KeybindFault::Empty)
        } else {
            Ok(shortcut)
        },
    }
}

/// The elements of a chord as written: the text cut at every `+`, each piece
/// folded to lower case.
pub open spec fn elements_of(text: Seq<char>) -> Seq<Seq<char>> {
    split_on(text, '+').map_values(|piece: Seq<char>| lowercased(piece))
}

/// Returns the modifier that a lower-case element names, if any.
fn key_modifier_from_string(s: &str) -> (found: Option<KeyModifiers>)
    ensures
        found == modifier_named(s@),
{
    if str_eq(s, "ctrl") {
        Some(KeyModifiers::control())
    } else if str_eq(s, "shift") {
        Some(KeyModifiers::shift())
    } else if str_eq(s, "alt") {
        Some(KeyModifiers::alt())
    } else {
        None
    }
}

/// Returns the key that a lower-case element names.
fn keycode_from_string(s: &str) -> (found: Result<KeyCode, KeybindFault>)
    ensures
        match found {
            Ok(code) => keycode_named(s@) == Some(code),
            Err(fault) => keycode_named(s@) is None && fault == KeybindFault::UnknownKey,
        },
{
    if str_eq(s, "esc") {
        Ok(KeyCode::Esc)
    } else if str_eq(s, "backspace") {
        Ok(KeyCode::Backspace)
    } else if str_eq(s, "enter") {
        Ok(KeyCode::Enter)
    } else if str_eq(s, "left") {
        Ok(KeyCode::Left)
    } else if str_eq(s, "right") {
        Ok(KeyCode::Right)
    } else if str_eq(s, "up") {
        Ok(KeyCode::Up)
    } else if str_eq(s, "down") {
        Ok(KeyCode::Down)
    } else if str_eq(s, "home") {
        Ok(KeyCode::Home)
    } else if str_eq(s, "end") {
        Ok(KeyCode::End)
    } else if str_eq(s, "pageup") {
        Ok(KeyCode::PageUp)
    } else if str_eq(s, "pagedown") {
        Ok(KeyCode::PageDown)
    } else if str_eq(s, "tab") {
        Ok(KeyCode::Tab)
    } else if str_eq(s, "backtab") {
        Ok(KeyCode::BackTab)
    } else if str_eq(s, "delete") {
        Ok(KeyCode::Delete)
    } else if str_eq(s, "insert") {
        Ok(KeyCode::Insert)
    } else if str_eq(s, "f1") {
        Ok(KeyCode::F(1))
    } else if str_eq(s, "f2") {
        Ok(KeyCode::F(2))
    } else if str_eq(s, "f3") {
        Ok(KeyCode::F(3))
    } else if str_eq(s, "f4") {
        Ok(KeyCode::F(4))
    } else if str_eq(s, "f5") {
        Ok(KeyCode::F(5))
    } else if str_eq(s, "f6") {
        Ok(KeyCode::F(6))
    } else if str_eq(s, "f7") {
        Ok(KeyCode::F(7))
    } else if str_eq(s, "f8") {
        Ok(KeyCode::F(8))
    } else if str_eq(s, "f9") {
        Ok(KeyCode::F(9))
    } else if str_eq(s, "f10") {
        Ok(KeyCode::F(10))
    } else if str_eq(s, "f11") {
        Ok(KeyCode::F(11))
    } else if str_eq(s, "f12") {
        Ok(KeyCode::F(12))
    } else if s.unicode_len() == 1 {
        Ok(KeyCode::Char(s.get_char(0)))
    } else {
        Err(KeybindFault::UnknownKey)
    }
}

impl KeyEvent {
    /// The press of a key with modifiers.
    pub fn new(code: KeyCode, modifiers: KeyModifiers) -> (event: KeyEvent)
        ensures
            event == (KeyEvent { code, modifiers, kind: KeyEventKind::Press }),
    {
        KeyEvent { code, modifiers, kind: KeyEventKind::Press }
    }
}

impl KeyShortcut {
    pub fn new(code: KeyCode, modifiers: KeyModifiers) -> (shortcut: KeyShortcut)
        ensures
            shortcut == (KeyShortcut { code, modifiers }),
    {
        KeyShortcut { code, modifiers }
    }

    /// The chord of a keyboard event: its key and its modifiers.
    pub fn from_key_event(event: &KeyEvent) -> (shortcut: KeyShortcut)
        ensures
            shortcut == (KeyShortcut { code: event.code, modifiers: event.modifiers }),
    {
        KeyShortcut::new(event.code, event.modifiers)
    }

    /// Whether the chord names neither a key nor a modifier.
    pub open spec fn spec_is_empty(&self) -> bool {
        self.code == KeyCode::Null && self.modifiers == KeyModifiers::none()
    }

    /// Whether the chord names neither a key nor a modifier.
    #[verifier::when_used_as_spec(spec_is_empty)]
    pub fn is_empty(&self) -> (empty: bool)
        ensures
            empty == self.spec_is_empty(),
    {
        self.code == KeyCode::Null && self.modifiers.is_empty()
    }

    /// Reads a chord from elements that are already in lower case.
    pub fn from_elements(elements: &Vec<String>) -> (parsed: Result<KeyShortcut, KeybindFault>)
        ensures
            parsed == shortcut_of_elements(views(elements@)),
            parsed matches Ok(shortcut) ==> !shortcut.spec_is_empty(),
    {
        let mut modifiers = KeyModifiers::none();
        let mut code = KeyCode::Null;
        let mut i: usize = 0;
        while i < elements.len()
            invariant
                i <= elements.len(),
                gather(views(elements@).take(i as int)) == Ok::<KeyShortcut, KeybindFault>(
                    KeyShortcut { code, modifiers },
                ),
            decreases elements.len() - i,
        {
            let ghost seen = views(elements@).take(i as int);
            let ghost next = views(elements@).take(i as int + 1);
            proof {
                assert(next.drop_last() == seen);
                assert(next.last() == elements[i as int]@);
                assert(views(elements@).take(elements.len() as int) == views(elements@));
            }
            let element = elements[i].as_str();
            match key_modifier_from_string(element) {
                Some(modifier) => {
                    modifiers = modifiers.union(modifier);
                },
                None => {
                    if code != KeyCode::Null {
                        proof {
                            lemma_gather_fault_stays(views(elements@), i as int + 1);
                        }
                        return Err(KeybindFault::MultipleKeycodes);
                    }
                    match keycode_from_string(element) {
                        Ok(found) => {
                            code = found;
                        },
                        Err(fault) => {
                            proof {
                                lemma_gather_fault_stays(views(elements@), i as int + 1);
                            }
                            return Err(fault);
                        },
                    }
                },
            }
            i += 1;
        }
        assert(views(elements@).take(elements.len() as int) == views(elements@));
        let shortcut = KeyShortcut::new(code, modifiers);
        if shortcut.is_empty() {
            return Err(KeybindFault::Empty);
        }
        Ok(shortcut)
    }

    /// Reads a chord as a configuration writes it: elements joined by `+`,
    /// in any letter case, such as `ctrl+shift+p`.
    pub fn from_string(s: &str) -> (parsed: Result<KeyShortcut, InvalidKeybind>)
        ensures
            match parsed {
                Ok(shortcut) => shortcut_of_elements(elements_of(s@)) == Ok::<
                    KeyShortcut,
                    KeybindFault,
                >(shortcut) && !shortcut.spec_is_empty(),
                Err(e) => shortcut_of_elements(elements_of(s@)) == Err::<
                    KeyShortcut,
                    KeybindFault,
                >(e.fault) && e.keybind@ == s@,
            },
    {
        let pieces = split(s, '+');
        let mut elements: Vec<String> = Vec::new();
        let mut i: usize = 0;
        while i < pieces.len()
            invariant
                i <= pieces.len(),
                views(pieces@) == split_on(s@, '+'),
                views(elements@) == elements_of(s@).take(i as int),
            decreases pieces.len() - i,
        {
            let ghost before = views(elements@);
            elements.push(lowercase(pieces[i].as_str()));
            assert(views(elements@) == before.push(lowercased(pieces[i as int]@)));
            i += 1;
        }
        assert(elements_of(s@).take(pieces.len() as int) == elements_of(s@));
        match KeyShortcut::from_elements(&elements) {
            Ok(shortcut) => Ok(shortcut),
            Err(fault) => Err(InvalidKeybind { keybind: String::from_str(s), fault }),
        }
    }
}

/// Once the elements up to some point are at fault, the fault stays whatever
/// follows.
pub proof fn lemma_gather_fault_stays(elements: Seq<Seq<char>>, upto: int)
    requires
        0 <= upto <= elements.len(),
        gather(elements.take(upto)) is Err,
    ensures
        gather(elements) == gather(elements.take(upto)),
    decreases elements.len() - upto,
{
    if upto == elements.len() {
        assert(elements.take(upto) == elements);
    } else {
        assert(elements.take(upto + 1).drop_last() == elements.take(upto));
        lemma_gather_fault_stays(elements, upto + 1);
    }
}

/// Modifiers count whatever their order and number: behind any elements,
/// two modifiers give the same in either order, and a modifier that is
/// named twice gives what it gives when named once.
pub proof fn lemma_modifiers_in_any_order(
    elements: Seq<Seq<char>>,
    first: Seq<char>,
    second: Seq<char>,
)
    requires
        modifier_named(first) is Some,
        modifier_named(second) is Some,
    ensures
        gather(elements.push(first).push(second)) == gather(elements.push(second).push(first)),
        gather(elements.push(first).push(first)) == gather(elements.push(first)),
{
    let one = elements.push(first);
    let other = elements.push(second);
    assert(one.drop_last() == elements && one.last() == first);
    assert(other.drop_last() == elements && other.last() == second);
    assert(one.push(second).drop_last() == one && one.push(second).last() == second);
    assert(other.push(first).drop_last() == other && other.push(first).last() == first);
    assert(one.push(first).drop_last() == one && one.push(first).last() == first);
    assert(gather(one) == match gather(elements) {
        Err(fault) => Err::<KeyShortcut, KeybindFault>(fault),
        Ok(so_far) => Ok(
            KeyShortcut {
                code: so_far.code,
                modifiers: so_far.modifiers.spec_union(modifier_named(first)->0),
            },
        ),
    });
    assert(gather(other) == match gather(elements) {
        Err(fault) => Err::<KeyShortcut, KeybindFault>(fault),
        Ok(so_far) => Ok(
            KeyShortcut {
                code: so_far.code,
                modifiers: so_far.modifiers.spec_union(modifier_named(second)->0),
            },
        ),
    });
}

/// What one more element makes of what the elements before it have built
/// up.
pub open spec fn gather_step(
    so_far: Result<KeyShortcut, KeybindFault>,
    element: Seq<char>,
) -> Result<KeyShortcut, KeybindFault> {
    match so_far {
        Err(fault) => Err(fault),
        Ok(chord) => match modifier_named(element) {
            Some(modifier) => Ok(
                KeyShortcut { code: chord.code, modifiers: chord.modifiers.spec_union(modifier) },
            ),
            None => if chord.code != KeyCode::Null {
                Err(KeybindFault::MultipleKeycodes)
            } else {
                match keycode_named(element) {
                    Some(code) => Ok(KeyShortcut { code, modifiers: chord.modifiers }),
                    None => Err(KeybindFault::UnknownKey),
                }
            },
        },
    }
}

/// Elements are read one after another.
pub proof fn lemma_gather_push(elements: Seq<Seq<char>>, element: Seq<char>)
    ensures
        gather(elements.push(element)) == gather_step(gather(elements), element),
{
    assert(elements.push(element).drop_last() == elements);
    assert(elements.push(element).last() == element);
}

/// Two readings are alike when both are at fault or both give the same
/// chord.
pub open spec fn read_alike(
    one: Result<KeyShortcut, KeybindFault>,
    other: Result<KeyShortcut, KeybindFault>,
) -> bool {
    (one is Err && other is Err) || one == other
}

/// Runs of elements that are read alike are still read alike when the same
/// elements follow both.
pub proof fn lemma_alike_with_more(
    one: Seq<Seq<char>>,
    other: Seq<Seq<char>>,
    more: Seq<Seq<char>>,
)
    requires
        read_alike(gather(one), gather(other)),
    ensures
        read_alike(gather(one + more), gather(other + more)),
    decreases more.len(),
{
    if more.len() == 0 {
        assert(one + more == one);
        assert(other + more == other);
    } else {
        lemma_alike_with_more(one, other, more.drop_last());
        assert((one + more).drop_last() == one + more.drop_last());
        assert((other + more).drop_last() == other + more.drop_last());
        assert((one + more).last() == more.last());
        assert((other + more).last() == more.last());
    }
}

/// The order of the elements of a chord does not matter: with two
/// neighbours changing places, wherever they stand, the chord is read
/// alike. So it is with any change of order, which is a run of such
/// changes.
pub proof fn lemma_order_does_not_matter(
    before: Seq<Seq<char>>,
    first: Seq<char>,
    second: Seq<char>,
    after: Seq<Seq<char>>,
)
    ensures
        read_alike(
            gather(before.push(first).push(second) + after),
            gather(before.push(second).push(first) + after),
        ),
        read_alike(
            shortcut_of_elements(before.push(first).push(second) + after),
            shortcut_of_elements(before.push(second).push(first) + after),
        ),
{
    let one = before.push(first);
    let other = before.push(second);
    lemma_gather_push(before, first);
    lemma_gather_push(before, second);
    lemma_gather_push(one, second);
    lemma_gather_push(other, first);
    let start = gather(before);
    assert(keycode_named(first) != Some(KeyCode::Null));
    assert(keycode_named(second) != Some(KeyCode::Null));
    if start is Ok {
        let chord = start->Ok_0;
        if modifier_named(first) is Some && modifier_named(second) is Some {
            let a = modifier_named(first)->0;
            let b = modifier_named(second)->0;
            assert(chord.modifiers.spec_union(a).spec_union(b) == chord.modifiers.spec_union(
                b,
            ).spec_union(a));
        } else if modifier_named(first) is Some {
            assert(gather_step(start, first) is Ok);
        } else if modifier_named(second) is Some {
            assert(gather_step(start, second) is Ok);
        } else {
            assert(gather_step(gather_step(start, first), second) is Err);
            assert(gather_step(gather_step(start, second), first) is Err);
        }
    }
    assert(read_alike(gather(one.push(second)), gather(other.push(first))));
    lemma_alike_with_more(one.push(second), other.push(first), after);
}

/// The letter case of a chord does not matter: two texts whose pieces
/// between the `+` signs fold to the same lower-case forms are read as the
/// same chord.
pub proof fn lemma_case_does_not_matter(one: Seq<char>, other: Seq<char>)
    requires
        split_on(one, '+').len() == split_on(other, '+').len(),
        forall|i: int|
            0 <= i < split_on(one, '+').len() ==> lowercased(#[trigger] split_on(one, '+')[i])
                == lowercased(split_on(other, '+')[i]),
    ensures
        shortcut_of_elements(elements_of(one)) == shortcut_of_elements(elements_of(other)),
{
    assert(elements_of(one) == elements_of(other));
}

/// The name of a function key.
pub open spec fn function_key_name(number: u8) -> Seq<char> {
    if number == 1 {
        "f1"@
    } else if number == 2 {
        "f2"@
    } else if number == 3 {
        "f3"@
    } else if number == 4 {
        "f4"@
    } else if number == 5 {
        "f5"@
    } else if number == 6 {
        "f6"@
    } else if number == 7 {
        "f7"@
    } else if number == 8 {
        "f8"@
    } else if number == 9 {
        "f9"@
    } else if number == 10 {
        "f10"@
    } else if number == 11 {
        "f11"@
    } else if number == 12 {
        "f12"@
    } else {
        "f"@
    }
}

/// The name of a key: the one by which a configuration names it where it
/// has one, the character itself for a key that types one.
pub open spec fn key_name(code: KeyCode) -> Seq<char> {
    match code {
        KeyCode::Backspace => "backspace"@,
        KeyCode::Enter => "enter"@,
        KeyCode::Left => "left"@,
        KeyCode::Right => "right"@,
        KeyCode::Up => "up"@,
        KeyCode::Down => "down"@,
        KeyCode::Home => "home"@,
        KeyCode::End => "end"@,
        KeyCode::PageUp => "pageup"@,
        KeyCode::PageDown => "pagedown"@,
        KeyCode::Tab => "tab"@,
        KeyCode::BackTab => "backtab"@,
        KeyCode::Delete => "delete"@,
        KeyCode::Insert => "insert"@,
        KeyCode::F(number) => function_key_name(number),
        KeyCode::Char(c) => seq![c],
        KeyCode::Null => "null"@,
        KeyCode::Esc => "esc"@,
        KeyCode::CapsLock => "capslock"@,
        KeyCode::ScrollLock => "scrolllock"@,
        KeyCode::NumLock => "numlock"@,
        KeyCode::PrintScreen => "printscreen"@,
        KeyCode::Pause => "pause"@,
        KeyCode::Menu => "menu"@,
        KeyCode::KeypadBegin => "keypadbegin"@,
        KeyCode::Media(_) => "media"@,
        KeyCode::Modifier(_) => "modifier"@,
    }
}

/// `names` and, where `held`, the name `name` behind them.
pub open spec fn with_name(names: Seq<Seq<char>>, held: bool, name: Seq<char>) -> Seq<Seq<char>> {
    if held {
        names.push(name)
    } else {
        names
    }
}

/// The elements by which a chord is written: the modifiers that are held,
/// then the key, if there is one.
pub open spec fn chord_elements(shortcut: KeyShortcut) -> Seq<Seq<char>> {
    let held = shortcut.modifiers;
    let none = Seq::<Seq<char>>::empty();
    let modifiers = with_name(
        with_name(
            with_name(
                with_name(
                    with_name(with_name(none, held.control, "ctrl"@), held.shift, "shift"@),
                    held.alt,
                    "alt"@,
                ),
                held.super_key,
                "super"@,
            ),
            held.hyper,
            "hyper"@,
        ),
        held.meta,
        "meta"@,
    );
    with_name(modifiers, shortcut.code != KeyCode::Null, key_name(shortcut.code))
}

/// A chord as a configuration would write it: its elements with `+`
/// between them.
pub open spec fn chord_text(shortcut: KeyShortcut) -> Seq<char> {
    joined(chord_elements(shortcut), '+')
}

/// The name of a key.
fn name_of_key(code: KeyCode) -> (name: String)
    ensures
        name@ == key_name(code),
{
    match code {
        KeyCode::Backspace => String::from_str("backspace"),
        KeyCode::Enter => String::from_str("enter"),
        KeyCode::Left => String::from_str("left"),
        KeyCode::Right => String::from_str("right"),
        KeyCode::Up => String::from_str("up"),
        KeyCode::Down => String::from_str("down"),
        KeyCode::Home => String::from_str("home"),
        KeyCode::End => String::from_str("end"),
        KeyCode::PageUp => String::from_str("pageup"),
        KeyCode::PageDown => String::from_str("pagedown"),
        KeyCode::Tab => String::from_str("tab"),
        KeyCode::BackTab => String::from_str("backtab"),
        KeyCode::Delete => String::from_str("delete"),
        KeyCode::Insert => String::from_str("insert"),
        KeyCode::F(number) => {
            if number == 1 {
                String::from_str("f1")
            } else if number == 2 {
                String::from_str("f2")
            } else if number == 3 {
                String::from_str("f3")
            } else if number == 4 {
                String::from_str("f4")
            } else if number == 5 {
                String::from_str("f5")
            } else if number == 6 {
                String::from_str("f6")
            } else if number == 7 {
                String::from_str("f7")
            } else if number == 8 {
                String::from_str("f8")
            } else if number == 9 {
                String::from_str("f9")
            } else if number == 10 {
                String::from_str("f10")
            } else if number == 11 {
                String::from_str("f11")
            } else if number == 12 {
                String::from_str("f12")
            } else {
                String::from_str("f")
            }
        },
        KeyCode::Char(c) => {
            let mut name = String::new();
            push_char(&mut name, c);
            assert(name@ == seq![c]);
            name
        },
        KeyCode::Null => String::from_str("null"),
        KeyCode::Esc => String::from_str("esc"),
        KeyCode::CapsLock => String::from_str("capslock"),
        KeyCode::ScrollLock => String::from_str("scrolllock"),
        KeyCode::NumLock => String::from_str("numlock"),
        KeyCode::PrintScreen => String::from_str("printscreen"),
        KeyCode::Pause => String::from_str("pause"),
        KeyCode::Menu => String::from_str("menu"),
        KeyCode::KeypadBegin => String::from_str("keypadbegin"),
        KeyCode::Media(_) => String::from_str("media"),
        KeyCode::Modifier(_) => String::from_str("modifier"),
    }
}

/// Puts a name behind the others where it is held.
fn push_name(names: &mut Vec<String>, held: bool, name: &str)
    ensures
        views(final(names)@) == with_name(views(old(names)@), held, name@),
{
    if held {
        let ghost before = views(names@);
        names.push(String::from_str(name));
        assert(views(names@) == before.push(name@));
    }
}

impl KeyShortcut {
    /// The chord as a configuration would write it, such as `ctrl+shift+p`.
    pub fn describe(&self) -> (text: String)
        ensures
            text@ == chord_text(*self),
    {
        let mut names: Vec<String> = Vec::new();
        assert(views(names@) == Seq::<Seq<char>>::empty());
        push_name(&mut names, self.modifiers.control, "ctrl");
        push_name(&mut names, self.modifiers.shift, "shift");
        push_name(&mut names, self.modifiers.alt, "alt");
        push_name(&mut names, self.modifiers.super_key, "super");
        push_name(&mut names, self.modifiers.hyper, "hyper");
        push_name(&mut names, self.modifiers.meta, "meta");
        if self.code != KeyCode::Null {
            let ghost before = views(names@);
            let name = name_of_key(self.code);
            names.push(name);
            assert(views(names@) == before.push(key_name(self.code)));
        }
        join_by(&names, '+')
    }
}

impl InvalidKeybind {
    /// A sentence that says what is wrong and names the rejected text.
    pub fn message(&self) -> (text: String)
        ensures
            text@ == fault_text(self.fault) + self.keybind@,
    {
        let start = match self.fault {
            KeybindFault::MultipleKeycodes => "More than one non-modifier keycode in keybind: ",
            KeybindFault::UnknownKey => "Invalid keycode in keybind: ",
            KeybindFault::Empty => "No keycode found in keybind: ",
        };
        String::from_str(start).concat(self.keybind.as_str())
    }
}

/// The words with which a message about a fault begins.
pub open spec fn fault_text(fault: KeybindFault) -> Seq<char> {
    match fault {
        KeybindFault::MultipleKeycodes => "More than one non-modifier keycode in keybind: "@,
        KeybindFault::UnknownKey => "Invalid keycode in keybind: "@,
        KeybindFault::Empty => "No keycode found in keybind: "@,
    }
}

} // verus!
