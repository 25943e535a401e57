//! Hotkey descriptors such as `Alt+Shift+T`: how one is read, and which
//! action each of the five configured descriptors is bound to.

use crate::actions::Action;
use crate::config::{HotkeyConfig, HotkeyConfigView};
use crate::text::{lemma_split_on_step, lowered, lowers_to, split_on, trim, trimmed};
use vstd::prelude::*;
use vstd::string::StrSliceExecFns;

verus! {

/// A modifier key.
#[derive(Clone, Copy, Debug, PartialEq, Eq, Structural)]
pub enum Modifier {
    Alt,
    Shift,
    Control,
    Super,
}

/// A set of modifier keys.
#[derive(Clone, Copy, Debug, PartialEq, Eq, Structural)]
pub struct ModifierSet {
    pub alt: bool,
    pub shift: bool,
    pub control: bool,
    pub super_key: bool,
}

/// The keys that a hotkey can end in.
#[derive(Clone, Copy, Debug, PartialEq, Eq, Structural)]
pub enum Key {
    KeyT,
    KeyD,
    ArrowUp,
    ArrowDown,
    KeyH,
}

impl ModifierSet {
    /// No modifier.
    pub open spec fn none() -> ModifierSet {
        ModifierSet { alt: false, shift: false, control: false, super_key: false }
    }

    /// The set with `m` added, or the set itself where `m` is `None`.
    pub open spec fn with(self, m: Option<Modifier>) -> ModifierSet {
        match m {
            Some(Modifier::Alt) => ModifierSet { alt: true, ..self },
            Some(Modifier::Shift) => ModifierSet { shift: true, ..self },
            Some(Modifier::Control) => ModifierSet { control: true, ..self },
            Some(Modifier::Super) => ModifierSet { super_key: true, ..self },
            None => self,
        }
    }

    /// No modifier.
    pub fn empty() -> (res: ModifierSet)
        ensures
            res == ModifierSet::none(),
    {
        ModifierSet { alt: false, shift: false, control: false, super_key: false }
    }

    /// The set with `m` added, or the set itself where `m` is `None`.
    pub fn insert(self, m: Option<Modifier>) -> (res: ModifierSet)
        ensures
            res == self.with(m),
    {
        match m {
            Some(Modifier::Alt) => ModifierSet { alt: true, ..self },
            Some(Modifier::Shift) => ModifierSet { shift: true, ..self },
            Some(Modifier::Control) => ModifierSet { control: true, ..self },
            Some(Modifier::Super) => ModifierSet { super_key: true, ..self },
            None => self,
        }
    }
}

/// The modifier that a lower-case name stands for.
pub open spec fn modifier_named(name: Seq<char>) -> Option<Modifier> {
    if name == "alt"@ {
        Some(Modifier::Alt)
    } else if name == "shift"@ {
        Some(Modifier::Shift)
    } else if name == "control"@ || name == "ctrl"@ {
        Some(Modifier::Control)
    } else if name == "super"@ || name == "win"@ || name == "meta"@ {
        Some(Modifier::Super)
    } else {
        None
    }
}

/// The key that a lower-case name stands for.
pub open spec fn key_named(name: Seq<char>) -> Option<Key> {
    if name == "t"@ {
        Some(Key::KeyT)
    } else if name == "d"@ {
        Some(Key::KeyD)
    } else if name == "up"@ {
        Some(Key::ArrowUp)
    } else if name == "down"@ {
        Some(Key::ArrowDown)
    } else if name == "h"@ {
        Some(Key::KeyH)
    } else {
        None
    }
}

/// The modifier that `name` stands for, in whatever case it is written:
/// `alt`, `shift`, `control` or `ctrl`, `super` or `win` or `meta`.
pub fn modifier_from_name(name: &str) -> (res: Option<Modifier>)
    ensures
        res == modifier_named(lowered(name@)),
{
    if lowers_to(name, "alt") {
        Some(Modifier::Alt)
    } else if lowers_to(name, "shift") {
        Some(Modifier::Shift)
    } else if lowers_to(name, "control") || lowers_to(name, "ctrl") {
        Some(Modifier::Control)
    } else if lowers_to(name, "super") || lowers_to(name, "win") || lowers_to(name, "meta") {
        Some(Modifier::Super)
    } else {
        None
    }
}

/// The key that `name` stands for, in whatever case it is written: `t`, `d`,
/// `up`, `down` or `h`.
pub fn key_from_name(name: &str) -> (res: Option<Key>)
    ensures
        res == key_named(lowered(name@)),
{
    if lowers_to(name, "t") {
        Some(Key::KeyT)
    } else if lowers_to(name, "d") {
        Some(Key::KeyD)
    } else if lowers_to(name, "up") {
        Some(Key::ArrowUp)
    } else if lowers_to(name, "down") {
        Some(Key::ArrowDown)
    } else if lowers_to(name, "h") {
        Some(Key::KeyH)
    } else {
        None
    }
}

/// The name in a piece of a descriptor: trimmed, in lower case.
pub open spec fn piece_name(piece: Seq<char>) -> Seq<char> {
    lowered(trimmed(piece))
}

/// The modifiers that `pieces` name; a piece that names none adds nothing.
pub open spec fn modifiers_of(pieces: Seq<Seq<char>>) -> ModifierSet
    decreases pieces.len(),
{
    if pieces.len() == 0 {
        ModifierSet::none()
    } else {
        modifiers_of(pieces.drop_last()).with(modifier_named(piece_name(pieces.last())))
    }
}

/// What a descriptor means: its last piece names the key, the pieces before
/// it the modifiers. `None` where the last piece names no key.
pub open spec fn parse_hotkey_spec(descriptor: Seq<char>) -> Option<(ModifierSet, Key)> {
    let pieces = split_on(descriptor, '+');
    match key_named(piece_name(pieces.last())) {
        Some(key) => Some((modifiers_of(pieces.drop_last()), key)),
        None => None,
    }
}

/// Reads a descriptor: pieces are separated by `+`; every piece but the last
/// names a modifier, in any case, and one that names none is passed over; the
/// last piece names the key. `None` where it names no key, as in the empty
/// descriptor.
pub fn parse_hotkey(descriptor: &str) -> (res: Option<(ModifierSet, Key)>)
    ensures
        res == parse_hotkey_spec(descriptor@),
{
    let total = descriptor.unicode_len();
    let mut modifiers = ModifierSet::empty();
    let mut from: usize = 0;
    let mut n: usize = 0;
    let ghost s = descriptor@;
    let ghost done: Seq<Seq<char>> = Seq::empty();
    assert(s.subrange(0, 0) =~= Seq::<char>::empty());
    assert(split_on(s.subrange(0, 0), '+') =~= done.push(s.subrange(0, 0)));
    for c in it: descriptor.chars()
        invariant
            it.seq() == s,
            s == descriptor@,
            total == s.len(),
            n == it.index(),
            from <= n,
            split_on(s.subrange(0, n as int), '+') == done.push(s.subrange(from as int, n as int)),
            modifiers == modifiers_of(done),
    {
        proof {
            lemma_split_on_step(s, '+', n as int, done, from as int);
        }
        if c == '+' {
            let piece = trim(descriptor.substring_char(from, n));
            modifiers = modifiers.insert(modifier_from_name(piece));
            proof {
                let closed = done.push(s.subrange(from as int, n as int));
                assert(closed.drop_last() =~= done);
                done = closed;
            }
            from = n + 1;
        }
        n = n + 1;
    }
    proof {
        assert(s.subrange(0, n as int) =~= s);
        let pieces = done.push(s.subrange(from as int, n as int));
        assert(pieces.drop_last() =~= done);
    }
    let piece = trim(descriptor.substring_char(from, total));
    match key_from_name(piece) {
        Some(key) => Some((modifiers, key)),
        None => None,
    }
}

/// A key combination and the action it triggers.
#[derive(Clone, Copy, Debug, PartialEq, Eq, Structural)]
pub struct Binding {
    pub modifiers: ModifierSet,
    pub key: Key,
    pub action: Action,
}

/// `bindings` with the binding of `descriptor` to `action` added, or as it
/// is where the descriptor cannot be read.
pub open spec fn bound(bindings: Seq<Binding>, descriptor: Seq<char>, action: Action) -> Seq<
    Binding,
> {
    match parse_hotkey_spec(descriptor) {
        Some((modifiers, key)) => bindings.push(Binding { modifiers, key, action }),
        None => bindings,
    }
}

/// The bindings that a configuration asks for, in the order of its fields.
/// A descriptor that cannot be read binds nothing.
pub open spec fn bindings_spec(h: HotkeyConfigView) -> Seq<Binding> {
    bound(
        bound(
            bound(
                bound(
                    bound(Seq::empty(), h.toggle_on_top, Action::ToggleAlwaysOnTop),
                    h.toggle_locked,
                    Action::ToggleLock,
                ),
                h.opacity_up,
                Action::OpacityUp,
            ),
            h.opacity_down,
            Action::OpacityDown,
        ),
        h.toggle_visibility,
        Action::ToggleVisibility,
    )
}

/// Adds the binding of `descriptor` to `action`, where the descriptor can be
/// read.
fn bind(bindings: &mut Vec<Binding>, descriptor: &str, action: Action)
    ensures
        final(bindings)@ == bound(old(bindings)@, descriptor@, action),
{
    match parse_hotkey(descriptor) {
        Some((modifiers, key)) => bindings.push(Binding { modifiers, key, action }),
        None => {},
    }
}

/// The key combinations to register and the action of each. A descriptor
/// that cannot be read is left out: its action has no hotkey until the
/// configuration is corrected.
pub fn hotkey_bindings(hotkeys: &HotkeyConfig) -> (res: Vec<Binding>)
    ensures
        res@ == bindings_spec(hotkeys@),
        res.len() <= 5,
{
    let mut bindings: Vec<Binding> = Vec::new();
    bind(&mut bindings, hotkeys.toggle_on_top.as_str(), Action::ToggleAlwaysOnTop);
    bind(&mut bindings, hotkeys.toggle_locked.as_str(), Action::ToggleLock);
    bind(&mut bindings, hotkeys.opacity_up.as_str(), Action::OpacityUp);
    bind(&mut bindings, hotkeys.opacity_down.as_str(), Action::OpacityDown);
    bind(&mut bindings, hotkeys.toggle_visibility.as_str(), Action::ToggleVisibility);
    bindings
}

} // verus!
