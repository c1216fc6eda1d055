//! Hotkey strings such as `Alt+Shift+S`, parsed into a modifier set and a key.

use vstd::prelude::*;
use crate::text::{answers, ascii_lower, ascii_lowercase, decimal, is_ascii_text, lemma_split_ascii, lemma_trimmed_ascii, chars_of, lowercase, same_text, split, split_on, to_lowercase, trim, trimmed, views};

verus! {

/// The keys a hotkey can be bound to.
#[derive(Clone, Copy, Debug, PartialEq, Eq, Structural)]
pub enum Code {
    KeyA,
    KeyB,
    KeyC,
    KeyD,
    KeyE,
    KeyF,
    KeyG,
    KeyH,
    KeyI,
    KeyJ,
    KeyK,
    KeyL,
    KeyM,
    KeyN,
    KeyO,
    KeyP,
    KeyQ,
    KeyR,
    KeyS,
    KeyT,
    KeyU,
    KeyV,
    KeyW,
    KeyX,
    KeyY,
    KeyZ,
    Digit0,
    Digit1,
    Digit2,
    Digit3,
    Digit4,
    Digit5,
    Digit6,
    Digit7,
    Digit8,
    Digit9,
    F1,
    F2,
    F3,
    F4,
    F5,
    F6,
    F7,
    F8,
    F9,
    F10,
    F11,
    F12,
    Space,
    Enter,
    Escape,
    Tab,
    Backquote,
}

/// The modifier keys held together with a hotkey's key.
#[derive(Clone, Copy, Debug, PartialEq, Eq, Structural)]
pub struct Modifiers {
    pub control: bool,
    pub alt: bool,
    pub shift: bool,
    pub super_key: bool,
}

/// One modifier key.
#[derive(Clone, Copy, Debug, PartialEq, Eq, Structural)]
pub enum Modifier {
    Control,
    Alt,
    Shift,
    Super,
}

/// A parsed hotkey: the modifiers and the key.
#[derive(Clone, Copy, Debug, PartialEq, Eq, Structural)]
pub struct Shortcut {
    pub modifiers: Modifiers,
    pub key: Code,
}

/// The empty modifier set.
pub open spec fn no_modifiers() -> Modifiers {
    Modifiers { control: false, alt: false, shift: false, super_key: false }
}

/// `mods` with `m` added.
pub open spec fn with_modifier(mods: Modifiers, m: Modifier) -> Modifiers {
    match m {
        Modifier::Control => Modifiers { control: true, ..mods },
        Modifier::Alt => Modifiers { alt: true, ..mods },
        Modifier::Shift => Modifiers { shift: true, ..mods },
        Modifier::Super => Modifiers { super_key: true, ..mods },
    }
}

/// The modifier that a lowercase hotkey part names, if any.
pub open spec fn modifier_named(name: Seq<char>) -> Option<Modifier> {
    if name == "ctrl"@ || name == "control"@ {
        Some(Modifier::Control)
    } else if name == "alt"@ {
        Some(Modifier::Alt)
    } else if name == "shift"@ {
        Some(Modifier::Shift)
    } else if name == "super"@ || name == "cmd"@ || name == "command"@ {
        Some(Modifier::Super)
    } else {
        None
    }
}

/// The key that a lowercase key name denotes, if any.
pub open spec fn key_named(name: Seq<char>) -> Option<Code> {
    if name == "a"@ {
        Some(Code::KeyA)
    } else if name == "b"@ {
        Some(Code::KeyB)
    } else if name == "c"@ {
        Some(Code::KeyC)
    } else if name == "d"@ {
        Some(Code::KeyD)
    } else if name == "e"@ {
        Some(Code::KeyE)
    } else if name == "f"@ {
        Some(Code::KeyF)
    } else if name == "g"@ {
        Some(Code::KeyG)
    } else if name == "h"@ {
        Some(Code::KeyH)
    } else if name == "i"@ {
        Some(Code::KeyI)
    } else if name == "j"@ {
        Some(Code::KeyJ)
    } else if name == "k"@ {
        Some(Code::KeyK)
    } else if name == "l"@ {
        Some(Code::KeyL)
    } else if name == "m"@ {
        Some(Code::KeyM)
    } else if name == "n"@ {
        Some(Code::KeyN)
    } else if name == "o"@ {
        Some(Code::KeyO)
    } else if name == "p"@ {
        Some(Code::KeyP)
    } else if name == "q"@ {
        Some(Code::KeyQ)
    } else if name == "r"@ {
        Some(Code::KeyR)
    } else if name == "s"@ {
        Some(Code::KeyS)
    } else if name == "t"@ {
        Some(Code::KeyT)
    } else if name == "u"@ {
        Some(Code::KeyU)
    } else if name == "v"@ {
        Some(Code::KeyV)
    } else if name == "w"@ {
        Some(Code::KeyW)
    } else if name == "x"@ {
        Some(Code::KeyX)
    } else if name == "y"@ {
        Some(Code::KeyY)
    } else if name == "z"@ {
        Some(Code::KeyZ)
    } else if name == "0"@ {
        Some(Code::Digit0)
    } else if name == "1"@ {
        Some(Code::Digit1)
    } else if name == "2"@ {
        Some(Code::Digit2)
    } else if name == "3"@ {
        Some(Code::Digit3)
    } else if name == "4"@ {
        Some(Code::Digit4)
    } else if name == "5"@ {
        Some(Code::Digit5)
    } else if name == "6"@ {
        Some(Code::Digit6)
    } else if name == "7"@ {
        Some(Code::Digit7)
    } else if name == "8"@ {
        Some(Code::Digit8)
    } else if name == "9"@ {
        Some(Code::Digit9)
    } else if name == "f1"@ {
        Some(Code::F1)
    } else if name == "f2"@ {
        Some(Code::F2)
    } else if name == "f3"@ {
        Some(Code::F3)
    } else if name == "f4"@ {
        Some(Code::F4)
    } else if name == "f5"@ {
        Some(Code::F5)
    } else if name == "f6"@ {
        Some(Code::F6)
    } else if name == "f7"@ {
        Some(Code::F7)
    } else if name == "f8"@ {
        Some(Code::F8)
    } else if name == "f9"@ {
        Some(Code::F9)
    } else if name == "f10"@ {
        Some(Code::F10)
    } else if name == "f11"@ {
        Some(Code::F11)
    } else if name == "f12"@ {
        Some(Code::F12)
    } else if name == "space"@ {
        Some(Code::Space)
    } else if name == "enter"@ {
        Some(Code::Enter)
    } else if name == "return"@ {
        Some(Code::Enter)
    } else if name == "escape"@ {
        Some(Code::Escape)
    } else if name == "esc"@ {
        Some(Code::Escape)
    } else if name == "tab"@ {
        Some(Code::Tab)
    } else if name == "backquote"@ {
        Some(Code::Backquote)
    } else if name == "`"@ {
        Some(Code::Backquote)
    } else {
        None
    }
}

/// Lowercasing as `str::to_lowercase` does it.
pub open spec fn std_lowering() -> spec_fn(Seq<char>) -> Seq<char> {
    |t: Seq<char>| lowercase(t)
}

/// Lowercasing of ASCII capitals only, which is what `str::to_lowercase`
/// does on ASCII text.
pub open spec fn ascii_lowering() -> spec_fn(Seq<char>) -> Seq<char> {
    |t: Seq<char>| ascii_lowercase(t)
}

/// The answer for the key name `s` with names lowercased by `low`: the key
/// its lowercase form names, or the message `Unknown key: <s>`.
pub open spec fn key_code_with(low: spec_fn(Seq<char>) -> Seq<char>, s: Seq<char>) -> Result<
    Code,
    Seq<char>,
> {
    match key_named(low(s)) {
        Some(c) => Ok(c),
        None => Err("Unknown key: "@ + s),
    }
}

/// What `parse_key_code` answers for `s`.
pub open spec fn key_code_spec(s: Seq<char>) -> Result<Code, Seq<char>> {
    key_code_with(std_lowering(), s)
}

/// Reading the `+`-separated parts of a hotkey from the left, with names
/// lowercased by `low`: each part is trimmed; a modifier name adds to the
/// modifiers, any other part must name a key and replaces the key read so
/// far; the first part that names nothing stops the reading with its error.
pub open spec fn read_parts_with(
    low: spec_fn(Seq<char>) -> Seq<char>,
    parts: Seq<Seq<char>>,
    mods: Modifiers,
    key: Option<Code>,
) -> Result<(Modifiers, Option<Code>), Seq<char>>
    decreases parts.len(),
{
    if parts.len() == 0 {
        Ok((mods, key))
    } else {
        let part = trimmed(parts[0]);
        match modifier_named(low(part)) {
            Some(m) => read_parts_with(low, parts.drop_first(), with_modifier(mods, m), key),
            None => match key_code_with(low, part) {
                Ok(c) => read_parts_with(low, parts.drop_first(), mods, Some(c)),
                Err(e) => Err(e),
            },
        }
    }
}

/// The answer for the hotkey `s` with names lowercased by `low`.
pub open spec fn shortcut_with(low: spec_fn(Seq<char>) -> Seq<char>, s: Seq<char>) -> Result<
    Shortcut,
    Seq<char>,
> {
    match read_parts_with(low, split_on(s, '+'), no_modifiers(), None) {
        Err(e) => Err(e),
        Ok((mods, None)) => Err("No key specified in shortcut: "@ + s),
        Ok((mods, Some(key))) => Ok(Shortcut { modifiers: mods, key }),
    }
}

/// What `parse_shortcut` answers for `s`.
pub open spec fn shortcut_spec(s: Seq<char>) -> Result<Shortcut, Seq<char>> {
    shortcut_with(std_lowering(), s)
}

fn modifier_of(name: &[char]) -> (m: Option<Modifier>)
    ensures
        m == modifier_named(name@),
{
    if same_text(name, "ctrl") || same_text(name, "control") {
        Some(Modifier::Control)
    } else if same_text(name, "alt") {
        Some(Modifier::Alt)
    } else if same_text(name, "shift") {
        Some(Modifier::Shift)
    } else if same_text(name, "super") || same_text(name, "cmd") || same_text(name, "command") {
        Some(Modifier::Super)
    } else {
        None
    }
}

#[verifier::rlimit(40)]
fn key_of(name: &[char]) -> (k: Option<Code>)
    ensures
        k == key_named(name@),
{
    if same_text(name, "a") {
        Some(Code::KeyA)
    } else if same_text(name, "b") {
        Some(Code::KeyB)
    } else if same_text(name, "c") {
        Some(Code::KeyC)
    } else if same_text(name, "d") {
        Some(Code::KeyD)
    } else if same_text(name, "e") {
        Some(Code::KeyE)
    } else if same_text(name, "f") {
        Some(Code::KeyF)
    } else if same_text(name, "g") {
        Some(Code::KeyG)
    } else if same_text(name, "h") {
        Some(Code::KeyH)
    } else if same_text(name, "i") {
        Some(Code::KeyI)
    } else if same_text(name, "j") {
        Some(Code::KeyJ)
    } else if same_text(name, "k") {
        Some(Code::KeyK)
    } else if same_text(name, "l") {
        Some(Code::KeyL)
    } else if same_text(name, "m") {
        Some(Code::KeyM)
    } else if same_text(name, "n") {
        Some(Code::KeyN)
    } else if same_text(name, "o") {
        Some(Code::KeyO)
    } else if same_text(name, "p") {
        Some(Code::KeyP)
    } else if same_text(name, "q") {
        Some(Code::KeyQ)
    } else if same_text(name, "r") {
        Some(Code::KeyR)
    } else if same_text(name, "s") {
        Some(Code::KeyS)
    } else if same_text(name, "t") {
        Some(Code::KeyT)
    } else if same_text(name, "u") {
        Some(Code::KeyU)
    } else if same_text(name, "v") {
        Some(Code::KeyV)
    } else if same_text(name, "w") {
        Some(Code::KeyW)
    } else if same_text(name, "x") {
        Some(Code::KeyX)
    } else if same_text(name, "y") {
        Some(Code::KeyY)
    } else if same_text(name, "z") {
        Some(Code::KeyZ)
    } else if same_text(name, "0") {
        Some(Code::Digit0)
    } else if same_text(name, "1") {
        Some(Code::Digit1)
    } else if same_text(name, "2") {
        Some(Code::Digit2)
    } else if same_text(name, "3") {
        Some(Code::Digit3)
    } else if same_text(name, "4") {
        Some(Code::Digit4)
    } else if same_text(name, "5") {
        Some(Code::Digit5)
    } else if same_text(name, "6") {
        Some(Code::Digit6)
    } else if same_text(name, "7") {
        Some(Code::Digit7)
    } else if same_text(name, "8") {
        Some(Code::Digit8)
    } else if same_text(name, "9") {
        Some(Code::Digit9)
    } else if same_text(name, "f1") {
        Some(Code::F1)
    } else if same_text(name, "f2") {
        Some(Code::F2)
    } else if same_text(name, "f3") {
        Some(Code::F3)
    } else if same_text(name, "f4") {
        Some(Code::F4)
    } else if same_text(name, "f5") {
        Some(Code::F5)
    } else if same_text(name, "f6") {
        Some(Code::F6)
    } else if same_text(name, "f7") {
        Some(Code::F7)
    } else if same_text(name, "f8") {
        Some(Code::F8)
    } else if same_text(name, "f9") {
        Some(Code::F9)
    } else if same_text(name, "f10") {
        Some(Code::F10)
    } else if same_text(name, "f11") {
        Some(Code::F11)
    } else if same_text(name, "f12") {
        Some(Code::F12)
    } else if same_text(name, "space") {
        Some(Code::Space)
    } else if same_text(name, "enter") {
        Some(Code::Enter)
    } else if same_text(name, "return") {
        Some(Code::Enter)
    } else if same_text(name, "escape") {
        Some(Code::Escape)
    } else if same_text(name, "esc") {
        Some(Code::Escape)
    } else if same_text(name, "tab") {
        Some(Code::Tab)
    } else if same_text(name, "backquote") {
        Some(Code::Backquote)
    } else if same_text(name, "`") {
        Some(Code::Backquote)
    } else {
        None
    }
}

fn add_modifier(mods: Modifiers, m: Modifier) -> (r: Modifiers)
    ensures
        r == with_modifier(mods, m),
{
    match m {
        Modifier::Control => Modifiers { control: true, ..mods },
        Modifier::Alt => Modifiers { alt: true, ..mods },
        Modifier::Shift => Modifiers { shift: true, ..mods },
        Modifier::Super => Modifiers { super_key: true, ..mods },
    }
}

/// Parses one key name, case-insensitively: letters, digits, `F1` to `F12`,
/// `Space`, `Enter`/`Return`, `Escape`/`Esc`, `Tab`, `Backquote`/`` ` ``.
pub fn parse_key_code(s: &str) -> (r: Result<Code, String>)
    ensures
        answers(r, key_code_spec(s@)),
        is_ascii_text(s@) ==> answers(r, key_code_with(ascii_lowering(), s@)),
{
    let lower = to_lowercase(s);
    let name = chars_of(lower.as_str());
    match key_of(name.as_slice()) {
        Some(c) => Ok(c),
        None => {
            let mut e = String::from_str("Unknown key: ");
            e.append(s);
            Err(e)
        },
    }
}

/// Parses a hotkey string such as `Alt+Shift+S` into its modifiers and key.
pub fn parse_shortcut(s: &str) -> (r: Result<Shortcut, String>)
    ensures
        answers(r, shortcut_spec(s@)),
        is_ascii_text(s@) ==> answers(r, shortcut_with(ascii_lowering(), s@)),
{
    let parts = split(s, '+');
    let ghost all = views(parts@);
    proof {
        if is_ascii_text(s@) {
            lemma_split_ascii(s@, '+');
        }
    }
    let mut mods = Modifiers { control: false, alt: false, shift: false, super_key: false };
    let mut key: Option<Code> = None;
    let mut i: usize = 0;
    assert(all.skip(0) =~= all);
    while i < parts.len()
        invariant
            all == views(parts@),
            all == split_on(s@, '+'),
            i <= parts@.len(),
            read_parts_with(std_lowering(), all, no_modifiers(), None) == read_parts_with(
                std_lowering(),
                all.skip(i as int),
                mods,
                key,
            ),
            is_ascii_text(s@) ==> forall|k: int| 0 <= k < all.len() ==> #[trigger] is_ascii_text(all[k]),
            is_ascii_text(s@) ==> read_parts_with(ascii_lowering(), all, no_modifiers(), None)
                == read_parts_with(ascii_lowering(), all.skip(i as int), mods, key),
        decreases parts@.len() - i,
    {
        assert(all.skip(i as int).drop_first() =~= all.skip(i + 1));
        assert(all.skip(i as int)[0] == parts@[i as int]@);
        let part = trim(parts[i].as_str());
        proof {
            if is_ascii_text(s@) {
                assert(is_ascii_text(all[i as int]));
                lemma_trimmed_ascii(all[i as int]);
            }
        }
        let lower = to_lowercase(part.as_str());
        let name = chars_of(lower.as_str());
        match modifier_of(name.as_slice()) {
            Some(m) => {
                mods = add_modifier(mods, m);
            },
            None => {
                match parse_key_code(part.as_str()) {
                    Ok(c) => {
                        key = Some(c);
                    },
                    Err(e) => {
                        return Err(e);
                    },
                }
            },
        }
        i = i + 1;
    }
    assert(all.skip(i as int) =~= Seq::<Seq<char>>::empty());
    match key {
        Some(k) => Ok(Shortcut { modifiers: mods, key: k }),
        None => {
            let mut e = String::from_str("No key specified in shortcut: ");
            e.append(s);
            Err(e)
        },
    }
}

/// Reading parts that all name modifiers finds no key.
proof fn lemma_only_modifiers(
    low: spec_fn(Seq<char>) -> Seq<char>,
    parts: Seq<Seq<char>>,
    mods: Modifiers,
)
    requires
        forall|k: int|
            0 <= k < parts.len() ==> (#[trigger] modifier_named(low(trimmed(parts[k])))) is Some,
    ensures
        read_parts_with(low, parts, mods, None) matches Ok((_, key)) && key is None,
    decreases parts.len(),
{
    if parts.len() > 0 {
        let m = modifier_named(low(trimmed(parts[0])));
        assert(m is Some);
        assert forall|k: int| 0 <= k < parts.drop_first().len() implies (
        #[trigger] modifier_named(low(trimmed(parts.drop_first()[k])))) is Some by {
            assert(parts.drop_first()[k] == parts[k + 1]);
        }
        lemma_only_modifiers(low, parts.drop_first(), with_modifier(mods, m.unwrap()));
    }
}

/// A hotkey made of modifier names only, such as `Ctrl+Shift`, is rejected
/// with `No key specified in shortcut: <s>`.
pub proof fn law_shortcut_needs_key(s: Seq<char>)
    requires
        forall|k: int|
            0 <= k < split_on(s, '+').len() ==> (#[trigger] modifier_named(
                lowercase(trimmed(split_on(s, '+')[k])),
            )) is Some,
    ensures
        shortcut_spec(s) == Err::<Shortcut, Seq<char>>("No key specified in shortcut: "@ + s),
{
    let parts = split_on(s, '+');
    assert forall|k: int| 0 <= k < parts.len() implies (#[trigger] modifier_named(
        std_lowering()(trimmed(parts[k])),
    )) is Some by {
        assert(std_lowering()(trimmed(parts[k])) == lowercase(trimmed(parts[k])));
    }
    lemma_only_modifiers(std_lowering(), parts, no_modifiers());
}

/// The part `p`, trimmed and lowercased by `low`, names the modifier `m`.
pub open spec fn part_names(low: spec_fn(Seq<char>) -> Seq<char>, p: Seq<char>, m: Modifier) -> bool {
    modifier_named(low(trimmed(p))) == Some(m)
}

/// Some part among `parts` names the modifier `m`.
pub open spec fn any_names(low: spec_fn(Seq<char>) -> Seq<char>, parts: Seq<Seq<char>>, m: Modifier) -> bool {
    exists|p: Seq<char>| parts.contains(p) && #[trigger] part_names(low, p, m)
}

/// `mods` with every modifier that some part names added.
pub open spec fn with_named(
    low: spec_fn(Seq<char>) -> Seq<char>,
    mods: Modifiers,
    parts: Seq<Seq<char>>,
) -> Modifiers {
    Modifiers {
        control: mods.control || any_names(low, parts, Modifier::Control),
        alt: mods.alt || any_names(low, parts, Modifier::Alt),
        shift: mods.shift || any_names(low, parts, Modifier::Shift),
        super_key: mods.super_key || any_names(low, parts, Modifier::Super),
    }
}

/// The part at `j` names a key and no modifier, and every other part names a
/// modifier.
pub open spec fn key_at(low: spec_fn(Seq<char>) -> Seq<char>, parts: Seq<Seq<char>>, j: int) -> bool {
    &&& 0 <= j < parts.len()
    &&& modifier_named(low(trimmed(parts[j]))) is None
    &&& key_named(low(trimmed(parts[j]))) is Some
    &&& forall|k: int|
        0 <= k < parts.len() && k != j ==> (#[trigger] modifier_named(low(trimmed(parts[k])))) is Some
}

proof fn lemma_any_names_split(low: spec_fn(Seq<char>) -> Seq<char>, parts: Seq<Seq<char>>, m: Modifier)
    requires
        parts.len() > 0,
    ensures
        any_names(low, parts, m) == (part_names(low, parts[0], m) || any_names(
            low,
            parts.drop_first(),
            m,
        )),
{
    let rest = parts.drop_first();
    if any_names(low, parts, m) {
        let p = choose|p: Seq<char>| parts.contains(p) && #[trigger] part_names(low, p, m);
        let i = choose|i: int| 0 <= i < parts.len() && parts[i] == p;
        if i > 0 {
            assert(rest[i - 1] == p);
            assert(rest.contains(p));
        }
    }
    if part_names(low, parts[0], m) {
        assert(parts.contains(parts[0]));
    }
    if any_names(low, rest, m) {
        let p = choose|p: Seq<char>| rest.contains(p) && #[trigger] part_names(low, p, m);
        let i = choose|i: int| 0 <= i < rest.len() && rest[i] == p;
        assert(parts[i + 1] == p);
        assert(parts.contains(p));
    }
}

proof fn lemma_with_named_step(low: spec_fn(Seq<char>) -> Seq<char>, mods: Modifiers, parts: Seq<Seq<char>>)
    requires
        parts.len() > 0,
    ensures
        modifier_named(low(trimmed(parts[0]))) matches Some(m) ==> with_named(
            low,
            with_modifier(mods, m),
            parts.drop_first(),
        ) == with_named(low, mods, parts),
        modifier_named(low(trimmed(parts[0]))) is None ==> with_named(low, mods, parts.drop_first())
            == with_named(low, mods, parts),
{
    lemma_any_names_split(low, parts, Modifier::Control);
    lemma_any_names_split(low, parts, Modifier::Alt);
    lemma_any_names_split(low, parts, Modifier::Shift);
    lemma_any_names_split(low, parts, Modifier::Super);
}

/// Reading parts that all name modifiers adds every named modifier and keeps the key.
proof fn lemma_read_modifiers(
    low: spec_fn(Seq<char>) -> Seq<char>,
    parts: Seq<Seq<char>>,
    mods: Modifiers,
    key: Option<Code>,
)
    requires
        forall|k: int|
            0 <= k < parts.len() ==> (#[trigger] modifier_named(low(trimmed(parts[k])))) is Some,
    ensures
        read_parts_with(low, parts, mods, key) == Ok::<(Modifiers, Option<Code>), Seq<char>>(
            (with_named(low, mods, parts), key),
        ),
    decreases parts.len(),
{
    if parts.len() == 0 {
        assert(!any_names(low, parts, Modifier::Control));
        assert(!any_names(low, parts, Modifier::Alt));
        assert(!any_names(low, parts, Modifier::Shift));
        assert(!any_names(low, parts, Modifier::Super));
        assert(with_named(low, mods, parts) == mods);
    } else {
        let m = modifier_named(low(trimmed(parts[0]))).unwrap();
        assert(modifier_named(low(trimmed(parts[0]))) is Some);
        assert forall|k: int| 0 <= k < parts.drop_first().len() implies (
        #[trigger] modifier_named(low(trimmed(parts.drop_first()[k])))) is Some by {
            assert(parts.drop_first()[k] == parts[k + 1]);
        }
        lemma_read_modifiers(low, parts.drop_first(), with_modifier(mods, m), key);
        lemma_with_named_step(low, mods, parts);
    }
}

/// Reading parts of which exactly the one at `j` names a key, and all others
/// name modifiers, gives every named modifier and that key.
proof fn lemma_read_one_key(
    low: spec_fn(Seq<char>) -> Seq<char>,
    parts: Seq<Seq<char>>,
    j: int,
    mods: Modifiers,
    key: Option<Code>,
)
    requires
        key_at(low, parts, j),
    ensures
        read_parts_with(low, parts, mods, key) == Ok::<(Modifiers, Option<Code>), Seq<char>>(
            (with_named(low, mods, parts), key_named(low(trimmed(parts[j])))),
        ),
    decreases parts.len(),
{
    let rest = parts.drop_first();
    lemma_with_named_step(low, mods, parts);
    if j == 0 {
        assert forall|k: int| 0 <= k < rest.len() implies (#[trigger] modifier_named(
            low(trimmed(rest[k])),
        )) is Some by {
            assert(rest[k] == parts[k + 1]);
        }
        lemma_read_modifiers(low, rest, mods, key_named(low(trimmed(parts[0]))));
    } else {
        assert(modifier_named(low(trimmed(parts[0]))) is Some);
        let m = modifier_named(low(trimmed(parts[0]))).unwrap();
        assert(rest[j - 1] == parts[j]);
        assert forall|k: int| 0 <= k < rest.len() && k != j - 1 implies (
        #[trigger] modifier_named(low(trimmed(rest[k])))) is Some by {
            assert(rest[k] == parts[k + 1]);
        }
        lemma_read_one_key(low, rest, j - 1, with_modifier(mods, m), key);
    }
}

/// The order of a hotkey's parts does not matter: two hotkeys whose
/// `+`-separated parts are the same up to order, of which one names a key
/// and all others name modifiers, parse alike and successfully.
pub proof fn law_shortcut_order_free(
    low: spec_fn(Seq<char>) -> Seq<char>,
    s1: Seq<char>,
    s2: Seq<char>,
    j1: int,
    j2: int,
)
    requires
        split_on(s1, '+').to_multiset() == split_on(s2, '+').to_multiset(),
        key_at(low, split_on(s1, '+'), j1),
        key_at(low, split_on(s2, '+'), j2),
    ensures
        shortcut_with(low, s1) is Ok,
        shortcut_with(low, s1) == shortcut_with(low, s2),
{
    let a = split_on(s1, '+');
    let b = split_on(s2, '+');
    lemma_read_one_key(low, a, j1, no_modifiers(), None);
    lemma_read_one_key(low, b, j2, no_modifiers(), None);
    vstd::seq_lib::to_multiset_contains(a, a[j1]);
    vstd::seq_lib::to_multiset_contains(b, a[j1]);
    assert(a.contains(a[j1]));
    let i = choose|i: int| 0 <= i < b.len() && b[i] == a[j1];
    assert(i == j2);
    assert forall|p: Seq<char>| a.contains(p) <==> b.contains(p) by {
        vstd::seq_lib::to_multiset_contains(a, p);
        vstd::seq_lib::to_multiset_contains(b, p);
    }
    assert(with_named(low, no_modifiers(), a) == with_named(low, no_modifiers(), b));
}

/// The name of a key code, as the code is written: `KeyA` to `KeyZ`,
/// `Digit0` to `Digit9`, `F1` to `F12`, `Space`, `Enter`, `Escape`, `Tab`,
/// `Backquote`.
pub open spec fn key_label(k: Code) -> Seq<char> {
    match k {
        Code::KeyA => "KeyA"@,
        Code::KeyB => "KeyB"@,
        Code::KeyC => "KeyC"@,
        Code::KeyD => "KeyD"@,
        Code::KeyE => "KeyE"@,
        Code::KeyF => "KeyF"@,
        Code::KeyG => "KeyG"@,
        Code::KeyH => "KeyH"@,
        Code::KeyI => "KeyI"@,
        Code::KeyJ => "KeyJ"@,
        Code::KeyK => "KeyK"@,
        Code::KeyL => "KeyL"@,
        Code::KeyM => "KeyM"@,
        Code::KeyN => "KeyN"@,
        Code::KeyO => "KeyO"@,
        Code::KeyP => "KeyP"@,
        Code::KeyQ => "KeyQ"@,
        Code::KeyR => "KeyR"@,
        Code::KeyS => "KeyS"@,
        Code::KeyT => "KeyT"@,
        Code::KeyU => "KeyU"@,
        Code::KeyV => "KeyV"@,
        Code::KeyW => "KeyW"@,
        Code::KeyX => "KeyX"@,
        Code::KeyY => "KeyY"@,
        Code::KeyZ => "KeyZ"@,
        Code::Digit0 => "Digit0"@,
        Code::Digit1 => "Digit1"@,
        Code::Digit2 => "Digit2"@,
        Code::Digit3 => "Digit3"@,
        Code::Digit4 => "Digit4"@,
        Code::Digit5 => "Digit5"@,
        Code::Digit6 => "Digit6"@,
        Code::Digit7 => "Digit7"@,
        Code::Digit8 => "Digit8"@,
        Code::Digit9 => "Digit9"@,
        Code::F1 => "F1"@,
        Code::F2 => "F2"@,
        Code::F3 => "F3"@,
        Code::F4 => "F4"@,
        Code::F5 => "F5"@,
        Code::F6 => "F6"@,
        Code::F7 => "F7"@,
        Code::F8 => "F8"@,
        Code::F9 => "F9"@,
        Code::F10 => "F10"@,
        Code::F11 => "F11"@,
        Code::F12 => "F12"@,
        Code::Space => "Space"@,
        Code::Enter => "Enter"@,
        Code::Escape => "Escape"@,
        Code::Tab => "Tab"@,
        Code::Backquote => "Backquote"@,
    }
}

/// The capital of a small ASCII letter.
pub open spec fn ascii_upper(c: char) -> char {
    if 'a' <= c && c <= 'z' {
        ((c as int) - 32) as char
    } else {
        c
    }
}

proof fn lemma_letter_named(c: char)
    requires
        'a' <= c <= 'z',
    ensures
        key_named(seq![c]) matches Some(k) && key_label(k) == "Key"@ + seq![ascii_upper(c)],
{
    reveal_strlit("a");
    reveal_strlit("b");
    reveal_strlit("c");
    reveal_strlit("d");
    reveal_strlit("e");
    reveal_strlit("f");
    reveal_strlit("g");
    reveal_strlit("h");
    reveal_strlit("i");
    reveal_strlit("j");
    reveal_strlit("k");
    reveal_strlit("l");
    reveal_strlit("m");
    reveal_strlit("n");
    reveal_strlit("o");
    reveal_strlit("p");
    reveal_strlit("q");
    reveal_strlit("r");
    reveal_strlit("s");
    reveal_strlit("t");
    reveal_strlit("u");
    reveal_strlit("v");
    reveal_strlit("w");
    reveal_strlit("x");
    reveal_strlit("y");
    reveal_strlit("z");
    reveal_strlit("Key");
    assert("a"@[0] == 'a' && "a"@.len() == 1);
    assert("b"@[0] == 'b' && "b"@.len() == 1);
    assert("c"@[0] == 'c' && "c"@.len() == 1);
    assert("d"@[0] == 'd' && "d"@.len() == 1);
    assert("e"@[0] == 'e' && "e"@.len() == 1);
    assert("f"@[0] == 'f' && "f"@.len() == 1);
    assert("g"@[0] == 'g' && "g"@.len() == 1);
    assert("h"@[0] == 'h' && "h"@.len() == 1);
    assert("i"@[0] == 'i' && "i"@.len() == 1);
    assert("j"@[0] == 'j' && "j"@.len() == 1);
    assert("k"@[0] == 'k' && "k"@.len() == 1);
    assert("l"@[0] == 'l' && "l"@.len() == 1);
    assert("m"@[0] == 'm' && "m"@.len() == 1);
    assert("n"@[0] == 'n' && "n"@.len() == 1);
    assert("o"@[0] == 'o' && "o"@.len() == 1);
    assert("p"@[0] == 'p' && "p"@.len() == 1);
    assert("q"@[0] == 'q' && "q"@.len() == 1);
    assert("r"@[0] == 'r' && "r"@.len() == 1);
    assert("s"@[0] == 's' && "s"@.len() == 1);
    assert("t"@[0] == 't' && "t"@.len() == 1);
    assert("u"@[0] == 'u' && "u"@.len() == 1);
    assert("v"@[0] == 'v' && "v"@.len() == 1);
    assert("w"@[0] == 'w' && "w"@.len() == 1);
    assert("x"@[0] == 'x' && "x"@.len() == 1);
    assert("y"@[0] == 'y' && "y"@.len() == 1);
    assert("z"@[0] == 'z' && "z"@.len() == 1);
    assert(seq![c][0] == c);
    if c == 'a' {
        reveal_strlit("KeyA");
        assert(seq![c] =~= "a"@);
        assert("KeyA"@ =~= "Key"@ + seq!['A']);
    } else if c == 'b' {
        reveal_strlit("KeyB");
        assert(seq![c] =~= "b"@);
        assert("KeyB"@ =~= "Key"@ + seq!['B']);
    } else if c == 'c' {
        reveal_strlit("KeyC");
        assert(seq![c] =~= "c"@);
        assert("KeyC"@ =~= "Key"@ + seq!['C']);
    } else if c == 'd' {
        reveal_strlit("KeyD");
        assert(seq![c] =~= "d"@);
        assert("KeyD"@ =~= "Key"@ + seq!['D']);
    } else if c == 'e' {
        reveal_strlit("KeyE");
        assert(seq![c] =~= "e"@);
        assert("KeyE"@ =~= "Key"@ + seq!['E']);
    } else if c == 'f' {
        reveal_strlit("KeyF");
        assert(seq![c] =~= "f"@);
        assert("KeyF"@ =~= "Key"@ + seq!['F']);
    } else if c == 'g' {
        reveal_strlit("KeyG");
        assert(seq![c] =~= "g"@);
        assert("KeyG"@ =~= "Key"@ + seq!['G']);
    } else if c == 'h' {
        reveal_strlit("KeyH");
        assert(seq![c] =~= "h"@);
        assert("KeyH"@ =~= "Key"@ + seq!['H']);
    } else if c == 'i' {
        reveal_strlit("KeyI");
        assert(seq![c] =~= "i"@);
        assert("KeyI"@ =~= "Key"@ + seq!['I']);
    } else if c == 'j' {
        reveal_strlit("KeyJ");
        assert(seq![c] =~= "j"@);
        assert("KeyJ"@ =~= "Key"@ + seq!['J']);
    } else if c == 'k' {
        reveal_strlit("KeyK");
        assert(seq![c] =~= "k"@);
        assert("KeyK"@ =~= "Key"@ + seq!['K']);
    } else if c == 'l' {
        reveal_strlit("KeyL");
        assert(seq![c] =~= "l"@);
        assert("KeyL"@ =~= "Key"@ + seq!['L']);
    } else if c == 'm' {
        reveal_strlit("KeyM");
        assert(seq![c] =~= "m"@);
        assert("KeyM"@ =~= "Key"@ + seq!['M']);
    } else if c == 'n' {
        reveal_strlit("KeyN");
        assert(seq![c] =~= "n"@);
        assert("KeyN"@ =~= "Key"@ + seq!['N']);
    } else if c == 'o' {
        reveal_strlit("KeyO");
        assert(seq![c] =~= "o"@);
        assert("KeyO"@ =~= "Key"@ + seq!['O']);
    } else if c == 'p' {
        reveal_strlit("KeyP");
        assert(seq![c] =~= "p"@);
        assert("KeyP"@ =~= "Key"@ + seq!['P']);
    } else if c == 'q' {
        reveal_strlit("KeyQ");
        assert(seq![c] =~= "q"@);
        assert("KeyQ"@ =~= "Key"@ + seq!['Q']);
    } else if c == 'r' {
        reveal_strlit("KeyR");
        assert(seq![c] =~= "r"@);
        assert("KeyR"@ =~= "Key"@ + seq!['R']);
    } else if c == 's' {
        reveal_strlit("KeyS");
        assert(seq![c] =~= "s"@);
        assert("KeyS"@ =~= "Key"@ + seq!['S']);
    } else if c == 't' {
        reveal_strlit("KeyT");
        assert(seq![c] =~= "t"@);
        assert("KeyT"@ =~= "Key"@ + seq!['T']);
    } else if c == 'u' {
        reveal_strlit("KeyU");
        assert(seq![c] =~= "u"@);
        assert("KeyU"@ =~= "Key"@ + seq!['U']);
    } else if c == 'v' {
        reveal_strlit("KeyV");
        assert(seq![c] =~= "v"@);
        assert("KeyV"@ =~= "Key"@ + seq!['V']);
    } else if c == 'w' {
        reveal_strlit("KeyW");
        assert(seq![c] =~= "w"@);
        assert("KeyW"@ =~= "Key"@ + seq!['W']);
    } else if c == 'x' {
        reveal_strlit("KeyX");
        assert(seq![c] =~= "x"@);
        assert("KeyX"@ =~= "Key"@ + seq!['X']);
    } else if c == 'y' {
        reveal_strlit("KeyY");
        assert(seq![c] =~= "y"@);
        assert("KeyY"@ =~= "Key"@ + seq!['Y']);
    } else if c == 'z' {
        reveal_strlit("KeyZ");
        assert(seq![c] =~= "z"@);
        assert("KeyZ"@ =~= "Key"@ + seq!['Z']);
    }
}

proof fn lemma_digit_named(c: char)
    requires
        '0' <= c <= '9',
    ensures
        key_named(seq![c]) matches Some(k) && key_label(k) == "Digit"@ + seq![c],
{
    reveal_strlit("a");
    reveal_strlit("b");
    reveal_strlit("c");
    reveal_strlit("d");
    reveal_strlit("e");
    reveal_strlit("f");
    reveal_strlit("g");
    reveal_strlit("h");
    reveal_strlit("i");
    reveal_strlit("j");
    reveal_strlit("k");
    reveal_strlit("l");
    reveal_strlit("m");
    reveal_strlit("n");
    reveal_strlit("o");
    reveal_strlit("p");
    reveal_strlit("q");
    reveal_strlit("r");
    reveal_strlit("s");
    reveal_strlit("t");
    reveal_strlit("u");
    reveal_strlit("v");
    reveal_strlit("w");
    reveal_strlit("x");
    reveal_strlit("y");
    reveal_strlit("z");
    reveal_strlit("0");
    reveal_strlit("1");
    reveal_strlit("2");
    reveal_strlit("3");
    reveal_strlit("4");
    reveal_strlit("5");
    reveal_strlit("6");
    reveal_strlit("7");
    reveal_strlit("8");
    reveal_strlit("9");
    reveal_strlit("Digit");
    assert("a"@[0] == 'a' && "a"@.len() == 1);
    assert("b"@[0] == 'b' && "b"@.len() == 1);
    assert("c"@[0] == 'c' && "c"@.len() == 1);
    assert("d"@[0] == 'd' && "d"@.len() == 1);
    assert("e"@[0] == 'e' && "e"@.len() == 1);
    assert("f"@[0] == 'f' && "f"@.len() == 1);
    assert("g"@[0] == 'g' && "g"@.len() == 1);
    assert("h"@[0] == 'h' && "h"@.len() == 1);
    assert("i"@[0] == 'i' && "i"@.len() == 1);
    assert("j"@[0] == 'j' && "j"@.len() == 1);
    assert("k"@[0] == 'k' && "k"@.len() == 1);
    assert("l"@[0] == 'l' && "l"@.len() == 1);
    assert("m"@[0] == 'm' && "m"@.len() == 1);
    assert("n"@[0] == 'n' && "n"@.len() == 1);
    assert("o"@[0] == 'o' && "o"@.len() == 1);
    assert("p"@[0] == 'p' && "p"@.len() == 1);
    assert("q"@[0] == 'q' && "q"@.len() == 1);
    assert("r"@[0] == 'r' && "r"@.len() == 1);
    assert("s"@[0] == 's' && "s"@.len() == 1);
    assert("t"@[0] == 't' && "t"@.len() == 1);
    assert("u"@[0] == 'u' && "u"@.len() == 1);
    assert("v"@[0] == 'v' && "v"@.len() == 1);
    assert("w"@[0] == 'w' && "w"@.len() == 1);
    assert("x"@[0] == 'x' && "x"@.len() == 1);
    assert("y"@[0] == 'y' && "y"@.len() == 1);
    assert("z"@[0] == 'z' && "z"@.len() == 1);
    assert("0"@[0] == '0' && "0"@.len() == 1);
    assert("1"@[0] == '1' && "1"@.len() == 1);
    assert("2"@[0] == '2' && "2"@.len() == 1);
    assert("3"@[0] == '3' && "3"@.len() == 1);
    assert("4"@[0] == '4' && "4"@.len() == 1);
    assert("5"@[0] == '5' && "5"@.len() == 1);
    assert("6"@[0] == '6' && "6"@.len() == 1);
    assert("7"@[0] == '7' && "7"@.len() == 1);
    assert("8"@[0] == '8' && "8"@.len() == 1);
    assert("9"@[0] == '9' && "9"@.len() == 1);
    assert(seq![c][0] == c);
    if c == '0' {
        reveal_strlit("Digit0");
        assert(seq![c] =~= "0"@);
        assert("Digit0"@ =~= "Digit"@ + seq!['0']);
    } else if c == '1' {
        reveal_strlit("Digit1");
        assert(seq![c] =~= "1"@);
        assert("Digit1"@ =~= "Digit"@ + seq!['1']);
    } else if c == '2' {
        reveal_strlit("Digit2");
        assert(seq![c] =~= "2"@);
        assert("Digit2"@ =~= "Digit"@ + seq!['2']);
    } else if c == '3' {
        reveal_strlit("Digit3");
        assert(seq![c] =~= "3"@);
        assert("Digit3"@ =~= "Digit"@ + seq!['3']);
    } else if c == '4' {
        reveal_strlit("Digit4");
        assert(seq![c] =~= "4"@);
        assert("Digit4"@ =~= "Digit"@ + seq!['4']);
    } else if c == '5' {
        reveal_strlit("Digit5");
        assert(seq![c] =~= "5"@);
        assert("Digit5"@ =~= "Digit"@ + seq!['5']);
    } else if c == '6' {
        reveal_strlit("Digit6");
        assert(seq![c] =~= "6"@);
        assert("Digit6"@ =~= "Digit"@ + seq!['6']);
    } else if c == '7' {
        reveal_strlit("Digit7");
        assert(seq![c] =~= "7"@);
        assert("Digit7"@ =~= "Digit"@ + seq!['7']);
    } else if c == '8' {
        reveal_strlit("Digit8");
        assert(seq![c] =~= "8"@);
        assert("Digit8"@ =~= "Digit"@ + seq!['8']);
    } else if c == '9' {
        reveal_strlit("Digit9");
        assert(seq![c] =~= "9"@);
        assert("Digit9"@ =~= "Digit"@ + seq!['9']);
    }
}

/// A one-letter key name, small or capital, is the key of that letter: the
/// key code named `Key` followed by the capital letter. So no two letters
/// share a key.
pub proof fn law_letter_is_its_key(c: char)
    requires
        ('a' <= c <= 'z') || ('A' <= c <= 'Z'),
    ensures
        key_code_with(ascii_lowering(), seq![c]) matches Ok(k) && key_label(k) == "Key"@ + seq![
            ascii_upper(ascii_lower(c)),
        ],
{
    assert(ascii_lowercase(seq![c]) =~= seq![ascii_lower(c)]);
    lemma_letter_named(ascii_lower(c));
}

/// A one-digit key name is the key of that digit: the key code named
/// `Digit` followed by the digit.
pub proof fn law_digit_is_its_key(c: char)
    requires
        '0' <= c <= '9',
    ensures
        key_code_with(ascii_lowering(), seq![c]) matches Ok(k) && key_label(k) == "Digit"@ + seq![c],
{
    assert(ascii_lowercase(seq![c]) =~= seq![c]);
    lemma_digit_named(c);
}

/// `F1` to `F12`, in either case, name the function keys of those numbers:
/// the key code named `F` followed by the number.
pub proof fn law_function_key_is_its_key(n: nat)
    requires
        1 <= n <= 12,
    ensures
        key_code_with(ascii_lowering(), "F"@ + decimal(n)) matches Ok(k) && key_label(k) == "F"@
            + decimal(n),
        key_code_with(ascii_lowering(), "f"@ + decimal(n)) == key_code_with(
            ascii_lowering(),
            "F"@ + decimal(n),
        ),
{
    reveal_strlit("F");
    reveal_strlit("f");
    assert("F"@ =~= seq!['F']);
    assert("f"@ =~= seq!['f']);
    reveal_with_fuel(decimal, 3);
    reveal_strlit("a");
    assert("a"@.len() == 1);
    reveal_strlit("b");
    assert("b"@.len() == 1);
    reveal_strlit("c");
    assert("c"@.len() == 1);
    reveal_strlit("d");
    assert("d"@.len() == 1);
    reveal_strlit("e");
    assert("e"@.len() == 1);
    reveal_strlit("f");
    assert("f"@.len() == 1);
    reveal_strlit("g");
    assert("g"@.len() == 1);
    reveal_strlit("h");
    assert("h"@.len() == 1);
    reveal_strlit("i");
    assert("i"@.len() == 1);
    reveal_strlit("j");
    assert("j"@.len() == 1);
    reveal_strlit("k");
    assert("k"@.len() == 1);
    reveal_strlit("l");
    assert("l"@.len() == 1);
    reveal_strlit("m");
    assert("m"@.len() == 1);
    reveal_strlit("n");
    assert("n"@.len() == 1);
    reveal_strlit("o");
    assert("o"@.len() == 1);
    reveal_strlit("p");
    assert("p"@.len() == 1);
    reveal_strlit("q");
    assert("q"@.len() == 1);
    reveal_strlit("r");
    assert("r"@.len() == 1);
    reveal_strlit("s");
    assert("s"@.len() == 1);
    reveal_strlit("t");
    assert("t"@.len() == 1);
    reveal_strlit("u");
    assert("u"@.len() == 1);
    reveal_strlit("v");
    assert("v"@.len() == 1);
    reveal_strlit("w");
    assert("w"@.len() == 1);
    reveal_strlit("x");
    assert("x"@.len() == 1);
    reveal_strlit("y");
    assert("y"@.len() == 1);
    reveal_strlit("z");
    assert("z"@.len() == 1);
    reveal_strlit("0");
    assert("0"@.len() == 1);
    reveal_strlit("1");
    assert("1"@.len() == 1);
    reveal_strlit("2");
    assert("2"@.len() == 1);
    reveal_strlit("3");
    assert("3"@.len() == 1);
    reveal_strlit("4");
    assert("4"@.len() == 1);
    reveal_strlit("5");
    assert("5"@.len() == 1);
    reveal_strlit("6");
    assert("6"@.len() == 1);
    reveal_strlit("7");
    assert("7"@.len() == 1);
    reveal_strlit("8");
    assert("8"@.len() == 1);
    reveal_strlit("9");
    assert("9"@.len() == 1);
    reveal_strlit("f1");
    assert("f1"@ =~= seq!['f', '1']);
    reveal_strlit("f2");
    assert("f2"@ =~= seq!['f', '2']);
    reveal_strlit("f3");
    assert("f3"@ =~= seq!['f', '3']);
    reveal_strlit("f4");
    assert("f4"@ =~= seq!['f', '4']);
    reveal_strlit("f5");
    assert("f5"@ =~= seq!['f', '5']);
    reveal_strlit("f6");
    assert("f6"@ =~= seq!['f', '6']);
    reveal_strlit("f7");
    assert("f7"@ =~= seq!['f', '7']);
    reveal_strlit("f8");
    assert("f8"@ =~= seq!['f', '8']);
    reveal_strlit("f9");
    assert("f9"@ =~= seq!['f', '9']);
    reveal_strlit("f10");
    assert("f10"@ =~= seq!['f', '1', '0']);
    reveal_strlit("f11");
    assert("f11"@ =~= seq!['f', '1', '1']);
    reveal_strlit("f12");
    assert("f12"@ =~= seq!['f', '1', '2']);
    if n == 1 {
        reveal_strlit("F1");
        assert(decimal(n) =~= seq!['1']);
        assert(ascii_lowercase("F"@ + decimal(n)) =~= "f1"@);
        assert("F1"@ =~= "F"@ + decimal(n));
    } else if n == 2 {
        reveal_strlit("F2");
        assert(decimal(n) =~= seq!['2']);
        assert(ascii_lowercase("F"@ + decimal(n)) =~= "f2"@);
        assert("F2"@ =~= "F"@ + decimal(n));
    } else if n == 3 {
        reveal_strlit("F3");
        assert(decimal(n) =~= seq!['3']);
        assert(ascii_lowercase("F"@ + decimal(n)) =~= "f3"@);
        assert("F3"@ =~= "F"@ + decimal(n));
    } else if n == 4 {
        reveal_strlit("F4");
        assert(decimal(n) =~= seq!['4']);
        assert(ascii_lowercase("F"@ + decimal(n)) =~= "f4"@);
        assert("F4"@ =~= "F"@ + decimal(n));
    } else if n == 5 {
        reveal_strlit("F5");
        assert(decimal(n) =~= seq!['5']);
        assert(ascii_lowercase("F"@ + decimal(n)) =~= "f5"@);
        assert("F5"@ =~= "F"@ + decimal(n));
    } else if n == 6 {
        reveal_strlit("F6");
        assert(decimal(n) =~= seq!['6']);
        assert(ascii_lowercase("F"@ + decimal(n)) =~= "f6"@);
        assert("F6"@ =~= "F"@ + decimal(n));
    } else if n == 7 {
        reveal_strlit("F7");
        assert(decimal(n) =~= seq!['7']);
        assert(ascii_lowercase("F"@ + decimal(n)) =~= "f7"@);
        assert("F7"@ =~= "F"@ + decimal(n));
    } else if n == 8 {
        reveal_strlit("F8");
        assert(decimal(n) =~= seq!['8']);
        assert(ascii_lowercase("F"@ + decimal(n)) =~= "f8"@);
        assert("F8"@ =~= "F"@ + decimal(n));
    } else if n == 9 {
        reveal_strlit("F9");
        assert(decimal(n) =~= seq!['9']);
        assert(ascii_lowercase("F"@ + decimal(n)) =~= "f9"@);
        assert("F9"@ =~= "F"@ + decimal(n));
    } else if n == 10 {
        reveal_strlit("F10");
        assert(decimal(n) =~= seq!['1', '0']);
        assert(ascii_lowercase("F"@ + decimal(n)) =~= "f10"@);
        assert("F10"@ =~= "F"@ + decimal(n));
    } else if n == 11 {
        reveal_strlit("F11");
        assert(decimal(n) =~= seq!['1', '1']);
        assert(ascii_lowercase("F"@ + decimal(n)) =~= "f11"@);
        assert("F11"@ =~= "F"@ + decimal(n));
    } else if n == 12 {
        reveal_strlit("F12");
        assert(decimal(n) =~= seq!['1', '2']);
        assert(ascii_lowercase("F"@ + decimal(n)) =~= "f12"@);
        assert("F12"@ =~= "F"@ + decimal(n));
    }
    assert(ascii_lowercase("f"@ + decimal(n)) =~= ascii_lowercase("F"@ + decimal(n)));
}

} // verus!
