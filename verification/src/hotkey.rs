//! Global hotkeys: the hotkey model (modifier keys and a virtual key code),
//! matching key events against it, and parsing hotkey text such as
//! "cmd+space" or "ctrl+shift+p".

use vstd::prelude::*;

use crate::keycodes;
use crate::text::{char_len, find_char, index_from, lemma_index_from, str_equal, substring};

verus! {

/// The Command key's bit in the platform's modifier flags.
pub const COMMAND_FLAG: u64 = 0x100000;
/// The Control key's bit in the platform's modifier flags.
pub const CONTROL_FLAG: u64 = 0x40000;
/// The Option key's bit in the platform's modifier flags.
pub const OPTION_FLAG: u64 = 0x80000;
/// The Shift key's bit in the platform's modifier flags.
pub const SHIFT_FLAG: u64 = 0x20000;

/// The modifier keys a hotkey or a key event holds.
#[derive(Debug, Clone, Copy, PartialEq, Eq, Structural)]
pub struct ModifierFlags {
    pub command: bool,
    pub control: bool,
    pub option: bool,
    pub shift: bool,
}

impl ModifierFlags {
    /// No modifier keys.
    pub fn empty() -> (r: Self)
        ensures
            !r.command && !r.control && !r.option && !r.shift,
    {
        ModifierFlags { command: false, control: false, option: false, shift: false }
    }

    /// The modifier keys among the platform's modifier flags; other flags
    /// (caps lock, function key, ...) are ignored.
    pub fn from_bits(bits: u64) -> (r: Self)
        ensures
            r.command == (bits & COMMAND_FLAG != 0),
            r.control == (bits & CONTROL_FLAG != 0),
            r.option == (bits & OPTION_FLAG != 0),
            r.shift == (bits & SHIFT_FLAG != 0),
    {
        ModifierFlags {
            command: bits & COMMAND_FLAG != 0,
            control: bits & CONTROL_FLAG != 0,
            option: bits & OPTION_FLAG != 0,
            shift: bits & SHIFT_FLAG != 0,
        }
    }
}

/// A hotkey combination (modifier keys + key code).
#[derive(Debug, Clone, Copy, PartialEq, Eq, Structural)]
pub struct Hotkey {
    /// Modifier keys (Cmd, Ctrl, Alt, Shift).
    pub modifiers: ModifierFlags,
    /// Virtual key code.
    pub keycode: u16,
}

impl Hotkey {
    /// Create a new hotkey.
    pub fn new(modifiers: ModifierFlags, keycode: u16) -> (r: Self)
        ensures
            r.modifiers == modifiers,
            r.keycode == keycode,
    {
        Hotkey { modifiers, keycode }
    }

    /// Whether a key event matches this hotkey: the same modifier keys
    /// (others ignored) and the same key code.
    pub fn matches(&self, event_modifiers: ModifierFlags, event_keycode: u16) -> (r: bool)
        ensures
            r == (self.modifiers == event_modifiers && self.keycode == event_keycode),
    {
        self.modifiers.command == event_modifiers.command && self.modifiers.control
            == event_modifiers.control && self.modifiers.option == event_modifiers.option
            && self.modifiers.shift == event_modifiers.shift && self.keycode == event_keycode
    }
}

impl Default for Hotkey {
    /// Cmd+Shift+Space (avoids Spotlight's Cmd+Space).
    fn default() -> (r: Self)
        ensures
            r.modifiers == (ModifierFlags { command: true, control: false, option: false, shift: true }),
            r.keycode == keycodes::SPACE,
    {
        Hotkey {
            modifiers: ModifierFlags { command: true, control: false, option: false, shift: true },
            keycode: keycodes::SPACE,
        }
    }
}

// =============================================================================
// Text of a hotkey
// =============================================================================

/// The parts of a text between the occurrences of a separator.
pub open spec fn split_parts(s: Seq<char>, sep: char) -> Seq<Seq<char>>
    decreases s.len(),
{
    match index_from(s, sep, 0) {
        Some(i) => if 0 <= i < s.len() {
            seq![s.take(i)] + split_parts(s.skip(i + 1), sep)
        } else {
            seq![s]
        },
        None => seq![s],
    }
}

/// Searching a suffix finds the same occurrence, shifted.
proof fn lemma_index_from_skip(s: Seq<char>, c: char, from: int)
    requires
        0 <= from <= s.len(),
    ensures
        match index_from(s, c, from) {
            Some(i) => index_from(s.skip(from), c, 0) == Some(i - from),
            None => index_from(s.skip(from), c, 0) is None,
        },
{
    lemma_index_from(s, c, from);
    lemma_index_from(s.skip(from), c, 0);
    match index_from(s, c, from) {
        Some(i) => {
            match index_from(s.skip(from), c, 0) {
                Some(j) => {
                    assert(s.skip(from)[j] == s[from + j]);
                    assert(s.skip(from)[i - from] == s[i]);
                },
                None => {
                    assert(s.skip(from)[i - from] == s[i]);
                },
            }
        },
        None => {
            match index_from(s.skip(from), c, 0) {
                Some(j) => {
                    assert(s.skip(from)[j] == s[from + j]);
                },
                None => {},
            }
        },
    }
}

/// Split a text at each occurrence of a separator character.
pub fn split_on(s: &str, sep: char) -> (r: Vec<&str>)
    ensures
        r@.map_values(|p: &str| p@) == split_parts(s@, sep),
{
    let n = char_len(s);
    let mut out: Vec<&str> = Vec::new();
    let mut pos: usize = 0;
    proof {
        assert(s@.skip(0) =~= s@);
        assert(out@.map_values(|p: &str| p@) + split_parts(s@, sep) =~= split_parts(s@, sep));
    }
    loop
        invariant
            n == s@.len(),
            pos <= n,
            out@.map_values(|p: &str| p@) + split_parts(s@.skip(pos as int), sep) == split_parts(s@, sep),
        decreases n - pos,
    {
        proof {
            lemma_index_from_skip(s@, sep, pos as int);
        }
        let ghost before = out@;
        let ghost rest = s@.skip(pos as int);
        match find_char(s, sep, pos) {
            Some(i) => {
                proof {
                    lemma_index_from(s@, sep, pos as int);
                }
                let part = substring(s, pos, i);
                out.push(part);
                proof {
                    let k = i - pos;
                    assert(rest.take(k) =~= s@.subrange(pos as int, i as int));
                    assert(rest.skip(k + 1) =~= s@.skip(i as int + 1));
                    assert(split_parts(rest, sep) == seq![rest.take(k)] + split_parts(rest.skip(k + 1), sep));
                    assert(out@.map_values(|p: &str| p@) =~= before.map_values(|p: &str| p@).push(rest.take(k)));
                    assert(out@.map_values(|p: &str| p@) + split_parts(s@.skip(i as int + 1), sep) =~= before.map_values(|p: &str| p@) + split_parts(rest, sep));
                }
                pos = i + 1;
            },
            None => {
                let part = substring(s, pos, n);
                out.push(part);
                proof {
                    assert(rest =~= s@.subrange(pos as int, n as int));
                    assert(split_parts(rest, sep) == seq![rest]);
                    assert(out@.map_values(|p: &str| p@) =~= before.map_values(|p: &str| p@) + split_parts(rest, sep));
                }
                return out;
            },
        }
    }
}

/// Whether a character has the Unicode property White_Space, by which
/// `str::trim` decides what to remove.
pub open spec fn is_white_space(c: char) -> bool {
    let u = c as u32;
    (0x9 <= u <= 0xd) || u == 0x20 || u == 0x85 || u == 0xa0 || u == 0x1680 || (0x2000 <= u <= 0x200a)
        || u == 0x2028 || u == 0x2029 || u == 0x202f || u == 0x205f || u == 0x3000
}

/// A text without its leading white space.
pub open spec fn trim_start(s: Seq<char>) -> Seq<char>
    decreases s.len(),
{
    if s.len() > 0 && is_white_space(s[0]) {
        trim_start(s.drop_first())
    } else {
        s
    }
}

/// A text without its trailing white space.
pub open spec fn trim_end(s: Seq<char>) -> Seq<char>
    decreases s.len(),
{
    if s.len() > 0 && is_white_space(s.last()) {
        trim_end(s.drop_last())
    } else {
        s
    }
}

/// A text without leading and trailing white space, as `str::trim` gives it.
pub open spec fn trimmed(s: Seq<char>) -> Seq<char> {
    trim_end(trim_start(s))
}

/// What `str::to_lowercase` gives for a text.
pub uninterp spec fn lowercased(s: Seq<char>) -> Seq<char>;

fn white_space(c: char) -> (r: bool)
    ensures
        r == is_white_space(c),
{
    let u = c as u32;
    (0x9 <= u && u <= 0xd) || u == 0x20 || u == 0x85 || u == 0xa0 || u == 0x1680 || (0x2000 <= u && u <= 0x200a)
        || u == 0x2028 || u == 0x2029 || u == 0x202f || u == 0x205f || u == 0x3000
}

/// The text without leading and trailing white space.
pub(crate) fn trim_str(s: &str) -> (r: &str)
    ensures
        r@ == trimmed(s@),
{
    let n = char_len(s);
    let mut a: usize = 0;
    proof {
        assert(s@.subrange(0, n as int) =~= s@);
    }
    while a < n && white_space(s.get_char(a))
        invariant
            n == s@.len(),
            0 <= a <= n,
            trim_start(s@) == trim_start(s@.subrange(a as int, n as int)),
        decreases n - a,
    {
        proof {
            assert(s@.subrange(a as int, n as int).drop_first() =~= s@.subrange(a as int + 1, n as int));
        }
        a = a + 1;
    }
    proof {
        if a < n {
            assert(s@.subrange(a as int, n as int)[0] == s@[a as int]);
        }
        assert(trim_start(s@) == s@.subrange(a as int, n as int));
    }
    let mut b: usize = n;
    while b > a && white_space(s.get_char(b - 1))
        invariant
            n == s@.len(),
            0 <= a <= b <= n,
            trim_end(s@.subrange(a as int, n as int)) == trim_end(s@.subrange(a as int, b as int)),
        decreases b - a,
    {
        proof {
            assert(s@.subrange(a as int, b as int).drop_last() =~= s@.subrange(a as int, b as int - 1));
        }
        b = b - 1;
    }
    proof {
        if b > a {
            assert(s@.subrange(a as int, b as int).last() == s@[b - 1]);
        }
        assert(trim_end(s@.subrange(a as int, b as int)) == s@.subrange(a as int, b as int));
    }
    substring(s, a, b)
}

/// The text in lowercase.
///
/// Calls `str::to_lowercase`; the contract names its result `lowercased` of
/// the text, which depends on the text alone.
#[verifier::external_body]
fn to_lowercase(s: &str) -> (r: String)
    ensures
        r@ == lowercased(s@),
{
    s.to_lowercase()
}

/// A modifier key of a hotkey.
#[derive(Debug, Clone, Copy, PartialEq, Eq, Structural)]
pub enum ModifierKey {
    Cmd,
    Ctrl,
    Alt,
    Shift,
}

/// The modifier key a part of hotkey text names, if any.
pub open spec fn modifier_of(part: Seq<char>) -> Option<ModifierKey> {
    if part == "cmd"@ || part == "command"@ || part == "\u{2318}"@ {
        Some(ModifierKey::Cmd)
    } else if part == "ctrl"@ || part == "control"@ || part == "\u{2303}"@ {
        Some(ModifierKey::Ctrl)
    } else if part == "alt"@ || part == "option"@ || part == "opt"@ || part == "\u{2325}"@ {
        Some(ModifierKey::Alt)
    } else if part == "shift"@ || part == "\u{21E7}"@ {
        Some(ModifierKey::Shift)
    } else {
        None
    }
}

/// The key code a key name stands for, if any.
pub open spec fn key_code_of(name: Seq<char>) -> Option<u16> {
    if name == "a"@ { Some(keycodes::A) }
    else if name == "b"@ { Some(keycodes::B) }
    else if name == "c"@ { Some(keycodes::C) }
    else if name == "d"@ { Some(keycodes::D) }
    else if name == "e"@ { Some(keycodes::E) }
    else if name == "f"@ { Some(keycodes::F) }
    else if name == "g"@ { Some(keycodes::G) }
    else if name == "h"@ { Some(keycodes::H) }
    else if name == "i"@ { Some(keycodes::I) }
    else if name == "j"@ { Some(keycodes::J) }
    else if name == "k"@ { Some(keycodes::K) }
    else if name == "l"@ { Some(keycodes::L) }
    else if name == "m"@ { Some(keycodes::M) }
    else if name == "n"@ { Some(keycodes::N) }
    else if name == "o"@ { Some(keycodes::O) }
    else if name == "p"@ { Some(keycodes::P) }
    else if name == "q"@ { Some(keycodes::Q) }
    else if name == "r"@ { Some(keycodes::R) }
    else if name == "s"@ { Some(keycodes::S) }
    else if name == "t"@ { Some(keycodes::T) }
    else if name == "u"@ { Some(keycodes::U) }
    else if name == "v"@ { Some(keycodes::V) }
    else if name == "w"@ { Some(keycodes::W) }
    else if name == "x"@ { Some(keycodes::X) }
    else if name == "y"@ { Some(keycodes::Y) }
    else if name == "z"@ { Some(keycodes::Z) }
    else if name == "space"@ || name == " "@ { Some(keycodes::SPACE) }
    else if name == "return"@ || name == "enter"@ { Some(keycodes::RETURN) }
    else if name == "tab"@ { Some(keycodes::TAB) }
    else if name == "escape"@ || name == "esc"@ { Some(keycodes::ESCAPE) }
    else { None }
}

/// A letter key is named by its letter: for every lowercase letter, the key
/// name of that one letter gives the letter's virtual key code, and
/// different letters give different key codes.
pub proof fn law_letter_key_codes(c: char, d: char)
    requires
        'a' <= c <= 'z',
        'a' <= d <= 'z',
    ensures
        key_code_of(seq![c]) == Some(keycodes::letter_key_code(c)),
        c != d ==> key_code_of(seq![c]) != key_code_of(seq![d]),
{
    lemma_letter_key_code(c);
    lemma_letter_key_code(d);
    keycodes::lemma_letter_key_codes_distinct(c);
    keycodes::lemma_letter_key_codes_distinct(d);
}

/// The key name of one letter gives that letter's key code.
proof fn lemma_letter_key_code(c: char)
    requires
        'a' <= c <= 'z',
    ensures
        key_code_of(seq![c]) == Some(keycodes::letter_key_code(c)),
{
    reveal_strlit("a");
    reveal_strlit("b");
    reveal_strlit("c");
    reveal_strlit("d");
    reveal_strlit("e");
    reveal_strlit("f");
    reveal_strlit("g");
    reveal_strlit("h");
    reveal_strlit("i");
    reveal_strlit("j");
    reveal_strlit("k");
    reveal_strlit("l");
    reveal_strlit("m");
    reveal_strlit("n");
    reveal_strlit("o");
    reveal_strlit("p");
    reveal_strlit("q");
    reveal_strlit("r");
    reveal_strlit("s");
    reveal_strlit("t");
    reveal_strlit("u");
    reveal_strlit("v");
    reveal_strlit("w");
    reveal_strlit("x");
    reveal_strlit("y");
    reveal_strlit("z");
    reveal_strlit(" ");
    reveal_strlit("space");
    reveal_strlit("return");
    reveal_strlit("enter");
    reveal_strlit("tab");
    reveal_strlit("escape");
    reveal_strlit("esc");
    assert((seq![c] == "a"@) == (c == 'a')) by {
        if seq![c] == "a"@ {
            assert(seq![c][0] == "a"@[0]);
        }
        if c == 'a' {
            assert(seq![c] =~= "a"@);
        }
    }
    assert((seq![c] == "b"@) == (c == 'b')) by {
        if seq![c] == "b"@ {
            assert(seq![c][0] == "b"@[0]);
        }
        if c == 'b' {
            assert(seq![c] =~= "b"@);
        }
    }
    assert((seq![c] == "c"@) == (c == 'c')) by {
        if seq![c] == "c"@ {
            assert(seq![c][0] == "c"@[0]);
        }
        if c == 'c' {
            assert(seq![c] =~= "c"@);
        }
    }
    assert((seq![c] == "d"@) == (c == 'd')) by {
        if seq![c] == "d"@ {
            assert(seq![c][0] == "d"@[0]);
        }
        if c == 'd' {
            assert(seq![c] =~= "d"@);
        }
    }
    assert((seq![c] == "e"@) == (c == 'e')) by {
        if seq![c] == "e"@ {
            assert(seq![c][0] == "e"@[0]);
        }
        if c == 'e' {
            assert(seq![c] =~= "e"@);
        }
    }
    assert((seq![c] == "f"@) == (c == 'f')) by {
        if seq![c] == "f"@ {
            assert(seq![c][0] == "f"@[0]);
        }
        if c == 'f' {
            assert(seq![c] =~= "f"@);
        }
    }
    assert((seq![c] == "g"@) == (c == 'g')) by {
        if seq![c] == "g"@ {
            assert(seq![c][0] == "g"@[0]);
        }
        if c == 'g' {
            assert(seq![c] =~= "g"@);
        }
    }
    assert((seq![c] == "h"@) == (c == 'h')) by {
        if seq![c] == "h"@ {
            assert(seq![c][0] == "h"@[0]);
        }
        if c == 'h' {
            assert(seq![c] =~= "h"@);
        }
    }
    assert((seq![c] == "i"@) == (c == 'i')) by {
        if seq![c] == "i"@ {
            assert(seq![c][0] == "i"@[0]);
        }
        if c == 'i' {
            assert(seq![c] =~= "i"@);
        }
    }
    assert((seq![c] == "j"@) == (c == 'j')) by {
        if seq![c] == "j"@ {
            assert(seq![c][0] == "j"@[0]);
        }
        if c == 'j' {
            assert(seq![c] =~= "j"@);
        }
    }
    assert((seq![c] == "k"@) == (c == 'k')) by {
        if seq![c] == "k"@ {
            assert(seq![c][0] == "k"@[0]);
        }
        if c == 'k' {
            assert(seq![c] =~= "k"@);
        }
    }
    assert((seq![c] == "l"@) == (c == 'l')) by {
        if seq![c] == "l"@ {
            assert(seq![c][0] == "l"@[0]);
        }
        if c == 'l' {
            assert(seq![c] =~= "l"@);
        }
    }
    assert((seq![c] == "m"@) == (c == 'm')) by {
        if seq![c] == "m"@ {
            assert(seq![c][0] == "m"@[0]);
        }
        if c == 'm' {
            assert(seq![c] =~= "m"@);
        }
    }
    assert((seq![c] == "n"@) == (c == 'n')) by {
        if seq![c] == "n"@ {
            assert(seq![c][0] == "n"@[0]);
        }
        if c == 'n' {
            assert(seq![c] =~= "n"@);
        }
    }
    assert((seq![c] == "o"@) == (c == 'o')) by {
        if seq![c] == "o"@ {
            assert(seq![c][0] == "o"@[0]);
        }
        if c == 'o' {
            assert(seq![c] =~= "o"@);
        }
    }
    assert((seq![c] == "p"@) == (c == 'p')) by {
        if seq![c] == "p"@ {
            assert(seq![c][0] == "p"@[0]);
        }
        if c == 'p' {
            assert(seq![c] =~= "p"@);
        }
    }
    assert((seq![c] == "q"@) == (c == 'q')) by {
        if seq![c] == "q"@ {
            assert(seq![c][0] == "q"@[0]);
        }
        if c == 'q' {
            assert(seq![c] =~= "q"@);
        }
    }
    assert((seq![c] == "r"@) == (c == 'r')) by {
        if seq![c] == "r"@ {
            assert(seq![c][0] == "r"@[0]);
        }
        if c == 'r' {
            assert(seq![c] =~= "r"@);
        }
    }
    assert((seq![c] == "s"@) == (c == 's')) by {
        if seq![c] == "s"@ {
            assert(seq![c][0] == "s"@[0]);
        }
        if c == 's' {
            assert(seq![c] =~= "s"@);
        }
    }
    assert((seq![c] == "t"@) == (c == 't')) by {
        if seq![c] == "t"@ {
            assert(seq![c][0] == "t"@[0]);
        }
        if c == 't' {
            assert(seq![c] =~= "t"@);
        }
    }
    assert((seq![c] == "u"@) == (c == 'u')) by {
        if seq![c] == "u"@ {
            assert(seq![c][0] == "u"@[0]);
        }
        if c == 'u' {
            assert(seq![c] =~= "u"@);
        }
    }
    assert((seq![c] == "v"@) == (c == 'v')) by {
        if seq![c] == "v"@ {
            assert(seq![c][0] == "v"@[0]);
        }
        if c == 'v' {
            assert(seq![c] =~= "v"@);
        }
    }
    assert((seq![c] == "w"@) == (c == 'w')) by {
        if seq![c] == "w"@ {
            assert(seq![c][0] == "w"@[0]);
        }
        if c == 'w' {
            assert(seq![c] =~= "w"@);
        }
    }
    assert((seq![c] == "x"@) == (c == 'x')) by {
        if seq![c] == "x"@ {
            assert(seq![c][0] == "x"@[0]);
        }
        if c == 'x' {
            assert(seq![c] =~= "x"@);
        }
    }
    assert((seq![c] == "y"@) == (c == 'y')) by {
        if seq![c] == "y"@ {
            assert(seq![c][0] == "y"@[0]);
        }
        if c == 'y' {
            assert(seq![c] =~= "y"@);
        }
    }
    assert((seq![c] == "z"@) == (c == 'z')) by {
        if seq![c] == "z"@ {
            assert(seq![c][0] == "z"@[0]);
        }
        if c == 'z' {
            assert(seq![c] =~= "z"@);
        }
    }
}

/// The key code of a key name.
pub fn key_name_to_code(name: &str) -> (r: Option<u16>)
    ensures
        r == key_code_of(name@),
        (name@.len() == 1 && 'a' <= name@[0] <= 'z') ==> r == Some(keycodes::letter_key_code(name@[0])),
{
    proof {
        if name@.len() == 1 && 'a' <= name@[0] <= 'z' {
            lemma_letter_key_code(name@[0]);
            assert(name@ =~= seq![name@[0]]);
        }
    }
    if str_equal(name, "a") { Some(keycodes::A) }
    else if str_equal(name, "b") { Some(keycodes::B) }
    else if str_equal(name, "c") { Some(keycodes::C) }
    else if str_equal(name, "d") { Some(keycodes::D) }
    else if str_equal(name, "e") { Some(keycodes::E) }
    else if str_equal(name, "f") { Some(keycodes::F) }
    else if str_equal(name, "g") { Some(keycodes::G) }
    else if str_equal(name, "h") { Some(keycodes::H) }
    else if str_equal(name, "i") { Some(keycodes::I) }
    else if str_equal(name, "j") { Some(keycodes::J) }
    else if str_equal(name, "k") { Some(keycodes::K) }
    else if str_equal(name, "l") { Some(keycodes::L) }
    else if str_equal(name, "m") { Some(keycodes::M) }
    else if str_equal(name, "n") { Some(keycodes::N) }
    else if str_equal(name, "o") { Some(keycodes::O) }
    else if str_equal(name, "p") { Some(keycodes::P) }
    else if str_equal(name, "q") { Some(keycodes::Q) }
    else if str_equal(name, "r") { Some(keycodes::R) }
    else if str_equal(name, "s") { Some(keycodes::S) }
    else if str_equal(name, "t") { Some(keycodes::T) }
    else if str_equal(name, "u") { Some(keycodes::U) }
    else if str_equal(name, "v") { Some(keycodes::V) }
    else if str_equal(name, "w") { Some(keycodes::W) }
    else if str_equal(name, "x") { Some(keycodes::X) }
    else if str_equal(name, "y") { Some(keycodes::Y) }
    else if str_equal(name, "z") { Some(keycodes::Z) }
    else if str_equal(name, "space") || str_equal(name, " ") { Some(keycodes::SPACE) }
    else if str_equal(name, "return") || str_equal(name, "enter") { Some(keycodes::RETURN) }
    else if str_equal(name, "tab") { Some(keycodes::TAB) }
    else if str_equal(name, "escape") || str_equal(name, "esc") { Some(keycodes::ESCAPE) }
    else { None }
}

/// The modifier key a part names.
pub fn modifier_from_name(part: &str) -> (r: Option<ModifierKey>)
    ensures
        r == modifier_of(part@),
{
    if str_equal(part, "cmd") || str_equal(part, "command") || str_equal(part, "\u{2318}") {
        Some(ModifierKey::Cmd)
    } else if str_equal(part, "ctrl") || str_equal(part, "control") || str_equal(part, "\u{2303}") {
        Some(ModifierKey::Ctrl)
    } else if str_equal(part, "alt") || str_equal(part, "option") || str_equal(part, "opt")
        || str_equal(part, "\u{2325}") {
        Some(ModifierKey::Alt)
    } else if str_equal(part, "shift") || str_equal(part, "\u{21E7}") {
        Some(ModifierKey::Shift)
    } else {
        None
    }
}

/// Modifier flags with one more key.
pub open spec fn with_modifier(m: ModifierFlags, k: ModifierKey) -> ModifierFlags {
    match k {
        ModifierKey::Cmd => ModifierFlags { command: true, ..m },
        ModifierKey::Ctrl => ModifierFlags { control: true, ..m },
        ModifierKey::Alt => ModifierFlags { option: true, ..m },
        ModifierKey::Shift => ModifierFlags { shift: true, ..m },
    }
}

/// Read normalized parts in order: modifier names add their key; any other
/// part sets the key code to the code of its name, or to none when it names
/// no key (the last such part decides).
pub open spec fn read_parts(parts: Seq<Seq<char>>) -> (ModifierFlags, Option<u16>)
    decreases parts.len(),
{
    if parts.len() == 0 {
        (ModifierFlags { command: false, control: false, option: false, shift: false }, None)
    } else {
        let (m, k) = read_parts(parts.drop_last());
        match modifier_of(parts.last()) {
            Some(key) => (with_modifier(m, key), k),
            None => (m, key_code_of(parts.last())),
        }
    }
}

/// The hotkey that read parts give, if they set a key code.
pub open spec fn hotkey_from_read(read: (ModifierFlags, Option<u16>)) -> Option<Hotkey> {
    match read.1 {
        Some(code) => Some(Hotkey { modifiers: read.0, keycode: code }),
        None => None,
    }
}

/// The hotkey text says: its parts between `+`, each trimmed and in
/// lowercase, read in order.
pub open spec fn hotkey_of(s: Seq<char>) -> Option<Hotkey> {
    hotkey_from_read(read_parts(split_parts(s, '+').map_values(|p: Seq<char>| lowercased(trimmed(p)))))
}

/// The hotkey that normalized parts (trimmed, in lowercase) describe: modifier
/// names add their key; any other part sets the key code, the last one
/// deciding; `None` when that part names no key or there is none.
pub fn hotkey_from_parts(parts: &Vec<String>) -> (r: Option<Hotkey>)
    ensures
        r == hotkey_from_read(read_parts(parts@.map_values(|p: String| p@))),
{
    let ghost names = parts@.map_values(|p: String| p@);
    let mut modifiers = ModifierFlags::empty();
    let mut keycode: Option<u16> = None;
    let mut i: usize = 0;
    while i < parts.len()
        invariant
            i <= parts@.len(),
            names == parts@.map_values(|p: String| p@),
            (modifiers, keycode) == read_parts(names.take(i as int)),
        decreases parts@.len() - i,
    {
        let part = parts[i].as_str();
        proof {
            assert(names.take(i as int + 1).drop_last() =~= names.take(i as int));
            assert(names.take(i as int + 1).last() == part@);
        }
        match modifier_from_name(part) {
            Some(ModifierKey::Cmd) => {
                modifiers.command = true;
            },
            Some(ModifierKey::Ctrl) => {
                modifiers.control = true;
            },
            Some(ModifierKey::Alt) => {
                modifiers.option = true;
            },
            Some(ModifierKey::Shift) => {
                modifiers.shift = true;
            },
            None => {
                keycode = key_name_to_code(part);
            },
        }
        i = i + 1;
    }
    proof {
        assert(names.take(parts@.len() as int) =~= names);
    }
    match keycode {
        Some(kc) => Some(Hotkey::new(modifiers, kc)),
        None => None,
    }
}

/// Parse a hotkey string like "cmd+space" or "ctrl+shift+p": split at `+`,
/// trim each part and put it in lowercase, then read the parts.
pub fn parse_hotkey(s: &str) -> (r: Option<Hotkey>)
    ensures
        r == hotkey_of(s@),
{
    let raw = split_on(s, '+');
    let mut parts: Vec<String> = Vec::new();
    let mut i: usize = 0;
    while i < raw.len()
        invariant
            i <= raw@.len(),
            raw@.map_values(|p: &str| p@) == split_parts(s@, '+'),
            parts@.map_values(|p: String| p@) == split_parts(s@, '+').take(i as int).map_values(
                |p: Seq<char>| lowercased(trimmed(p)),
            ),
        decreases raw@.len() - i,
    {
        let ghost before = parts@;
        parts.push(to_lowercase(trim_str(raw[i])));
        proof {
            assert(raw@.map_values(|p: &str| p@)[i as int] == raw@[i as int]@);
            assert(split_parts(s@, '+').take(i as int + 1) =~= split_parts(s@, '+').take(i as int).push(raw@[i as int]@));
            assert(parts@.map_values(|p: String| p@) =~= before.map_values(|p: String| p@).push(lowercased(trimmed(raw@[i as int]@))));
            assert(split_parts(s@, '+').take(i as int + 1).map_values(|p: Seq<char>| lowercased(trimmed(p))) =~= split_parts(s@, '+').take(i as int).map_values(|p: Seq<char>| lowercased(trimmed(p))).push(lowercased(trimmed(raw@[i as int]@))));
        }
        i = i + 1;
    }
    proof {
        assert(split_parts(s@, '+').take(raw@.len() as int) =~= split_parts(s@, '+'));
    }
    hotkey_from_parts(&parts)
}

} // verus!
