//! The hotkey resolver: a textual shortcut specification such as
//! `"Cmd+Ctrl+Alt+Shift+="` is split on `+`, the leading tokens are
//! matched case-insensitively against the modifier aliases, and the last
//! token against the key table. Parsing is a total function over the
//! grammar: every input yields either a combination or a definite error.

use vstd::prelude::*;
use crate::chars::{str_chars, chars_to_string, push_str_chars};

verus! {

/// The keys a shortcut can name.
#[derive(Clone, Copy, Debug, PartialEq, Eq, Structural)]
pub enum KeyCode {
    KeyA, KeyB, KeyC, KeyD, KeyE, KeyF, KeyG, KeyH, KeyI, KeyJ, KeyK, KeyL, KeyM,
    KeyN, KeyO, KeyP, KeyQ, KeyR, KeyS, KeyT, KeyU, KeyV, KeyW, KeyX, KeyY, KeyZ,
    Digit0, Digit1, Digit2, Digit3, Digit4, Digit5, Digit6, Digit7, Digit8, Digit9,
    Equal, Minus, BracketLeft, BracketRight, Backslash, Semicolon, Quote, Backquote,
    Comma, Period, Slash, Space, Enter, Tab, Escape, Backspace, Delete,
    ArrowUp, ArrowDown, ArrowLeft, ArrowRight,
    F1, F2, F3, F4, F5, F6, F7, F8, F9, F10, F11, F12,
}

/// Which modifiers a combination carries.
#[derive(Clone, Copy, Debug, PartialEq, Eq, Structural)]
pub struct ModifierSet {
    pub sup: bool,
    pub control: bool,
    pub alt: bool,
    pub shift: bool,
}

impl ModifierSet {
    /// No modifiers.
    pub fn none() -> (r: ModifierSet)
        ensures
            r == (ModifierSet { sup: false, control: false, alt: false, shift: false }),
    {
        ModifierSet { sup: false, control: false, alt: false, shift: false }
    }
}

/// A parsed shortcut: its modifiers and its key.
#[derive(Clone, Copy, Debug, PartialEq, Eq, Structural)]
pub struct KeyCombination {
    pub modifiers: ModifierSet,
    pub code: KeyCode,
}

/// Why a specification was rejected.
#[derive(Debug)]
pub enum HotkeyError {
    /// The specification was empty.
    EmptySpec,
    /// A token before the last was not a known modifier; carries the
    /// offending token.
    UnknownModifier(String),
    /// The last token was not a known key; carries the offending token.
    UnknownKey(String),
}

/// Mathematical value of a `HotkeyError`.
pub enum HotkeyErrorView {
    Empty,
    UnknownModifier(Seq<char>),
    UnknownKey(Seq<char>),
}

impl View for HotkeyError {
    type V = HotkeyErrorView;

    open spec fn view(&self) -> HotkeyErrorView {
        match self {
            HotkeyError::EmptySpec => HotkeyErrorView::Empty,
            HotkeyError::UnknownModifier(t) => HotkeyErrorView::UnknownModifier(t@),
            HotkeyError::UnknownKey(t) => HotkeyErrorView::UnknownKey(t@),
        }
    }
}

impl HotkeyError {
    /// The error as a human-readable line.
    pub fn message(&self) -> (r: String)
        ensures
            self is EmptySpec ==> r@ == "Empty hotkey"@,
            self matches HotkeyError::UnknownModifier(t) ==> r@ == "Unknown modifier: "@ + t@,
            self matches HotkeyError::UnknownKey(t) ==> r@ == "Unknown key: "@ + t@,
    {
        match self {
            HotkeyError::EmptySpec => String::from_str("Empty hotkey"),
            HotkeyError::UnknownModifier(t) => {
                let mut out: Vec<char> = Vec::new();
                push_str_chars(&mut out, "Unknown modifier: ");
                push_str_chars(&mut out, t.as_str());
                chars_to_string(&out)
            },
            HotkeyError::UnknownKey(t) => {
                let mut out: Vec<char> = Vec::new();
                push_str_chars(&mut out, "Unknown key: ");
                push_str_chars(&mut out, t.as_str());
                chars_to_string(&out)
            },
        }
    }
}

/// ASCII lower-casing of one character; all table entries are ASCII, so
/// this is the case-insensitivity the tables need.
pub open spec fn ascii_lower(c: char) -> char {
    if 'A' <= c && c <= 'Z' {
        (((c as u32) + 32) as u32) as char
    } else {
        c
    }
}

/// ASCII lower-casing of a token.
pub open spec fn lower_seq(s: Seq<char>) -> Seq<char> {
    Seq::new(s.len(), |k: int| ascii_lower(s[k]))
}

/// The index of the first `+`, or -1 if there is none.
pub open spec fn find_plus(s: Seq<char>) -> int
    decreases s.len(),
{
    if s.len() == 0 {
        -1
    } else if s[0] == '+' {
        0
    } else {
        let r = find_plus(s.drop_first());
        if r < 0 {
            -1
        } else {
            1 + r
        }
    }
}

/// Aliases for the Super (command) modifier.
pub open spec fn is_super_tok(t: Seq<char>) -> bool {
    t == "cmd"@ || t == "command"@ || t == "super"@ || t == "meta"@
}

/// Aliases for the Control modifier.
pub open spec fn is_control_tok(t: Seq<char>) -> bool {
    t == "ctrl"@ || t == "control"@
}

/// Aliases for the Alt (option) modifier.
pub open spec fn is_alt_tok(t: Seq<char>) -> bool {
    t == "alt"@ || t == "option"@
}

/// The alias for the Shift modifier.
pub open spec fn is_shift_tok(t: Seq<char>) -> bool {
    t == "shift"@
}

/// The key named by a single character, if any.
pub open spec fn char_code(c: char) -> Option<KeyCode> {
    if c == 'a' { Some(KeyCode::KeyA) }
    else if c == 'b' { Some(KeyCode::KeyB) }
    else if c == 'c' { Some(KeyCode::KeyC) }
    else if c == 'd' { Some(KeyCode::KeyD) }
    else if c == 'e' { Some(KeyCode::KeyE) }
    else if c == 'f' { Some(KeyCode::KeyF) }
    else if c == 'g' { Some(KeyCode::KeyG) }
    else if c == 'h' { Some(KeyCode::KeyH) }
    else if c == 'i' { Some(KeyCode::KeyI) }
    else if c == 'j' { Some(KeyCode::KeyJ) }
    else if c == 'k' { Some(KeyCode::KeyK) }
    else if c == 'l' { Some(KeyCode::KeyL) }
    else if c == 'm' { Some(KeyCode::KeyM) }
    else if c == 'n' { Some(KeyCode::KeyN) }
    else if c == 'o' { Some(KeyCode::KeyO) }
    else if c == 'p' { Some(KeyCode::KeyP) }
    else if c == 'q' { Some(KeyCode::KeyQ) }
    else if c == 'r' { Some(KeyCode::KeyR) }
    else if c == 's' { Some(KeyCode::KeyS) }
    else if c == 't' { Some(KeyCode::KeyT) }
    else if c == 'u' { Some(KeyCode::KeyU) }
    else if c == 'v' { Some(KeyCode::KeyV) }
    else if c == 'w' { Some(KeyCode::KeyW) }
    else if c == 'x' { Some(KeyCode::KeyX) }
    else if c == 'y' { Some(KeyCode::KeyY) }
    else if c == 'z' { Some(KeyCode::KeyZ) }
    else if c == '0' { Some(KeyCode::Digit0) }
    else if c == '1' { Some(KeyCode::Digit1) }
    else if c == '2' { Some(KeyCode::Digit2) }
    else if c == '3' { Some(KeyCode::Digit3) }
    else if c == '4' { Some(KeyCode::Digit4) }
    else if c == '5' { Some(KeyCode::Digit5) }
    else if c == '6' { Some(KeyCode::Digit6) }
    else if c == '7' { Some(KeyCode::Digit7) }
    else if c == '8' { Some(KeyCode::Digit8) }
    else if c == '9' { Some(KeyCode::Digit9) }
    else if c == '=' { Some(KeyCode::Equal) }
    else if c == '-' { Some(KeyCode::Minus) }
    else if c == '[' { Some(KeyCode::BracketLeft) }
    else if c == ']' { Some(KeyCode::BracketRight) }
    else if c == '\\' { Some(KeyCode::Backslash) }
    else if c == ';' { Some(KeyCode::Semicolon) }
    else if c == '\'' { Some(KeyCode::Quote) }
    else if c == '`' { Some(KeyCode::Backquote) }
    else if c == ',' { Some(KeyCode::Comma) }
    else if c == '.' { Some(KeyCode::Period) }
    else if c == '/' { Some(KeyCode::Slash) }
    else { None }
}

/// The key named by a multi-character name, if any.
pub open spec fn named_code(t: Seq<char>) -> Option<KeyCode> {
    if t == "equal"@ { Some(KeyCode::Equal) }
    else if t == "minus"@ { Some(KeyCode::Minus) }
    else if t == "bracketleft"@ { Some(KeyCode::BracketLeft) }
    else if t == "bracketright"@ { Some(KeyCode::BracketRight) }
    else if t == "backslash"@ { Some(KeyCode::Backslash) }
    else if t == "semicolon"@ { Some(KeyCode::Semicolon) }
    else if t == "quote"@ { Some(KeyCode::Quote) }
    else if t == "backquote"@ { Some(KeyCode::Backquote) }
    else if t == "comma"@ { Some(KeyCode::Comma) }
    else if t == "period"@ { Some(KeyCode::Period) }
    else if t == "slash"@ { Some(KeyCode::Slash) }
    else if t == "space"@ { Some(KeyCode::Space) }
    else if t == "enter"@ || t == "return"@ { Some(KeyCode::Enter) }
    else if t == "tab"@ { Some(KeyCode::Tab) }
    else if t == "escape"@ || t == "esc"@ { Some(KeyCode::Escape) }
    else if t == "backspace"@ { Some(KeyCode::Backspace) }
    else if t == "delete"@ { Some(KeyCode::Delete) }
    else if t == "up"@ { Some(KeyCode::ArrowUp) }
    else if t == "down"@ { Some(KeyCode::ArrowDown) }
    else if t == "left"@ { Some(KeyCode::ArrowLeft) }
    else if t == "right"@ { Some(KeyCode::ArrowRight) }
    else if t == "f1"@ { Some(KeyCode::F1) }
    else if t == "f2"@ { Some(KeyCode::F2) }
    else if t == "f3"@ { Some(KeyCode::F3) }
    else if t == "f4"@ { Some(KeyCode::F4) }
    else if t == "f5"@ { Some(KeyCode::F5) }
    else if t == "f6"@ { Some(KeyCode::F6) }
    else if t == "f7"@ { Some(KeyCode::F7) }
    else if t == "f8"@ { Some(KeyCode::F8) }
    else if t == "f9"@ { Some(KeyCode::F9) }
    else if t == "f10"@ { Some(KeyCode::F10) }
    else if t == "f11"@ { Some(KeyCode::F11) }
    else if t == "f12"@ { Some(KeyCode::F12) }
    else { None }
}

/// The key named by a lower-cased token, if any.
pub open spec fn key_code_of(t: Seq<char>) -> Option<KeyCode> {
    if t.len() == 1 {
        char_code(t[0])
    } else {
        named_code(t)
    }
}

/// Process the remaining tokens: every token before the last must be a
/// modifier, the last names the key.
pub open spec fn parse_tokens(s: Seq<char>, m: ModifierSet) -> Result<
    KeyCombination,
    HotkeyErrorView,
>
    decreases s.len(),
{
    let i = find_plus(s);
    if i < 0 {
        match key_code_of(lower_seq(s)) {
            Some(code) => Ok(KeyCombination { modifiers: m, code }),
            None => Err(HotkeyErrorView::UnknownKey(s)),
        }
    } else if i < s.len() {
        let t = s.take(i);
        let tl = lower_seq(t);
        if is_super_tok(tl) {
            parse_tokens(
                s.skip(i + 1),
                ModifierSet { sup: true, control: m.control, alt: m.alt, shift: m.shift },
            )
        } else if is_control_tok(tl) {
            parse_tokens(
                s.skip(i + 1),
                ModifierSet { sup: m.sup, control: true, alt: m.alt, shift: m.shift },
            )
        } else if is_alt_tok(tl) {
            parse_tokens(
                s.skip(i + 1),
                ModifierSet { sup: m.sup, control: m.control, alt: true, shift: m.shift },
            )
        } else if is_shift_tok(tl) {
            parse_tokens(
                s.skip(i + 1),
                ModifierSet { sup: m.sup, control: m.control, alt: m.alt, shift: true },
            )
        } else {
            Err(HotkeyErrorView::UnknownModifier(t))
        }
    } else {
        Err(HotkeyErrorView::Empty)
    }
}

/// What any specification parses to: an empty specification is rejected
/// outright; otherwise the tokens decide.
pub open spec fn parse_hotkey_spec(s: Seq<char>) -> Result<KeyCombination, HotkeyErrorView> {
    if s.len() == 0 {
        Err(HotkeyErrorView::Empty)
    } else {
        parse_tokens(
            s,
            ModifierSet { sup: false, control: false, alt: false, shift: false },
        )
    }
}

/// A scan that stopped at `i + d` on a `+`, or at the end, computes
/// `find_plus`.
proof fn lemma_find_plus_at(s: Seq<char>, m: int)
    requires
        0 <= m <= s.len(),
        forall|k: int| 0 <= k < m ==> s[k] != '+',
        m == s.len() || s[m] == '+',
    ensures
        find_plus(s) == if m == s.len() { -1 as int } else { m },
    decreases m,
{
    if m == 0 {
    } else {
        assert(s[0] != '+');
        let d = s.drop_first();
        assert(forall|k: int| 0 <= k < m - 1 ==> d[k] == s[k + 1]);
        lemma_find_plus_at(d, m - 1);
    }
}

/// ASCII lower-casing, executably.
fn ascii_lower_char(c: char) -> (r: char)
    ensures
        r == ascii_lower(c),
{
    if 'A' <= c && c <= 'Z' {
        (((c as u32) + 32) as u8) as char
    } else {
        c
    }
}

/// The lower-cased copy of `v[i..j]`.
fn lower_slice(v: &Vec<char>, i: usize, j: usize) -> (r: Vec<char>)
    requires
        i <= j <= v.len(),
    ensures
        r@ == lower_seq(v@.subrange(i as int, j as int)),
{
    let mut out: Vec<char> = Vec::new();
    let mut k: usize = i;
    while k < j
        invariant
            i <= k <= j <= v.len(),
            out@.len() == k - i,
            forall|m: int| 0 <= m < k - i ==> out@[m] == ascii_lower(v@[i + m]),
        decreases j - k,
    {
        out.push(ascii_lower_char(v[k]));
        k = k + 1;
    }
    proof {
        assert(out@ =~= lower_seq(v@.subrange(i as int, j as int)));
    }
    out
}

/// The plain copy of `v[i..j]`.
fn copy_slice(v: &Vec<char>, i: usize, j: usize) -> (r: Vec<char>)
    requires
        i <= j <= v.len(),
    ensures
        r@ == v@.subrange(i as int, j as int),
{
    let mut out: Vec<char> = Vec::new();
    let mut k: usize = i;
    while k < j
        invariant
            i <= k <= j <= v.len(),
            out@.len() == k - i,
            forall|m: int| 0 <= m < k - i ==> out@[m] == v@[i + m],
        decreases j - k,
    {
        out.push(v[k]);
        k = k + 1;
    }
    proof {
        assert(out@ =~= v@.subrange(i as int, j as int));
    }
    out
}

/// Whether a character vector holds exactly the characters of `s`.
fn eq_str(a: &Vec<char>, s: &str) -> (r: bool)
    ensures
        r == (a@ == s@),
{
    let b = str_chars(s);
    if a.len() != b.len() {
        return false;
    }
    let mut k: usize = 0;
    while k < a.len()
        invariant
            k <= a.len(),
            a@.len() == b@.len(),
            b@ == s@,
            forall|m: int| 0 <= m < k ==> a@[m] == b@[m],
        decreases a.len() - k,
    {
        if a[k] != b[k] {
            return false;
        }
        k = k + 1;
    }
    proof {
        assert(a@ =~= s@);
    }
    true
}

/// The key named by one character, executably.
fn char_code_of(c: char) -> (r: Option<KeyCode>)
    ensures
        r == char_code(c),
{
    if c == 'a' { Some(KeyCode::KeyA) }
    else if c == 'b' { Some(KeyCode::KeyB) }
    else if c == 'c' { Some(KeyCode::KeyC) }
    else if c == 'd' { Some(KeyCode::KeyD) }
    else if c == 'e' { Some(KeyCode::KeyE) }
    else if c == 'f' { Some(KeyCode::KeyF) }
    else if c == 'g' { Some(KeyCode::KeyG) }
    else if c == 'h' { Some(KeyCode::KeyH) }
    else if c == 'i' { Some(KeyCode::KeyI) }
    else if c == 'j' { Some(KeyCode::KeyJ) }
    else if c == 'k' { Some(KeyCode::KeyK) }
    else if c == 'l' { Some(KeyCode::KeyL) }
    else if c == 'm' { Some(KeyCode::KeyM) }
    else if c == 'n' { Some(KeyCode::KeyN) }
    else if c == 'o' { Some(KeyCode::KeyO) }
    else if c == 'p' { Some(KeyCode::KeyP) }
    else if c == 'q' { Some(KeyCode::KeyQ) }
    else if c == 'r' { Some(KeyCode::KeyR) }
    else if c == 's' { Some(KeyCode::KeyS) }
    else if c == 't' { Some(KeyCode::KeyT) }
    else if c == 'u' { Some(KeyCode::KeyU) }
    else if c == 'v' { Some(KeyCode::KeyV) }
    else if c == 'w' { Some(KeyCode::KeyW) }
    else if c == 'x' { Some(KeyCode::KeyX) }
    else if c == 'y' { Some(KeyCode::KeyY) }
    else if c == 'z' { Some(KeyCode::KeyZ) }
    else if c == '0' { Some(KeyCode::Digit0) }
    else if c == '1' { Some(KeyCode::Digit1) }
    else if c == '2' { Some(KeyCode::Digit2) }
    else if c == '3' { Some(KeyCode::Digit3) }
    else if c == '4' { Some(KeyCode::Digit4) }
    else if c == '5' { Some(KeyCode::Digit5) }
    else if c == '6' { Some(KeyCode::Digit6) }
    else if c == '7' { Some(KeyCode::Digit7) }
    else if c == '8' { Some(KeyCode::Digit8) }
    else if c == '9' { Some(KeyCode::Digit9) }
    else if c == '=' { Some(KeyCode::Equal) }
    else if c == '-' { Some(KeyCode::Minus) }
    else if c == '[' { Some(KeyCode::BracketLeft) }
    else if c == ']' { Some(KeyCode::BracketRight) }
    else if c == '\\' { Some(KeyCode::Backslash) }
    else if c == ';' { Some(KeyCode::Semicolon) }
    else if c == '\'' { Some(KeyCode::Quote) }
    else if c == '`' { Some(KeyCode::Backquote) }
    else if c == ',' { Some(KeyCode::Comma) }
    else if c == '.' { Some(KeyCode::Period) }
    else if c == '/' { Some(KeyCode::Slash) }
    else { None }
}

/// The key named by a lower-cased token, executably.
fn key_code_lookup(t: &Vec<char>) -> (r: Option<KeyCode>)
    ensures
        r == key_code_of(t@),
{
    if t.len() == 1 {
        char_code_of(t[0])
    } else if eq_str(t, "equal") { Some(KeyCode::Equal) }
    else if eq_str(t, "minus") { Some(KeyCode::Minus) }
    else if eq_str(t, "bracketleft") { Some(KeyCode::BracketLeft) }
    else if eq_str(t, "bracketright") { Some(KeyCode::BracketRight) }
    else if eq_str(t, "backslash") { Some(KeyCode::Backslash) }
    else if eq_str(t, "semicolon") { Some(KeyCode::Semicolon) }
    else if eq_str(t, "quote") { Some(KeyCode::Quote) }
    else if eq_str(t, "backquote") { Some(KeyCode::Backquote) }
    else if eq_str(t, "comma") { Some(KeyCode::Comma) }
    else if eq_str(t, "period") { Some(KeyCode::Period) }
    else if eq_str(t, "slash") { Some(KeyCode::Slash) }
    else if eq_str(t, "space") { Some(KeyCode::Space) }
    else if eq_str(t, "enter") || eq_str(t, "return") { Some(KeyCode::Enter) }
    else if eq_str(t, "tab") { Some(KeyCode::Tab) }
    else if eq_str(t, "escape") || eq_str(t, "esc") { Some(KeyCode::Escape) }
    else if eq_str(t, "backspace") { Some(KeyCode::Backspace) }
    else if eq_str(t, "delete") { Some(KeyCode::Delete) }
    else if eq_str(t, "up") { Some(KeyCode::ArrowUp) }
    else if eq_str(t, "down") { Some(KeyCode::ArrowDown) }
    else if eq_str(t, "left") { Some(KeyCode::ArrowLeft) }
    else if eq_str(t, "right") { Some(KeyCode::ArrowRight) }
    else if eq_str(t, "f1") { Some(KeyCode::F1) }
    else if eq_str(t, "f2") { Some(KeyCode::F2) }
    else if eq_str(t, "f3") { Some(KeyCode::F3) }
    else if eq_str(t, "f4") { Some(KeyCode::F4) }
    else if eq_str(t, "f5") { Some(KeyCode::F5) }
    else if eq_str(t, "f6") { Some(KeyCode::F6) }
    else if eq_str(t, "f7") { Some(KeyCode::F7) }
    else if eq_str(t, "f8") { Some(KeyCode::F8) }
    else if eq_str(t, "f9") { Some(KeyCode::F9) }
    else if eq_str(t, "f10") { Some(KeyCode::F10) }
    else if eq_str(t, "f11") { Some(KeyCode::F11) }
    else if eq_str(t, "f12") { Some(KeyCode::F12) }
    else { None }
}

/// Process the tokens from `i` on, executably.
fn parse_tokens_from(v: &Vec<char>, i: usize, m: ModifierSet) -> (r: Result<
    KeyCombination,
    HotkeyError,
>)
    requires
        i <= v.len(),
    ensures
        match r {
            Ok(c) => parse_tokens(v@.skip(i as int), m) == Ok::<KeyCombination, HotkeyErrorView>(
                c,
            ),
            Err(e) => parse_tokens(v@.skip(i as int), m) == Err::<
                KeyCombination,
                HotkeyErrorView,
            >(e@),
        },
    decreases v@.len() - i,
{
    let ghost s = v@.skip(i as int);
    let mut j: usize = i;
    while j < v.len() && v[j] != '+'
        invariant
            i <= j <= v.len(),
            forall|k: int| i <= k < j ==> v@[k] != '+',
        decreases v.len() - j,
    {
        j = j + 1;
    }
    proof {
        assert(forall|k: int| 0 <= k < j - i ==> s[k] == v@[i + k]);
        lemma_find_plus_at(s, j - i);
    }
    if j == v.len() {
        // the whole remaining text is the key token
        let tl = lower_slice(v, i, j);
        proof {
            assert(v@.subrange(i as int, j as int) =~= s);
        }
        match key_code_lookup(&tl) {
            Some(code) => Ok(KeyCombination { modifiers: m, code }),
            None => Err(HotkeyError::UnknownKey(chars_to_string(&copy_slice(v, i, j)))),
        }
    } else {
        // v[j] is the '+' ending a modifier token
        let tl = lower_slice(v, i, j);
        proof {
            assert(v@.subrange(i as int, j as int) =~= s.take(j - i));
            assert(v@.skip(j + 1) =~= s.skip(j - i + 1));
        }
        if eq_str(&tl, "cmd") || eq_str(&tl, "command") || eq_str(&tl, "super") || eq_str(
            &tl,
            "meta",
        ) {
            parse_tokens_from(
                v,
                j + 1,
                ModifierSet { sup: true, control: m.control, alt: m.alt, shift: m.shift },
            )
        } else if eq_str(&tl, "ctrl") || eq_str(&tl, "control") {
            parse_tokens_from(
                v,
                j + 1,
                ModifierSet { sup: m.sup, control: true, alt: m.alt, shift: m.shift },
            )
        } else if eq_str(&tl, "alt") || eq_str(&tl, "option") {
            parse_tokens_from(
                v,
                j + 1,
                ModifierSet { sup: m.sup, control: m.control, alt: true, shift: m.shift },
            )
        } else if eq_str(&tl, "shift") {
            parse_tokens_from(
                v,
                j + 1,
                ModifierSet { sup: m.sup, control: m.control, alt: m.alt, shift: true },
            )
        } else {
            Err(HotkeyError::UnknownModifier(chars_to_string(&copy_slice(v, i, j))))
        }
    }
}

/// Parse a whole shortcut specification. The result is total over the
/// grammar: the combination on well-formed input, and the exact error
/// the grammar assigns otherwise.
pub fn parse_hotkey(text: &str) -> (r: Result<KeyCombination, HotkeyError>)
    ensures
        match r {
            Ok(c) => parse_hotkey_spec(text@) == Ok::<KeyCombination, HotkeyErrorView>(c),
            Err(e) => parse_hotkey_spec(text@) == Err::<KeyCombination, HotkeyErrorView>(e@),
        },
{
    let v = str_chars(text);
    if v.len() == 0 {
        return Err(HotkeyError::EmptySpec);
    }
    proof {
        assert(v@.skip(0) =~= text@);
    }
    parse_tokens_from(&v, 0, ModifierSet::none())
}

} // verus!
