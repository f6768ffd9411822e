//! The on-disk text form of the task aggregate and of the configuration:
//! a pretty-printed JSON object, written canonically and read back with
//! tolerance for arbitrary inter-token whitespace and for omitted
//! trailing members, which take their defaults (a note's done flag is
//! false, a task's note array empty). Members are read in the one order
//! the writer uses: a reordered document is treated as corrupt, by
//! design, since every file this format ever writes is canonical. The
//! main results are that reading inverts writing, for every aggregate
//! and configuration.

use vstd::prelude::*;
use crate::json::{is_ws, quoted, escape_string, parse_string_body, lemma_string_round_trip};
use crate::model::{NoteView, TaskView, StateView};

verus! {

// ---------------------------------------------------------------------
// Canonical rendering
// ---------------------------------------------------------------------

/// `k` spaces.
pub open spec fn ws_run(k: nat) -> Seq<char> {
    Seq::new(k, |i: int| ' ')
}

/// A line break followed by `k` spaces of indentation.
pub open spec fn nl_indent(k: nat) -> Seq<char> {
    seq!['\n'] + ws_run(k)
}

/// The separator between a member name and its value.
pub open spec fn colon_sp() -> Seq<char> {
    seq![':', ' ']
}

/// A JSON boolean.
pub open spec fn render_bool(b: bool) -> Seq<char> {
    if b { "true"@ } else { "false"@ }
}

/// One note as an object of its text and done flag, indented as an
/// element of a task's note array.
pub open spec fn render_note(n: NoteView) -> Seq<char> {
    ws_run(8) + seq!['{'] + nl_indent(10) + "\"text\""@ + colon_sp() + quoted(n.text)
        + seq![','] + nl_indent(10) + "\"completed\""@ + colon_sp() + render_bool(n.completed)
        + nl_indent(8) + seq!['}']
}

/// The second and later elements of a note array, each preceded by the
/// element separator.
pub open spec fn note_items_cat(ns: Seq<NoteView>) -> Seq<char>
    decreases ns.len(),
{
    if ns.len() == 0 {
        Seq::<char>::empty()
    } else {
        seq![',', '\n'] + render_note(ns[0]) + note_items_cat(ns.drop_first())
    }
}

/// A note array: empty brackets, or one element per line.
pub open spec fn render_notes(ns: Seq<NoteView>) -> Seq<char> {
    if ns.len() == 0 {
        seq!['[', ']']
    } else {
        seq!['[', '\n'] + render_note(ns[0]) + note_items_cat(ns.drop_first()) + nl_indent(6)
            + seq![']']
    }
}

/// One task as an object of its text and note array, indented as an
/// element of a top-level task array.
pub open spec fn render_task(t: TaskView) -> Seq<char> {
    ws_run(4) + seq!['{'] + nl_indent(6) + "\"text\""@ + colon_sp() + quoted(t.text)
        + seq![','] + nl_indent(6) + "\"notes\""@ + colon_sp() + render_notes(t.notes)
        + nl_indent(4) + seq!['}']
}

/// The second and later elements of a task array.
pub open spec fn task_items_cat(ts: Seq<TaskView>) -> Seq<char>
    decreases ts.len(),
{
    if ts.len() == 0 {
        Seq::<char>::empty()
    } else {
        seq![',', '\n'] + render_task(ts[0]) + task_items_cat(ts.drop_first())
    }
}

/// A task array: empty brackets, or one element per line.
pub open spec fn render_tasks(ts: Seq<TaskView>) -> Seq<char> {
    if ts.len() == 0 {
        seq!['[', ']']
    } else {
        seq!['[', '\n'] + render_task(ts[0]) + task_items_cat(ts.drop_first()) + nl_indent(2)
            + seq![']']
    }
}

/// The whole aggregate as the persisted object with its two arrays.
pub open spec fn render_state(v: StateView) -> Seq<char> {
    seq!['{'] + nl_indent(2) + "\"current\""@ + colon_sp() + render_tasks(v.current)
        + seq![','] + nl_indent(2) + "\"shelf\""@ + colon_sp() + render_tasks(v.shelf)
        + nl_indent(0) + seq!['}']
}

/// The configuration as the persisted object with its one member.
pub open spec fn render_config(hotkey: Seq<char>) -> Seq<char> {
    seq!['{'] + nl_indent(2) + "\"hotkey\""@ + colon_sp() + quoted(hotkey) + nl_indent(0)
        + seq!['}']
}

// ---------------------------------------------------------------------
// Parsing
// ---------------------------------------------------------------------

/// The input with its leading whitespace removed.
pub open spec fn skip_ws(s: Seq<char>) -> Seq<char>
    decreases s.len(),
{
    if s.len() > 0 && is_ws(s[0]) {
        skip_ws(s.drop_first())
    } else {
        s
    }
}

/// Consume the exact token `t` from the front of the input.
pub open spec fn tag(s: Seq<char>, t: Seq<char>) -> Option<Seq<char>> {
    if t.len() <= s.len() && s.take(t.len() as int) == t {
        Some(s.skip(t.len() as int))
    } else {
        None
    }
}

/// Consume a member name followed by a colon, each surrounded by
/// optional whitespace; `key` includes the name's quotes.
pub open spec fn parse_key_colon(s: Seq<char>, key: Seq<char>) -> Option<Seq<char>> {
    match tag(skip_ws(s), key) {
        Some(s2) => match tag(skip_ws(s2), seq![':']) {
            Some(s4) => Some(skip_ws(s4)),
            None => None,
        },
        None => None,
    }
}

/// Consume a JSON string literal: the decoded text and the remainder.
pub open spec fn parse_quoted(s: Seq<char>) -> Option<(Seq<char>, Seq<char>)> {
    if s.len() >= 1 && s[0] == '"' {
        parse_string_body(s.drop_first())
    } else {
        None
    }
}

/// Consume a JSON boolean.
pub open spec fn parse_bool(s: Seq<char>) -> Option<(bool, Seq<char>)> {
    match tag(s, "true"@) {
        Some(r) => Some((true, r)),
        None => match tag(s, "false"@) {
            Some(r) => Some((false, r)),
            None => None,
        },
    }
}

/// Consume one note object: its text, then its done flag; an object
/// that ends after the text carries the default flag, false.
pub open spec fn parse_note(s: Seq<char>) -> Option<(NoteView, Seq<char>)> {
    let s0 = skip_ws(s);
    if s0.len() >= 1 && s0[0] == '{' {
        match parse_key_colon(s0.drop_first(), "\"text\""@) {
            Some(s1) => match parse_quoted(s1) {
                Some((text, s2)) => {
                    let s3 = skip_ws(s2);
                    if s3.len() >= 1 && s3[0] == '}' {
                        Some((NoteView { text, completed: false }, s3.drop_first()))
                    } else if s3.len() >= 1 && s3[0] == ',' {
                        match parse_key_colon(s3.drop_first(), "\"completed\""@) {
                            Some(s4) => match parse_bool(s4) {
                                Some((b, s5)) => {
                                    let s6 = skip_ws(s5);
                                    if s6.len() >= 1 && s6[0] == '}' {
                                        Some((NoteView { text, completed: b }, s6.drop_first()))
                                    } else {
                                        None
                                    }
                                },
                                None => None,
                            },
                            None => None,
                        }
                    } else {
                        None
                    }
                },
                None => None,
            },
            None => None,
        }
    } else {
        None
    }
}

/// Consume the rest of a note array after its first element: zero or
/// more comma-separated notes, then the closing bracket.
pub open spec fn parse_note_items(s: Seq<char>, acc: Seq<NoteView>) -> Option<
    (Seq<NoteView>, Seq<char>),
>
    decreases s.len(),
{
    let s1 = skip_ws(s);
    if s1.len() >= 1 && s1[0] == ']' {
        Some((acc, s1.drop_first()))
    } else if s1.len() >= 1 && s1[0] == ',' {
        match parse_note(s1.drop_first()) {
            Some((n, r)) => if r.len() < s.len() {
                parse_note_items(r, acc.push(n))
            } else {
                None
            },
            None => None,
        }
    } else {
        None
    }
}

/// Consume a whole note array.
pub open spec fn parse_note_list(s: Seq<char>) -> Option<(Seq<NoteView>, Seq<char>)> {
    let s0 = skip_ws(s);
    if s0.len() >= 1 && s0[0] == '[' {
        let s1 = skip_ws(s0.drop_first());
        if s1.len() >= 1 && s1[0] == ']' {
            Some((Seq::<NoteView>::empty(), s1.drop_first()))
        } else {
            match parse_note(s0.drop_first()) {
                Some((n, r)) => if r.len() < s.len() {
                    parse_note_items(r, seq![n])
                } else {
                    None
                },
                None => None,
            }
        }
    } else {
        None
    }
}

/// Consume one task object: its text, then its note array; an object
/// that ends after the text carries the default, an empty note array.
pub open spec fn parse_task(s: Seq<char>) -> Option<(TaskView, Seq<char>)> {
    let s0 = skip_ws(s);
    if s0.len() >= 1 && s0[0] == '{' {
        match parse_key_colon(s0.drop_first(), "\"text\""@) {
            Some(s1) => match parse_quoted(s1) {
                Some((text, s2)) => {
                    let s3 = skip_ws(s2);
                    if s3.len() >= 1 && s3[0] == '}' {
                        Some((TaskView { text, notes: Seq::<NoteView>::empty() }, s3.drop_first()))
                    } else if s3.len() >= 1 && s3[0] == ',' {
                        match parse_key_colon(s3.drop_first(), "\"notes\""@) {
                            Some(s4) => match parse_note_list(s4) {
                                Some((notes, s5)) => {
                                    let s6 = skip_ws(s5);
                                    if s6.len() >= 1 && s6[0] == '}' {
                                        Some((TaskView { text, notes }, s6.drop_first()))
                                    } else {
                                        None
                                    }
                                },
                                None => None,
                            },
                            None => None,
                        }
                    } else {
                        None
                    }
                },
                None => None,
            },
            None => None,
        }
    } else {
        None
    }
}

/// Consume the rest of a task array after its first element.
pub open spec fn parse_task_items(s: Seq<char>, acc: Seq<TaskView>) -> Option<
    (Seq<TaskView>, Seq<char>),
>
    decreases s.len(),
{
    let s1 = skip_ws(s);
    if s1.len() >= 1 && s1[0] == ']' {
        Some((acc, s1.drop_first()))
    } else if s1.len() >= 1 && s1[0] == ',' {
        match parse_task(s1.drop_first()) {
            Some((t, r)) => if r.len() < s.len() {
                parse_task_items(r, acc.push(t))
            } else {
                None
            },
            None => None,
        }
    } else {
        None
    }
}

/// Consume a whole task array.
pub open spec fn parse_task_list(s: Seq<char>) -> Option<(Seq<TaskView>, Seq<char>)> {
    let s0 = skip_ws(s);
    if s0.len() >= 1 && s0[0] == '[' {
        let s1 = skip_ws(s0.drop_first());
        if s1.len() >= 1 && s1[0] == ']' {
            Some((Seq::<TaskView>::empty(), s1.drop_first()))
        } else {
            match parse_task(s0.drop_first()) {
                Some((t, r)) => if r.len() < s.len() {
                    parse_task_items(r, seq![t])
                } else {
                    None
                },
                None => None,
            }
        }
    } else {
        None
    }
}

/// Read a whole persisted aggregate: the two arrays under their fixed
/// member names, with nothing but whitespace after the closing brace.
pub open spec fn parse_state_text(s: Seq<char>) -> Option<StateView> {
    let s0 = skip_ws(s);
    if s0.len() >= 1 && s0[0] == '{' {
        match parse_key_colon(s0.drop_first(), "\"current\""@) {
            Some(s1) => match parse_task_list(s1) {
                Some((current, s2)) => {
                    let s3 = skip_ws(s2);
                    if s3.len() >= 1 && s3[0] == ',' {
                        match parse_key_colon(s3.drop_first(), "\"shelf\""@) {
                            Some(s4) => match parse_task_list(s4) {
                                Some((shelf, s5)) => {
                                    let s6 = skip_ws(s5);
                                    if s6.len() >= 1 && s6[0] == '}' && skip_ws(
                                        s6.drop_first(),
                                    ).len() == 0 {
                                        Some(StateView { current, shelf })
                                    } else {
                                        None
                                    }
                                },
                                None => None,
                            },
                            None => None,
                        }
                    } else {
                        None
                    }
                },
                None => None,
            },
            None => None,
        }
    } else {
        None
    }
}

/// Read a persisted configuration: the hotkey text under its fixed
/// member name.
pub open spec fn parse_config_text(s: Seq<char>) -> Option<Seq<char>> {
    let s0 = skip_ws(s);
    if s0.len() >= 1 && s0[0] == '{' {
        match parse_key_colon(s0.drop_first(), "\"hotkey\""@) {
            Some(s1) => match parse_quoted(s1) {
                Some((text, s2)) => {
                    let s3 = skip_ws(s2);
                    if s3.len() >= 1 && s3[0] == '}' && skip_ws(s3.drop_first()).len() == 0 {
                        Some(text)
                    } else {
                        None
                    }
                },
                None => None,
            },
            None => None,
        }
    } else {
        None
    }
}


// ---------------------------------------------------------------------
// Reading inverts writing
// ---------------------------------------------------------------------

/// A token at the front of the input is consumed exactly.
proof fn lemma_tag_prefix(t: Seq<char>, rest: Seq<char>)
    ensures
        tag(t + rest, t) == Some(rest),
{
    assert((t + rest).take(t.len() as int) =~= t);
    assert((t + rest).skip(t.len() as int) =~= rest);
}

/// Skipping whitespace consumes a run of spaces and stops at the first
/// non-whitespace character.
proof fn lemma_skip_ws_spaces(k: nat, t: Seq<char>)
    requires
        t.len() > 0 ==> !is_ws(t[0]),
    ensures
        skip_ws(ws_run(k) + t) == t,
    decreases k,
{
    if k == 0 {
        assert(ws_run(0) + t =~= t);
    } else {
        let s = ws_run(k) + t;
        assert(s[0] == ' ');
        assert(s.drop_first() =~= ws_run((k - 1) as nat) + t);
        lemma_skip_ws_spaces((k - 1) as nat, t);
    }
}

/// Skipping whitespace consumes a line break and its indentation.
proof fn lemma_skip_ws_nl_indent(k: nat, t: Seq<char>)
    requires
        t.len() > 0 ==> !is_ws(t[0]),
    ensures
        skip_ws(nl_indent(k) + t) == t,
{
    let s = nl_indent(k) + t;
    assert(s[0] == '\n');
    assert(s.drop_first() =~= ws_run(k) + t);
    lemma_skip_ws_spaces(k, t);
}

/// A member name written canonically is read back, leaving exactly the
/// member's value.
proof fn lemma_key_colon(k: nat, key: Seq<char>, x: Seq<char>)
    requires
        key.len() > 0,
        !is_ws(key[0]),
        x.len() > 0,
        !is_ws(x[0]),
    ensures
        parse_key_colon(nl_indent(k) + key + colon_sp() + x, key) == Some(x),
{
    let s = nl_indent(k) + key + colon_sp() + x;
    let y = key + colon_sp() + x;
    assert(s =~= nl_indent(k) + y);
    assert(y[0] == key[0]);
    lemma_skip_ws_nl_indent(k, y);
    assert(y =~= key + (colon_sp() + x));
    lemma_tag_prefix(key, colon_sp() + x);
    let s2 = colon_sp() + x;
    assert(s2[0] == ':');
    assert(skip_ws(s2) == s2);
    assert(s2 =~= seq![':'] + (seq![' '] + x));
    lemma_tag_prefix(seq![':'], seq![' '] + x);
    assert(seq![' '] + x =~= ws_run(1) + x);
    lemma_skip_ws_spaces(1, x);
}

/// A boolean written canonically is read back.
proof fn lemma_parse_bool(b: bool, rest: Seq<char>)
    ensures
        parse_bool(render_bool(b) + rest) == Some((b, rest)),
{
    reveal_strlit("true");
    reveal_strlit("false");
    if b {
        lemma_tag_prefix("true"@, rest);
    } else {
        let s = "false"@ + rest;
        assert(s[0] == 'f');
        if s.take(4) == "true"@ {
            assert(s.take(4)[0] == "true"@[0]);
            assert(false);
        }
        lemma_tag_prefix("false"@, rest);
    }
}

/// A string literal written canonically is read back.
proof fn lemma_parse_quoted(text: Seq<char>, rest: Seq<char>)
    ensures
        parse_quoted(quoted(text) + rest) == Some((text, rest)),
{
    let s = quoted(text) + rest;
    assert(s =~= seq!['"'] + (escape_string(text) + seq!['"'] + rest));
    assert(s[0] == '"');
    lemma_string_round_trip(text, rest);
    assert(s.drop_first() =~= escape_string(text) + seq!['"'] + rest);
}

/// A note written canonically after a line break is read back, leaving
/// exactly what followed it; and the first non-blank character ahead is
/// its opening brace.
proof fn lemma_parse_note(n: NoteView, rest: Seq<char>)
    ensures
        parse_note(seq!['\n'] + render_note(n) + rest) == Some((n, rest)),
        skip_ws(seq!['\n'] + render_note(n) + rest).len() >= 1,
        skip_ws(seq!['\n'] + render_note(n) + rest)[0] == '{',
{
    reveal_strlit("\"text\"");
    reveal_strlit("\"completed\"");
    reveal_strlit("true");
    reveal_strlit("false");
    let s = seq!['\n'] + render_note(n) + rest;
    let tail1 = seq![','] + nl_indent(10) + "\"completed\""@ + colon_sp() + render_bool(
        n.completed,
    ) + nl_indent(8) + seq!['}'] + rest;
    let x1 = seq!['{'] + nl_indent(10) + "\"text\""@ + colon_sp() + (quoted(n.text) + tail1);
    assert(s =~= nl_indent(8) + x1);
    assert(x1[0] == '{');
    lemma_skip_ws_nl_indent(8, x1);
    let s0 = x1;
    assert(s0.drop_first() =~= nl_indent(10) + "\"text\""@ + colon_sp() + (quoted(n.text)
        + tail1));
    assert("\"text\""@[0] == '"');
    assert((quoted(n.text) + tail1)[0] == '"');
    lemma_key_colon(10, "\"text\""@, quoted(n.text) + tail1);
    lemma_parse_quoted(n.text, tail1);
    assert(tail1[0] == ',');
    assert(skip_ws(tail1) == tail1);
    let tail2 = render_bool(n.completed) + (nl_indent(8) + seq!['}'] + rest);
    assert(tail1.drop_first() =~= nl_indent(10) + "\"completed\""@ + colon_sp() + tail2);
    assert("\"completed\""@[0] == '"');
    if n.completed {
        assert(tail2[0] == 't');
    } else {
        assert(tail2[0] == 'f');
    }
    lemma_key_colon(10, "\"completed\""@, tail2);
    lemma_parse_bool(n.completed, nl_indent(8) + seq!['}'] + rest);
    let tail3 = nl_indent(8) + seq!['}'] + rest;
    assert(tail3 =~= nl_indent(8) + (seq!['}'] + rest));
    assert((seq!['}'] + rest)[0] == '}');
    lemma_skip_ws_nl_indent(8, seq!['}'] + rest);
    assert((seq!['}'] + rest).drop_first() =~= rest);
    assert(NoteView { text: n.text, completed: n.completed } == n);
}

/// The tail of a note array written canonically is read back, appending
/// its elements to whatever was already collected.
proof fn lemma_parse_note_items(ns: Seq<NoteView>, acc: Seq<NoteView>, rest: Seq<char>)
    ensures
        parse_note_items(note_items_cat(ns) + nl_indent(6) + seq![']'] + rest, acc) == Some(
            (acc + ns, rest),
        ),
    decreases ns.len(),
{
    let s = note_items_cat(ns) + nl_indent(6) + seq![']'] + rest;
    if ns.len() == 0 {
        assert(s =~= nl_indent(6) + (seq![']'] + rest));
        assert((seq![']'] + rest)[0] == ']');
        lemma_skip_ws_nl_indent(6, seq![']'] + rest);
        assert((seq![']'] + rest).drop_first() =~= rest);
        assert(acc + ns =~= acc);
    } else {
        let n0 = ns[0];
        let nrest = ns.drop_first();
        let after = note_items_cat(nrest) + nl_indent(6) + seq![']'] + rest;
        let inner = seq!['\n'] + render_note(n0) + after;
        assert(s =~= seq![','] + inner);
        assert(s[0] == ',');
        assert(skip_ws(s) == s);
        assert(s.drop_first() =~= inner);
        lemma_parse_note(n0, after);
        assert(s.len() == 2 + render_note(n0).len() + after.len());
        lemma_parse_note_items(nrest, acc.push(n0), rest);
        assert(acc.push(n0) + nrest =~= acc + ns);
    }
}

/// A note array written canonically is read back, leaving exactly what
/// followed it.
#[verifier::rlimit(80)]
proof fn lemma_parse_note_list(ns: Seq<NoteView>, rest: Seq<char>)
    ensures
        parse_note_list(render_notes(ns) + rest) == Some((ns, rest)),
{
    let s = render_notes(ns) + rest;
    if ns.len() == 0 {
        assert(s =~= seq!['['] + (seq![']'] + rest));
        assert(s[0] == '[');
        assert(skip_ws(s) == s);
        assert(s.drop_first() =~= seq![']'] + rest);
        assert((seq![']'] + rest)[0] == ']');
        assert(skip_ws(seq![']'] + rest) == seq![']'] + rest);
        assert((seq![']'] + rest).drop_first() =~= rest);
    } else {
        let n0 = ns[0];
        let nrest = ns.drop_first();
        let after = note_items_cat(nrest) + nl_indent(6) + seq![']'] + rest;
        let inner = seq!['\n'] + render_note(n0) + after;
        assert(s =~= seq!['['] + inner);
        assert(s[0] == '[');
        assert(skip_ws(s) == s);
        assert(s.drop_first() =~= inner);
        lemma_parse_note(n0, after);
        assert(skip_ws(inner)[0] == '{');
        assert(s.len() == 2 + render_note(n0).len() + after.len());
        lemma_parse_note_items(nrest, seq![n0], rest);
        assert(seq![n0] + nrest =~= ns);
    }
}

/// A task written canonically after a line break is read back, leaving
/// exactly what followed it; and the first non-blank character ahead is
/// its opening brace.
#[verifier::rlimit(80)]
proof fn lemma_parse_task(t: TaskView, rest: Seq<char>)
    ensures
        parse_task(seq!['\n'] + render_task(t) + rest) == Some((t, rest)),
        skip_ws(seq!['\n'] + render_task(t) + rest).len() >= 1,
        skip_ws(seq!['\n'] + render_task(t) + rest)[0] == '{',
{
    reveal_strlit("\"text\"");
    reveal_strlit("\"notes\"");
    let s = seq!['\n'] + render_task(t) + rest;
    let tail1 = seq![','] + nl_indent(6) + "\"notes\""@ + colon_sp() + render_notes(t.notes)
        + nl_indent(4) + seq!['}'] + rest;
    let x1 = seq!['{'] + nl_indent(6) + "\"text\""@ + colon_sp() + (quoted(t.text) + tail1);
    assert(s =~= nl_indent(4) + x1);
    assert(x1[0] == '{');
    lemma_skip_ws_nl_indent(4, x1);
    let s0 = x1;
    assert(s0.drop_first() =~= nl_indent(6) + "\"text\""@ + colon_sp() + (quoted(t.text)
        + tail1));
    assert("\"text\""@[0] == '"');
    assert((quoted(t.text) + tail1)[0] == '"');
    lemma_key_colon(6, "\"text\""@, quoted(t.text) + tail1);
    lemma_parse_quoted(t.text, tail1);
    assert(tail1[0] == ',');
    assert(skip_ws(tail1) == tail1);
    let tail2 = render_notes(t.notes) + (nl_indent(4) + seq!['}'] + rest);
    assert(tail1.drop_first() =~= nl_indent(6) + "\"notes\""@ + colon_sp() + tail2);
    assert("\"notes\""@[0] == '"');
    if t.notes.len() == 0 {
        assert(tail2[0] == '[');
    } else {
        assert(tail2[0] == '[');
    }
    lemma_key_colon(6, "\"notes\""@, tail2);
    lemma_parse_note_list(t.notes, nl_indent(4) + seq!['}'] + rest);
    let tail3 = nl_indent(4) + seq!['}'] + rest;
    assert(tail3 =~= nl_indent(4) + (seq!['}'] + rest));
    assert((seq!['}'] + rest)[0] == '}');
    lemma_skip_ws_nl_indent(4, seq!['}'] + rest);
    assert((seq!['}'] + rest).drop_first() =~= rest);
    assert(TaskView { text: t.text, notes: t.notes } == t);
}

/// The tail of a task array written canonically is read back.
#[verifier::rlimit(80)]
proof fn lemma_parse_task_items(ts: Seq<TaskView>, acc: Seq<TaskView>, rest: Seq<char>)
    ensures
        parse_task_items(task_items_cat(ts) + nl_indent(2) + seq![']'] + rest, acc) == Some(
            (acc + ts, rest),
        ),
    decreases ts.len(),
{
    let s = task_items_cat(ts) + nl_indent(2) + seq![']'] + rest;
    if ts.len() == 0 {
        assert(s =~= nl_indent(2) + (seq![']'] + rest));
        assert((seq![']'] + rest)[0] == ']');
        lemma_skip_ws_nl_indent(2, seq![']'] + rest);
        assert((seq![']'] + rest).drop_first() =~= rest);
        assert(acc + ts =~= acc);
    } else {
        let t0 = ts[0];
        let trest = ts.drop_first();
        let after = task_items_cat(trest) + nl_indent(2) + seq![']'] + rest;
        let inner = seq!['\n'] + render_task(t0) + after;
        assert(s =~= seq![','] + inner);
        assert(s[0] == ',');
        assert(skip_ws(s) == s);
        assert(s.drop_first() =~= inner);
        lemma_parse_task(t0, after);
        assert(s.len() == 2 + render_task(t0).len() + after.len());
        lemma_parse_task_items(trest, acc.push(t0), rest);
        assert(acc.push(t0) + trest =~= acc + ts);
    }
}

/// A task array written canonically is read back.
#[verifier::rlimit(80)]
proof fn lemma_parse_task_list(ts: Seq<TaskView>, rest: Seq<char>)
    ensures
        parse_task_list(render_tasks(ts) + rest) == Some((ts, rest)),
{
    let s = render_tasks(ts) + rest;
    if ts.len() == 0 {
        assert(s =~= seq!['['] + (seq![']'] + rest));
        assert(s[0] == '[');
        assert(skip_ws(s) == s);
        assert(s.drop_first() =~= seq![']'] + rest);
        assert((seq![']'] + rest)[0] == ']');
        assert(skip_ws(seq![']'] + rest) == seq![']'] + rest);
        assert((seq![']'] + rest).drop_first() =~= rest);
    } else {
        let t0 = ts[0];
        let trest = ts.drop_first();
        let after = task_items_cat(trest) + nl_indent(2) + seq![']'] + rest;
        let inner = seq!['\n'] + render_task(t0) + after;
        assert(s =~= seq!['['] + inner);
        assert(s[0] == '[');
        assert(skip_ws(s) == s);
        assert(s.drop_first() =~= inner);
        lemma_parse_task(t0, after);
        assert(skip_ws(inner)[0] == '{');
        assert(s.len() == 2 + render_task(t0).len() + after.len());
        lemma_parse_task_items(trest, seq![t0], rest);
        assert(seq![t0] + trest =~= ts);
    }
}

/// Reading a canonically written aggregate gives back exactly the
/// aggregate that was written: persistence loses nothing, for every
/// value of the aggregate.
#[verifier::rlimit(80)]
pub proof fn lemma_state_round_trip(v: StateView)
    ensures
        parse_state_text(render_state(v)) == Some(v),
{
    reveal_strlit("\"current\"");
    reveal_strlit("\"shelf\"");
    let s = render_state(v);
    let tail1 = seq![','] + nl_indent(2) + "\"shelf\""@ + colon_sp() + render_tasks(v.shelf)
        + nl_indent(0) + seq!['}'];
    let x1 = seq!['{'] + nl_indent(2) + "\"current\""@ + colon_sp() + (render_tasks(v.current)
        + tail1);
    assert(s =~= x1);
    assert(s[0] == '{');
    assert(skip_ws(s) == s);
    assert(s.drop_first() =~= nl_indent(2) + "\"current\""@ + colon_sp() + (render_tasks(
        v.current,
    ) + tail1));
    assert("\"current\""@[0] == '"');
    let xc = render_tasks(v.current) + tail1;
    if v.current.len() == 0 {
        assert(xc[0] == '[');
    } else {
        assert(xc[0] == '[');
    }
    lemma_key_colon(2, "\"current\""@, xc);
    lemma_parse_task_list(v.current, tail1);
    assert(tail1[0] == ',');
    assert(skip_ws(tail1) == tail1);
    let tail2 = render_tasks(v.shelf) + (nl_indent(0) + seq!['}']);
    assert(tail1.drop_first() =~= nl_indent(2) + "\"shelf\""@ + colon_sp() + tail2);
    assert("\"shelf\""@[0] == '"');
    if v.shelf.len() == 0 {
        assert(tail2[0] == '[');
    } else {
        assert(tail2[0] == '[');
    }
    lemma_key_colon(2, "\"shelf\""@, tail2);
    lemma_parse_task_list(v.shelf, nl_indent(0) + seq!['}']);
    let tail3 = nl_indent(0) + seq!['}'];
    assert(tail3 =~= nl_indent(0) + (seq!['}'] + Seq::<char>::empty()));
    assert((seq!['}'] + Seq::<char>::empty())[0] == '}');
    lemma_skip_ws_nl_indent(0, seq!['}'] + Seq::<char>::empty());
    let e = (seq!['}'] + Seq::<char>::empty()).drop_first();
    assert(e =~= Seq::<char>::empty());
    assert(skip_ws(e).len() == 0);
    assert(StateView { current: v.current, shelf: v.shelf } == v);
}

/// Reading a canonically written configuration gives back exactly the
/// hotkey text that was written.
pub proof fn lemma_config_round_trip(hotkey: Seq<char>)
    ensures
        parse_config_text(render_config(hotkey)) == Some(hotkey),
{
    reveal_strlit("\"hotkey\"");
    let s = render_config(hotkey);
    let tail1 = nl_indent(0) + seq!['}'];
    let x1 = seq!['{'] + nl_indent(2) + "\"hotkey\""@ + colon_sp() + (quoted(hotkey) + tail1);
    assert(s =~= x1);
    assert(s[0] == '{');
    assert(skip_ws(s) == s);
    assert(s.drop_first() =~= nl_indent(2) + "\"hotkey\""@ + colon_sp() + (quoted(hotkey)
        + tail1));
    assert("\"hotkey\""@[0] == '"');
    assert((quoted(hotkey) + tail1)[0] == '"');
    lemma_key_colon(2, "\"hotkey\""@, quoted(hotkey) + tail1);
    lemma_parse_quoted(hotkey, tail1);
    assert(tail1 =~= nl_indent(0) + (seq!['}'] + Seq::<char>::empty()));
    assert((seq!['}'] + Seq::<char>::empty())[0] == '}');
    lemma_skip_ws_nl_indent(0, seq!['}'] + Seq::<char>::empty());
    let e = (seq!['}'] + Seq::<char>::empty()).drop_first();
    assert(e =~= Seq::<char>::empty());
    assert(skip_ws(e).len() == 0);
}


} // verus!
