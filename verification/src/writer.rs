//! The executable writer of the persisted text: it produces exactly the
//! canonical form that the format module describes.

use vstd::prelude::*;
use crate::chars::{push_str_chars, chars_to_string};
use crate::json::{hex_digit, escape_char, escape_string, quoted};
use crate::format::{
    ws_run, nl_indent, colon_sp, render_bool, render_note, note_items_cat, render_notes,
    render_task, task_items_cat, render_tasks, render_state, render_config,
};
use crate::model::{Note, Task, TaskState, AppConfig, NoteView, TaskView, notes_view, tasks_view};

verus! {

/// Append one character.
fn push_ch(out: &mut Vec<char>, c: char)
    ensures
        final(out)@ == old(out)@ + seq![c],
{
    out.push(c);
    proof {
        assert(out@ =~= old(out)@ + seq![c]);
    }
}

/// Append `k` spaces.
fn push_spaces(out: &mut Vec<char>, k: usize)
    ensures
        final(out)@ == old(out)@ + ws_run(k as nat),
{
    let mut i: usize = 0;
    while i < k
        invariant
            i <= k,
            out@ == old(out)@ + ws_run(i as nat),
        decreases k - i,
    {
        out.push(' ');
        proof {
            assert(out@ =~= old(out)@ + ws_run((i + 1) as nat));
        }
        i = i + 1;
    }
}

/// Append a line break and `k` spaces of indentation.
fn push_nl_indent(out: &mut Vec<char>, k: usize)
    ensures
        final(out)@ == old(out)@ + nl_indent(k as nat),
{
    push_ch(out, '\n');
    push_spaces(out, k);
    proof {
        assert(out@ =~= old(out)@ + nl_indent(k as nat));
    }
}

/// Append the name-value separator.
fn push_colon_sp(out: &mut Vec<char>)
    ensures
        final(out)@ == old(out)@ + colon_sp(),
{
    push_ch(out, ':');
    push_ch(out, ' ');
    proof {
        assert(out@ =~= old(out)@ + colon_sp());
    }
}

/// The lower-case hexadecimal digit with value `n`.
fn hex_digit_char(n: u32) -> (r: char)
    requires
        n < 16,
    ensures
        r == hex_digit(n as int),
{
    if n == 0 { '0' }
    else if n == 1 { '1' }
    else if n == 2 { '2' }
    else if n == 3 { '3' }
    else if n == 4 { '4' }
    else if n == 5 { '5' }
    else if n == 6 { '6' }
    else if n == 7 { '7' }
    else if n == 8 { '8' }
    else if n == 9 { '9' }
    else if n == 10 { 'a' }
    else if n == 11 { 'b' }
    else if n == 12 { 'c' }
    else if n == 13 { 'd' }
    else if n == 14 { 'e' }
    else { 'f' }
}

/// Append one character in its escaped form.
fn push_escaped_char(out: &mut Vec<char>, c: char)
    ensures
        final(out)@ == old(out)@ + escape_char(c),
{
    if c == '"' {
        push_ch(out, '\\');
        push_ch(out, '"');
    } else if c == '\\' {
        push_ch(out, '\\');
        push_ch(out, '\\');
    } else if c == '\u{8}' {
        push_ch(out, '\\');
        push_ch(out, 'b');
    } else if c == '\u{c}' {
        push_ch(out, '\\');
        push_ch(out, 'f');
    } else if c == '\n' {
        push_ch(out, '\\');
        push_ch(out, 'n');
    } else if c == '\r' {
        push_ch(out, '\\');
        push_ch(out, 'r');
    } else if c == '\t' {
        push_ch(out, '\\');
        push_ch(out, 't');
    } else {
        let v = c as u32;
        if v < 32 {
            push_ch(out, '\\');
            push_ch(out, 'u');
            push_ch(out, '0');
            push_ch(out, '0');
            push_ch(out, hex_digit_char(v / 16));
            push_ch(out, hex_digit_char(v % 16));
        } else {
            push_ch(out, c);
        }
    }
    proof {
        assert(out@ =~= old(out)@ + escape_char(c));
    }
}

/// Appending one more character extends the escaped text by that
/// character's escape.
proof fn lemma_escape_push(s: Seq<char>, c: char)
    ensures
        escape_string(s.push(c)) == escape_string(s) + escape_char(c),
    decreases s.len(),
{
    if s.len() == 0 {
        assert(s.push(c) =~= seq![c]);
        assert(seq![c].drop_first() =~= Seq::<char>::empty());
        reveal_with_fuel(escape_string, 3);
        assert(escape_string(s.push(c)) =~= escape_string(s) + escape_char(c));
    } else {
        assert(s.push(c).drop_first() =~= s.drop_first().push(c));
        lemma_escape_push(s.drop_first(), c);
        assert(escape_string(s.push(c)) =~= escape_string(s) + escape_char(c));
    }
}

/// Append a whole JSON string literal for `text`.
fn push_quoted(out: &mut Vec<char>, text: &str)
    ensures
        final(out)@ == old(out)@ + quoted(text@),
{
    push_ch(out, '"');
    let cs = crate::chars::str_chars(text);
    let mut i: usize = 0;
    while i < cs.len()
        invariant
            i <= cs.len(),
            cs@ == text@,
            out@ == old(out)@ + seq!['"'] + escape_string(text@.take(i as int)),
        decreases cs.len() - i,
    {
        push_escaped_char(out, cs[i]);
        proof {
            assert(text@.take(i + 1) =~= text@.take(i as int).push(text@[i as int]));
            lemma_escape_push(text@.take(i as int), text@[i as int]);
            assert(out@ =~= old(out)@ + seq!['"'] + escape_string(text@.take(i + 1)));
        }
        i = i + 1;
    }
    proof {
        assert(text@.take(text@.len() as int) =~= text@);
    }
    push_ch(out, '"');
    proof {
        assert(out@ =~= old(out)@ + quoted(text@));
    }
}

/// Append a JSON boolean.
fn push_bool(out: &mut Vec<char>, b: bool)
    ensures
        final(out)@ == old(out)@ + render_bool(b),
{
    if b {
        push_str_chars(out, "true");
    } else {
        push_str_chars(out, "false");
    }
}

/// Append one note object.
fn push_note(out: &mut Vec<char>, n: &Note)
    ensures
        final(out)@ == old(out)@ + render_note(n@),
{
    push_spaces(out, 8);
    push_ch(out, '{');
    push_nl_indent(out, 10);
    push_str_chars(out, "\"text\"");
    push_colon_sp(out);
    push_quoted(out, n.text.as_str());
    push_ch(out, ',');
    push_nl_indent(out, 10);
    push_str_chars(out, "\"completed\"");
    push_colon_sp(out);
    push_bool(out, n.completed);
    push_nl_indent(out, 8);
    push_ch(out, '}');
    proof {
        assert(out@ =~= old(out)@ + render_note(n@));
    }
}

/// Extending a list by one element extends its separated text by one
/// separator and element.
proof fn lemma_note_items_cat_push(ns: Seq<NoteView>, n: NoteView)
    ensures
        note_items_cat(ns.push(n)) == note_items_cat(ns) + (seq![',', '\n'] + render_note(n)),
    decreases ns.len(),
{
    if ns.len() == 0 {
        assert(ns.push(n) =~= seq![n]);
        assert(seq![n].drop_first() =~= Seq::<NoteView>::empty());
        reveal_with_fuel(note_items_cat, 3);
        assert(note_items_cat(ns.push(n)) =~= note_items_cat(ns) + (seq![',', '\n']
            + render_note(n)));
    } else {
        assert(ns.push(n).drop_first() =~= ns.drop_first().push(n));
        lemma_note_items_cat_push(ns.drop_first(), n);
        assert(note_items_cat(ns.push(n)) =~= note_items_cat(ns) + (seq![',', '\n']
            + render_note(n)));
    }
}

/// Append a whole note array.
fn push_notes(out: &mut Vec<char>, notes: &Vec<Note>)
    ensures
        final(out)@ == old(out)@ + render_notes(notes_view(notes@)),
{
    let ghost nv = notes_view(notes@);
    if notes.len() == 0 {
        push_ch(out, '[');
        push_ch(out, ']');
        proof {
            assert(out@ =~= old(out)@ + render_notes(nv));
        }
    } else {
        push_ch(out, '[');
        push_ch(out, '\n');
        push_note(out, &notes[0]);
        let mut i: usize = 1;
        while i < notes.len()
            invariant
                1 <= i <= notes.len(),
                nv == notes_view(notes@),
                nv.len() == notes@.len(),
                out@ == old(out)@ + seq!['[', '\n'] + render_note(nv[0]) + note_items_cat(
                    nv.subrange(1, i as int),
                ),
            decreases notes.len() - i,
        {
            push_ch(out, ',');
            push_ch(out, '\n');
            push_note(out, &notes[i]);
            proof {
                assert(nv.subrange(1, i + 1) =~= nv.subrange(1, i as int).push(nv[i as int]));
                lemma_note_items_cat_push(nv.subrange(1, i as int), nv[i as int]);
                assert(out@ =~= old(out)@ + seq!['[', '\n'] + render_note(nv[0])
                    + note_items_cat(nv.subrange(1, i + 1)));
            }
            i = i + 1;
        }
        push_nl_indent(out, 6);
        push_ch(out, ']');
        proof {
            assert(nv.subrange(1, nv.len() as int) =~= nv.drop_first());
            assert(out@ =~= old(out)@ + render_notes(nv));
        }
    }
}

/// Append one task object.
fn push_task(out: &mut Vec<char>, t: &Task)
    ensures
        final(out)@ == old(out)@ + render_task(t@),
{
    push_spaces(out, 4);
    push_ch(out, '{');
    push_nl_indent(out, 6);
    push_str_chars(out, "\"text\"");
    push_colon_sp(out);
    push_quoted(out, t.text.as_str());
    push_ch(out, ',');
    push_nl_indent(out, 6);
    push_str_chars(out, "\"notes\"");
    push_colon_sp(out);
    push_notes(out, &t.notes);
    push_nl_indent(out, 4);
    push_ch(out, '}');
    proof {
        assert(out@ =~= old(out)@ + render_task(t@));
    }
}

/// Extending a list by one element extends its separated text by one
/// separator and element.
proof fn lemma_task_items_cat_push(ts: Seq<TaskView>, t: TaskView)
    ensures
        task_items_cat(ts.push(t)) == task_items_cat(ts) + (seq![',', '\n'] + render_task(t)),
    decreases ts.len(),
{
    if ts.len() == 0 {
        assert(ts.push(t) =~= seq![t]);
        assert(seq![t].drop_first() =~= Seq::<TaskView>::empty());
        reveal_with_fuel(task_items_cat, 3);
        assert(task_items_cat(ts.push(t)) =~= task_items_cat(ts) + (seq![',', '\n']
            + render_task(t)));
    } else {
        assert(ts.push(t).drop_first() =~= ts.drop_first().push(t));
        lemma_task_items_cat_push(ts.drop_first(), t);
        assert(task_items_cat(ts.push(t)) =~= task_items_cat(ts) + (seq![',', '\n']
            + render_task(t)));
    }
}

/// Append a whole task array.
fn push_tasks(out: &mut Vec<char>, tasks: &Vec<Task>)
    ensures
        final(out)@ == old(out)@ + render_tasks(tasks_view(tasks@)),
{
    let ghost tv = tasks_view(tasks@);
    if tasks.len() == 0 {
        push_ch(out, '[');
        push_ch(out, ']');
        proof {
            assert(out@ =~= old(out)@ + render_tasks(tv));
        }
    } else {
        push_ch(out, '[');
        push_ch(out, '\n');
        push_task(out, &tasks[0]);
        let mut i: usize = 1;
        while i < tasks.len()
            invariant
                1 <= i <= tasks.len(),
                tv == tasks_view(tasks@),
                tv.len() == tasks@.len(),
                out@ == old(out)@ + seq!['[', '\n'] + render_task(tv[0]) + task_items_cat(
                    tv.subrange(1, i as int),
                ),
            decreases tasks.len() - i,
        {
            push_ch(out, ',');
            push_ch(out, '\n');
            push_task(out, &tasks[i]);
            proof {
                assert(tv.subrange(1, i + 1) =~= tv.subrange(1, i as int).push(tv[i as int]));
                lemma_task_items_cat_push(tv.subrange(1, i as int), tv[i as int]);
                assert(out@ =~= old(out)@ + seq!['[', '\n'] + render_task(tv[0])
                    + task_items_cat(tv.subrange(1, i + 1)));
            }
            i = i + 1;
        }
        push_nl_indent(out, 2);
        push_ch(out, ']');
        proof {
            assert(tv.subrange(1, tv.len() as int) =~= tv.drop_first());
            assert(out@ =~= old(out)@ + render_tasks(tv));
        }
    }
}

/// The canonical persisted text of a whole aggregate.
pub fn state_json(state: &TaskState) -> (r: String)
    ensures
        r@ == render_state(state@),
{
    let mut out: Vec<char> = Vec::new();
    push_ch(&mut out, '{');
    push_nl_indent(&mut out, 2);
    push_str_chars(&mut out, "\"current\"");
    push_colon_sp(&mut out);
    push_tasks(&mut out, &state.current);
    push_ch(&mut out, ',');
    push_nl_indent(&mut out, 2);
    push_str_chars(&mut out, "\"shelf\"");
    push_colon_sp(&mut out);
    push_tasks(&mut out, &state.shelf);
    push_nl_indent(&mut out, 0);
    push_ch(&mut out, '}');
    proof {
        assert(out@ =~= render_state(state@));
    }
    chars_to_string(&out)
}

/// The canonical persisted text of a configuration.
pub fn config_json(config: &AppConfig) -> (r: String)
    ensures
        r@ == render_config(config@),
{
    let mut out: Vec<char> = Vec::new();
    push_ch(&mut out, '{');
    push_nl_indent(&mut out, 2);
    push_str_chars(&mut out, "\"hotkey\"");
    push_colon_sp(&mut out);
    push_quoted(&mut out, config.hotkey.as_str());
    push_nl_indent(&mut out, 0);
    push_ch(&mut out, '}');
    proof {
        assert(out@ =~= render_config(config@));
    }
    chars_to_string(&out)
}

} // verus!
