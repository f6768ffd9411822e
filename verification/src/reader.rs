//! The executable reader of the persisted text. Each function returns
//! exactly what the corresponding parsing function of the format module
//! says for its input, so a malformed file is reported as such rather
//! than misread. The accepted grammar is the format module's: arbitrary
//! whitespace between tokens, omitted trailing members taking their
//! defaults, and the string escapes the writer can emit. Members in a
//! non-canonical order or beyond the known ones, and `\uXXXX` escapes
//! of characters outside the control range, are deliberately not
//! accepted: no file this format writes contains them, and anything
//! else falls to the corruption path, which keeps the bytes and starts
//! fresh.

use vstd::prelude::*;
use crate::chars::{str_chars, chars_to_string};
use crate::json::{is_ws, hex_val, low_char, unescape_char, parse_string_body};
use crate::format::{
    skip_ws, tag, parse_key_colon, parse_quoted, parse_bool, parse_note, parse_note_items,
    parse_note_list, parse_task, parse_task_items, parse_task_list, parse_state_text,
    parse_config_text,
};
use crate::model::{Note, Task, TaskState, StateView, notes_view, tasks_view};

verus! {

/// Whether `c` is JSON whitespace.
fn is_ws_char(c: char) -> (r: bool)
    ensures
        r == is_ws(c),
{
    c == ' ' || c == '\n' || c == '\r' || c == '\t'
}

/// Advance past whitespace: afterwards the input at the returned index
/// is the whitespace-skipped input at `i`.
fn w_skip(v: &Vec<char>, i: usize) -> (j: usize)
    requires
        i <= v.len(),
    ensures
        i <= j <= v@.len(),
        v@.skip(j as int) == skip_ws(v@.skip(i as int)),
{
    let mut j: usize = i;
    while j < v.len() && is_ws_char(v[j])
        invariant
            i <= j <= v.len(),
            skip_ws(v@.skip(i as int)) == skip_ws(v@.skip(j as int)),
        decreases v.len() - j,
    {
        proof {
            let s = v@.skip(j as int);
            assert(s[0] == v@[j as int]);
            assert(s.drop_first() =~= v@.skip(j + 1));
        }
        j = j + 1;
    }
    proof {
        let s = v@.skip(j as int);
        if j < v.len() {
            assert(s[0] == v@[j as int]);
        }
    }
    j
}

/// Consume the token `t` at `i`, if it is there.
fn p_tag(v: &Vec<char>, i: usize, t: &str) -> (r: Option<usize>)
    requires
        i <= v.len(),
    ensures
        match r {
            Some(j) => i <= j <= v@.len() && tag(v@.skip(i as int), t@) == Some(
                v@.skip(j as int),
            ),
            None => tag(v@.skip(i as int), t@) is None,
        },
{
    let ts = str_chars(t);
    let n = ts.len();
    if n > v.len() - i {
        return None;
    }
    let mut k: usize = 0;
    while k < n
        invariant
            0 <= k <= n,
            n == t@.len(),
            ts@ == t@,
            i <= v.len(),
            n <= v.len() - i,
            forall|m: int| 0 <= m < k ==> v@[i + m] == t@[m],
        decreases n - k,
    {
        if v[i + k] != ts[k] {
            proof {
                let s = v@.skip(i as int);
                assert(s.take(n as int)[k as int] == v@[i + k]);
                assert(s.take(n as int) != t@);
            }
            return None;
        }
        k = k + 1;
    }
    proof {
        let s = v@.skip(i as int);
        assert(s.take(n as int) =~= t@);
        assert(s.skip(n as int) =~= v@.skip(i + n));
    }
    Some(i + n)
}

/// The value of a hexadecimal digit, or -1.
fn hex_val_char(c: char) -> (r: i32)
    ensures
        r as int == hex_val(c),
{
    if c == '0' { 0 }
    else if c == '1' { 1 }
    else if c == '2' { 2 }
    else if c == '3' { 3 }
    else if c == '4' { 4 }
    else if c == '5' { 5 }
    else if c == '6' { 6 }
    else if c == '7' { 7 }
    else if c == '8' { 8 }
    else if c == '9' { 9 }
    else if c == 'a' || c == 'A' { 10 }
    else if c == 'b' || c == 'B' { 11 }
    else if c == 'c' || c == 'C' { 12 }
    else if c == 'd' || c == 'D' { 13 }
    else if c == 'e' || c == 'E' { 14 }
    else if c == 'f' || c == 'F' { 15 }
    else { -1 }
}

/// The control character with the given scalar value.
fn low_char_of(code: u32) -> (r: char)
    requires
        code < 32,
    ensures
        r == low_char(code as int),
{
    (code as u8) as char
}

/// The character denoted by a single-letter escape.
fn unescape_char_of(e: char) -> (r: Option<char>)
    ensures
        r == unescape_char(e),
{
    if e == '"' { Some('"') }
    else if e == '\\' { Some('\\') }
    else if e == '/' { Some('/') }
    else if e == 'b' { Some('\u{8}') }
    else if e == 'f' { Some('\u{c}') }
    else if e == 'n' { Some('\n') }
    else if e == 'r' { Some('\r') }
    else if e == 't' { Some('\t') }
    else { None }
}

/// What a decoded prefix contributes to the result of reading a string
/// body.
spec fn pre_body(p: Seq<char>, o: Option<(Seq<char>, Seq<char>)>) -> Option<
    (Seq<char>, Seq<char>),
> {
    match o {
        Some(q) => Some((p + q.0, q.1)),
        None => None,
    }
}

/// Consume a JSON string literal at `i`: the decoded text and the index
/// after the closing quote.
fn p_quoted(v: &Vec<char>, i: usize) -> (r: Option<(String, usize)>)
    requires
        i <= v.len(),
    ensures
        match r {
            Some(p) => i <= p.1 <= v@.len() && parse_quoted(v@.skip(i as int)) == Some(
                (p.0@, v@.skip(p.1 as int)),
            ),
            None => parse_quoted(v@.skip(i as int)) is None,
        },
{
    if !(i < v.len() && v[i] == '"') {
        proof {
            let s = v@.skip(i as int);
            if i < v.len() {
                assert(s[0] == v@[i as int]);
            }
        }
        return None;
    }
    proof {
        let s = v@.skip(i as int);
        assert(s[0] == v@[i as int]);
        assert(s.drop_first() =~= v@.skip(i + 1));
    }
    let ghost orig = parse_string_body(v@.skip(i + 1));
    let mut acc: Vec<char> = Vec::new();
    let mut j: usize = i + 1;
    loop
        invariant
            i + 1 <= j <= v.len(),
            orig == parse_string_body(v@.skip(i + 1)),
            orig == pre_body(acc@, parse_string_body(v@.skip(j as int))),
            parse_quoted(v@.skip(i as int)) == orig,
        decreases v.len() - j,
    {
        proof {
            let s = v@.skip(j as int);
            if j < v.len() {
                assert(s[0] == v@[j as int]);
                assert(s.drop_first() =~= v@.skip(j + 1));
            }
        }
        if j >= v.len() {
            return None;
        }
        let c = v[j];
        if c == '"' {
            proof {
                assert(acc@ + Seq::<char>::empty() =~= acc@);
            }
            return Some((chars_to_string(&acc), j + 1));
        } else if c == '\\' {
            if v.len() - j < 2 {
                return None;
            }
            let e = v[j + 1];
            proof {
                let s = v@.skip(j as int);
                assert(s[1] == v@[j + 1]);
            }
            if e == 'u' {
                if v.len() - j < 6 {
                    return None;
                }
                proof {
                    let s = v@.skip(j as int);
                    assert(s[2] == v@[j + 2]);
                    assert(s[3] == v@[j + 3]);
                    assert(s[4] == v@[j + 4]);
                    assert(s[5] == v@[j + 5]);
                    assert(s.skip(6) =~= v@.skip(j + 6));
                }
                let h1 = hex_val_char(v[j + 4]);
                let h2 = hex_val_char(v[j + 5]);
                if v[j + 2] == '0' && v[j + 3] == '0' && h1 >= 0 && h2 >= 0 && h1 * 16 + h2
                    < 32 {
                    let code: u32 = (h1 as u32) * 16 + (h2 as u32);
                    let ghost accp = acc@;
                    let d = low_char_of(code);
                    acc.push(d);
                    proof {
                        if parse_string_body(v@.skip(j + 6)) is Some {
                            let q = parse_string_body(v@.skip(j + 6))->Some_0;
                            assert(accp + (seq![d] + q.0) =~= acc@ + q.0);
                        }
                    }
                    j = j + 6;
                } else {
                    return None;
                }
            } else {
                let dd = unescape_char_of(e);
                if let Some(d) = dd {
                    proof {
                        let s = v@.skip(j as int);
                        assert(s.skip(2) =~= v@.skip(j + 2));
                    }
                    let ghost accp = acc@;
                    acc.push(d);
                    proof {
                        if parse_string_body(v@.skip(j + 2)) is Some {
                            let q = parse_string_body(v@.skip(j + 2))->Some_0;
                            assert(accp + (seq![d] + q.0) =~= acc@ + q.0);
                        }
                    }
                    j = j + 2;
                } else {
                    return None;
                }
            }
        } else {
            let cv = c as u32;
            if cv < 32 {
                return None;
            }
            let ghost accp = acc@;
            acc.push(c);
            proof {
                if parse_string_body(v@.skip(j + 1)) is Some {
                    let q = parse_string_body(v@.skip(j + 1))->Some_0;
                    assert(accp + (seq![c] + q.0) =~= acc@ + q.0);
                }
            }
            j = j + 1;
        }
    }
}

/// Consume a JSON boolean at `i`.
fn p_bool(v: &Vec<char>, i: usize) -> (r: Option<(bool, usize)>)
    requires
        i <= v.len(),
    ensures
        match r {
            Some(p) => i <= p.1 <= v@.len() && parse_bool(v@.skip(i as int)) == Some(
                (p.0, v@.skip(p.1 as int)),
            ),
            None => parse_bool(v@.skip(i as int)) is None,
        },
{
    match p_tag(v, i, "true") {
        Some(j) => Some((true, j)),
        None => match p_tag(v, i, "false") {
            Some(j) => Some((false, j)),
            None => None,
        },
    }
}

/// Consume a member name and its colon at `i`.
fn p_key_colon(v: &Vec<char>, i: usize, key: &str) -> (r: Option<usize>)
    requires
        i <= v.len(),
    ensures
        match r {
            Some(j) => i <= j <= v@.len() && parse_key_colon(v@.skip(i as int), key@) == Some(
                v@.skip(j as int),
            ),
            None => parse_key_colon(v@.skip(i as int), key@) is None,
        },
{
    let a = w_skip(v, i);
    match p_tag(v, a, key) {
        None => None,
        Some(b) => {
            let c = w_skip(v, b);
            if c < v.len() && v[c] == ':' {
                proof {
                    let s = v@.skip(c as int);
                    assert(s.take(1) =~= seq![':']);
                    assert(s.skip(1) =~= v@.skip(c + 1));
                }
                let d = w_skip(v, c + 1);
                Some(d)
            } else {
                proof {
                    let s = v@.skip(c as int);
                    if c < v.len() {
                        assert(s.take(1)[0] == v@[c as int]);
                        assert(s.take(1) != seq![':']);
                    }
                }
                None
            }
        },
    }
}

/// Consume one note object at `i`; a missing done flag defaults to
/// false.
fn p_note(v: &Vec<char>, i: usize) -> (r: Option<(Note, usize)>)
    requires
        i <= v.len(),
    ensures
        match r {
            Some(p) => i <= p.1 <= v@.len() && parse_note(v@.skip(i as int)) == Some(
                (p.0@, v@.skip(p.1 as int)),
            ),
            None => parse_note(v@.skip(i as int)) is None,
        },
{
    let s0i = w_skip(v, i);
    proof {
        let s0 = v@.skip(s0i as int);
        if s0i < v.len() {
            assert(s0[0] == v@[s0i as int]);
            assert(s0.drop_first() =~= v@.skip(s0i + 1));
        }
    }
    if !(s0i < v.len() && v[s0i] == '{') {
        return None;
    }
    let a = match p_key_colon(v, s0i + 1, "\"text\"") {
        Some(a) => a,
        None => {
            return None;
        },
    };
    let (text, b) = match p_quoted(v, a) {
        Some(p) => p,
        None => {
            return None;
        },
    };
    let s3i = w_skip(v, b);
    proof {
        let s3 = v@.skip(s3i as int);
        if s3i < v.len() {
            assert(s3[0] == v@[s3i as int]);
            assert(s3.drop_first() =~= v@.skip(s3i + 1));
        }
    }
    if s3i < v.len() && v[s3i] == '}' {
        return Some((Note { text, completed: false }, s3i + 1));
    }
    if !(s3i < v.len() && v[s3i] == ',') {
        return None;
    }
    let c = match p_key_colon(v, s3i + 1, "\"completed\"") {
        Some(c) => c,
        None => {
            return None;
        },
    };
    let (bval, d) = match p_bool(v, c) {
        Some(p) => p,
        None => {
            return None;
        },
    };
    let s6i = w_skip(v, d);
    proof {
        let s6 = v@.skip(s6i as int);
        if s6i < v.len() {
            assert(s6[0] == v@[s6i as int]);
            assert(s6.drop_first() =~= v@.skip(s6i + 1));
        }
    }
    if s6i < v.len() && v[s6i] == '}' {
        Some((Note { text, completed: bval }, s6i + 1))
    } else {
        None
    }
}

/// Consume the tail of a note array at `i`, extending `acc`.
fn p_note_items(v: &Vec<char>, i: usize, acc: Vec<Note>) -> (r: Option<(Vec<Note>, usize)>)
    requires
        i <= v.len(),
    ensures
        match r {
            Some(p) => i <= p.1 <= v@.len() && parse_note_items(
                v@.skip(i as int),
                notes_view(acc@),
            ) == Some((notes_view(p.0@), v@.skip(p.1 as int))),
            None => parse_note_items(v@.skip(i as int), notes_view(acc@)) is None,
        },
    decreases v@.len() - i,
{
    let s1i = w_skip(v, i);
    proof {
        let s1 = v@.skip(s1i as int);
        if s1i < v.len() {
            assert(s1[0] == v@[s1i as int]);
            assert(s1.drop_first() =~= v@.skip(s1i + 1));
        }
    }
    if s1i < v.len() && v[s1i] == ']' {
        return Some((acc, s1i + 1));
    }
    if !(s1i < v.len() && v[s1i] == ',') {
        return None;
    }
    let (n, rj) = match p_note(v, s1i + 1) {
        Some(p) => p,
        None => {
            return None;
        },
    };
    if rj > i {
        let ghost accv = notes_view(acc@);
        let mut acc2 = acc;
        acc2.push(n);
        proof {
            assert(notes_view(acc2@) =~= accv.push(n@));
        }
        p_note_items(v, rj, acc2)
    } else {
        None
    }
}

/// Consume a whole note array at `i`.
fn p_note_list(v: &Vec<char>, i: usize) -> (r: Option<(Vec<Note>, usize)>)
    requires
        i <= v.len(),
    ensures
        match r {
            Some(p) => i <= p.1 <= v@.len() && parse_note_list(v@.skip(i as int)) == Some(
                (notes_view(p.0@), v@.skip(p.1 as int)),
            ),
            None => parse_note_list(v@.skip(i as int)) is None,
        },
{
    let s0i = w_skip(v, i);
    proof {
        let s0 = v@.skip(s0i as int);
        if s0i < v.len() {
            assert(s0[0] == v@[s0i as int]);
            assert(s0.drop_first() =~= v@.skip(s0i + 1));
        }
    }
    if !(s0i < v.len() && v[s0i] == '[') {
        return None;
    }
    let s1i = w_skip(v, s0i + 1);
    proof {
        let s1 = v@.skip(s1i as int);
        if s1i < v.len() {
            assert(s1[0] == v@[s1i as int]);
            assert(s1.drop_first() =~= v@.skip(s1i + 1));
        }
    }
    if s1i < v.len() && v[s1i] == ']' {
        let empty: Vec<Note> = Vec::new();
        proof {
            assert(notes_view(empty@) =~= Seq::<crate::model::NoteView>::empty());
        }
        return Some((empty, s1i + 1));
    }
    let (n, rj) = match p_note(v, s0i + 1) {
        Some(p) => p,
        None => {
            return None;
        },
    };
    if rj > i {
        let mut acc: Vec<Note> = Vec::new();
        acc.push(n);
        proof {
            assert(notes_view(acc@) =~= seq![n@]);
        }
        p_note_items(v, rj, acc)
    } else {
        None
    }
}

/// Consume one task object at `i`; a missing note array defaults to
/// empty.
fn p_task(v: &Vec<char>, i: usize) -> (r: Option<(Task, usize)>)
    requires
        i <= v.len(),
    ensures
        match r {
            Some(p) => i <= p.1 <= v@.len() && parse_task(v@.skip(i as int)) == Some(
                (p.0@, v@.skip(p.1 as int)),
            ),
            None => parse_task(v@.skip(i as int)) is None,
        },
{
    let s0i = w_skip(v, i);
    proof {
        let s0 = v@.skip(s0i as int);
        if s0i < v.len() {
            assert(s0[0] == v@[s0i as int]);
            assert(s0.drop_first() =~= v@.skip(s0i + 1));
        }
    }
    if !(s0i < v.len() && v[s0i] == '{') {
        return None;
    }
    let a = match p_key_colon(v, s0i + 1, "\"text\"") {
        Some(a) => a,
        None => {
            return None;
        },
    };
    let (text, b) = match p_quoted(v, a) {
        Some(p) => p,
        None => {
            return None;
        },
    };
    let s3i = w_skip(v, b);
    proof {
        let s3 = v@.skip(s3i as int);
        if s3i < v.len() {
            assert(s3[0] == v@[s3i as int]);
            assert(s3.drop_first() =~= v@.skip(s3i + 1));
        }
    }
    if s3i < v.len() && v[s3i] == '}' {
        let notes: Vec<Note> = Vec::new();
        proof {
            assert(notes_view(notes@) =~= Seq::<crate::model::NoteView>::empty());
        }
        return Some((Task { text, notes }, s3i + 1));
    }
    if !(s3i < v.len() && v[s3i] == ',') {
        return None;
    }
    let c = match p_key_colon(v, s3i + 1, "\"notes\"") {
        Some(c) => c,
        None => {
            return None;
        },
    };
    let (notes, d) = match p_note_list(v, c) {
        Some(p) => p,
        None => {
            return None;
        },
    };
    let s6i = w_skip(v, d);
    proof {
        let s6 = v@.skip(s6i as int);
        if s6i < v.len() {
            assert(s6[0] == v@[s6i as int]);
            assert(s6.drop_first() =~= v@.skip(s6i + 1));
        }
    }
    if s6i < v.len() && v[s6i] == '}' {
        Some((Task { text, notes }, s6i + 1))
    } else {
        None
    }
}

/// Consume the tail of a task array at `i`, extending `acc`.
fn p_task_items(v: &Vec<char>, i: usize, acc: Vec<Task>) -> (r: Option<(Vec<Task>, usize)>)
    requires
        i <= v.len(),
    ensures
        match r {
            Some(p) => i <= p.1 <= v@.len() && parse_task_items(
                v@.skip(i as int),
                tasks_view(acc@),
            ) == Some((tasks_view(p.0@), v@.skip(p.1 as int))),
            None => parse_task_items(v@.skip(i as int), tasks_view(acc@)) is None,
        },
    decreases v@.len() - i,
{
    let s1i = w_skip(v, i);
    proof {
        let s1 = v@.skip(s1i as int);
        if s1i < v.len() {
            assert(s1[0] == v@[s1i as int]);
            assert(s1.drop_first() =~= v@.skip(s1i + 1));
        }
    }
    if s1i < v.len() && v[s1i] == ']' {
        return Some((acc, s1i + 1));
    }
    if !(s1i < v.len() && v[s1i] == ',') {
        return None;
    }
    let (t, rj) = match p_task(v, s1i + 1) {
        Some(p) => p,
        None => {
            return None;
        },
    };
    if rj > i {
        let ghost accv = tasks_view(acc@);
        let mut acc2 = acc;
        acc2.push(t);
        proof {
            assert(tasks_view(acc2@) =~= accv.push(t@));
        }
        p_task_items(v, rj, acc2)
    } else {
        None
    }
}

/// Consume a whole task array at `i`.
fn p_task_list(v: &Vec<char>, i: usize) -> (r: Option<(Vec<Task>, usize)>)
    requires
        i <= v.len(),
    ensures
        match r {
            Some(p) => i <= p.1 <= v@.len() && parse_task_list(v@.skip(i as int)) == Some(
                (tasks_view(p.0@), v@.skip(p.1 as int)),
            ),
            None => parse_task_list(v@.skip(i as int)) is None,
        },
{
    let s0i = w_skip(v, i);
    proof {
        let s0 = v@.skip(s0i as int);
        if s0i < v.len() {
            assert(s0[0] == v@[s0i as int]);
            assert(s0.drop_first() =~= v@.skip(s0i + 1));
        }
    }
    if !(s0i < v.len() && v[s0i] == '[') {
        return None;
    }
    let s1i = w_skip(v, s0i + 1);
    proof {
        let s1 = v@.skip(s1i as int);
        if s1i < v.len() {
            assert(s1[0] == v@[s1i as int]);
            assert(s1.drop_first() =~= v@.skip(s1i + 1));
        }
    }
    if s1i < v.len() && v[s1i] == ']' {
        let empty: Vec<Task> = Vec::new();
        proof {
            assert(tasks_view(empty@) =~= Seq::<crate::model::TaskView>::empty());
        }
        return Some((empty, s1i + 1));
    }
    let (t, rj) = match p_task(v, s0i + 1) {
        Some(p) => p,
        None => {
            return None;
        },
    };
    if rj > i {
        let mut acc: Vec<Task> = Vec::new();
        acc.push(t);
        proof {
            assert(tasks_view(acc@) =~= seq![t@]);
        }
        p_task_items(v, rj, acc)
    } else {
        None
    }
}

/// Read a whole persisted aggregate. `None` exactly on the texts the
/// format does not accept.
pub fn parse_state_json(text: &str) -> (r: Option<TaskState>)
    ensures
        match r {
            Some(st) => parse_state_text(text@) == Some(st@),
            None => parse_state_text(text@) is None,
        },
{
    let v = str_chars(text);
    proof {
        assert(v@.skip(0) =~= text@);
    }
    let s0i = w_skip(&v, 0);
    proof {
        let s0 = v@.skip(s0i as int);
        if s0i < v.len() {
            assert(s0[0] == v@[s0i as int]);
            assert(s0.drop_first() =~= v@.skip(s0i + 1));
        }
    }
    if !(s0i < v.len() && v[s0i] == '{') {
        return None;
    }
    let a = match p_key_colon(&v, s0i + 1, "\"current\"") {
        Some(a) => a,
        None => {
            return None;
        },
    };
    let (current, b) = match p_task_list(&v, a) {
        Some(p) => p,
        None => {
            return None;
        },
    };
    let s3i = w_skip(&v, b);
    proof {
        let s3 = v@.skip(s3i as int);
        if s3i < v.len() {
            assert(s3[0] == v@[s3i as int]);
            assert(s3.drop_first() =~= v@.skip(s3i + 1));
        }
    }
    if !(s3i < v.len() && v[s3i] == ',') {
        return None;
    }
    let c = match p_key_colon(&v, s3i + 1, "\"shelf\"") {
        Some(c) => c,
        None => {
            return None;
        },
    };
    let (shelf, d) = match p_task_list(&v, c) {
        Some(p) => p,
        None => {
            return None;
        },
    };
    let s6i = w_skip(&v, d);
    proof {
        let s6 = v@.skip(s6i as int);
        if s6i < v.len() {
            assert(s6[0] == v@[s6i as int]);
            assert(s6.drop_first() =~= v@.skip(s6i + 1));
        }
    }
    if !(s6i < v.len() && v[s6i] == '}') {
        return None;
    }
    let s7i = w_skip(&v, s6i + 1);
    if s7i == v.len() {
        Some(TaskState { current, shelf })
    } else {
        proof {
            assert(v@.skip(s7i as int).len() > 0);
        }
        None
    }
}

/// Read a persisted configuration. `None` exactly on the texts the
/// format does not accept.
pub fn parse_config_json(text: &str) -> (r: Option<String>)
    ensures
        match r {
            Some(h) => parse_config_text(text@) == Some(h@),
            None => parse_config_text(text@) is None,
        },
{
    let v = str_chars(text);
    proof {
        assert(v@.skip(0) =~= text@);
    }
    let s0i = w_skip(&v, 0);
    proof {
        let s0 = v@.skip(s0i as int);
        if s0i < v.len() {
            assert(s0[0] == v@[s0i as int]);
            assert(s0.drop_first() =~= v@.skip(s0i + 1));
        }
    }
    if !(s0i < v.len() && v[s0i] == '{') {
        return None;
    }
    let a = match p_key_colon(&v, s0i + 1, "\"hotkey\"") {
        Some(a) => a,
        None => {
            return None;
        },
    };
    let (hotkey, b) = match p_quoted(&v, a) {
        Some(p) => p,
        None => {
            return None;
        },
    };
    let s3i = w_skip(&v, b);
    proof {
        let s3 = v@.skip(s3i as int);
        if s3i < v.len() {
            assert(s3[0] == v@[s3i as int]);
            assert(s3.drop_first() =~= v@.skip(s3i + 1));
        }
    }
    if !(s3i < v.len() && v[s3i] == '}') {
        return None;
    }
    let s4i = w_skip(&v, s3i + 1);
    if s4i == v.len() {
        Some(hotkey)
    } else {
        proof {
            assert(v@.skip(s4i as int).len() > 0);
        }
        None
    }
}

} // verus!
