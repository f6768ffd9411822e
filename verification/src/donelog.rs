//! The completion log: the record appended for a finished task, and the
//! archive decision. The log file itself is append-only text; the
//! surrounding application performs the appends, copies and truncation
//! that these functions call for.

use vstd::prelude::*;
use crate::chars::chars_to_string;
use crate::clock::{LocalTime, date_text, timestamp_text, push_date, push_timestamp};
use crate::model::{Task, NoteView, TaskView};

verus! {

/// The glyph that marks a note in a record: done or not done.
pub open spec fn note_glyph(completed: bool) -> Seq<char> {
    if completed {
        seq!['\u{2713}']
    } else {
        seq!['\u{25cb}']
    }
}

/// The indented line a record carries for one note.
pub open spec fn note_line(n: NoteView) -> Seq<char> {
    seq![' ', ' '] + note_glyph(n.completed) + seq![' '] + n.text + seq!['\n']
}

/// The note lines of a record, in note order.
pub open spec fn note_lines(ns: Seq<NoteView>) -> Seq<char>
    decreases ns.len(),
{
    if ns.len() == 0 {
        Seq::<char>::empty()
    } else {
        note_line(ns[0]) + note_lines(ns.drop_first())
    }
}

/// The whole record appended for one completed task: the dated task
/// line, then one line per note.
pub open spec fn done_record(t: TaskView, now: LocalTime) -> Seq<char> {
    seq!['-', ' '] + date_text(now) + seq![':', ' '] + t.text + seq!['\n'] + note_lines(t.notes)
}

/// The name of the archive file for a clock reading.
pub open spec fn archive_name_text(now: LocalTime) -> Seq<char> {
    "done_"@ + timestamp_text(now) + ".md"@
}

/// Extending the notes extends the lines by one line.
proof fn lemma_note_lines_push(ns: Seq<NoteView>, n: NoteView)
    ensures
        note_lines(ns.push(n)) == note_lines(ns) + note_line(n),
    decreases ns.len(),
{
    if ns.len() == 0 {
        assert(ns.push(n) =~= seq![n]);
        assert(seq![n].drop_first() =~= Seq::<NoteView>::empty());
        reveal_with_fuel(note_lines, 3);
        assert(note_lines(ns.push(n)) =~= note_lines(ns) + note_line(n));
    } else {
        assert(ns.push(n).drop_first() =~= ns.drop_first().push(n));
        lemma_note_lines_push(ns.drop_first(), n);
        assert(note_lines(ns.push(n)) =~= note_lines(ns) + note_line(n));
    }
}

/// The record to append to the completion log for a finished task, for
/// the given clock reading.
pub fn done_record_string(task: &Task, now: &LocalTime) -> (r: String)
    ensures
        r@ == done_record(task@, *now),
{
    let mut out: Vec<char> = Vec::new();
    out.push('-');
    out.push(' ');
    push_date(&mut out, now);
    out.push(':');
    out.push(' ');
    crate::chars::push_str_chars(&mut out, task.text.as_str());
    out.push('\n');
    let ghost head = out@;
    let mut i: usize = 0;
    while i < task.notes.len()
        invariant
            i <= task.notes.len(),
            out@ == head + note_lines(crate::model::notes_view(task.notes@).take(i as int)),
        decreases task.notes.len() - i,
    {
        let ghost nv = crate::model::notes_view(task.notes@);
        out.push(' ');
        out.push(' ');
        if task.notes[i].completed {
            out.push('\u{2713}');
        } else {
            out.push('\u{25cb}');
        }
        out.push(' ');
        crate::chars::push_str_chars(&mut out, task.notes[i].text.as_str());
        out.push('\n');
        proof {
            assert(nv.take(i + 1) =~= nv.take(i as int).push(nv[i as int]));
            lemma_note_lines_push(nv.take(i as int), nv[i as int]);
            assert(out@ =~= head + note_lines(nv.take(i as int)) + note_line(nv[i as int]));
            assert(out@ =~= head + note_lines(nv.take(i + 1)));
        }
        i = i + 1;
    }
    proof {
        let nv = crate::model::notes_view(task.notes@);
        assert(nv.take(nv.len() as int) =~= nv);
        assert(out@ =~= done_record(task@, *now));
    }
    chars_to_string(&out)
}

/// Why archiving was refused.
#[derive(Debug)]
pub enum ArchiveError {
    /// The log is absent or empty: there is nothing to archive.
    NothingToArchive,
}

impl ArchiveError {
    /// The error as a human-readable line.
    pub fn message(&self) -> (r: String)
        ensures
            r@ == "No completed tasks to archive"@,
    {
        String::from_str("No completed tasks to archive")
    }
}

/// Whether a log observation leaves nothing to archive: the file is
/// absent, or present but empty.
pub open spec fn nothing_to_archive(log_len: Option<u64>) -> bool {
    log_len is None || log_len == Some(0u64)
}

/// The archive decision. `log_len` is the observed byte length of the
/// live log, `None` when the file is absent. On success the result is
/// the name of the archive file to copy the log to, after which the
/// live log is to be truncated to empty; so a repeat with no new
/// completions finds an empty log and is refused.
pub fn archive_done(log_len: Option<u64>, now: &LocalTime) -> (r: Result<String, ArchiveError>)
    ensures
        r is Err <==> nothing_to_archive(log_len),
        r matches Ok(name) ==> name@ == archive_name_text(*now),
        r matches Err(e) ==> e is NothingToArchive,
{
    match log_len {
        None => Err(ArchiveError::NothingToArchive),
        Some(l) => {
            if l == 0 {
                Err(ArchiveError::NothingToArchive)
            } else {
                Ok(archive_file_name(now))
            }
        },
    }
}

/// The archive file's name for a clock reading.
pub fn archive_file_name(now: &LocalTime) -> (r: String)
    ensures
        r@ == archive_name_text(*now),
{
    let mut out: Vec<char> = Vec::new();
    crate::chars::push_str_chars(&mut out, "done_");
    push_timestamp(&mut out, now);
    crate::chars::push_str_chars(&mut out, ".md");
    proof {
        assert(out@ =~= archive_name_text(*now));
    }
    chars_to_string(&out)
}

/// Archiving is not repeatable without new completions: a successful
/// archive truncates the log to length zero, and the decision refuses a
/// zero-length log.
pub proof fn lemma_archive_not_repeatable(first_len: u64)
    requires
        first_len > 0,
    ensures
        !nothing_to_archive(Some(first_len)),
        nothing_to_archive(Some(0u64)),
{
}

} // verus!
