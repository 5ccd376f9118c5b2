//! Bounded line buffers: the recognition lines shown in the UI and the
//! captured log lines. Both drop their oldest line when full.

use crate::util::bounded_push_spec;
use vstd::prelude::*;
use vstd::string::StringExecFns;

verus! {

/// A bounded queue of lines; pushing onto a full buffer drops the oldest.
pub struct RecognitionBuffer {
    lines: Vec<String>,
    capacity: usize,
}

impl RecognitionBuffer {
    pub closed spec fn view_lines(&self) -> Seq<Seq<char>> {
        Seq::new(self.lines@.len(), |i: int| self.lines@[i]@)
    }

    pub closed spec fn cap(&self) -> nat {
        self.capacity as nat
    }

    pub closed spec fn wf(&self) -> bool {
        self.lines@.len() <= self.capacity && self.capacity >= 1
    }

    pub fn new(capacity: usize) -> (r: RecognitionBuffer)
        requires
            capacity >= 1,
        ensures
            r.view_lines() == Seq::<Seq<char>>::empty(),
            r.cap() == capacity,
            r.wf(),
    {
        let r = RecognitionBuffer { lines: Vec::new(), capacity };
        proof {
            assert(r.view_lines() =~= Seq::<Seq<char>>::empty());
        }
        r
    }

    /// Append a line; when the buffer is full the oldest line makes room.
    pub fn push(&mut self, text: String)
        requires
            old(self).wf(),
        ensures
            final(self).wf(),
            final(self).cap() == old(self).cap(),
            final(self).view_lines() == bounded_push_spec(
                old(self).view_lines(),
                old(self).cap(),
                text@,
            ),
    {
        if self.lines.len() >= self.capacity {
            let _dropped = self.lines.remove(0);
        }
        self.lines.push(text);
        proof {
            assert(self.view_lines() =~= bounded_push_spec(
                old(self).view_lines(),
                old(self).cap(),
                text@,
            ));
        }
    }

    pub fn len(&self) -> (n: usize)
        ensures
            n == self.view_lines().len(),
    {
        self.lines.len()
    }

    pub fn line(&self, i: usize) -> (s: &String)
        requires
            i < self.view_lines().len(),
        ensures
            s@ == self.view_lines()[i as int],
    {
        &self.lines[i]
    }
}

/// Push one recognition line into the bounded buffer, dropping the oldest
/// line if it is full.
pub fn push_recognition(buf: &mut RecognitionBuffer, text: String)
    requires
        old(buf).wf(),
    ensures
        final(buf).wf(),
        final(buf).cap() == old(buf).cap(),
        final(buf).view_lines() == bounded_push_spec(old(buf).view_lines(), old(buf).cap(), text@),
{
    buf.push(text);
}

/// The line the log layer keeps for one event.
pub open spec fn log_line_spec(level: Seq<char>, target: Seq<char>, message: Seq<char>) -> Seq<
    char,
> {
    "["@ + level + "] "@ + target + ": "@ + message
}

/// Format one captured log event: `[LEVEL] target: message`.
pub fn format_log_line(level: &str, target: &str, message: &str) -> (s: String)
    ensures
        s@ == log_line_spec(level@, target@, message@),
{
    let mut s = String::from_str("[");
    s.append(level);
    s.append("] ");
    s.append(target);
    s.append(": ");
    s.append(message);
    proof {
        assert(s@ =~= log_line_spec(level@, target@, message@));
    }
    s
}

/// Captures formatted log events into a bounded line buffer.
pub struct TuiLogLayer {
    buffer: RecognitionBuffer,
}

impl TuiLogLayer {
    pub closed spec fn view_lines(&self) -> Seq<Seq<char>> {
        self.buffer.view_lines()
    }

    pub closed spec fn cap(&self) -> nat {
        self.buffer.cap()
    }

    pub closed spec fn wf(&self) -> bool {
        self.buffer.wf()
    }

    pub fn new(capacity: usize) -> (r: TuiLogLayer)
        requires
            capacity >= 1,
        ensures
            r.view_lines() == Seq::<Seq<char>>::empty(),
            r.cap() == capacity,
            r.wf(),
    {
        TuiLogLayer { buffer: RecognitionBuffer::new(capacity) }
    }

    /// Record one event, already formatted.
    pub fn push_line(&mut self, line: String)
        requires
            old(self).wf(),
        ensures
            final(self).wf(),
            final(self).cap() == old(self).cap(),
            final(self).view_lines() == bounded_push_spec(
                old(self).view_lines(),
                old(self).cap(),
                line@,
            ),
    {
        self.buffer.push(line);
    }

    pub fn len(&self) -> (n: usize)
        ensures
            n == self.view_lines().len(),
    {
        self.buffer.len()
    }

    pub fn line(&self, i: usize) -> (s: &String)
        requires
            i < self.view_lines().len(),
        ensures
            s@ == self.view_lines()[i as int],
    {
        self.buffer.line(i)
    }
}

} // verus!
