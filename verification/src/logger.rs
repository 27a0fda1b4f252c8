//! Buffering, line format and rotation rules of the application log. The
//! file itself is written elsewhere; this module decides what is written
//! and when.
use crate::names::string_views;
use vstd::prelude::*;
use vstd::string::StringExecFns;

verus! {

/// Number of buffered entries that triggers an automatic flush.
pub const FLUSH_THRESHOLD: usize = 50;

/// Log file size (20 MiB) above which the file is rotated.
pub const MAX_LOG_FILE_SIZE: u64 = 20 * 1024 * 1024;

/// Log lines waiting to be written.
pub struct LogBuffer {
    lines: Vec<String>,
}

impl LogBuffer {
    /// The buffered lines, oldest first.
    pub closed spec fn lines(&self) -> Seq<Seq<char>> {
        string_views(self.lines@)
    }

    /// An empty buffer.
    pub fn new() -> (b: Self)
        ensures
            b.lines() == Seq::<Seq<char>>::empty(),
    {
        let b = LogBuffer { lines: Vec::new() };
        assert(b.lines() =~= Seq::<Seq<char>>::empty());
        b
    }

    /// Number of buffered lines.
    pub fn len(&self) -> (n: usize)
        ensures
            n == self.lines().len(),
    {
        self.lines.len()
    }

    /// Buffer `line`. An error line, or a line that brings the buffer to
    /// `FLUSH_THRESHOLD`, hands back every buffered line, oldest first, to
    /// be written now, and empties the buffer.
    pub fn push(&mut self, line: String, is_error: bool) -> (flushed: Option<Vec<String>>)
        ensures
            ({
                let all = old(self).lines().push(line@);
                if is_error || all.len() >= FLUSH_THRESHOLD {
                    &&& flushed matches Some(v) && string_views(v@) == all
                    &&& final(self).lines() == Seq::<Seq<char>>::empty()
                } else {
                    &&& flushed is None
                    &&& final(self).lines() == all
                }
            }),
            final(self).lines().len() < FLUSH_THRESHOLD,
    {
        let ghost before = self.lines@;
        self.lines.push(line);
        assert(string_views(self.lines@) =~= string_views(before).push(line@));
        if is_error || self.lines.len() >= FLUSH_THRESHOLD {
            Some(self.drain())
        } else {
            None
        }
    }

    /// Hand back every buffered line, oldest first, and empty the buffer.
    pub fn drain(&mut self) -> (v: Vec<String>)
        ensures
            string_views(v@) == old(self).lines(),
            final(self).lines() == Seq::<Seq<char>>::empty(),
    {
        let mut out: Vec<String> = Vec::new();
        std::mem::swap(&mut out, &mut self.lines);
        assert(self.lines() =~= Seq::<Seq<char>>::empty());
        out
    }
}

/// The text of a log line.
pub open spec fn log_line(
    timestamp: Seq<char>,
    level: Seq<char>,
    module: Option<Seq<char>>,
    message: Seq<char>,
) -> Seq<char> {
    let m = match module {
        Some(m) => m,
        None => "unknown"@,
    };
    "["@ + timestamp + "] ["@ + level + "] ["@ + m + "] "@ + message
}

/// `[timestamp] [LEVEL] [module] message`, with `unknown` for a missing
/// module path.
pub fn format_log_line(timestamp: &str, level: &str, module: Option<&str>, message: &str) -> (s:
    String)
    ensures
        s@ == log_line(
            timestamp@,
            level@,
            match module {
                Some(m) => Some(m@),
                None => None,
            },
            message@,
        ),
{
    let mut s = String::from_str("[");
    s.append(timestamp);
    s.append("] [");
    s.append(level);
    s.append("] [");
    match module {
        Some(m) => s.append(m),
        None => s.append("unknown"),
    }
    s.append("] ");
    s.append(message);
    s
}

/// Whether a log file of `file_len` bytes must be rotated.
pub fn needs_rotation(file_len: u64, max_size: u64) -> (r: bool)
    ensures
        r == (file_len > max_size),
{
    file_len > max_size
}

/// Number of leading lines that rotation drops: a quarter, rounded down.
pub fn rotation_drop_count(line_count: usize) -> (n: usize)
    ensures
        n == line_count / 4,
{
    line_count / 4
}

/// The lines kept by rotation: all but the first quarter (rounded down).
pub fn lines_after_rotation(lines: &Vec<String>) -> (kept: Vec<String>)
    ensures
        string_views(kept@) == string_views(lines@).skip((lines@.len() / 4) as int),
{
    let n = lines.len();
    let start = rotation_drop_count(n);
    let mut kept: Vec<String> = Vec::new();
    let mut i: usize = start;
    while i < n
        invariant
            n == lines@.len(),
            start == n / 4,
            start <= i <= n,
            kept@.len() == i - start,
            forall|j: int| 0 <= j < kept@.len() ==> kept@[j]@ == lines@[start + j]@,
        decreases n - i,
    {
        kept.push(lines[i].clone());
        i = i + 1;
    }
    assert(string_views(kept@) =~= string_views(lines@).skip(start as int));
    kept
}

} // verus!
