//! The FTP command log: a bounded list of lines, hidden by default.

use vstd::prelude::*;

verus! {

/// Most lines the log keeps; older lines are dropped first.
pub const MAX_LINES: usize = 500;

/// The lines kept after appending `line` to `lines`: the newest
/// `MAX_LINES` of them.
pub open spec fn pushed_lines(lines: Seq<String>, line: String) -> Seq<String> {
    let s = lines.push(line);
    if s.len() > MAX_LINES {
        s.skip(s.len() - MAX_LINES)
    } else {
        s
    }
}

/// The FTP command log.
#[derive(Debug, Clone)]
pub struct FtpLog {
    pub visible: bool,
    lines: Vec<String>,
}

impl Default for FtpLog {
    fn default() -> (r: Self)
        ensures
            !r.shown(),
            r.line_seq().len() == 0,
    {
        FtpLog { visible: false, lines: Vec::new() }
    }
}

impl FtpLog {
    /// Whether the log panel is shown.
    pub closed spec fn shown(self) -> bool {
        self.visible
    }

    /// The lines held, oldest first.
    pub closed spec fn line_seq(self) -> Seq<String> {
        self.lines@
    }

    /// Whether the log panel is shown.
    pub fn is_visible(&self) -> (r: bool)
        ensures
            r == self.shown(),
    {
        self.visible
    }

    /// The lines held, oldest first.
    pub fn lines(&self) -> (r: &[String])
        ensures
            r@ == self.line_seq(),
    {
        self.lines.as_slice()
    }

    /// Shows a hidden log, hides a shown one.
    pub fn toggle_visible(&mut self)
        ensures
            final(self).shown() == !old(self).shown(),
            final(self).line_seq() == old(self).line_seq(),
    {
        self.visible = !self.visible;
    }

    /// Appends a line, dropping the oldest ones beyond `MAX_LINES`.
    pub fn push(&mut self, line: String)
        ensures
            final(self).line_seq() == pushed_lines(old(self).line_seq(), line),
            final(self).line_seq().len() <= MAX_LINES,
            final(self).line_seq().last() == line,
            final(self).shown() == old(self).shown(),
    {
        let ghost s = self.lines@.push(line);
        let ghost vis = self.visible;
        self.lines.push(line);
        let ghost mut dropped: int = 0;
        while self.lines.len() > MAX_LINES
            invariant
                self.lines@ == s.skip(dropped),
                0 <= dropped <= s.len(),
                dropped > 0 ==> s.len() - dropped >= MAX_LINES,
                self.visible == vis,
            decreases self.lines@.len(),
        {
            self.lines.remove(0);
            proof {
                dropped = dropped + 1;
            }
            assert(self.lines@ =~= s.skip(dropped));
        }
        assert(s.len() > MAX_LINES ==> dropped == s.len() - MAX_LINES);
        assert(s.len() <= MAX_LINES ==> dropped == 0);
        assert(s.skip(0) =~= s);
    }

    /// Removes every line.
    pub fn clear(&mut self)
        ensures
            final(self).line_seq().len() == 0,
            final(self).shown() == old(self).shown(),
    {
        self.lines.clear();
    }
}

} // verus!
