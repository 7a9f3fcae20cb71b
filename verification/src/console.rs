//! The editor console: a log of recent lines that keeps at most
//! [`CONSOLE_CAPACITY`] of them, dropping the oldest first.

use vstd::prelude::*;

verus! {

/// How many lines the console keeps.
pub const CONSOLE_CAPACITY: usize = 200;

/// One console line: its level tag, its text and its colour as RGB.
#[derive(Debug, Clone)]
pub struct ConsoleLine {
    pub level: &'static str,
    pub message: String,
    pub color: [u8; 3],
}

/// The last [`CONSOLE_CAPACITY`] lines of `lines`, in order (all of them
/// when there are no more than that).
pub open spec fn most_recent<T>(lines: Seq<T>) -> Seq<T> {
    if lines.len() > CONSOLE_CAPACITY {
        lines.skip(lines.len() - CONSOLE_CAPACITY)
    } else {
        lines
    }
}

/// The console's lines, oldest first.
pub struct Console {
    lines: Vec<ConsoleLine>,
}

impl Console {
    pub closed spec fn spec_lines(&self) -> Seq<ConsoleLine> {
        self.lines@
    }

    /// An empty console.
    pub fn new() -> (c: Self)
        ensures
            c.spec_lines() == Seq::<ConsoleLine>::empty(),
    {
        Console { lines: Vec::new() }
    }

    /// The lines, oldest first.
    pub fn lines(&self) -> (r: &[ConsoleLine])
        ensures
            r@ == self.spec_lines(),
    {
        self.lines.as_slice()
    }

    /// Append a line, then drop the oldest lines beyond the capacity.
    pub fn log(&mut self, level: &'static str, message: &str, color: [u8; 3])
        ensures
            ({
                let line = final(self).spec_lines().last();
                &&& line.level == level
                &&& line.message@ == message@
                &&& line.color == color
                &&& final(self).spec_lines() == most_recent(old(self).spec_lines().push(line))
            }),
            final(self).spec_lines().len() <= CONSOLE_CAPACITY,
    {
        let line = ConsoleLine { level, message: String::from_str(message), color };
        self.lines.push(line);
        let ghost all = self.lines@;
        let ghost mut k: int = 0;
        while self.lines.len() > CONSOLE_CAPACITY
            invariant
                all.len() >= 1,
                0 <= k,
                k <= all.len() - 1,
                self.lines@ == all.skip(k),
                all.len() > CONSOLE_CAPACITY ==> k <= all.len() - CONSOLE_CAPACITY,
                all.len() <= CONSOLE_CAPACITY ==> k == 0,
            decreases self.lines.len(),
        {
            self.lines.remove(0);
            proof {
                k = k + 1;
                assert(self.lines@ =~= all.skip(k));
            }
        }
        proof {
            if all.len() > CONSOLE_CAPACITY {
                assert(k == all.len() - CONSOLE_CAPACITY);
            }
            assert(self.lines@ =~= most_recent(all));
        }
    }
}

impl Default for Console {
    fn default() -> (c: Self)
        ensures
            c.spec_lines() == Seq::<ConsoleLine>::empty(),
    {
        Console::new()
    }
}

} // verus!
