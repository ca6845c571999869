//! The reader of the result file: what it shows for a file that is missing,
//! empty, or holds lines.
//!
//! The reader does not look into the lines. It shows them as they are.

use vstd::prelude::*;

verus! {

/// Shown where there is no result file.
pub const MISSING_NOTICE: &'static str =
    "The result.txt file does not exist. Run in cache mode first.";

/// Shown where the result file holds nothing.
pub const EMPTY_NOTICE: &'static str = "The result.txt file is empty. Run in cache mode first.";

/// What a look at the result file found, before it is opened.
#[derive(Clone, Copy, Debug, PartialEq, Eq, Structural)]
pub enum FileProbe {
    /// There is no such file, or it cannot be examined.
    Missing,
    /// The file is there and holds `len` bytes.
    Present { len: u64 },
}

impl FileProbe {
    /// The file is there and holds at least one byte.
    pub open spec fn has_contents(self) -> bool {
        self matches FileProbe::Present { len } && len > 0
    }

    /// Whether the file is to be opened and read: only where it is there and
    /// is not empty.
    pub fn wants_contents(&self) -> (wanted: bool)
        ensures
            wanted == self.has_contents(),
    {
        match self {
            FileProbe::Missing => false,
            FileProbe::Present { len } => *len > 0,
        }
    }
}

/// What the reader shows: one notice for a missing file, another for an
/// empty one, else the lines of the file and nothing more.
pub open spec fn reader_text(probe: FileProbe, lines: Seq<Seq<char>>) -> Seq<Seq<char>> {
    match probe {
        FileProbe::Missing => seq![MISSING_NOTICE@],
        FileProbe::Present { len } => if len == 0 {
            seq![EMPTY_NOTICE@]
        } else {
            lines
        },
    }
}

/// The lines that the reader shows, in order. `lines` are the lines of the
/// file where it [wants its contents](FileProbe::wants_contents); they are
/// handed back unchanged. For a missing or an empty file `lines` is not
/// looked at, and the one line shown is the notice.
pub fn reader_output(probe: FileProbe, lines: Vec<String>) -> (shown: Vec<String>)
    ensures
        shown.deep_view() == reader_text(probe, lines.deep_view()),
        probe.has_contents() ==> shown == lines,
{
    match probe {
        FileProbe::Missing => {
            let mut shown: Vec<String> = Vec::new();
            shown.push(MISSING_NOTICE.to_owned());
            assert(shown.deep_view() =~= reader_text(probe, lines.deep_view()));
            shown
        },
        FileProbe::Present { len } => {
            if len == 0 {
                let mut shown: Vec<String> = Vec::new();
                shown.push(EMPTY_NOTICE.to_owned());
                assert(shown.deep_view() =~= reader_text(probe, lines.deep_view()));
                shown
            } else {
                lines
            }
        },
    }
}

} // verus!
