//! The result record: the one line that a sampling run leaves in the result
//! file for the reader.

use crate::reader::{reader_text, FileProbe};
use vstd::prelude::*;

verus! {

/// The file, in the working directory, that holds the result of the last run.
pub const RESULT_FILE: &'static str = "result.txt";

/// What the result line says before the mean.
pub const RESULT_PREFIX: &'static str =
    "Cache complete. The average USD price of BTC on Coinbase is: ";

/// The line that reports the mean, given the mean as text.
pub open spec fn result_text(average: Seq<char>) -> Seq<char> {
    RESULT_PREFIX@ + average
}

/// The one line of the result file, which is also shown at the end of a
/// run: the fixed words, then `average` as it stands.
pub fn result_line(average: &str) -> (line: String)
    ensures
        line@ == result_text(average@),
{
    let mut line = RESULT_PREFIX.to_owned();
    line.append(average);
    line
}

/// The mean can be read off the result line again: the line begins with the
/// fixed words, and what follows them is the mean as it was given.
pub proof fn lemma_result_text_holds_average(average: Seq<char>)
    ensures
        RESULT_PREFIX@.is_prefix_of(result_text(average)),
        result_text(average).skip(RESULT_PREFIX@.len() as int) == average,
{
    assert(result_text(average).subrange(0, RESULT_PREFIX@.len() as int) =~= RESULT_PREFIX@);
    assert(result_text(average).skip(RESULT_PREFIX@.len() as int) =~= average);
}

/// The reader of a file that holds the result line of a run shows that
/// line, as it was written, and nothing else.
pub proof fn lemma_reader_shows_result(average: Seq<char>, len: u64)
    requires
        len > 0,
    ensures
        reader_text(FileProbe::Present { len }, seq![result_text(average)]) == seq![
            result_text(average),
        ],
{
}

} // verus!
