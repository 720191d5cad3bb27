use vstd::prelude::*;
use std::collections::HashMap;

verus! {

broadcast use vstd::std_specs::hash::group_hash_axioms;

/// A table of messages, one for each line of the overlay that has one.
/// Lines are counted upwards from the bottom of the screen.
pub struct DebugLogger {
    pub lines: HashMap<i32, String>,
}

/// What `message` looks like when it is written with `core::fmt::Debug`.
#[verifier::external_body]
fn debug_text<D: core::fmt::Debug>(message: &D) -> String {
    format!("{:?}", message)
}

impl DebugLogger {
    /// A table without messages.
    pub fn new() -> (logger: DebugLogger)
        ensures
            logger.lines@ == Map::<i32, String>::empty(),
    {
        DebugLogger { lines: HashMap::new() }
    }

    /// Sets the message of `line`, in place of the one it had.
    pub fn set_line(&mut self, line: i32, message: String)
        ensures
            final(self).lines@ == old(self).lines@.insert(line, message),
    {
        self.lines.insert(line, message);
    }

    /// Whether every line of the table has a row on a screen of `height`
    /// rows that a 32-bit number can hold.
    pub open spec fn fits(&self, height: u16) -> bool {
        forall|line: i32| #[trigger] self.lines@.contains_key(line) ==> height - line <= i32::MAX
    }
}

/// Sets the message of `line` to `message` as `core::fmt::Debug` writes it.
pub fn log<D: core::fmt::Debug>(logger: &mut DebugLogger, line: i32, message: D)
    ensures
        exists|text: String| final(logger).lines@ == old(logger).lines@.insert(line, text),
{
    let text = debug_text(&message);
    logger.set_line(line, text);
}

/// Sets the message of `line` to `message` as `core::fmt::Display` writes
/// it.
pub fn log_disp<D: core::fmt::Display>(logger: &mut DebugLogger, line: i32, message: D)
    ensures
        exists|text: String|
            vstd::string::to_string_from_display_ensures::<D>(&message, text)
                && final(logger).lines@ == old(logger).lines@.insert(line, text),
{
    let text = message.to_string();
    logger.set_line(line, text);
}

/// Whether `rows` holds the messages of `lines` for a screen of `height`
/// rows: one row for each line that has a message, in no set order, each
/// made of the screen row of the line (`height` less the line) and the
/// message.
pub open spec fn are_rows_of(rows: Seq<(i32, String)>, lines: Map<i32, String>, height: u16) -> bool {
    &&& rows.len() == lines.dom().len()
    &&& forall|i: int|
        0 <= i < rows.len() ==> lines.contains_key((height - (#[trigger] rows[i]).0) as i32)
            && lines[(height - rows[i].0) as i32] == rows[i].1
    &&& forall|i: int, j: int|
        0 <= i < j < rows.len() ==> (#[trigger] rows[i]).0 != (#[trigger] rows[j]).0
}

/// The messages of `logger` for a screen of `height` rows.
pub fn get_logs(logger: &DebugLogger, height: u16) -> (rows: Vec<(i32, String)>)
    requires
        logger.fits(height),
    ensures
        are_rows_of(rows@, logger.lines@, height),
{
    let mut rows: Vec<(i32, String)> = Vec::new();
    let top: i32 = height as i32;
    for entry in iter: logger.lines.iter()
        invariant
            top == height,
            logger.fits(height),
            iter.seq().len() == logger.lines@.dom().len(),
            iter.seq().no_duplicates(),
            forall|i: int|
                0 <= i < iter.seq().len() ==> logger.lines@.contains_key(*(#[trigger] iter.seq()[i]).0)
                    && logger.lines@[*iter.seq()[i].0] == *iter.seq()[i].1,
            rows@.len() == iter.index(),
            forall|i: int|
                0 <= i < rows@.len() ==> (#[trigger] rows@[i]).0 == height - *iter.seq()[i].0
                    && rows@[i].1 == *iter.seq()[i].1,
    {
        let (line, message) = entry;
        rows.push((top - *line, message.clone()));
    }
    rows
}

} // verus!
