use vstd::prelude::*;
use crate::config::Config;

verus! {

/// What to do with the picker's answer.
#[derive(Debug)]
pub enum Selection {
    /// Put this snippet on the clipboard.
    Copy(String),
    /// The user picked nothing: leave the clipboard alone.
    Cancelled,
    /// The picker named an entry that was not offered.
    OutOfRange,
}

/// The action for the picker's answer: `None` when the user cancelled, else
/// the position of the chosen entry among the formatted entries, which is the
/// position of its snippet in `config.mappings`.
pub fn selection_for(config: &Config, picked: Option<usize>) -> (r: Selection)
    ensures
        match picked {
            None => r is Cancelled,
            Some(i) => if i < config.mappings@.len() {
                r matches Selection::Copy(s) && s@ == config.pairs()[i as int].1
            } else {
                r is OutOfRange
            },
        },
{
    match picked {
        None => Selection::Cancelled,
        Some(i) => {
            if i < config.mappings.len() {
                Selection::Copy(config.mappings[i].1.clone())
            } else {
                Selection::OutOfRange
            }
        },
    }
}

} // verus!
