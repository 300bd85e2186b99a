//! The text a worker emits when it cannot continue, before halting.

use vstd::prelude::*;
use vstd::string::StringExecFns;
use crate::text::{dec_u64, spec_dec_u64};

verus! {

/// Composes the report of a worker panic: the message and the source
/// location it arose at. The runner prints the text and halts the
/// processor.
pub fn panic_handler(message: &str, file: &str, line: u32, column: u32) -> (r: String)
    ensures
        r@ == "panicked at '"@ + message@ + "', "@ + file@ + ":"@ + spec_dec_u64(line as int)
            + ":"@ + spec_dec_u64(column as int),
{
    let mut text = String::from_str("panicked at '");
    text.append(message);
    text.append("', ");
    text.append(file);
    text.append(":");
    let line_text = dec_u64(line as u64);
    text.append(line_text.as_str());
    text.append(":");
    let column_text = dec_u64(column as u64);
    text.append(column_text.as_str());
    text
}

} // verus!
