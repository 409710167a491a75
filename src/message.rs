//! What every kind of message offers: reading and writing wire bytes, and
//! reading and writing a line of assembly text.

use vstd::prelude::*;

verus! {

/// A message with a binary and a textual form.
pub trait UCGMessage: Sized {
    /// The message can be written as assembly text.
    spec fn printable(&self) -> bool;

    /// Reads a message from wire bytes; `b` keeps what is not the message.
    fn from_byte_vec(b: &mut Vec<u8>) -> Option<Self>;

    /// Reads a message from a line of assembly text. `floats` holds, for
    /// each word of the line that is a float literal, its bytes as the
    /// caller read them, or nothing where it does not read as a float.
    fn parse_asm_line(line: &String, print_comments: bool, floats: &Vec<Option<Vec<u8>>>) -> Result<
        Self,
        String,
    >;

    /// The wire bytes of the message.
    fn into_byte_vec(self) -> Vec<u8>;

    /// The message as a line of assembly text.
    fn into_asm(&self, print_decimal_data: bool) -> String
        requires
            self.printable(),
    ;
}

} // verus!
