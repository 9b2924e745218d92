//! Support types for the code emitters that sit downstream of this crate:
//! a text buffer that accumulates an output file line by line, and the
//! configuration knobs the emitters honour.

use vstd::prelude::*;
use vstd::string::StringExecFns;

verus! {

/// Options the downstream emitters honour.  This crate carries them
/// through; it does not act on them.
#[derive(Debug)]
pub struct Configurations {
    /// Whether to pack data structures, removing padding
    pub pack: bool,
    /// The section to place emitted data in, when one is wanted
    pub section: Option<String>,
    /// Whether to sort members to optimize packing
    pub sort: bool,
}

impl Clone for Configurations {
    fn clone(&self) -> (r: Self)
        ensures
            r.pack == self.pack,
            crate::defines::view_comment(r.section) == crate::defines::view_comment(self.section),
            r.sort == self.sort,
    {
        Configurations {
            pack: self.pack,
            section: crate::defines::clone_comment(&self.section),
            sort: self.sort,
        }
    }
}

/// An output file accumulating text, to be written to disk by the caller
/// once emission is done.
#[derive(Debug)]
pub struct OutputFile {
    /// The path the caller will write the buffer to
    pub file_name: String,
    /// The text accumulated so far
    pub string_buffer: String,
}

impl OutputFile {
    /// An empty buffer destined for the named file.
    pub fn new(file_name: String) -> (r: OutputFile)
        ensures
            r.file_name@ == file_name@,
            r.string_buffer@ == Seq::<char>::empty(),
    {
        let string_buffer = String::new();
        OutputFile { file_name, string_buffer }
    }

    /// Appends one line of text, newline included.
    pub fn add_line(&mut self, string: String)
        ensures
            final(self).file_name@ == old(self).file_name@,
            final(self).string_buffer@ == old(self).string_buffer@ + string@ + "\n"@,
    {
        self.string_buffer.append(string.as_str());
        self.string_buffer.append("\n");
    }

    /// Appends an empty line.
    pub fn add_newline(&mut self)
        ensures
            final(self).file_name@ == old(self).file_name@,
            final(self).string_buffer@ == old(self).string_buffer@ + "\n"@,
    {
        self.string_buffer.append("\n");
    }
}

} // verus!
