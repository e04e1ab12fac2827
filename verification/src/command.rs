//! The specification of one subprocess invocation: a program and its ordered
//! argument vector.
//!
//! Operating-system strings are carried as their platform-native encoded
//! bytes, so an argument need not be valid text; the surrounding binary
//! converts between this form and the operating system's own. Generated
//! arguments, which are always valid text, enter through their UTF-8 bytes.

use vstd::prelude::*;
use vstd::string::StrSliceExecFns;
use vstd::utf8::encode_utf8;

verus! {

/// An executable command: a program path and the arguments handed to it, in
/// order, each as its native byte encoding.
#[derive(Clone, Debug)]
pub struct Command {
    pub program: Vec<u8>,
    pub args: Vec<Vec<u8>>,
}

impl Command {
    /// A command for `program` with no arguments yet.
    pub fn new(program: Vec<u8>) -> (r: Command)
        ensures
            r.program@ == program@,
            r.args@.len() == 0,
    {
        Command { program, args: Vec::new() }
    }

    /// Appends `extra` to the argument vector, keeping the order.
    pub fn with_args(self, extra: Vec<Vec<u8>>) -> (r: Command)
        ensures
            r.program@ == self.program@,
            r.args@ == self.args@ + extra@,
    {
        let mut c = self;
        let mut extra = extra;
        let ghost orig = c.args@;
        let ghost added = extra@;
        c.args.append(&mut extra);
        proof {
            assert(c.args@ == orig + added);
        }
        c
    }

    /// Appends the generated argument strings, each as its UTF-8 bytes.
    pub fn with_string_args(self, extra: &Vec<String>) -> (r: Command)
        ensures
            r.program@ == self.program@,
            r.args@.len() == self.args@.len() + extra@.len(),
            forall|i: int| 0 <= i < self.args@.len() ==> r.args@[i] == self.args@[i],
            forall|i: int|
                0 <= i < extra@.len() ==> #[trigger] r.args@[self.args@.len() + i]@ == encode_utf8(
                    extra@[i]@,
                ),
    {
        let mut c = self;
        let ghost orig = c.args@;
        let mut i: usize = 0;
        while i < extra.len()
            invariant
                i <= extra@.len(),
                c.program@ == self.program@,
                c.args@.len() == orig.len() + i,
                orig == self.args@,
                forall|k: int| 0 <= k < orig.len() ==> c.args@[k] == orig[k],
                forall|k: int|
                    0 <= k < i ==> #[trigger] c.args@[orig.len() + k]@ == encode_utf8(extra@[k]@),
            decreases extra@.len() - i,
        {
            let b = extra[i].as_str().as_bytes_vec();
            c.args.push(b);
            i = i + 1;
        }
        c
    }
}

} // verus!
