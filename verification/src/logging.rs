//! Log formatting: turning escaped control sequences (`\x1b` and a few
//! others, as text) back into the control characters they stand for.
use vstd::prelude::*;
use vstd::string::StringSliceAdditionalSpecFns;
use crate::text::{chars_of, contains_exec, contains_sub, push_char};

verus! {

/// The control character an escape code `\xHH` stands for, where the code
/// is one the log restores.
pub open spec fn escape_code(hi: u8, lo: u8) -> Option<char> {
    if hi == 0x31 && (lo == 0x62 || lo == 0x42) {
        Some('\x1b')
    } else if hi == 0x30 && lo == 0x37 {
        Some('\x07')
    } else if hi == 0x30 && lo == 0x38 {
        Some('\x08')
    } else if hi == 0x30 && (lo == 0x63 || lo == 0x43) {
        Some('\x0c')
    } else if hi == 0x37 && (lo == 0x66 || lo == 0x46) {
        Some('\x7f')
    } else {
        None
    }
}

/// `\x` followed by a known code starts at byte `i`.
pub open spec fn escape_at(b: Seq<u8>, i: int) -> Option<char> {
    if 0 <= i && i + 4 <= b.len() && b[i] == 0x5c && b[i + 1] == 0x78 {
        escape_code(b[i + 2], b[i + 3])
    } else {
        None
    }
}

/// The restored text of the bytes from `i` on: each known escape becomes its
/// control character, every other byte the character of the same number.
pub open spec fn restore_from(b: Seq<u8>, i: int) -> Seq<char>
    decreases b.len() - i,
{
    if i < 0 || i >= b.len() {
        seq![]
    } else {
        match escape_at(b, i) {
            Some(c) => seq![c] + restore_from(b, i + 4),
            None => seq![b[i] as char] + restore_from(b, i + 1),
        }
    }
}

fn escape_at_exec(b: &[u8], i: usize) -> (r: Option<char>)
    requires
        i < b@.len(),
    ensures
        r == escape_at(b@, i as int),
{
    if b.len() - i < 4 || b[i] != 0x5c || b[i + 1] != 0x78 {
        return None;
    }
    let hi = b[i + 2];
    let lo = b[i + 3];
    if hi == 0x31 && (lo == 0x62 || lo == 0x42) {
        Some('\x1b')
    } else if hi == 0x30 && lo == 0x37 {
        Some('\x07')
    } else if hi == 0x30 && lo == 0x38 {
        Some('\x08')
    } else if hi == 0x30 && (lo == 0x63 || lo == 0x43) {
        Some('\x0c')
    } else if hi == 0x37 && (lo == 0x66 || lo == 0x46) {
        Some('\x7f')
    } else {
        None
    }
}

/// When `input` holds `\x`, writes its restored text into `scratch` and
/// answers `true`; otherwise answers `false` and leaves `scratch` alone.
pub fn restore_ansi_sequences(input: &str, scratch: &mut String) -> (r: bool)
    ensures
        r == contains_sub(input@, "\\x"@),
        r ==> final(scratch)@ == restore_from(input.spec_bytes(), 0),
        !r ==> final(scratch)@ == old(scratch)@,
{
    if !contains_exec(&chars_of(input), &chars_of("\\x")) {
        return false;
    }
    *scratch = String::new();
    let bytes = input.as_bytes();
    let ghost b = bytes@;
    let mut i: usize = 0;
    while i < bytes.len()
        invariant
            b == bytes@,
            b == input.spec_bytes(),
            i <= b.len(),
            scratch@ + restore_from(b, i as int) == restore_from(b, 0),
        decreases b.len() - i,
    {
        let ghost before = scratch@;
        match escape_at_exec(bytes, i) {
            Some(c) => {
                push_char(scratch, c);
                assert(before + restore_from(b, i as int) == (before.push(c)) + restore_from(
                    b,
                    i + 4,
                )) by {
                    assert(seq![c] + restore_from(b, i + 4) == restore_from(b, i as int));
                    assert(before + (seq![c] + restore_from(b, i + 4)) =~= before.push(c)
                        + restore_from(b, i + 4));
                }
                i = i + 4;
            },
            None => {
                let c = bytes[i] as char;
                push_char(scratch, c);
                assert(before + restore_from(b, i as int) == (before.push(c)) + restore_from(
                    b,
                    i + 1,
                )) by {
                    assert(seq![c] + restore_from(b, i + 1) == restore_from(b, i as int));
                    assert(before + (seq![c] + restore_from(b, i + 1)) =~= before.push(c)
                        + restore_from(b, i + 1));
                }
                i = i + 1;
            },
        }
    }
    assert(restore_from(b, i as int) == Seq::<char>::empty());
    assert(scratch@ + Seq::<char>::empty() =~= scratch@);
    true
}

/// A log event formatter that hands the events to `inner` and restores
/// escaped control sequences in what it writes.
pub struct AnsiPreservingFormatter<F> {
    inner: F,
}

impl<F> AnsiPreservingFormatter<F> {
    pub closed spec fn inner_spec(&self) -> F {
        self.inner
    }

    pub fn new(inner: F) -> (r: Self)
        ensures
            r.inner_spec() == inner,
    {
        Self { inner }
    }

    /// The formatter events are handed to.
    pub fn inner(&self) -> (r: &F)
        ensures
            *r == self.inner_spec(),
    {
        &self.inner
    }
}

} // verus!
