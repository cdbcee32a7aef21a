//! Output encodings, and whether the encoded result changes the target.

use vstd::prelude::*;
use crate::text::same_text;

verus! {

/// The encoding in which a result is written.
#[derive(Clone, Copy, Debug, PartialEq, Eq, Structural)]
pub enum OutputMode {
    /// The binary module as it is.
    Bin,
    /// The module's text format, as the engine renders it.
    Wat,
    /// The binary module as lower-case hexadecimal digits.
    Hex,
}

/// The encoding that a mode name stands for.
pub open spec fn mode_of_name(s: Seq<char>) -> Option<OutputMode> {
    if s == "bin"@ {
        Some(OutputMode::Bin)
    } else if s == "wat"@ {
        Some(OutputMode::Wat)
    } else if s == "hex"@ {
        Some(OutputMode::Hex)
    } else {
        None
    }
}

/// The ASCII code of a hexadecimal digit, lower case.
pub open spec fn hex_digit(d: u8) -> u8
    recommends
        d < 16,
{
    if d < 10 {
        (48 + d) as u8
    } else {
        (87 + d) as u8
    }
}

/// Two lower-case hexadecimal digits for each byte, high nibble first.
pub open spec fn hex_of(b: Seq<u8>) -> Seq<u8>
    decreases b.len(),
{
    if b.len() == 0 {
        Seq::empty()
    } else {
        hex_of(b.drop_last()) + seq![hex_digit(b.last() / 16), hex_digit(b.last() % 16)]
    }
}

/// The bytes that a mode writes for a module and its text rendering.
pub open spec fn encoded(mode: OutputMode, binary: Seq<u8>, text: Seq<u8>) -> Seq<u8> {
    match mode {
        OutputMode::Bin => binary,
        OutputMode::Wat => text,
        OutputMode::Hex => hex_of(binary),
    }
}

/// Whether persisting writes the target or leaves it alone.
#[derive(Clone, Copy, Debug, PartialEq, Eq, Structural)]
pub enum WriteAction {
    /// The target already holds these bytes: nothing is written.
    Unchanged,
    /// The target is written with the new bytes.
    Write,
}

/// The action for new bytes against what the target holds, if it exists.
pub open spec fn write_action(bytes: Seq<u8>, prior: Option<Seq<u8>>) -> WriteAction {
    if prior == Some(bytes) {
        WriteAction::Unchanged
    } else {
        WriteAction::Write
    }
}

/// The contents of a target that may not exist.
pub open spec fn bytes_of(prior: Option<&Vec<u8>>) -> Option<Seq<u8>> {
    match prior {
        Some(p) => Some(p@),
        None => None,
    }
}

/// What the target holds after the action.
pub open spec fn target_after(prior: Option<Seq<u8>>, action: WriteAction, bytes: Seq<u8>) -> Option<
    Seq<u8>,
> {
    match action {
        WriteAction::Unchanged => prior,
        WriteAction::Write => Some(bytes),
    }
}

/// Persisting bytes equal to what the target holds reports no change and
/// leaves the target as it was; in every case the target ends up holding
/// the new bytes.
pub proof fn lemma_unchanged_target_is_kept(bytes: Seq<u8>, prior: Seq<u8>)
    requires
        prior == bytes,
    ensures
        write_action(bytes, Some(prior)) == WriteAction::Unchanged,
        target_after(Some(prior), write_action(bytes, Some(prior)), bytes) == Some(prior),
{
}

/// After the action, the target holds the new bytes, whatever it held.
pub proof fn lemma_target_holds_bytes(bytes: Seq<u8>, prior: Option<Seq<u8>>)
    ensures
        target_after(prior, write_action(bytes, prior), bytes) == Some(bytes),
{
}

impl OutputMode {
    /// The encoding named `bin`, `wat` or `hex`.
    pub fn from_name(s: &str) -> (r: Option<OutputMode>)
        ensures
            r == mode_of_name(s@),
    {
        if same_text(s, "bin") {
            Some(OutputMode::Bin)
        } else if same_text(s, "wat") {
            Some(OutputMode::Wat)
        } else if same_text(s, "hex") {
            Some(OutputMode::Hex)
        } else {
            None
        }
    }
}

fn hex_digit_exec(d: u8) -> (r: u8)
    requires
        d < 16,
    ensures
        r == hex_digit(d),
{
    if d < 10 {
        48 + d
    } else {
        87 + d
    }
}

/// The bytes as lower-case hexadecimal digits.
pub fn hex_encode(b: &Vec<u8>) -> (r: Vec<u8>)
    ensures
        r@ == hex_of(b@),
{
    let n = b.len();
    let mut out: Vec<u8> = Vec::new();
    let mut i: usize = 0;
    assert(b@.take(0) =~= Seq::<u8>::empty());
    while i < n
        invariant
            n == b@.len(),
            i <= n,
            out@ == hex_of(b@.take(i as int)),
        decreases n - i,
    {
        assert(b@.take(i + 1).drop_last() =~= b@.take(i as int));
        let x = b[i];
        out.push(hex_digit_exec(x / 16));
        out.push(hex_digit_exec(x % 16));
        assert(out@ =~= hex_of(b@.take(i + 1)));
        i = i + 1;
    }
    assert(b@.take(n as int) =~= b@);
    out
}

fn copy_bytes(b: &Vec<u8>) -> (r: Vec<u8>)
    ensures
        r@ == b@,
{
    let n = b.len();
    let mut out: Vec<u8> = Vec::new();
    let mut i: usize = 0;
    while i < n
        invariant
            n == b@.len(),
            i <= n,
            out@ == b@.take(i as int),
        decreases n - i,
    {
        out.push(b[i]);
        assert(out@ =~= b@.take(i + 1));
        i = i + 1;
    }
    assert(b@.take(n as int) =~= b@);
    out
}

/// Encodes a module in the requested mode: its binary form, the text
/// rendering the engine produced, or the binary form in hexadecimal.
pub fn encode_output(mode: OutputMode, binary: &Vec<u8>, text: &Vec<u8>) -> (r: Vec<u8>)
    ensures
        r@ == encoded(mode, binary@, text@),
{
    match mode {
        OutputMode::Bin => copy_bytes(binary),
        OutputMode::Wat => copy_bytes(text),
        OutputMode::Hex => hex_encode(binary),
    }
}

/// Decides whether persisting `bytes` writes the target: not when the
/// target exists and already holds exactly these bytes.
pub fn plan_write(bytes: &Vec<u8>, prior: Option<&Vec<u8>>) -> (r: WriteAction)
    ensures
        r == write_action(bytes@, bytes_of(prior)),
{
    match prior {
        None => WriteAction::Write,
        Some(p) => {
            let n = bytes.len();
            if p.len() != n {
                return WriteAction::Write;
            }
            let mut i: usize = 0;
            while i < n
                invariant
                    prior == Some(p),
                    n == bytes@.len(),
                    n == p@.len(),
                    i <= n,
                    forall|j: int| 0 <= j < i ==> bytes@[j] == p@[j],
                decreases n - i,
            {
                if bytes[i] != p[i] {
                    assert(p@[i as int] != bytes@[i as int]);
                    return WriteAction::Write;
                }
                i = i + 1;
            }
            assert(p@ =~= bytes@);
            WriteAction::Unchanged
        },
    }
}

} // verus!
