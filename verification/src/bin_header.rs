//! A precompiled program is marked by a magic prefix, so that a runner can tell it from program
//! text before decoding it.
use vstd::prelude::*;

verus! {

/// The magic prefix `ELSIE` that starts every precompiled program.
pub open spec fn magic() -> Seq<u8> {
    seq![0x45u8, 0x4cu8, 0x53u8, 0x49u8, 0x45u8]
}

/// The number of bytes in the magic prefix.
pub const MAGIC_LEN: usize = 5;

/// What kind of program a byte buffer holds.
#[derive(PartialEq, Eq, Structural, Clone, Copy, Debug)]
pub enum FileType {
    Text,
    Binary,
}

/// The kind of program that `ir` holds: binary exactly when it starts with the magic prefix.
pub open spec fn spec_detect_ir(ir: Seq<u8>) -> FileType {
    if ir.len() >= 5 && ir.take(5) == magic() {
        FileType::Binary
    } else {
        FileType::Text
    }
}

/// The magic prefix, byte by byte.
fn magic_byte(i: usize) -> (b: u8)
    requires
        i < 5,
    ensures
        b == magic()[i as int],
{
    if i == 0 {
        0x45
    } else if i == 1 {
        0x4c
    } else if i == 2 {
        0x53
    } else if i == 3 {
        0x49
    } else {
        0x45
    }
}

/// Frame encoded IR as a precompiled program: the magic prefix, then the IR.
pub fn binary_ir(ir: &[u8]) -> (out: Vec<u8>)
    requires
        ir@.len() + MAGIC_LEN <= usize::MAX,
    ensures
        out@ == magic() + ir@,
{
    let mut out: Vec<u8> = Vec::with_capacity(MAGIC_LEN + ir.len());
    let mut i: usize = 0;
    while i < MAGIC_LEN
        invariant
            i <= MAGIC_LEN,
            out@ == magic().take(i as int),
        decreases MAGIC_LEN - i,
    {
        out.push(magic_byte(i));
        assert(magic().take(i + 1) == magic().take(i as int).push(magic()[i as int]));
        i = i + 1;
    }
    assert(magic().take(5) == magic());
    let mut j: usize = 0;
    while j < ir.len()
        invariant
            j <= ir@.len(),
            out@ == magic() + ir@.take(j as int),
        decreases ir@.len() - j,
    {
        out.push(ir[j]);
        assert(ir@.take(j + 1) == ir@.take(j as int).push(ir@[j as int]));
        j = j + 1;
    }
    assert(ir@.take(ir@.len() as int) == ir@);
    out
}

/// Tell a precompiled program from program text by its first five bytes.
///
/// The buffer must hold at least five bytes.
pub fn detect_ir(ir: &[u8]) -> (ft: FileType)
    requires
        ir@.len() >= MAGIC_LEN,
    ensures
        ft == spec_detect_ir(ir@),
{
    let mut i: usize = 0;
    while i < MAGIC_LEN
        invariant
            i <= MAGIC_LEN,
            ir@.len() >= MAGIC_LEN,
            forall|k: int| 0 <= k < i ==> ir@[k] == magic()[k],
        decreases MAGIC_LEN - i,
    {
        if ir[i] != magic_byte(i) {
            assert(ir@.take(5)[i as int] != magic()[i as int]);
            return FileType::Text;
        }
        i = i + 1;
    }
    assert(ir@.take(5) =~= magic());
    FileType::Binary
}

/// The IR that follows the magic prefix of a precompiled program.
pub fn get_ir(ir: &[u8]) -> (body: &[u8])
    requires
        spec_detect_ir(ir@) == FileType::Binary,
    ensures
        body@ == ir@.skip(MAGIC_LEN as int),
{
    &ir[MAGIC_LEN..ir.len()]
}

/// Framing a buffer and then detecting it always reports a precompiled program.
pub proof fn lemma_framed_is_binary(ir: Seq<u8>)
    ensures
        spec_detect_ir(magic() + ir) == FileType::Binary,
{
    assert((magic() + ir).take(5) =~= magic());
}

/// The IR recovered from a framed buffer is the IR that was framed.
pub proof fn lemma_frame_roundtrip(ir: Seq<u8>)
    ensures
        (magic() + ir).skip(MAGIC_LEN as int) == ir,
{
    assert((magic() + ir).skip(5) =~= ir);
}

} // verus!
