//! The file that holds an icon in all its sizes.

use vstd::prelude::*;
use vstd::utf8;

verus! {

/// A size of the icon: its file, its mark in the icon file, and its width.
#[derive(Debug, Clone, Copy)]
pub struct IconSize {
    pub file_name: &'static str,
    pub icns_type: &'static str,
    pub size: u32,
}

/// The sizes of the icon.
pub open spec fn sizes() -> Seq<IconSize> {
    seq![
        IconSize { file_name: "icon_16x16.png", icns_type: "icp4", size: 16 },
        IconSize { file_name: "icon_16x16@2x.png", icns_type: "ic11", size: 32 },
        IconSize { file_name: "icon_32x32.png", icns_type: "icp5", size: 32 },
        IconSize { file_name: "icon_32x32@2x.png", icns_type: "ic12", size: 64 },
        IconSize { file_name: "icon_128x128.png", icns_type: "ic07", size: 128 },
        IconSize { file_name: "icon_128x128@2x.png", icns_type: "ic13", size: 256 },
        IconSize { file_name: "icon_256x256.png", icns_type: "ic08", size: 256 },
        IconSize { file_name: "icon_256x256@2x.png", icns_type: "ic14", size: 512 },
        IconSize { file_name: "icon_512x512.png", icns_type: "ic09", size: 512 },
        IconSize { file_name: "icon_512x512@2x.png", icns_type: "ic10", size: 1024 },
    ]
}

/// The sizes of the icon.
pub fn icon_sizes() -> (r: Vec<IconSize>)
    ensures
        r@ == sizes(),
{
    vec![
        IconSize { file_name: "icon_16x16.png", icns_type: "icp4", size: 16 },
        IconSize { file_name: "icon_16x16@2x.png", icns_type: "ic11", size: 32 },
        IconSize { file_name: "icon_32x32.png", icns_type: "icp5", size: 32 },
        IconSize { file_name: "icon_32x32@2x.png", icns_type: "ic12", size: 64 },
        IconSize { file_name: "icon_128x128.png", icns_type: "ic07", size: 128 },
        IconSize { file_name: "icon_128x128@2x.png", icns_type: "ic13", size: 256 },
        IconSize { file_name: "icon_256x256.png", icns_type: "ic08", size: 256 },
        IconSize { file_name: "icon_256x256@2x.png", icns_type: "ic14", size: 512 },
        IconSize { file_name: "icon_512x512.png", icns_type: "ic09", size: 512 },
        IconSize { file_name: "icon_512x512@2x.png", icns_type: "ic10", size: 1024 },
    ]
}

/// A picture in the icon file, with its mark.
#[derive(Debug)]
pub struct Chunk {
    pub kind: String,
    pub data: Vec<u8>,
}

/// Why an icon file cannot be written.
#[derive(Debug, Clone, Copy, PartialEq, Eq, Structural)]
pub enum IcnsError {
    /// The mark at some place has not four bytes.
    InvalidType(usize),
    /// A picture is too large for its length to be written.
    ChunkTooLarge,
    /// All of them together are.
    FileTooLarge,
}

/// A number in four bytes, the most significant first.
pub open spec fn be_bytes(n: int) -> Seq<u8> {
    seq![
        (n / 16_777_216 % 256) as u8,
        (n / 65_536 % 256) as u8,
        (n / 256 % 256) as u8,
        (n % 256) as u8,
    ]
}

/// The bytes of a mark.
pub open spec fn mark(chunk: &Chunk) -> Seq<u8> {
    utf8::encode_utf8(chunk.kind@)
}

/// The lengths of pictures with what stands before each.
pub open spec fn total(chunks: Seq<Chunk>) -> int
    decreases chunks.len(),
{
    if chunks.len() == 0 {
        0
    } else {
        total(chunks.drop_last()) + chunks.last().data@.len() + 8
    }
}

/// The first reason why an icon file cannot be written: marks and lengths are
/// looked at one picture after the other.
pub open spec fn problem(chunks: Seq<Chunk>, from: int) -> Option<IcnsError>
    decreases chunks.len() - from,
{
    if from < 0 || from >= chunks.len() {
        None
    } else if mark(&chunks[from]).len() != 4 {
        Some(IcnsError::InvalidType(from as usize))
    } else if chunks[from].data@.len() + 8 > u32::MAX {
        Some(IcnsError::ChunkTooLarge)
    } else if 8 + total(chunks.take(from + 1)) > u32::MAX {
        Some(IcnsError::FileTooLarge)
    } else {
        problem(chunks, from + 1)
    }
}

/// The pictures of an icon file, each with its mark and its length.
pub open spec fn body(chunks: Seq<Chunk>) -> Seq<u8>
    decreases chunks.len(),
{
    if chunks.len() == 0 {
        Seq::empty()
    } else {
        let chunk = chunks.last();
        body(chunks.drop_last()) + mark(&chunk) + be_bytes((chunk.data@.len() + 8) as int) + chunk.data@
    }
}

/// An icon file.
pub open spec fn file(chunks: Seq<Chunk>) -> Seq<u8> {
    seq![105u8, 99, 110, 115] + be_bytes(8 + total(chunks)) + body(chunks)
}

fn push_u32(out: &mut Vec<u8>, n: u32)
    ensures
        final(out)@ == old(out)@ + be_bytes(n as int),
{
    out.push((n / 16_777_216 % 256) as u8);
    out.push((n / 65_536 % 256) as u8);
    out.push((n / 256 % 256) as u8);
    out.push((n % 256) as u8);
    assert(out@ =~= old(out)@ + be_bytes(n as int));
}

fn push_all(out: &mut Vec<u8>, bytes: &[u8])
    ensures
        final(out)@ == old(out)@ + bytes@,
{
    let mut i: usize = 0;
    proof {
        assert(old(out)@ + bytes@.take(0) =~= old(out)@);
    }
    while i < bytes.len()
        invariant
            i <= bytes@.len(),
            out@ == old(out)@ + bytes@.take(i as int),
        decreases bytes@.len() - i,
    {
        out.push(bytes[i]);
        proof {
            assert(old(out)@ + bytes@.take(i as int + 1) =~= (old(out)@ + bytes@.take(
                i as int,
            )).push(bytes@[i as int]));
        }
        i = i + 1;
    }
    proof {
        assert(bytes@.take(bytes@.len() as int) =~= bytes@);
    }
}

fn checked_total(chunks: &Vec<Chunk>) -> (r: Result<u32, IcnsError>)
    ensures
        match r {
            Ok(n) => problem(chunks@, 0) is None && n == 8 + total(chunks@) && (forall|i: int|
                0 <= i < chunks@.len() ==> (#[trigger] chunks@[i]).data@.len() + 8 <= u32::MAX),
            Err(e) => problem(chunks@, 0) == Some(e),
        },
{
    let mut sum: u32 = 8;
    let mut i: usize = 0;
    while i < chunks.len()
        invariant
            i <= chunks@.len(),
            sum == 8 + total(chunks@.take(i as int)),
            problem(chunks@, 0) == problem(chunks@, i as int),
            forall|j: int|
                0 <= j < i ==> (#[trigger] chunks@[j]).data@.len() + 8 <= u32::MAX,
        decreases chunks@.len() - i,
    {
        proof {
            assert(chunks@.take(i as int + 1).drop_last() =~= chunks@.take(i as int));
        }
        if chunks[i].kind.as_str().as_bytes().len() != 4 {
            return Err(IcnsError::InvalidType(i));
        }
        let len: usize = chunks[i].data.len();
        if len as u64 > u32::MAX as u64 - 8 {
            return Err(IcnsError::ChunkTooLarge);
        }
        let chunk_len: u32 = len as u32 + 8;
        if sum > u32::MAX - chunk_len {
            return Err(IcnsError::FileTooLarge);
        }
        sum = sum + chunk_len;
        i = i + 1;
    }
    proof {
        assert(chunks@.take(chunks@.len() as int) =~= chunks@);
    }
    Ok(sum)
}

/// The icon file of some pictures, or why there is none.
pub fn write_icns(chunks: &Vec<Chunk>) -> (r: Result<Vec<u8>, IcnsError>)
    ensures
        match r {
            Ok(bytes) => problem(chunks@, 0) is None && bytes@ == file(chunks@),
            Err(e) => problem(chunks@, 0) == Some(e),
        },
{
    let sum: u32 = match checked_total(chunks) {
        Ok(sum) => sum,
        Err(e) => {
            return Err(e);
        },
    };
    let mut out: Vec<u8> = vec![105u8, 99, 110, 115];
    push_u32(&mut out, sum);
    let ghost head = out@;
    let mut i: usize = 0;
    proof {
        assert(head + body(chunks@.take(0)) =~= head);
    }
    while i < chunks.len()
        invariant
            i <= chunks@.len(),
            out@ == head + body(chunks@.take(i as int)),
            forall|j: int|
                0 <= j < chunks@.len() ==> (#[trigger] chunks@[j]).data@.len() + 8 <= u32::MAX,
        decreases chunks@.len() - i,
    {
        let ghost before = body(chunks@.take(i as int));
        proof {
            assert(chunks@.take(i as int + 1).drop_last() =~= chunks@.take(i as int));
            assert(chunks@.take(i as int + 1).last() == chunks@[i as int]);
            assert(chunks@[i as int].data@.len() + 8 <= u32::MAX);
        }
        push_all(&mut out, chunks[i].kind.as_str().as_bytes());
        push_u32(&mut out, chunks[i].data.len() as u32 + 8);
        push_all(&mut out, chunks[i].data.as_slice());
        proof {
            assert(out@ =~= head + body(chunks@.take(i as int + 1)));
        }
        i = i + 1;
    }
    proof {
        assert(chunks@.take(chunks@.len() as int) =~= chunks@);
        assert(out@ =~= file(chunks@));
    }
    Ok(out)
}

proof fn lemma_body_length(chunks: Seq<Chunk>)
    requires
        forall|i: int| 0 <= i < chunks.len() ==> mark(&#[trigger] chunks[i]).len() == 4,
    ensures
        body(chunks).len() == total(chunks),
    decreases chunks.len(),
{
    if chunks.len() > 0 {
        let shorter = chunks.drop_last();
        assert forall|i: int| 0 <= i < shorter.len() implies mark(&#[trigger] shorter[i]).len() == 4 by {
            assert(mark(&chunks[i]).len() == 4);
        }
        lemma_body_length(shorter);
        assert(mark(&chunks[chunks.len() - 1]).len() == 4);
    }
}

proof fn lemma_marks(chunks: Seq<Chunk>, from: int, i: int)
    requires
        0 <= from <= i < chunks.len(),
        problem(chunks, from) is None,
    ensures
        mark(&chunks[i]).len() == 4,
    decreases i - from,
{
    if from < i {
        lemma_marks(chunks, from + 1, i);
    }
}

/// The length that an icon file gives in its head is its own.
pub proof fn law_length_is_its_own(chunks: Seq<Chunk>)
    requires
        problem(chunks, 0) is None,
    ensures
        file(chunks).len() == 8 + total(chunks),
        file(chunks).subrange(4, 8) == be_bytes(file(chunks).len() as int),
{
    assert forall|i: int| 0 <= i < chunks.len() implies mark(&#[trigger] chunks[i]).len() == 4 by {
        lemma_marks(chunks, 0, i);
    }
    lemma_body_length(chunks);
    assert(file(chunks).subrange(4, 8) =~= be_bytes(8 + total(chunks)));
}

/// Four bytes say the number that was written, the first of them counting
/// most.
pub proof fn law_four_bytes_say_the_number(n: u32)
    ensures
        be_bytes(n as int).len() == 4,
        be_bytes(n as int)[0] * 16_777_216 + be_bytes(n as int)[1] * 65_536 + be_bytes(n as int)[2]
            * 256 + be_bytes(n as int)[3] == n,
{
    let m = n as int;
    assert(0 <= m / 16_777_216 < 256);
}

/// Every picture stands in the file behind its mark and its length, which
/// counts the eight bytes of both.
pub proof fn law_pictures_stand_behind_mark_and_length(chunks: Seq<Chunk>, chunk: Chunk)
    ensures
        body(chunks.push(chunk)) == body(chunks) + utf8::encode_utf8(chunk.kind@) + be_bytes(
            (chunk.data@.len() + 8) as int,
        ) + chunk.data@,
        total(chunks.push(chunk)) == total(chunks) + chunk.data@.len() + 8,
        chunks.len() == 0 ==> body(chunks).len() == 0 && total(chunks) == 0,
{
    assert(chunks.push(chunk).drop_last() =~= chunks);
}

/// A file is refused exactly where a mark has not four bytes, or a picture or
/// the whole is too long for its length to be written.
pub proof fn law_file_is_refused_for_marks_and_lengths(chunks: Seq<Chunk>, from: int)
    requires
        0 <= from <= chunks.len(),
    ensures
        problem(chunks, from) is None <==> forall|i: int|
            from <= i < chunks.len() ==> {
                &&& utf8::encode_utf8((#[trigger] chunks[i]).kind@).len() == 4
                &&& chunks[i].data@.len() + 8 <= 0xffff_ffff
                &&& 8 + total(chunks.take(i + 1)) <= 0xffff_ffff
            },
    decreases chunks.len() - from,
{
    if from < chunks.len() {
        law_file_is_refused_for_marks_and_lengths(chunks, from + 1);
    }
}

/// Each size has its own mark and file, and is a power of two.
pub proof fn law_sizes_are_those_of_the_icon(i: int)
    requires
        0 <= i < sizes().len(),
    ensures
        sizes().len() == 10,
        16 <= sizes()[i].size <= 1024,
        i % 2 == 1 ==> sizes()[i].size == 2 * sizes()[i - 1].size,
        i % 2 == 0 && 0 < i && i != 4 ==> sizes()[i].size == sizes()[i - 1].size,
{
}

} // verus!
