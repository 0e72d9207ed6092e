//! One instance of the application per data directory: what a second one tells
//! the first.

use crate::cache_keepalive::key;
use crate::text;
use vstd::prelude::*;
use vstd::utf8;

verus! {

/// The most bytes of a message that are read.
pub const MAX_MESSAGE_LEN: usize = 4096;

/// Arguments with spaces between them.
pub open spec fn joined(args: Seq<String>) -> Seq<char>
    decreases args.len(),
{
    if args.len() == 0 {
        Seq::empty()
    } else if args.len() == 1 {
        args[0]@
    } else {
        joined(args.drop_last()) + " "@ + args.last()@
    }
}

/// The line in which a second instance hands on its arguments.
pub fn launch_line(args: &Vec<String>) -> (r: String)
    ensures
        r@ == joined(args@).push('\n'),
{
    let mut line: String = String::new();
    let mut i: usize = 0;
    while i < args.len()
        invariant
            i <= args@.len(),
            line@ == joined(args@.take(i as int)),
        decreases args@.len() - i,
    {
        proof {
            let longer = args@.take(i as int + 1);
            assert(longer.drop_last() =~= args@.take(i as int));
            assert(longer.last() == args@[i as int]);
        }
        if i == 0 {
            line = args[0].clone();
        } else {
            line = text::concat3(line.as_str(), " ", args[i].as_str());
        }
        i = i + 1;
    }
    proof {
        assert(args@.take(args@.len() as int) =~= args@);
    }
    line.push('\n');
    line
}

/// Whether a message is complete: it ended, it fills the room there is for it,
/// or there is a line feed in it.
pub fn message_complete(received: &[u8], ended: bool) -> (r: bool)
    ensures
        r == (ended || received@.len() >= MAX_MESSAGE_LEN || received@.contains(10u8)),
{
    if ended || received.len() >= MAX_MESSAGE_LEN {
        return true;
    }
    let mut i: usize = 0;
    while i < received.len()
        invariant
            i <= received@.len(),
            forall|j: int| 0 <= j < i ==> received@[j] != 10u8,
        decreases received@.len() - i,
    {
        if received[i] == 10 {
            assert(received@[i as int] == 10u8);
            return true;
        }
        i = i + 1;
    }
    false
}

/// What a message says: its text without the space at its end.
pub fn message_text(received: &[u8]) -> (r: String)
    ensures
        r@ == text::trimmed_end(text::lossy_text(received@)),
        utf8::valid_utf8(received@) ==> r@ == text::trimmed_end(utf8::decode_utf8(received@)),
{
    let whole: String = text::from_utf8_lossy(received);
    text::trim_end(whole.as_str())
}

/// What a second instance hands on is what the first reads, as long as the
/// arguments do not end in space themselves.
pub proof fn law_line_is_read_back(args: Seq<String>)
    requires
        joined(args).len() > 0 ==> !text::is_white_space(joined(args).last()),
    ensures
        text::trimmed_end(joined(args).push('\n')) == joined(args),
{
    let line = joined(args).push('\n');
    assert(line.last() == '\n');
    assert(line.drop_last() =~= joined(args));
    reveal_with_fuel(text::trimmed_end, 2);
}

/// The name of the pipe of a data directory: by the start of its digest.
pub open spec fn pipe_name(data_dir: Seq<u8>) -> Seq<char> {
    "\\\\.\\pipe\\codex-switch-"@ + key::sha256_hex(data_dir).take(16)
}

/// The name of the pipe of a data directory.
pub fn pipe_name_for(data_dir: &str) -> (r: String)
    ensures
        r@ == pipe_name(utf8::encode_utf8(data_dir@)),
{
    let digest: String = key::digest_text(data_dir.as_bytes());
    let chars: Vec<char> = text::to_chars(digest.as_str());
    let start: String = text::slice_chars(&chars, 0, 16);
    proof {
        assert(digest@.subrange(0, 16) =~= digest@.take(16));
    }
    text::concat("\\\\.\\pipe\\codex-switch-", start.as_str())
}

} // verus!
