//! URLs as text: their paths, and the same URL with another path.

use crate::text;
use vstd::prelude::*;

verus! {

/// The longest text that is taken for a URL, in characters. Offsets into a URL
/// are 32-bit numbers, and a character takes up to twelve bytes of it.
pub const LONGEST_URL: usize = 0x1000_0000;

/// The longest URL and path that are put together, in characters.
pub const LONGEST_WITH_PATH: usize = 0x1400_0000;

/// Whether a character stands in a path as it is: it is visible and is not
/// escaped there.
pub open spec fn is_plain(c: char) -> bool {
    '!' <= c <= '~' && c != '"' && c != '#' && c != '<' && c != '>' && c != '?' && c != '`' && c
        != '{' && c != '}'
}

/// How many bytes a text takes at most as a path: a character that is escaped
/// takes three for each of its bytes.
pub open spec fn path_bytes(path: Seq<char>) -> nat
    decreases path.len(),
{
    if path.len() == 0 {
        0
    } else {
        path_bytes(path.drop_last()) + if is_plain(path.last()) {
            1nat
        } else {
            12nat
        }
    }
}

/// Whether the offsets into a URL fit in 32 bits once it has another path: the
/// bytes of the base without its own path, and those of the path.
pub open spec fn offsets_fit(base: Seq<char>, path: Seq<char>) -> bool {
    match url_path(base) {
        Some(own) => 12 * base.len() - path_bytes(own) + path_bytes(path) <= 0xffff_ff00,
        None => true,
    }
}

/// A text takes no fewer bytes than a part of it, and as many as its parts.
pub proof fn lemma_path_bytes(a: Seq<char>, b: Seq<char>)
    ensures
        path_bytes(a + b) == path_bytes(a) + path_bytes(b),
        path_bytes(b) <= 12 * b.len(),
    decreases b.len(),
{
    if b.len() == 0 {
        assert(a + b =~= a);
    } else {
        lemma_path_bytes(a, b.drop_last());
        assert((a + b).drop_last() =~= a + b.drop_last());
    }
}

/// A text takes no fewer bytes than what is left of it without the characters
/// at its end.
pub proof fn lemma_shorter_path_bytes(s: Seq<char>, c: char)
    ensures
        path_bytes(text::without_trailing(s, c)) <= path_bytes(s),
    decreases s.len(),
{
    if s.len() > 0 && s.last() == c {
        lemma_shorter_path_bytes(s.drop_last(), c);
    }
}

/// The path of a URL; nothing where the text is no URL.
pub uninterp spec fn url_path(base: Seq<char>) -> Option<Seq<char>>;

/// The URL with another path and without a query; nothing where the text is no
/// URL.
pub uninterp spec fn url_at_path(base: Seq<char>, path: Seq<char>) -> Option<Seq<char>>;

/// `url::Url::parse` and `Url::path`: the path of the URL, percent-encoded.
/// The result depends on the text alone.
#[verifier::external_body]
pub(crate) fn path_of(base: &str) -> (r: Option<String>)
    requires
        base@.len() <= LONGEST_URL,
    ensures
        text::opt_view(r) == url_path(base@),
{
    url::Url::parse(base).ok().map(|url| url.path().to_string())
}

/// `url::Url::parse`, `Url::set_path`, `Url::set_query` with no query, and the
/// URL's text. The result depends on the two texts alone, and is there exactly
/// where the first is a URL. The URL's offsets stay within 32 bits.
#[verifier::external_body]
pub(crate) fn at_path(base: &str, path: &str) -> (r: Option<String>)
    requires
        base@.len() <= LONGEST_URL,
        offsets_fit(base@, path@),
    ensures
        text::opt_view(r) == url_at_path(base@, path@),
        r is Some <==> url_path(base@) is Some,
{
    let mut url = url::Url::parse(base).ok()?;
    url.set_path(path);
    url.set_query(None);
    Some(url.to_string())
}

} // verus!
