//! Strings as sequences of characters: trimming, searching, ordering and
//! case folding.

use vstd::prelude::*;
use vstd::utf8;

verus! {

/// `String::push`: the character goes to the end of the string.
pub assume_specification[ String::push ](s: &mut String, ch: char)
    ensures
        final(s)@ == old(s)@.push(ch),
;

/// The characters of a string, in order.
pub fn to_chars(s: &str) -> (r: Vec<char>)
    ensures
        r@ == s@,
{
    let mut out: Vec<char> = Vec::new();
    for c in it: s.chars()
        invariant
            it.seq() == s@,
            out@ == s@.take(it.index() as int),
    {
        out.push(c);
    }
    assert(out@ == s@);
    out
}

/// The string made of the given characters.
pub fn from_chars(chars: &[char]) -> (r: String)
    ensures
        r@ == chars@,
{
    let mut out: String = String::new();
    let mut i: usize = 0;
    while i < chars.len()
        invariant
            i <= chars@.len(),
            out@ == chars@.take(i as int),
        decreases chars@.len() - i,
    {
        out.push(chars[i]);
        i = i + 1;
    }
    assert(out@ == chars@);
    out
}

/// The characters at positions `from` up to but not including `to`.
pub fn slice_chars(chars: &Vec<char>, from: usize, to: usize) -> (r: String)
    requires
        from <= to <= chars@.len(),
    ensures
        r@ == chars@.subrange(from as int, to as int),
{
    let mut out: String = String::new();
    let mut i: usize = from;
    while i < to
        invariant
            from <= i <= to <= chars@.len(),
            out@ == chars@.subrange(from as int, i as int),
        decreases to - i,
    {
        out.push(chars[i]);
        i = i + 1;
        assert(out@ == chars@.subrange(from as int, i as int));
    }
    out
}

/// Whether two strings hold the same characters.
pub fn same(a: &str, b: &str) -> (r: bool)
    ensures
        r == (a@ == b@),
{
    let x: Vec<char> = to_chars(a);
    let y: Vec<char> = to_chars(b);
    if x.len() != y.len() {
        return false;
    }
    let mut i: usize = 0;
    while i < x.len()
        invariant
            x@ == a@,
            y@ == b@,
            x@.len() == y@.len(),
            i <= x@.len(),
            forall|j: int| 0 <= j < i ==> x@[j] == y@[j],
        decreases x@.len() - i,
    {
        if x[i] != y[i] {
            return false;
        }
        i = i + 1;
    }
    assert(a@ =~= b@);
    true
}

/// The order of two strings by their characters' code points, as `str`
/// orders them: the first differing character decides, and a proper prefix
/// comes first.
pub open spec fn is_before(a: Seq<char>, b: Seq<char>) -> bool
    decreases a.len(),
{
    if b.len() == 0 {
        false
    } else if a.len() == 0 {
        true
    } else if a[0] != b[0] {
        a[0] < b[0]
    } else {
        is_before(a.skip(1), b.skip(1))
    }
}

/// Whether `a` comes strictly before `b`.
pub fn before(a: &str, b: &str) -> (r: bool)
    ensures
        r == is_before(a@, b@),
{
    let x: Vec<char> = to_chars(a);
    let y: Vec<char> = to_chars(b);
    let mut i: usize = 0;
    assert(a@.skip(0) =~= a@);
    assert(b@.skip(0) =~= b@);
    while i < x.len() && i < y.len()
        invariant
            x@ == a@,
            y@ == b@,
            i <= x@.len(),
            i <= y@.len(),
            is_before(a@, b@) == is_before(a@.skip(i as int), b@.skip(i as int)),
        decreases x@.len() - i,
    {
        proof {
            let p = a@.skip(i as int);
            let q = b@.skip(i as int);
            assert(p[0] == x@[i as int] && q[0] == y@[i as int]);
            assert(p.skip(1) =~= a@.skip(i + 1));
            assert(q.skip(1) =~= b@.skip(i + 1));
        }
        if x[i] != y[i] {
            return x[i] < y[i];
        }
        i = i + 1;
    }
    i < y.len()
}

/// Nothing comes before itself.
pub proof fn lemma_before_irreflexive(a: Seq<char>)
    ensures
        !is_before(a, a),
    decreases a.len(),
{
    if a.len() > 0 {
        lemma_before_irreflexive(a.skip(1));
    }
}

/// Of two different strings, one comes before the other.
pub proof fn lemma_before_total(a: Seq<char>, b: Seq<char>)
    requires
        a != b,
    ensures
        is_before(a, b) || is_before(b, a),
    decreases a.len(),
{
    if a.len() == 0 || b.len() == 0 {
        if a.len() == 0 && b.len() == 0 {
            assert(a =~= b);
        }
    } else if a[0] == b[0] {
        if a.skip(1) =~= b.skip(1) {
            assert(a =~= seq![a[0]] + a.skip(1));
            assert(b =~= seq![b[0]] + b.skip(1));
        }
        lemma_before_total(a.skip(1), b.skip(1));
    } else {
        assert(a[0] < b[0] || b[0] < a[0]);
    }
}

/// The order is transitive.
pub proof fn lemma_before_transitive(a: Seq<char>, b: Seq<char>, c: Seq<char>)
    requires
        is_before(a, b),
        is_before(b, c),
    ensures
        is_before(a, c),
    decreases a.len(),
{
    if a.len() > 0 && a[0] == b[0] && b[0] == c[0] {
        lemma_before_transitive(a.skip(1), b.skip(1), c.skip(1));
    }
}

/// Two strings never come before each other both ways.
pub proof fn lemma_before_asymmetric(a: Seq<char>, b: Seq<char>)
    requires
        is_before(a, b),
    ensures
        !is_before(b, a),
{
    if is_before(b, a) {
        lemma_before_transitive(a, b, a);
        lemma_before_irreflexive(a);
    }
}

/// What the order says of any three strings.
pub proof fn lemma_before_order(a: Seq<char>, b: Seq<char>, c: Seq<char>)
    ensures
        is_before(a, b) && is_before(b, c) ==> is_before(a, c),
        !is_before(a, a),
        !is_before(b, b),
        is_before(a, b) ==> !is_before(b, a),
        is_before(a, c) ==> !is_before(c, a),
        is_before(b, c) ==> !is_before(c, b),
        a != b ==> is_before(a, b) || is_before(b, a),
        b != c ==> is_before(b, c) || is_before(c, b),
        a != c ==> is_before(a, c) || is_before(c, a),
{
    lemma_before_irreflexive(a);
    lemma_before_irreflexive(b);
    if is_before(a, b) && is_before(b, c) {
        lemma_before_transitive(a, b, c);
    }
    if is_before(a, b) {
        lemma_before_asymmetric(a, b);
    }
    if is_before(a, c) {
        lemma_before_asymmetric(a, c);
    }
    if is_before(b, c) {
        lemma_before_asymmetric(b, c);
    }
    if a != b {
        lemma_before_total(a, b);
    }
    if b != c {
        lemma_before_total(b, c);
    }
    if a != c {
        lemma_before_total(a, c);
    }
}

/// The characters with the Unicode property `White_Space`.
pub open spec fn is_white_space(c: char) -> bool {
    let n = c as u32;
    ||| 9 <= n <= 13
    ||| n == 32
    ||| n == 0x85
    ||| n == 0xa0
    ||| n == 0x1680
    ||| 0x2000 <= n <= 0x200a
    ||| n == 0x2028
    ||| n == 0x2029
    ||| n == 0x202f
    ||| n == 0x205f
    ||| n == 0x3000
}

/// Whether a character is white space.
pub fn white_space(c: char) -> (r: bool)
    ensures
        r == is_white_space(c),
{
    let n: u32 = c as u32;
    (9 <= n && n <= 13) || n == 32 || n == 0x85 || n == 0xa0 || n == 0x1680 || (0x2000 <= n && n
        <= 0x200a) || n == 0x2028 || n == 0x2029 || n == 0x202f || n == 0x205f || n == 0x3000
}

/// What is left without the white space at the start.
pub open spec fn trimmed_start(s: Seq<char>) -> Seq<char>
    decreases s.len(),
{
    if s.len() > 0 && is_white_space(s[0]) {
        trimmed_start(s.skip(1))
    } else {
        s
    }
}

/// What is left without the white space at the end.
pub open spec fn trimmed_end(s: Seq<char>) -> Seq<char>
    decreases s.len(),
{
    if s.len() > 0 && is_white_space(s.last()) {
        trimmed_end(s.drop_last())
    } else {
        s
    }
}

/// What is left without the white space at both ends.
pub open spec fn trimmed(s: Seq<char>) -> Seq<char> {
    trimmed_end(trimmed_start(s))
}

/// The string without the white space at its end.
pub fn trim_end(s: &str) -> (r: String)
    ensures
        r@ == trimmed_end(s@),
{
    let chars: Vec<char> = to_chars(s);
    let mut end: usize = chars.len();
    assert(s@.take(end as int) =~= s@);
    while end > 0 && white_space(chars[end - 1])
        invariant
            chars@ == s@,
            end <= chars@.len(),
            trimmed_end(s@) == trimmed_end(s@.take(end as int)),
        decreases end,
    {
        proof {
            assert(s@.take(end as int).drop_last() =~= s@.take(end - 1));
        }
        end = end - 1;
    }
    proof {
        assert(s@.subrange(0, end as int) =~= s@.take(end as int));
    }
    slice_chars(&chars, 0, end)
}

/// The string without the white space at its ends.
pub fn trim(s: &str) -> (r: String)
    ensures
        r@ == trimmed(s@),
{
    let chars: Vec<char> = to_chars(s);
    let mut start: usize = 0;
    assert(s@.skip(0) =~= s@);
    while start < chars.len() && white_space(chars[start])
        invariant
            chars@ == s@,
            start <= chars@.len(),
            trimmed_start(s@) == trimmed_start(s@.skip(start as int)),
        decreases chars@.len() - start,
    {
        proof {
            assert(s@.skip(start as int)[0] == chars@[start as int]);
            assert(s@.skip(start as int).skip(1) =~= s@.skip(start + 1));
        }
        start = start + 1;
    }
    proof {
        if start < s@.len() {
            assert(s@.skip(start as int)[0] == chars@[start as int]);
        }
        assert(trimmed_start(s@) == s@.skip(start as int));
        assert(s@.subrange(start as int, s@.len() as int) =~= s@.skip(start as int));
    }
    let rest: String = slice_chars(&chars, start, chars.len());
    trim_end(rest.as_str())
}

/// Whether the string holds white space alone.
pub fn is_blank(s: &str) -> (r: bool)
    ensures
        r == (trimmed(s@).len() == 0),
{
    let t: String = trim(s);
    let chars: Vec<char> = to_chars(t.as_str());
    chars.len() == 0
}

/// Whether a string holds no character.
pub fn is_empty(s: &str) -> (r: bool)
    ensures
        r == (s@.len() == 0),
{
    let chars: Vec<char> = to_chars(s);
    chars.len() == 0
}

/// The trimmed string, if anything is left of it.
pub open spec fn trimmed_non_empty(s: Seq<char>) -> Option<Seq<char>> {
    if trimmed(s).len() == 0 {
        None
    } else {
        Some(trimmed(s))
    }
}

/// The characters of an optional string.
pub open spec fn opt_view(s: Option<String>) -> Option<Seq<char>> {
    match s {
        Some(v) => Some(v@),
        None => None,
    }
}

/// The trimmed string, or `None` where nothing is left of it.
pub fn trimmed_string(value: &str) -> (r: Option<String>)
    ensures
        opt_view(r) == trimmed_non_empty(value@),
{
    let t: String = trim(value);
    if is_empty(t.as_str()) {
        None
    } else {
        Some(t)
    }
}

/// Whether `needle` starts at position `at` of `s`.
pub open spec fn occurs_at(s: Seq<char>, needle: Seq<char>, at: int) -> bool {
    0 <= at && at + needle.len() <= s.len() && s.subrange(at, at + needle.len()) == needle
}

/// Whether `needle` occurs in `s`.
pub open spec fn occurs_in(s: Seq<char>, needle: Seq<char>) -> bool {
    exists|at: int| occurs_at(s, needle, at)
}

/// Whether the characters `needle` stand in `chars` from position `at` on.
pub fn matches_at(chars: &Vec<char>, needle: &Vec<char>, at: usize) -> (r: bool)
    requires
        at <= chars@.len(),
    ensures
        r == occurs_at(chars@, needle@, at as int),
{
    if needle.len() > chars.len() - at {
        return false;
    }
    let mut i: usize = 0;
    while i < needle.len()
        invariant
            at + needle@.len() <= chars.len(),
            i <= needle@.len(),
            forall|j: int| 0 <= j < i ==> chars@[at + j] == needle@[j],
        decreases needle@.len() - i,
    {
        if chars[at + i] != needle[i] {
            proof {
                assert(chars@.subrange(at as int, at + needle@.len())[i as int] != needle@[i as int]);
            }
            return false;
        }
        i = i + 1;
    }
    assert(chars@.subrange(at as int, at + needle@.len()) =~= needle@);
    true
}

/// Whether `needle` occurs in `s`.
pub fn contains(s: &str, needle: &str) -> (r: bool)
    ensures
        r == occurs_in(s@, needle@),
{
    let chars: Vec<char> = to_chars(s);
    let wanted: Vec<char> = to_chars(needle);
    let mut at: usize = 0;
    while at <= chars.len()
        invariant
            chars@ == s@,
            wanted@ == needle@,
            at <= chars@.len() + 1,
            forall|j: int| 0 <= j < at ==> !occurs_at(s@, needle@, j),
        decreases chars@.len() + 1 - at,
    {
        if matches_at(&chars, &wanted, at) {
            return true;
        }
        if at == chars.len() {
            return false;
        }
        at = at + 1;
    }
    false
}

/// Whether `s` starts with `prefix`.
pub fn starts_with(s: &str, prefix: &str) -> (r: bool)
    ensures
        r == occurs_at(s@, prefix@, 0),
{
    let chars: Vec<char> = to_chars(s);
    let wanted: Vec<char> = to_chars(prefix);
    matches_at(&chars, &wanted, 0)
}

/// Whether `s` ends with `suffix`.
pub fn ends_with(s: &str, suffix: &str) -> (r: bool)
    ensures
        r == occurs_at(s@, suffix@, s@.len() - suffix@.len()),
{
    let chars: Vec<char> = to_chars(s);
    let wanted: Vec<char> = to_chars(suffix);
    if wanted.len() > chars.len() {
        return false;
    }
    matches_at(&chars, &wanted, chars.len() - wanted.len())
}

/// The lower-case form of an ASCII letter; other characters stay.
pub open spec fn ascii_lower(c: char) -> char {
    if 'A' <= c <= 'Z' {
        ((c as u32) + 32) as char
    } else {
        c
    }
}

/// The string with its ASCII letters in lower case.
pub open spec fn ascii_lowered(s: Seq<char>) -> Seq<char> {
    Seq::new(s.len(), |i: int| ascii_lower(s[i]))
}

/// The lower-case form of an ASCII letter.
pub fn lower_char(c: char) -> (r: char)
    ensures
        r == ascii_lower(c),
{
    if 'A' <= c && c <= 'Z' {
        ((c as u8) + 32) as char
    } else {
        c
    }
}

/// The string with its ASCII letters in lower case.
pub fn to_ascii_lower(s: &str) -> (r: String)
    ensures
        r@ == ascii_lowered(s@),
{
    let chars: Vec<char> = to_chars(s);
    let mut out: String = String::new();
    let mut i: usize = 0;
    while i < chars.len()
        invariant
            chars@ == s@,
            i <= chars@.len(),
            out@ == ascii_lowered(s@).take(i as int),
        decreases chars@.len() - i,
    {
        out.push(lower_char(chars[i]));
        i = i + 1;
        assert(out@ =~= ascii_lowered(s@).take(i as int));
    }
    assert(out@ =~= ascii_lowered(s@));
    out
}

/// The sequence without the leading occurrences of one character.
pub open spec fn without_leading(s: Seq<char>, c: char) -> Seq<char>
    decreases s.len(),
{
    if s.len() > 0 && s[0] == c {
        without_leading(s.skip(1), c)
    } else {
        s
    }
}

/// The sequence without the trailing occurrences of one character.
pub open spec fn without_trailing(s: Seq<char>, c: char) -> Seq<char>
    decreases s.len(),
{
    if s.len() > 0 && s.last() == c {
        without_trailing(s.drop_last(), c)
    } else {
        s
    }
}

/// The string without the leading occurrences of `c`.
pub fn strip_leading(s: &str, c: char) -> (r: String)
    ensures
        r@ == without_leading(s@, c),
{
    let chars: Vec<char> = to_chars(s);
    let mut start: usize = 0;
    assert(s@.skip(0) =~= s@);
    while start < chars.len() && chars[start] == c
        invariant
            chars@ == s@,
            start <= chars@.len(),
            without_leading(s@, c) == without_leading(s@.skip(start as int), c),
        decreases chars@.len() - start,
    {
        proof {
            assert(s@.skip(start as int)[0] == chars@[start as int]);
            assert(s@.skip(start as int).skip(1) =~= s@.skip(start + 1));
        }
        start = start + 1;
    }
    proof {
        if start < s@.len() {
            assert(s@.skip(start as int)[0] == chars@[start as int]);
        }
        assert(s@.subrange(start as int, s@.len() as int) =~= s@.skip(start as int));
    }
    slice_chars(&chars, start, chars.len())
}

/// The string without the trailing occurrences of `c`.
pub fn strip_trailing(s: &str, c: char) -> (r: String)
    ensures
        r@ == without_trailing(s@, c),
{
    let chars: Vec<char> = to_chars(s);
    let mut end: usize = chars.len();
    assert(s@.take(end as int) =~= s@);
    while end > 0 && chars[end - 1] == c
        invariant
            chars@ == s@,
            end <= chars@.len(),
            without_trailing(s@, c) == without_trailing(s@.take(end as int), c),
        decreases end,
    {
        proof {
            assert(s@.take(end as int).drop_last() =~= s@.take(end - 1));
        }
        end = end - 1;
    }
    proof {
        assert(s@.subrange(0, end as int) =~= s@.take(end as int));
    }
    slice_chars(&chars, 0, end)
}

/// The sequence without any occurrence of one character.
pub open spec fn without_char(s: Seq<char>, c: char) -> Seq<char>
    decreases s.len(),
{
    if s.len() == 0 {
        s
    } else if s.last() == c {
        without_char(s.drop_last(), c)
    } else {
        without_char(s.drop_last(), c).push(s.last())
    }
}

/// The string without any occurrence of `c`.
pub fn remove_char(s: &str, c: char) -> (r: String)
    ensures
        r@ == without_char(s@, c),
{
    let chars: Vec<char> = to_chars(s);
    let mut out: String = String::new();
    let mut i: usize = 0;
    while i < chars.len()
        invariant
            chars@ == s@,
            i <= chars@.len(),
            out@ == without_char(s@.take(i as int), c),
        decreases chars@.len() - i,
    {
        proof {
            assert(s@.take(i + 1).drop_last() =~= s@.take(i as int));
        }
        if chars[i] != c {
            out.push(chars[i]);
        }
        i = i + 1;
    }
    assert(s@.take(i as int) =~= s@);
    out
}

/// One string after another.
pub fn concat(a: &str, b: &str) -> (r: String)
    ensures
        r@ == a@ + b@,
{
    let mut out: String = String::from_str(a);
    out.append(b);
    out
}

/// Three strings, one after another.
pub fn concat3(a: &str, b: &str, c: &str) -> (r: String)
    ensures
        r@ == a@ + b@ + c@,
{
    let mut out: String = String::from_str(a);
    out.append(b);
    out.append(c);
    out
}

/// Four strings behind each other.
pub fn concat4(a: &str, b: &str, c: &str, d: &str) -> (r: String)
    ensures
        r@ == a@ + b@ + c@ + d@,
{
    let mut out: String = String::from_str(a);
    out.append(b);
    out.append(c);
    out.append(d);
    out
}

/// Trimming twice is the same as trimming once.
pub proof fn law_trim_is_settled(s: Seq<char>)
    ensures
        trimmed(trimmed(s)) == trimmed(s),
{
    lemma_start_shape(s);
    lemma_end_shape(trimmed_start(s));
    lemma_end_shape(s);
    lemma_start_shape(trimmed_end(s));
}

proof fn lemma_start_shape(s: Seq<char>)
    ensures
        trimmed_start(s).len() > 0 ==> !is_white_space(trimmed_start(s)[0]),
        trimmed_start(s).len() > 0 ==> trimmed_start(s).last() == s.last(),
    decreases s.len(),
{
    if s.len() > 0 && is_white_space(s[0]) {
        lemma_start_shape(s.skip(1));
    }
}

proof fn lemma_end_shape(s: Seq<char>)
    ensures
        trimmed_end(s).len() > 0 ==> !is_white_space(trimmed_end(s).last()),
        trimmed_end(s).len() > 0 ==> trimmed_end(s)[0] == s[0],
    decreases s.len(),
{
    if s.len() > 0 && is_white_space(s.last()) {
        lemma_end_shape(s.drop_last());
    }
}

/// Trimming makes a string no longer.
pub proof fn lemma_trimmed_length(s: Seq<char>)
    ensures
        trimmed(s).len() <= s.len(),
{
    lemma_trimmed_start_length(s);
    lemma_trimmed_end_length(trimmed_start(s));
    lemma_trimmed_end_length(s);
    lemma_trimmed_start_length(trimmed_end(s));
}

proof fn lemma_trimmed_start_length(s: Seq<char>)
    ensures
        trimmed_start(s).len() <= s.len(),
    decreases s.len(),
{
    if s.len() > 0 && is_white_space(s[0]) {
        lemma_trimmed_start_length(s.skip(1));
    }
}

proof fn lemma_trimmed_end_length(s: Seq<char>)
    ensures
        trimmed_end(s).len() <= s.len(),
    decreases s.len(),
{
    if s.len() > 0 && is_white_space(s.last()) {
        lemma_trimmed_end_length(s.drop_last());
    }
}

/// The characters of strings.
pub open spec fn views(strings: Seq<String>) -> Seq<Seq<char>> {
    strings.map_values(|s: String| s@)
}

/// The parts of a sequence between the occurrences of one character: one more
/// than there are occurrences.
pub open spec fn pieces(s: Seq<char>, c: char) -> Seq<Seq<char>>
    decreases s.len(),
{
    if s.len() == 0 {
        seq![Seq::empty()]
    } else {
        let earlier = pieces(s.drop_last(), c);
        if s.last() == c {
            earlier.push(Seq::empty())
        } else {
            earlier.drop_last().push(earlier.last().push(s.last()))
        }
    }
}

/// The parts of a string between the occurrences of one character.
pub fn split(s: &str, c: char) -> (r: Vec<String>)
    ensures
        views(r@) == pieces(s@, c),
        r@.len() > 0,
{
    let chars: Vec<char> = to_chars(s);
    let mut out: Vec<String> = Vec::new();
    let mut part: String = String::new();
    let mut i: usize = 0;
    proof {
        assert(s@.take(0) =~= Seq::empty());
        assert(views(out@).push(part@) =~= pieces(s@.take(0), c));
    }
    while i < chars.len()
        invariant
            chars@ == s@,
            i <= chars@.len(),
            views(out@).push(part@) == pieces(s@.take(i as int), c),
        decreases chars@.len() - i,
    {
        let ghost before = views(out@);
        let ghost earlier = views(out@).push(part@);
        proof {
            assert(s@.take(i + 1).drop_last() =~= s@.take(i as int));
            assert(s@.take(i + 1).last() == chars@[i as int]);
            assert(earlier.drop_last() =~= before);
        }
        if chars[i] == c {
            out.push(part);
            proof {
                assert(views(out@) =~= earlier);
            }
            part = String::new();
        } else {
            part.push(chars[i]);
        }
        proof {
            assert(views(out@).push(part@) =~= pieces(s@.take(i + 1), c));
        }
        i = i + 1;
    }
    let ghost before = views(out@);
    let ghost rest = part@;
    out.push(part);
    proof {
        assert(s@.take(i as int) =~= s@);
        assert(views(out@) =~= before.push(rest));
    }
    out
}

/// A line that ended in a line feed, without the carriage return before it.
pub open spec fn without_return(s: Seq<char>) -> Seq<char> {
    if s.len() > 0 && s.last() == '\r' {
        s.drop_last()
    } else {
        s
    }
}

/// The lines of a text: the last one counts only if there is anything in it.
pub open spec fn lines_of(s: Seq<char>) -> Seq<Seq<char>> {
    let parts = pieces(s, '\n');
    let whole = parts.drop_last().map_values(|line: Seq<char>| without_return(line));
    if parts.last().len() == 0 {
        whole
    } else {
        whole.push(parts.last())
    }
}

fn strip_return(s: &str) -> (r: String)
    ensures
        r@ == without_return(s@),
{
    let chars: Vec<char> = to_chars(s);
    let count: usize = chars.len();
    if count > 0 && chars[count - 1] == '\r' {
        proof {
            assert(s@.subrange(0, count - 1) =~= s@.drop_last());
        }
        slice_chars(&chars, 0, count - 1)
    } else {
        s.to_string()
    }
}

/// The lines of a text.
pub fn split_lines(s: &str) -> (r: Vec<String>)
    ensures
        views(r@) == lines_of(s@),
{
    let parts: Vec<String> = split(s, '\n');
    let ghost all = pieces(s@, '\n');
    let last: usize = parts.len() - 1;
    let mut lines: Vec<String> = Vec::new();
    let mut i: usize = 0;
    while i < last
        invariant
            last == parts@.len() - 1,
            i <= last,
            lines@.len() == i,
            views(parts@) == all,
            forall|j: int| 0 <= j < i ==> (#[trigger] lines@[j])@ == without_return(all[j]),
        decreases last - i,
    {
        proof {
            assert(all[i as int] == parts@[i as int]@);
        }
        lines.push(strip_return(parts[i].as_str()));
        i = i + 1;
    }
    proof {
        assert(all.last() == parts@[last as int]@);
        assert(views(lines@) =~= all.drop_last().map_values(
            |line: Seq<char>| without_return(line),
        ));
    }
    if !is_empty(parts[last].as_str()) {
        let ghost before = views(lines@);
        lines.push(parts[last].clone());
        proof {
            assert(views(lines@) =~= before.push(all.last()));
        }
    }
    lines
}

/// Whether every character is an ASCII one.
pub open spec fn is_ascii_text(s: Seq<char>) -> bool {
    forall|i: int| 0 <= i < s.len() ==> (#[trigger] s[i]) <= '\u{7f}'
}

/// Whether a text can be cut after so many bytes: no character straddles them.
pub open spec fn can_cut(s: Seq<char>, at: int) -> bool {
    utf8::is_char_boundary(utf8::encode_utf8(s), at)
}

/// What the bytes before a place say.
pub open spec fn bytes_before(s: Seq<char>, at: int) -> Seq<char> {
    utf8::decode_utf8(utf8::encode_utf8(s).subrange(0, at))
}

/// What the bytes from a place on say.
pub open spec fn bytes_from(s: Seq<char>, at: int) -> Seq<char> {
    utf8::decode_utf8(utf8::encode_utf8(s).subrange(at, utf8::encode_utf8(s).len() as int))
}

/// The two parts of a text that is cut after so many bytes.
pub fn cut(s: &str, at: usize) -> (r: (&str, &str))
    requires
        can_cut(s@, at as int),
    ensures
        r.0@ == bytes_before(s@, at as int),
        r.1@ == bytes_from(s@, at as int),
{
    let parts: (&str, &str) = s.split_at(at);
    proof {
        utf8::encode_utf8_decode_utf8(parts.0@);
        utf8::encode_utf8_decode_utf8(parts.1@);
    }
    parts
}

/// No character stands before the first.
proof fn lemma_least_char(c: char)
    ensures
        '\0' <= c,
{
}

/// An ASCII text has a byte for each character, so it can be cut anywhere and
/// its bytes say what its characters do.
pub proof fn law_ascii_is_cut_by_characters(s: Seq<char>, at: int)
    requires
        is_ascii_text(s),
        0 <= at <= s.len(),
    ensures
        utf8::encode_utf8(s).len() == s.len(),
        can_cut(s, at),
        bytes_before(s, at) == s.take(at),
        bytes_from(s, at) == s.skip(at),
{
    let bytes = utf8::encode_utf8(s);
    assert forall|i: int| 0 <= i < s.len() implies '\0' <= #[trigger] s[i] <= '\u{7f}' by {
        lemma_least_char(s[i]);
    }
    utf8::is_ascii_chars_encode_utf8(s);
    utf8::is_ascii_chars_encode_utf8(s.take(at));
    utf8::is_ascii_chars_encode_utf8(s.skip(at));
    utf8::encode_utf8_valid_utf8(s);
    assert(utf8::encode_utf8(s.take(at)) =~= bytes.subrange(0, at));
    assert(utf8::encode_utf8(s.skip(at)) =~= bytes.subrange(at, bytes.len() as int)) by {
        assert forall|i: int| 0 <= i < s.skip(at).len() implies utf8::encode_utf8(s.skip(at))[i]
            == bytes[at + i] by {
            assert(s.skip(at)[i] == s[at + i]);
        }
    }
    utf8::encode_utf8_decode_utf8(s.take(at));
    utf8::encode_utf8_decode_utf8(s.skip(at));
    if at < s.len() {
        assert(s[at] as u8 == bytes[at]);
        utf8::is_char_boundary_iff_is_leading_byte(bytes, at);
    } else {
        utf8::is_char_boundary_start_end_of_seq(bytes);
    }
}

/// The text of bytes, with a mark in place of what is no UTF-8.
pub uninterp spec fn lossy_text(bytes: Seq<u8>) -> Seq<char>;

/// `String::from_utf8_lossy`: the text of some bytes, which depends on the
/// bytes alone; a sequence that is no UTF-8 becomes the replacement character.
/// Bytes that are UTF-8 are their text.
#[verifier::external_body]
pub(crate) fn from_utf8_lossy(bytes: &[u8]) -> (r: String)
    ensures
        r@ == lossy_text(bytes@),
        utf8::valid_utf8(bytes@) ==> r@ == utf8::decode_utf8(bytes@),
{
    String::from_utf8_lossy(bytes).into_owned()
}

/// The lower-case form of a text.
pub uninterp spec fn lowercase_of(s: Seq<char>) -> Seq<char>;

/// `str::to_lowercase`: the text with each character in its Unicode lower-case
/// form, which depends on the text alone. Of ASCII text, only the letters `A`
/// to `Z` change, to `a` to `z`.
#[verifier::external_body]
pub(crate) fn lowercase(s: &str) -> (r: String)
    ensures
        r@ == lowercase_of(s@),
        is_ascii_text(s@) ==> r@ == ascii_lowered(s@),
{
    s.to_lowercase()
}

/// Trimming takes away white space at the ends and nothing else: what was
/// before and behind what is left is white space, and what is left neither
/// starts nor ends with it.
pub proof fn law_trim_takes_white_space_alone(s: Seq<char>)
    ensures
        exists|from: int, to: int|
            #![trigger s.subrange(from, to)]
            0 <= from <= to <= s.len() && trimmed(s) == s.subrange(from, to) && (forall|i: int|
                0 <= i < from || to <= i < s.len() ==> is_white_space(#[trigger] s[i])),
        trimmed(s).len() > 0 ==> !is_white_space(trimmed(s)[0]) && !is_white_space(
            trimmed(s).last(),
        ),
{
    let a = trimmed_start(s);
    lemma_start_is_white(s);
    lemma_end_is_white(a);
    let from: int = s.len() - a.len();
    let to: int = from + trimmed(s).len();
    assert(trimmed(s) =~= s.subrange(from, to));
    assert forall|i: int| 0 <= i < from || to <= i < s.len() implies is_white_space(
        #[trigger] s[i],
    ) by {
        if to <= i {
            assert(a[i - from] == s[i]);
        }
    }
    if trimmed(s).len() > 0 {
        assert(trimmed(s)[0] == a[0]);
    }
}

/// What is cut off the start is white space, and what is left does not start
/// with it.
proof fn lemma_start_is_white(s: Seq<char>)
    ensures
        trimmed_start(s).len() <= s.len(),
        trimmed_start(s) == s.skip(s.len() - trimmed_start(s).len()),
        forall|i: int|
            0 <= i < s.len() - trimmed_start(s).len() ==> is_white_space(#[trigger] s[i]),
        trimmed_start(s).len() > 0 ==> !is_white_space(trimmed_start(s)[0]),
    decreases s.len(),
{
    if s.len() > 0 && is_white_space(s[0]) {
        let t = s.skip(1);
        lemma_start_is_white(t);
        assert(t.skip(t.len() - trimmed_start(t).len()) =~= s.skip(
            s.len() - trimmed_start(s).len(),
        ));
        assert forall|i: int| 0 <= i < s.len() - trimmed_start(s).len() implies is_white_space(
            #[trigger] s[i],
        ) by {
            if i > 0 {
                assert(t[i - 1] == s[i]);
            }
        }
    } else {
        assert(s.skip(0) =~= s);
    }
}

/// What is cut off the end is white space, and what is left does not end with
/// it.
proof fn lemma_end_is_white(s: Seq<char>)
    ensures
        trimmed_end(s).len() <= s.len(),
        trimmed_end(s) == s.take(trimmed_end(s).len() as int),
        forall|i: int| trimmed_end(s).len() <= i < s.len() ==> is_white_space(#[trigger] s[i]),
        trimmed_end(s).len() > 0 ==> !is_white_space(trimmed_end(s).last()),
    decreases s.len(),
{
    if s.len() > 0 && is_white_space(s.last()) {
        let t = s.drop_last();
        lemma_end_is_white(t);
        assert(t.take(trimmed_end(t).len() as int) =~= s.take(trimmed_end(s).len() as int));
        assert forall|i: int| trimmed_end(s).len() <= i < s.len() implies is_white_space(
            #[trigger] s[i],
        ) by {
            if i < s.len() - 1 {
                assert(t[i] == s[i]);
            }
        }
    } else {
        assert(s.take(s.len() as int) =~= s);
    }
}

/// The order of texts goes by their first different character; a text comes
/// behind its own beginnings, and nothing comes before itself.
pub proof fn law_order_goes_by_the_first_difference(p: Seq<char>, a: Seq<char>, b: Seq<char>)
    ensures
        !is_before(p, p),
        a.len() > 0 ==> is_before(p, p + a) && !is_before(p + a, p),
        a.len() > 0 && b.len() > 0 && a[0] < b[0] ==> is_before(p + a, p + b) && !is_before(
            p + b,
            p + a,
        ),
    decreases p.len(),
{
    if p.len() > 0 {
        let q = p.skip(1);
        law_order_goes_by_the_first_difference(q, a, b);
        assert((p + a).skip(1) =~= q + a);
        assert((p + b).skip(1) =~= q + b);
        assert((p + a)[0] == p[0] && (p + b)[0] == p[0]);
    } else {
        assert(p + a =~= a);
        assert(p + b =~= b);
    }
}

/// Parts between a character hold none of it, and with one of it between them
/// they make up the text: two texts without it, joined by it, are told apart
/// again.
pub proof fn law_joined_texts_are_split(a: Seq<char>, b: Seq<char>, c: char)
    requires
        !a.contains(c),
        !b.contains(c),
    ensures
        pieces(a, c) == seq![a],
        pieces(a.push(c) + b, c) == seq![a, b],
    decreases b.len(),
{
    lemma_one_piece(a, c);
    if b.len() == 0 {
        assert(a.push(c) + b =~= a.push(c));
        assert(a.push(c).drop_last() =~= a);
        assert(b =~= Seq::<char>::empty());
        assert(a.push(c).last() == c);
        assert(pieces(a.push(c), c) == pieces(a, c).push(Seq::<char>::empty()));
        assert(seq![a].push(b) =~= seq![a, b]);
    } else {
        let d = b.drop_last();
        assert(!d.contains(c)) by {
            if d.contains(c) {
                let i = choose|i: int| 0 <= i < d.len() && d[i] == c;
                assert(b[i] == c);
            }
        }
        law_joined_texts_are_split(a, d, c);
        let s = a.push(c) + b;
        assert(s.drop_last() =~= a.push(c) + d);
        assert(s.last() == b.last());
        assert(b[b.len() - 1] == b.last());
        assert(b.last() != c);
        assert(seq![a, d].drop_last().push(d.push(b.last())) =~= seq![a, b]) by {
            assert(d.push(b.last()) =~= b);
        }
    }
}

/// A text without a character is one part.
proof fn lemma_one_piece(a: Seq<char>, c: char)
    requires
        !a.contains(c),
    ensures
        pieces(a, c) == seq![a],
    decreases a.len(),
{
    if a.len() == 0 {
        assert(a =~= Seq::<char>::empty());
    } else {
        let d = a.drop_last();
        assert(!d.contains(c)) by {
            if d.contains(c) {
                let i = choose|i: int| 0 <= i < d.len() && d[i] == c;
                assert(a[i] == c);
            }
        }
        lemma_one_piece(d, c);
        assert(a[a.len() - 1] == a.last());
        assert(d.push(a.last()) =~= a);
        assert(seq![d].drop_last().push(a) =~= seq![a]);
    }
}

/// Only the capital letters of ASCII change when a text is put in lower case,
/// and none is left.
pub proof fn law_lower_case_changes_capitals_alone(s: Seq<char>)
    ensures
        ascii_lowered(s).len() == s.len(),
        ascii_lowered(ascii_lowered(s)) == ascii_lowered(s),
        forall|i: int|
            0 <= i < s.len() ==> {
                &&& !('A' <= s[i] <= 'Z') ==> #[trigger] ascii_lowered(s)[i] == s[i]
                &&& 'A' <= s[i] <= 'Z' ==> 'a' <= ascii_lowered(s)[i] <= 'z' && ascii_lowered(
                    s,
                )[i] as u32 == s[i] as u32 + 32
            },
{
    assert forall|i: int| 0 <= i < s.len() implies ascii_lowered(ascii_lowered(s))[i]
        == ascii_lowered(s)[i] by {
        assert('A' <= s[i] <= 'Z' ==> ascii_lowered(s)[i] as u32 == s[i] as u32 + 32);
    }
    assert(ascii_lowered(ascii_lowered(s)) =~= ascii_lowered(s));
}

} // verus!
