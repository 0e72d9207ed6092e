//! Shortening a text to the width that there is for it. The widths are
//! measured elsewhere; here it is known which parts fit.

use crate::text;
use vstd::prelude::*;

verus! {

/// The first place from which on the rest of a text fits, or that behind its
/// end.
pub open spec fn tail_place(fits: Seq<bool>, from: int) -> int
    decreases fits.len() - from,
{
    if from < 0 || from >= fits.len() {
        fits.len() as int
    } else if fits[from] {
        from
    } else {
        tail_place(fits, from + 1)
    }
}

/// The end of a text behind an ellipsis, where all of it does not fit:
/// `fits[i]` tells whether the characters from `i` on fit beside the ellipsis.
pub fn elide_to_tail(s: &str, whole_fits: bool, fits: &Vec<bool>) -> (r: Option<String>)
    requires
        fits@.len() == s@.len(),
    ensures
        text::opt_view(r) == if whole_fits {
            None
        } else {
            Some("…"@ + s@.skip(tail_place(fits@, 0)))
        },
{
    if whole_fits {
        return None;
    }
    let chars: Vec<char> = text::to_chars(s);
    let mut from: usize = 0;
    while from < fits.len() && !fits[from]
        invariant
            from <= fits@.len(),
            tail_place(fits@, 0) == tail_place(fits@, from as int),
        decreases fits@.len() - from,
    {
        from = from + 1;
    }
    let rest: String = text::slice_chars(&chars, from, chars.len());
    proof {
        assert(s@.subrange(from as int, s@.len() as int) =~= s@.skip(from as int));
    }
    Some(text::concat("…", rest.as_str()))
}

/// How many characters at the front of a text fit, up to the first that does
/// not.
pub open spec fn head_count(fits: Seq<bool>, from: int) -> int
    decreases fits.len() - from,
{
    if from < 0 || from >= fits.len() {
        fits.len() as int
    } else if !fits[from] {
        from
    } else {
        head_count(fits, from + 1)
    }
}

/// The front of a text before an ellipsis, where all of it does not fit:
/// `fits[i]` tells whether the characters up to and with `i` fit beside the
/// ellipsis.
pub fn elide_to_head(s: &str, whole_fits: bool, fits: &Vec<bool>) -> (r: Option<String>)
    requires
        fits@.len() == s@.len(),
    ensures
        text::opt_view(r) == if whole_fits {
            None
        } else {
            Some(s@.take(head_count(fits@, 0)) + "…"@)
        },
{
    if whole_fits {
        return None;
    }
    let chars: Vec<char> = text::to_chars(s);
    let mut count: usize = 0;
    while count < fits.len() && fits[count]
        invariant
            count <= fits@.len(),
            head_count(fits@, 0) == head_count(fits@, count as int),
        decreases fits@.len() - count,
    {
        count = count + 1;
    }
    let front: String = text::slice_chars(&chars, 0, count);
    proof {
        assert(s@.subrange(0, count as int) =~= s@.take(count as int));
    }
    Some(text::concat(front.as_str(), "…"))
}

/// What is left at the end fits, or nothing is left.
pub proof fn law_tail_fits(fits: Seq<bool>)
    ensures
        0 <= tail_place(fits, 0) <= fits.len(),
        tail_place(fits, 0) < fits.len() ==> fits[tail_place(fits, 0)],
{
    lemma_tail_place(fits, 0);
}

proof fn lemma_tail_place(fits: Seq<bool>, from: int)
    requires
        0 <= from <= fits.len(),
    ensures
        from <= tail_place(fits, from) <= fits.len(),
        tail_place(fits, from) < fits.len() ==> fits[tail_place(fits, from)],
    decreases fits.len() - from,
{
    if from < fits.len() && !fits[from] {
        lemma_tail_place(fits, from + 1);
    }
}

/// Every front that is shorter than what is left at the front fits, and so does
/// what is left.
pub proof fn law_head_fits(fits: Seq<bool>, i: int)
    requires
        0 <= i < head_count(fits, 0),
    ensures
        i < fits.len(),
        fits[i],
{
    lemma_head_count(fits, 0, i);
}

proof fn lemma_head_count(fits: Seq<bool>, from: int, i: int)
    requires
        0 <= from <= fits.len(),
        from <= i < head_count(fits, from),
    ensures
        i < fits.len(),
        fits[i],
    decreases fits.len() - from,
{
    if from < fits.len() && fits[from] && i > from {
        lemma_head_count(fits, from + 1, i);
    }
}

/// As much as fits is left at the end: whatever begins before it does not fit.
pub proof fn law_longest_tail_is_left(fits: Seq<bool>, from: int)
    requires
        0 <= from <= fits.len(),
    ensures
        from <= tail_place(fits, from) <= fits.len(),
        forall|i: int| from <= i < tail_place(fits, from) ==> !#[trigger] fits[i],
    decreases fits.len() - from,
{
    if from < fits.len() && !fits[from] {
        law_longest_tail_is_left(fits, from + 1);
    }
}

/// As much as fits is left at the front: one character more does not fit.
pub proof fn law_longest_head_is_left(fits: Seq<bool>, from: int)
    requires
        0 <= from <= fits.len(),
    ensures
        from <= head_count(fits, from) <= fits.len(),
        head_count(fits, from) < fits.len() ==> !fits[head_count(fits, from)],
    decreases fits.len() - from,
{
    if from < fits.len() && fits[from] {
        law_longest_head_is_left(fits, from + 1);
    }
}

} // verus!
