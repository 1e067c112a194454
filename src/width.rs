use unicode_width::UnicodeWidthStr;
use vstd::prelude::*;

verus! {

/// Display width, in terminal columns, of the one-character string made of `c`.
pub uninterp spec fn char_str_width(c: char) -> nat;

/// Relies on `unicode_width::UnicodeWidthStr::width`: the column width of the
/// string holding `c` alone, which depends on `c` only.
#[verifier::external_body]
fn str_width_of_char(c: char) -> (r: usize)
    ensures
        r as nat == char_str_width(c),
{
    let s: String = c.to_string();
    UnicodeWidthStr::width(s.as_str())
}

/// Width of one character as the line editor counts it: the column width kept
/// to its low eight bits.
pub open spec fn char_width(c: char) -> nat {
    (char_str_width(c) % 256) as nat
}

/// Total width of a sequence of characters.
pub open spec fn chars_width(s: Seq<char>) -> nat
    decreases s.len(),
{
    if s.len() == 0 {
        0
    } else {
        chars_width(s.drop_last()) + char_width(s.last())
    }
}

pub proof fn lemma_chars_width_bound(s: Seq<char>)
    ensures
        chars_width(s) <= 255 * s.len(),
    decreases s.len(),
{
    if s.len() > 0 {
        lemma_chars_width_bound(s.drop_last());
    }
}

pub fn char_to_width(c: char) -> (r: u8)
    ensures
        r as nat == char_width(c),
{
    let w: usize = str_width_of_char(c);
    (w % 256) as u8
}

/// Widths add up: a prefix is never wider than the whole.
pub proof fn lemma_chars_width_prefix(s: Seq<char>, i: int)
    requires
        0 <= i <= s.len(),
    ensures
        chars_width(s.subrange(0, i)) <= chars_width(s),
    decreases s.len() - i,
{
    if i < s.len() {
        lemma_chars_width_prefix(s, i + 1);
        assert(s.subrange(0, i + 1).drop_last() =~= s.subrange(0, i));
    } else {
        assert(s.subrange(0, i) =~= s);
    }
}

/// Total display width of `chars`.
pub fn chars_to_width(chars: &Vec<char>) -> (r: u32)
    requires
        chars_width(chars@) <= u32::MAX,
    ensures
        r as nat == chars_width(chars@),
{
    let mut sum: u32 = 0;
    let mut i: usize = 0;
    while i < chars.len()
        invariant
            i <= chars@.len(),
            chars_width(chars@) <= u32::MAX,
            sum as nat == chars_width(chars@.subrange(0, i as int)),
        decreases chars@.len() - i,
    {
        proof {
            lemma_chars_width_prefix(chars@, i as int + 1);
            assert(chars@.subrange(0, i as int + 1).drop_last() =~= chars@.subrange(0, i as int));
        }
        let w: u8 = char_to_width(chars[i]);
        sum = sum + w as u32;
        i = i + 1;
    }
    proof {
        assert(chars@.subrange(0, i as int) =~= chars@);
    }
    sum
}

/// Total display width of `chars`, or `None` where it does not fit in `u32`.
pub fn checked_chars_to_width(chars: &Vec<char>) -> (r: Option<u32>)
    ensures
        r matches Some(w) ==> w as nat == chars_width(chars@),
        r is None <==> chars_width(chars@) > u32::MAX,
{
    let mut sum: u64 = 0;
    let mut i: usize = 0;
    while i < chars.len()
        invariant
            i <= chars@.len(),
            sum as nat == chars_width(chars@.subrange(0, i as int)),
            sum <= u32::MAX,
        decreases chars@.len() - i,
    {
        proof {
            assert(chars@.subrange(0, i as int + 1).drop_last() =~= chars@.subrange(0, i as int));
        }
        let w: u8 = char_to_width(chars[i]);
        sum = sum + w as u64;
        if sum > u32::MAX as u64 {
            proof {
                lemma_chars_width_prefix(chars@, i as int + 1);
            }
            return None;
        }
        i = i + 1;
    }
    proof {
        assert(chars@.subrange(0, i as int) =~= chars@);
    }
    Some(sum as u32)
}

} // verus!
