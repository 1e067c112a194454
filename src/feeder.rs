use vstd::prelude::*;

verus! {

/// A cursor over one line of input text.
pub struct Feeder {
    pub chars: Vec<char>,
    pub pos: usize,
}

impl Feeder {
    pub open spec fn wf(&self) -> bool {
        self.pos <= self.chars@.len()
    }

    pub fn new(chars: Vec<char>) -> (r: Feeder)
        ensures
            r.chars@ == chars@,
            r.pos == 0,
            r.wf(),
    {
        Feeder { chars, pos: 0 }
    }

    /// The input that is still to be read.
    pub fn remaining(&self) -> (r: Vec<char>)
        requires
            self.wf(),
        ensures
            r@ == self.chars@.subrange(self.pos as int, self.chars@.len() as int),
    {
        copy_range(&self.chars, self.pos, self.chars.len())
    }
}

pub open spec fn is_blank(c: char) -> bool {
    c == ' ' || c == '\t'
}

/// Characters that may stand in a word: all but blanks, separators and operators.
pub open spec fn is_word_char(c: char) -> bool {
    !(c == ' ' || c == '\t' || c == '\n' || c == ';' || c == '(' || c == ')' || c == '|'
        || c == '&')
}

/// Position of the first character at or after `i` that is not a blank.
pub open spec fn skip_blanks(s: Seq<char>, i: int) -> int
    decreases s.len() - i,
{
    if 0 <= i < s.len() && is_blank(s[i]) {
        skip_blanks(s, i + 1)
    } else {
        i
    }
}

/// Position just after the run of word characters that starts at `i`.
pub open spec fn word_end(s: Seq<char>, i: int) -> int
    decreases s.len() - i,
{
    if 0 <= i < s.len() && is_word_char(s[i]) {
        word_end(s, i + 1)
    } else {
        i
    }
}

/// The word that follows position `i` after blanks; empty where none does.
pub open spec fn leading_word(s: Seq<char>, i: int) -> Seq<char> {
    s.subrange(skip_blanks(s, i), word_end(s, skip_blanks(s, i)))
}

pub proof fn lemma_skip_blanks_range(s: Seq<char>, i: int)
    requires
        0 <= i <= s.len(),
    ensures
        i <= skip_blanks(s, i) <= s.len(),
    decreases s.len() - i,
{
    if i < s.len() && is_blank(s[i]) {
        lemma_skip_blanks_range(s, i + 1);
    }
}

pub proof fn lemma_word_end_range(s: Seq<char>, i: int)
    requires
        0 <= i <= s.len(),
    ensures
        i <= word_end(s, i) <= s.len(),
    decreases s.len() - i,
{
    if i < s.len() && is_word_char(s[i]) {
        lemma_word_end_range(s, i + 1);
    }
}

pub open spec fn spec_kw_if() -> Seq<char> {
    seq!['i', 'f']
}

pub fn kw_if() -> (r: [char; 2])
    ensures
        r@ == spec_kw_if(),
{
    let r: [char; 2] = ['i', 'f'];
    assert(r@ =~= spec_kw_if());
    r
}

pub open spec fn spec_kw_then() -> Seq<char> {
    seq!['t', 'h', 'e', 'n']
}

pub fn kw_then() -> (r: [char; 4])
    ensures
        r@ == spec_kw_then(),
{
    let r: [char; 4] = ['t', 'h', 'e', 'n'];
    assert(r@ =~= spec_kw_then());
    r
}

pub open spec fn spec_kw_elif() -> Seq<char> {
    seq!['e', 'l', 'i', 'f']
}

pub fn kw_elif() -> (r: [char; 4])
    ensures
        r@ == spec_kw_elif(),
{
    let r: [char; 4] = ['e', 'l', 'i', 'f'];
    assert(r@ =~= spec_kw_elif());
    r
}

pub open spec fn spec_kw_else() -> Seq<char> {
    seq!['e', 'l', 's', 'e']
}

pub fn kw_else() -> (r: [char; 4])
    ensures
        r@ == spec_kw_else(),
{
    let r: [char; 4] = ['e', 'l', 's', 'e'];
    assert(r@ =~= spec_kw_else());
    r
}

pub open spec fn spec_kw_fi() -> Seq<char> {
    seq!['f', 'i']
}

pub fn kw_fi() -> (r: [char; 2])
    ensures
        r@ == spec_kw_fi(),
{
    let r: [char; 2] = ['f', 'i'];
    assert(r@ =~= spec_kw_fi());
    r
}

pub open spec fn spec_kw_while() -> Seq<char> {
    seq!['w', 'h', 'i', 'l', 'e']
}

pub fn kw_while() -> (r: [char; 5])
    ensures
        r@ == spec_kw_while(),
{
    let r: [char; 5] = ['w', 'h', 'i', 'l', 'e'];
    assert(r@ =~= spec_kw_while());
    r
}

pub open spec fn spec_kw_do() -> Seq<char> {
    seq!['d', 'o']
}

pub fn kw_do() -> (r: [char; 2])
    ensures
        r@ == spec_kw_do(),
{
    let r: [char; 2] = ['d', 'o'];
    assert(r@ =~= spec_kw_do());
    r
}

pub open spec fn spec_kw_done() -> Seq<char> {
    seq!['d', 'o', 'n', 'e']
}

pub fn kw_done() -> (r: [char; 4])
    ensures
        r@ == spec_kw_done(),
{
    let r: [char; 4] = ['d', 'o', 'n', 'e'];
    assert(r@ =~= spec_kw_done());
    r
}

pub open spec fn spec_kw_case() -> Seq<char> {
    seq!['c', 'a', 's', 'e']
}

pub fn kw_case() -> (r: [char; 4])
    ensures
        r@ == spec_kw_case(),
{
    let r: [char; 4] = ['c', 'a', 's', 'e'];
    assert(r@ =~= spec_kw_case());
    r
}

pub open spec fn spec_kw_esac() -> Seq<char> {
    seq!['e', 's', 'a', 'c']
}

pub fn kw_esac() -> (r: [char; 4])
    ensures
        r@ == spec_kw_esac(),
{
    let r: [char; 4] = ['e', 's', 'a', 'c'];
    assert(r@ =~= spec_kw_esac());
    r
}

pub open spec fn spec_kw_in() -> Seq<char> {
    seq!['i', 'n']
}

pub fn kw_in() -> (r: [char; 2])
    ensures
        r@ == spec_kw_in(),
{
    let r: [char; 2] = ['i', 'n'];
    assert(r@ =~= spec_kw_in());
    r
}

pub open spec fn spec_kw_lbrace() -> Seq<char> {
    seq!['{']
}

pub fn kw_lbrace() -> (r: [char; 1])
    ensures
        r@ == spec_kw_lbrace(),
{
    let r: [char; 1] = ['{'];
    assert(r@ =~= spec_kw_lbrace());
    r
}

pub open spec fn spec_kw_rbrace() -> Seq<char> {
    seq!['}']
}

pub fn kw_rbrace() -> (r: [char; 1])
    ensures
        r@ == spec_kw_rbrace(),
{
    let r: [char; 1] = ['}'];
    assert(r@ =~= spec_kw_rbrace());
    r
}

/// Words that open or close a compound command and cannot start a simple one.
pub open spec fn is_reserved(w: Seq<char>) -> bool {
    w == spec_kw_if()
        || w == spec_kw_then()
        || w == spec_kw_elif()
        || w == spec_kw_else()
        || w == spec_kw_fi()
        || w == spec_kw_while()
        || w == spec_kw_do()
        || w == spec_kw_done()
        || w == spec_kw_case()
        || w == spec_kw_esac()
        || w == spec_kw_in()
        || w == spec_kw_lbrace()
        || w == spec_kw_rbrace()
}

pub fn copy_range(chars: &Vec<char>, a: usize, b: usize) -> (r: Vec<char>)
    requires
        a <= b <= chars@.len(),
    ensures
        r@ == chars@.subrange(a as int, b as int),
{
    let mut r: Vec<char> = Vec::new();
    let mut i: usize = a;
    while i < b
        invariant
            a <= i <= b <= chars@.len(),
            r@ == chars@.subrange(a as int, i as int),
        decreases b - i,
    {
        r.push(chars[i]);
        i = i + 1;
    }
    r
}

pub fn blank(c: char) -> (r: bool)
    ensures
        r == is_blank(c),
{
    c == ' ' || c == '\t'
}

pub fn word_char(c: char) -> (r: bool)
    ensures
        r == is_word_char(c),
{
    !(c == ' ' || c == '\t' || c == '\n' || c == ';' || c == '(' || c == ')' || c == '|' || c
        == '&')
}

pub fn skip_blanks_at(chars: &Vec<char>, pos: usize) -> (r: usize)
    requires
        pos <= chars@.len(),
    ensures
        r as int == skip_blanks(chars@, pos as int),
        pos <= r <= chars@.len(),
{
    let mut i: usize = pos;
    while i < chars.len() && blank(chars[i])
        invariant
            pos <= i <= chars@.len(),
            skip_blanks(chars@, i as int) == skip_blanks(chars@, pos as int),
        decreases chars@.len() - i,
    {
        i = i + 1;
    }
    i
}

pub fn word_end_at(chars: &Vec<char>, pos: usize) -> (r: usize)
    requires
        pos <= chars@.len(),
    ensures
        r as int == word_end(chars@, pos as int),
        pos <= r <= chars@.len(),
{
    let mut i: usize = pos;
    while i < chars.len() && word_char(chars[i])
        invariant
            pos <= i <= chars@.len(),
            word_end(chars@, i as int) == word_end(chars@, pos as int),
        decreases chars@.len() - i,
    {
        i = i + 1;
    }
    i
}

/// Whether `chars[a..b]` spells `kw`.
pub fn range_is(chars: &Vec<char>, a: usize, b: usize, kw: &[char]) -> (r: bool)
    requires
        a <= b <= chars@.len(),
    ensures
        r == (chars@.subrange(a as int, b as int) == kw@),
{
    if b - a != kw.len() {
        return false;
    }
    let mut i: usize = 0;
    while i < kw.len()
        invariant
            b - a == kw@.len(),
            a <= b <= chars@.len(),
            i <= kw@.len(),
            forall|j: int| 0 <= j < i ==> chars@[a + j] == kw@[j],
        decreases kw@.len() - i,
    {
        if chars[a + i] != kw[i] {
            assert(chars@.subrange(a as int, b as int)[i as int] != kw@[i as int]);
            return false;
        }
        i = i + 1;
    }
    assert(chars@.subrange(a as int, b as int) =~= kw@);
    true
}

/// Reads the word after blanks at `pos` and, where it spells `kw`, gives the
/// position just after it.
pub fn expect_keyword(chars: &Vec<char>, pos: usize, kw: &[char]) -> (r: Option<usize>)
    requires
        pos <= chars@.len(),
        kw@.len() > 0,
    ensures
        r is Some ==> pos < r->0,
        r is Some <==> leading_word(chars@, pos as int) == kw@,
        r is Some ==> r->0 as int == word_end(chars@, skip_blanks(chars@, pos as int)),
        r is Some ==> pos <= r->0 <= chars@.len(),
{
    let s = skip_blanks_at(chars, pos);
    let e = word_end_at(chars, s);
    proof {
        lemma_word_end_range(chars@, s as int);
    }
    if range_is(chars, s, e, kw) {
        Some(e)
    } else {
        None
    }
}

/// Whether the word after blanks at `pos` is a reserved word.
pub fn reserved_at(chars: &Vec<char>, pos: usize) -> (r: bool)
    requires
        pos <= chars@.len(),
    ensures
        r == is_reserved(leading_word(chars@, pos as int)),
{
    let s = skip_blanks_at(chars, pos);
    let e = word_end_at(chars, s);
    range_is(chars, s, e, &kw_if())
        || range_is(chars, s, e, &kw_then())
        || range_is(chars, s, e, &kw_elif())
        || range_is(chars, s, e, &kw_else())
        || range_is(chars, s, e, &kw_fi())
        || range_is(chars, s, e, &kw_while())
        || range_is(chars, s, e, &kw_do())
        || range_is(chars, s, e, &kw_done())
        || range_is(chars, s, e, &kw_case())
        || range_is(chars, s, e, &kw_esac())
        || range_is(chars, s, e, &kw_in())
        || range_is(chars, s, e, &kw_lbrace())
        || range_is(chars, s, e, &kw_rbrace())
}

} // verus!
