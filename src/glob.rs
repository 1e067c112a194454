use vstd::prelude::*;

verus! {

/// Shell pattern matching: `*` matches any run of characters, `?` any one
/// character, every other character itself.
pub open spec fn glob_matches(p: Seq<char>, s: Seq<char>) -> bool
    decreases p.len() + s.len(),
{
    if p.len() == 0 {
        s.len() == 0
    } else if p[0] == '*' {
        glob_matches(p.drop_first(), s) || (s.len() > 0 && glob_matches(p, s.drop_first()))
    } else {
        s.len() > 0 && (p[0] == '?' || p[0] == s[0]) && glob_matches(p.drop_first(), s.drop_first())
    }
}

fn glob_from(p: &Vec<char>, i: usize, s: &Vec<char>, j: usize) -> (r: bool)
    requires
        i <= p@.len(),
        j <= s@.len(),
    ensures
        r == glob_matches(
            p@.subrange(i as int, p@.len() as int),
            s@.subrange(j as int, s@.len() as int),
        ),
    decreases (p@.len() - i) + (s@.len() - j),
{
    let ghost ps = p@.subrange(i as int, p@.len() as int);
    let ghost ss = s@.subrange(j as int, s@.len() as int);
    if i == p.len() {
        return j == s.len();
    }
    proof {
        assert(ps.drop_first() =~= p@.subrange(i + 1, p@.len() as int));
        if j < s@.len() {
            assert(ss.drop_first() =~= s@.subrange(j + 1, s@.len() as int));
        }
    }
    if p[i] == '*' {
        if glob_from(p, i + 1, s, j) {
            true
        } else {
            j < s.len() && glob_from(p, i, s, j + 1)
        }
    } else {
        j < s.len() && (p[i] == '?' || p[i] == s[j]) && glob_from(p, i + 1, s, j + 1)
    }
}

/// Whether `subject` matches `pattern`.
pub fn glob_match(pattern: &Vec<char>, subject: &Vec<char>) -> (r: bool)
    ensures
        r == glob_matches(pattern@, subject@),
{
    let r = glob_from(pattern, 0, subject, 0);
    proof {
        assert(pattern@.subrange(0, pattern@.len() as int) =~= pattern@);
        assert(subject@.subrange(0, subject@.len() as int) =~= subject@);
    }
    r
}

} // verus!
