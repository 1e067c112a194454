use crate::command::{Command, CommandKind};
use crate::feeder::copy_range;
use vstd::prelude::*;

verus! {

/// The state that commands of one line share: variables and functions,
/// newest binding last, and the status of the last command.
pub struct ShellCore {
    pub vars: Vec<(Vec<char>, Vec<char>)>,
    pub functions: Vec<(Vec<char>, Vec<char>)>,
    pub status: i32,
}

/// How the first word of a simple command is run.
pub enum Resolution {
    /// A command of the shell itself.
    Builtin,
    /// A function defined earlier, with the text of its body.
    Function(Vec<char>),
    /// A program looked up on the search path.
    External,
}

/// The value bound to `name` in a table: its newest binding.
pub open spec fn lookup(vars: Seq<(Vec<char>, Vec<char>)>, name: Seq<char>) -> Option<Seq<char>>
    decreases vars.len(),
{
    if vars.len() == 0 {
        None
    } else if vars.last().0@ == name {
        Some(vars.last().1@)
    } else {
        lookup(vars.drop_last(), name)
    }
}

/// The commands that the shell runs itself.
pub open spec fn is_builtin(w: Seq<char>) -> bool {
    w == seq!['c', 'd'] || w == seq!['e', 'x', 'i', 't']
}

pub fn builtin(w: &Vec<char>) -> (r: bool)
    ensures
        r == is_builtin(w@),
{
    let cd: [char; 2] = ['c', 'd'];
    let exit: [char; 4] = ['e', 'x', 'i', 't'];
    proof {
        assert(cd@ =~= seq!['c', 'd']);
        assert(exit@ =~= seq!['e', 'x', 'i', 't']);
        assert(w@.subrange(0, w@.len() as int) =~= w@);
    }
    crate::feeder::range_is(w, 0, w.len(), &cd) || crate::feeder::range_is(w, 0, w.len(), &exit)
}

/// Adds a binding to a table.
fn bind(t: &mut Vec<(Vec<char>, Vec<char>)>, name: Vec<char>, value: Vec<char>)
    ensures
        lookup(final(t)@, name@) == Some(value@),
        forall|n: Seq<char>| n != name@ ==> #[trigger] lookup(final(t)@, n) == lookup(old(t)@, n),
{
    t.push((name, value));
    proof {
        assert(t@.drop_last() =~= old(t)@);
    }
}

/// The newest binding of `name` in a table.
fn find(t: &Vec<(Vec<char>, Vec<char>)>, name: &Vec<char>) -> (r: Option<Vec<char>>)
    ensures
        r matches Some(v) ==> lookup(t@, name@) == Some(v@),
        r is None ==> lookup(t@, name@) is None,
{
    let mut i: usize = t.len();
    proof {
        assert(t@.subrange(0, i as int) =~= t@);
    }
    while i > 0
        invariant
            i <= t@.len(),
            lookup(t@, name@) == lookup(t@.subrange(0, i as int), name@),
        decreases i,
    {
        let ghost pre = t@.subrange(0, i as int);
        proof {
            assert(pre.drop_last() =~= t@.subrange(0, i - 1));
        }
        let (n, v) = (&t[i - 1].0, &t[i - 1].1);
        if vec_eq(n, name) {
            return Some(copy_range(v, 0, v.len()));
        }
        i = i - 1;
    }
    None
}

/// A copy of a table that binds every name as the table does.
fn copy_table(t: &Vec<(Vec<char>, Vec<char>)>) -> (r: Vec<(Vec<char>, Vec<char>)>)
    ensures
        forall|n: Seq<char>| #[trigger] lookup(r@, n) == lookup(t@, n),
{
    let mut r: Vec<(Vec<char>, Vec<char>)> = Vec::new();
    let mut i: usize = 0;
    while i < t.len()
        invariant
            i <= t@.len(),
            r@.len() == i,
            forall|j: int|
                0 <= j < i ==> (#[trigger] r@[j]).0@ == t@[j].0@ && r@[j].1@ == t@[j].1@,
        decreases t@.len() - i,
    {
        let n = copy_range(&t[i].0, 0, t[i].0.len());
        let v = copy_range(&t[i].1, 0, t[i].1.len());
        r.push((n, v));
        i = i + 1;
    }
    proof {
        assert forall|n: Seq<char>| #[trigger] lookup(r@, n) == lookup(t@, n) by {
            lemma_lookup_same(r@, t@, n);
        }
    }
    r
}

impl ShellCore {
    pub fn new() -> (r: ShellCore)
        ensures
            r.vars@.len() == 0,
            r.functions@.len() == 0,
            r.status == 0,
    {
        ShellCore { vars: Vec::new(), functions: Vec::new(), status: 0 }
    }

    pub open spec fn var(&self, name: Seq<char>) -> Option<Seq<char>> {
        lookup(self.vars@, name)
    }

    pub open spec fn function(&self, name: Seq<char>) -> Option<Seq<char>> {
        lookup(self.functions@, name)
    }

    /// Binds `name` to `value`.
    pub fn set_var(&mut self, name: Vec<char>, value: Vec<char>)
        ensures
            final(self).var(name@) == Some(value@),
            forall|n: Seq<char>| n != name@ ==> #[trigger] final(self).var(n) == old(self).var(n),
            forall|n: Seq<char>| #[trigger] final(self).function(n) == old(self).function(n),
            final(self).status == old(self).status,
    {
        bind(&mut self.vars, name, value);
    }

    /// The value bound to `name`, if any.
    pub fn get_var(&self, name: &Vec<char>) -> (r: Option<Vec<char>>)
        ensures
            r matches Some(v) ==> self.var(name@) == Some(v@),
            r is None ==> self.var(name@) is None,
    {
        find(&self.vars, name)
    }

    /// Defines function `name` with the text of its body.
    pub fn set_function(&mut self, name: Vec<char>, body: Vec<char>)
        ensures
            final(self).function(name@) == Some(body@),
            forall|n: Seq<char>|
                n != name@ ==> #[trigger] final(self).function(n) == old(self).function(n),
            forall|n: Seq<char>| #[trigger] final(self).var(n) == old(self).var(n),
            final(self).status == old(self).status,
    {
        bind(&mut self.functions, name, body);
    }

    /// The body of function `name`, if one is defined.
    pub fn get_function(&self, name: &Vec<char>) -> (r: Option<Vec<char>>)
        ensures
            r matches Some(v) ==> self.function(name@) == Some(v@),
            r is None ==> self.function(name@) is None,
    {
        find(&self.functions, name)
    }

    /// How a simple command whose first word is `word` runs: a built-in
    /// first, then a function, then a program on the search path.
    pub fn resolve(&self, word: &Vec<char>) -> (r: Resolution)
        ensures
            is_builtin(word@) ==> r is Builtin,
            !is_builtin(word@) && self.function(word@) is Some ==> (r matches Resolution::Function(
                b,
            ) && self.function(word@) == Some(b@)),
            !is_builtin(word@) && self.function(word@) is None ==> r is External,
    {
        if builtin(word) {
            return Resolution::Builtin;
        }
        match self.get_function(word) {
            Some(b) => Resolution::Function(b),
            None => Resolution::External,
        }
    }

    /// A copy of the whole state, as a forked child starts with.
    pub fn duplicate(&self) -> (r: ShellCore)
        ensures
            r.status == self.status,
            forall|n: Seq<char>| #[trigger] r.var(n) == self.var(n),
            forall|n: Seq<char>| #[trigger] r.function(n) == self.function(n),
    {
        ShellCore {
            vars: copy_table(&self.vars),
            functions: copy_table(&self.functions),
            status: self.status,
        }
    }
}

proof fn lemma_lookup_same(a: Seq<(Vec<char>, Vec<char>)>, b: Seq<(Vec<char>, Vec<char>)>, n: Seq<char>)
    requires
        a.len() == b.len(),
        forall|j: int| 0 <= j < a.len() ==> (#[trigger] a[j]).0@ == b[j].0@ && a[j].1@ == b[j].1@,
    ensures
        lookup(a, n) == lookup(b, n),
    decreases a.len(),
{
    if a.len() > 0 {
        assert(a[a.len() - 1].0@ == b[b.len() - 1].0@);
        lemma_lookup_same(a.drop_last(), b.drop_last(), n);
    }
}

pub open spec fn is_name_char(c: char) -> bool {
    ('a' <= c && c <= 'z') || ('A' <= c && c <= 'Z') || ('0' <= c && c <= '9') || c == '_'
}

/// `w` is an assignment whose `=` stands at `k`: a name before it, of
/// letters, digits and `_`, not starting with a digit.
pub open spec fn is_assignment_at(w: Seq<char>, k: int) -> bool {
    0 < k < w.len() && w[k] == '=' && !('0' <= w[0] && w[0] <= '9') && forall|j: int|
        0 <= j < k ==> is_name_char(#[trigger] w[j])
}

fn name_char(c: char) -> (r: bool)
    ensures
        r == is_name_char(c),
{
    ('a' <= c && c <= 'z') || ('A' <= c && c <= 'Z') || ('0' <= c && c <= '9') || c == '_'
}

/// Splits an assignment word `NAME=VALUE` into its name and value.
pub fn split_assignment(w: &Vec<char>) -> (r: Option<(Vec<char>, Vec<char>)>)
    ensures
        r matches Some((n, v)) ==> exists|k: int|
            is_assignment_at(w@, k) && n@ == w@.subrange(0, k) && v@ == w@.subrange(
                k + 1,
                w@.len() as int,
            ),
        r is None ==> forall|k: int| !is_assignment_at(w@, k),
{
    if w.len() == 0 || ('0' <= w[0] && w[0] <= '9') {
        return None;
    }
    let mut k: usize = 0;
    while k < w.len() && name_char(w[k])
        invariant
            k <= w@.len(),
            forall|j: int| 0 <= j < k ==> is_name_char(#[trigger] w@[j]),
        decreases w@.len() - k,
    {
        k = k + 1;
    }
    if k == 0 || k == w.len() || w[k] != '=' {
        proof {
            assert forall|m: int| !is_assignment_at(w@, m) by {
                if is_assignment_at(w@, m) {
                    if m < k {
                        assert(is_name_char(w@[m]));
                    } else if m > k {
                        assert(is_name_char(w@[k as int]));
                    }
                }
            }
        }
        return None;
    }
    let n = copy_range(w, 0, k);
    let v = copy_range(w, k + 1, w.len());
    proof {
        assert(is_assignment_at(w@, k as int));
    }
    Some((n, v))
}

/// Whether two character vectors hold the same characters.
pub fn vec_eq(a: &Vec<char>, b: &Vec<char>) -> (r: bool)
    ensures
        r == (a@ == b@),
{
    if a.len() != b.len() {
        return false;
    }
    let mut i: usize = 0;
    while i < a.len()
        invariant
            a@.len() == b@.len(),
            i <= a@.len(),
            forall|j: int| 0 <= j < i ==> a@[j] == b@[j],
        decreases a@.len() - i,
    {
        if a[i] != b[i] {
            return false;
        }
        i = i + 1;
    }
    assert(a@ =~= b@);
    true
}

/// Whether a group runs its commands in a forked copy of the state.
pub open spec fn isolates(cmd: Command) -> bool {
    cmd.kind is Paren
}

/// An assignment made by a command of a group. A subshell runs in a copy of
/// the state that its process owns, so the caller's state does not change; a
/// brace group runs in the caller's state, which then holds the binding.
pub fn assign_in_group(group: &Command, core: &mut ShellCore, name: Vec<char>, value: Vec<char>)
    requires
        group.kind is Paren || group.kind is Brace,
    ensures
        isolates(*group) ==> forall|n: Seq<char>| #[trigger] final(core).var(n) == old(core).var(n),
        isolates(*group) ==> final(core).status == old(core).status,
        forall|n: Seq<char>| #[trigger] final(core).function(n) == old(core).function(n),
        !isolates(*group) ==> final(core).var(name@) == Some(value@),
        !isolates(*group) ==> forall|n: Seq<char>|
            n != name@ ==> #[trigger] final(core).var(n) == old(core).var(n),
{
    match &group.kind {
        CommandKind::Paren { .. } => {
            let mut child = core.duplicate();
            child.set_var(name, value);
        },
        _ => {
            core.set_var(name, value);
        },
    }
}

} // verus!
