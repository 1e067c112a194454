use crate::feeder::{
    blank, copy_range, expect_keyword, is_reserved, kw_fi, kw_elif, kw_else, kw_if, kw_then,
    kw_while, kw_do, kw_done, kw_case, kw_in, kw_esac, kw_lbrace, kw_rbrace, leading_word,
    lemma_skip_blanks_range, reserved_at, skip_blanks, skip_blanks_at,
    spec_kw_case, spec_kw_do, spec_kw_done, spec_kw_elif, spec_kw_else, spec_kw_esac, spec_kw_fi,
    spec_kw_if, spec_kw_in, spec_kw_lbrace, spec_kw_rbrace, spec_kw_then, spec_kw_while, word_end, word_end_at, Feeder,
};
use vstd::prelude::*;

verus! {

/// One arm of a case statement: its patterns and the commands it runs.
pub struct CaseArm {
    pub patterns: Vec<Vec<char>>,
    pub body: Vec<Command>,
}

/// What a command node is, with the children of each compound form.
pub enum CommandKind {
    Simple { args: Vec<Vec<char>> },
    If { conds: Vec<Vec<Command>>, bodies: Vec<Vec<Command>>, else_body: Option<Vec<Command>> },
    While { cond: Vec<Command>, body: Vec<Command> },
    Case { subject: Vec<char>, arms: Vec<CaseArm> },
    Paren { children: Vec<Command> },
    DoubleParen { expr: Vec<char> },
    Brace { children: Vec<Command> },
    FunctionDefinition { name: Vec<char>, definition: Box<Command> },
}

/// A node of the command tree: the text it was read from, its variant, and its
/// place in a pipeline (`-1` for a descriptor that is not there).
pub struct Command {
    pub text: Vec<char>,
    pub kind: CommandKind,
    pub pipe_in: i32,
    pub pipe_out: i32,
    pub pipe_prev: i32,
    pub group_leader: bool,
    pub pid: Option<i32>,
}

/// What `exec` does with a node: run its body here, or fork a child for it.
#[derive(PartialEq, Eq, Structural, Debug, Clone, Copy)]
pub enum ExecStep {
    InProcess,
    Fork,
}

impl Command {
    pub open spec fn spec_no_connection(&self) -> bool {
        !(self.kind is Paren) && self.pipe_in == -1 && self.pipe_out == -1
    }

    /// True where the node runs in the current process: it is not a subshell
    /// and no pipe is attached to it.
    pub fn no_connection(&self) -> (r: bool)
        ensures
            r == self.spec_no_connection(),
    {
        let subshell = match &self.kind {
            CommandKind::Paren { .. } => true,
            _ => false,
        };
        !subshell && self.pipe_in == -1 && self.pipe_out == -1
    }

    /// The first decision of `exec`: an unconnected node runs in place, any
    /// other one is forked.
    pub fn exec_step(&self) -> (r: ExecStep)
        ensures
            r is InProcess <==> self.spec_no_connection(),
            r is Fork <==> !self.spec_no_connection(),
    {
        if self.no_connection() {
            ExecStep::InProcess
        } else {
            ExecStep::Fork
        }
    }

    /// Places the node in a pipeline's chain of descriptors.
    pub fn set_pipe(&mut self, pin: i32, pout: i32, pprev: i32)
        ensures
            final(self).pipe_in == pin,
            final(self).pipe_out == pout,
            final(self).pipe_prev == pprev,
            final(self).kind == old(self).kind,
            final(self).text@ == old(self).text@,
            final(self).group_leader == old(self).group_leader,
            final(self).pid == old(self).pid,
    {
        self.pipe_in = pin;
        self.pipe_out = pout;
        self.pipe_prev = pprev;
    }

    pub fn set_group_leader(&mut self)
        ensures
            final(self).group_leader,
            final(self).kind == old(self).kind,
            final(self).text@ == old(self).text@,
            final(self).pipe_in == old(self).pipe_in,
            final(self).pipe_out == old(self).pipe_out,
            final(self).pipe_prev == old(self).pipe_prev,
            final(self).pid == old(self).pid,
    {
        self.group_leader = true;
    }

    /// Records the process id of the child forked for this node.
    pub fn set_pid(&mut self, pid: i32)
        ensures
            final(self).pid == Some(pid),
            final(self).kind == old(self).kind,
            final(self).text@ == old(self).text@,
            final(self).pipe_in == old(self).pipe_in,
            final(self).pipe_out == old(self).pipe_out,
            final(self).pipe_prev == old(self).pipe_prev,
            final(self).group_leader == old(self).group_leader,
    {
        self.pid = Some(pid);
    }

    pub fn get_pid(&self) -> (r: Option<i32>)
        ensures
            r == self.pid,
    {
        self.pid
    }

    pub fn get_pipe_end(&self) -> (r: i32)
        ensures
            r == self.pipe_in,
    {
        self.pipe_in
    }

    pub fn get_pipe_out(&self) -> (r: i32)
        ensures
            r == self.pipe_out,
    {
        self.pipe_out
    }

    pub fn get_text(&self) -> (r: Vec<char>)
        ensures
            r@ == self.text@,
    {
        copy_range(&self.text, 0, self.text.len())
    }
}

/// A simple command that no pipe joins runs in the shell's own process:
/// `no_connection` holds of it and `exec` forks no child for it. Every node
/// that `parse` returns is such an unconnected node.
pub proof fn lemma_simple_runs_in_process(c: Command)
    requires
        c.kind is Simple,
        c.pipe_in == -1,
        c.pipe_out == -1,
    ensures
        c.spec_no_connection(),
{
}

/// Builds an unconnected node whose text is `chars[a..b]`.
fn node(chars: &Vec<char>, a: usize, b: usize, kind: CommandKind) -> (r: Command)
    requires
        a <= b <= chars@.len(),
    ensures
        r.text@ == chars@.subrange(a as int, b as int),
        r.kind == kind,
        r.pipe_in == -1 && r.pipe_out == -1 && r.pipe_prev == -1,
        !r.group_leader,
        r.pid is None,
{
    Command {
        text: copy_range(chars, a, b),
        kind,
        pipe_in: -1,
        pipe_out: -1,
        pipe_prev: -1,
        group_leader: false,
        pid: None,
    }
}

/// Reads the word after blanks at `pos`.
pub fn parse_word(chars: &Vec<char>, pos: usize) -> (r: Option<(Vec<char>, usize)>)
    requires
        pos <= chars@.len(),
    ensures
        r is Some <==> leading_word(chars@, pos as int).len() > 0,
        r matches Some((c, q)) ==> c@ == leading_word(chars@, pos as int),
        r matches Some((c, q)) ==> q as int == word_end(chars@, skip_blanks(chars@, pos as int)),
        r matches Some((c, q)) ==> pos < q <= chars@.len(),
{
    let s = skip_blanks_at(chars, pos);
    let e = word_end_at(chars, s);
    if e == s {
        None
    } else {
        Some((copy_range(chars, s, e), e))
    }
}

/// The words that follow position `i`, each after its blanks, up to the
/// first place where no word follows.
pub open spec fn words_from(s: Seq<char>, i: int) -> Seq<Seq<char>>
    decreases s.len() - i,
{
    let e = word_end(s, skip_blanks(s, i));
    if leading_word(s, i).len() == 0 || e <= i || e > s.len() {
        Seq::empty()
    } else {
        seq![leading_word(s, i)] + words_from(s, e)
    }
}

/// The position just after the words that `words_from` reads.
pub open spec fn words_end(s: Seq<char>, i: int) -> int
    decreases s.len() - i,
{
    let e = word_end(s, skip_blanks(s, i));
    if leading_word(s, i).len() == 0 || e <= i || e > s.len() {
        i
    } else {
        words_end(s, e)
    }
}

/// A position that the separators between commands skip: a blank, a newline,
/// or a `;` that does not begin `;;`.
pub open spec fn is_separator_at(s: Seq<char>, j: int) -> bool {
    0 <= j < s.len() && (s[j] == ' ' || s[j] == '\t' || s[j] == '\n' || (s[j] == ';' && !(j + 1
        < s.len() && s[j + 1] == ';')))
}

/// Position after the separators at `i`.
pub open spec fn sep_end(s: Seq<char>, i: int) -> int
    decreases s.len() - i,
{
    if 0 <= i && is_separator_at(s, i) {
        sep_end(s, i + 1)
    } else {
        i
    }
}

/// End of keyword `kw` read after blanks at `i`, where it stands there.
pub open spec fn kw_end(s: Seq<char>, i: int, kw: Seq<char>) -> Option<int> {
    if leading_word(s, i) == kw {
        Some(word_end(s, skip_blanks(s, i)))
    } else {
        None
    }
}

/// Position after `c` read after blanks at `i`, where it stands there.
pub open spec fn char_end(s: Seq<char>, i: int, c: char) -> Option<int> {
    if skip_blanks(s, i) < s.len() && s[skip_blanks(s, i)] == c {
        Some(skip_blanks(s, i) + 1)
    } else {
        None
    }
}

/// Whether position `i` lies in the text.
pub open spec fn inside(s: Seq<char>, i: int) -> bool {
    0 <= i <= s.len()
}

/// Where a list of commands starting at `i` ends.
pub open spec fn list_end(s: Seq<char>, i: int) -> int
    decreases s.len() - i, 5int,
{
    let p = sep_end(s, i);
    if !inside(s, i) || p < i || p >= s.len() {
        p
    } else {
        match cmd_end(s, p) {
            Some(q) => if p < q <= s.len() {
                list_end(s, q)
            } else {
                p
            },
            None => p,
        }
    }
}

/// Whether the list starting at `i` holds at least one command.
pub open spec fn list_nonempty(s: Seq<char>, i: int) -> bool
    decreases s.len() - i, 5int,
{
    let p = sep_end(s, i);
    inside(s, i) && i <= p < s.len() && cmd_end(s, p) is Some
}

/// Where the command at `i` ends: the first form, in the dispatcher's order,
/// that matches there.
pub open spec fn cmd_end(s: Seq<char>, i: int) -> Option<int>
    decreases s.len() - i, 4int,
{
    if !inside(s, i) {
        None
    } else if if_end(s, i) is Some {
        if_end(s, i)
    } else if while_end(s, i) is Some {
        while_end(s, i)
    } else if case_end(s, i) is Some {
        case_end(s, i)
    } else if paren_end(s, i) is Some {
        paren_end(s, i)
    } else if double_paren_end(s, i) is Some {
        double_paren_end(s, i)
    } else if brace_end(s, i) is Some {
        brace_end(s, i)
    } else if function_end(s, i) is Some {
        function_end(s, i)
    } else {
        simple_end(s, i)
    }
}

/// `if` branches from `i`: `LIST then LIST`, repeated after each `elif`;
/// gives where the last branch ends.
pub open spec fn if_branches_end(s: Seq<char>, i: int) -> Option<int>
    decreases s.len() - i, 6int,
{
    if !inside(s, i) || !list_nonempty(s, i) {
        None
    } else {
        match kw_end(s, list_end(s, i), spec_kw_then()) {
            Some(t) => if i < t <= s.len() {
                let b = list_end(s, t);
                match kw_end(s, b, spec_kw_elif()) {
                    Some(x) => if i < x <= s.len() {
                        if_branches_end(s, x)
                    } else {
                        None
                    },
                    None => Some(b),
                }
            } else {
                None
            },
            None => None,
        }
    }
}

/// `if LIST then LIST [elif LIST then LIST]... [else LIST] fi`
pub open spec fn if_end(s: Seq<char>, i: int) -> Option<int>
    decreases s.len() - i, 3int,
{
    match kw_end(s, i, spec_kw_if()) {
        Some(p) => if inside(s, i) && i < p <= s.len() {
            match if_branches_end(s, p) {
                Some(b) => match kw_end(s, b, spec_kw_else()) {
                    Some(x) => if i < x <= s.len() {
                        kw_end(s, list_end(s, x), spec_kw_fi())
                    } else {
                        None
                    },
                    None => kw_end(s, b, spec_kw_fi()),
                },
                None => None,
            }
        } else {
            None
        },
        None => None,
    }
}

/// `while LIST do LIST done`
pub open spec fn while_end(s: Seq<char>, i: int) -> Option<int>
    decreases s.len() - i, 3int,
{
    match kw_end(s, i, spec_kw_while()) {
        Some(p) => if inside(s, i) && i < p <= s.len() && list_nonempty(s, p) {
            match kw_end(s, list_end(s, p), spec_kw_do()) {
                Some(d) => if i < d <= s.len() {
                    kw_end(s, list_end(s, d), spec_kw_done())
                } else {
                    None
                },
                None => None,
            }
        } else {
            None
        },
        None => None,
    }
}

/// Patterns of an arm from `i`: words joined by `|`, closed by `)`.
pub open spec fn patterns_rest(s: Seq<char>, i: int) -> Option<int>
    decreases s.len() - i,
{
    if !inside(s, i) || leading_word(s, i).len() == 0 {
        None
    } else {
        let q = word_end(s, skip_blanks(s, i));
        match char_end(s, q, '|') {
            Some(x) => if i < x <= s.len() {
                patterns_rest(s, x)
            } else {
                None
            },
            None => char_end(s, q, ')'),
        }
    }
}

/// `[(] WORD [| WORD]... )`
pub open spec fn patterns_end(s: Seq<char>, i: int) -> Option<int> {
    match char_end(s, i, '(') {
        Some(x) => patterns_rest(s, x),
        None => patterns_rest(s, i),
    }
}

/// Where the position after an arm's body and separators lands, past a `;;`.
pub open spec fn after_arm(s: Seq<char>, q: int) -> int {
    if q + 1 < s.len() && s[q] == ';' && s[q + 1] == ';' {
        q + 2
    } else {
        q
    }
}

/// The arms of a case statement from `i`, up to and with `esac`.
pub open spec fn arms_end(s: Seq<char>, i: int) -> Option<int>
    decreases s.len() - i, 6int,
{
    let p = sep_end(s, i);
    if !inside(s, i) || p < i || p > s.len() {
        None
    } else if kw_end(s, p, spec_kw_esac()) is Some {
        kw_end(s, p, spec_kw_esac())
    } else {
        match patterns_end(s, p) {
            Some(q) => if p < q <= s.len() {
                let n = after_arm(s, sep_end(s, list_end(s, q)));
                if i < n <= s.len() {
                    arms_end(s, n)
                } else {
                    None
                }
            } else {
                None
            },
            None => None,
        }
    }
}

/// `case WORD in [PATTERNS LIST ;;]... esac`
pub open spec fn case_end(s: Seq<char>, i: int) -> Option<int>
    decreases s.len() - i, 3int,
{
    match kw_end(s, i, spec_kw_case()) {
        Some(p0) => if inside(s, i) && i < p0 <= s.len() && leading_word(s, p0).len() > 0 {
            match kw_end(s, word_end(s, skip_blanks(s, p0)), spec_kw_in()) {
                Some(p) => if i < p <= s.len() {
                    arms_end(s, p)
                } else {
                    None
                },
                None => None,
            }
        } else {
            None
        },
        None => None,
    }
}

/// `( LIST )`, not `((`.
pub open spec fn paren_end(s: Seq<char>, i: int) -> Option<int>
    decreases s.len() - i, 3int,
{
    match char_end(s, i, '(') {
        Some(p) => if inside(s, i) && i < p <= s.len() && !(p < s.len() && s[p] == '(') {
            char_end(s, list_end(s, p), ')')
        } else {
            None
        },
        None => None,
    }
}

/// The position after the first `))` at or after `k`.
pub open spec fn close_end(s: Seq<char>, k: int) -> Option<int>
    decreases s.len() - k,
{
    if k < 0 || k + 1 >= s.len() {
        None
    } else if s[k] == ')' && s[k + 1] == ')' {
        Some(k + 2)
    } else {
        close_end(s, k + 1)
    }
}

/// `(( EXPR ))`
pub open spec fn double_paren_end(s: Seq<char>, i: int) -> Option<int> {
    let b = skip_blanks(s, i);
    if b + 1 < s.len() && s[b] == '(' && s[b + 1] == '(' {
        close_end(s, b + 2)
    } else {
        None
    }
}

/// `{ LIST }`
pub open spec fn brace_end(s: Seq<char>, i: int) -> Option<int>
    decreases s.len() - i, 3int,
{
    match kw_end(s, i, spec_kw_lbrace()) {
        Some(p) => if inside(s, i) && i < p <= s.len() {
            kw_end(s, list_end(s, p), spec_kw_rbrace())
        } else {
            None
        },
        None => None,
    }
}

/// `NAME ( ) { LIST }`
pub open spec fn function_end(s: Seq<char>, i: int) -> Option<int>
    decreases s.len() - i, 3int,
{
    if !inside(s, i) || leading_word(s, i).len() == 0 || is_reserved(leading_word(s, i)) {
        None
    } else {
        match char_end(s, word_end(s, skip_blanks(s, i)), '(') {
            Some(a) => match char_end(s, a, ')') {
                Some(b) => if i < b <= s.len() {
                    brace_end(s, b)
                } else {
                    None
                },
                None => None,
            },
            None => None,
        }
    }
}

/// A simple command: words, the first not reserved.
pub open spec fn simple_end(s: Seq<char>, i: int) -> Option<int> {
    if leading_word(s, i).len() > 0 && !is_reserved(leading_word(s, i)) {
        Some(words_end(s, i))
    } else {
        None
    }
}

/// Which form the dispatcher picks at `i`: the first, in its order, whose
/// grammar matches (0 conditional, 1 loop, 2 case, 3 subshell, 4 arithmetic
/// group, 5 brace group, 6 function definition, 7 simple command).
pub open spec fn cmd_form(s: Seq<char>, i: int) -> int {
    if if_end(s, i) is Some {
        0
    } else if while_end(s, i) is Some {
        1
    } else if case_end(s, i) is Some {
        2
    } else if paren_end(s, i) is Some {
        3
    } else if double_paren_end(s, i) is Some {
        4
    } else if brace_end(s, i) is Some {
        5
    } else if function_end(s, i) is Some {
        6
    } else {
        7
    }
}

/// The form number of a node's kind, as `cmd_form` numbers them.
pub open spec fn kind_form(k: CommandKind) -> int {
    match k {
        CommandKind::If { .. } => 0,
        CommandKind::While { .. } => 1,
        CommandKind::Case { .. } => 2,
        CommandKind::Paren { .. } => 3,
        CommandKind::DoubleParen { .. } => 4,
        CommandKind::Brace { .. } => 5,
        CommandKind::FunctionDefinition { .. } => 6,
        CommandKind::Simple { .. } => 7,
    }
}

/// The spans (start, end) of the commands that the list at `i` reads.
pub open spec fn list_spans(s: Seq<char>, i: int) -> Seq<(int, int)>
    decreases s.len() - i,
{
    let p = sep_end(s, i);
    if !inside(s, i) || p < i || p >= s.len() {
        Seq::empty()
    } else {
        match cmd_end(s, p) {
            Some(q) => if p < q <= s.len() {
                seq![(p, q)] + list_spans(s, q)
            } else {
                Seq::empty()
            },
            None => Seq::empty(),
        }
    }
}

/// The spans of the commands joined by `|` after `p`.
pub open spec fn pipe_spans(s: Seq<char>, p: int) -> Seq<(int, int)>
    decreases s.len() - p,
{
    match char_end(s, p, '|') {
        Some(b) => if !(b < s.len() && s[b] == '|') && inside(s, b) {
            match cmd_end(s, b) {
                Some(q) => if p < q <= s.len() {
                    seq![(b, q)] + pipe_spans(s, q)
                } else {
                    Seq::empty()
                },
                None => Seq::empty(),
            }
        } else {
            Seq::empty()
        },
        None => Seq::empty(),
    }
}

/// `cs` are the nodes read at `spans`: each holds the text of its span and
/// is of the form that the dispatcher picks at its start.
pub open spec fn read_at(cs: Seq<Command>, s: Seq<char>, spans: Seq<(int, int)>) -> bool {
    cs.len() == spans.len() && forall|k: int|
        0 <= k < cs.len() ==> (#[trigger] cs[k]).text@ == s.subrange(spans[k].0, spans[k].1)
            && kind_form(cs[k].kind) == cmd_form(s, spans[k].0)
}

/// Where each branch of a conditional from `i` starts: its condition list,
/// and its body list after `then`.
pub open spec fn if_branch_starts(s: Seq<char>, i: int) -> Seq<(int, int)>
    decreases s.len() - i,
{
    if !inside(s, i) || !list_nonempty(s, i) {
        Seq::empty()
    } else {
        match kw_end(s, list_end(s, i), spec_kw_then()) {
            Some(t) => if i < t <= s.len() {
                match kw_end(s, list_end(s, t), spec_kw_elif()) {
                    Some(x) => if i < x <= s.len() {
                        seq![(i, t)] + if_branch_starts(s, x)
                    } else {
                        Seq::empty()
                    },
                    None => seq![(i, t)],
                }
            } else {
                Seq::empty()
            },
            None => Seq::empty(),
        }
    }
}

/// The branches of a conditional, as `if_branch_starts` places them.
pub open spec fn branches_read_at(
    conds: Seq<Vec<Command>>,
    bodies: Seq<Vec<Command>>,
    s: Seq<char>,
    starts: Seq<(int, int)>,
) -> bool {
    conds.len() == starts.len() && bodies.len() == starts.len() && forall|k: int|
        0 <= k < starts.len() ==> read_at((#[trigger] conds[k])@, s, list_spans(s, starts[k].0))
            && read_at(bodies[k]@, s, list_spans(s, starts[k].1))
}

/// The pattern words that `patterns_rest` reads from `i`.
pub open spec fn pattern_words_rest(s: Seq<char>, i: int) -> Seq<Seq<char>>
    decreases s.len() - i,
{
    if !inside(s, i) || leading_word(s, i).len() == 0 {
        Seq::empty()
    } else {
        let q = word_end(s, skip_blanks(s, i));
        match char_end(s, q, '|') {
            Some(x) => if i < x <= s.len() {
                seq![leading_word(s, i)] + pattern_words_rest(s, x)
            } else {
                seq![leading_word(s, i)]
            },
            None => seq![leading_word(s, i)],
        }
    }
}

/// The pattern words of the arm that starts at `i`.
pub open spec fn pattern_words(s: Seq<char>, i: int) -> Seq<Seq<char>> {
    match char_end(s, i, '(') {
        Some(x) => pattern_words_rest(s, x),
        None => pattern_words_rest(s, i),
    }
}

/// Where each arm of a case statement from `i` starts: its patterns, and
/// its body list after `)`.
pub open spec fn arm_starts(s: Seq<char>, i: int) -> Seq<(int, int)>
    decreases s.len() - i,
{
    let p = sep_end(s, i);
    if !inside(s, i) || p < i || p > s.len() || kw_end(s, p, spec_kw_esac()) is Some {
        Seq::empty()
    } else {
        match patterns_end(s, p) {
            Some(q) => if p < q <= s.len() {
                let n = after_arm(s, sep_end(s, list_end(s, q)));
                if i < n <= s.len() {
                    seq![(p, q)] + arm_starts(s, n)
                } else {
                    Seq::empty()
                }
            } else {
                Seq::empty()
            },
            None => Seq::empty(),
        }
    }
}

/// The arms of a case statement, as `arm_starts` places them.
pub open spec fn arms_read_at(arms: Seq<CaseArm>, s: Seq<char>, starts: Seq<(int, int)>) -> bool {
    arms.len() == starts.len() && forall|k: int|
        0 <= k < starts.len() ==> (#[trigger] arms[k]).patterns@.map_values(|w: Vec<char>| w@)
            == pattern_words(s, starts[k].0) && read_at(arms[k].body@, s, list_spans(s, starts[k].1))
}

/// The children of node `c`, read from `s[i..q]`, are those the grammar
/// places there: the words of a simple command, the lists of each branch,
/// body and group, the case subject and arms, the arithmetic text, and the
/// name and brace group of a function definition.
pub open spec fn children_read(c: Command, s: Seq<char>, i: int, q: int) -> bool {
    match c.kind {
        CommandKind::Simple { args } => args@.map_values(|a: Vec<char>| a@) == words_from(s, i),
        CommandKind::If { conds, bodies, else_body } => {
            let start = kw_end(s, i, spec_kw_if())->0;
            let b = if_branches_end(s, start)->0;
            &&& branches_read_at(conds@, bodies@, s, if_branch_starts(s, start))
            &&& (else_body is Some <==> kw_end(s, b, spec_kw_else()) is Some)
            &&& (else_body matches Some(e) ==> read_at(
                e@,
                s,
                list_spans(s, kw_end(s, b, spec_kw_else())->0),
            ))
        },
        CommandKind::While { cond, body } => {
            let p = kw_end(s, i, spec_kw_while())->0;
            &&& read_at(cond@, s, list_spans(s, p))
            &&& read_at(body@, s, list_spans(s, kw_end(s, list_end(s, p), spec_kw_do())->0))
        },
        CommandKind::Case { subject, arms } => {
            let p0 = kw_end(s, i, spec_kw_case())->0;
            let p = kw_end(s, word_end(s, skip_blanks(s, p0)), spec_kw_in())->0;
            &&& subject@ == leading_word(s, p0)
            &&& arms_read_at(arms@, s, arm_starts(s, p))
        },
        CommandKind::Paren { children } => read_at(
            children@,
            s,
            list_spans(s, char_end(s, i, '(')->0),
        ),
        CommandKind::DoubleParen { expr } => expr@ == s.subrange(skip_blanks(s, i) + 2, q - 2),
        CommandKind::Brace { children } => read_at(
            children@,
            s,
            list_spans(s, kw_end(s, i, spec_kw_lbrace())->0),
        ),
        CommandKind::FunctionDefinition { name, definition } => {
            let a = char_end(s, word_end(s, skip_blanks(s, i)), '(')->0;
            let b = char_end(s, a, ')')->0;
            &&& name@ == leading_word(s, i)
            &&& definition.text@ == s.subrange(b, q)
            &&& definition.kind is Brace
            &&& read_at(
                definition.kind->Brace_children@,
                s,
                list_spans(s, kw_end(s, b, spec_kw_lbrace())->0),
            )
        },
    }
}

/// Each node of `cs` has the children that the grammar places in its span.
pub open spec fn all_children_read(cs: Seq<Command>, s: Seq<char>, spans: Seq<(int, int)>) -> bool {
    cs.len() == spans.len() && forall|k: int|
        0 <= k < cs.len() ==> children_read(#[trigger] cs[k], s, spans[k].0, spans[k].1)
}

/// Position after blanks, newlines and single `;` at `pos`; stops before `;;`.
pub fn skip_separators(chars: &Vec<char>, pos: usize) -> (r: usize)
    requires
        pos <= chars@.len(),
    ensures
        pos <= r <= chars@.len(),
        forall|j: int| pos <= j < r ==> is_separator_at(chars@, j),
        !is_separator_at(chars@, r as int),
        r as int == sep_end(chars@, pos as int),
{
    let mut i: usize = pos;
    while i < chars.len()
        invariant
            pos <= i <= chars@.len(),
            forall|j: int| pos <= j < i ==> is_separator_at(chars@, j),
            sep_end(chars@, pos as int) == sep_end(chars@, i as int),
        ensures
            pos <= i <= chars@.len(),
            forall|j: int| pos <= j < i ==> is_separator_at(chars@, j),
            !is_separator_at(chars@, i as int),
            sep_end(chars@, pos as int) == sep_end(chars@, i as int),
        decreases chars@.len() - i,
    {
        let c = chars[i];
        if blank(c) || c == '\n' {
            i = i + 1;
        } else if c == ';' && !(i + 1 < chars.len() && chars[i + 1] == ';') {
            i = i + 1;
        } else {
            break;
        }
    }
    i
}

/// Position after blanks at `pos` and the character `c`, where `c` stands there.
pub fn expect_char(chars: &Vec<char>, pos: usize, c: char) -> (r: Option<usize>)
    requires
        pos <= chars@.len(),
    ensures
        r is Some ==> pos < r->0 <= chars@.len(),
        r is Some <==> (skip_blanks(chars@, pos as int) < chars@.len() && chars@[skip_blanks(
            chars@,
            pos as int,
        )] == c),
        r is Some ==> r->0 == skip_blanks(chars@, pos as int) + 1,
{
    let s = skip_blanks_at(chars, pos);
    if s < chars.len() && chars[s] == c {
        Some(s + 1)
    } else {
        None
    }
}

/// Simple command: a run of words whose first is not reserved.
pub fn parse_simple(chars: &Vec<char>, pos: usize) -> (r: Option<(Command, usize)>)
    requires
        pos <= chars@.len(),
    ensures
        r is Some <==> simple_end(chars@, pos as int) is Some,
        r matches Some((c, q)) ==> simple_end(chars@, pos as int) == Some(q as int),
        r matches Some((c, q)) ==> pos < q <= chars@.len(),
        r matches Some((c, q)) ==> c.pipe_in == -1 && c.pipe_out == -1 && c.pipe_prev == -1
            && !c.group_leader && c.pid is None,
        r matches Some((c, q)) ==> c.text@ == chars@.subrange(pos as int, q as int),
        r matches Some((c, q)) ==> c.kind is Simple,
        r matches Some((c, q)) ==> c.kind->args@.len() > 0 && c.kind->args@[0]@ == leading_word(
            chars@,
            pos as int,
        ),
        r matches Some((c, q)) ==> forall|k: int|
            0 <= k < c.kind->args@.len() ==> (#[trigger] c.kind->args@[k])@.len() > 0,
        r matches Some((c, q)) ==> leading_word(chars@, q as int).len() == 0,
        r matches Some((c, q)) ==> c.kind->args@.map_values(|a: Vec<char>| a@) == words_from(
            chars@,
            pos as int,
        ),
        r matches Some((c, q)) ==> q as int == words_end(chars@, pos as int),
        r is Some <==> leading_word(chars@, pos as int).len() > 0 && !is_reserved(
            leading_word(chars@, pos as int),
        ),
{
    if reserved_at(chars, pos) {
        return None;
    }
    let first = parse_word(chars, pos);
    match first {
        None => None,
        Some((w, q)) => {
            let mut args: Vec<Vec<char>> = Vec::new();
            args.push(w);
            let mut p: usize = q;
            proof {
                assert(args@.map_values(|a: Vec<char>| a@) =~= seq![leading_word(chars@, pos as int)]);
            }
            loop
                invariant
                    pos < p <= chars@.len(),
                    args@.map_values(|a: Vec<char>| a@) + words_from(chars@, p as int) == words_from(
                        chars@,
                        pos as int,
                    ),
                    words_end(chars@, p as int) == words_end(chars@, pos as int),
                    args@.len() > 0,
                    args@[0]@ == leading_word(chars@, pos as int),
                    forall|k: int| 0 <= k < args@.len() ==> (#[trigger] args@[k])@.len() > 0,
                ensures
                    pos < p <= chars@.len(),
                    args@.len() > 0,
                    args@[0]@ == leading_word(chars@, pos as int),
                    forall|k: int| 0 <= k < args@.len() ==> (#[trigger] args@[k])@.len() > 0,
                    leading_word(chars@, p as int).len() == 0,
                    args@.map_values(|a: Vec<char>| a@) == words_from(chars@, pos as int),
                    p as int == words_end(chars@, pos as int),
                decreases chars@.len() - p,
            {
                match parse_word(chars, p) {
                    Some((w2, q2)) => {
                        let ghost before = args@.map_values(|a: Vec<char>| a@);
                        proof {
                            lemma_skip_blanks_range(chars@, p as int);
                        }
                        args.push(w2);
                        proof {
                            assert(args@.map_values(|a: Vec<char>| a@) =~= before.push(w2@));
                            assert(words_from(chars@, p as int) =~= seq![w2@] + words_from(
                                chars@,
                                q2 as int,
                            ));
                            assert(before + words_from(chars@, p as int) =~= before.push(w2@)
                                + words_from(chars@, q2 as int));
                        }
                        p = q2;
                    },
                    None => {
                        assert(leading_word(chars@, p as int).len() == 0);
                        assert(words_from(chars@, p as int) =~= Seq::<Seq<char>>::empty());
                        assert(args@.map_values(|a: Vec<char>| a@) + words_from(chars@, p as int)
                            =~= args@.map_values(|a: Vec<char>| a@));
                        break;
                    },
                }
            }
            Some((node(chars, pos, p, CommandKind::Simple { args }), p))
        },
    }
}

/// A list of commands separated by newlines or `;`, up to the first place
/// where no command can be read.
pub fn parse_list(chars: &Vec<char>, pos: usize) -> (r: (Vec<Command>, usize))
    requires
        pos <= chars@.len(),
    ensures
        pos <= r.1 <= chars@.len(),
        r.1 as int == list_end(chars@, pos as int),
        r.0@.len() > 0 <==> list_nonempty(chars@, pos as int),
        read_at(r.0@, chars@, list_spans(chars@, pos as int)),
        all_children_read(r.0@, chars@, list_spans(chars@, pos as int)),
    decreases chars@.len() - pos, 5int,
{
    let mut cmds: Vec<Command> = Vec::new();
    let mut p: usize = pos;
    let ghost mut done: Seq<(int, int)> = Seq::empty();
    loop
        invariant_except_break
            list_end(chars@, p as int) == list_end(chars@, pos as int),
            cmds@.len() == 0 ==> p == pos,
            done + list_spans(chars@, p as int) == list_spans(chars@, pos as int),
        invariant
            pos <= p <= chars@.len(),
            cmds@.len() > 0 ==> list_nonempty(chars@, pos as int),
            read_at(cmds@, chars@, done),
            all_children_read(cmds@, chars@, done),
        ensures
            pos <= p <= chars@.len(),
            p as int == list_end(chars@, pos as int),
            cmds@.len() > 0 <==> list_nonempty(chars@, pos as int),
            read_at(cmds@, chars@, list_spans(chars@, pos as int)),
            all_children_read(cmds@, chars@, list_spans(chars@, pos as int)),
        decreases chars@.len() - p,
    {
        let ghost p0 = p as int;
        p = skip_separators(chars, p);
        if p >= chars.len() {
            assert(list_end(chars@, p0) == p as int);
            assert(list_spans(chars@, p0) =~= Seq::<(int, int)>::empty());
            assert(done + list_spans(chars@, p0) =~= done);
            break;
        }
        match parse_command(chars, p) {
            Some((c, q)) => {
                assert(list_end(chars@, p0) == list_end(chars@, q as int));
                assert(list_spans(chars@, p0) =~= seq![(p as int, q as int)] + list_spans(
                    chars@,
                    q as int,
                ));
                let ghost old_cmds = cmds@;
                cmds.push(c);
                proof {
                    assert(done + list_spans(chars@, p0) =~= done.push((p as int, q as int))
                        + list_spans(chars@, q as int));
                    done = done.push((p as int, q as int));
                    assert forall|k: int| 0 <= k < cmds@.len() implies (#[trigger] cmds@[k]).text@
                        == chars@.subrange(done[k].0, done[k].1) && kind_form(cmds@[k].kind)
                        == cmd_form(chars@, done[k].0) by {
                        if k < old_cmds.len() {
                            assert(cmds@[k] == old_cmds[k]);
                        }
                    }
                    assert forall|k: int| 0 <= k < cmds@.len() implies children_read(
                        #[trigger] cmds@[k],
                        chars@,
                        done[k].0,
                        done[k].1,
                    ) by {
                        if k < old_cmds.len() {
                            assert(cmds@[k] == old_cmds[k]);
                        }
                    }
                }
                p = q;
            },
            None => {
                assert(list_end(chars@, p0) == p as int);
                assert(list_spans(chars@, p0) =~= Seq::<(int, int)>::empty());
                assert(done + list_spans(chars@, p0) =~= done);
                break;
            },
        }
    }
    (cmds, p)
}

/// `if LIST then LIST [elif LIST then LIST]... [else LIST] fi`
pub fn parse_if(chars: &Vec<char>, pos: usize) -> (r: Option<(Command, usize)>)
    requires
        pos <= chars@.len(),
    ensures
        r is Some <==> if_end(chars@, pos as int) is Some,
        r matches Some((c, q)) ==> if_end(chars@, pos as int) == Some(q as int),
        r matches Some((c, q)) ==> pos < q <= chars@.len(),
        r matches Some((c, q)) ==> c.pipe_in == -1 && c.pipe_out == -1 && c.pipe_prev == -1
            && !c.group_leader && c.pid is None,
        r matches Some((c, q)) ==> c.text@ == chars@.subrange(pos as int, q as int),
        r matches Some((c, q)) ==> c.kind is If,
        r matches Some((c, q)) ==> c.kind->conds@.len() > 0 && c.kind->conds@.len()
            == c.kind->bodies@.len(),
        r is Some ==> leading_word(chars@, pos as int) == spec_kw_if(),
        r matches Some((c, q)) ==> ({
            let start = kw_end(chars@, pos as int, spec_kw_if())->0;
            let b = if_branches_end(chars@, start)->0;
            &&& branches_read_at(
                c.kind->conds@,
                c.kind->bodies@,
                chars@,
                if_branch_starts(chars@, start),
            )
            &&& (c.kind->else_body is Some <==> kw_end(chars@, b, spec_kw_else()) is Some)
            &&& (c.kind->else_body matches Some(e) ==> read_at(
                e@,
                chars@,
                list_spans(chars@, kw_end(chars@, b, spec_kw_else())->0),
            ))
        }),
    decreases chars@.len() - pos, 3int,
{
    let mut p: usize = match expect_keyword(chars, pos, &kw_if()) {
        Some(x) => x,
        None => return None,
    };
    let ghost start = p as int;
    let mut conds: Vec<Vec<Command>> = Vec::new();
    let mut bodies: Vec<Vec<Command>> = Vec::new();
    let ghost mut done: Seq<(int, int)> = Seq::empty();
    loop
        invariant_except_break
            if_branches_end(chars@, start) == if_branches_end(chars@, p as int),
            done + if_branch_starts(chars@, p as int) == if_branch_starts(chars@, start),
        invariant
            branches_read_at(conds@, bodies@, chars@, done),
            pos < p <= chars@.len(),
            pos < start <= chars@.len(),
            kw_end(chars@, pos as int, spec_kw_if()) == Some(start),
            conds@.len() == bodies@.len(),
            leading_word(chars@, pos as int) == spec_kw_if(),
        ensures
            pos < p <= chars@.len(),
            conds@.len() == bodies@.len(),
            conds@.len() > 0,
            leading_word(chars@, pos as int) == spec_kw_if(),
            pos < start <= chars@.len(),
            kw_end(chars@, pos as int, spec_kw_if()) == Some(start),
            if_branches_end(chars@, start) == Some(p as int),
            branches_read_at(conds@, bodies@, chars@, if_branch_starts(chars@, start)),
        decreases chars@.len() - p,
    {
        let (c, q) = parse_list(chars, p);
        if c.len() == 0 {
            assert(if_branches_end(chars@, p as int) is None);
            return None;
        }
        let q2 = match expect_keyword(chars, q, &kw_then()) {
            Some(x) => x,
            None => {
                assert(if_branches_end(chars@, p as int) is None);
                return None;
            },
        };
        let (b, q3) = parse_list(chars, q2);
        let ghost p0 = p as int;
        let ghost old_conds = conds@;
        let ghost old_bodies = bodies@;
        let ghost old_done = done;
        conds.push(c);
        bodies.push(b);
        proof {
            done = done.push((p0, q2 as int));
            assert forall|k: int| 0 <= k < done.len() implies read_at(
                (#[trigger] conds@[k])@,
                chars@,
                list_spans(chars@, done[k].0),
            ) && read_at(bodies@[k]@, chars@, list_spans(chars@, done[k].1)) by {
                if k < old_conds.len() {
                    assert(conds@[k] == old_conds[k]);
                    assert(bodies@[k] == old_bodies[k]);
                }
            }
        }
        match expect_keyword(chars, q3, &kw_elif()) {
            Some(x) => {
                assert(if_branches_end(chars@, p0) == if_branches_end(chars@, x as int));
                assert(if_branch_starts(chars@, p0) =~= seq![(p0, q2 as int)] + if_branch_starts(
                    chars@,
                    x as int,
                ));
                assert(old_done + if_branch_starts(chars@, p0) =~= done + if_branch_starts(
                    chars@,
                    x as int,
                ));
                p = x;
            },
            None => {
                assert(if_branches_end(chars@, p0) == Some(q3 as int));
                assert(if_branch_starts(chars@, p0) =~= seq![(p0, q2 as int)]);
                assert(old_done + if_branch_starts(chars@, p0) =~= done);
                p = q3;
                break;
            },
        }
    }
    let mut else_body: Option<Vec<Command>> = None;
    match expect_keyword(chars, p, &kw_else()) {
        Some(x) => {
            let (e, q) = parse_list(chars, x);
            else_body = Some(e);
            p = q;
        },
        None => {},
    }
    match expect_keyword(chars, p, &kw_fi()) {
        Some(x) => Some((node(chars, pos, x, CommandKind::If { conds, bodies, else_body }), x)),
        None => None,
    }
}

/// `{ LIST }`
pub fn parse_brace(chars: &Vec<char>, pos: usize) -> (r: Option<(Command, usize)>)
    requires
        pos <= chars@.len(),
    ensures
        r matches Some((c, q)) ==> read_at(
            c.kind->Brace_children@,
            chars@,
            list_spans(chars@, kw_end(chars@, pos as int, spec_kw_lbrace())->0),
        ),
        r is Some <==> brace_end(chars@, pos as int) is Some,
        r matches Some((c, q)) ==> brace_end(chars@, pos as int) == Some(q as int),
        r matches Some((c, q)) ==> pos < q <= chars@.len(),
        r matches Some((c, q)) ==> c.pipe_in == -1 && c.pipe_out == -1 && c.pipe_prev == -1
            && !c.group_leader && c.pid is None,
        r matches Some((c, q)) ==> c.text@ == chars@.subrange(pos as int, q as int),
        r matches Some((c, q)) ==> c.kind is Brace,
        r is Some ==> leading_word(chars@, pos as int) == spec_kw_lbrace(),
    decreases chars@.len() - pos, 3int,
{
    let p = match expect_keyword(chars, pos, &kw_lbrace()) {
        Some(x) => x,
        None => return None,
    };
    let (children, q) = parse_list(chars, p);
    match expect_keyword(chars, q, &kw_rbrace()) {
        Some(x) => Some((node(chars, pos, x, CommandKind::Brace { children }), x)),
        None => None,
    }
}

/// `while LIST do LIST done`
pub fn parse_while(chars: &Vec<char>, pos: usize) -> (r: Option<(Command, usize)>)
    requires
        pos <= chars@.len(),
    ensures
        r matches Some((c, q)) ==> ({
            let p = kw_end(chars@, pos as int, spec_kw_while())->0;
            &&& read_at(c.kind->cond@, chars@, list_spans(chars@, p))
            &&& read_at(
                c.kind->body@,
                chars@,
                list_spans(chars@, kw_end(chars@, list_end(chars@, p), spec_kw_do())->0),
            )
        }),
        r is Some <==> while_end(chars@, pos as int) is Some,
        r matches Some((c, q)) ==> while_end(chars@, pos as int) == Some(q as int),
        r matches Some((c, q)) ==> pos < q <= chars@.len(),
        r matches Some((c, q)) ==> c.pipe_in == -1 && c.pipe_out == -1 && c.pipe_prev == -1
            && !c.group_leader && c.pid is None,
        r matches Some((c, q)) ==> c.text@ == chars@.subrange(pos as int, q as int),
        r matches Some((c, q)) ==> c.kind is While,
        r matches Some((c, q)) ==> c.kind->cond@.len() > 0,
        r is Some ==> leading_word(chars@, pos as int) == spec_kw_while(),
    decreases chars@.len() - pos, 3int,
{
    let p = match expect_keyword(chars, pos, &kw_while()) {
        Some(x) => x,
        None => return None,
    };
    let (cond, q) = parse_list(chars, p);
    if cond.len() == 0 {
        return None;
    }
    let q2 = match expect_keyword(chars, q, &kw_do()) {
        Some(x) => x,
        None => return None,
    };
    let (body, q3) = parse_list(chars, q2);
    match expect_keyword(chars, q3, &kw_done()) {
        Some(x) => Some((node(chars, pos, x, CommandKind::While { cond, body }), x)),
        None => None,
    }
}

/// The patterns of one case arm: `[(] WORD [| WORD]... )`, and the position after `)`.
fn parse_patterns(chars: &Vec<char>, pos: usize) -> (r: Option<(Vec<Vec<char>>, usize)>)
    requires
        pos <= chars@.len(),
    ensures
        r matches Some((ps, q)) ==> pos < q <= chars@.len(),
        r is Some <==> patterns_end(chars@, pos as int) is Some,
        r matches Some((ps, q)) ==> patterns_end(chars@, pos as int) == Some(q as int),
        r matches Some((ps, q)) ==> ps@.map_values(|w: Vec<char>| w@) == pattern_words(
            chars@,
            pos as int,
        ),
{
    let mut p: usize = match expect_char(chars, pos, '(') {
        Some(x) => x,
        None => pos,
    };
    let mut patterns: Vec<Vec<char>> = Vec::new();
    loop
        invariant_except_break
            patterns_end(chars@, pos as int) == patterns_rest(chars@, p as int),
            patterns@.map_values(|w: Vec<char>| w@) + pattern_words_rest(chars@, p as int)
                == pattern_words(chars@, pos as int),
        invariant
            pos <= p <= chars@.len(),
        ensures
            patterns@.map_values(|w: Vec<char>| w@) == pattern_words(chars@, pos as int),
            pos < p <= chars@.len(),
            patterns_end(chars@, pos as int) == char_end(chars@, p as int, ')'),
        decreases chars@.len() - p,
    {
        let ghost p0 = p as int;
        let ghost before = patterns@.map_values(|w: Vec<char>| w@);
        match parse_word(chars, p) {
            Some((w, q)) => {
                patterns.push(w);
                assert(patterns@.map_values(|w: Vec<char>| w@) =~= before.push(w@));
                p = q;
            },
            None => return None,
        }
        match expect_char(chars, p, '|') {
            Some(x) => {
                assert(patterns_rest(chars@, p0) == patterns_rest(chars@, x as int));
                assert(pattern_words_rest(chars@, p0) =~= seq![leading_word(chars@, p0)]
                    + pattern_words_rest(chars@, x as int));
                assert(before + pattern_words_rest(chars@, p0) =~= patterns@.map_values(
                    |w: Vec<char>| w@,
                ) + pattern_words_rest(chars@, x as int));
                p = x;
            },
            None => {
                assert(patterns_rest(chars@, p0) == char_end(chars@, p as int, ')'));
                assert(pattern_words_rest(chars@, p0) =~= seq![leading_word(chars@, p0)]);
                assert(before + pattern_words_rest(chars@, p0) =~= patterns@.map_values(
                    |w: Vec<char>| w@,
                ));
                break;
            },
        }
    }
    match expect_char(chars, p, ')') {
        Some(x) => Some((patterns, x)),
        None => None,
    }
}

/// `case WORD in [PATTERNS LIST ;;]... esac`
pub fn parse_case(chars: &Vec<char>, pos: usize) -> (r: Option<(Command, usize)>)
    requires
        pos <= chars@.len(),
    ensures
        r is Some <==> case_end(chars@, pos as int) is Some,
        r matches Some((c, q)) ==> case_end(chars@, pos as int) == Some(q as int),
        r matches Some((c, q)) ==> pos < q <= chars@.len(),
        r matches Some((c, q)) ==> c.pipe_in == -1 && c.pipe_out == -1 && c.pipe_prev == -1
            && !c.group_leader && c.pid is None,
        r matches Some((c, q)) ==> c.text@ == chars@.subrange(pos as int, q as int),
        r matches Some((c, q)) ==> c.kind is Case,
        r is Some ==> leading_word(chars@, pos as int) == spec_kw_case(),
        r matches Some((c, q)) ==> ({
            let p0 = kw_end(chars@, pos as int, spec_kw_case())->0;
            let p = kw_end(chars@, word_end(chars@, skip_blanks(chars@, p0)), spec_kw_in())->0;
            &&& c.kind->subject@ == leading_word(chars@, p0)
            &&& arms_read_at(c.kind->arms@, chars@, arm_starts(chars@, p))
        }),
    decreases chars@.len() - pos, 3int,
{
    let p0 = match expect_keyword(chars, pos, &kw_case()) {
        Some(x) => x,
        None => return None,
    };
    let (subject, p1) = match parse_word(chars, p0) {
        Some(x) => x,
        None => return None,
    };
    let mut p: usize = match expect_keyword(chars, p1, &kw_in()) {
        Some(x) => x,
        None => return None,
    };
    let ghost start = p as int;
    proof {
        assert(case_end(chars@, pos as int) == arms_end(chars@, start));
    }
    let mut arms: Vec<CaseArm> = Vec::new();
    let ghost mut done: Seq<(int, int)> = Seq::empty();
    loop
        invariant
            done + arm_starts(chars@, p as int) == arm_starts(chars@, start),
            arms_read_at(arms@, chars@, done),
            subject@ == leading_word(chars@, p0 as int),
            kw_end(chars@, pos as int, spec_kw_case()) == Some(p0 as int),
            kw_end(chars@, word_end(chars@, skip_blanks(chars@, p0 as int)), spec_kw_in()) == Some(
                start,
            ),
            pos < p <= chars@.len(),
            leading_word(chars@, pos as int) == spec_kw_case(),
            case_end(chars@, pos as int) == arms_end(chars@, p as int),
        decreases chars@.len() - p,
    {
        let ghost pp = p as int;
        p = skip_separators(chars, p);
        if let Some(x) = expect_keyword(chars, p, &kw_esac()) {
            assert(arms_end(chars@, pp) == Some(x as int));
            assert(arm_starts(chars@, pp) =~= Seq::<(int, int)>::empty());
            assert(done + arm_starts(chars@, pp) =~= done);
            return Some((node(chars, pos, x, CommandKind::Case { subject, arms }), x));
        }
        let (patterns, q) = match parse_patterns(chars, p) {
            Some(x) => x,
            None => {
                assert(arms_end(chars@, pp) is None);
                return None;
            },
        };
        let (body, q2) = parse_list(chars, q);
        let ghost old_arms = arms@;
        let ghost old_done = done;
        arms.push(CaseArm { patterns, body });
        proof {
            done = done.push((p as int, q as int));
            assert forall|k: int| 0 <= k < done.len() implies (#[trigger] arms@[k]).patterns@.map_values(
                |w: Vec<char>| w@,
            ) == pattern_words(chars@, done[k].0) && read_at(
                arms@[k].body@,
                chars@,
                list_spans(chars@, done[k].1),
            ) by {
                if k < old_arms.len() {
                    assert(arms@[k] == old_arms[k]);
                }
            }
        }
        let q3 = skip_separators(chars, q2);
        p = if chars.len() - q3 >= 2 && chars[q3] == ';' && chars[q3 + 1] == ';' {
            q3 + 2
        } else {
            q3
        };
        assert(p as int == after_arm(chars@, sep_end(chars@, list_end(chars@, q as int))));
        assert(arms_end(chars@, pp) == arms_end(chars@, p as int));
        assert(arm_starts(chars@, pp) =~= seq![(done.last().0, done.last().1)] + arm_starts(
            chars@,
            p as int,
        ));
        assert(old_done + arm_starts(chars@, pp) =~= done + arm_starts(chars@, p as int));
    }
}

/// `( LIST )`, a subshell; `((` is left to the arithmetic group.
pub fn parse_paren(chars: &Vec<char>, pos: usize) -> (r: Option<(Command, usize)>)
    requires
        pos <= chars@.len(),
    ensures
        r matches Some((c, q)) ==> read_at(
            c.kind->Paren_children@,
            chars@,
            list_spans(chars@, char_end(chars@, pos as int, '(')->0),
        ),
        r is Some <==> paren_end(chars@, pos as int) is Some,
        r matches Some((c, q)) ==> paren_end(chars@, pos as int) == Some(q as int),
        r matches Some((c, q)) ==> pos < q <= chars@.len(),
        r matches Some((c, q)) ==> c.pipe_in == -1 && c.pipe_out == -1 && c.pipe_prev == -1
            && !c.group_leader && c.pid is None,
        r matches Some((c, q)) ==> c.text@ == chars@.subrange(pos as int, q as int),
        r matches Some((c, q)) ==> c.kind is Paren,
        r is Some ==> leading_word(chars@, pos as int).len() == 0,
    decreases chars@.len() - pos, 3int,
{
    let p = match expect_char(chars, pos, '(') {
        Some(x) => x,
        None => return None,
    };
    if p < chars.len() && chars[p] == '(' {
        return None;
    }
    proof {
        lemma_skip_blanks_range(chars@, pos as int);
    }
    let (children, q) = parse_list(chars, p);
    match expect_char(chars, q, ')') {
        Some(x) => Some((node(chars, pos, x, CommandKind::Paren { children }), x)),
        None => None,
    }
}

/// `(( EXPR ))`, an arithmetic group.
pub fn parse_double_paren(chars: &Vec<char>, pos: usize) -> (r: Option<(Command, usize)>)
    requires
        pos <= chars@.len(),
    ensures
        r matches Some((c, q)) ==> c.kind->expr@ == chars@.subrange(
            skip_blanks(chars@, pos as int) + 2,
            q - 2,
        ),
        r is Some <==> double_paren_end(chars@, pos as int) is Some,
        r matches Some((c, q)) ==> double_paren_end(chars@, pos as int) == Some(q as int),
        r matches Some((c, q)) ==> pos < q <= chars@.len(),
        r matches Some((c, q)) ==> c.pipe_in == -1 && c.pipe_out == -1 && c.pipe_prev == -1
            && !c.group_leader && c.pid is None,
        r matches Some((c, q)) ==> c.text@ == chars@.subrange(pos as int, q as int),
        r matches Some((c, q)) ==> c.kind is DoubleParen,
        r is Some ==> leading_word(chars@, pos as int).len() == 0,
{
    let s = skip_blanks_at(chars, pos);
    if !(chars.len() - s >= 2 && chars[s] == '(' && chars[s + 1] == '(') {
        return None;
    }
    let mut i: usize = s + 2;
    while chars.len() - i >= 2
        invariant
            pos <= s,
            s as int == skip_blanks(chars@, pos as int),
            chars@[s as int] == '(',
            word_end(chars@, s as int) == s as int,
            s + 2 <= i <= chars@.len(),
            s + 1 < chars@.len(),
            double_paren_end(chars@, pos as int) == close_end(chars@, i as int),
        decreases chars@.len() - i,
    {
        if chars[i] == ')' && chars[i + 1] == ')' {
            let expr = copy_range(chars, s + 2, i);
            return Some((node(chars, pos, i + 2, CommandKind::DoubleParen { expr }), i + 2));
        }
        i = i + 1;
    }
    assert(close_end(chars@, i as int) is None);
    None
}

/// `NAME ( ) { LIST }`
pub fn parse_function(chars: &Vec<char>, pos: usize) -> (r: Option<(Command, usize)>)
    requires
        pos <= chars@.len(),
    ensures
        r matches Some((c, q)) ==> ({
            let a = char_end(chars@, word_end(chars@, skip_blanks(chars@, pos as int)), '(')->0;
            let b = char_end(chars@, a, ')')->0;
            &&& c.kind->definition.text@ == chars@.subrange(b, q as int)
            &&& read_at(
                c.kind->definition.kind->Brace_children@,
                chars@,
                list_spans(chars@, kw_end(chars@, b, spec_kw_lbrace())->0),
            )
        }),
        r is Some <==> function_end(chars@, pos as int) is Some,
        r matches Some((c, q)) ==> function_end(chars@, pos as int) == Some(q as int),
        r matches Some((c, q)) ==> pos < q <= chars@.len(),
        r matches Some((c, q)) ==> c.pipe_in == -1 && c.pipe_out == -1 && c.pipe_prev == -1
            && !c.group_leader && c.pid is None,
        r matches Some((c, q)) ==> c.text@ == chars@.subrange(pos as int, q as int),
        r matches Some((c, q)) ==> c.kind is FunctionDefinition,
        r matches Some((c, q)) ==> c.kind->name@ == leading_word(chars@, pos as int),
        r matches Some((c, q)) ==> c.kind->definition.kind is Brace,
        r is Some ==> !is_reserved(leading_word(chars@, pos as int)),
        r is Some ==> leading_word(chars@, pos as int).len() > 0,
    decreases chars@.len() - pos, 3int,
{
    if reserved_at(chars, pos) {
        return None;
    }
    let (name, p) = match parse_word(chars, pos) {
        Some(x) => x,
        None => return None,
    };
    let p2 = match expect_char(chars, p, '(') {
        Some(x) => x,
        None => return None,
    };
    let p3 = match expect_char(chars, p2, ')') {
        Some(x) => x,
        None => return None,
    };
    match parse_brace(chars, p3) {
        Some((b, x)) => Some(
            (node(chars, pos, x, CommandKind::FunctionDefinition { name, definition: Box::new(b) }), x),
        ),
        None => None,
    }
}

/// Tries each form in turn (conditional, loop, case, subshell, arithmetic
/// group, brace group, function definition, simple command) and gives the
/// first that reads a whole construct at `pos`.
pub fn parse_command(chars: &Vec<char>, pos: usize) -> (r: Option<(Command, usize)>)
    requires
        pos <= chars@.len(),
    ensures
        r matches Some((c, q)) ==> children_read(c, chars@, pos as int, q as int),
        r matches Some((c, q)) ==> kind_form(c.kind) == cmd_form(chars@, pos as int),
        r matches Some((c, q)) ==> (c.kind is Simple ==> c.kind->args@.map_values(
            |a: Vec<char>| a@,
        ) == words_from(chars@, pos as int)),
        r is Some <==> cmd_end(chars@, pos as int) is Some,
        r matches Some((c, q)) ==> cmd_end(chars@, pos as int) == Some(q as int),
        r matches Some((c, q)) ==> pos < q <= chars@.len(),
        r matches Some((c, q)) ==> c.pipe_in == -1 && c.pipe_out == -1 && c.pipe_prev == -1
            && !c.group_leader && c.pid is None,
        r matches Some((c, q)) ==> c.text@ == chars@.subrange(pos as int, q as int),
        leading_word(chars@, pos as int) == spec_kw_if() ==> (r matches Some((c, q)) ==> c.kind is If),
        leading_word(chars@, pos as int) == spec_kw_while() ==> (r matches Some((c, q))
            ==> c.kind is While),
        leading_word(chars@, pos as int) == spec_kw_case() ==> (r matches Some((c, q))
            ==> c.kind is Case),
        leading_word(chars@, pos as int) == spec_kw_lbrace() ==> (r matches Some((c, q))
            ==> c.kind is Brace),
        leading_word(chars@, pos as int).len() == 0 ==> (r matches Some((c, q)) ==> c.kind is Paren
            || c.kind is DoubleParen),
        leading_word(chars@, pos as int).len() > 0 && !is_reserved(leading_word(chars@, pos as int))
            ==> (r matches Some((c, q)) ==> c.kind is Simple || c.kind is FunctionDefinition),
        leading_word(chars@, pos as int).len() > 0 && !is_reserved(leading_word(chars@, pos as int))
            ==> r is Some,
    decreases chars@.len() - pos, 4int,
{
    if let Some(a) = parse_if(chars, pos) {
        Some(a)
    } else if let Some(a) = parse_while(chars, pos) {
        Some(a)
    } else if let Some(a) = parse_case(chars, pos) {
        Some(a)
    } else if let Some(a) = parse_paren(chars, pos) {
        Some(a)
    } else if let Some(a) = parse_double_paren(chars, pos) {
        Some(a)
    } else if let Some(a) = parse_brace(chars, pos) {
        Some(a)
    } else if let Some(a) = parse_function(chars, pos) {
        Some(a)
    } else if let Some(a) = parse_simple(chars, pos) {
        Some(a)
    } else {
        None
    }
}

/// Reads one command at the cursor. On success the cursor moves past the
/// command; otherwise it stays where it was.
pub fn parse(text: &mut Feeder) -> (r: Option<Command>)
    requires
        old(text).wf(),
    ensures
        final(text).wf(),
        final(text).chars@ == old(text).chars@,
        r is None ==> final(text).pos == old(text).pos,
        r is Some ==> final(text).pos > old(text).pos,
        r matches Some(c) ==> c.pipe_in == -1 && c.pipe_out == -1 && c.pipe_prev == -1
            && !c.group_leader && c.pid is None,
        r matches Some(c) ==> c.text@ == old(text).chars@.subrange(
            old(text).pos as int,
            final(text).pos as int,
        ),
        r matches Some(c) ==> kind_form(c.kind) == cmd_form(old(text).chars@, old(text).pos as int),
        r matches Some(c) ==> (c.kind is Simple ==> c.kind->args@.map_values(|a: Vec<char>| a@)
            == words_from(old(text).chars@, old(text).pos as int)),
        r matches Some(c) ==> children_read(
            c,
            old(text).chars@,
            old(text).pos as int,
            final(text).pos as int,
        ),
        r is Some <==> cmd_end(old(text).chars@, old(text).pos as int) is Some,
        r is Some ==> cmd_end(old(text).chars@, old(text).pos as int) == Some(final(text).pos as int),
        ({
            let w = leading_word(old(text).chars@, old(text).pos as int);
            &&& w == spec_kw_if() ==> (r matches Some(c) ==> c.kind is If)
            &&& w == spec_kw_while() ==> (r matches Some(c) ==> c.kind is While)
            &&& w == spec_kw_case() ==> (r matches Some(c) ==> c.kind is Case)
            &&& w == spec_kw_lbrace() ==> (r matches Some(c) ==> c.kind is Brace)
            &&& w.len() == 0 ==> (r matches Some(c) ==> c.kind is Paren || c.kind is DoubleParen)
            &&& w.len() > 0 && !is_reserved(w) ==> (r matches Some(c) ==> c.kind is Simple
                || c.kind is FunctionDefinition)
            &&& w.len() > 0 && !is_reserved(w) ==> r is Some
        }),
{
    match parse_command(&text.chars, text.pos) {
        Some((c, q)) => {
            text.pos = q;
            Some(c)
        },
        None => None,
    }
}

/// The commands that follow `p` joined by single `|`: how many, and where
/// the last ends.
pub open spec fn pipe_rest(s: Seq<char>, p: int) -> (nat, int)
    decreases s.len() - p,
{
    match char_end(s, p, '|') {
        Some(b) => if !(b < s.len() && s[b] == '|') && inside(s, b) {
            match cmd_end(s, b) {
                Some(q) => if p < q <= s.len() {
                    let (n, e) = pipe_rest(s, q);
                    (n + 1, e)
                } else {
                    (0, p)
                },
                None => (0, p),
            }
        } else {
            (0, p)
        },
        None => (0, p),
    }
}

/// Reads a pipeline at the cursor: commands joined by single `|`. On success
/// the cursor moves past the last command and every command is unconnected,
/// ready to be wired; otherwise the cursor stays where it was.
pub fn parse_pipeline(text: &mut Feeder) -> (r: Option<Vec<Command>>)
    requires
        old(text).wf(),
    ensures
        final(text).wf(),
        final(text).chars@ == old(text).chars@,
        r is None ==> final(text).pos == old(text).pos,
        r is Some ==> final(text).pos > old(text).pos,
        r matches Some(cs) ==> cs@.len() > 0 && forall|k: int|
            0 <= k < cs@.len() ==> (#[trigger] cs@[k]).pipe_in == -1 && cs@[k].pipe_out == -1
                && cs@[k].pipe_prev == -1 && !cs@[k].group_leader && cs@[k].pid is None,
        leading_word(old(text).chars@, old(text).pos as int).len() > 0 && !is_reserved(
            leading_word(old(text).chars@, old(text).pos as int),
        ) ==> r is Some,
        r is Some <==> cmd_end(old(text).chars@, old(text).pos as int) is Some,
        r matches Some(cs) ==> ({
            let first = cmd_end(old(text).chars@, old(text).pos as int)->0;
            &&& read_at(
                cs@,
                old(text).chars@,
                seq![(old(text).pos as int, first)] + pipe_spans(old(text).chars@, first),
            )
            &&& all_children_read(
                cs@,
                old(text).chars@,
                seq![(old(text).pos as int, first)] + pipe_spans(old(text).chars@, first),
            )
            &&& cs@.len() == 1 + pipe_rest(old(text).chars@, first).0
            &&& final(text).pos as int == pipe_rest(old(text).chars@, first).1
        }),
        leading_word(old(text).chars@, old(text).pos as int) == spec_kw_if() ==> (r matches Some(
            cs,
        ) ==> cs@[0].kind is If),
{
    let first = match parse_command(&text.chars, text.pos) {
        Some(x) => x,
        None => return None,
    };
    let (c0, mut p) = first;
    let ghost start = text.pos;
    let ghost first_end = p as int;
    let mut cmds: Vec<Command> = Vec::new();
    cmds.push(c0);
    let ghost mut done: Seq<(int, int)> = seq![(start as int, first_end)];
    loop
        invariant_except_break
            done + pipe_spans(text.chars@, p as int) == seq![(start as int, first_end)]
                + pipe_spans(text.chars@, first_end),
        invariant
            read_at(cmds@, text.chars@, done),
            all_children_read(cmds@, text.chars@, done),
            start < p <= text.chars@.len(),
            text.pos == start,
            cmds@.len() > 0,
            forall|k: int|
                0 <= k < cmds@.len() ==> (#[trigger] cmds@[k]).pipe_in == -1 && cmds@[k].pipe_out
                    == -1 && cmds@[k].pipe_prev == -1 && !cmds@[k].group_leader
                    && cmds@[k].pid is None,
            leading_word(text.chars@, start as int) == spec_kw_if() ==> cmds@[0].kind is If,
            cmd_end(text.chars@, start as int) == Some(first_end),
            cmds@.len() + pipe_rest(text.chars@, p as int).0 == 1 + pipe_rest(text.chars@, first_end).0,
            pipe_rest(text.chars@, p as int).1 == pipe_rest(text.chars@, first_end).1,
        ensures
            start < p <= text.chars@.len(),
            text.pos == start,
            cmds@.len() > 0,
            forall|k: int|
                0 <= k < cmds@.len() ==> (#[trigger] cmds@[k]).pipe_in == -1 && cmds@[k].pipe_out
                    == -1 && cmds@[k].pipe_prev == -1 && !cmds@[k].group_leader
                    && cmds@[k].pid is None,
            leading_word(text.chars@, start as int) == spec_kw_if() ==> cmds@[0].kind is If,
            cmd_end(text.chars@, start as int) == Some(first_end),
            cmds@.len() == 1 + pipe_rest(text.chars@, first_end).0,
            p as int == pipe_rest(text.chars@, first_end).1,
            read_at(
                cmds@,
                text.chars@,
                seq![(start as int, first_end)] + pipe_spans(text.chars@, first_end),
            ),
            all_children_read(
                cmds@,
                text.chars@,
                seq![(start as int, first_end)] + pipe_spans(text.chars@, first_end),
            ),
        decreases text.chars@.len() - p,
    {
        let ghost p0 = p as int;
        let bar = match expect_char(&text.chars, p, '|') {
            Some(x) => x,
            None => {
                assert(pipe_rest(text.chars@, p0) == (0nat, p0));
                assert(done + pipe_spans(text.chars@, p0) =~= done);
                break;
            },
        };
        if bar < text.chars.len() && text.chars[bar] == '|' {
            assert(pipe_rest(text.chars@, p0) == (0nat, p0));
            assert(done + pipe_spans(text.chars@, p0) =~= done);
            break;
        }
        match parse_command(&text.chars, bar) {
            Some((c, q)) => {
                assert(pipe_spans(text.chars@, p0) =~= seq![(bar as int, q as int)] + pipe_spans(
                    text.chars@,
                    q as int,
                ));
                let ghost old_cmds = cmds@;
                cmds.push(c);
                proof {
                    assert(done + pipe_spans(text.chars@, p0) =~= done.push((bar as int, q as int))
                        + pipe_spans(text.chars@, q as int));
                    done = done.push((bar as int, q as int));
                    assert forall|k: int| 0 <= k < cmds@.len() implies (#[trigger] cmds@[k]).text@
                        == text.chars@.subrange(done[k].0, done[k].1) && kind_form(cmds@[k].kind)
                        == cmd_form(text.chars@, done[k].0) by {
                        if k < old_cmds.len() {
                            assert(cmds@[k] == old_cmds[k]);
                        }
                    }
                    assert forall|k: int| 0 <= k < cmds@.len() implies children_read(
                        #[trigger] cmds@[k],
                        text.chars@,
                        done[k].0,
                        done[k].1,
                    ) by {
                        if k < old_cmds.len() {
                            assert(cmds@[k] == old_cmds[k]);
                        }
                    }
                }
                p = q;
            },
            None => {
                assert(pipe_rest(text.chars@, p0) == (0nat, p0));
                assert(done + pipe_spans(text.chars@, p0) =~= done);
                break;
            },
        }
    }
    text.pos = p;
    Some(cmds)
}

} // verus!
