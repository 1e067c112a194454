use crate::command::CaseArm;
use crate::glob::{glob_match, glob_matches};
use vstd::prelude::*;

verus! {

// ---------------------------------------------------------------- case

/// Whether some pattern of the arm matches `s`.
pub open spec fn arm_matches(arm: CaseArm, s: Seq<char>) -> bool {
    exists|k: int| 0 <= k < arm.patterns@.len() && glob_matches(#[trigger] arm.patterns@[k]@, s)
}

/// The arm that a case statement runs for subject `s`: the first that matches.
pub open spec fn case_choice(arms: Seq<CaseArm>, s: Seq<char>) -> Option<int> {
    if exists|i: int| 0 <= i < arms.len() && arm_matches(#[trigger] arms[i], s) {
        Some(
            choose|i: int|
                0 <= i < arms.len() && arm_matches(#[trigger] arms[i], s) && forall|j: int|
                    0 <= j < i ==> !arm_matches(#[trigger] arms[j], s),
        )
    } else {
        None
    }
}

fn arm_match(arm: &CaseArm, subject: &Vec<char>) -> (r: bool)
    ensures
        r == arm_matches(*arm, subject@),
{
    let mut k: usize = 0;
    while k < arm.patterns.len()
        invariant
            k <= arm.patterns@.len(),
            forall|m: int| 0 <= m < k ==> !glob_matches(#[trigger] arm.patterns@[m]@, subject@),
        decreases arm.patterns@.len() - k,
    {
        if glob_match(&arm.patterns[k], subject) {
            return true;
        }
        k = k + 1;
    }
    false
}

/// Index of the arm a case statement runs: the first, in source order, with a
/// pattern that matches the subject; `None` where no arm matches.
pub fn case_select(subject: &Vec<char>, arms: &Vec<CaseArm>) -> (r: Option<usize>)
    ensures
        r matches Some(i) ==> i < arms@.len() && arm_matches(arms@[i as int], subject@),
        r matches Some(i) ==> forall|j: int| 0 <= j < i ==> !arm_matches(#[trigger] arms@[j], subject@),
        r is None ==> forall|j: int| 0 <= j < arms@.len() ==> !arm_matches(#[trigger] arms@[j], subject@),
        r matches Some(i) ==> case_choice(arms@, subject@) == Some(i as int),
        r is None ==> case_choice(arms@, subject@) is None,
{
    let mut i: usize = 0;
    while i < arms.len()
        invariant
            i <= arms@.len(),
            forall|j: int| 0 <= j < i ==> !arm_matches(#[trigger] arms@[j], subject@),
        decreases arms@.len() - i,
    {
        if arm_match(&arms[i], subject) {
            proof {
                lemma_case_choice_first(arms@, subject@, i as int);
            }
            return Some(i);
        }
        i = i + 1;
    }
    None
}

/// The first matching arm is the one chosen.
proof fn lemma_case_choice_first(arms: Seq<CaseArm>, s: Seq<char>, i: int)
    requires
        0 <= i < arms.len(),
        arm_matches(arms[i], s),
        forall|j: int| 0 <= j < i ==> !arm_matches(#[trigger] arms[j], s),
    ensures
        case_choice(arms, s) == Some(i),
{
    let c = choose|k: int|
        0 <= k < arms.len() && arm_matches(#[trigger] arms[k], s) && forall|j: int|
            0 <= j < k ==> !arm_matches(#[trigger] arms[j], s);
    assert(0 <= c < arms.len() && arm_matches(arms[c], s));
    if c < i {
        assert(!arm_matches(arms[c], s));
    }
    if c > i {
        assert(!arm_matches(arms[i], s));
    }
}

/// A case statement never runs a later arm whose pattern also matches: where
/// arms `i < j` both match the subject, the arm run is not `j`, and it is at
/// most `i`.
pub proof fn lemma_case_no_fallthrough(arms: Seq<CaseArm>, s: Seq<char>, i: int, j: int)
    requires
        0 <= i < j < arms.len(),
        arm_matches(arms[i], s),
        arm_matches(arms[j], s),
    ensures
        case_choice(arms, s) is Some,
        case_choice(arms, s)->0 <= i,
        case_choice(arms, s)->0 != j,
{
    let c = choose|k: int|
        0 <= k < arms.len() && arm_matches(#[trigger] arms[k], s) && forall|m: int|
            0 <= m < k ==> !arm_matches(#[trigger] arms[m], s);
    lemma_first_match_exists(arms, s, i);
    if c > i {
        assert(!arm_matches(arms[i], s));
    }
}

proof fn lemma_first_match_exists(arms: Seq<CaseArm>, s: Seq<char>, i: int)
    requires
        0 <= i < arms.len(),
        arm_matches(arms[i], s),
    ensures
        exists|k: int|
            0 <= k < arms.len() && arm_matches(#[trigger] arms[k], s) && forall|m: int|
                0 <= m < k ==> !arm_matches(#[trigger] arms[m], s),
    decreases i,
{
    if exists|m: int| 0 <= m < i && arm_matches(#[trigger] arms[m], s) {
        let m = choose|m: int| 0 <= m < i && arm_matches(#[trigger] arms[m], s);
        lemma_first_match_exists(arms, s, m);
    } else {
        assert(forall|m: int| 0 <= m < i ==> !arm_matches(#[trigger] arms[m], s));
    }
}

// ---------------------------------------------------------------- if

/// The next thing a conditional does.
#[derive(PartialEq, Eq, Structural, Debug, Clone, Copy)]
pub enum IfStep {
    RunCondition(usize),
    RunBody(usize),
    RunElse,
    Finish,
}

/// What a conditional with conditions of the given statuses runs, reading
/// them from index `i` on: the body of the first that succeeded, else the
/// else-body where there is one.
pub open spec fn if_result(statuses: Seq<i32>, has_else: bool, i: int) -> IfStep
    decreases statuses.len() - i,
{
    if i < 0 || i >= statuses.len() {
        if has_else {
            IfStep::RunElse
        } else {
            IfStep::Finish
        }
    } else if statuses[i] == 0 {
        IfStep::RunBody(i as usize)
    } else {
        if_result(statuses, has_else, i + 1)
    }
}

/// Where a conditional with `n_conds` conditions starts.
pub fn if_first_step(n_conds: usize, has_else: bool) -> (r: IfStep)
    ensures
        n_conds > 0 ==> r == IfStep::RunCondition(0),
        n_conds == 0 && has_else ==> r == IfStep::RunElse,
        n_conds == 0 && !has_else ==> r == IfStep::Finish,
{
    if n_conds > 0 {
        IfStep::RunCondition(0)
    } else if has_else {
        IfStep::RunElse
    } else {
        IfStep::Finish
    }
}

/// What a conditional does once condition `i` has reported `status`.
pub fn if_after_condition(i: usize, status: i32, n_conds: usize, has_else: bool) -> (r: IfStep)
    requires
        i < n_conds,
    ensures
        status == 0 ==> r == IfStep::RunBody(i),
        status != 0 && i + 1 < n_conds ==> r == IfStep::RunCondition((i + 1) as usize),
        status != 0 && i + 1 == n_conds && has_else ==> r == IfStep::RunElse,
        status != 0 && i + 1 == n_conds && !has_else ==> r == IfStep::Finish,
{
    if status == 0 {
        IfStep::RunBody(i)
    } else if i + 1 < n_conds {
        IfStep::RunCondition(i + 1)
    } else if has_else {
        IfStep::RunElse
    } else {
        IfStep::Finish
    }
}

/// Runs the conditional's steps against the statuses its conditions would
/// report, and gives the branch it ends on and how many conditions it ran.
pub fn if_outcome(statuses: &Vec<i32>, has_else: bool) -> (r: (IfStep, usize))
    ensures
        r.0 == if_result(statuses@, has_else, 0),
        r.0 matches IfStep::RunBody(k) ==> r.1 == k + 1,
        !(r.0 is RunBody) ==> r.1 == statuses@.len(),
{
    let n = statuses.len();
    let mut step = if_first_step(n, has_else);
    let mut ran: usize = 0;
    while ran < n
        invariant
            ran <= n == statuses@.len(),
            n > 0 ==> ran < n ==> step == IfStep::RunCondition(ran),
            forall|j: int| 0 <= j < ran ==> statuses@[j] != 0,
            ran == n ==> step == (if has_else { IfStep::RunElse } else { IfStep::Finish }),
            if_result(statuses@, has_else, 0) == if_result(statuses@, has_else, ran as int),
        decreases n - ran,
    {
        let status = statuses[ran];
        step = if_after_condition(ran, status, n, has_else);
        ran = ran + 1;
        if status == 0 {
            return (step, ran);
        }
    }
    (step, ran)
}

/// The status a conditional reports: that of the branch it ran, and success
/// where it ran none.
pub open spec fn spec_if_status(step: IfStep, branch_status: i32) -> i32 {
    if step is Finish {
        0
    } else {
        branch_status
    }
}

pub fn if_status(step: &IfStep, branch_status: i32) -> (r: i32)
    ensures
        r == spec_if_status(*step, branch_status),
        step is Finish ==> r == 0,
{
    match step {
        IfStep::Finish => 0,
        _ => branch_status,
    }
}

/// A conditional runs exactly the body of the first condition that succeeds,
/// after running that condition and those before it, and no other body.
/// Where no condition succeeds it runs the else-body if there is one, and
/// otherwise ends with no branch, reporting success.
pub proof fn lemma_if_first_success(statuses: Seq<i32>, has_else: bool, k: int)
    requires
        0 <= k <= statuses.len(),
        forall|j: int| 0 <= j < k ==> statuses[j] != 0,
    ensures
        k < statuses.len() && statuses[k] == 0 ==> if_result(statuses, has_else, 0)
            == IfStep::RunBody(k as usize),
        k == statuses.len() && has_else ==> if_result(statuses, has_else, 0) == IfStep::RunElse,
        k == statuses.len() && !has_else ==> if_result(statuses, has_else, 0) == IfStep::Finish,
        k == statuses.len() && !has_else ==> forall|b: i32|
            #[trigger] spec_if_status(if_result(statuses, has_else, 0), b) == 0,
{
    lemma_if_result_skip(statuses, has_else, k);
}

proof fn lemma_if_result_skip(statuses: Seq<i32>, has_else: bool, k: int)
    requires
        0 <= k <= statuses.len(),
        forall|j: int| 0 <= j < k ==> statuses[j] != 0,
    ensures
        if_result(statuses, has_else, 0) == if_result(statuses, has_else, k),
    decreases k,
{
    if k > 0 {
        lemma_if_result_skip(statuses, has_else, k - 1);
    }
}

// ---------------------------------------------------------------- while

/// The next thing a loop does.
#[derive(PartialEq, Eq, Structural, Debug, Clone, Copy)]
pub enum WhileStep {
    RunCondition,
    RunBody,
    Stop,
}

/// After the loop's condition reported `status`: run the body while it
/// succeeds, unless an interrupt has come.
pub fn while_after_condition(status: i32, interrupted: bool) -> (r: WhileStep)
    ensures
        r is RunBody <==> status == 0 && !interrupted,
        r is Stop <==> !(status == 0 && !interrupted),
{
    if status == 0 && !interrupted {
        WhileStep::RunBody
    } else {
        WhileStep::Stop
    }
}

/// After the loop's body: test the condition again, unless an interrupt has come.
pub fn while_after_body(interrupted: bool) -> (r: WhileStep)
    ensures
        r is RunCondition <==> !interrupted,
        r is Stop <==> interrupted,
{
    if interrupted {
        WhileStep::Stop
    } else {
        WhileStep::RunCondition
    }
}

/// The status a loop reports: that of the last body it ran, and success
/// where it ran none.
pub fn while_status(last_body_status: Option<i32>) -> (r: i32)
    ensures
        last_body_status matches Some(b) ==> r == b,
        last_body_status is None ==> r == 0,
{
    match last_body_status {
        Some(b) => b,
        None => 0,
    }
}

/// The status a case statement reports: that of the arm it ran, and success
/// where no arm matched.
pub fn case_status(arm: Option<usize>, body_status: i32) -> (r: i32)
    ensures
        arm is Some ==> r == body_status,
        arm is None ==> r == 0,
{
    match arm {
        Some(_) => body_status,
        None => 0,
    }
}

// ---------------------------------------------------------------- pipeline

/// The descriptors of stage `k` of a pipeline of `pipes.len() + 1` stages,
/// where pipe `m` (read end, write end) joins stage `m` to stage `m + 1`:
/// (input, output, previous pipe's write end), `-1` where there is none.
pub open spec fn stage_ends(pipes: Seq<(i32, i32)>, k: int) -> (i32, i32, i32) {
    (
        if k > 0 { pipes[k - 1].0 } else { -1i32 },
        if k < pipes.len() { pipes[k].1 } else { -1i32 },
        if k > 0 { pipes[k - 1].1 } else { -1i32 },
    )
}

/// The descriptors each stage of a pipeline is given.
pub fn pipe_plan(pipes: &Vec<(i32, i32)>) -> (r: Vec<(i32, i32, i32)>)
    requires
        pipes@.len() < usize::MAX,
    ensures
        r@.len() == pipes@.len() + 1,
        forall|k: int| 0 <= k < r@.len() ==> #[trigger] r@[k] == stage_ends(pipes@, k),
{
    let mut r: Vec<(i32, i32, i32)> = Vec::new();
    let mut k: usize = 0;
    while k <= pipes.len()
        invariant
            k <= pipes@.len() + 1,
            pipes@.len() < usize::MAX,
            r@.len() == k,
            forall|m: int| 0 <= m < k ==> #[trigger] r@[m] == stage_ends(pipes@, m),
        decreases pipes@.len() + 1 - k,
    {
        let pin = if k > 0 { pipes[k - 1].0 } else { -1 };
        let pout = if k < pipes.len() { pipes[k].1 } else { -1 };
        let pprev = if k > 0 { pipes[k - 1].1 } else { -1 };
        r.push((pin, pout, pprev));
        k = k + 1;
    }
    r
}

/// Every descriptor of the pipeline's pipes: the parent closes them all once
/// the stages are forked, and keeps none open.
pub fn parent_closes(pipes: &Vec<(i32, i32)>) -> (r: Vec<i32>)
    requires
        2 * pipes@.len() <= usize::MAX,
    ensures
        r@.len() == 2 * pipes@.len(),
        forall|m: int| 0 <= m < pipes@.len() ==> r@[2 * m] == #[trigger] pipes@[m].0 && r@[2 * m
            + 1] == pipes@[m].1,
        forall|m: int| 0 <= m < pipes@.len() ==> r@.contains(#[trigger] pipes@[m].0) && r@.contains(
            pipes@[m].1,
        ),
{
    let mut r: Vec<i32> = Vec::new();
    let mut m: usize = 0;
    while m < pipes.len()
        invariant
            m <= pipes@.len(),
            r@.len() == 2 * m,
            forall|j: int| 0 <= j < m ==> r@[2 * j] == #[trigger] pipes@[j].0 && r@[2 * j + 1]
                == pipes@[j].1,
        decreases pipes@.len() - m,
    {
        r.push(pipes[m].0);
        r.push(pipes[m].1);
        m = m + 1;
    }
    assert forall|j: int| 0 <= j < pipes@.len() implies r@.contains(#[trigger] pipes@[j].0)
        && r@.contains(pipes@[j].1) by {
        assert(r@[2 * j] == pipes@[j].0);
        assert(r@[2 * j + 1] == pipes@[j].1);
    }
    r
}

/// Once the parent has closed what `parent_closes` gives, it holds none of
/// the descriptors that `pipe_plan` handed to any stage.
pub proof fn lemma_parent_holds_no_pipe_end(pipes: Seq<(i32, i32)>, closed: Seq<i32>, k: int)
    requires
        0 <= k <= pipes.len(),
        forall|m: int|
            0 <= m < pipes.len() ==> closed.contains(#[trigger] pipes[m].0) && closed.contains(
                pipes[m].1,
            ),
    ensures
        stage_ends(pipes, k).0 != -1 ==> closed.contains(stage_ends(pipes, k).0),
        stage_ends(pipes, k).1 != -1 ==> closed.contains(stage_ends(pipes, k).1),
        stage_ends(pipes, k).2 != -1 ==> closed.contains(stage_ends(pipes, k).2),
{
    if k > 0 {
        assert(closed.contains(pipes[k - 1].0));
    }
    if k < pipes.len() {
        assert(closed.contains(pipes[k].0));
    }
}

/// A pipeline reports the status of its last stage, whatever the others reported.
pub fn pipeline_status(statuses: &Vec<i32>) -> (r: i32)
    requires
        statuses@.len() > 0,
    ensures
        r == statuses@.last(),
{
    statuses[statuses.len() - 1]
}

} // verus!
