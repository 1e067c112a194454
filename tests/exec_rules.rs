use rusty_bash::command::{parse, CaseArm};
use rusty_bash::exec::{
    case_select, if_after_condition, if_first_step, if_outcome, if_status, parent_closes,
    pipe_plan, pipeline_status, while_after_body, while_after_condition, IfStep, WhileStep,
};
use rusty_bash::feeder::Feeder;
use rusty_bash::glob::glob_match;
use rusty_bash::shell_core::{assign_in_group, split_assignment, Resolution, ShellCore};

fn chars(s: &str) -> Vec<char> {
    s.chars().collect()
}

fn arm(patterns: &[&str]) -> CaseArm {
    CaseArm { patterns: patterns.iter().map(|p| chars(p)).collect(), body: vec![] }
}

#[test]
fn glob_patterns() {
    assert!(glob_match(&chars("*"), &chars("")));
    assert!(glob_match(&chars("a*c"), &chars("abbbc")));
    assert!(glob_match(&chars("a?c"), &chars("abc")));
    assert!(!glob_match(&chars("a?c"), &chars("ac")));
    assert!(!glob_match(&chars("abc"), &chars("abd")));
    assert!(glob_match(&chars("*.rs"), &chars("main.rs")));
    assert!(!glob_match(&chars(""), &chars("x")));
}

#[test]
fn case_runs_first_matching_arm_only() {
    let arms = vec![arm(&["x"]), arm(&["a*"]), arm(&["*"])];
    assert_eq!(case_select(&chars("abc"), &arms), Some(1));
    assert_eq!(case_select(&chars("x"), &arms), Some(0));
    assert_eq!(case_select(&chars("zzz"), &arms), Some(2));
    let none = vec![arm(&["a"]), arm(&["b", "c"])];
    assert_eq!(case_select(&chars("d"), &none), None);
    assert_eq!(case_select(&chars("c"), &none), Some(1));
}

#[test]
fn conditional_runs_first_true_body() {
    let (step, ran) = if_outcome(&vec![1, 0, 1], true);
    assert_eq!(step, IfStep::RunBody(1));
    assert_eq!(ran, 2);
    assert_eq!(if_status(&step, 7), 7);
}

#[test]
fn conditional_without_success_or_else_succeeds() {
    let (step, ran) = if_outcome(&vec![1, 2, 1], false);
    assert_eq!(step, IfStep::Finish);
    assert_eq!(ran, 3);
    assert_eq!(if_status(&step, 1), 0);
    let (step, _) = if_outcome(&vec![1, 2, 1], true);
    assert_eq!(step, IfStep::RunElse);
}

#[test]
fn conditional_steps() {
    assert_eq!(if_first_step(3, false), IfStep::RunCondition(0));
    assert_eq!(if_first_step(0, true), IfStep::RunElse);
    assert_eq!(if_after_condition(0, 1, 3, false), IfStep::RunCondition(1));
    assert_eq!(if_after_condition(2, 0, 3, false), IfStep::RunBody(2));
    assert_eq!(if_after_condition(2, 1, 3, true), IfStep::RunElse);
    assert_eq!(if_after_condition(2, 1, 3, false), IfStep::Finish);
}

#[test]
fn loop_steps() {
    assert_eq!(while_after_condition(0, false), WhileStep::RunBody);
    assert_eq!(while_after_condition(1, false), WhileStep::Stop);
    assert_eq!(while_after_condition(0, true), WhileStep::Stop);
    assert_eq!(while_after_body(false), WhileStep::RunCondition);
    assert_eq!(while_after_body(true), WhileStep::Stop);
}

#[test]
fn two_stage_pipeline() {
    let pipes = vec![(5, 6)];
    let plan = pipe_plan(&pipes);
    assert_eq!(plan, vec![(-1, 6, -1), (5, -1, 6)]);
    assert_eq!(parent_closes(&pipes), vec![5, 6]);
    assert_eq!(pipeline_status(&vec![1, 0]), 0);
    assert_eq!(pipeline_status(&vec![0, 3]), 3);
}

#[test]
fn three_stage_pipeline() {
    let pipes = vec![(3, 4), (5, 6)];
    assert_eq!(pipe_plan(&pipes), vec![(-1, 4, -1), (3, 6, 4), (5, -1, 6)]);
    assert_eq!(parent_closes(&pipes), vec![3, 4, 5, 6]);
}

#[test]
fn subshell_keeps_assignment_inside() {
    let mut f = Feeder::new(chars("( a=1 )"));
    let paren = parse(&mut f).unwrap();
    let mut f = Feeder::new(chars("{ a=1; }"));
    let brace = parse(&mut f).unwrap();

    let mut core = ShellCore::new();
    core.set_var(chars("b"), chars("2"));
    assign_in_group(&paren, &mut core, chars("a"), chars("1"));
    assert_eq!(core.get_var(&chars("a")), None);
    assert_eq!(core.get_var(&chars("b")), Some(chars("2")));
    assign_in_group(&brace, &mut core, chars("a"), chars("1"));
    assert_eq!(core.get_var(&chars("a")), Some(chars("1")));
    assert_eq!(core.get_var(&chars("b")), Some(chars("2")));
}

#[test]
fn variables_newest_binding_wins() {
    let mut core = ShellCore::new();
    core.set_var(chars("x"), chars("1"));
    core.set_var(chars("x"), chars("2"));
    assert_eq!(core.get_var(&chars("x")), Some(chars("2")));
    let copy = core.duplicate();
    assert_eq!(copy.get_var(&chars("x")), Some(chars("2")));
    assert_eq!(copy.status, 0);
}

#[test]
fn simple_command_resolution_order() {
    let mut core = ShellCore::new();
    core.set_function(chars("greet"), chars("{ echo hi; }"));
    core.set_function(chars("cd"), chars("{ echo shadow; }"));
    assert!(matches!(core.resolve(&chars("cd")), Resolution::Builtin));
    assert!(matches!(core.resolve(&chars("exit")), Resolution::Builtin));
    match core.resolve(&chars("greet")) {
        Resolution::Function(b) => assert_eq!(b, chars("{ echo hi; }")),
        _ => panic!("not a function"),
    }
    assert!(matches!(core.resolve(&chars("ls")), Resolution::External));
    assert_eq!(core.get_var(&chars("greet")), None);
}

#[test]
fn assignment_words() {
    assert_eq!(split_assignment(&chars("a=1")), Some((chars("a"), chars("1"))));
    assert_eq!(split_assignment(&chars("_x9=")), Some((chars("_x9"), chars(""))));
    assert_eq!(split_assignment(&chars("k=a=b")), Some((chars("k"), chars("a=b"))));
    assert_eq!(split_assignment(&chars("=1")), None);
    assert_eq!(split_assignment(&chars("1a=2")), None);
    assert_eq!(split_assignment(&chars("a-b=2")), None);
    assert_eq!(split_assignment(&chars("echo")), None);
    assert_eq!(split_assignment(&chars("")), None);
}

#[test]
fn loop_and_case_statuses() {
    assert_eq!(rusty_bash::exec::while_status(None), 0);
    assert_eq!(rusty_bash::exec::while_status(Some(3)), 3);
    assert_eq!(rusty_bash::exec::case_status(None, 5), 0);
    assert_eq!(rusty_bash::exec::case_status(Some(1), 5), 5);
}
