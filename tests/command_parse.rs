use rusty_bash::command::{CommandKind, ExecStep};
use rusty_bash::feeder::Feeder;

fn chars(s: &str) -> Vec<char> {
    s.chars().collect()
}

fn feeder(s: &str) -> Feeder {
    Feeder::new(chars(s))
}

#[test]
fn parse() {
    let mut f = feeder("echo hoge");
    let ans = rusty_bash::command::parse(&mut f).unwrap();
    match ans.kind {
        CommandKind::Simple { args } => {
            assert_eq!(args[0], chars("echo"));
            assert_eq!(args[1], chars("hoge"));
            assert_eq!(args.len(), 2);
        }
        _ => panic!("not a simple command"),
    }
    assert_eq!(f.pos, 9);
}

#[test]
fn simple_command_runs_in_process() {
    let mut f = feeder("ls -l /tmp");
    let c = rusty_bash::command::parse(&mut f).unwrap();
    assert!(c.no_connection());
    assert!(matches!(c.exec_step(), ExecStep::InProcess));
    assert_eq!(c.get_pid(), None);
    assert_eq!(c.get_text(), chars("ls -l /tmp"));
}

#[test]
fn piped_command_forks() {
    let mut f = feeder("cat");
    let mut c = rusty_bash::command::parse(&mut f).unwrap();
    c.set_pipe(3, 4, -1);
    assert!(!c.no_connection());
    assert!(matches!(c.exec_step(), ExecStep::Fork));
    assert_eq!(c.get_pipe_end(), 3);
    assert_eq!(c.get_pipe_out(), 4);
    c.set_pid(1234);
    assert_eq!(c.get_pid(), Some(1234));
    c.set_group_leader();
    assert!(c.group_leader);
}

#[test]
fn failed_parse_leaves_cursor() {
    for text in ["", "   ", ")", "fi", "if true; then echo a;", "( echo a", "{ echo a;", "case x in"] {
        let mut f = feeder(text);
        assert!(rusty_bash::command::parse(&mut f).is_none(), "{}", text);
        assert_eq!(f.pos, 0);
    }
    let mut f = feeder("echo a; done");
    f.pos = 7;
    assert!(rusty_bash::command::parse(&mut f).is_none());
    assert_eq!(f.pos, 7);
}

#[test]
fn if_keyword_gives_conditional() {
    let mut f = feeder("if true; then echo a; elif false; then echo b; else echo c; fi");
    let c = rusty_bash::command::parse(&mut f).unwrap();
    match c.kind {
        CommandKind::If { conds, bodies, else_body } => {
            assert_eq!(conds.len(), 2);
            assert_eq!(bodies.len(), 2);
            assert_eq!(else_body.unwrap().len(), 1);
        }
        _ => panic!("not a conditional"),
    }
    let mut g = feeder("if");
    assert!(rusty_bash::command::parse(&mut g).is_none());
}

#[test]
fn while_loop_parses() {
    let mut f = feeder("while true; do echo a; echo b; done");
    let c = rusty_bash::command::parse(&mut f).unwrap();
    match c.kind {
        CommandKind::While { cond, body } => {
            assert_eq!(cond.len(), 1);
            assert_eq!(body.len(), 2);
        }
        _ => panic!("not a loop"),
    }
}

#[test]
fn case_parses() {
    let mut f = feeder("case abc in a*|b) echo 1 ;; *) echo 2 ;; esac");
    let c = rusty_bash::command::parse(&mut f).unwrap();
    match c.kind {
        CommandKind::Case { subject, arms } => {
            assert_eq!(subject, chars("abc"));
            assert_eq!(arms.len(), 2);
            assert_eq!(arms[0].patterns, vec![chars("a*"), chars("b")]);
            assert_eq!(arms[1].patterns, vec![chars("*")]);
        }
        _ => panic!("not a case"),
    }
}

#[test]
fn groups_parse() {
    let mut f = feeder("( a=1; echo $a )");
    assert!(matches!(rusty_bash::command::parse(&mut f).unwrap().kind, CommandKind::Paren { .. }));
    let mut f = feeder("{ a=1; echo $a; }");
    match rusty_bash::command::parse(&mut f).unwrap().kind {
        CommandKind::Brace { children } => assert_eq!(children.len(), 2),
        _ => panic!("not a brace group"),
    }
    let mut f = feeder("(( 1 + 2 ))");
    match rusty_bash::command::parse(&mut f).unwrap().kind {
        CommandKind::DoubleParen { expr } => assert_eq!(expr, chars(" 1 + 2 ")),
        _ => panic!("not an arithmetic group"),
    }
    let mut f = feeder("( echo a )");
    let c = rusty_bash::command::parse(&mut f).unwrap();
    assert!(!c.no_connection());
}

#[test]
fn function_definition_parses() {
    let mut f = feeder("greet () { echo hi; }");
    match rusty_bash::command::parse(&mut f).unwrap().kind {
        CommandKind::FunctionDefinition { name, definition } => {
            assert_eq!(name, chars("greet"));
            assert!(matches!(definition.kind, CommandKind::Brace { .. }));
        }
        _ => panic!("not a function definition"),
    }
}

#[test]
fn list_stops_at_separator() {
    let mut f = feeder("echo a; echo b");
    let c = rusty_bash::command::parse(&mut f).unwrap();
    assert_eq!(c.get_text(), chars("echo a"));
    assert_eq!(f.pos, 6);
    assert_eq!(f.remaining(), chars("; echo b"));
}

#[test]
fn pipeline_parses() {
    let mut f = feeder("ls -l | grep rs | wc -l");
    let cmds = rusty_bash::command::parse_pipeline(&mut f).unwrap();
    assert_eq!(cmds.len(), 3);
    assert_eq!(cmds[1].get_text(), chars(" grep rs"));
    assert!(cmds.iter().all(|c| c.no_connection()));
    assert_eq!(f.pos, 23);
    let mut g = feeder("a || b");
    let cmds = rusty_bash::command::parse_pipeline(&mut g).unwrap();
    assert_eq!(cmds.len(), 1);
    assert_eq!(g.pos, 1);
    let mut h = feeder("| a");
    assert!(rusty_bash::command::parse_pipeline(&mut h).is_none());
    assert_eq!(h.pos, 0);
}

#[test]
fn simple_command_reads_every_word() {
    let mut f = feeder("  echo  a b\tc ; ls");
    let c = rusty_bash::command::parse(&mut f).unwrap();
    match c.kind {
        CommandKind::Simple { args } => {
            assert_eq!(args, vec![chars("echo"), chars("a"), chars("b"), chars("c")]);
        }
        _ => panic!("not a simple command"),
    }
    assert_eq!(f.pos, 13);
    assert_eq!(c.pid, None);
    assert!(!c.group_leader);
    assert_eq!(c.pipe_prev, -1);
}

#[test]
fn compound_keywords_give_their_kinds() {
    let mut f = feeder("while false; do echo x; done");
    assert!(matches!(rusty_bash::command::parse(&mut f).unwrap().kind, CommandKind::While { .. }));
    let mut f = feeder("case a in a) echo y ;; esac");
    assert!(matches!(rusty_bash::command::parse(&mut f).unwrap().kind, CommandKind::Case { .. }));
    let mut f = feeder("{ echo z; }");
    assert!(matches!(rusty_bash::command::parse(&mut f).unwrap().kind, CommandKind::Brace { .. }));
    let mut f = feeder("while");
    assert!(rusty_bash::command::parse(&mut f).is_none());
    assert_eq!(f.pos, 0);
}

#[test]
fn separators_are_skipped() {
    let v = chars(" ; \n;;x");
    assert_eq!(rusty_bash::command::skip_separators(&v, 0), 4);
    assert_eq!(rusty_bash::command::skip_separators(&v, 6), 6);
}

#[test]
fn compound_children_are_the_lists_read() {
    let mut f = feeder("if a; b; then c; elif d; then e; f; else g; fi");
    match rusty_bash::command::parse(&mut f).unwrap().kind {
        CommandKind::If { conds, bodies, else_body } => {
            let texts = |l: &Vec<rusty_bash::command::Command>| -> Vec<Vec<char>> {
                l.iter().map(|c| c.get_text()).collect()
            };
            assert_eq!(texts(&conds[0]), vec![chars("a"), chars("b")]);
            assert_eq!(texts(&bodies[0]), vec![chars("c")]);
            assert_eq!(texts(&conds[1]), vec![chars("d")]);
            assert_eq!(texts(&bodies[1]), vec![chars("e"), chars("f")]);
            assert_eq!(texts(&else_body.unwrap()), vec![chars("g")]);
        }
        _ => panic!("not a conditional"),
    }
    let mut f = feeder("case x in a|b) one; two ;; c) three ;; esac");
    match rusty_bash::command::parse(&mut f).unwrap().kind {
        CommandKind::Case { subject, arms } => {
            assert_eq!(subject, chars("x"));
            assert_eq!(arms[0].patterns, vec![chars("a"), chars("b")]);
            assert_eq!(arms[0].body.len(), 2);
            assert_eq!(arms[1].body[0].get_text(), chars("three"));
        }
        _ => panic!("not a case"),
    }
    let mut f = feeder("f () { a; b; }");
    match rusty_bash::command::parse(&mut f).unwrap().kind {
        CommandKind::FunctionDefinition { definition, .. } => {
            assert_eq!(definition.get_text(), chars(" { a; b; }"));
            match definition.kind {
                CommandKind::Brace { children } => assert_eq!(children.len(), 2),
                _ => panic!("not a brace group"),
            }
        }
        _ => panic!("not a function definition"),
    }
}
