use flatcam::gerber_macros::{lex, parse_expr, MacroDef, MacroExpr, MacroStmt, MacroTok};

fn chars(s: &str) -> Vec<char> {
    s.chars().collect()
}

fn eval(e: &MacroExpr, vars: &[f64]) -> f64 {
    match e {
        MacroExpr::Num(n) => n.iter().collect::<String>().parse::<f64>().unwrap(),
        MacroExpr::Var(i) => {
            if *i == 0 || *i > vars.len() {
                0.0
            } else {
                vars[*i - 1]
            }
        }
        MacroExpr::Neg(a) => -eval(a, vars),
        MacroExpr::Add(a, b) => eval(a, vars) + eval(b, vars),
        MacroExpr::Sub(a, b) => eval(a, vars) - eval(b, vars),
        MacroExpr::Mul(a, b) => eval(a, vars) * eval(b, vars),
        MacroExpr::Div(a, b) => {
            let v = eval(a, vars);
            let d = eval(b, vars);
            if d != 0.0 {
                v / d
            } else {
                v
            }
        }
        MacroExpr::Zero => 0.0,
    }
}

fn eval_expr(s: &str, vars: &[f64]) -> f64 {
    eval(&parse_expr(&chars(s)), vars)
}

#[test]
fn expr_arithmetic() {
    let vars = vec![2.0, 3.0];
    assert_eq!(eval_expr("1+2x3", &vars), 7.0);
    assert_eq!(eval_expr("$1x$2", &vars), 6.0);
    assert_eq!(eval_expr("(1+2)x3", &vars), 9.0);
    assert_eq!(eval_expr("$1/2", &vars), 1.0);
}

#[test]
fn circle_macro_area() {
    let m = MacroDef::new(vec!["1,1,2,0,0".to_string()]);
    let p = m.program();
    assert_eq!(p.len(), 1);
    match &p[0] {
        MacroStmt::Primitive { args } => {
            let v: Vec<f64> = args.iter().map(|a| eval(a, &[])).collect();
            assert_eq!(v, vec![1.0, 1.0, 2.0, 0.0, 0.0]);
        }
        _ => panic!("expected a primitive"),
    }
}

#[test]
fn macro_with_modifier() {
    let m = MacroDef::new(vec!["1,1,$1,0,0".to_string()]);
    match &m.program()[0] {
        MacroStmt::Primitive { args } => assert_eq!(eval(&args[2], &[2.0]), 2.0),
        _ => panic!("expected a primitive"),
    }
}

#[test]
fn comments_and_assignments() {
    let m = MacroDef::new(vec![
        "0 a comment".to_string(),
        "  ".to_string(),
        "$3=$1x2".to_string(),
        "21,1,$3,$2,0,0,0".to_string(),
    ]);
    let p = m.program();
    assert_eq!(p.len(), 2);
    match &p[0] {
        MacroStmt::Assign { var, expr } => {
            assert_eq!(*var, 3);
            assert_eq!(eval(expr, &[1.5]), 3.0);
        }
        _ => panic!("expected an assignment"),
    }
}

#[test]
fn missing_operands_and_parentheses() {
    assert_eq!(eval_expr("-(2+3", &[]), -5.0);
    assert_eq!(eval_expr("2x)", &[]), 0.0);
    assert_eq!(eval_expr("+4/0", &[]), 4.0);
    assert_eq!(eval_expr("1.2.3+1", &[]), 1.0);
    let t = lex(&chars("$12 x 0.5"));
    assert!(matches!(t[0], MacroTok::Var(12)));
    assert!(matches!(t[1], MacroTok::Mul));
}

#[test]
fn comment_and_blank_statements_leave_the_program_unchanged() {
    let body = ["$1=0.5", "1,1,$1x2,0,0", "21,1,1,0.5,0,0,45"];
    let to_def = |v: &[&str]| flatcam::gerber_macros::MacroDef::new(v.iter().map(|s| s.to_string()).collect());
    let reference = format!("{:?}", to_def(&body).program());
    for extra in ["", "  ", "0 a comment", " 0 indented comment"] {
        for k in 0..=body.len() {
            let mut v: Vec<&str> = body.to_vec();
            v.insert(k, extra);
            assert_eq!(format!("{:?}", to_def(&v).program()), reference, "{extra:?} at {k}");
        }
    }
}
