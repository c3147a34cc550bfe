use calculator::CalcError;
use calculator::Calculator;
use calculator::Evaluation;
use calculator::FloatCmp;
use calculator::MathAnswer;
use calculator::MathRequest;
use calculator::Operation;
use calculator::Step;

fn apply_unary(op: Operation, a: f64) -> f64 {
    match op {
        Operation::Negation => a * -1.0,
        Operation::Sin => a.sin(),
        Operation::Cos => a.cos(),
        Operation::Tan => a.tan(),
        Operation::Abs => a.abs(),
        Operation::Sqrt => a.sqrt(),
        Operation::Radians => a.to_radians(),
        Operation::Degrees => a.to_degrees(),
        Operation::Ln => a.ln(),
        Operation::Log2 => a.log2(),
        Operation::Log10 => a.log10(),
        Operation::Exp => a.exp(),
        Operation::Sign => a.signum(),
        _ => panic!("not a unary request"),
    }
}

fn apply_binary(op: Operation, a: f64, b: f64) -> f64 {
    match op {
        Operation::Addition => a + b,
        Operation::Subtraction => a - b,
        Operation::Multiplication => a * b,
        Operation::Division => a / b,
        Operation::Modulus => a % b,
        Operation::Power => a.powf(b),
        Operation::Min => f64::min(a, b),
        Operation::Max => f64::max(a, b),
        _ => panic!("not a binary request"),
    }
}

fn solve(literals: &[Vec<char>], q: MathRequest) -> MathAnswer {
    match q {
        MathRequest::ParseLiteral { index } => {
            let text: String = literals[index].iter().collect();
            MathAnswer::Bits { bits: text.parse::<f64>().unwrap().to_bits() }
        }
        MathRequest::Unary { op, a } => {
            MathAnswer::Bits { bits: apply_unary(op, f64::from_bits(a)).to_bits() }
        }
        MathRequest::Binary { op, a, b } => MathAnswer::Bits {
            bits: apply_binary(op, f64::from_bits(a), f64::from_bits(b)).to_bits(),
        },
        MathRequest::Compare { a, b } => {
            let x = f64::from_bits(a);
            let y = f64::from_bits(b);
            let cmp = if x < y {
                FloatCmp::Less
            } else if x > y {
                FloatCmp::Greater
            } else if x == y {
                FloatCmp::Equal
            } else {
                FloatCmp::Unordered
            };
            MathAnswer::Cmp { cmp }
        }
        MathRequest::Truthy { a } => MathAnswer::Flag { truthy: f64::from_bits(a) != 0.0 },
        MathRequest::TruthyPair { a, b } => MathAnswer::FlagPair {
            a_truthy: f64::from_bits(a) != 0.0,
            b_truthy: f64::from_bits(b) != 0.0,
        },
        MathRequest::TruncToInt { a } => MathAnswer::Int { x: f64::from_bits(a) as i64 },
        MathRequest::IntToBits { x } => MathAnswer::Bits { bits: (x as f64).to_bits() },
        MathRequest::TruncToIndex { a } => MathAnswer::Index { idx: f64::from_bits(a) as usize },
    }
}

fn evaluate_expression(calc: &mut Calculator, input: &str) -> Result<f64, CalcError> {
    let lexed = calc.tokenize(input)?;
    let rpn = calc.parse(lexed.tokens)?;
    let mut ev = Evaluation::new(rpn);
    let mut answer: Option<MathAnswer> = None;
    loop {
        let r = ev.step(calc, answer);
        answer = None;
        match r {
            Step::Continue => {}
            Step::Request(q) => answer = Some(solve(&lexed.literals, q)),
            Step::Done { value } => return Ok(f64::from_bits(value)),
            Step::Failed { error } => return Err(error),
        }
    }
}

fn eval_fresh(input: &str) -> Result<f64, CalcError> {
    let mut calc = Calculator::new();
    evaluate_expression(&mut calc, input)
}

#[test]
fn test_boolean() {
    assert_eq!(
        Ok(1.0),
        eval_fresh(
            "
		not false and true or false and true nand false or true and (true or false and (false nor (true and false)))"
        )
    );
}

#[test]
fn test_relational() {
    assert_eq!(
        Ok(1.0),
        eval_fresh(
            "
        8.0 > 7.9999 and 8 >= 8.0 and 8 < 9 and 1 <= 1"
        )
    );
}

#[test]
fn test_result() {
    let mut calculator = Calculator::new();
    evaluate_expression(&mut calculator, "1+1").unwrap();
    evaluate_expression(&mut calculator, "1+2").unwrap();
    evaluate_expression(&mut calculator, "1+3").unwrap();
    evaluate_expression(&mut calculator, "1+4").unwrap();
    assert!(evaluate_expression(&mut calculator, "result(0)").is_err());
    assert_eq!(Ok(2.0), evaluate_expression(&mut calculator, "result(1)"));
    assert_eq!(Ok(3.0), evaluate_expression(&mut calculator, "result(2)"));
    assert_eq!(Ok(4.0), evaluate_expression(&mut calculator, "result(3)"));
    assert_eq!(Ok(5.0), evaluate_expression(&mut calculator, "result(4)"));
}

#[test]
fn test_variables() {
    let mut calculator = Calculator::new();
    evaluate_expression(&mut calculator, "x = 1 + 1").unwrap();
    evaluate_expression(&mut calculator, "y = x + 1").unwrap();
    evaluate_expression(&mut calculator, "long_variable_name_123 = x * y + 1").unwrap();
    assert_eq!(Ok(2.0), evaluate_expression(&mut calculator, "x"));
    assert_eq!(Ok(3.0), evaluate_expression(&mut calculator, "y"));
    assert_eq!(
        Ok(7.0),
        evaluate_expression(&mut calculator, "long_variable_name_123")
    );
}

#[test]
fn test_mixed() {
    assert_eq!(
        Ok(100.0),
        eval_fresh(
            "
        (abs(cos(((((--(abs((((1+1+(1+1)+1+1+(4*1))+1+(10-11))/10 * 10) % 9 - 10)^2-80+9))
        *10/10+(2*2 + 6)-5-2-(2+1))*2.00000000-5.6-4.400000000000000000000)-9)*pi))*10.0*
        sign(max(12.44343234, 11.84934)))*(1+2+3+4)+3!!-720+2**-2-0.25"
        )
    );
}

#[test]
fn precedence_and_associativity() {
    assert_eq!(Ok(512.0), eval_fresh("2^3^2"));
    assert_eq!(Ok(3.0), eval_fresh("10-5-2"));
    assert_eq!(Ok(7.0), eval_fresh("1+2*3"));
    assert_eq!(Ok(512.0), eval_fresh("2**3**2"));
}

#[test]
fn unary_disambiguation() {
    assert_eq!(Ok(1.0), eval_fresh("-3+4"));
    assert_eq!(Ok(1.0), eval_fresh("4+-3"));
    assert_eq!(Ok(5.0), eval_fresh("--5"));
    assert_eq!(Ok(5.0), eval_fresh("+5"));
    assert_eq!(Ok(0.25), eval_fresh("2**-2"));
}

#[test]
fn functions_and_constants() {
    assert_eq!(Ok(0.0), eval_fresh("sin(0)"));
    assert_eq!(Ok(2.0), eval_fresh("max(1,2)"));
    assert!((eval_fresh("pi").unwrap() - std::f64::consts::PI).abs() < 1e-9);
    assert_eq!(
        eval_fresh("tau").unwrap(),
        2.0 * std::f64::consts::PI
    );
    assert_eq!(eval_fresh("e").unwrap(), std::f64::consts::E);
    assert_eq!(Ok(4.0), eval_fresh("sqrt(16)"));
    assert_eq!(Ok(3.0), eval_fresh("min(3,4)"));
    assert_eq!(Ok(1024.0), eval_fresh("pow(2,10)"));
    assert_eq!(Ok(7.0), eval_fresh("abs(0-7)"));
    assert_eq!(Ok(10.0), eval_fresh("log2(1024)"));
    assert_eq!(Ok(1.0), eval_fresh("true"));
    assert_eq!(Ok(0.0), eval_fresh("false"));
}

#[test]
fn case_insensitive_lookup() {
    assert!((eval_fresh("PI").unwrap() - std::f64::consts::PI).abs() < 1e-9);
    assert_eq!(Ok(0.0), eval_fresh("SIN(0)"));
    assert_eq!(Ok(2.0), eval_fresh("MAX(1,2)"));
    let mut calc = Calculator::new();
    evaluate_expression(&mut calc, "X = 5").unwrap();
    assert_eq!(Ok(5.0), evaluate_expression(&mut calc, "x"));
}

#[test]
fn variables_round_trip() {
    let mut calc = Calculator::new();
    evaluate_expression(&mut calc, "x=1+1").unwrap();
    evaluate_expression(&mut calc, "y=x+1").unwrap();
    assert_eq!(Ok(6.0), evaluate_expression(&mut calc, "x*y"));
}

#[test]
fn bare_identifier_auto_declares() {
    let mut calc = Calculator::new();
    assert_eq!(0, calc.variable_count());
    assert_eq!(Ok(0.0), evaluate_expression(&mut calc, "z"));
    assert_eq!(1, calc.variable_count());
    assert_eq!(Ok(0.0), evaluate_expression(&mut calc, "z"));
    assert_eq!(1, calc.variable_count());
}

#[test]
fn variables_persist_across_failed_expressions() {
    let mut calc = Calculator::new();
    assert!(matches!(
        evaluate_expression(&mut calc, "fresh_name @"),
        Err(CalcError::InvalidCharacter('@'))
    ));
    // The failed expression still declared its variable.
    assert_eq!(1, calc.variable_count());
    assert_eq!(Ok(0.0), evaluate_expression(&mut calc, "fresh_name"));
}

#[test]
fn history_lookup() {
    let mut calc = Calculator::new();
    evaluate_expression(&mut calc, "1+1").unwrap();
    evaluate_expression(&mut calc, "1+2").unwrap();
    assert_eq!(Ok(2.0), evaluate_expression(&mut calc, "result(1)"));
    assert_eq!(Ok(3.0), evaluate_expression(&mut calc, "result(2)"));
    assert!(matches!(
        evaluate_expression(&mut calc, "result(0)"),
        Err(CalcError::IndexOutOfRange)
    ));
    assert!(matches!(
        evaluate_expression(&mut calc, "result(5)"),
        Err(CalcError::IndexOutOfRange)
    ));
}

#[test]
fn failed_expression_records_no_result() {
    let mut calc = Calculator::new();
    evaluate_expression(&mut calc, "1+1").unwrap();
    assert_eq!(1, calc.result_count());
    assert!(evaluate_expression(&mut calc, "1+").is_err());
    assert_eq!(1, calc.result_count());
}

#[test]
fn error_cases() {
    assert!(matches!(eval_fresh(""), Err(CalcError::EmptyExpression)));
    assert!(matches!(
        eval_fresh("1+"),
        Err(CalcError::InsufficientOperands)
    ));
    assert!(matches!(
        eval_fresh("(1+2"),
        Err(CalcError::MissingLeftParenthesis)
    ));
    assert!(matches!(
        eval_fresh("@"),
        Err(CalcError::InvalidCharacter('@'))
    ));
}

#[test]
fn more_error_cases() {
    assert_eq!(
        Err(CalcError::UnknownFunction(vec!['f', 'o', 'o'])),
        eval_fresh("foo(1)")
    );
    assert!(matches!(eval_fresh("1 2"), Err(CalcError::TooManyOperands)));
    assert!(matches!(
        eval_fresh("5 = 3"),
        Err(CalcError::AssignmentToNonVariable)
    ));
    assert!(matches!(
        eval_fresh("1,2"),
        Err(CalcError::MissingLeftParenthesis)
    ));
    assert!(matches!(
        eval_fresh("&"),
        Err(CalcError::InvalidCharacter('&'))
    ));
    assert!(matches!(
        eval_fresh("1.5.5"),
        Err(CalcError::InvalidCharacter('.'))
    ));
    assert!(matches!(eval_fresh("()"), Err(CalcError::InsufficientOperands)));
}

#[test]
fn boolean_chain() {
    assert_eq!(
        Ok(1.0),
        eval_fresh(
            "not false and true or false and true nand false or true and (true or false and (false nor (true and false)))"
        )
    );
    assert_eq!(Ok(0.0), eval_fresh("not true"));
    assert_eq!(Ok(1.0), eval_fresh("true && true"));
    assert_eq!(Ok(1.0), eval_fresh("false || true"));
    assert_eq!(Ok(1.0), eval_fresh("true nand false"));
    assert_eq!(Ok(0.0), eval_fresh("false nor true"));
}

#[test]
fn comparison_operators() {
    assert_eq!(Ok(1.0), eval_fresh("1 != 2"));
    assert_eq!(Ok(1.0), eval_fresh("2 == 2"));
    assert_eq!(Ok(0.0), eval_fresh("3 < 2"));
    assert_eq!(Ok(1.0), eval_fresh("2 <= 2"));
    assert_eq!(Ok(1.0), eval_fresh("3 > 2"));
    assert_eq!(Ok(1.0), eval_fresh("2 >= 2"));
}

#[test]
fn factorial_cases() {
    assert_eq!(Ok(6.0), eval_fresh("3!"));
    assert_eq!(Ok(720.0), eval_fresh("3!!"));
    assert_eq!(Ok(1.0), eval_fresh("1!"));
    assert_eq!(Ok(1.0), eval_fresh("0!"));
    assert_eq!(Ok(1.0), eval_fresh("(0-5)!"));
}

#[test]
fn arithmetic_values() {
    assert_eq!(Ok(2.0), eval_fresh(" 1\t+\n1 "));
    assert_eq!(Ok(1.0), eval_fresh("7 % 3"));
    assert_eq!(Ok(1.0), eval_fresh("7 mod 3"));
    assert_eq!(Ok(8.0), eval_fresh("2**3"));
    assert_eq!(Ok(2.5), eval_fresh("5/2"));
    assert_eq!(Ok(0.5), eval_fresh("1.5 - 1"));
    assert_eq!(Ok(90.0), eval_fresh("degrees(radians(90))"));
}

#[test]
fn deterministic_across_fresh_sessions() {
    let first = eval_fresh("2^3^2 + sin(0) - 10-5-2").unwrap();
    let second = eval_fresh("2^3^2 + sin(0) - 10-5-2").unwrap();
    assert_eq!(first, second);
}

#[test]
fn chained_assignment_is_left_associative() {
    // Assignment groups left to right, so the second `=` sees the plain
    // value the first one produced, not a variable.
    let mut calc = Calculator::new();
    assert!(matches!(
        evaluate_expression(&mut calc, "x = y = 5"),
        Err(CalcError::AssignmentToNonVariable)
    ));
    // The inner assignment had already run: x took y's (zero) value.
    assert_eq!(Ok(0.0), evaluate_expression(&mut calc, "x"));
}

#[test]
fn assignment_uses_lex_time_values() {
    let mut calc = Calculator::new();
    evaluate_expression(&mut calc, "x = 5").unwrap();
    // Both mentions of x are read when the line is lexed, so the assignment
    // inside the parentheses does not change what the second x adds.
    assert_eq!(Ok(8.0), evaluate_expression(&mut calc, "(x=3) + x"));
    assert_eq!(Ok(3.0), evaluate_expression(&mut calc, "x"));
}
