use ankara::builtin::get_builtin_environment::get_builtin_environment;
use ankara::interpreter::environment::Environment;
use ankara::interpreter::evaluator::{EvalOption, Error};
use ankara::interpreter::object::{Object, Return};
use ankara::interpreter::runtime::Runtime;
use ankara::lexer::Peekable;
use ankara::parser::parse;

fn run(source_code: &str) -> (Runtime, Result<Object, Error>) {
    let mut rt = Runtime::new();
    let env = rt.new_environment(None);
    let mut lexer = Peekable::new(source_code);
    let program = parse(&mut lexer).unwrap();
    let result = program.eval(&mut rt, env, &EvalOption::new());
    (rt, result)
}

fn get_result(source_code: &str) -> Object {
    run(source_code).1.unwrap()
}

fn run_with_print(source_code: &str) -> (Runtime, Result<Object, Error>) {
    let mut rt = get_builtin_environment();
    let mut lexer = Peekable::new(source_code);
    let program = parse(&mut lexer).unwrap();
    let result = program.eval(&mut rt, 0, &EvalOption::new());
    (rt, result)
}

fn error_of(source_code: &str) -> String {
    run(source_code).1.unwrap_err().message
}

#[test]
fn test_element_access_expression() {
    let val = get_result(
        "\
        let x = [1, 2, 3];
        return x[0];
        ",
    );
    assert_eq!(val.unwrap_return(), Object::Number(1));
}

#[test]
fn test_for_loop() {
    let val = get_result(
        "\
        let x = [1, 2, 3];
        let last = for (value in x) {
            if (value == 3) {
                value
            }
        };
        return last;
        ",
    );
    assert_eq!(val.unwrap_return(), Object::Number(3));
}

#[test]
fn test_switch_expression() {
    let val = get_result(
        "\
        let x = 2;
        let a = switch (x) {
            case 1: {1}
            case 2: {2}
        };
        return a;
        ",
    );
    assert_eq!(val.unwrap_return(), Object::Number(2));
}

#[test]
fn test_default_case() {
    let val = get_result(
        "\
        let x = 2;
        let a = switch (x) {
            case 1: {1}
            default: {2}
        };
        return a;
        ",
    );
    assert_eq!(val.unwrap_return(), Object::Number(2));
}

#[test]
fn test_array_map() {
    let val = get_result(
        "\
        let x = [1, 2, 3, myKey: 4];
        return x[\"myKey\"];
        ",
    );
    assert_eq!(val.unwrap_return(), Object::Number(4));
}

#[test]
fn test_assign() {
    let val = get_result(
        "\
        let x = 1;
        let fnc = fn() {
            x = 2;
        };
        fnc();
        return x;
        ",
    );
    assert_eq!(val.unwrap_return(), Object::Number(2));
}

#[test]
fn test_assign_element_access() {
    let val = get_result(
        "\
    let x = [1, 2, 3];
    let fnc = fn() {
        x[0] = 2;
    };
    fnc();
    return x[0];
    ",
    );
    assert_eq!(val.unwrap_return(), Object::Number(2));
}

#[test]
fn test_watch() {
    let val = get_result(
        "\
        let x = 1;
        let y = 2;
        watch result = {
            x + y
        };
        x = 2;
        return result;
        ",
    );
    assert_eq!(val.unwrap_return(), Object::Number(4));
}

#[test]
fn test_block_expression() {
    let val = get_result(
        "\
        let x = 1;
        let y = 2;
        let result = {
            x + y
        };
        return result;
        ",
    );
    assert_eq!(val.unwrap_return(), Object::Number(3));
}

#[test]
fn test_block_level_return() {
    let val = get_result(
        "\
        let array = [1, 2, 3, 4, 5];
        let val = for(i in array) {
            if(i == 3) {
                \"i == 3\"
            }
        };
        return val;
        ",
    );
    assert_eq!(val.unwrap_return(), Object::StringLiteral("i == 3".to_string()));
}

#[test]
fn test_function_level_return() {
    let val = get_result(
        "\
        let array = [1, 2, 3, 4, 5];
        let fnc = fn() {
            let val = for(i in array) {
                if(i == 3) {
                    return \"i == 3\";
                }
            };
        };
        return fnc();
        ",
    );
    assert_eq!(val.unwrap_return(), Object::StringLiteral("i == 3".to_string()));
}

#[test]
fn test_sample_code1() {
    let val = get_result(
        "\
        let x = 1;
        let a = if (x == 1) {
            1
        } else {
            2
        }; 
        return a;
        ",
    );
    assert_eq!(val.unwrap_return(), Object::Number(1));
}

#[test]
fn test_sample_code2() {
    let val = get_result(
        "\
        let x = \"hello\";
        let isHello = fn(x) {
            if (x == \"hello\") {
                return true;
            } else {
                return false;
            }
        };
        return isHello(x);
        ",
    );
    assert_eq!(val.unwrap_return(), Object::Boolean(true));
}

#[test]
fn test_sample_code3() {
    let val = get_result(
        "\
        let fnc1 = fn() {
            return 1;
        };
        let fnc2 = fn() {
            return fnc1();
        };
        let fnc3 = fn(cb) {
            return cb();
        };\
        return fnc3(fnc2);
        ",
    );
    assert_eq!(val.unwrap_return(), Object::Number(1));
}

#[test]
fn test_sample_code4() {
    let val = get_result(
        "\
            let fnc3 = fn() {
                {
                    {
                        \"a\"
                    }
                }
            };

            let fnc3Return = fnc3();
            return fnc3Return;

        ",
    );
    assert_eq!(val.unwrap_return(), Object::StringLiteral("a".to_string()));
}

#[test]
fn program_value_is_the_return_marker() {
    let val = get_result("let x = [1,2,3]; return x[0];");
    assert_eq!(val, Object::Return(Box::new(Return { value: Object::Number(1) })));
}

#[test]
fn program_without_return_is_no_value() {
    assert_eq!(get_result("let x = 1; let y = x + 2; y = y * 3;"), Object::NoValue);
    assert_eq!(get_result(""), Object::NoValue);
}

#[test]
fn trailing_expression_at_top_level_ends_the_program() {
    let val = get_result("let x = 5; x + 1 let y = 0;");
    assert_eq!(val.unwrap_block_return(), Object::Number(6));
}

#[test]
fn closures_capture_the_same_environment() {
    let val = get_result(
        "let x = 1;
        let get1 = fn() { x };
        let get2 = fn() { x };
        x = 7;
        return get1() + get2();",
    );
    assert_eq!(val.unwrap_return(), Object::Number(14));
}

#[test]
fn closure_sees_later_definitions_of_its_scope() {
    let val = get_result(
        "let make = fn(n) { fn() { n = n + 1; n } };
        let counter = make(10);
        counter();
        return counter();",
    );
    assert_eq!(val.unwrap_return(), Object::Number(12));
}

#[test]
fn arrays_are_shared_between_bindings() {
    let val = get_result("let x = [1, 2]; let y = x; x[0] = 9; return y[0];");
    assert_eq!(val.unwrap_return(), Object::Number(9));
}

#[test]
fn keyed_assignment_is_shared_too() {
    let val = get_result("let x = [k: 1]; let y = x; x[\"k\"] = 5; x[\"n\"] = 6; return y[\"k\"] + y[\"n\"];");
    assert_eq!(val.unwrap_return(), Object::Number(11));
}

#[test]
fn switch_takes_one_branch_only() {
    let val = get_result(
        "let hits = 0;
        let v = switch (1) { case 1: { hits = hits + 1; } case 1: { hits = hits + 10; 5 } default: { hits = hits + 100; 7 } };
        return hits;",
    );
    assert_eq!(val.unwrap_return(), Object::Number(1));
}

#[test]
fn switch_default_when_nothing_matches() {
    let val = get_result("return switch (\"b\") { case \"a\": { 1 } default: { 3 } };");
    assert_eq!(val.unwrap_return(), Object::Number(3));
    let val = get_result("let a = switch (5) { case 1: { 1 } }; return a;");
    assert_eq!(val.unwrap_return(), Object::NoValue);
}

#[test]
fn return_inside_loop_leaves_the_function() {
    let val = get_result(
        "let f = fn() {
            for (i in [1, 2, 3]) { if (i == 2) { return i * 10; } };
            return 0;
        };
        return f();",
    );
    assert_eq!(val.unwrap_return(), Object::Number(20));
}

#[test]
fn trailing_expression_inside_loop_does_not_leave_the_function() {
    let val = get_result(
        "let f = fn() {
            let found = for (i in [1, 2, 3]) { if (i == 2) { i * 10 } };
            return found + 1;
        };
        return f();",
    );
    assert_eq!(val.unwrap_return(), Object::Number(21));
}

#[test]
fn watch_follows_every_assignment() {
    let val = get_result(
        "let x = 1;
        let y = 2;
        watch total = { x * 10 + y };
        x = 3;
        y = 4;
        return total;",
    );
    assert_eq!(val.unwrap_return(), Object::Number(34));
}

#[test]
fn watch_on_existing_name_does_not_track() {
    let val = get_result(
        "let x = 1;
        let w = 0;
        watch w = { x + 1 };
        x = 5;
        return w;",
    );
    assert_eq!(val.unwrap_return(), Object::Number(2));
}

#[test]
fn watch_ignores_element_assignment() {
    let val = get_result(
        "let a = [1];
        watch first = { a[0] };
        a[0] = 9;
        return first;",
    );
    assert_eq!(val.unwrap_return(), Object::Number(1));
}

#[test]
fn assignment_to_unknown_name_is_ignored() {
    let val = get_result("nothing = 3; return 1;");
    assert_eq!(val.unwrap_return(), Object::Number(1));
}

#[test]
fn arithmetic_and_comparisons() {
    assert_eq!(get_result("return 7 / 2;").unwrap_return(), Object::Number(3));
    assert_eq!(get_result("return 0 - 7 / 2;").unwrap_return(), Object::Number(-3));
    assert_eq!(get_result("return (0 - 7) % 3;").unwrap_return(), Object::Number(-1));
    assert_eq!(get_result("return 1 + 2 * 3 - 4;").unwrap_return(), Object::Number(3));
    assert_eq!(get_result("return 2147483647 + 1;").unwrap_return(), Object::Number(-2147483648));
    assert_eq!(get_result("return 1 && 2;").unwrap_return(), Object::Boolean(true));
    assert_eq!(get_result("return (3 <= 3) == (2 > 1);").unwrap_return(), Object::Boolean(true));
    assert_eq!(error_of("return (3 <= 3) && (2 > 1);"), "invalid operator");
    assert_eq!(get_result("return 0 || 0;").unwrap_return(), Object::Boolean(false));
    assert_eq!(get_result("return \"ab\" + \"cd\";").unwrap_return(), Object::StringLiteral("abcd".to_string()));
    assert_eq!(get_result("return \"ab\" != \"cd\";").unwrap_return(), Object::Boolean(true));
    assert_eq!(get_result("return true == false;").unwrap_return(), Object::Boolean(false));
}

#[test]
fn falsey_values_choose_else() {
    assert_eq!(get_result("return if (0) { 1 } else { 2 };").unwrap_return(), Object::Number(2));
    assert_eq!(get_result("return if (\"\") { 1 } else { 2 };").unwrap_return(), Object::Number(1));
    assert_eq!(get_result("return if (false) { 1 };").unwrap_return(), Object::NoValue);
}

#[test]
fn runtime_errors() {
    assert_eq!(error_of("return y;"), "variable not found y");
    assert_eq!(error_of("return 1 + true;"), "invalid operator");
    assert_eq!(error_of("return \"a\" - \"b\";"), "invalid operator");
    assert_eq!(error_of("return true + true;"), "invalid operator");
    assert_eq!(error_of("return 1 ! 2;"), "invalid operator");
    assert_eq!(error_of("return 1 / 0;"), "division by zero");
    assert_eq!(error_of("return 1 % 0;"), "division by zero");
    assert_eq!(error_of("let x = 1; return x();"), "not a function identifier x");
    assert_eq!(error_of("let x = 1; return x[0];"), "not an array identifier x");
    assert_eq!(error_of("for (i in 3) { i };"), "not an array");
    assert_eq!(error_of("let x = [1]; return x[true];"), "not a number boolean true");
    assert_eq!(error_of("let x = [1]; return x[1];"), "index out of bounds");
    assert_eq!(error_of("let x = [1]; return x[0 - 1];"), "index out of bounds");
    assert_eq!(error_of("let x = [1]; return x[\"k\"];"), "key not found");
    assert_eq!(error_of("let x = [1]; x[3] = 1;"), "index out of range: 3");
    assert_eq!(error_of("let x = [1]; x[true] = 1;"), "not a valid index");
    assert_eq!(error_of("1 = 2;"), "invalid assignment");
    assert_eq!(error_of("let f = fn(a, b) { a }; f(1);"), "wrong number of arguments");
}

#[test]
fn deep_recursion_is_stopped() {
    let mut rt = Runtime::new();
    let env = rt.new_environment(None);
    let mut lexer = Peekable::new("let f = fn() { f() }; f();");
    let program = parse(&mut lexer).unwrap();
    let result = program.eval_with_depth(&mut rt, env, &EvalOption::new(), 300);
    assert_eq!(result.unwrap_err().message, "evaluation too deep");
}

#[test]
fn print_renders_values() {
    let (rt, result) = run_with_print(
        "print(1); print(0 - 42); print(true); print(\"hi\"); print([1, \"a\", k: 2, [3]]);
        print(fn() { 1 }); print(print); print(print(1));",
    );
    assert_eq!(result.unwrap(), Object::NoValue);
    let lines: Vec<&str> = rt.output.iter().map(|s| s.as_str()).collect();
    assert_eq!(
        lines,
        vec!["1", "-42", "true", "hi", "[1,a,k:2,[3,],]", "function", "builtin function", "1", "null"]
    );
}

#[test]
fn print_needs_exactly_one_argument() {
    let (_, result) = run_with_print("print(1, 2);");
    assert_eq!(result.unwrap_err().message, "wrong number of arguments");
}

#[test]
fn print_of_a_cyclic_array_terminates() {
    let (rt, result) = run_with_print("let a = [1]; a[0] = a; print(a);");
    assert!(result.is_ok());
    assert_eq!(rt.output[0], "[[...],]");
}

#[test]
fn environment_dump_is_sorted_with_children() {
    let (rt, result) = run("let b = 2; let a = \"x\"; let f = fn(p) { let q = p; }; f(1);");
    assert!(result.is_ok());
    let dump = Environment::to_string(&rt, 0);
    assert_eq!(dump, "a: x \nb: 2 \nf: function \n{\np: 1 \nq: 1 \n}\n\n");
}

#[test]
fn builtin_environment_binds_print() {
    let rt = get_builtin_environment();
    assert_eq!(rt.envs.len(), 1);
    assert_eq!(Environment::to_string(&rt, 0), "print: builtin function \n");
}

#[test]
fn return_stored_by_a_watch_escapes_a_call() {
    let val = get_result(
        "let f = fn() { watch w = { return 1; }; return w; };
        f();",
    );
    assert_eq!(val, Object::Return(Box::new(Return { value: Object::Number(1) })));
}

#[test]
fn error_names_the_expression() {
    assert_eq!(error_of("let f = 3; f(1 + 2);"), "not a function identifier f");
    assert_eq!(error_of("(1 + 2)[0];"), "not an array number Literal 1+number Literal 2");
}
