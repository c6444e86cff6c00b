use vmt::array_abstractor::ArrayAbstractor;
use vmt::builder::VMTBuilder;
use vmt::model::{VMTError, VMTModel};
use vmt::smt::SMTProblem;
use vmt::syntax::{Command, FunctionDeclaration, FunctionDefinition, SortDeclaration, Term};

fn sym(s: &str) -> Term {
    Term::Symbol(s.to_string())
}

fn kw(s: &str) -> Term {
    Term::Keyword(s.to_string())
}

fn num(s: &str) -> Term {
    Term::Constant(s.to_string())
}

fn list(items: Vec<Term>) -> Term {
    Term::List(items)
}

fn app(head: &str, args: Vec<Term>) -> Term {
    let mut items = vec![sym(head)];
    items.extend(args);
    list(items)
}

fn declare(name: &str, sort: Term) -> Command {
    Command::DeclareFun(FunctionDeclaration {
        symbol: name.to_string(),
        parameters: vec![],
        sort,
    })
}

fn define(name: &str, body: Term) -> Command {
    Command::DefineFun(FunctionDefinition {
        symbol: name.to_string(),
        parameters: vec![],
        sort: sym("Bool"),
        term: body,
    })
}

fn attributed(term: Term, keyword: &str, value: Term) -> Term {
    list(vec![sym("!"), term, kw(keyword), value])
}

fn toggle_commands() -> Vec<Command> {
    vec![
        declare("x", sym("Bool")),
        declare("x_next", sym("Bool")),
        define(".x", attributed(sym("x"), "next", sym("x_next"))),
        define(".init", attributed(app("=", vec![sym("x"), sym("true")]), "init", sym("true"))),
        define(
            ".trans",
            attributed(
                app("=", vec![sym("x_next"), app("not", vec![sym("x")])]),
                "trans",
                sym("true"),
            ),
        ),
        define(".prop", attributed(app("=", vec![sym("x"), sym("true")]), "invar-property", num("0"))),
    ]
}

#[test]
fn toggle_unrolled_one_step() {
    let model = VMTModel::checked_from(toggle_commands()).ok().unwrap();
    let problem = model.unroll(1);
    assert_eq!(problem.init_and_trans_length(), 2);
    assert_eq!(
        problem.to_smtlib2(),
        "\n(declare-fun x@0 () Bool)\n(declare-fun x@1 () Bool)\n(assert (= x@0 true))\n(assert (= x@1 (not x@0)))\n(assert (not (= x@1 true)))"
    );
}

#[test]
fn toggle_unrolled_zero_steps() {
    let model = VMTModel::checked_from(toggle_commands()).ok().unwrap();
    let problem = model.unroll(0);
    assert_eq!(problem.init_and_trans_length(), 1);
    assert_eq!(
        problem.to_smtlib2(),
        "\n(declare-fun x@0 () Bool)\n(assert (= x@0 true))\n(assert (not (= x@0 true)))"
    );
}

#[test]
fn unroll_counts_assertions() {
    let model = VMTModel::checked_from(toggle_commands()).ok().unwrap();
    for k in [0u8, 1, 2, 5, 12] {
        let problem = model.unroll(k);
        assert_eq!(problem.init_and_trans_length(), k as usize + 1);
        assert!(problem.property_assertion.is_some());
        assert_eq!(problem.definitions.len(), k as usize + 1);
    }
}

#[test]
fn unroll_twelve_steps_uses_two_digit_steps() {
    let model = VMTModel::checked_from(toggle_commands()).ok().unwrap();
    let text = model.unroll(12).to_smtlib2();
    assert!(text.contains("(assert (= x@12 (not x@11)))"));
    assert!(text.ends_with("(assert (not (= x@12 true)))"));
}

#[test]
fn extraction_counts_variables_and_actions() {
    let mut commands = vec![
        Command::DeclareSort(SortDeclaration { symbol: "S".to_string(), arity: 0 }),
        declare("x", sym("Int")),
        declare("x_next", sym("Int")),
        declare("y", sym("S")),
        declare("y_next", sym("S")),
        declare("a", sym("Bool")),
        define(".x", attributed(sym("x"), "next", sym("x_next"))),
        define(".y", attributed(sym("|y|"), "next", sym("|y_next|"))),
        define(".a", attributed(sym("a"), "action", num("0"))),
    ];
    let tail = toggle_commands();
    for c in tail.into_iter().skip(3) {
        commands.push(c);
    }
    let model = VMTModel::checked_from(commands).ok().unwrap();
    assert_eq!(model.state_variables.len(), 2);
    assert_eq!(model.actions.len(), 1);
    assert_eq!(model.sorts.len(), 1);
    let names = model.get_all_current_variable_names();
    assert_eq!(names, vec!["x".to_string(), "y".to_string(), "a".to_string()]);
    let pairs = model.get_all_next_variable_names();
    assert_eq!(pairs[1], ("y_next".to_string(), "y".to_string()));
    let text = model.unroll(1).to_smtlib2();
    assert!(text.starts_with("(declare-sort S 0)\n(declare-fun x@0 () Int)\n(declare-fun y@0 () S)\n(declare-fun a@0 () Bool)\n(declare-fun x@1 () Int)"));
}

#[test]
fn undeclared_next_variable_is_unknown_variable() {
    let commands = vec![
        declare("x", sym("Bool")),
        define(".x", attributed(sym("x"), "next", sym("x_next"))),
        toggle_commands().remove(3),
        toggle_commands().remove(4),
        toggle_commands().remove(5),
    ];
    assert!(matches!(VMTModel::checked_from(commands), Err(VMTError::UnknownVariable)));
}

#[test]
fn unknown_action_is_unknown_variable() {
    let mut commands = toggle_commands();
    commands.insert(3, define(".b", attributed(sym("b"), "action", num("0"))));
    assert!(matches!(VMTModel::checked_from(commands), Err(VMTError::UnknownVariable)));
}

#[test]
fn too_few_declarations() {
    let commands: Vec<Command> = toggle_commands().into_iter().skip(3).collect();
    assert!(matches!(VMTModel::checked_from(commands), Err(VMTError::InsufficientDeclarations)));
}

#[test]
fn swapped_components_are_ill_formed() {
    let mut commands = toggle_commands();
    commands.swap(3, 4);
    assert!(matches!(VMTModel::checked_from(commands), Err(VMTError::IllFormedComponent)));
}

#[test]
fn assert_command_is_unrecognized() {
    let mut commands = toggle_commands();
    commands.insert(0, Command::Assert(sym("true")));
    assert!(matches!(VMTModel::checked_from(commands), Err(VMTError::UnrecognizedDeclaration)));
}

#[test]
fn relationship_without_attribute_is_malformed() {
    let mut commands = toggle_commands();
    commands.insert(3, define(".y", sym("x")));
    assert!(matches!(VMTModel::checked_from(commands), Err(VMTError::MalformedRelationship)));
}

#[test]
fn other_relationship_attribute_is_unsupported() {
    let mut commands = toggle_commands();
    commands.insert(3, define(".y", attributed(sym("x"), "local", sym("x_next"))));
    assert!(matches!(VMTModel::checked_from(commands), Err(VMTError::UnsupportedAttribute)));
}

fn toggle_builder(step: u64) -> VMTBuilder {
    VMTBuilder {
        current_variables: vec!["x".to_string(), "a".to_string()],
        next_variables: vec![("x_next".to_string(), "x".to_string())],
        step,
    }
}

#[test]
fn renaming_is_injective_at_one_step() {
    let b = toggle_builder(3);
    assert_eq!(b.process_symbol(&"x".to_string()), "x@3");
    assert_eq!(b.process_symbol(&"a".to_string()), "a@3");
    assert_ne!(b.process_symbol(&"x".to_string()), b.process_symbol(&"a".to_string()));
}

#[test]
fn next_frame_matches_following_step() {
    let mut b = toggle_builder(4);
    let next = b.process_symbol(&"x_next".to_string());
    b.add_step();
    assert_eq!(b.step, 5);
    assert_eq!(next, b.process_symbol(&"x".to_string()));
    assert_eq!(next, "x@5");
}

#[test]
fn renaming_leaves_other_symbols() {
    let b = toggle_builder(0);
    let t = list(vec![
        sym("forall"),
        list(vec![list(vec![sym("i"), sym("Int")])]),
        app(">=", vec![sym("i"), num("0")]),
    ]);
    assert_eq!(b.rewrite_term(&t).text(), t.text());
    assert_eq!(b.rewrite_term(&t).text(), "(forall ((i Int)) (>= i 0))");
}

#[test]
fn abstraction_leaves_array_free_terms() {
    let abstractor = ArrayAbstractor::new();
    let t = app("+", vec![sym("x"), app("f", vec![num("1")])]);
    assert_eq!(abstractor.visit_term(&t).text(), "(+ x (f 1))");
}

fn array_sort() -> Term {
    app("Array", vec![sym("Int"), sym("Int")])
}

#[test]
fn array_model_is_abstracted() {
    let const_head = list(vec![sym("as"), sym("const"), array_sort()]);
    let commands = vec![
        declare("m", array_sort()),
        declare("m_next", array_sort()),
        define(".m", attributed(sym("m"), "next", sym("m_next"))),
        define(
            ".init",
            attributed(app("=", vec![sym("m"), list(vec![const_head, num("0")])]), "init", sym("true")),
        ),
        define(
            ".trans",
            attributed(
                app(
                    "=",
                    vec![sym("m_next"), app("store", vec![sym("m"), num("1"), app("select", vec![sym("m"), num("0")])])],
                ),
                "trans",
                sym("true"),
            ),
        ),
        define(
            ".prop",
            attributed(app(">=", vec![app("select", vec![sym("m"), num("0")]), num("0")]), "invar-property", num("0")),
        ),
    ];
    let model = VMTModel::checked_from(commands).ok().unwrap();
    let abstracted = model.abstract_array_theory();
    let text = abstracted.unroll(1).to_smtlib2();
    assert!(!text.contains("Array Int Int"));
    assert!(!text.contains("select"));
    assert!(!text.contains("store"));
    assert!(!text.contains("const"));
    assert_eq!(
        text,
        "\n(declare-fun m@0 () Array-Int-Int)\n(declare-fun m@1 () Array-Int-Int)\n(assert (= m@0 (ConstArr-Int-Int 0)))\n(assert (= m@1 (Write-Int-Int m@0 1 (Read-Int-Int m@0 0))))\n(assert (not (>= (Read-Int-Int m@1 0) 0)))"
    );
    let original = model.unroll(0).to_smtlib2();
    assert!(original.contains("(declare-fun m@0 () (Array Int Int))"));
    assert!(original.contains("((as const (Array Int Int)) 0)"));
}

#[test]
fn abstractor_records_array_sorts_once() {
    let mut abstractor = ArrayAbstractor::new();
    let d = FunctionDeclaration { symbol: "m".to_string(), parameters: vec![], sort: array_sort() };
    let r = abstractor.visit_declare_fun(&d);
    assert_eq!(r.sort.text(), "Array-Int-Int");
    abstractor.visit_declare_fun(&d);
    abstractor.add_array_type("(Array Int Bool)".to_string());
    assert_eq!(abstractor.array_types, vec!["(Array Int Int)".to_string(), "(Array Int Bool)".to_string()]);
}

#[test]
fn declarations_and_sorts_print() {
    let d = FunctionDeclaration {
        symbol: "f".to_string(),
        parameters: vec![sym("Int"), sym("Bool")],
        sort: array_sort(),
    };
    let mut out = String::new();
    d.write(&mut out);
    assert_eq!(out, "(declare-fun f (Int Bool) (Array Int Int))");
    let s = SortDeclaration { symbol: "S".to_string(), arity: 10 };
    let mut out = String::new();
    s.write(&mut out);
    assert_eq!(out, "(declare-sort S 10)");
    assert_eq!(list(vec![]).text(), "()");
    assert_eq!(app("!", vec![sym("x"), kw("next"), sym("y")]).text(), "(! x :next y)");
}

#[test]
fn problem_assembled_by_hand() {
    let mut p = SMTProblem::new(&vec![SortDeclaration { symbol: "S".to_string(), arity: 0 }]);
    let b = toggle_builder(0);
    p.add_assertion(&sym("x"), &b);
    p.add_property_assertion(&sym("x_next"), &b);
    assert_eq!(p.init_and_trans_length(), 1);
    assert_eq!(p.to_smtlib2(), "(declare-sort S 0)\n\n(assert x@0)\n(assert (not x@1))");
}

#[test]
fn scrubbing_removes_quoting_bars() {
    assert_eq!(vmt::text::scrub_variable_name("|x|".to_string()), "x");
    assert_eq!(vmt::text::scrub_variable_name("x".to_string()), "x");
    assert_eq!(vmt::text::scrub_variable_name("|".to_string()), "");
    assert_eq!(vmt::text::scrub_variable_name("|x".to_string()), "|x");
    assert_eq!(vmt::text::decimal_text(0), "0");
    assert_eq!(vmt::text::decimal_text(1907), "1907");
}

#[test]
fn variable_paired_with_itself_is_invalid() {
    let mut commands = toggle_commands();
    commands[2] = define(".x", attributed(sym("x"), "next", sym("x")));
    assert!(matches!(VMTModel::checked_from(commands), Err(VMTError::InvalidVariable)));
}

#[test]
fn variable_with_parameters_is_invalid() {
    let mut commands = toggle_commands();
    commands[1] = Command::DeclareFun(FunctionDeclaration {
        symbol: "x_next".to_string(),
        parameters: vec![sym("Int")],
        sort: sym("Bool"),
    });
    assert!(matches!(VMTModel::checked_from(commands), Err(VMTError::InvalidVariable)));
}

#[test]
fn action_with_parameters_is_invalid() {
    let mut commands = toggle_commands();
    commands.insert(
        0,
        Command::DeclareFun(FunctionDeclaration {
            symbol: "a".to_string(),
            parameters: vec![sym("Int")],
            sort: sym("Bool"),
        }),
    );
    commands.insert(4, define(".a", attributed(sym("a"), "action", num("0"))));
    assert!(matches!(VMTModel::checked_from(commands), Err(VMTError::InvalidVariable)));
}

#[test]
fn declared_variable_without_relationship_is_unknown_variable() {
    let mut commands = toggle_commands();
    commands.remove(2);
    assert!(matches!(VMTModel::checked_from(commands), Err(VMTError::UnknownVariable)));
}

#[test]
fn last_pair_wins_for_a_shared_next_name() {
    let b = VMTBuilder {
        current_variables: vec!["x".to_string(), "y".to_string()],
        next_variables: vec![("n".to_string(), "x".to_string()), ("n".to_string(), "y".to_string())],
        step: 0,
    };
    assert_eq!(b.process_symbol(&"n".to_string()), "y@1");
}

#[test]
fn other_array_shapes_pass_through() {
    let abstractor = ArrayAbstractor::new();
    let bool_array = app("Array", vec![sym("Int"), sym("Bool")]);
    let t = app("=", vec![sym("b"), list(vec![list(vec![sym("as"), sym("const"), bool_array.copy()]), sym("true")])]);
    assert_eq!(abstractor.visit_term(&t).text(), "(= b ((as const (Array Int Bool)) true))");
    let mut abstractor = ArrayAbstractor::new();
    let d = FunctionDeclaration { symbol: "b".to_string(), parameters: vec![], sort: bool_array };
    assert_eq!(abstractor.visit_declare_fun(&d).sort.text(), "(Array Int Bool)");
    assert!(abstractor.array_types.is_empty());
}

#[test]
fn abstracting_a_model_records_its_array_sorts() {
    let commands = vec![
        declare("m", array_sort()),
        declare("m_next", array_sort()),
        define(".m", attributed(sym("m"), "next", sym("m_next"))),
        toggle_commands().remove(3),
        toggle_commands().remove(4),
        toggle_commands().remove(5),
    ];
    let model = VMTModel::checked_from(commands).ok().unwrap();
    let mut abstractor = ArrayAbstractor::new();
    let abstracted = abstractor.abstract_model(&model);
    assert_eq!(abstractor.array_types, vec!["(Array Int Int)".to_string()]);
    assert_eq!(abstracted.state_variables[0].current.sort.text(), "Array-Int-Int");
}

#[test]
fn model_with_other_array_shape_is_left_unchanged() {
    let bool_array = app("Array", vec![sym("Int"), sym("Bool")]);
    let commands = vec![
        declare("m", array_sort()),
        declare("m_next", array_sort()),
        declare("b", bool_array.copy()),
        declare("b_next", bool_array),
        define(".m", attributed(sym("m"), "next", sym("m_next"))),
        define(".b", attributed(sym("b"), "next", sym("b_next"))),
        define(".init", attributed(app("select", vec![sym("b"), num("0")]), "init", sym("true"))),
        define(".trans", attributed(app("=", vec![sym("m_next"), sym("m")]), "trans", sym("true"))),
        define(".prop", attributed(app("select", vec![sym("b"), num("1")]), "invar-property", num("0"))),
    ];
    let model = VMTModel::checked_from(commands).ok().unwrap();
    let mut abstractor = ArrayAbstractor::new();
    let same = abstractor.abstract_model(&model);
    assert!(abstractor.array_types.is_empty());
    assert_eq!(same.unroll(0).to_smtlib2(), model.unroll(0).to_smtlib2());
    assert!(same.unroll(0).to_smtlib2().contains("(assert (select b@0 0))"));
    assert_eq!(same.state_variables[0].current.sort.text(), "(Array Int Int)");
}

#[test]
fn application_without_array_operation_is_unchanged() {
    let abstractor = ArrayAbstractor::new();
    let items = vec![sym("f"), app("g", vec![sym("x")]), num("2")];
    let r = abstractor.visit_application(&items);
    assert_eq!(list(r).text(), "(f (g x) 2)");
    let r = abstractor.visit_application(&vec![sym("select"), sym("a"), num("1")]);
    assert_eq!(list(r).text(), "(Read-Int-Int a 1)");
}
