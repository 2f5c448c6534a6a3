use spero_front::ast::{Binding, Expression, Keyword, Literal};
use spero_front::parser::parse_program;

fn chars(s: &str) -> Vec<char> {
    s.chars().collect()
}

fn parse(s: &str) -> Option<Vec<Expression>> {
    parse_program(&chars(s))
}

fn num(s: &str) -> Expression {
    Expression::Literal(Literal::Num(chars(s), None))
}

fn var(s: &str) -> Expression {
    Expression::Name(Binding::Variable(chars(s)))
}

#[test]
fn empty_input_is_empty_program() {
    assert_eq!(parse(""), Some(vec![]));
}

#[test]
fn whitespace_only_is_empty_program() {
    assert_eq!(parse("  \t\n\r "), Some(vec![]));
}

#[test]
fn comments_only_are_elided() {
    assert_eq!(parse("# line\n"), Some(vec![]));
    assert_eq!(parse("## block ##"), Some(vec![]));
    assert_eq!(parse("## a ## # b\n  "), Some(vec![]));
}

#[test]
fn unterminated_block_comment_reparses_as_operator() {
    // without a closing `##` the ordered choice falls back to the
    // operator token, which also matches `##`
    assert_eq!(
        parse("## open"),
        Some(vec![
            Expression::Name(Binding::Operator(chars("##"))),
            var("open"),
        ])
    );
    // where the fallback cannot parse either, the parse fails whole
    assert_eq!(parse("{ ## open"), None);
}

#[test]
fn line_comment_needs_newline() {
    assert_eq!(parse("1 # trailing\n"), Some(vec![num("1")]));
    // without the newline, `#` is an ordinary operator token
    let fallback = Expression::Binary(
        Binding::Operator(chars("#")),
        Box::new(num("1")),
        Box::new(var("trailing")),
    );
    assert_eq!(parse("1 # trailing"), Some(vec![fallback]));
}

#[test]
fn variable_classification_lowercase() {
    assert_eq!(parse("abc"), Some(vec![var("abc")]));
    assert_eq!(parse("_x9Y"), Some(vec![var("_x9Y")]));
}

#[test]
fn type_classification_uppercase() {
    assert_eq!(
        parse("Abc9"),
        Some(vec![Expression::Name(Binding::Type(chars("Abc9")))])
    );
}

#[test]
fn keywords_are_not_variables() {
    assert_eq!(parse("let"), None);
    assert_eq!(parse("def"), None);
    assert_eq!(parse("static"), None);
    assert_eq!(parse("mut"), None);
    assert_eq!(parse("mod"), None);
    assert_eq!(parse("match"), None);
    assert_eq!(parse("if"), None);
    assert_eq!(parse("elsif"), None);
    assert_eq!(parse("else"), None);
    assert_eq!(parse("use"), None);
}

#[test]
fn reserved_booleans_are_literals_not_names() {
    assert_eq!(parse("true"), Some(vec![Expression::Literal(Literal::Bool(true))]));
    assert_eq!(parse("false"), Some(vec![Expression::Literal(Literal::Bool(false))]));
}

#[test]
fn dot_flip_single_call() {
    let flipped = Expression::FnCall(
        Box::new(var("f")),
        vec![var("a"), var("x"), var("y")],
    );
    assert_eq!(parse("a.f(x,y)"), Some(vec![flipped]));
    // the hand-built nested call is the same tree
    let built = Expression::FnCall(
        Box::new(var("f")),
        vec![var("a"), var("x"), var("y")],
    );
    assert_eq!(parse("f(a, x, y)"), Some(vec![built]));
    assert_eq!(parse("a.f(x,y)"), parse("f(a, x, y)"));
}

#[test]
fn dot_flip_chained_calls() {
    let inner = Expression::FnCall(Box::new(var("f")), vec![var("a"), var("x")]);
    let expected = Expression::FnCall(Box::new(var("g")), vec![inner, var("y")]);
    assert_eq!(parse("a.f(x).g(y)"), Some(vec![expected]));
}

#[test]
fn dot_flip_bare_name_is_one_argument_call() {
    let expected = Expression::FnCall(Box::new(var("b")), vec![var("a")]);
    assert_eq!(parse("a.b"), Some(vec![expected]));
}

#[test]
fn tuple_arity_empty() {
    assert_eq!(parse("()"), Some(vec![Expression::Tuple(vec![])]));
}

#[test]
fn tuple_arity_three_in_order() {
    assert_eq!(
        parse("(1, 2, 3)"),
        Some(vec![Expression::Tuple(vec![num("1"), num("2"), num("3")])])
    );
}

#[test]
fn tuple_missing_element_fails() {
    assert_eq!(parse("(1,)"), None);
    assert_eq!(parse("(1 2)"), None);
}

#[test]
fn array_literal() {
    assert_eq!(
        parse("[1, 2]"),
        Some(vec![Expression::Array(vec![num("1"), num("2")])])
    );
    assert_eq!(parse("[]"), Some(vec![Expression::Array(vec![])]));
}

#[test]
fn hex_literal_keeps_digits_and_flag() {
    assert_eq!(
        parse("0x1A"),
        Some(vec![Expression::Literal(Literal::Byte(chars("1A"), true))])
    );
}

#[test]
fn binary_literal_keeps_digits_and_flag() {
    assert_eq!(
        parse("0b101"),
        Some(vec![Expression::Literal(Literal::Byte(chars("101"), false))])
    );
}

#[test]
fn float_literal_keeps_both_parts() {
    assert_eq!(
        parse("3.14"),
        Some(vec![Expression::Literal(Literal::Num(chars("3"), Some(chars("14"))))])
    );
}

#[test]
fn integer_literal_has_no_fraction() {
    assert_eq!(
        parse("42"),
        Some(vec![Expression::Literal(Literal::Num(chars("42"), None))])
    );
}

#[test]
fn string_literal_keeps_escapes_verbatim() {
    assert_eq!(
        parse(r#""ab\"c""#),
        Some(vec![Expression::Literal(Literal::Str(chars(r#"ab\"c"#)))])
    );
    assert_eq!(parse(r#""""#), Some(vec![Expression::Literal(Literal::Str(chars("")))]));
}

#[test]
fn unterminated_string_fails() {
    assert_eq!(parse(r#""ab"#), None);
}

#[test]
fn char_literal_plain() {
    assert_eq!(parse("'a'"), Some(vec![Expression::Literal(Literal::Char('a'))]));
}

#[test]
fn char_literal_escape_marker_not_retained() {
    assert_eq!(parse(r"'\n'"), Some(vec![Expression::Literal(Literal::Char('n'))]));
    assert_eq!(parse(r"'\''"), Some(vec![Expression::Literal(Literal::Char('\''))]));
}

#[test]
fn scope_ordering() {
    assert_eq!(
        parse("{ 1 2 3 }"),
        Some(vec![Expression::Scope(vec![num("1"), num("2"), num("3")])])
    );
}

#[test]
fn empty_scope() {
    assert_eq!(parse("{}"), Some(vec![Expression::Scope(vec![])]));
}

#[test]
fn assignment_roundtrip() {
    let expected = Expression::Assignment(
        Keyword::Let,
        Binding::Variable(chars("x")),
        false,
        Box::new(num("5")),
    );
    assert_eq!(parse("let x = 5"), Some(vec![expected]));
}

#[test]
fn assignment_mut_marker_after_equals() {
    let expected = Expression::Assignment(
        Keyword::Let,
        Binding::Variable(chars("x")),
        true,
        Box::new(num("5")),
    );
    assert_eq!(parse("let x = mut 5"), Some(vec![expected]));
}

#[test]
fn assignment_mut_before_binding_fails() {
    // `mut` is reserved, so it cannot stand in the binding position
    assert_eq!(parse("let mut x = 5"), None);
}

#[test]
fn assignment_def_and_static() {
    let d = Expression::Assignment(
        Keyword::Def,
        Binding::Type(chars("Foo")),
        false,
        Box::new(Expression::Scope(vec![])),
    );
    assert_eq!(parse("def Foo = {}"), Some(vec![d]));
    let s = Expression::Assignment(
        Keyword::Static,
        Binding::Variable(chars("c")),
        false,
        Box::new(num("1")),
    );
    assert_eq!(parse("static c = 1"), Some(vec![s]));
}

#[test]
fn assignment_tuple_destructuring() {
    let expected = Expression::Assignment(
        Keyword::Let,
        Binding::Tuple(vec![
            Binding::Variable(chars("a")),
            Binding::Variable(chars("b")),
        ]),
        false,
        Box::new(num("5")),
    );
    assert_eq!(parse("let (a, b) = 5"), Some(vec![expected]));
}

#[test]
fn assignment_operator_binding() {
    let expected = Expression::Assignment(
        Keyword::Let,
        Binding::Operator(chars("+")),
        false,
        Box::new(num("5")),
    );
    assert_eq!(parse("let + = 5"), Some(vec![expected]));
}

#[test]
fn assignment_type_ascription_is_consumed() {
    let expected = Expression::Assignment(
        Keyword::Let,
        Binding::Variable(chars("x")),
        false,
        Box::new(num("5")),
    );
    assert_eq!(parse("let x :: Int = 5"), Some(vec![expected]));
    assert_eq!(parse("let x :: a:Int[] = 5"), parse("let x = 5"));
    assert_eq!(parse("let x :: Int& = 5"), parse("let x = 5"));
}

#[test]
fn binary_chain_groups_to_the_left() {
    let ab = Expression::Binary(
        Binding::Operator(chars("+")),
        Box::new(var("a")),
        Box::new(var("b")),
    );
    let expected = Expression::Binary(
        Binding::Operator(chars("-")),
        Box::new(ab),
        Box::new(var("c")),
    );
    assert_eq!(parse("a + b - c"), Some(vec![expected]));
}

#[test]
fn operator_with_lead_character() {
    let expected = Expression::Binary(
        Binding::Operator(chars("&&")),
        Box::new(var("a")),
        Box::new(var("b")),
    );
    assert_eq!(parse("a && b"), Some(vec![expected]));
}

#[test]
fn lone_equals_is_an_operator() {
    let expected = Expression::Binary(
        Binding::Operator(chars("=")),
        Box::new(var("a")),
        Box::new(var("b")),
    );
    assert_eq!(parse("a = b"), Some(vec![expected]));
}

#[test]
fn call_suffixes() {
    assert_eq!(
        parse("f(x)"),
        Some(vec![Expression::FnCall(Box::new(var("f")), vec![var("x")])])
    );
    let indexed = Expression::FnCall(
        Box::new(var("bar")),
        vec![Expression::Array(vec![var("i")])],
    );
    assert_eq!(parse("bar[i]"), Some(vec![indexed]));
}

#[test]
fn array_then_tuple_suffix_nests() {
    let first = Expression::FnCall(
        Box::new(var("a")),
        vec![Expression::Array(vec![num("1")])],
    );
    let expected = Expression::FnCall(Box::new(first), vec![num("2")]);
    assert_eq!(parse("a[1](2)"), Some(vec![expected]));
}

#[test]
fn callee_may_be_a_grouping() {
    let expected = Expression::FnCall(
        Box::new(Expression::Tuple(vec![num("1")])),
        vec![num("2")],
    );
    assert_eq!(parse("(1)(2)"), Some(vec![expected]));
}

#[test]
fn module_declaration() {
    let expected = Expression::ModDecl(vec![
        Binding::Variable(chars("a")),
        Binding::Variable(chars("b")),
        Binding::Variable(chars("c")),
    ]);
    assert_eq!(parse("mod a:b:c"), Some(vec![expected]));
}

#[test]
fn annotations_are_recognized_and_discarded() {
    let call = Expression::FnCall(Box::new(var("f")), vec![var("x")]);
    assert_eq!(parse("@cache f(x)"), Some(vec![call]));
    assert_eq!(parse("@cache(1) @pure f(x)"), parse("f(x)"));
}

#[test]
fn several_top_level_lines_in_order() {
    assert_eq!(
        parse("1 2 3"),
        Some(vec![num("1"), num("2"), num("3")])
    );
}

#[test]
fn whitespace_and_comment_elision_preserves_tree() {
    let plain = parse("let x = 5").unwrap();
    assert_eq!(parse("let   x\t=\n  5").unwrap(), plain);
    assert_eq!(parse("let x = # why\n 5").unwrap(), plain);
    assert_eq!(parse("let ## a comment ## x = ## here too ## 5").unwrap(), plain);
    let scoped = parse("{ 1 2 }").unwrap();
    assert_eq!(parse("{ ## x ## 1 # y\n 2 }").unwrap(), scoped);
}

#[test]
fn trailing_garbage_is_a_parse_failure() {
    assert_eq!(parse("42 )"), None);
    assert_eq!(parse("let x = 5 )"), None);
    assert_eq!(parse("1 2 3 ]"), None);
    assert_eq!(parse("(1,"), None);
}

#[test]
fn scope_must_be_closed() {
    assert_eq!(parse("{ 1 2"), None);
}

#[test]
fn module_path_segments_are_variables_only() {
    // an uppercase segment cannot follow the colon, and the colon
    // itself is then left over, so the parse fails whole
    assert_eq!(parse("mod a:B"), None);
}

#[test]
fn destructuring_group_holds_variables_only() {
    assert_eq!(parse("let (a, (b, c)) = 5"), None);
    assert_eq!(parse("let () = 5"), None);
}

#[test]
fn space_before_dot_does_not_matter() {
    assert_eq!(parse("a .f(x)"), parse("a.f(x)"));
    assert_eq!(parse("a. f(x)"), parse("a.f(x)"));
}

#[test]
fn reserved_forms_without_tree_nodes_fail() {
    assert_eq!(parse("if x y else z"), None);
    assert_eq!(parse("match x { _ -> 1 }"), None);
    assert_eq!(parse("use a:b"), None);
}

#[test]
fn identifiers_beginning_with_a_reserved_word_stay_whole() {
    assert_eq!(parse("letx"), Some(vec![var("letx")]));
    assert_eq!(parse("used"), Some(vec![var("used")]));
    assert_eq!(parse("iff"), Some(vec![var("iff")]));
    assert_eq!(parse("matcher"), Some(vec![var("matcher")]));
    assert_eq!(parse("truex"), Some(vec![var("truex")]));
    assert_eq!(parse("moda"), Some(vec![var("moda")]));
    assert_eq!(parse("mutable"), Some(vec![var("mutable")]));
}

#[test]
fn reserved_words_end_at_a_token_boundary() {
    // `letx` is one identifier, not `let` glued to `x`
    let expected = Expression::Binary(
        Binding::Operator(chars("=")),
        Box::new(var("letx")),
        Box::new(num("5")),
    );
    assert_eq!(parse("letx = 5"), Some(vec![expected]));
    // a variable named like a reserved word plus more may be bound
    let bound = Expression::Assignment(
        Keyword::Let,
        Binding::Variable(chars("mutable")),
        false,
        Box::new(num("5")),
    );
    assert_eq!(parse("let mutable = 5"), Some(vec![bound]));
}
