use spero_front::ast::{Binding, Expression, Keyword, Literal};
use spero_front::parser::parse_program;
use spero_front::render::{mk_buffer, PrettyPrint};

fn chars(s: &str) -> Vec<char> {
    s.chars().collect()
}

#[test]
fn buffer_is_spaces() {
    assert_eq!(mk_buffer(3), chars("   "));
    assert_eq!(mk_buffer(0), chars(""));
}

#[test]
fn keyword_renders_its_bare_word() {
    assert_eq!(Keyword::Let.print(0), chars("let"));
    assert_eq!(Keyword::Def.print(0), chars("def"));
    assert_eq!(Keyword::Mut.print(0), chars("mut"));
    // the word is never indented, at any depth
    assert_eq!(Keyword::Static.print(2), chars("static"));
}

#[test]
fn literal_lines() {
    assert_eq!(Literal::Num(chars("5"), None).print(1), chars(" Int: 5"));
    assert_eq!(
        Literal::Num(chars("3"), Some(chars("14"))).print(0),
        chars("Float: 3.14")
    );
    assert_eq!(Literal::Byte(chars("1A"), true).print(0), chars("Byte: 1A"));
    assert_eq!(Literal::Byte(chars("10"), false).print(0), chars("Byte: 10"));
    assert_eq!(Literal::Bool(true).print(0), chars("Bool: true"));
    assert_eq!(Literal::Bool(false).print(0), chars("Bool: false"));
    assert_eq!(Literal::Str(chars("hi")).print(0), chars("String: hi"));
    assert_eq!(Literal::Char('q').print(0), chars("Char: q"));
}

#[test]
fn binding_lines() {
    assert_eq!(Binding::Variable(chars("x")).print(0), chars("Variable: x"));
    assert_eq!(Binding::Type(chars("T")).print(1), chars(" Type: T"));
    assert_eq!(Binding::Operator(chars("+")).print(0), chars("Op: +"));
    assert_eq!(Binding::Operator(chars("&&")).print(0), chars("Op: &&"));
    assert_eq!(
        Binding::Tuple(vec![Binding::Variable(chars("a"))]).print(0),
        chars("TupleBinding[1]\n Variable: a")
    );
    assert_eq!(
        Binding::Tuple(vec![
            Binding::Variable(chars("a")),
            Binding::Variable(chars("b")),
        ])
        .print(0),
        chars("TupleBinding[2]\n Variable: a\n Variable: b")
    );
    assert_eq!(
        Binding::FullType(chars("T"), vec![Binding::Variable(chars("m"))], true).print(0),
        chars("FullType: T[]\n Variable: m")
    );
    assert_eq!(
        Binding::FullType(chars("T"), vec![], false).print(0),
        chars("FullType: T")
    );
}

#[test]
fn empty_tuple_renders_arity_zero() {
    assert_eq!(Expression::Tuple(vec![]).print(0), chars("Tuple[0]"));
}

#[test]
fn tuple_renders_arity_and_children_in_order() {
    let input = chars("(1, 2, 3)");
    let prog = parse_program(&input).unwrap();
    assert_eq!(
        prog[0].print(0),
        chars("Tuple[3]\n Int: 1\n Int: 2\n Int: 3")
    );
}

#[test]
fn array_renders_arity_and_children() {
    let input = chars("[1, 2]");
    let prog = parse_program(&input).unwrap();
    assert_eq!(prog[0].print(0), chars("Array[2]\n Int: 1\n Int: 2"));
}

#[test]
fn scope_children_render_one_level_deeper() {
    let e = Expression::Scope(vec![
        Expression::Literal(Literal::Num(chars("1"), None)),
        Expression::Name(Binding::Variable(chars("x"))),
    ]);
    assert_eq!(e.print(0), chars("Scope\n Int: 1\n Variable: x"));
}

#[test]
fn assignment_rendering_shows_keyword_and_flag() {
    let e = Expression::Assignment(
        Keyword::Let,
        Binding::Variable(chars("x")),
        false,
        Box::new(Expression::Literal(Literal::Num(chars("5"), None))),
    );
    assert_eq!(e.print(0), chars("Binding (let, false)\n Variable: x\n Int: 5"));
    let m = Expression::Assignment(
        Keyword::Let,
        Binding::Variable(chars("x")),
        true,
        Box::new(Expression::Literal(Literal::Num(chars("5"), None))),
    );
    assert_eq!(m.print(0), chars("Binding (let, true)\n Variable: x\n Int: 5"));
}

#[test]
fn parsed_call_renders_flipped() {
    let input = chars("a.f(x)");
    let prog = parse_program(&input).unwrap();
    assert_eq!(prog.len(), 1);
    assert_eq!(
        prog[0].print(0),
        chars("A function call\n Variable: f\n Variable: a\n Variable: x")
    );
}

#[test]
fn parsed_binary_renders_operator_inline() {
    let input = chars("a + 1");
    let prog = parse_program(&input).unwrap();
    assert_eq!(
        prog[0].print(0),
        chars("Binary Operator Op: +\n Variable: a\n Int: 1")
    );
}

#[test]
fn parsed_module_declaration_renders_segments() {
    let input = chars("mod a:b");
    let prog = parse_program(&input).unwrap();
    assert_eq!(
        prog[0].print(0),
        chars("Module Declaration\n Variable: a\n Variable: b")
    );
}

#[test]
fn nesting_indents_twice() {
    let input = chars("{ { 1 } }");
    let prog = parse_program(&input).unwrap();
    assert_eq!(prog[0].print(0), chars("Scope\n Scope\n  Int: 1"));
}
