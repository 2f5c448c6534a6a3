//! Deterministic, indentation-aware rendering of the syntax tree.
//!
//! Each node puts its tag and immediate scalar payload on one line,
//! indented by its depth, and renders every owned child on its own
//! line one level deeper; lines are separated by newlines, with none
//! after the last.  The depth is an explicit parameter threaded
//! through the recursion, so rendering is a pure function of the node
//! and the depth, and two renderings never disturb each other.
//!
//! Line formats: literals render as `Int: 42`, `Float: 3.14`,
//! `Byte: 1A` (one tag for both byte spellings; the stored flag tells
//! them apart), `Bool: true`, `String: hi`, `Char: a`; bindings as
//! `Variable: x`, `Type: T`, `Op: +`, and `TupleBinding[n]` with its
//! arity, the elements below; an assignment's header is
//! `Binding (let, false)` with its keyword and mutability, the bound
//! binding and the value below; blocks render `Scope`, groupings
//! `Tuple[n]` and `Array[n]` with their arity, module declarations
//! `Module Declaration`, and applications `A function call` with the
//! callee first and the arguments after it.  A binary node's header
//! names its operator inline, `Binary Operator Op: +`, with the two
//! operands below.  A keyword renders as its bare source word, with
//! no indentation at any depth.
//!
//! The executable depth parameter saturates at the machine limit; the
//! rendering contract speaks of every depth at which no saturation
//! can occur, which is every depth a tree of representable size can
//! reach.

use vstd::prelude::*;
use crate::ast::{Binding, Expression, Keyword, Literal};
use crate::ast::{binding_model, bindings_model, expr_model, exprs_model, lit_model};
use crate::model::{BindingType, ExprType, LiteralType};

verus! {

// ---------------------------------------------------------------------------
// The rendering, as specification functions
// ---------------------------------------------------------------------------

/// `depth` spaces of indentation.
pub open spec fn indent_sp(depth: nat) -> Seq<char> {
    Seq::new(depth, |i: int| ' ')
}

/// The source word of a keyword.
pub open spec fn keyword_word(k: Keyword) -> Seq<char> {
    match k {
        Keyword::Let => seq!['l', 'e', 't'],
        Keyword::Def => seq!['d', 'e', 'f'],
        Keyword::Static => seq!['s', 't', 'a', 't', 'i', 'c'],
        Keyword::Mut => seq!['m', 'u', 't'],
    }
}

/// The words `true` and `false`.
pub open spec fn bool_word(b: bool) -> Seq<char> {
    if b {
        seq!['t', 'r', 'u', 'e']
    } else {
        seq!['f', 'a', 'l', 's', 'e']
    }
}

/// The decimal digit for `n`, which must be below ten.
pub open spec fn digit_char(n: nat) -> char {
    if n == 0 {
        '0'
    } else if n == 1 {
        '1'
    } else if n == 2 {
        '2'
    } else if n == 3 {
        '3'
    } else if n == 4 {
        '4'
    } else if n == 5 {
        '5'
    } else if n == 6 {
        '6'
    } else if n == 7 {
        '7'
    } else if n == 8 {
        '8'
    } else {
        '9'
    }
}

/// `n` written in decimal, most significant digit first.
pub open spec fn dec_digits(n: nat) -> Seq<char>
    decreases n,
{
    if n < 10 {
        seq![digit_char(n)]
    } else {
        dec_digits(n / 10).push(digit_char(n % 10))
    }
}

/// One line for a literal: its tag, a colon, and its source text.
pub open spec fn render_lit(l: LiteralType, depth: nat) -> Seq<char> {
    indent_sp(depth) + (match l {
        LiteralType::Num(i, fr) => match fr {
            Some(f) => seq!['F', 'l', 'o', 'a', 't', ':', ' '] + i + seq!['.'] + f,
            None => seq!['I', 'n', 't', ':', ' '] + i,
        },
        LiteralType::Byte(t, h) => seq!['B', 'y', 't', 'e', ':', ' '] + t,
        LiteralType::Bool(b) => seq!['B', 'o', 'o', 'l', ':', ' '] + bool_word(b),
        LiteralType::Str(t) => seq!['S', 't', 'r', 'i', 'n', 'g', ':', ' '] + t,
        LiteralType::Char(c) => seq!['C', 'h', 'a', 'r', ':', ' '].push(c),
    })
}

/// A binding: its line, then its children one level deeper.
pub open spec fn render_binding(b: BindingType, depth: nat) -> Seq<char>
    decreases b, 0int,
{
    match b {
        BindingType::Variable(t) => indent_sp(depth) + seq![
            'V',
            'a',
            'r',
            'i',
            'a',
            'b',
            'l',
            'e',
            ':',
            ' ',
        ] + t,
        BindingType::Type(t) => indent_sp(depth) + seq!['T', 'y', 'p', 'e', ':', ' '] + t,
        BindingType::Operator(t) => indent_sp(depth) + seq!['O', 'p', ':', ' '] + t,
        BindingType::Tuple(bs) => indent_sp(depth) + seq![
            'T',
            'u',
            'p',
            'l',
            'e',
            'B',
            'i',
            'n',
            'd',
            'i',
            'n',
            'g',
            '[',
        ] + dec_digits(bs.len()) + seq![']'] + render_bindings(bs, 0, depth + 1),
        BindingType::FullType(n, segs, isarr) => indent_sp(depth) + seq![
            'F',
            'u',
            'l',
            'l',
            'T',
            'y',
            'p',
            'e',
            ':',
            ' ',
        ] + n + (if isarr {
            seq!['[', ']']
        } else {
            Seq::empty()
        }) + render_bindings(segs, 0, depth + 1),
    }
}

/// The bindings of `s` from index `i` on, each on its own line.
pub open spec fn render_bindings(s: Seq<BindingType>, i: int, depth: nat) -> Seq<char>
    decreases s, s.len() - i,
{
    if 0 <= i < s.len() {
        seq!['\n'] + render_binding(s[i], depth) + render_bindings(s, i + 1, depth)
    } else {
        Seq::empty()
    }
}

/// An expression: its line, then its children one level deeper.
/// Literal and name nodes render as the literal or binding itself.
pub open spec fn render_expr(e: ExprType, depth: nat) -> Seq<char>
    decreases e, 0int,
{
    match e {
        ExprType::Literal(l) => render_lit(l, depth),
        ExprType::Name(b) => render_binding(b, depth),
        ExprType::Assignment(k, b, m, v) => indent_sp(depth) + seq![
            'B',
            'i',
            'n',
            'd',
            'i',
            'n',
            'g',
            ' ',
            '(',
        ] + keyword_word(k) + seq![',', ' '] + bool_word(m) + seq![')', '\n'] + render_binding(
            b,
            depth + 1,
        ) + seq!['\n'] + render_expr(*v, depth + 1),
        ExprType::Scope(es) => indent_sp(depth) + seq!['S', 'c', 'o', 'p', 'e'] + render_exprs(
            es,
            0,
            depth + 1,
        ),
        ExprType::Tuple(es) => indent_sp(depth) + seq!['T', 'u', 'p', 'l', 'e', '['] + dec_digits(
            es.len(),
        ) + seq![']'] + render_exprs(es, 0, depth + 1),
        ExprType::Array(es) => indent_sp(depth) + seq!['A', 'r', 'r', 'a', 'y', '['] + dec_digits(
            es.len(),
        ) + seq![']'] + render_exprs(es, 0, depth + 1),
        ExprType::Binary(op, l, r) => indent_sp(depth) + seq![
            'B',
            'i',
            'n',
            'a',
            'r',
            'y',
            ' ',
            'O',
            'p',
            'e',
            'r',
            'a',
            't',
            'o',
            'r',
            ' ',
        ] + render_binding(op, 0) + seq!['\n'] + render_expr(*l, depth + 1) + seq!['\n']
            + render_expr(*r, depth + 1),
        ExprType::FnCall(f, args) => indent_sp(depth) + seq![
            'A',
            ' ',
            'f',
            'u',
            'n',
            'c',
            't',
            'i',
            'o',
            'n',
            ' ',
            'c',
            'a',
            'l',
            'l',
            '\n',
        ] + render_expr(*f, depth + 1) + render_exprs(args, 0, depth + 1),
        ExprType::ModDecl(bs) => indent_sp(depth) + seq![
            'M',
            'o',
            'd',
            'u',
            'l',
            'e',
            ' ',
            'D',
            'e',
            'c',
            'l',
            'a',
            'r',
            'a',
            't',
            'i',
            'o',
            'n',
        ] + render_bindings(bs, 0, depth + 1),
    }
}

/// The expressions of `s` from index `i` on, each on its own line.
pub open spec fn render_exprs(s: Seq<ExprType>, i: int, depth: nat) -> Seq<char>
    decreases s, s.len() - i,
{
    if 0 <= i < s.len() {
        seq!['\n'] + render_expr(s[i], depth) + render_exprs(s, i + 1, depth)
    } else {
        Seq::empty()
    }
}

// ---------------------------------------------------------------------------
// Depth budgets: how much deeper than its root a rendering can reach
// ---------------------------------------------------------------------------

/// Depth budget of a binding.
pub open spec fn bt_height(b: BindingType) -> nat
    decreases b, 0int,
{
    match b {
        BindingType::Variable(t) => 1,
        BindingType::Type(t) => 1,
        BindingType::Operator(t) => 1,
        BindingType::Tuple(bs) => 1 + bts_height(bs, 0),
        BindingType::FullType(n, segs, isarr) => 1 + bts_height(segs, 0),
    }
}

/// Largest depth budget among the bindings of `s` from index `i` on.
pub open spec fn bts_height(s: Seq<BindingType>, i: int) -> nat
    decreases s, s.len() - i,
{
    if 0 <= i < s.len() {
        let a = bt_height(s[i]);
        let b = bts_height(s, i + 1);
        if a >= b {
            a
        } else {
            b
        }
    } else {
        0
    }
}

/// Depth budget of an expression.
pub open spec fn et_height(e: ExprType) -> nat
    decreases e, 0int,
{
    match e {
        ExprType::Literal(l) => 1,
        ExprType::Name(b) => bt_height(b),
        ExprType::Assignment(k, b, m, v) => {
            let a = bt_height(b);
            let c = et_height(*v);
            1 + if a >= c {
                a
            } else {
                c
            }
        },
        ExprType::Scope(es) => 1 + ets_height(es, 0),
        ExprType::Tuple(es) => 1 + ets_height(es, 0),
        ExprType::Array(es) => 1 + ets_height(es, 0),
        ExprType::Binary(op, l, r) => {
            let a = bt_height(op);
            let c = et_height(*l);
            let d = et_height(*r);
            let m1 = if a >= c {
                a
            } else {
                c
            };
            1 + if m1 >= d {
                m1
            } else {
                d
            }
        },
        ExprType::FnCall(f, args) => {
            let a = et_height(*f);
            let c = ets_height(args, 0);
            1 + if a >= c {
                a
            } else {
                c
            }
        },
        ExprType::ModDecl(bs) => 1 + bts_height(bs, 0),
    }
}

/// Largest depth budget among the expressions of `s` from index `i` on.
pub open spec fn ets_height(s: Seq<ExprType>, i: int) -> nat
    decreases s, s.len() - i,
{
    if 0 <= i < s.len() {
        let a = et_height(s[i]);
        let b = ets_height(s, i + 1);
        if a >= b {
            a
        } else {
            b
        }
    } else {
        0
    }
}

// ---------------------------------------------------------------------------
// The executable rendering
// ---------------------------------------------------------------------------

/// A buffer of `size` spaces.
pub fn mk_buffer(size: usize) -> (r: Vec<char>)
    ensures
        r@ == indent_sp(size as nat),
{
    let mut r: Vec<char> = Vec::new();
    let mut i: usize = 0;
    while i < size
        invariant
            i <= size,
            r@ == indent_sp(i as nat),
        decreases size - i,
    {
        r.push(' ');
        i = i + 1;
        proof {
            assert(r@ =~= indent_sp(i as nat));
        }
    }
    r
}

/// Append every character of `t` to `out`.
fn push_all(out: &mut Vec<char>, t: &Vec<char>)
    ensures
        final(out)@ == old(out)@ + t@,
{
    let mut i: usize = 0;
    while i < t.len()
        invariant
            i <= t.len(),
            out@ == old(out)@ + t@.subrange(0, i as int),
        decreases t.len() - i,
    {
        out.push(t[i]);
        i = i + 1;
        proof {
            assert(out@ =~= old(out)@ + t@.subrange(0, i as int));
        }
    }
    proof {
        assert(out@ =~= old(out)@ + t@);
    }
}

/// Append the indentation for `depth` to `out`.
fn push_indent(out: &mut Vec<char>, depth: usize)
    ensures
        final(out)@ == old(out)@ + indent_sp(depth as nat),
{
    let t = mk_buffer(depth);
    push_all(out, &t)
}

/// Append the source word of `k` to `out`.
fn push_keyword_word(out: &mut Vec<char>, k: &Keyword)
    ensures
        final(out)@ == old(out)@ + keyword_word(*k),
{
    let w: Vec<char> = match k {
        Keyword::Let => vec!['l', 'e', 't'],
        Keyword::Def => vec!['d', 'e', 'f'],
        Keyword::Static => vec!['s', 't', 'a', 't', 'i', 'c'],
        Keyword::Mut => vec!['m', 'u', 't'],
    };
    push_all(out, &w)
}

/// Append `true` or `false` to `out`.
fn push_bool_word(out: &mut Vec<char>, b: bool)
    ensures
        final(out)@ == old(out)@ + bool_word(b),
{
    if b {
        let w: Vec<char> = vec!['t', 'r', 'u', 'e'];
        push_all(out, &w)
    } else {
        let w: Vec<char> = vec!['f', 'a', 'l', 's', 'e'];
        push_all(out, &w)
    }
}

/// The decimal digit for `n`.
fn digit_of(n: usize) -> (c: char)
    requires
        n < 10,
    ensures
        c == digit_char(n as nat),
{
    if n == 0 {
        '0'
    } else if n == 1 {
        '1'
    } else if n == 2 {
        '2'
    } else if n == 3 {
        '3'
    } else if n == 4 {
        '4'
    } else if n == 5 {
        '5'
    } else if n == 6 {
        '6'
    } else if n == 7 {
        '7'
    } else if n == 8 {
        '8'
    } else {
        '9'
    }
}

/// Append `n` in decimal to `out`.
fn push_usize(out: &mut Vec<char>, n: usize)
    ensures
        final(out)@ == old(out)@ + dec_digits(n as nat),
    decreases n,
{
    if n < 10 {
        out.push(digit_of(n));
        proof {
            assert(out@ =~= old(out)@ + dec_digits(n as nat));
        }
    } else {
        push_usize(out, n / 10);
        out.push(digit_of(n % 10));
        proof {
            assert(out@ =~= old(out)@ + dec_digits(n as nat));
        }
    }
}

/// One level deeper, saturating at the machine limit.
fn deeper(depth: usize) -> (r: usize)
    ensures
        depth < usize::MAX ==> r == depth + 1,
{
    if depth < usize::MAX {
        depth + 1
    } else {
        depth
    }
}

fn print_lit_into(l: &Literal, depth: usize, out: &mut Vec<char>)
    ensures
        final(out)@ == old(out)@ + render_lit(lit_model(*l), depth as nat),
{
    push_indent(out, depth);
    match l {
        Literal::Num(ip, fr) => match fr {
            Some(f) => {
                let tag: Vec<char> = vec!['F', 'l', 'o', 'a', 't', ':', ' '];
                push_all(out, &tag);
                push_all(out, ip);
                out.push('.');
                push_all(out, f);
            },
            None => {
                let tag: Vec<char> = vec!['I', 'n', 't', ':', ' '];
                push_all(out, &tag);
                push_all(out, ip);
            },
        },
        Literal::Byte(t, h) => {
            let tag: Vec<char> = vec!['B', 'y', 't', 'e', ':', ' '];
            push_all(out, &tag);
            push_all(out, t);
        },
        Literal::Bool(b) => {
            let tag: Vec<char> = vec!['B', 'o', 'o', 'l', ':', ' '];
            push_all(out, &tag);
            push_bool_word(out, *b);
        },
        Literal::Str(t) => {
            let tag: Vec<char> = vec!['S', 't', 'r', 'i', 'n', 'g', ':', ' '];
            push_all(out, &tag);
            push_all(out, t);
        },
        Literal::Char(c) => {
            let tag: Vec<char> = vec!['C', 'h', 'a', 'r', ':', ' '];
            push_all(out, &tag);
            out.push(*c);
        },
    }
    proof {
        assert(out@ =~= old(out)@ + render_lit(lit_model(*l), depth as nat));
    }
}

fn print_binding_into(b: &Binding, depth: usize, out: &mut Vec<char>)
    ensures
        depth + bt_height(binding_model(*b)) <= usize::MAX ==> final(out)@ == old(out)@
            + render_binding(binding_model(*b), depth as nat),
    decreases *b, 0int,
{
    push_indent(out, depth);
    match b {
        Binding::Variable(t) => {
            let tag: Vec<char> = vec!['V', 'a', 'r', 'i', 'a', 'b', 'l', 'e', ':', ' '];
            push_all(out, &tag);
            push_all(out, t);
        },
        Binding::Type(t) => {
            let tag: Vec<char> = vec!['T', 'y', 'p', 'e', ':', ' '];
            push_all(out, &tag);
            push_all(out, t);
        },
        Binding::Operator(t) => {
            let tag: Vec<char> = vec!['O', 'p', ':', ' '];
            push_all(out, &tag);
            push_all(out, t);
        },
        Binding::Tuple(bs) => {
            let tag: Vec<char> = vec![
                'T',
                'u',
                'p',
                'l',
                'e',
                'B',
                'i',
                'n',
                'd',
                'i',
                'n',
                'g',
                '[',
            ];
            push_all(out, &tag);
            push_usize(out, bs.len());
            out.push(']');
            print_bindings_from(bs, 0, deeper(depth), out);
        },
        Binding::FullType(n, segs, isarr) => {
            let tag: Vec<char> = vec!['F', 'u', 'l', 'l', 'T', 'y', 'p', 'e', ':', ' '];
            push_all(out, &tag);
            push_all(out, n);
            if *isarr {
                out.push('[');
                out.push(']');
            }
            print_bindings_from(segs, 0, deeper(depth), out);
        },
    }
    proof {
        if depth + bt_height(binding_model(*b)) <= usize::MAX {
            assert(out@ =~= old(out)@ + render_binding(binding_model(*b), depth as nat));
        }
    }
}

fn print_bindings_from(v: &Vec<Binding>, i: usize, depth: usize, out: &mut Vec<char>)
    requires
        i <= v.len(),
    ensures
        depth + bts_height(bindings_model(v@), i as int) <= usize::MAX ==> final(out)@ == old(
            out,
        )@ + render_bindings(bindings_model(v@), i as int, depth as nat),
    decreases v@, v@.len() - i,
{
    if i < v.len() {
        out.push('\n');
        print_binding_into(&v[i], depth, out);
        print_bindings_from(v, i + 1, depth, out);
        proof {
            if depth + bts_height(bindings_model(v@), i as int) <= usize::MAX {
                assert(out@ =~= old(out)@ + render_bindings(
                    bindings_model(v@),
                    i as int,
                    depth as nat,
                ));
            }
        }
    } else {
        proof {
            assert(out@ =~= old(out)@ + render_bindings(
                bindings_model(v@),
                i as int,
                depth as nat,
            ));
        }
    }
}

#[verifier::rlimit(100)]
fn print_expr_into(e: &Expression, depth: usize, out: &mut Vec<char>)
    ensures
        depth + et_height(expr_model(*e)) <= usize::MAX ==> final(out)@ == old(out)@ + render_expr(
            expr_model(*e),
            depth as nat,
        ),
    decreases *e, 0int,
{
    match e {
        Expression::Literal(l) => {
            print_lit_into(l, depth, out);
        },
        Expression::Name(b) => {
            print_binding_into(b, depth, out);
        },
        Expression::Assignment(k, b, m, v) => {
            push_indent(out, depth);
            let tag: Vec<char> = vec!['B', 'i', 'n', 'd', 'i', 'n', 'g', ' ', '('];
            push_all(out, &tag);
            push_keyword_word(out, k);
            let sep: Vec<char> = vec![',', ' '];
            push_all(out, &sep);
            push_bool_word(out, *m);
            out.push(')');
            out.push('\n');
            print_binding_into(b, deeper(depth), out);
            out.push('\n');
            print_expr_into(v, deeper(depth), out);
        },
        Expression::Scope(es) => {
            push_indent(out, depth);
            let tag: Vec<char> = vec!['S', 'c', 'o', 'p', 'e'];
            push_all(out, &tag);
            print_exprs_from(es, 0, deeper(depth), out);
        },
        Expression::Tuple(es) => {
            push_indent(out, depth);
            let tag: Vec<char> = vec!['T', 'u', 'p', 'l', 'e', '['];
            push_all(out, &tag);
            push_usize(out, es.len());
            out.push(']');
            print_exprs_from(es, 0, deeper(depth), out);
        },
        Expression::Array(es) => {
            push_indent(out, depth);
            let tag: Vec<char> = vec!['A', 'r', 'r', 'a', 'y', '['];
            push_all(out, &tag);
            push_usize(out, es.len());
            out.push(']');
            print_exprs_from(es, 0, deeper(depth), out);
        },
        Expression::Binary(op, l, r) => {
            push_indent(out, depth);
            let tag: Vec<char> = vec![
                'B',
                'i',
                'n',
                'a',
                'r',
                'y',
                ' ',
                'O',
                'p',
                'e',
                'r',
                'a',
                't',
                'o',
                'r',
                ' ',
            ];
            push_all(out, &tag);
            print_binding_into(op, 0, out);
            out.push('\n');
            print_expr_into(l, deeper(depth), out);
            out.push('\n');
            print_expr_into(r, deeper(depth), out);
        },
        Expression::FnCall(f, args) => {
            push_indent(out, depth);
            let tag: Vec<char> = vec![
                'A',
                ' ',
                'f',
                'u',
                'n',
                'c',
                't',
                'i',
                'o',
                'n',
                ' ',
                'c',
                'a',
                'l',
                'l',
                '\n',
            ];
            push_all(out, &tag);
            print_expr_into(f, deeper(depth), out);
            print_exprs_from(args, 0, deeper(depth), out);
        },
        Expression::ModDecl(bs) => {
            push_indent(out, depth);
            let tag: Vec<char> = vec![
                'M',
                'o',
                'd',
                'u',
                'l',
                'e',
                ' ',
                'D',
                'e',
                'c',
                'l',
                'a',
                'r',
                'a',
                't',
                'i',
                'o',
                'n',
            ];
            push_all(out, &tag);
            print_bindings_from(bs, 0, deeper(depth), out);
        },
    }
    proof {
        if depth + et_height(expr_model(*e)) <= usize::MAX {
            assert(out@ =~= old(out)@ + render_expr(expr_model(*e), depth as nat));
        }
    }
}

fn print_exprs_from(v: &Vec<Expression>, i: usize, depth: usize, out: &mut Vec<char>)
    requires
        i <= v.len(),
    ensures
        depth + ets_height(exprs_model(v@), i as int) <= usize::MAX ==> final(out)@ == old(
            out,
        )@ + render_exprs(exprs_model(v@), i as int, depth as nat),
    decreases v@, v@.len() - i,
{
    if i < v.len() {
        out.push('\n');
        print_expr_into(&v[i], depth, out);
        print_exprs_from(v, i + 1, depth, out);
        proof {
            if depth + ets_height(exprs_model(v@), i as int) <= usize::MAX {
                assert(out@ =~= old(out)@ + render_exprs(
                    exprs_model(v@),
                    i as int,
                    depth as nat,
                ));
            }
        }
    } else {
        proof {
            assert(out@ =~= old(out)@ + render_exprs(exprs_model(v@), i as int, depth as nat));
        }
    }
}

// ---------------------------------------------------------------------------
// The printing interface
// ---------------------------------------------------------------------------

/// Indentation-aware rendering, one line per node, children one level
/// deeper.  `print` is pure over the node and the depth: wherever the
/// depth budget of the node fits the machine, the output is exactly
/// the node's rendering.
pub trait PrettyPrint {
    /// How much deeper than its own line this node's rendering reaches.
    spec fn pp_height(&self) -> nat;

    /// The node's rendering at `depth`.
    spec fn pp_rendered(&self, depth: nat) -> Seq<char>;

    /// Render this node at `depth`.
    fn print(&self, depth: usize) -> (out: Vec<char>)
        ensures
            depth + self.pp_height() <= usize::MAX ==> out@ == self.pp_rendered(depth as nat),
    ;
}

impl PrettyPrint for Keyword {
    open spec fn pp_height(&self) -> nat {
        0
    }

    /// A keyword renders as its bare source word at every depth.
    open spec fn pp_rendered(&self, depth: nat) -> Seq<char> {
        keyword_word(*self)
    }

    fn print(&self, depth: usize) -> (out: Vec<char>) {
        let mut out: Vec<char> = Vec::new();
        push_keyword_word(&mut out, self);
        out
    }
}

impl PrettyPrint for Literal {
    open spec fn pp_height(&self) -> nat {
        1
    }

    open spec fn pp_rendered(&self, depth: nat) -> Seq<char> {
        render_lit(lit_model(*self), depth)
    }

    fn print(&self, depth: usize) -> (out: Vec<char>) {
        let mut out: Vec<char> = Vec::new();
        print_lit_into(self, depth, &mut out);
        out
    }
}

impl PrettyPrint for Binding {
    open spec fn pp_height(&self) -> nat {
        bt_height(binding_model(*self))
    }

    open spec fn pp_rendered(&self, depth: nat) -> Seq<char> {
        render_binding(binding_model(*self), depth)
    }

    fn print(&self, depth: usize) -> (out: Vec<char>) {
        let mut out: Vec<char> = Vec::new();
        print_binding_into(self, depth, &mut out);
        out
    }
}

impl PrettyPrint for Expression {
    open spec fn pp_height(&self) -> nat {
        et_height(expr_model(*self))
    }

    open spec fn pp_rendered(&self, depth: nat) -> Seq<char> {
        render_expr(expr_model(*self), depth)
    }

    fn print(&self, depth: usize) -> (out: Vec<char>) {
        let mut out: Vec<char> = Vec::new();
        print_expr_into(self, depth, &mut out);
        out
    }
}

} // verus!
