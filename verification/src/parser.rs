//! The executable recursive-descent parser.
//!
//! Every function here mirrors one rule of [`crate::grammar`] and is
//! proved to return exactly what that rule describes: the same
//! success or failure, the same value (through the models of
//! [`crate::ast`]), and the same resume position.

use vstd::prelude::*;
use crate::ast::{Binding, Expression, Keyword, Literal};
use crate::ast::{binding_model, bindings_model, expr_model, exprs_model, lit_model};
use crate::grammar::{
    alnum_end, ann_skip, array_elems_rule, assign_binding, assign_rule, atom_rule,
    bin_lit, binary_rule, binary_tail, bindig_end, bool_lit, char_lit, digit_end, dotflip_rule,
    dotflip_tail, expr_list, expr_rule, expr_seq, fncall_arr_step, fncall_rule, full_type, hex_lit, hexdig_end,
    ident_end, ig_once, is_alnum, is_bin_digit, is_digit, is_hex_digit, is_ident_char, is_op_lead,
    is_op_symbol, is_space, is_upper, is_var_start, keyword_at, kw_end_ok, line_rule, lines_acc,
    literal_bucket, ml_close, mod_decl, mod_path, mod_spec, name_binding, nl_scan, num_lit,
    op_token, opsym_end, program_rule, scope_rule, skip_ig, space_end, str_lit, str_scan,
    tup_binding, tup_elems, tuple_elems_rule, type_token, var_token, vcontext, w2, w3,
    w4, w5, w6,
};
use crate::model::{BindingType, ExprType, LiteralType};

verus! {

// ---------------------------------------------------------------------------
// Result correspondences
// ---------------------------------------------------------------------------

/// A scan outcome agrees with its rule: same success, same position,
/// and the position stays between `lo` and `hi`.
pub open spec fn pos_res(r: Option<usize>, m: Option<int>, lo: int, hi: int) -> bool {
    match r {
        Some(p) => m == Some(p as int) && lo <= p as int <= hi,
        None => m is None,
    }
}

/// A token outcome agrees with its rule: same text, same position.
pub open spec fn tok_res(
    r: Option<(Vec<char>, usize)>,
    m: Option<(Seq<char>, int)>,
    lo: int,
    hi: int,
) -> bool {
    match r {
        Some((t, p)) => m == Some((t@, p as int)) && lo <= p as int <= hi,
        None => m is None,
    }
}

// ---------------------------------------------------------------------------
// Character classes
// ---------------------------------------------------------------------------

fn is_space_c(c: char) -> (r: bool)
    ensures
        r == is_space(c),
{
    c == ' ' || c == '\n' || c == '\r' || c == '\t'
}

fn is_digit_c(c: char) -> (r: bool)
    ensures
        r == is_digit(c),
{
    let u = c as u32;
    48 <= u && u <= 57
}

fn is_var_start_c(c: char) -> (r: bool)
    ensures
        r == is_var_start(c),
{
    let u = c as u32;
    (97 <= u && u <= 122) || c == '_'
}

fn is_upper_c(c: char) -> (r: bool)
    ensures
        r == is_upper(c),
{
    let u = c as u32;
    65 <= u && u <= 90
}

fn is_ident_c(c: char) -> (r: bool)
    ensures
        r == is_ident_char(c),
{
    let u = c as u32;
    (48 <= u && u <= 57) || (97 <= u && u <= 122) || (65 <= u && u <= 90) || c == '_'
}

fn is_alnum_c(c: char) -> (r: bool)
    ensures
        r == is_alnum(c),
{
    let u = c as u32;
    (48 <= u && u <= 57) || (97 <= u && u <= 122) || (65 <= u && u <= 90)
}

fn is_hex_c(c: char) -> (r: bool)
    ensures
        r == is_hex_digit(c),
{
    let u = c as u32;
    (48 <= u && u <= 57) || (97 <= u && u <= 102) || (65 <= u && u <= 70)
}

fn is_bin_c(c: char) -> (r: bool)
    ensures
        r == is_bin_digit(c),
{
    c == '0' || c == '1'
}

fn is_opsym_c(c: char) -> (r: bool)
    ensures
        r == is_op_symbol(c),
{
    c == '!' || c == '@' || c == '#' || c == '$' || c == '%' || c == '^' || c == '&' || c == '*'
        || c == '?' || c == '<' || c == '>' || c == '|' || c == '`' || c == '/' || c == '\\'
        || c == '-' || c == '=' || c == '+'
}

fn is_oplead_c(c: char) -> (r: bool)
    ensures
        r == is_op_lead(c),
{
    c == '&' || c == '=' || c == ':'
}

// ---------------------------------------------------------------------------
// Fixed words
// ---------------------------------------------------------------------------

fn word2(s: &Vec<char>, pos: usize, a: char, b: char) -> (r: bool)
    requires
        pos <= s.len(),
    ensures
        r == w2(s@, pos as int, a, b),
{
    s.len() - pos >= 2 && s[pos] == a && s[pos + 1] == b
}

fn word3(s: &Vec<char>, pos: usize, a: char, b: char, c: char) -> (r: bool)
    requires
        pos <= s.len(),
    ensures
        r == w3(s@, pos as int, a, b, c),
{
    s.len() - pos >= 3 && s[pos] == a && s[pos + 1] == b && s[pos + 2] == c
}

fn word4(s: &Vec<char>, pos: usize, a: char, b: char, c: char, d: char) -> (r: bool)
    requires
        pos <= s.len(),
    ensures
        r == w4(s@, pos as int, a, b, c, d),
{
    s.len() - pos >= 4 && s[pos] == a && s[pos + 1] == b && s[pos + 2] == c && s[pos + 3] == d
}

fn word5(s: &Vec<char>, pos: usize, a: char, b: char, c: char, d: char, e: char) -> (r: bool)
    requires
        pos <= s.len(),
    ensures
        r == w5(s@, pos as int, a, b, c, d, e),
{
    s.len() - pos >= 5 && s[pos] == a && s[pos + 1] == b && s[pos + 2] == c && s[pos + 3] == d
        && s[pos + 4] == e
}

fn word6(s: &Vec<char>, pos: usize, a: char, b: char, c: char, d: char, e: char, f: char) -> (r:
    bool)
    requires
        pos <= s.len(),
    ensures
        r == w6(s@, pos as int, a, b, c, d, e, f),
{
    s.len() - pos >= 6 && s[pos] == a && s[pos + 1] == b && s[pos + 2] == c && s[pos + 3] == d
        && s[pos + 4] == e && s[pos + 5] == f
}

/// The reserved word that ends at `q` stands at a token boundary.
fn at_boundary(s: &Vec<char>, q: usize) -> (r: bool)
    requires
        q <= s.len(),
    ensures
        r == kw_end_ok(s@, q as int),
{
    q == s.len() || !is_ident_c(s[q])
}

fn is_keyword_at(s: &Vec<char>, pos: usize) -> (r: bool)
    requires
        pos <= s.len(),
    ensures
        r == keyword_at(s@, pos as int),
{
    (word3(s, pos, 'l', 'e', 't') && at_boundary(s, pos + 3)) || (word3(s, pos, 'd', 'e', 'f')
        && at_boundary(s, pos + 3)) || (word6(s, pos, 's', 't', 'a', 't', 'i', 'c')
        && at_boundary(s, pos + 6)) || (word3(s, pos, 'm', 'u', 't') && at_boundary(s, pos + 3))
        || (word3(s, pos, 'm', 'o', 'd') && at_boundary(s, pos + 3)) || (word5(
        s,
        pos,
        'm',
        'a',
        't',
        'c',
        'h',
    ) && at_boundary(s, pos + 5)) || (word2(s, pos, 'i', 'f') && at_boundary(s, pos + 2)) || (
    word5(s, pos, 'e', 'l', 's', 'i', 'f') && at_boundary(s, pos + 5)) || (word4(
        s,
        pos,
        'e',
        'l',
        's',
        'e',
    ) && at_boundary(s, pos + 4)) || (word3(s, pos, 'u', 's', 'e') && at_boundary(s, pos + 3)) || (
    word4(s, pos, 't', 'r', 'u', 'e') && at_boundary(s, pos + 4)) || (word5(
        s,
        pos,
        'f',
        'a',
        'l',
        's',
        'e',
    ) && at_boundary(s, pos + 5))
}

// ---------------------------------------------------------------------------
// Character runs
// ---------------------------------------------------------------------------

fn scan_space(s: &Vec<char>, pos: usize) -> (r: usize)
    requires
        pos <= s.len(),
    ensures
        r as int == space_end(s@, pos as int),
        pos <= r <= s.len(),
    decreases s@.len() - pos,
{
    if pos < s.len() && is_space_c(s[pos]) {
        scan_space(s, pos + 1)
    } else {
        pos
    }
}

fn scan_ident(s: &Vec<char>, pos: usize) -> (r: usize)
    requires
        pos <= s.len(),
    ensures
        r as int == ident_end(s@, pos as int),
        pos <= r <= s.len(),
    decreases s@.len() - pos,
{
    if pos < s.len() && is_ident_c(s[pos]) {
        scan_ident(s, pos + 1)
    } else {
        pos
    }
}

fn scan_alnum(s: &Vec<char>, pos: usize) -> (r: usize)
    requires
        pos <= s.len(),
    ensures
        r as int == alnum_end(s@, pos as int),
        pos <= r <= s.len(),
    decreases s@.len() - pos,
{
    if pos < s.len() && is_alnum_c(s[pos]) {
        scan_alnum(s, pos + 1)
    } else {
        pos
    }
}

fn scan_digit(s: &Vec<char>, pos: usize) -> (r: usize)
    requires
        pos <= s.len(),
    ensures
        r as int == digit_end(s@, pos as int),
        pos <= r <= s.len(),
    decreases s@.len() - pos,
{
    if pos < s.len() && is_digit_c(s[pos]) {
        scan_digit(s, pos + 1)
    } else {
        pos
    }
}

fn scan_hexdig(s: &Vec<char>, pos: usize) -> (r: usize)
    requires
        pos <= s.len(),
    ensures
        r as int == hexdig_end(s@, pos as int),
        pos <= r <= s.len(),
    decreases s@.len() - pos,
{
    if pos < s.len() && is_hex_c(s[pos]) {
        scan_hexdig(s, pos + 1)
    } else {
        pos
    }
}

fn scan_bindig(s: &Vec<char>, pos: usize) -> (r: usize)
    requires
        pos <= s.len(),
    ensures
        r as int == bindig_end(s@, pos as int),
        pos <= r <= s.len(),
    decreases s@.len() - pos,
{
    if pos < s.len() && is_bin_c(s[pos]) {
        scan_bindig(s, pos + 1)
    } else {
        pos
    }
}

fn scan_opsym(s: &Vec<char>, pos: usize) -> (r: usize)
    requires
        pos <= s.len(),
    ensures
        r as int == opsym_end(s@, pos as int),
        pos <= r <= s.len(),
    decreases s@.len() - pos,
{
    if pos < s.len() && is_opsym_c(s[pos]) {
        scan_opsym(s, pos + 1)
    } else {
        pos
    }
}

// ---------------------------------------------------------------------------
// Ignorable text
// ---------------------------------------------------------------------------

fn scan_ml_close(s: &Vec<char>, pos: usize) -> (r: Option<usize>)
    requires
        pos <= s.len(),
    ensures
        pos_res(r, ml_close(s@, pos as int), pos as int, s@.len() as int),
    decreases s@.len() - pos,
{
    if s.len() - pos >= 2 {
        if s[pos] == '#' && s[pos + 1] == '#' {
            Some(pos + 2)
        } else {
            scan_ml_close(s, pos + 1)
        }
    } else {
        None
    }
}

fn scan_nl(s: &Vec<char>, pos: usize) -> (r: Option<usize>)
    requires
        pos <= s.len(),
    ensures
        pos_res(r, nl_scan(s@, pos as int), pos as int, s@.len() as int),
    decreases s@.len() - pos,
{
    if pos < s.len() {
        if s[pos] == '\n' {
            Some(pos + 1)
        } else {
            scan_nl(s, pos + 1)
        }
    } else {
        None
    }
}

fn ig_once_at(s: &Vec<char>, pos: usize) -> (r: Option<usize>)
    requires
        pos <= s.len(),
    ensures
        pos_res(r, ig_once(s@, pos as int), pos as int, s@.len() as int),
{
    if word2(s, pos, '#', '#') {
        let c = scan_ml_close(s, pos + 2);
        if c.is_some() {
            return c;
        }
    }
    if pos < s.len() && s[pos] == '#' {
        match scan_nl(s, pos + 1) {
            Some(q) => {
                return Some(q);
            },
            None => {},
        }
    }
    let e = scan_space(s, pos);
    if e > pos {
        Some(e)
    } else {
        None
    }
}

/// Consume every ignorable item reachable from `pos`.
fn skip_ig_at(s: &Vec<char>, pos: usize) -> (r: usize)
    requires
        pos <= s.len(),
    ensures
        r as int == skip_ig(s@, pos as int),
        pos <= r <= s.len(),
    decreases s@.len() - pos,
{
    match ig_once_at(s, pos) {
        Some(q) => if pos < q && q <= s.len() {
            skip_ig_at(s, q)
        } else {
            pos
        },
        None => pos,
    }
}

// ---------------------------------------------------------------------------
// Token rules
// ---------------------------------------------------------------------------

/// A binding outcome agrees with its rule through the binding model.
pub open spec fn bind_res(
    r: Option<(Binding, usize)>,
    m: Option<(BindingType, int)>,
    lo: int,
    hi: int,
) -> bool {
    match r {
        Some((b, p)) => m == Some((binding_model(b), p as int)) && lo <= p as int <= hi,
        None => m is None,
    }
}

/// A literal outcome agrees with its rule through the literal model.
pub open spec fn lit_res(
    r: Option<(Literal, usize)>,
    m: Option<(LiteralType, int)>,
    lo: int,
    hi: int,
) -> bool {
    match r {
        Some((l, p)) => m == Some((lit_model(l), p as int)) && lo <= p as int <= hi,
        None => m is None,
    }
}

/// A keyword outcome agrees with its rule.
pub open spec fn kw_res(
    r: Option<(Keyword, usize)>,
    m: Option<(Keyword, int)>,
    lo: int,
    hi: int,
) -> bool {
    match r {
        Some((k, p)) => m == Some((k, p as int)) && lo <= p as int <= hi,
        None => m is None,
    }
}

/// An expression outcome agrees with its rule through the expression
/// model.
pub open spec fn expr_res(
    r: Option<(Expression, usize)>,
    m: Option<(ExprType, int)>,
    lo: int,
    hi: int,
) -> bool {
    match r {
        Some((e, p)) => m == Some((expr_model(e), p as int)) && lo <= p as int <= hi,
        None => m is None,
    }
}

/// Copy of `s[from..to]`.
fn copy_range(s: &Vec<char>, from: usize, to: usize) -> (r: Vec<char>)
    requires
        from <= to <= s.len(),
    ensures
        r@ == s@.subrange(from as int, to as int),
{
    let mut r: Vec<char> = Vec::new();
    let mut i: usize = from;
    while i < to
        invariant
            from <= i <= to,
            to <= s.len(),
            r@ == s@.subrange(from as int, i as int),
        decreases to - i,
    {
        r.push(s[i]);
        i = i + 1;
        proof {
            assert(r@ =~= s@.subrange(from as int, i as int));
        }
    }
    r
}

fn var_token_at(s: &Vec<char>, pos: usize) -> (r: Option<(Vec<char>, usize)>)
    requires
        pos <= s.len(),
    ensures
        tok_res(r, var_token(s@, pos as int), pos as int, s@.len() as int),
{
    if pos < s.len() && !is_keyword_at(s, pos) && is_var_start_c(s[pos]) {
        let e = scan_ident(s, pos + 1);
        Some((copy_range(s, pos, e), e))
    } else {
        None
    }
}

fn type_token_at(s: &Vec<char>, pos: usize) -> (r: Option<(Vec<char>, usize)>)
    requires
        pos <= s.len(),
    ensures
        tok_res(r, type_token(s@, pos as int), pos as int, s@.len() as int),
{
    if pos < s.len() && is_upper_c(s[pos]) {
        let e = scan_alnum(s, pos + 1);
        Some((copy_range(s, pos, e), e))
    } else {
        None
    }
}

fn op_token_at(s: &Vec<char>, pos: usize) -> (r: Option<(Vec<char>, usize)>)
    requires
        pos <= s.len(),
    ensures
        tok_res(r, op_token(s@, pos as int), pos as int, s@.len() as int),
{
    if pos < s.len() && is_oplead_c(s[pos]) && pos + 1 < s.len() && is_opsym_c(s[pos + 1]) {
        let e = scan_opsym(s, pos + 1);
        let t = copy_range(s, pos, e);
        Some((t, skip_ig_at(s, e)))
    } else if pos < s.len() && is_opsym_c(s[pos]) {
        let e = scan_opsym(s, pos + 1);
        let t = copy_range(s, pos, e);
        Some((t, skip_ig_at(s, e)))
    } else {
        None
    }
}

fn mod_spec_at(s: &Vec<char>, pos: usize, acc: Vec<Binding>) -> (r: (Vec<Binding>, usize))
    requires
        pos <= s.len(),
    ensures
        bindings_model(r.0@) == mod_spec(s@, pos as int, bindings_model(acc@)).0,
        r.1 as int == mod_spec(s@, pos as int, bindings_model(acc@)).1,
        pos <= r.1 <= s.len(),
    decreases s@.len() - pos,
{
    let mut acc = acc;
    match var_token_at(s, pos) {
        Some((t, q)) => {
            if q < s.len() && s[q] == ':' {
                proof {
                    crate::ast::lemma_bindings_model_push(acc@, Binding::Variable(t));
                }
                acc.push(Binding::Variable(t));
                mod_spec_at(s, q + 1, acc)
            } else {
                (acc, pos)
            }
        },
        None => match type_token_at(s, pos) {
            Some((t, q)) => {
                if q < s.len() && s[q] == ':' {
                    proof {
                        crate::ast::lemma_bindings_model_push(acc@, Binding::Type(t));
                    }
                    acc.push(Binding::Type(t));
                    mod_spec_at(s, q + 1, acc)
                } else {
                    (acc, pos)
                }
            },
            None => (acc, pos),
        },
    }
}

fn full_type_at(s: &Vec<char>, pos: usize) -> (r: Option<(Binding, usize)>)
    requires
        pos <= s.len(),
    ensures
        bind_res(r, full_type(s@, pos as int), pos as int, s@.len() as int),
{
    proof {
        assert(bindings_model(Seq::<Binding>::empty()) =~= Seq::<BindingType>::empty());
    }
    let (segs, q) = mod_spec_at(s, pos, Vec::new());
    match type_token_at(s, q) {
        Some((name, q2)) => {
            let (isarr, q3) = if q2 < s.len() && s[q2] == '[' {
                let qi = skip_ig_at(s, q2 + 1);
                if qi < s.len() && s[qi] == ']' {
                    (true, qi + 1)
                } else {
                    (false, q2)
                }
            } else {
                (false, q2)
            };
            let q4 = if q3 < s.len() && (s[q3] == '&' || s[q3] == '*') {
                q3 + 1
            } else {
                q3
            };
            Some((Binding::FullType(name, segs, isarr), skip_ig_at(s, q4)))
        },
        None => None,
    }
}

fn tup_elems_at(s: &Vec<char>, pos: usize, acc: Vec<Binding>) -> (r: Option<(Vec<Binding>, usize)>)
    requires
        pos <= s.len(),
    ensures
        match r {
            Some((v, p)) => tup_elems(s@, pos as int, bindings_model(acc@)) == Some(
                (bindings_model(v@), p as int),
            ) && pos <= p <= s.len(),
            None => tup_elems(s@, pos as int, bindings_model(acc@)) is None,
        },
    decreases s@.len() - pos,
{
    let mut acc = acc;
    match var_token_at(s, pos) {
        Some((t, q)) => {
            let q2 = skip_ig_at(s, q);
            if q2 < s.len() && s[q2] == ',' {
                let q3 = skip_ig_at(s, q2 + 1);
                if pos < q3 && q3 <= s.len() {
                    proof {
                        crate::ast::lemma_bindings_model_push(acc@, Binding::Variable(t));
                    }
                    acc.push(Binding::Variable(t));
                    tup_elems_at(s, q3, acc)
                } else {
                    None
                }
            } else if q2 < s.len() && s[q2] == ')' {
                proof {
                    crate::ast::lemma_bindings_model_push(acc@, Binding::Variable(t));
                }
                acc.push(Binding::Variable(t));
                Some((acc, skip_ig_at(s, q2 + 1)))
            } else {
                None
            }
        },
        None => None,
    }
}

fn tup_binding_at(s: &Vec<char>, pos: usize) -> (r: Option<(Binding, usize)>)
    requires
        pos <= s.len(),
    ensures
        bind_res(r, tup_binding(s@, pos as int), pos as int, s@.len() as int),
{
    if pos < s.len() && s[pos] == '(' {
        proof {
            assert(bindings_model(Seq::<Binding>::empty()) =~= Seq::<BindingType>::empty());
        }
        let q = skip_ig_at(s, pos + 1);
        match tup_elems_at(s, q, Vec::new()) {
            Some((elems, q2)) => Some((Binding::Tuple(elems), q2)),
            None => None,
        }
    } else {
        None
    }
}

fn assign_binding_at(s: &Vec<char>, pos: usize) -> (r: Option<(Binding, usize)>)
    requires
        pos <= s.len(),
    ensures
        bind_res(r, assign_binding(s@, pos as int), pos as int, s@.len() as int),
{
    match tup_binding_at(s, pos) {
        Some(r) => Some(r),
        None => match var_token_at(s, pos) {
            Some((t, q)) => Some((Binding::Variable(t), skip_ig_at(s, q))),
            None => match type_token_at(s, pos) {
                Some((t, q)) => Some((Binding::Type(t), skip_ig_at(s, q))),
                None => match op_token_at(s, pos) {
                    Some((t, q)) => Some((Binding::Operator(t), q)),
                    None => None,
                },
            },
        },
    }
}

fn name_binding_at(s: &Vec<char>, pos: usize) -> (r: Option<(Binding, usize)>)
    requires
        pos <= s.len(),
    ensures
        bind_res(r, name_binding(s@, pos as int), pos as int, s@.len() as int),
{
    match var_token_at(s, pos) {
        Some((t, q)) => Some((Binding::Variable(t), skip_ig_at(s, q))),
        None => match type_token_at(s, pos) {
            Some((t, q)) => Some((Binding::Type(t), skip_ig_at(s, q))),
            None => match op_token_at(s, pos) {
                Some((t, q)) => Some((Binding::Operator(t), q)),
                None => None,
            },
        },
    }
}

// ---------------------------------------------------------------------------
// Literal rules
// ---------------------------------------------------------------------------

fn hex_lit_at(s: &Vec<char>, pos: usize) -> (r: Option<(Literal, usize)>)
    requires
        pos <= s.len(),
    ensures
        lit_res(r, hex_lit(s@, pos as int), pos as int, s@.len() as int),
{
    if word2(s, pos, '0', 'x') && pos + 2 < s.len() && is_hex_c(s[pos + 2]) {
        let e = scan_hexdig(s, pos + 3);
        Some((Literal::Byte(copy_range(s, pos + 2, e), true), e))
    } else {
        None
    }
}

fn bin_lit_at(s: &Vec<char>, pos: usize) -> (r: Option<(Literal, usize)>)
    requires
        pos <= s.len(),
    ensures
        lit_res(r, bin_lit(s@, pos as int), pos as int, s@.len() as int),
{
    if word2(s, pos, '0', 'b') && pos + 2 < s.len() && is_bin_c(s[pos + 2]) {
        let e = scan_bindig(s, pos + 3);
        Some((Literal::Byte(copy_range(s, pos + 2, e), false), e))
    } else {
        None
    }
}

fn num_lit_at(s: &Vec<char>, pos: usize) -> (r: Option<(Literal, usize)>)
    requires
        pos <= s.len(),
    ensures
        lit_res(r, num_lit(s@, pos as int), pos as int, s@.len() as int),
{
    if pos < s.len() && is_digit_c(s[pos]) {
        let e = scan_digit(s, pos + 1);
        if e < s.len() && s[e] == '.' && e + 1 < s.len() && is_digit_c(s[e + 1]) {
            let f = scan_digit(s, e + 2);
            Some((Literal::Num(copy_range(s, pos, e), Some(copy_range(s, e + 1, f))), f))
        } else {
            Some((Literal::Num(copy_range(s, pos, e), None), e))
        }
    } else {
        None
    }
}

fn scan_str(s: &Vec<char>, pos: usize) -> (r: Option<usize>)
    requires
        pos <= s.len(),
    ensures
        r matches Some(p) ==> str_scan(s@, pos as int) == Some(p as int) && pos < p <= s.len(),
        r is None ==> str_scan(s@, pos as int) is None,
    decreases s@.len() - pos,
{
    if pos < s.len() {
        if s[pos] == '"' {
            Some(pos + 1)
        } else if s[pos] == '\\' && s.len() - pos >= 2 {
            scan_str(s, pos + 2)
        } else {
            scan_str(s, pos + 1)
        }
    } else {
        None
    }
}

fn str_lit_at(s: &Vec<char>, pos: usize) -> (r: Option<(Literal, usize)>)
    requires
        pos <= s.len(),
    ensures
        lit_res(r, str_lit(s@, pos as int), pos as int, s@.len() as int),
{
    if pos < s.len() && s[pos] == '"' {
        match scan_str(s, pos + 1) {
            Some(e) => Some((Literal::Str(copy_range(s, pos + 1, e - 1)), e)),
            None => None,
        }
    } else {
        None
    }
}

fn char_lit_at(s: &Vec<char>, pos: usize) -> (r: Option<(Literal, usize)>)
    requires
        pos <= s.len(),
    ensures
        lit_res(r, char_lit(s@, pos as int), pos as int, s@.len() as int),
{
    if pos < s.len() && s[pos] == '\'' {
        if pos + 1 < s.len() && s[pos + 1] == '\\' {
            if s.len() - pos >= 4 && s[pos + 3] == '\'' {
                Some((Literal::Char(s[pos + 2]), pos + 4))
            } else if s.len() - pos >= 3 && s[pos + 2] == '\'' {
                Some((Literal::Char('\\'), pos + 3))
            } else {
                None
            }
        } else if s.len() - pos >= 3 && s[pos + 2] == '\'' {
            Some((Literal::Char(s[pos + 1]), pos + 3))
        } else {
            None
        }
    } else {
        None
    }
}

fn bool_lit_at(s: &Vec<char>, pos: usize) -> (r: Option<(Literal, usize)>)
    requires
        pos <= s.len(),
    ensures
        lit_res(r, bool_lit(s@, pos as int), pos as int, s@.len() as int),
{
    if word4(s, pos, 't', 'r', 'u', 'e') && at_boundary(s, pos + 4) {
        Some((Literal::Bool(true), pos + 4))
    } else if word5(s, pos, 'f', 'a', 'l', 's', 'e') && at_boundary(s, pos + 5) {
        Some((Literal::Bool(false), pos + 5))
    } else {
        None
    }
}

// ---------------------------------------------------------------------------
// Statement-level tokens
// ---------------------------------------------------------------------------

fn vcontext_at(s: &Vec<char>, pos: usize) -> (r: Option<(Keyword, usize)>)
    requires
        pos <= s.len(),
    ensures
        kw_res(r, vcontext(s@, pos as int), pos as int, s@.len() as int),
{
    if word3(s, pos, 'l', 'e', 't') && at_boundary(s, pos + 3) {
        Some((Keyword::Let, skip_ig_at(s, pos + 3)))
    } else if word3(s, pos, 'd', 'e', 'f') && at_boundary(s, pos + 3) {
        Some((Keyword::Def, skip_ig_at(s, pos + 3)))
    } else if word6(s, pos, 's', 't', 'a', 't', 'i', 'c') && at_boundary(s, pos + 6) {
        Some((Keyword::Static, skip_ig_at(s, pos + 6)))
    } else {
        None
    }
}

fn mod_path_at(s: &Vec<char>, pos: usize, acc: Vec<Binding>) -> (r: (Vec<Binding>, usize))
    requires
        pos <= s.len(),
    ensures
        bindings_model(r.0@) == mod_path(s@, pos as int, bindings_model(acc@)).0,
        r.1 as int == mod_path(s@, pos as int, bindings_model(acc@)).1,
        pos <= r.1 <= s.len(),
    decreases s@.len() - pos,
{
    let mut acc = acc;
    if pos < s.len() && s[pos] == ':' {
        match var_token_at(s, pos + 1) {
            Some((t, q)) => {
                if pos < q && q <= s.len() {
                    proof {
                        crate::ast::lemma_bindings_model_push(acc@, Binding::Variable(t));
                    }
                    acc.push(Binding::Variable(t));
                    mod_path_at(s, q, acc)
                } else {
                    (acc, pos)
                }
            },
            None => (acc, pos),
        }
    } else {
        (acc, pos)
    }
}

fn mod_decl_at(s: &Vec<char>, pos: usize) -> (r: Option<(Expression, usize)>)
    requires
        pos <= s.len(),
    ensures
        expr_res(r, mod_decl(s@, pos as int), pos as int, s@.len() as int),
{
    if word3(s, pos, 'm', 'o', 'd') && at_boundary(s, pos + 3) {
        let q = skip_ig_at(s, pos + 3);
        match var_token_at(s, q) {
            Some((t, q1)) => {
                let mut acc: Vec<Binding> = Vec::new();
                proof {
                    crate::ast::lemma_bindings_model_push(acc@, Binding::Variable(t));
                    assert(bindings_model(Seq::<Binding>::empty()) =~= Seq::<
                        BindingType,
                    >::empty());
                }
                acc.push(Binding::Variable(t));
                proof {
                    assert(bindings_model(acc@) =~= seq![BindingType::Variable(t@)]);
                }
                let (segs, q2) = mod_path_at(s, q1, acc);
                Some((Expression::ModDecl(segs), skip_ig_at(s, q2)))
            },
            None => None,
        }
    } else {
        None
    }
}

// ---------------------------------------------------------------------------
// Expression layer
//
// Mutually recursive, with the same lexicographic measure as the
// rules they implement: remaining input first, then the rule's rank
// at one and the same position.
// ---------------------------------------------------------------------------

/// An expression-list outcome agrees with its rule through the model.
pub open spec fn list_res(
    r: Option<(Vec<Expression>, usize)>,
    m: Option<(Seq<ExprType>, int)>,
    lo: int,
    hi: int,
) -> bool {
    match r {
        Some((v, p)) => m == Some((exprs_model(v@), p as int)) && lo <= p as int <= hi,
        None => m is None,
    }
}

fn tuple_elems_rule_at(s: &Vec<char>, pos: usize) -> (r: Option<(Vec<Expression>, usize)>)
    requires
        pos <= s.len(),
    ensures
        list_res(r, tuple_elems_rule(s@, pos as int), pos as int, s@.len() as int),
    decreases s@.len() - pos, 0int,
{
    if pos < s.len() && s[pos] == '(' {
        proof {
            assert(exprs_model(Seq::<Expression>::empty()) =~= Seq::<ExprType>::empty());
        }
        let q = skip_ig_at(s, pos + 1);
        if pos < q && q <= s.len() {
            if q < s.len() && s[q] == ')' {
                Some((Vec::new(), skip_ig_at(s, q + 1)))
            } else {
                match expr_list_at(s, q, Vec::new()) {
                    Some((es, q2)) => if q2 < s.len() && s[q2] == ')' {
                        Some((es, skip_ig_at(s, q2 + 1)))
                    } else {
                        None
                    },
                    None => None,
                }
            }
        } else {
            None
        }
    } else {
        None
    }
}

fn array_elems_rule_at(s: &Vec<char>, pos: usize) -> (r: Option<(Vec<Expression>, usize)>)
    requires
        pos <= s.len(),
    ensures
        list_res(r, array_elems_rule(s@, pos as int), pos as int, s@.len() as int),
    decreases s@.len() - pos, 0int,
{
    if pos < s.len() && s[pos] == '[' {
        proof {
            assert(exprs_model(Seq::<Expression>::empty()) =~= Seq::<ExprType>::empty());
        }
        let q = skip_ig_at(s, pos + 1);
        if pos < q && q <= s.len() {
            if q < s.len() && s[q] == ']' {
                Some((Vec::new(), skip_ig_at(s, q + 1)))
            } else {
                match expr_list_at(s, q, Vec::new()) {
                    Some((es, q2)) => if q2 < s.len() && s[q2] == ']' {
                        Some((es, skip_ig_at(s, q2 + 1)))
                    } else {
                        None
                    },
                    None => None,
                }
            }
        } else {
            None
        }
    } else {
        None
    }
}

#[verifier::rlimit(60)]
fn scope_rule_at(s: &Vec<char>, pos: usize) -> (r: Option<(Expression, usize)>)
    requires
        pos <= s.len(),
    ensures
        expr_res(r, scope_rule(s@, pos as int), pos as int, s@.len() as int),
    decreases s@.len() - pos, 1int,
{
    if pos < s.len() && s[pos] == '{' {
        proof {
            assert(exprs_model(Seq::<Expression>::empty()) =~= Seq::<ExprType>::empty());
        }
        let q = skip_ig_at(s, pos + 1);
        if pos < q && q <= s.len() {
            let (es, q2) = expr_seq_at(s, q, Vec::new());
            if q2 < s.len() && s[q2] == '}' {
                Some((Expression::Scope(es), skip_ig_at(s, q2 + 1)))
            } else {
                None
            }
        } else {
            None
        }
    } else {
        None
    }
}

#[verifier::rlimit(60)]
fn literal_bucket_at(s: &Vec<char>, pos: usize) -> (r: Option<(Expression, usize)>)
    requires
        pos <= s.len(),
    ensures
        expr_res(r, literal_bucket(s@, pos as int), pos as int, s@.len() as int),
    decreases s@.len() - pos, 2int,
{
    match hex_lit_at(s, pos) {
        Some((l, e)) => Some((Expression::Literal(l), skip_ig_at(s, e))),
        None => match bin_lit_at(s, pos) {
            Some((l, e)) => Some((Expression::Literal(l), skip_ig_at(s, e))),
            None => match num_lit_at(s, pos) {
                Some((l, e)) => Some((Expression::Literal(l), skip_ig_at(s, e))),
                None => match str_lit_at(s, pos) {
                    Some((l, e)) => Some((Expression::Literal(l), skip_ig_at(s, e))),
                    None => match char_lit_at(s, pos) {
                        Some((l, e)) => Some((Expression::Literal(l), skip_ig_at(s, e))),
                        None => match bool_lit_at(s, pos) {
                            Some((l, e)) => Some((Expression::Literal(l), skip_ig_at(s, e))),
                            None => match tuple_elems_rule_at(s, pos) {
                                Some((es, q)) => Some((Expression::Tuple(es), q)),
                                None => match array_elems_rule_at(s, pos) {
                                    Some((es, q)) => Some((Expression::Array(es), q)),
                                    None => match name_binding_at(s, pos) {
                                        Some((b, q)) => Some((Expression::Name(b), q)),
                                        None => None,
                                    },
                                },
                            },
                        },
                    },
                },
            },
        },
    }
}

fn atom_rule_at(s: &Vec<char>, pos: usize) -> (r: Option<(Expression, usize)>)
    requires
        pos <= s.len(),
    ensures
        expr_res(r, atom_rule(s@, pos as int), pos as int, s@.len() as int),
    decreases s@.len() - pos, 3int,
{
    match scope_rule_at(s, pos) {
        Some(r) => Some(r),
        None => literal_bucket_at(s, pos),
    }
}

#[verifier::rlimit(100)]
fn fncall_arr_suffix_at(s: &Vec<char>, q0: usize, e0: Expression) -> (r: (Expression, usize))
    requires
        q0 <= s.len(),
    ensures
        (expr_model(r.0), r.1 as int) == fncall_arr_step(s@, q0 as int, expr_model(e0)),
        q0 <= r.1 <= s.len(),
    decreases s@.len() - q0, 1int,
{
    match array_elems_rule_at(s, q0) {
        Some((elems, qa)) => if q0 <= qa && qa <= s.len() {
            let arr = Expression::Array(elems);
            let mut suffix: Vec<Expression> = Vec::new();
            proof {
                assert(exprs_model(Seq::<Expression>::empty()) =~= Seq::<ExprType>::empty());
            }
            suffix.push(arr);
            proof {
                assert(exprs_model(suffix@) =~= seq![expr_model(suffix@[0])]);
            }
            (Expression::FnCall(Box::new(e0), suffix), qa)
        } else {
            (e0, q0)
        },
        None => (e0, q0),
    }
}

#[verifier::rlimit(60)]
fn fncall_rule_at(s: &Vec<char>, pos: usize) -> (r: Option<(Expression, usize)>)
    requires
        pos <= s.len(),
    ensures
        expr_res(r, fncall_rule(s@, pos as int), pos as int, s@.len() as int),
    decreases s@.len() - pos, 4int,
{
    match atom_rule_at(s, pos) {
        Some((e0, q0)) => if pos <= q0 && q0 <= s.len() {
            let (e1, q1) = fncall_arr_suffix_at(s, q0, e0);
            if q0 <= q1 && q1 <= s.len() {
                match tuple_elems_rule_at(s, q1) {
                    Some((args, q2)) => Some((Expression::FnCall(Box::new(e1), args), q2)),
                    None => Some((e1, q1)),
                }
            } else {
                Some((e1, q1))
            }
        } else {
            Some((e0, q0))
        },
        None => None,
    }
}

fn dotflip_tail_at(s: &Vec<char>, pos: usize, acc: Expression) -> (r: Option<(Expression, usize)>)
    requires
        pos <= s.len(),
    ensures
        expr_res(r, dotflip_tail(s@, pos as int, expr_model(acc)), pos as int, s@.len() as int),
    decreases s@.len() - pos, 5int,
{
    if pos < s.len() && s[pos] == '.' {
        let q = skip_ig_at(s, pos + 1);
        if pos < q && q <= s.len() {
            match fncall_rule_at(s, q) {
                Some((suf, q2)) => if q <= q2 && q2 <= s.len() {
                    match suf {
                        Expression::FnCall(callee, args) => {
                            let ghost accm = expr_model(acc);
                            let ghost argsm = exprs_model(args@);
                            let mut na: Vec<Expression> = Vec::new();
                            na.push(acc);
                            let mut args = args;
                            na.append(&mut args);
                            proof {
                                assert(exprs_model(na@) =~= seq![accm] + argsm);
                            }
                            dotflip_tail_at(s, q2, Expression::FnCall(callee, na))
                        },
                        Expression::Name(b) => {
                            let ghost accm = expr_model(acc);
                            let mut na: Vec<Expression> = Vec::new();
                            na.push(acc);
                            proof {
                                assert(exprs_model(na@) =~= seq![accm]);
                            }
                            dotflip_tail_at(
                                s,
                                q2,
                                Expression::FnCall(Box::new(Expression::Name(b)), na),
                            )
                        },
                        _ => None,
                    }
                } else {
                    None
                },
                None => Some((acc, pos)),
            }
        } else {
            Some((acc, pos))
        }
    } else {
        Some((acc, pos))
    }
}

fn dotflip_rule_at(s: &Vec<char>, pos: usize) -> (r: Option<(Expression, usize)>)
    requires
        pos <= s.len(),
    ensures
        expr_res(r, dotflip_rule(s@, pos as int), pos as int, s@.len() as int),
    decreases s@.len() - pos, 6int,
{
    match fncall_rule_at(s, pos) {
        Some((e, q)) => if pos <= q && q <= s.len() {
            dotflip_tail_at(s, q, e)
        } else {
            Some((e, q))
        },
        None => None,
    }
}

fn binary_tail_at(s: &Vec<char>, pos: usize, acc: Expression) -> (r: Option<(Expression, usize)>)
    requires
        pos <= s.len(),
    ensures
        expr_res(r, binary_tail(s@, pos as int, expr_model(acc)), pos as int, s@.len() as int),
    decreases s@.len() - pos, 7int,
{
    match op_token_at(s, pos) {
        Some((o, q)) => if pos < q && q <= s.len() {
            match dotflip_rule_at(s, q) {
                Some((rhs, q2)) => if q <= q2 && q2 <= s.len() {
                    binary_tail_at(
                        s,
                        q2,
                        Expression::Binary(Binding::Operator(o), Box::new(acc), Box::new(rhs)),
                    )
                } else {
                    Some((acc, pos))
                },
                None => Some((acc, pos)),
            }
        } else {
            Some((acc, pos))
        },
        None => Some((acc, pos)),
    }
}

#[verifier::rlimit(60)]
fn binary_rule_at(s: &Vec<char>, pos: usize) -> (r: Option<(Expression, usize)>)
    requires
        pos <= s.len(),
    ensures
        expr_res(r, binary_rule(s@, pos as int), pos as int, s@.len() as int),
    decreases s@.len() - pos, 8int,
{
    match dotflip_rule_at(s, pos) {
        Some((e, q)) => if pos <= q && q <= s.len() {
            binary_tail_at(s, q, e)
        } else {
            Some((e, q))
        },
        None => None,
    }
}

fn assign_rule_at(s: &Vec<char>, pos: usize) -> (r: Option<(Expression, usize)>)
    requires
        pos <= s.len(),
    ensures
        expr_res(r, assign_rule(s@, pos as int), pos as int, s@.len() as int),
    decreases s@.len() - pos, 9int,
{
    match vcontext_at(s, pos) {
        Some((kw, q0)) => if pos < q0 && q0 <= s.len() {
            match assign_binding_at(s, q0) {
                Some((b, q1)) => if q0 <= q1 && q1 <= s.len() {
                    let q2 = if word2(s, q1, ':', ':') {
                        let qa = skip_ig_at(s, q1 + 2);
                        match full_type_at(s, qa) {
                            Some((ty, qb)) => if qa <= qb && qb <= s.len() {
                                qb
                            } else {
                                q1
                            },
                            None => q1,
                        }
                    } else {
                        q1
                    };
                    if q1 <= q2 && q2 < s.len() && s[q2] == '=' {
                        let q3 = skip_ig_at(s, q2 + 1);
                        let (m, q4) = if word3(s, q3, 'm', 'u', 't') && at_boundary(s, q3 + 3) {
                            (true, skip_ig_at(s, q3 + 3))
                        } else {
                            (false, q3)
                        };
                        if pos < q4 && q4 <= s.len() {
                            match expr_rule_at(s, q4) {
                                Some((v, q5)) => Some(
                                    (Expression::Assignment(kw, b, m, Box::new(v)), q5),
                                ),
                                None => None,
                            }
                        } else {
                            None
                        }
                    } else {
                        None
                    }
                } else {
                    None
                },
                None => None,
            }
        } else {
            None
        },
        None => None,
    }
}

fn ann_skip_at(s: &Vec<char>, pos: usize) -> (r: usize)
    requires
        pos <= s.len(),
    ensures
        r as int == ann_skip(s@, pos as int),
        pos <= r <= s.len(),
    decreases s@.len() - pos, 9int,
{
    if pos < s.len() && s[pos] == '@' {
        match var_token_at(s, pos + 1) {
            Some((t, q)) => if pos < q && q <= s.len() {
                let q2 = skip_ig_at(s, q);
                match tuple_elems_rule_at(s, q2) {
                    Some((args, q3)) => if q2 < q3 && q3 <= s.len() {
                        ann_skip_at(s, q3)
                    } else {
                        q2
                    },
                    None => ann_skip_at(s, q2),
                }
            } else {
                pos
            },
            None => pos,
        }
    } else {
        pos
    }
}

fn expr_rule_at(s: &Vec<char>, pos: usize) -> (r: Option<(Expression, usize)>)
    requires
        pos <= s.len(),
    ensures
        expr_res(r, expr_rule(s@, pos as int), pos as int, s@.len() as int),
    decreases s@.len() - pos, 10int,
{
    let qa = ann_skip_at(s, pos);
    let q = skip_ig_at(s, qa);
    match assign_rule_at(s, q) {
        Some((e, q2)) => Some((e, skip_ig_at(s, q2))),
        None => match binary_rule_at(s, q) {
            Some((e, q2)) => Some((e, skip_ig_at(s, q2))),
            None => None,
        },
    }
}

fn expr_seq_at(s: &Vec<char>, pos: usize, acc: Vec<Expression>) -> (r: (Vec<Expression>, usize))
    requires
        pos <= s.len(),
    ensures
        exprs_model(r.0@) == expr_seq(s@, pos as int, exprs_model(acc@)).0,
        r.1 as int == expr_seq(s@, pos as int, exprs_model(acc@)).1,
        pos <= r.1 <= s.len(),
    decreases s@.len() - pos, 11int,
{
    let mut acc = acc;
    match expr_rule_at(s, pos) {
        Some((e, q)) => if pos < q && q <= s.len() {
            proof {
                crate::ast::lemma_exprs_model_push(acc@, e);
            }
            acc.push(e);
            expr_seq_at(s, q, acc)
        } else {
            (acc, pos)
        },
        None => (acc, pos),
    }
}

fn expr_list_at(s: &Vec<char>, pos: usize, acc: Vec<Expression>) -> (r: Option<
    (Vec<Expression>, usize),
>)
    requires
        pos <= s.len(),
    ensures
        match r {
            Some((v, p)) => expr_list(s@, pos as int, exprs_model(acc@)) == Some(
                (exprs_model(v@), p as int),
            ) && pos <= p <= s.len(),
            None => expr_list(s@, pos as int, exprs_model(acc@)) is None,
        },
    decreases s@.len() - pos, 11int,
{
    let mut acc = acc;
    match expr_rule_at(s, pos) {
        Some((e, q)) => {
            if q < s.len() && s[q] == ',' {
                let q2 = skip_ig_at(s, q + 1);
                if q < q2 && q2 <= s.len() {
                    proof {
                        crate::ast::lemma_exprs_model_push(acc@, e);
                    }
                    acc.push(e);
                    expr_list_at(s, q2, acc)
                } else {
                    None
                }
            } else {
                proof {
                    crate::ast::lemma_exprs_model_push(acc@, e);
                }
                acc.push(e);
                Some((acc, q))
            }
        },
        None => None,
    }
}

fn line_rule_at(s: &Vec<char>, pos: usize) -> (r: Option<(Expression, usize)>)
    requires
        pos <= s.len(),
    ensures
        expr_res(r, line_rule(s@, pos as int), pos as int, s@.len() as int),
    decreases s@.len() - pos, 12int,
{
    match expr_rule_at(s, pos) {
        Some(r) => Some(r),
        None => mod_decl_at(s, pos),
    }
}

fn lines_at(s: &Vec<char>, pos: usize, acc: Vec<Expression>) -> (r: (Vec<Expression>, usize))
    requires
        pos <= s.len(),
    ensures
        exprs_model(r.0@) == lines_acc(s@, pos as int, exprs_model(acc@)).0,
        r.1 as int == lines_acc(s@, pos as int, exprs_model(acc@)).1,
        pos <= r.1 <= s.len(),
    decreases s@.len() - pos, 13int,
{
    let mut acc = acc;
    match line_rule_at(s, pos) {
        Some((e, q)) => if pos < q && q <= s.len() {
            proof {
                crate::ast::lemma_exprs_model_push(acc@, e);
            }
            acc.push(e);
            lines_at(s, q, acc)
        } else {
            (acc, pos)
        },
        None => (acc, pos),
    }
}

/// Parse a whole program: leading ignorables, then top-level lines.
/// The parse succeeds exactly when the start rule consumes the whole
/// input; on failure nothing of a partial tree is handed out.
pub fn parse_program(input: &Vec<char>) -> (r: Option<Vec<Expression>>)
    ensures
        match r {
            Some(es) => program_rule(input@) == Some(exprs_model(es@)),
            None => program_rule(input@) is None,
        },
{
    proof {
        assert(exprs_model(Seq::<Expression>::empty()) =~= Seq::<ExprType>::empty());
    }
    let p0 = skip_ig_at(input, 0);
    let (es, pe) = lines_at(input, p0, Vec::new());
    if pe == input.len() {
        Some(es)
    } else {
        None
    }
}

} // verus!
