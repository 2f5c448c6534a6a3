//! Laws of the grammar, stated over all inputs and proved once.

use vstd::prelude::*;
use crate::grammar::{
    ann_skip, array_elems_rule, assign_binding, assign_rule, atom_rule, binary_rule, binary_tail,
    dotflip_rule, dotflip_tail, expr_list, expr_rule, expr_seq, fncall_arr_step, fncall_rule,
    full_type, ig_once, is_upper, is_var_start, keyword_at, lemma_alnum_end, lemma_ident_end,
    lemma_ig_once, lemma_opsym_end, lemma_skip_ig, line_rule, lines_acc, literal_bucket, mod_decl,
    kw_end_ok, mod_path, mod_spec, name_binding, op_token, program_rule, scope_rule, skip_ig,
    tup_elems,
    tuple_elems_rule, type_token, var_token, vcontext, w2, w3,
};
use crate::model::{BindingType, ExprType};

verus! {

/// A variable token names exactly the characters it consumed, begins
/// with a lowercase letter or underscore, and is never empty.  Every
/// `Variable` binding the tree builder makes takes its name from this
/// token, so the classification holds of every parsed tree.
pub proof fn lemma_variable_classification(s: Seq<char>, pos: int)
    requires
        0 <= pos <= s.len(),
    ensures
        var_token(s, pos) matches Some((name, q)) ==> {
            &&& name.len() > 0
            &&& is_var_start(name[0])
            &&& pos + name.len() == q
            &&& q <= s.len()
            &&& name == s.subrange(pos, q)
        },
{
    if var_token(s, pos) is Some {
        lemma_ident_end(s, pos + 1);
    }
}

/// A type-name token names exactly the characters it consumed, begins
/// with an uppercase letter, and is never empty.  Every `Type` binding
/// takes its name from this token.
pub proof fn lemma_type_classification(s: Seq<char>, pos: int)
    requires
        0 <= pos <= s.len(),
    ensures
        type_token(s, pos) matches Some((name, q)) ==> {
            &&& name.len() > 0
            &&& is_upper(name[0])
            &&& pos + name.len() == q
            &&& q <= s.len()
            &&& name == s.subrange(pos, q)
        },
{
    if type_token(s, pos) is Some {
        lemma_alnum_end(s, pos + 1);
    }
}

/// A name used as a value is classified by its first character:
/// lowercase or underscore gives a `Variable`, uppercase gives a
/// `Type`, and an operator token is never empty.
pub proof fn lemma_name_classification(s: Seq<char>, pos: int)
    requires
        0 <= pos <= s.len(),
    ensures
        name_binding(s, pos) matches Some((b, q)) ==> match b {
            BindingType::Variable(t) => t.len() > 0 && is_var_start(t[0]),
            BindingType::Type(t) => t.len() > 0 && is_upper(t[0]),
            BindingType::Operator(t) => t.len() > 0,
            _ => false,
        },
{
    lemma_variable_classification(s, pos);
    lemma_type_classification(s, pos);
    if var_token(s, pos) is None && type_token(s, pos) is None && op_token(s, pos) is Some {
        lemma_opsym_end(s, pos + 1);
    }
}

/// The classification invariant of bindings: a `Variable` begins
/// lowercase or with an underscore, a `Type` begins uppercase, an
/// `Operator` is never empty, a destructuring group is nonempty and
/// holds classified bindings, and a qualified type name is classified
/// like a `Type`, with classified path segments.
pub open spec fn wf_binding(b: BindingType) -> bool
    decreases b,
{
    match b {
        BindingType::Variable(t) => t.len() > 0 && is_var_start(t[0]),
        BindingType::Type(t) => t.len() > 0 && is_upper(t[0]),
        BindingType::Operator(t) => t.len() > 0,
        BindingType::Tuple(bs) => bs.len() > 0 && forall|i: int|
            0 <= i < bs.len() ==> wf_binding(#[trigger] bs[i]),
        BindingType::FullType(n, segs, isarr) => n.len() > 0 && is_upper(n[0]) && forall|i: int|
            0 <= i < segs.len() ==> wf_binding(#[trigger] segs[i]),
    }
}

/// Appending a classified binding keeps every element classified.
proof fn lemma_wf_push(acc: Seq<BindingType>, b: BindingType)
    requires
        forall|i: int| 0 <= i < acc.len() ==> wf_binding(#[trigger] acc[i]),
        wf_binding(b),
    ensures
        forall|i: int| 0 <= i < acc.push(b).len() ==> wf_binding(#[trigger] acc.push(b)[i]),
{
    assert forall|i: int| 0 <= i < acc.push(b).len() implies wf_binding(#[trigger] acc.push(b)[i]) by {
        if i < acc.len() {
            assert(acc.push(b)[i] == acc[i]);
        } else {
            assert(acc.push(b)[i] == b);
        }
    }
}

/// The segments a module-path prefix adds to `acc` are classified.
pub proof fn lemma_mod_spec_wf(s: Seq<char>, pos: int, acc: Seq<BindingType>)
    requires
        0 <= pos <= s.len(),
        forall|i: int| 0 <= i < acc.len() ==> wf_binding(#[trigger] acc[i]),
    ensures
        forall|i: int|
            0 <= i < mod_spec(s, pos, acc).0.len() ==> wf_binding(
                #[trigger] mod_spec(s, pos, acc).0[i],
            ),
    decreases s.len() - pos,
{
    lemma_variable_classification(s, pos);
    lemma_type_classification(s, pos);
    let (segs, fin) = mod_spec(s, pos, acc);
    match var_token(s, pos) {
        Some((t, q)) => {
            if pos <= q && q < s.len() && s[q] == ':' {
                lemma_wf_push(acc, BindingType::Variable(t));
                lemma_mod_spec_wf(s, q + 1, acc.push(BindingType::Variable(t)));
                assert forall|i: int| 0 <= i < segs.len() implies wf_binding(
                    #[trigger] segs[i],
                ) by {
                    assert(segs[i] == mod_spec(s, q + 1, acc.push(BindingType::Variable(t))).0[i]);
                }
            } else {
                assert forall|i: int| 0 <= i < segs.len() implies wf_binding(
                    #[trigger] segs[i],
                ) by {
                    assert(segs[i] == acc[i]);
                }
            }
        },
        None => match type_token(s, pos) {
            Some((t, q)) => {
                if pos <= q && q < s.len() && s[q] == ':' {
                    lemma_wf_push(acc, BindingType::Type(t));
                    lemma_mod_spec_wf(s, q + 1, acc.push(BindingType::Type(t)));
                    assert forall|i: int| 0 <= i < segs.len() implies wf_binding(
                        #[trigger] segs[i],
                    ) by {
                        assert(segs[i] == mod_spec(s, q + 1, acc.push(BindingType::Type(t))).0[i]);
                    }
                } else {
                    assert forall|i: int| 0 <= i < segs.len() implies wf_binding(
                        #[trigger] segs[i],
                    ) by {
                        assert(segs[i] == acc[i]);
                    }
                }
            },
            None => {
                assert forall|i: int| 0 <= i < segs.len() implies wf_binding(
                    #[trigger] segs[i],
                ) by {
                    assert(segs[i] == acc[i]);
                }
            },
        },
    }
}

/// A qualified type name is a classified binding.
pub proof fn lemma_full_type_wf(s: Seq<char>, pos: int)
    requires
        0 <= pos <= s.len(),
    ensures
        full_type(s, pos) matches Some((b, q)) ==> wf_binding(b),
{
    lemma_mod_spec_wf(s, pos, Seq::empty());
    let (segs, q) = mod_spec(s, pos, Seq::empty());
    lemma_mod_spec_bounds(s, pos, Seq::empty());
    lemma_type_classification(s, q);
}

/// The position a module-path prefix stops at stays inside the input.
pub proof fn lemma_mod_spec_bounds(s: Seq<char>, pos: int, acc: Seq<BindingType>)
    requires
        0 <= pos <= s.len(),
    ensures
        pos <= mod_spec(s, pos, acc).1 <= s.len(),
    decreases s.len() - pos,
{
    match var_token(s, pos) {
        Some((t, q)) => {
            if pos <= q && q < s.len() && s[q] == ':' {
                lemma_mod_spec_bounds(s, q + 1, acc.push(BindingType::Variable(t)));
            }
        },
        None => match type_token(s, pos) {
            Some((t, q)) => {
                if pos <= q && q < s.len() && s[q] == ':' {
                    lemma_mod_spec_bounds(s, q + 1, acc.push(BindingType::Type(t)));
                }
            },
            None => {},
        },
    }
}

/// The variables a destructuring group adds to `acc` are classified,
/// and the group never comes out empty.
pub proof fn lemma_tup_elems_wf(s: Seq<char>, pos: int, acc: Seq<BindingType>)
    requires
        0 <= pos <= s.len(),
        forall|i: int| 0 <= i < acc.len() ==> wf_binding(#[trigger] acc[i]),
    ensures
        tup_elems(s, pos, acc) matches Some((v, q)) ==> v.len() > acc.len() && forall|i: int|
            0 <= i < v.len() ==> wf_binding(#[trigger] v[i]),
    decreases s.len() - pos,
{
    lemma_variable_classification(s, pos);
    match var_token(s, pos) {
        Some((t, q)) => {
            if pos <= q && q <= s.len() {
                let q2 = skip_ig(s, q);
                lemma_skip_ig(s, q);
                if q2 < s.len() && s[q2] == ',' {
                    let q3 = skip_ig(s, q2 + 1);
                    lemma_skip_ig(s, q2 + 1);
                    if pos < q3 && q3 <= s.len() {
                        lemma_wf_push(acc, BindingType::Variable(t));
                        lemma_tup_elems_wf(s, q3, acc.push(BindingType::Variable(t)));
                    }
                }
            }
        },
        None => {},
    }
}

/// The binding position of an assignment only ever holds a classified
/// binding: a nonempty destructuring group of classified variables, a
/// classified variable, type name or operator.
pub proof fn lemma_assign_binding_wf(s: Seq<char>, pos: int)
    requires
        0 <= pos <= s.len(),
    ensures
        assign_binding(s, pos) matches Some((b, q)) ==> wf_binding(b),
{
    if 0 <= pos && pos < s.len() && s[pos] == '(' {
        lemma_skip_ig(s, pos + 1);
        lemma_tup_elems_wf(s, skip_ig(s, pos + 1), Seq::empty());
    }
    lemma_name_classification(s, pos);
    lemma_variable_classification(s, pos);
    lemma_type_classification(s, pos);
    if var_token(s, pos) is None && type_token(s, pos) is None && op_token(s, pos) is Some {
        lemma_opsym_end(s, pos + 1);
    }
}

/// The segments a module-path tail adds to `acc` are classified.
pub proof fn lemma_mod_path_wf(s: Seq<char>, pos: int, acc: Seq<BindingType>)
    requires
        0 <= pos <= s.len(),
        forall|i: int| 0 <= i < acc.len() ==> wf_binding(#[trigger] acc[i]),
    ensures
        forall|i: int|
            0 <= i < mod_path(s, pos, acc).0.len() ==> wf_binding(
                #[trigger] mod_path(s, pos, acc).0[i],
            ),
    decreases s.len() - pos,
{
    let (segs, fin) = mod_path(s, pos, acc);
    if 0 <= pos && pos < s.len() && s[pos] == ':' {
        lemma_variable_classification(s, pos + 1);
        match var_token(s, pos + 1) {
            Some((t, q)) => {
                if pos < q && q <= s.len() {
                    lemma_wf_push(acc, BindingType::Variable(t));
                    lemma_mod_path_wf(s, q, acc.push(BindingType::Variable(t)));
                    assert forall|i: int| 0 <= i < segs.len() implies wf_binding(
                        #[trigger] segs[i],
                    ) by {
                        assert(segs[i] == mod_path(s, q, acc.push(BindingType::Variable(t))).0[i]);
                    }
                } else {
                    assert forall|i: int| 0 <= i < segs.len() implies wf_binding(
                        #[trigger] segs[i],
                    ) by {
                        assert(segs[i] == acc[i]);
                    }
                }
            },
            None => {
                assert forall|i: int| 0 <= i < segs.len() implies wf_binding(
                    #[trigger] segs[i],
                ) by {
                    assert(segs[i] == acc[i]);
                }
            },
        }
    } else {
        assert forall|i: int| 0 <= i < segs.len() implies wf_binding(#[trigger] segs[i]) by {
            assert(segs[i] == acc[i]);
        }
    }
}

/// Every segment of a parsed module declaration is a classified
/// variable binding.
pub proof fn lemma_mod_decl_wf(s: Seq<char>, pos: int)
    requires
        0 <= pos <= s.len(),
    ensures
        mod_decl(s, pos) matches Some((e, q)) ==> match e {
            ExprType::ModDecl(segs) => forall|i: int|
                0 <= i < segs.len() ==> wf_binding(#[trigger] segs[i]),
            _ => false,
        },
{
    if w3(s, pos, 'm', 'o', 'd') && kw_end_ok(s, pos + 3) {
        let q = skip_ig(s, pos + 3);
        lemma_skip_ig(s, pos + 3);
        lemma_variable_classification(s, q);
        match var_token(s, q) {
            Some((t, q1)) => {
                if q <= q1 && q1 <= s.len() {
                    lemma_mod_path_wf(s, q1, seq![BindingType::Variable(t)]);
                }
            },
            None => {},
        }
    }
}

/// An operator token is never empty.
pub proof fn lemma_op_token_wf(s: Seq<char>, pos: int)
    requires
        0 <= pos <= s.len(),
    ensures
        op_token(s, pos) matches Some((t, q)) ==> t.len() > 0,
{
    if op_token(s, pos) is Some {
        lemma_opsym_end(s, pos + 1);
    }
}

/// The classification invariant, carried through a whole tree: every
/// binding a node owns, at any depth, is classified.
pub open spec fn wf_expr(e: ExprType) -> bool
    decreases e,
{
    match e {
        ExprType::Literal(l) => true,
        ExprType::Name(b) => wf_binding(b),
        ExprType::Assignment(k, b, m, v) => wf_binding(b) && wf_expr(*v),
        ExprType::Scope(es) => forall|i: int| 0 <= i < es.len() ==> wf_expr(#[trigger] es[i]),
        ExprType::Tuple(es) => forall|i: int| 0 <= i < es.len() ==> wf_expr(#[trigger] es[i]),
        ExprType::Array(es) => forall|i: int| 0 <= i < es.len() ==> wf_expr(#[trigger] es[i]),
        ExprType::Binary(op, l, r) => wf_binding(op) && wf_expr(*l) && wf_expr(*r),
        ExprType::FnCall(f, args) => wf_expr(*f) && forall|i: int|
            0 <= i < args.len() ==> wf_expr(#[trigger] args[i]),
        ExprType::ModDecl(bs) => forall|i: int| 0 <= i < bs.len() ==> wf_binding(#[trigger] bs[i]),
    }
}

/// Appending a classified tree keeps every element classified.
proof fn lemma_wfe_push(acc: Seq<ExprType>, e: ExprType)
    requires
        forall|i: int| 0 <= i < acc.len() ==> wf_expr(#[trigger] acc[i]),
        wf_expr(e),
    ensures
        forall|i: int| 0 <= i < acc.push(e).len() ==> wf_expr(#[trigger] acc.push(e)[i]),
{
    assert forall|i: int| 0 <= i < acc.push(e).len() implies wf_expr(#[trigger] acc.push(e)[i]) by {
        if i < acc.len() {
            assert(acc.push(e)[i] == acc[i]);
        } else {
            assert(acc.push(e)[i] == e);
        }
    }
}

proof fn lemma_wf_tuple_elems_rule(s: Seq<char>, pos: int)
    requires
        0 <= pos <= s.len(),
    ensures
        tuple_elems_rule(s, pos) matches Some((es, q)) ==> forall|i: int|
            0 <= i < es.len() ==> wf_expr(#[trigger] es[i]),
    decreases s.len() - pos, 0int,
{
    if 0 <= pos && pos < s.len() && s[pos] == '(' {
        let q = skip_ig(s, pos + 1);
        if pos < q && q <= s.len() {
            if !(q < s.len() && s[q] == ')') {
                lemma_wf_expr_list(s, q, Seq::empty());
            }
        }
    }
}

proof fn lemma_wf_array_elems_rule(s: Seq<char>, pos: int)
    requires
        0 <= pos <= s.len(),
    ensures
        array_elems_rule(s, pos) matches Some((es, q)) ==> forall|i: int|
            0 <= i < es.len() ==> wf_expr(#[trigger] es[i]),
    decreases s.len() - pos, 0int,
{
    if 0 <= pos && pos < s.len() && s[pos] == '[' {
        let q = skip_ig(s, pos + 1);
        if pos < q && q <= s.len() {
            if !(q < s.len() && s[q] == ']') {
                lemma_wf_expr_list(s, q, Seq::empty());
            }
        }
    }
}

#[verifier::rlimit(60)]
proof fn lemma_wf_scope_rule(s: Seq<char>, pos: int)
    requires
        0 <= pos <= s.len(),
    ensures
        scope_rule(s, pos) matches Some((e, q)) ==> wf_expr(e),
    decreases s.len() - pos, 1int,
{
    if 0 <= pos && pos < s.len() && s[pos] == '{' {
        let q = skip_ig(s, pos + 1);
        if pos < q && q <= s.len() {
            lemma_wf_expr_seq(s, q, Seq::empty());
            let (es, q2) = expr_seq(s, q, Seq::empty());
            assert forall|i: int| 0 <= i < es.len() implies wf_expr(#[trigger] es[i]) by {
                assert(es[i] == expr_seq(s, q, Seq::<ExprType>::empty()).0[i]);
            }
            assert(wf_expr(ExprType::Scope(es)));
        }
    }
}

#[verifier::rlimit(60)]
proof fn lemma_wf_literal_bucket(s: Seq<char>, pos: int)
    requires
        0 <= pos <= s.len(),
    ensures
        literal_bucket(s, pos) matches Some((e, q)) ==> wf_expr(e),
    decreases s.len() - pos, 2int,
{
    lemma_wf_tuple_elems_rule(s, pos);
    lemma_wf_array_elems_rule(s, pos);
    lemma_name_classification(s, pos);
}

#[verifier::rlimit(60)]
proof fn lemma_wf_atom_rule(s: Seq<char>, pos: int)
    requires
        0 <= pos <= s.len(),
    ensures
        atom_rule(s, pos) matches Some((e, q)) ==> wf_expr(e),
    decreases s.len() - pos, 3int,
{
    lemma_wf_scope_rule(s, pos);
    lemma_wf_literal_bucket(s, pos);
}

#[verifier::rlimit(60)]
proof fn lemma_wf_fncall_rule(s: Seq<char>, pos: int)
    requires
        0 <= pos <= s.len(),
    ensures
        fncall_rule(s, pos) matches Some((e, q)) ==> wf_expr(e),
    decreases s.len() - pos, 4int,
{
    lemma_wf_atom_rule(s, pos);
    match atom_rule(s, pos) {
        Some((e0, q0)) => {
            if pos <= q0 && q0 <= s.len() {
                lemma_wf_array_elems_rule(s, q0);
                let (e1, q1) = fncall_arr_step(s, q0, e0);
                assert(wf_expr(e1)) by {
                    match array_elems_rule(s, q0) {
                        Some((elems, qa)) => {
                            if q0 <= qa && qa <= s.len() {
                                assert(wf_expr(ExprType::Array(elems)));
                                assert forall|i: int|
                                    0 <= i < seq![ExprType::Array(elems)].len() implies wf_expr(
                                    #[trigger] seq![ExprType::Array(elems)][i],
                                ) by {
                                    assert(seq![ExprType::Array(elems)][i] == ExprType::Array(
                                        elems,
                                    ));
                                }
                            }
                        },
                        None => {},
                    }
                }
                if q0 <= q1 && q1 <= s.len() {
                    lemma_wf_tuple_elems_rule(s, q1);
                }
            }
        },
        None => {},
    }
}

#[verifier::rlimit(60)]
proof fn lemma_wf_dotflip_tail(s: Seq<char>, pos: int, acc: ExprType)
    requires
        0 <= pos <= s.len(),
        wf_expr(acc),
    ensures
        dotflip_tail(s, pos, acc) matches Some((e, q)) ==> wf_expr(e),
    decreases s.len() - pos, 5int,
{
    if 0 <= pos && pos < s.len() && s[pos] == '.' {
        let q = skip_ig(s, pos + 1);
        if pos < q && q <= s.len() {
            lemma_wf_fncall_rule(s, q);
            match fncall_rule(s, q) {
                Some((suf, q2)) => {
                    if q <= q2 && q2 <= s.len() {
                        match suf {
                            ExprType::FnCall(callee, args) => {
                                let na = seq![acc] + args;
                                assert forall|i: int| 0 <= i < na.len() implies wf_expr(
                                    #[trigger] na[i],
                                ) by {
                                    if i == 0 {
                                        assert(na[i] == acc);
                                    } else {
                                        assert(na[i] == args[i - 1]);
                                    }
                                }
                                lemma_wf_dotflip_tail(s, q2, ExprType::FnCall(callee, na));
                            },
                            ExprType::Name(b) => {
                                let na = seq![acc];
                                assert forall|i: int| 0 <= i < na.len() implies wf_expr(
                                    #[trigger] na[i],
                                ) by {
                                    assert(na[i] == acc);
                                }
                                lemma_wf_dotflip_tail(
                                    s,
                                    q2,
                                    ExprType::FnCall(Box::new(ExprType::Name(b)), na),
                                );
                            },
                            _ => {},
                        }
                    }
                },
                None => {},
            }
        }
    }
}

#[verifier::rlimit(60)]
proof fn lemma_wf_dotflip_rule(s: Seq<char>, pos: int)
    requires
        0 <= pos <= s.len(),
    ensures
        dotflip_rule(s, pos) matches Some((e, q)) ==> wf_expr(e),
    decreases s.len() - pos, 6int,
{
    lemma_wf_fncall_rule(s, pos);
    match fncall_rule(s, pos) {
        Some((e, q)) => {
            if pos <= q && q <= s.len() {
                lemma_wf_dotflip_tail(s, q, e);
            }
        },
        None => {},
    }
}

#[verifier::rlimit(60)]
proof fn lemma_wf_binary_tail(s: Seq<char>, pos: int, acc: ExprType)
    requires
        0 <= pos <= s.len(),
        wf_expr(acc),
    ensures
        binary_tail(s, pos, acc) matches Some((e, q)) ==> wf_expr(e),
    decreases s.len() - pos, 7int,
{
    lemma_op_token_wf(s, pos);
    match op_token(s, pos) {
        Some((o, q)) => {
            if pos < q && q <= s.len() {
                lemma_wf_dotflip_rule(s, q);
                match dotflip_rule(s, q) {
                    Some((rhs, q2)) => {
                        if q <= q2 && q2 <= s.len() {
                            lemma_wf_binary_tail(
                                s,
                                q2,
                                ExprType::Binary(
                                    BindingType::Operator(o),
                                    Box::new(acc),
                                    Box::new(rhs),
                                ),
                            );
                        }
                    },
                    None => {},
                }
            }
        },
        None => {},
    }
}

#[verifier::rlimit(60)]
proof fn lemma_wf_binary_rule(s: Seq<char>, pos: int)
    requires
        0 <= pos <= s.len(),
    ensures
        binary_rule(s, pos) matches Some((e, q)) ==> wf_expr(e),
    decreases s.len() - pos, 8int,
{
    lemma_wf_dotflip_rule(s, pos);
    match dotflip_rule(s, pos) {
        Some((e, q)) => {
            if pos <= q && q <= s.len() {
                lemma_wf_binary_tail(s, q, e);
            }
        },
        None => {},
    }
}

#[verifier::rlimit(60)]
proof fn lemma_wf_assign_rule(s: Seq<char>, pos: int)
    requires
        0 <= pos <= s.len(),
    ensures
        assign_rule(s, pos) matches Some((e, q)) ==> wf_expr(e),
    decreases s.len() - pos, 9int,
{
    match vcontext(s, pos) {
        Some((kw, q0)) => {
            if pos < q0 && q0 <= s.len() {
                lemma_assign_binding_wf(s, q0);
                match assign_binding(s, q0) {
                    Some((b, q1)) => {
                        if q0 <= q1 && q1 <= s.len() {
                            let q2 = if w2(s, q1, ':', ':') {
                                let qa = skip_ig(s, q1 + 2);
                                match full_type(s, qa) {
                                    Some((ty, qb)) => if qa <= qb && qb <= s.len() {
                                        qb
                                    } else {
                                        q1
                                    },
                                    None => q1,
                                }
                            } else {
                                q1
                            };
                            if q1 <= q2 && q2 < s.len() && s[q2] == '=' {
                                let q3 = skip_ig(s, q2 + 1);
                                let (m, q4) = if w3(s, q3, 'm', 'u', 't') && kw_end_ok(
                                    s,
                                    q3 + 3,
                                ) {
                                    (true, skip_ig(s, q3 + 3))
                                } else {
                                    (false, q3)
                                };
                                if pos < q4 && q4 <= s.len() {
                                    lemma_wf_expr_rule(s, q4);
                                }
                            }
                        }
                    },
                    None => {},
                }
            }
        },
        None => {},
    }
}

#[verifier::rlimit(60)]
proof fn lemma_wf_expr_rule(s: Seq<char>, pos: int)
    requires
        0 <= pos <= s.len(),
    ensures
        expr_rule(s, pos) matches Some((e, q)) ==> wf_expr(e),
    decreases s.len() - pos, 10int,
{
    let qa = ann_skip(s, pos);
    if pos <= qa && qa <= s.len() {
        let q = skip_ig(s, qa);
        if pos <= q && q <= s.len() {
            lemma_wf_assign_rule(s, q);
            lemma_wf_binary_rule(s, q);
        }
    }
}

proof fn lemma_wf_expr_seq(s: Seq<char>, pos: int, acc: Seq<ExprType>)
    requires
        0 <= pos <= s.len(),
        forall|i: int| 0 <= i < acc.len() ==> wf_expr(#[trigger] acc[i]),
    ensures
        forall|i: int|
            0 <= i < expr_seq(s, pos, acc).0.len() ==> wf_expr(#[trigger] expr_seq(s, pos, acc).0[i]),
    decreases s.len() - pos, 11int,
{
    lemma_wf_expr_rule(s, pos);
    let (es, fin) = expr_seq(s, pos, acc);
    match expr_rule(s, pos) {
        Some((e, q)) => {
            if pos < q && q <= s.len() {
                lemma_wfe_push(acc, e);
                lemma_wf_expr_seq(s, q, acc.push(e));
                assert forall|i: int| 0 <= i < es.len() implies wf_expr(#[trigger] es[i]) by {
                    assert(es[i] == expr_seq(s, q, acc.push(e)).0[i]);
                }
            } else {
                assert forall|i: int| 0 <= i < es.len() implies wf_expr(#[trigger] es[i]) by {
                    assert(es[i] == acc[i]);
                }
            }
        },
        None => {
            assert forall|i: int| 0 <= i < es.len() implies wf_expr(#[trigger] es[i]) by {
                assert(es[i] == acc[i]);
            }
        },
    }
}

proof fn lemma_wf_expr_list(s: Seq<char>, pos: int, acc: Seq<ExprType>)
    requires
        0 <= pos <= s.len(),
        forall|i: int| 0 <= i < acc.len() ==> wf_expr(#[trigger] acc[i]),
    ensures
        expr_list(s, pos, acc) matches Some((es, q)) ==> forall|i: int|
            0 <= i < es.len() ==> wf_expr(#[trigger] es[i]),
    decreases s.len() - pos, 11int,
{
    lemma_wf_expr_rule(s, pos);
    match expr_rule(s, pos) {
        Some((e, q)) => {
            if pos <= q && q <= s.len() {
                lemma_wfe_push(acc, e);
                if q < s.len() && s[q] == ',' {
                    let q2 = skip_ig(s, q + 1);
                    if q < q2 && q2 <= s.len() {
                        lemma_wf_expr_list(s, q2, acc.push(e));
                    }
                }
            }
        },
        None => {},
    }
}

#[verifier::rlimit(60)]
proof fn lemma_wf_line_rule(s: Seq<char>, pos: int)
    requires
        0 <= pos <= s.len(),
    ensures
        line_rule(s, pos) matches Some((e, q)) ==> wf_expr(e),
    decreases s.len() - pos, 12int,
{
    lemma_wf_expr_rule(s, pos);
    lemma_mod_decl_wf(s, pos);
}

proof fn lemma_wf_lines_acc(s: Seq<char>, pos: int, acc: Seq<ExprType>)
    requires
        0 <= pos <= s.len(),
        forall|i: int| 0 <= i < acc.len() ==> wf_expr(#[trigger] acc[i]),
    ensures
        forall|i: int|
            0 <= i < lines_acc(s, pos, acc).0.len() ==> wf_expr(
                #[trigger] lines_acc(s, pos, acc).0[i],
            ),
    decreases s.len() - pos, 13int,
{
    lemma_wf_line_rule(s, pos);
    let (es, fin) = lines_acc(s, pos, acc);
    match line_rule(s, pos) {
        Some((e, q)) => {
            if pos < q && q <= s.len() {
                lemma_wfe_push(acc, e);
                lemma_wf_lines_acc(s, q, acc.push(e));
                assert forall|i: int| 0 <= i < es.len() implies wf_expr(#[trigger] es[i]) by {
                    assert(es[i] == lines_acc(s, q, acc.push(e)).0[i]);
                }
            } else {
                assert forall|i: int| 0 <= i < es.len() implies wf_expr(#[trigger] es[i]) by {
                    assert(es[i] == acc[i]);
                }
            }
        },
        None => {
            assert forall|i: int| 0 <= i < es.len() implies wf_expr(#[trigger] es[i]) by {
                assert(es[i] == acc[i]);
            }
        },
    }
}

/// Identifier classification, for whole programs: in every tree a
/// successful parse returns, every `Variable` binding begins with a
/// lowercase letter or an underscore, every `Type` binding begins
/// with an uppercase letter, and no binding is empty — at any depth.
pub proof fn lemma_program_classification(s: Seq<char>)
    ensures
        program_rule(s) matches Some(es) ==> forall|i: int|
            0 <= i < es.len() ==> wf_expr(#[trigger] es[i]),
{
    lemma_skip_ig(s, 0);
    let p0 = skip_ig(s, 0);
    if 0 <= p0 && p0 <= s.len() {
        lemma_wf_lines_acc(s, p0, Seq::empty());
    }
}

/// Whether `s` is one of the reserved words of the language.
pub open spec fn is_reserved_word(s: Seq<char>) -> bool {
    ||| s == seq!['l', 'e', 't']
    ||| s == seq!['d', 'e', 'f']
    ||| s == seq!['s', 't', 'a', 't', 'i', 'c']
    ||| s == seq!['m', 'u', 't']
    ||| s == seq!['m', 'o', 'd']
    ||| s == seq!['m', 'a', 't', 'c', 'h']
    ||| s == seq!['i', 'f']
    ||| s == seq!['e', 'l', 's', 'i', 'f']
    ||| s == seq!['e', 'l', 's', 'e']
    ||| s == seq!['u', 's', 'e']
    ||| s == seq!['t', 'r', 'u', 'e']
    ||| s == seq!['f', 'a', 'l', 's', 'e']
}

/// No reserved word is consumed as a bare identifier: on an input
/// equal to a reserved word the variable token fails outright.
pub proof fn lemma_keyword_excluded(s: Seq<char>)
    requires
        is_reserved_word(s),
    ensures
        var_token(s, 0) is None,
{
    assert(keyword_at(s, 0));
}

/// Skipping ignorable text is idempotent: after the skip there is no
/// further ignorable text to consume, so comments and whitespace runs
/// are elided once and for all at each token boundary.
pub proof fn lemma_skip_ig_idempotent(s: Seq<char>, pos: int)
    requires
        0 <= pos <= s.len(),
    ensures
        skip_ig(s, skip_ig(s, pos)) == skip_ig(s, pos),
    decreases s.len() - pos,
{
    lemma_ig_once(s, pos);
    match ig_once(s, pos) {
        Some(q) => {
            if pos < q && q <= s.len() {
                lemma_skip_ig_idempotent(s, q);
            }
        },
        None => {},
    }
}

/// One more ignorable item in front of a token is absorbed whole:
/// skipping from before it and skipping from after it land at one and
/// the same position, so a comment or whitespace run inserted where
/// ignorable text is already elided never changes where the next
/// token is read.
pub proof fn lemma_skip_ig_absorbs(s: Seq<char>, pos: int)
    requires
        0 <= pos <= s.len(),
    ensures
        ig_once(s, pos) matches Some(q) ==> skip_ig(s, pos) == skip_ig(s, q),
{
    lemma_ig_once(s, pos);
}

/// A parse that leaves input behind is no parse: whenever the line
/// rules stop short of the end, the program rule reports failure and
/// hands out no partial tree.
pub proof fn lemma_full_input_required(s: Seq<char>)
    ensures
        ({
            let p0 = skip_ig(s, 0);
            lines_acc(s, p0, Seq::empty()).1 != s.len() ==> program_rule(s) is None
        }),
{
    lemma_skip_ig(s, 0);
}

} // verus!
