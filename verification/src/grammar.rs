//! The grammar, stated once as specification functions over `Seq<char>`.
//!
//! Rules follow the ordered-choice, backtracking discipline: a rule
//! either matches a prefix of the input starting at `pos` and yields a
//! value together with the position after the match (and after any
//! trailing ignorable text the rule consumes), or it fails, and the
//! caller resumes at the position it held before the attempt.
//!
//! Reserved words match only up to a token boundary: the character
//! after the word, if any, must not continue an identifier, so `used`
//! or `letx` stays one identifier.  Separation between tokens is the
//! business of the ignorable layer (`skip_ig`), which rules
//! interleave between their parts.  Whitespace runs, `# ... \n` line
//! comments and `## ... ##` block comments are discarded and never
//! appear in the tree.
//!
//! The expression layer covers what the tree can hold: literals,
//! names, groupings, scopes, applications and member-call chains,
//! operator chains, assignments and module declarations.  The words
//! `if`, `elsif`, `else`, `match` and `use` are reserved so that no
//! identifier can shadow them, but the tree has no node for those
//! forms, so no rule consumes them and input that uses them is
//! reported unmatched.
//!
//! The executable parser in [`crate::parser`] returns exactly what
//! these functions describe; the functions here are the contract.

use vstd::prelude::*;
use crate::ast::Keyword;
use crate::model::{BindingType, ExprType, LiteralType};

verus! {

// ---------------------------------------------------------------------------
// Character classes
// ---------------------------------------------------------------------------

pub open spec fn is_space(c: char) -> bool {
    c == ' ' || c == '\n' || c == '\r' || c == '\t'
}

pub open spec fn is_digit(c: char) -> bool {
    48 <= c as u32 && c as u32 <= 57
}

pub open spec fn is_lower(c: char) -> bool {
    97 <= c as u32 && c as u32 <= 122
}

pub open spec fn is_upper(c: char) -> bool {
    65 <= c as u32 && c as u32 <= 90
}

/// First character of a `variable` token: lowercase or underscore.
pub open spec fn is_var_start(c: char) -> bool {
    is_lower(c) || c == '_'
}

/// Continuation character of a `variable` token.
pub open spec fn is_ident_char(c: char) -> bool {
    is_digit(c) || is_lower(c) || is_upper(c) || c == '_'
}

/// Continuation character of a `type-name` token (no underscore).
pub open spec fn is_alnum(c: char) -> bool {
    is_digit(c) || is_lower(c) || is_upper(c)
}

pub open spec fn is_hex_digit(c: char) -> bool {
    is_digit(c) || (97 <= c as u32 && c as u32 <= 102) || (65 <= c as u32 && c as u32 <= 70)
}

pub open spec fn is_bin_digit(c: char) -> bool {
    c == '0' || c == '1'
}

/// Symbol characters an `operator` token is made of.
pub open spec fn is_op_symbol(c: char) -> bool {
    c == '!' || c == '@' || c == '#' || c == '$' || c == '%' || c == '^' || c == '&' || c == '*'
        || c == '?' || c == '<' || c == '>' || c == '|' || c == '`' || c == '/' || c == '\\'
        || c == '-' || c == '=' || c == '+'
}

/// Optional lead character of an `operator` token.
pub open spec fn is_op_lead(c: char) -> bool {
    c == '&' || c == '=' || c == ':'
}

// ---------------------------------------------------------------------------
// Fixed words
// ---------------------------------------------------------------------------

pub open spec fn w2(s: Seq<char>, pos: int, a: char, b: char) -> bool {
    0 <= pos && pos + 2 <= s.len() && s[pos] == a && s[pos + 1] == b
}

pub open spec fn w3(s: Seq<char>, pos: int, a: char, b: char, c: char) -> bool {
    0 <= pos && pos + 3 <= s.len() && s[pos] == a && s[pos + 1] == b && s[pos + 2] == c
}

pub open spec fn w4(s: Seq<char>, pos: int, a: char, b: char, c: char, d: char) -> bool {
    0 <= pos && pos + 4 <= s.len() && s[pos] == a && s[pos + 1] == b && s[pos + 2] == c
        && s[pos + 3] == d
}

pub open spec fn w5(s: Seq<char>, pos: int, a: char, b: char, c: char, d: char, e: char) -> bool {
    0 <= pos && pos + 5 <= s.len() && s[pos] == a && s[pos + 1] == b && s[pos + 2] == c
        && s[pos + 3] == d && s[pos + 4] == e
}

pub open spec fn w6(
    s: Seq<char>,
    pos: int,
    a: char,
    b: char,
    c: char,
    d: char,
    e: char,
    f: char,
) -> bool {
    0 <= pos && pos + 6 <= s.len() && s[pos] == a && s[pos + 1] == b && s[pos + 2] == c
        && s[pos + 3] == d && s[pos + 4] == e && s[pos + 5] == f
}

/// A reserved word ends at `q`: the next character, if any, cannot
/// continue an identifier.  Without this boundary a word like `letx`
/// would be torn apart instead of lexed as one identifier.
pub open spec fn kw_end_ok(s: Seq<char>, q: int) -> bool {
    q >= s.len() || !is_ident_char(s[q])
}

/// One of the reserved words appears at `pos`, ending at a token
/// boundary.  The `variable` rule refuses to start wherever this
/// holds, so no reserved word is ever captured as an identifier —
/// while identifiers that merely begin with one, such as `used`,
/// stay whole.
pub open spec fn keyword_at(s: Seq<char>, pos: int) -> bool {
    ||| w3(s, pos, 'l', 'e', 't') && kw_end_ok(s, pos + 3)
    ||| w3(s, pos, 'd', 'e', 'f') && kw_end_ok(s, pos + 3)
    ||| w6(s, pos, 's', 't', 'a', 't', 'i', 'c') && kw_end_ok(s, pos + 6)
    ||| w3(s, pos, 'm', 'u', 't') && kw_end_ok(s, pos + 3)
    ||| w3(s, pos, 'm', 'o', 'd') && kw_end_ok(s, pos + 3)
    ||| w5(s, pos, 'm', 'a', 't', 'c', 'h') && kw_end_ok(s, pos + 5)
    ||| w2(s, pos, 'i', 'f') && kw_end_ok(s, pos + 2)
    ||| w5(s, pos, 'e', 'l', 's', 'i', 'f') && kw_end_ok(s, pos + 5)
    ||| w4(s, pos, 'e', 'l', 's', 'e') && kw_end_ok(s, pos + 4)
    ||| w3(s, pos, 'u', 's', 'e') && kw_end_ok(s, pos + 3)
    ||| w4(s, pos, 't', 'r', 'u', 'e') && kw_end_ok(s, pos + 4)
    ||| w5(s, pos, 'f', 'a', 'l', 's', 'e') && kw_end_ok(s, pos + 5)
}

// ---------------------------------------------------------------------------
// Character runs
// ---------------------------------------------------------------------------

/// End of the whitespace run starting at `pos`.
pub open spec fn space_end(s: Seq<char>, pos: int) -> int
    decreases s.len() - pos,
{
    if 0 <= pos && pos < s.len() && is_space(s[pos]) {
        space_end(s, pos + 1)
    } else {
        pos
    }
}

/// End of the identifier-character run starting at `pos`.
pub open spec fn ident_end(s: Seq<char>, pos: int) -> int
    decreases s.len() - pos,
{
    if 0 <= pos && pos < s.len() && is_ident_char(s[pos]) {
        ident_end(s, pos + 1)
    } else {
        pos
    }
}

/// End of the alphanumeric run starting at `pos`.
pub open spec fn alnum_end(s: Seq<char>, pos: int) -> int
    decreases s.len() - pos,
{
    if 0 <= pos && pos < s.len() && is_alnum(s[pos]) {
        alnum_end(s, pos + 1)
    } else {
        pos
    }
}

/// End of the decimal-digit run starting at `pos`.
pub open spec fn digit_end(s: Seq<char>, pos: int) -> int
    decreases s.len() - pos,
{
    if 0 <= pos && pos < s.len() && is_digit(s[pos]) {
        digit_end(s, pos + 1)
    } else {
        pos
    }
}

/// End of the hex-digit run starting at `pos`.
pub open spec fn hexdig_end(s: Seq<char>, pos: int) -> int
    decreases s.len() - pos,
{
    if 0 <= pos && pos < s.len() && is_hex_digit(s[pos]) {
        hexdig_end(s, pos + 1)
    } else {
        pos
    }
}

/// End of the binary-digit run starting at `pos`.
pub open spec fn bindig_end(s: Seq<char>, pos: int) -> int
    decreases s.len() - pos,
{
    if 0 <= pos && pos < s.len() && is_bin_digit(s[pos]) {
        bindig_end(s, pos + 1)
    } else {
        pos
    }
}

/// End of the operator-symbol run starting at `pos`.
pub open spec fn opsym_end(s: Seq<char>, pos: int) -> int
    decreases s.len() - pos,
{
    if 0 <= pos && pos < s.len() && is_op_symbol(s[pos]) {
        opsym_end(s, pos + 1)
    } else {
        pos
    }
}

/// Bounds and contents of the whitespace run.
pub proof fn lemma_space_end(s: Seq<char>, pos: int)
    requires
        0 <= pos <= s.len(),
    ensures
        pos <= space_end(s, pos) <= s.len(),
        forall|i: int| pos <= i < space_end(s, pos) ==> is_space(s[i]),
    decreases s.len() - pos,
{
    if pos < s.len() && is_space(s[pos]) {
        lemma_space_end(s, pos + 1);
    }
}

/// Bounds and contents of the identifier-character run.
pub proof fn lemma_ident_end(s: Seq<char>, pos: int)
    requires
        0 <= pos <= s.len(),
    ensures
        pos <= ident_end(s, pos) <= s.len(),
        forall|i: int| pos <= i < ident_end(s, pos) ==> is_ident_char(s[i]),
    decreases s.len() - pos,
{
    if pos < s.len() && is_ident_char(s[pos]) {
        lemma_ident_end(s, pos + 1);
    }
}

/// Bounds and contents of the alphanumeric run.
pub proof fn lemma_alnum_end(s: Seq<char>, pos: int)
    requires
        0 <= pos <= s.len(),
    ensures
        pos <= alnum_end(s, pos) <= s.len(),
        forall|i: int| pos <= i < alnum_end(s, pos) ==> is_alnum(s[i]),
    decreases s.len() - pos,
{
    if pos < s.len() && is_alnum(s[pos]) {
        lemma_alnum_end(s, pos + 1);
    }
}

/// Bounds of the operator-symbol run.
pub proof fn lemma_opsym_end(s: Seq<char>, pos: int)
    requires
        0 <= pos <= s.len(),
    ensures
        pos <= opsym_end(s, pos) <= s.len(),
    decreases s.len() - pos,
{
    if pos < s.len() && is_op_symbol(s[pos]) {
        lemma_opsym_end(s, pos + 1);
    }
}

// ---------------------------------------------------------------------------
// Ignorable text: comments and whitespace
// ---------------------------------------------------------------------------

/// Position after the closing `##` of a block comment body scanned
/// from `pos`, if the comment is terminated.
pub open spec fn ml_close(s: Seq<char>, pos: int) -> Option<int>
    decreases s.len() - pos,
{
    if 0 <= pos && pos + 2 <= s.len() {
        if s[pos] == '#' && s[pos + 1] == '#' {
            Some(pos + 2)
        } else {
            ml_close(s, pos + 1)
        }
    } else {
        None
    }
}

/// A `## ... ##` block comment starting at `pos`.
pub open spec fn ig_multiline(s: Seq<char>, pos: int) -> Option<int> {
    if w2(s, pos, '#', '#') {
        ml_close(s, pos + 2)
    } else {
        None
    }
}

/// Position after the first `'\n'` at or beyond `pos`, if any.
pub open spec fn nl_scan(s: Seq<char>, pos: int) -> Option<int>
    decreases s.len() - pos,
{
    if 0 <= pos && pos < s.len() {
        if s[pos] == '\n' {
            Some(pos + 1)
        } else {
            nl_scan(s, pos + 1)
        }
    } else {
        None
    }
}

/// A `# ...` line comment starting at `pos`; it must reach a newline.
pub open spec fn ig_comment(s: Seq<char>, pos: int) -> Option<int> {
    if 0 <= pos && pos < s.len() && s[pos] == '#' {
        nl_scan(s, pos + 1)
    } else {
        None
    }
}

/// One ignorable item: a block comment, else a line comment, else a
/// nonempty whitespace run, in that order of preference.
pub open spec fn ig_once(s: Seq<char>, pos: int) -> Option<int> {
    match ig_multiline(s, pos) {
        Some(q) => Some(q),
        None => match ig_comment(s, pos) {
            Some(q) => Some(q),
            None => {
                let e = space_end(s, pos);
                if e > pos {
                    Some(e)
                } else {
                    None
                }
            },
        },
    }
}

/// Position after every ignorable item reachable from `pos`.
pub open spec fn skip_ig(s: Seq<char>, pos: int) -> int
    decreases s.len() - pos,
{
    match ig_once(s, pos) {
        Some(q) => if pos < q && q <= s.len() {
            skip_ig(s, q)
        } else {
            pos
        },
        None => pos,
    }
}

pub proof fn lemma_ml_close(s: Seq<char>, pos: int)
    requires
        0 <= pos <= s.len(),
    ensures
        ml_close(s, pos) matches Some(q) ==> pos + 2 <= q <= s.len(),
    decreases s.len() - pos,
{
    if pos + 2 <= s.len() && !(s[pos] == '#' && s[pos + 1] == '#') {
        lemma_ml_close(s, pos + 1);
    }
}

pub proof fn lemma_nl_scan(s: Seq<char>, pos: int)
    requires
        0 <= pos <= s.len(),
    ensures
        nl_scan(s, pos) matches Some(q) ==> pos + 1 <= q <= s.len(),
    decreases s.len() - pos,
{
    if pos < s.len() && s[pos] != '\n' {
        lemma_nl_scan(s, pos + 1);
    }
}

pub proof fn lemma_ig_once(s: Seq<char>, pos: int)
    requires
        0 <= pos <= s.len(),
    ensures
        ig_once(s, pos) matches Some(q) ==> pos < q <= s.len(),
{
    if w2(s, pos, '#', '#') {
        lemma_ml_close(s, pos + 2);
    }
    if pos < s.len() && s[pos] == '#' {
        lemma_nl_scan(s, pos + 1);
    }
    lemma_space_end(s, pos);
}

pub proof fn lemma_skip_ig(s: Seq<char>, pos: int)
    requires
        0 <= pos <= s.len(),
    ensures
        pos <= skip_ig(s, pos) <= s.len(),
    decreases s.len() - pos,
{
    lemma_ig_once(s, pos);
    match ig_once(s, pos) {
        Some(q) => {
            if pos < q && q <= s.len() {
                lemma_skip_ig(s, q);
            }
        },
        None => {},
    }
}

// ---------------------------------------------------------------------------
// Identifier tokens
// ---------------------------------------------------------------------------

/// A `variable` token, raw (no trailing ignorables): a lowercase or
/// underscore start, then identifier characters — refused outright
/// where a reserved word begins.
pub open spec fn var_token(s: Seq<char>, pos: int) -> Option<(Seq<char>, int)> {
    if 0 <= pos && pos < s.len() && !keyword_at(s, pos) && is_var_start(s[pos]) {
        let e = ident_end(s, pos + 1);
        Some((s.subrange(pos, e), e))
    } else {
        None
    }
}

/// A `type-name` token, raw: an uppercase start, then alphanumerics.
pub open spec fn type_token(s: Seq<char>, pos: int) -> Option<(Seq<char>, int)> {
    if 0 <= pos && pos < s.len() && is_upper(s[pos]) {
        let e = alnum_end(s, pos + 1);
        Some((s.subrange(pos, e), e))
    } else {
        None
    }
}

/// An `operator` token: an optional lead character from `& = :`, then
/// one or more symbol characters; trailing ignorables consumed.
pub open spec fn op_token(s: Seq<char>, pos: int) -> Option<(Seq<char>, int)> {
    if 0 <= pos && pos < s.len() && is_op_lead(s[pos]) && pos + 1 < s.len() && is_op_symbol(
        s[pos + 1],
    ) {
        let e = opsym_end(s, pos + 1);
        Some((s.subrange(pos, e), skip_ig(s, e)))
    } else if 0 <= pos && pos < s.len() && is_op_symbol(s[pos]) {
        let e = opsym_end(s, pos + 1);
        Some((s.subrange(pos, e), skip_ig(s, e)))
    } else {
        None
    }
}

/// The `(identifier ":")*` module-path prefix of a qualified type
/// name; segments are glued, with no ignorables inside.
pub open spec fn mod_spec(s: Seq<char>, pos: int, acc: Seq<BindingType>) -> (Seq<BindingType>, int)
    decreases s.len() - pos,
{
    match var_token(s, pos) {
        Some((t, q)) => if pos <= q && q < s.len() && s[q] == ':' {
            mod_spec(s, q + 1, acc.push(BindingType::Variable(t)))
        } else {
            (acc, pos)
        },
        None => match type_token(s, pos) {
            Some((t, q)) => if pos <= q && q < s.len() && s[q] == ':' {
                mod_spec(s, q + 1, acc.push(BindingType::Type(t)))
            } else {
                (acc, pos)
            },
            None => (acc, pos),
        },
    }
}

/// A qualified type name: module-path segments, the type name, an
/// optional `[]` array marker, an optional `&` or `*` reference
/// marker (consumed, not kept), then trailing ignorables.
pub open spec fn full_type(s: Seq<char>, pos: int) -> Option<(BindingType, int)> {
    let (segs, q) = mod_spec(s, pos, Seq::empty());
    match type_token(s, q) {
        Some((name, q2)) => {
            let (isarr, q3) = if 0 <= q2 && q2 < s.len() && s[q2] == '[' {
                let qi = skip_ig(s, q2 + 1);
                if 0 <= qi && qi < s.len() && s[qi] == ']' {
                    (true, qi + 1)
                } else {
                    (false, q2)
                }
            } else {
                (false, q2)
            };
            let q4 = if 0 <= q3 && q3 < s.len() && (s[q3] == '&' || s[q3] == '*') {
                q3 + 1
            } else {
                q3
            };
            Some((BindingType::FullType(name, segs, isarr), skip_ig(s, q4)))
        },
        None => None,
    }
}

/// Elements of a tuple-destructuring binding after its `(`: one or
/// more comma-separated variables, the closing `)` included.
pub open spec fn tup_elems(s: Seq<char>, pos: int, acc: Seq<BindingType>) -> Option<
    (Seq<BindingType>, int),
>
    decreases s.len() - pos,
{
    match var_token(s, pos) {
        Some((t, q)) => if pos <= q && q <= s.len() {
            let q2 = skip_ig(s, q);
            if q2 < s.len() && s[q2] == ',' {
                let q3 = skip_ig(s, q2 + 1);
                if pos < q3 && q3 <= s.len() {
                    tup_elems(s, q3, acc.push(BindingType::Variable(t)))
                } else {
                    None
                }
            } else if q2 < s.len() && s[q2] == ')' {
                Some((acc.push(BindingType::Variable(t)), skip_ig(s, q2 + 1)))
            } else {
                None
            }
        } else {
            None
        },
        None => None,
    }
}

/// A tuple-destructuring binding, `(a, b, c)`.
pub open spec fn tup_binding(s: Seq<char>, pos: int) -> Option<(BindingType, int)> {
    if 0 <= pos && pos < s.len() && s[pos] == '(' {
        match tup_elems(s, skip_ig(s, pos + 1), Seq::empty()) {
            Some((elems, q)) => Some((BindingType::Tuple(elems), q)),
            None => None,
        }
    } else {
        None
    }
}

/// The binding position of an assignment: a destructuring group, a
/// variable, a type name, or an operator.
pub open spec fn assign_binding(s: Seq<char>, pos: int) -> Option<(BindingType, int)> {
    match tup_binding(s, pos) {
        Some(r) => Some(r),
        None => match var_token(s, pos) {
            Some((t, q)) => Some((BindingType::Variable(t), skip_ig(s, q))),
            None => match type_token(s, pos) {
                Some((t, q)) => Some((BindingType::Type(t), skip_ig(s, q))),
                None => match op_token(s, pos) {
                    Some((t, q)) => Some((BindingType::Operator(t), q)),
                    None => None,
                },
            },
        },
    }
}

/// The `name` rule: an identifier or operator used as a value.
pub open spec fn name_binding(s: Seq<char>, pos: int) -> Option<(BindingType, int)> {
    match var_token(s, pos) {
        Some((t, q)) => Some((BindingType::Variable(t), skip_ig(s, q))),
        None => match type_token(s, pos) {
            Some((t, q)) => Some((BindingType::Type(t), skip_ig(s, q))),
            None => match op_token(s, pos) {
                Some((t, q)) => Some((BindingType::Operator(t), q)),
                None => None,
            },
        },
    }
}

// ---------------------------------------------------------------------------
// Literal tokens
// ---------------------------------------------------------------------------

/// `0x` and one or more hex digits; the digits alone are kept.
pub open spec fn hex_lit(s: Seq<char>, pos: int) -> Option<(LiteralType, int)> {
    if w2(s, pos, '0', 'x') && pos + 2 < s.len() && is_hex_digit(s[pos + 2]) {
        let e = hexdig_end(s, pos + 3);
        Some((LiteralType::Byte(s.subrange(pos + 2, e), true), e))
    } else {
        None
    }
}

/// `0b` and one or more binary digits; the digits alone are kept.
pub open spec fn bin_lit(s: Seq<char>, pos: int) -> Option<(LiteralType, int)> {
    if w2(s, pos, '0', 'b') && pos + 2 < s.len() && is_bin_digit(s[pos + 2]) {
        let e = bindig_end(s, pos + 3);
        Some((LiteralType::Byte(s.subrange(pos + 2, e), false), e))
    } else {
        None
    }
}

/// Decimal digits, optionally `.` and more digits; without the
/// fractional part the literal is an integer.
pub open spec fn num_lit(s: Seq<char>, pos: int) -> Option<(LiteralType, int)> {
    if 0 <= pos && pos < s.len() && is_digit(s[pos]) {
        let e = digit_end(s, pos + 1);
        if e < s.len() && s[e] == '.' && e + 1 < s.len() && is_digit(s[e + 1]) {
            let f = digit_end(s, e + 2);
            Some((LiteralType::Num(s.subrange(pos, e), Some(s.subrange(e + 1, f))), f))
        } else {
            Some((LiteralType::Num(s.subrange(pos, e), None), e))
        }
    } else {
        None
    }
}

/// Position after the closing quote of a string body scanned from
/// `pos`; a backslash escapes the character after it.
pub open spec fn str_scan(s: Seq<char>, pos: int) -> Option<int>
    decreases s.len() - pos,
{
    if 0 <= pos && pos < s.len() {
        if s[pos] == '"' {
            Some(pos + 1)
        } else if s[pos] == '\\' && pos + 2 <= s.len() {
            str_scan(s, pos + 2)
        } else {
            str_scan(s, pos + 1)
        }
    } else {
        None
    }
}

/// A double-quoted string; the text between the quotes is kept
/// verbatim, escapes uninterpreted.
pub open spec fn str_lit(s: Seq<char>, pos: int) -> Option<(LiteralType, int)> {
    if 0 <= pos && pos < s.len() && s[pos] == '"' {
        match str_scan(s, pos + 1) {
            Some(e) => Some((LiteralType::Str(s.subrange(pos + 1, e - 1)), e)),
            None => None,
        }
    } else {
        None
    }
}

/// A single-quoted character, optionally backslash-escaped; the
/// escape marker is consumed but only the payload is kept.
pub open spec fn char_lit(s: Seq<char>, pos: int) -> Option<(LiteralType, int)> {
    if 0 <= pos && pos < s.len() && s[pos] == '\'' {
        if pos + 1 < s.len() && s[pos + 1] == '\\' {
            if pos + 4 <= s.len() && s[pos + 3] == '\'' {
                Some((LiteralType::Char(s[pos + 2]), pos + 4))
            } else if pos + 3 <= s.len() && s[pos + 2] == '\'' {
                Some((LiteralType::Char('\\'), pos + 3))
            } else {
                None
            }
        } else if pos + 3 <= s.len() && s[pos + 2] == '\'' {
            Some((LiteralType::Char(s[pos + 1]), pos + 3))
        } else {
            None
        }
    } else {
        None
    }
}

/// The words `true` and `false`, matched exactly.
pub open spec fn bool_lit(s: Seq<char>, pos: int) -> Option<(LiteralType, int)> {
    if w4(s, pos, 't', 'r', 'u', 'e') && kw_end_ok(s, pos + 4) {
        Some((LiteralType::Bool(true), pos + 4))
    } else if w5(s, pos, 'f', 'a', 'l', 's', 'e') && kw_end_ok(s, pos + 5) {
        Some((LiteralType::Bool(false), pos + 5))
    } else {
        None
    }
}

// ---------------------------------------------------------------------------
// Statement-level tokens
// ---------------------------------------------------------------------------

/// A declaration-context keyword: `let`, `def` or `static`, with its
/// trailing ignorables.
pub open spec fn vcontext(s: Seq<char>, pos: int) -> Option<(Keyword, int)> {
    if w3(s, pos, 'l', 'e', 't') && kw_end_ok(s, pos + 3) {
        Some((Keyword::Let, skip_ig(s, pos + 3)))
    } else if w3(s, pos, 'd', 'e', 'f') && kw_end_ok(s, pos + 3) {
        Some((Keyword::Def, skip_ig(s, pos + 3)))
    } else if w6(s, pos, 's', 't', 'a', 't', 'i', 'c') && kw_end_ok(s, pos + 6) {
        Some((Keyword::Static, skip_ig(s, pos + 6)))
    } else {
        None
    }
}

/// The `(":" variable)*` tail of a module-path declaration.
pub open spec fn mod_path(s: Seq<char>, pos: int, acc: Seq<BindingType>) -> (Seq<BindingType>, int)
    decreases s.len() - pos,
{
    if 0 <= pos && pos < s.len() && s[pos] == ':' {
        match var_token(s, pos + 1) {
            Some((t, q)) => if pos < q && q <= s.len() {
                mod_path(s, q, acc.push(BindingType::Variable(t)))
            } else {
                (acc, pos)
            },
            None => (acc, pos),
        }
    } else {
        (acc, pos)
    }
}

/// A module declaration, `mod a:b:c`.
pub open spec fn mod_decl(s: Seq<char>, pos: int) -> Option<(ExprType, int)> {
    if w3(s, pos, 'm', 'o', 'd') && kw_end_ok(s, pos + 3) {
        let q = skip_ig(s, pos + 3);
        match var_token(s, q) {
            Some((t, q1)) => if q <= q1 && q1 <= s.len() {
                let (segs, q2) = mod_path(s, q1, seq![BindingType::Variable(t)]);
                Some((ExprType::ModDecl(segs), skip_ig(s, q2)))
            } else {
                None
            },
            None => None,
        }
    } else {
        None
    }
}

// ---------------------------------------------------------------------------
// Expression layer
//
// The rules below are mutually recursive.  Their termination measure
// is lexicographic: remaining input first, then a rank that orders
// the rules tried at one and the same position.  Each recursion into
// a rule of equal or higher rank happens strictly further into the
// input, which the explicit position tests in the definitions make
// evident; those tests mirror what a backtracking evaluation does and
// never reject a position a sub-rule can actually produce.
// ---------------------------------------------------------------------------

/// Comma-separated expressions after a `(`, the closing `)` and its
/// trailing ignorables included.
pub open spec fn tuple_elems_rule(s: Seq<char>, pos: int) -> Option<(Seq<ExprType>, int)>
    decreases s.len() - pos, 0int,
{
    if 0 <= pos && pos < s.len() && s[pos] == '(' {
        let q = skip_ig(s, pos + 1);
        if pos < q && q <= s.len() {
            if q < s.len() && s[q] == ')' {
                Some((Seq::empty(), skip_ig(s, q + 1)))
            } else {
                match expr_list(s, q, Seq::empty()) {
                    Some((es, q2)) => if q <= q2 && q2 < s.len() && s[q2] == ')' {
                        Some((es, skip_ig(s, q2 + 1)))
                    } else {
                        None
                    },
                    None => None,
                }
            }
        } else {
            None
        }
    } else {
        None
    }
}

/// Comma-separated expressions after a `[`, the closing `]` and its
/// trailing ignorables included.
pub open spec fn array_elems_rule(s: Seq<char>, pos: int) -> Option<(Seq<ExprType>, int)>
    decreases s.len() - pos, 0int,
{
    if 0 <= pos && pos < s.len() && s[pos] == '[' {
        let q = skip_ig(s, pos + 1);
        if pos < q && q <= s.len() {
            if q < s.len() && s[q] == ']' {
                Some((Seq::empty(), skip_ig(s, q + 1)))
            } else {
                match expr_list(s, q, Seq::empty()) {
                    Some((es, q2)) => if q <= q2 && q2 < s.len() && s[q2] == ']' {
                        Some((es, skip_ig(s, q2 + 1)))
                    } else {
                        None
                    },
                    None => None,
                }
            }
        } else {
            None
        }
    } else {
        None
    }
}

/// A brace-delimited block of expressions.
pub open spec fn scope_rule(s: Seq<char>, pos: int) -> Option<(ExprType, int)>
    decreases s.len() - pos, 1int,
{
    if 0 <= pos && pos < s.len() && s[pos] == '{' {
        let q = skip_ig(s, pos + 1);
        if pos < q && q <= s.len() {
            let (es, q2) = expr_seq(s, q, Seq::empty());
            if q <= q2 && q2 < s.len() && s[q2] == '}' {
                Some((ExprType::Scope(es), skip_ig(s, q2 + 1)))
            } else {
                None
            }
        } else {
            None
        }
    } else {
        None
    }
}

/// A tuple literal, `()` or `(e, ...)`.
pub open spec fn tuple_rule(s: Seq<char>, pos: int) -> Option<(ExprType, int)>
    decreases s.len() - pos, 1int,
{
    match tuple_elems_rule(s, pos) {
        Some((es, q)) => Some((ExprType::Tuple(es), q)),
        None => None,
    }
}

/// An array literal, `[]` or `[e, ...]`.
pub open spec fn array_rule(s: Seq<char>, pos: int) -> Option<(ExprType, int)>
    decreases s.len() - pos, 1int,
{
    match array_elems_rule(s, pos) {
        Some((es, q)) => Some((ExprType::Array(es), q)),
        None => None,
    }
}

/// The literal bucket: lexical literals, groupings and names, each
/// with its trailing ignorables, tried in order.
pub open spec fn literal_bucket(s: Seq<char>, pos: int) -> Option<(ExprType, int)>
    decreases s.len() - pos, 2int,
{
    match hex_lit(s, pos) {
        Some((l, e)) => Some((ExprType::Literal(l), skip_ig(s, e))),
        None => match bin_lit(s, pos) {
            Some((l, e)) => Some((ExprType::Literal(l), skip_ig(s, e))),
            None => match num_lit(s, pos) {
                Some((l, e)) => Some((ExprType::Literal(l), skip_ig(s, e))),
                None => match str_lit(s, pos) {
                    Some((l, e)) => Some((ExprType::Literal(l), skip_ig(s, e))),
                    None => match char_lit(s, pos) {
                        Some((l, e)) => Some((ExprType::Literal(l), skip_ig(s, e))),
                        None => match bool_lit(s, pos) {
                            Some((l, e)) => Some((ExprType::Literal(l), skip_ig(s, e))),
                            None => match tuple_rule(s, pos) {
                                Some(r) => Some(r),
                                None => match array_rule(s, pos) {
                                    Some(r) => Some(r),
                                    None => match name_binding(s, pos) {
                                        Some((b, q)) => Some((ExprType::Name(b), q)),
                                        None => None,
                                    },
                                },
                            },
                        },
                    },
                },
            },
        },
    }
}

/// An atom: a scope, else the literal bucket.
pub open spec fn atom_rule(s: Seq<char>, pos: int) -> Option<(ExprType, int)>
    decreases s.len() - pos, 3int,
{
    match scope_rule(s, pos) {
        Some(r) => Some(r),
        None => literal_bucket(s, pos),
    }
}

/// The optional bracketed array suffix of an application: when an
/// array literal follows, what stands before it becomes the callee of
/// an application whose one argument is that array.
pub open spec fn fncall_arr_step(s: Seq<char>, q0: int, m0: ExprType) -> (ExprType, int)
    decreases s.len() - q0, 1int,
{
    match array_elems_rule(s, q0) {
        Some((elems, qa)) => if q0 <= qa && qa <= s.len() {
            (ExprType::FnCall(Box::new(m0), seq![ExprType::Array(elems)]), qa)
        } else {
            (m0, q0)
        },
        None => (m0, q0),
    }
}

/// An atom with optional call suffixes: a bracketed array suffix,
/// then a parenthesized argument list.  Either suffix wraps what
/// stands before it into an application; with no suffix the atom is
/// returned unchanged.
pub open spec fn fncall_rule(s: Seq<char>, pos: int) -> Option<(ExprType, int)>
    decreases s.len() - pos, 4int,
{
    match atom_rule(s, pos) {
        Some((e0, q0)) => if pos <= q0 && q0 <= s.len() {
            let (e1, q1) = fncall_arr_step(s, q0, e0);
            if q0 <= q1 && q1 <= s.len() {
                match tuple_elems_rule(s, q1) {
                    Some((args, q2)) => Some((ExprType::FnCall(Box::new(e1), args), q2)),
                    None => Some((e1, q1)),
                }
            } else {
                Some((e1, q1))
            }
        } else {
            Some((e0, q0))
        },
        None => None,
    }
}

/// The `("." fncall)*` member-call chain after a receiver.  Each
/// suffix that is an application gets the receiver so far prepended
/// to its arguments; a bare name becomes a one-argument application.
/// Any other suffix shape is a construction error and fails the rule.
pub open spec fn dotflip_tail(s: Seq<char>, pos: int, acc: ExprType) -> Option<(ExprType, int)>
    decreases s.len() - pos, 5int,
{
    if 0 <= pos && pos < s.len() && s[pos] == '.' {
        let q = skip_ig(s, pos + 1);
        if pos < q && q <= s.len() {
            match fncall_rule(s, q) {
                Some((suf, q2)) => if q <= q2 && q2 <= s.len() {
                    match suf {
                        ExprType::FnCall(callee, args) => dotflip_tail(
                            s,
                            q2,
                            ExprType::FnCall(callee, seq![acc] + args),
                        ),
                        ExprType::Name(b) => dotflip_tail(
                            s,
                            q2,
                            ExprType::FnCall(Box::new(ExprType::Name(b)), seq![acc]),
                        ),
                        _ => None,
                    }
                } else {
                    None
                },
                None => Some((acc, pos)),
            }
        } else {
            Some((acc, pos))
        }
    } else {
        Some((acc, pos))
    }
}

/// Member-call sugar: an application chain built left to right.
pub open spec fn dotflip_rule(s: Seq<char>, pos: int) -> Option<(ExprType, int)>
    decreases s.len() - pos, 6int,
{
    match fncall_rule(s, pos) {
        Some((e, q)) => if pos <= q && q <= s.len() {
            dotflip_tail(s, q, e)
        } else {
            Some((e, q))
        },
        None => None,
    }
}

/// The `(op dotflip)*` chain after a first operand, folded to the
/// left: every operator has equal precedence and chains group
/// leftward.
pub open spec fn binary_tail(s: Seq<char>, pos: int, acc: ExprType) -> Option<(ExprType, int)>
    decreases s.len() - pos, 7int,
{
    match op_token(s, pos) {
        Some((o, q)) => if pos < q && q <= s.len() {
            match dotflip_rule(s, q) {
                Some((rhs, q2)) => if q <= q2 && q2 <= s.len() {
                    binary_tail(
                        s,
                        q2,
                        ExprType::Binary(BindingType::Operator(o), Box::new(acc), Box::new(rhs)),
                    )
                } else {
                    Some((acc, pos))
                },
                None => Some((acc, pos)),
            }
        } else {
            Some((acc, pos))
        },
        None => Some((acc, pos)),
    }
}

/// A binary-expression chain.
pub open spec fn binary_rule(s: Seq<char>, pos: int) -> Option<(ExprType, int)>
    decreases s.len() - pos, 8int,
{
    match dotflip_rule(s, pos) {
        Some((e, q)) => if pos <= q && q <= s.len() {
            binary_tail(s, q, e)
        } else {
            Some((e, q))
        },
        None => None,
    }
}

/// An assignment: declaration keyword, binding, optional `"::" type`
/// ascription (consumed, not kept), `=`, optional `mut`, value.
pub open spec fn assign_rule(s: Seq<char>, pos: int) -> Option<(ExprType, int)>
    decreases s.len() - pos, 9int,
{
    match vcontext(s, pos) {
        Some((kw, q0)) => if pos < q0 && q0 <= s.len() {
            match assign_binding(s, q0) {
                Some((b, q1)) => if q0 <= q1 && q1 <= s.len() {
                    let q2 = if w2(s, q1, ':', ':') {
                        let qa = skip_ig(s, q1 + 2);
                        match full_type(s, qa) {
                            Some((ty, qb)) => if qa <= qb && qb <= s.len() {
                                qb
                            } else {
                                q1
                            },
                            None => q1,
                        }
                    } else {
                        q1
                    };
                    if q1 <= q2 && q2 < s.len() && s[q2] == '=' {
                        let q3 = skip_ig(s, q2 + 1);
                        let (m, q4) = if w3(s, q3, 'm', 'u', 't') && kw_end_ok(s, q3 + 3) {
                            (true, skip_ig(s, q3 + 3))
                        } else {
                            (false, q3)
                        };
                        if pos < q4 && q4 <= s.len() {
                            match expr_rule(s, q4) {
                                Some((v, q5)) => Some(
                                    (ExprType::Assignment(kw, b, m, Box::new(v)), q5),
                                ),
                                None => None,
                            }
                        } else {
                            None
                        }
                    } else {
                        None
                    }
                } else {
                    None
                },
                None => None,
            }
        } else {
            None
        },
        None => None,
    }
}

/// Position after the `("@" name args?)*` annotation prefix of an
/// expression; annotations are recognized and discarded.
pub open spec fn ann_skip(s: Seq<char>, pos: int) -> int
    decreases s.len() - pos, 9int,
{
    if 0 <= pos && pos < s.len() && s[pos] == '@' {
        match var_token(s, pos + 1) {
            Some((t, q)) => if pos < q && q <= s.len() {
                let q2 = skip_ig(s, q);
                if q <= q2 && q2 <= s.len() {
                    match tuple_elems_rule(s, q2) {
                        Some((args, q3)) => if q2 < q3 && q3 <= s.len() {
                            ann_skip(s, q3)
                        } else {
                            q2
                        },
                        None => ann_skip(s, q2),
                    }
                } else {
                    pos
                }
            } else {
                pos
            },
            None => pos,
        }
    } else {
        pos
    }
}

/// An expression: annotations, then an assignment or a binary chain,
/// with surrounding ignorables consumed.
pub open spec fn expr_rule(s: Seq<char>, pos: int) -> Option<(ExprType, int)>
    decreases s.len() - pos, 10int,
{
    let qa = ann_skip(s, pos);
    if pos <= qa && qa <= s.len() {
        let q = skip_ig(s, qa);
        if pos <= q && q <= s.len() {
            match assign_rule(s, q) {
                Some((e, q2)) => Some((e, skip_ig(s, q2))),
                None => match binary_rule(s, q) {
                    Some((e, q2)) => Some((e, skip_ig(s, q2))),
                    None => None,
                },
            }
        } else {
            None
        }
    } else {
        None
    }
}

/// `expr*`: as many expressions as match, stopping at the first
/// failure or wherever no input is consumed.
pub open spec fn expr_seq(s: Seq<char>, pos: int, acc: Seq<ExprType>) -> (Seq<ExprType>, int)
    decreases s.len() - pos, 11int,
{
    match expr_rule(s, pos) {
        Some((e, q)) => if pos < q && q <= s.len() {
            expr_seq(s, q, acc.push(e))
        } else {
            (acc, pos)
        },
        None => (acc, pos),
    }
}

/// `expr ("," expr)*`: one or more comma-separated expressions.
pub open spec fn expr_list(s: Seq<char>, pos: int, acc: Seq<ExprType>) -> Option<
    (Seq<ExprType>, int),
>
    decreases s.len() - pos, 11int,
{
    match expr_rule(s, pos) {
        Some((e, q)) => if pos <= q && q <= s.len() {
            if q < s.len() && s[q] == ',' {
                let q2 = skip_ig(s, q + 1);
                if q < q2 && q2 <= s.len() {
                    expr_list(s, q2, acc.push(e))
                } else {
                    None
                }
            } else {
                Some((acc.push(e), q))
            }
        } else {
            None
        },
        None => None,
    }
}

/// A top-level line: an expression, else a module declaration.
pub open spec fn line_rule(s: Seq<char>, pos: int) -> Option<(ExprType, int)>
    decreases s.len() - pos, 12int,
{
    match expr_rule(s, pos) {
        Some(r) => Some(r),
        None => mod_decl(s, pos),
    }
}

/// `line*`: as many top-level lines as match.
pub open spec fn lines_acc(s: Seq<char>, pos: int, acc: Seq<ExprType>) -> (Seq<ExprType>, int)
    decreases s.len() - pos, 13int,
{
    match line_rule(s, pos) {
        Some((e, q)) => if pos < q && q <= s.len() {
            lines_acc(s, q, acc.push(e))
        } else {
            (acc, pos)
        },
        None => (acc, pos),
    }
}

/// The start rule: leading ignorables, then top-level lines; the
/// parse succeeds only when the whole input is consumed, and a
/// failure carries no partial result.
pub open spec fn program_rule(s: Seq<char>) -> Option<Seq<ExprType>> {
    let p0 = skip_ig(s, 0);
    if 0 <= p0 && p0 <= s.len() {
        let (es, pe) = lines_acc(s, p0, Seq::empty());
        if pe == s.len() {
            Some(es)
        } else {
            None
        }
    } else {
        None
    }
}

} // verus!
