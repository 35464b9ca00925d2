//! Scannerless grammar over source bytes.
//!
//! Whitespace and comments are skipped inline between grammar symbols; the
//! expression grammar climbs precedence levels iteratively, so no rule is
//! left-recursive. The whole parse is atomic: on any rule failure the parse
//! fails, carrying the position at which no further statement could start,
//! and no partial tree is returned.

use vstd::prelude::*;

use crate::ast::{DefFuncExpr, Expr, FunctionExpr, FunctionModifier, ModifierSet, TypeExpr};

verus! {

/// Insignificant byte between tokens: space, tab or newline.
pub open spec fn is_space(c: u8) -> bool {
    c == 32 || c == 9 || c == 10
}

/// A decimal digit byte.
pub open spec fn is_digit(c: u8) -> bool {
    48 <= c && c <= 57
}

/// A byte that may start an identifier: a letter or an underscore.
pub open spec fn is_ident_start(c: u8) -> bool {
    (97 <= c && c <= 122) || (65 <= c && c <= 90) || c == 95
}

/// A byte that may continue an identifier.
pub open spec fn is_ident_char(c: u8) -> bool {
    is_ident_start(c) || is_digit(c)
}

/// Every byte of `s` is a decimal digit.
pub open spec fn is_digits(s: Seq<u8>) -> bool {
    forall|k: int| 0 <= k < s.len() ==> is_digit(#[trigger] s[k])
}

/// The numeric value of one digit byte (0 for anything else).
pub open spec fn digit_of(c: u8) -> int {
    if 48 <= c && c <= 57 {
        c - 48
    } else {
        0
    }
}

/// The non-negative integer a digit sequence denotes, most significant
/// digit first.
pub open spec fn digits_val(s: Seq<u8>) -> int
    decreases s.len(),
{
    if s.len() == 0 {
        0
    } else {
        digits_val(s.drop_last()) * 10 + digit_of(s.last())
    }
}

/// The value of a digit sequence is never negative.
pub proof fn lemma_digits_val_nonneg(s: Seq<u8>)
    ensures
        digits_val(s) >= 0,
    decreases s.len(),
{
    if s.len() > 0 {
        lemma_digits_val_nonneg(s.drop_last());
    }
}

/// Reading one more digit multiplies the prefix value by ten and adds it.
pub proof fn lemma_digits_val_step(s: Seq<u8>, i: int)
    requires
        0 <= i < s.len(),
    ensures
        digits_val(s.subrange(0, i + 1)) == digits_val(s.subrange(0, i)) * 10 + digit_of(s[i]),
{
    let p = s.subrange(0, i + 1);
    assert(p.drop_last() =~= s.subrange(0, i));
    assert(p.last() == s[i]);
}

/// A longer digit prefix never denotes a smaller value.
pub proof fn lemma_digits_val_grows(s: Seq<u8>, i: int)
    requires
        0 <= i <= s.len(),
    ensures
        digits_val(s) >= digits_val(s.subrange(0, i)),
    decreases s.len() - i,
{
    if i == s.len() {
        assert(s.subrange(0, i) =~= s);
    } else {
        lemma_digits_val_step(s, i);
        lemma_digits_val_nonneg(s.subrange(0, i));
        lemma_digits_val_grows(s, i + 1);
    }
}

/// One pass of the inter-token skip. Mode 0 is between tokens, mode 1 is
/// inside a `//` line comment, mode 2 is inside a `/* */` block comment;
/// `None` from mode 2 means the comment never closes.
pub open spec fn skip_from(s: Seq<u8>, i: int, mode: int) -> Option<int>
    decreases s.len() - i, mode,
{
    if i < 0 || i > s.len() {
        None
    } else if mode == 2 {
        if i + 2 > s.len() {
            None
        } else if s[i] == 42 && s[i + 1] == 47 {
            skip_from(s, i + 2, 0)
        } else {
            skip_from(s, i + 1, 2)
        }
    } else if mode == 1 {
        if i >= s.len() {
            Some(i)
        } else if s[i] == 10 {
            skip_from(s, i, 0)
        } else {
            skip_from(s, i + 1, 1)
        }
    } else {
        if i >= s.len() {
            Some(i)
        } else if is_space(s[i]) {
            skip_from(s, i + 1, 0)
        } else if i + 2 <= s.len() && s[i] == 47 && s[i + 1] == 47 {
            skip_from(s, i + 2, 1)
        } else if i + 2 <= s.len() && s[i] == 47 && s[i + 1] == 42 {
            match skip_from(s, i + 2, 2) {
                Some(j) => Some(j),
                None => Some(i),
            }
        } else {
            Some(i)
        }
    }
}

/// Where the skip rule applied at `i` stops: spaces, tabs, newlines, `//`
/// line comments and non-nesting `/* */` block comments are ignorable; an
/// unterminated block comment is not entered.
pub open spec fn skip_to(s: Seq<u8>, i: int) -> int {
    match skip_from(s, i, 0) {
        Some(j) => j,
        None => i,
    }
}

/// The skip never moves backwards and never leaves the input.
pub proof fn lemma_skip_from_bounds(s: Seq<u8>, i: int, mode: int)
    requires
        0 <= i <= s.len(),
    ensures
        skip_from(s, i, mode) matches Some(j) ==> i <= j <= s.len(),
    decreases s.len() - i, mode,
{
    if mode == 2 {
        if i + 2 <= s.len() {
            if s[i] == 42 && s[i + 1] == 47 {
                lemma_skip_from_bounds(s, i + 2, 0);
            } else {
                lemma_skip_from_bounds(s, i + 1, 2);
            }
        }
    } else if mode == 1 {
        if i < s.len() {
            if s[i] == 10 {
                lemma_skip_from_bounds(s, i, 0);
            } else {
                lemma_skip_from_bounds(s, i + 1, 1);
            }
        }
    } else {
        if i < s.len() {
            if is_space(s[i]) {
                lemma_skip_from_bounds(s, i + 1, 0);
            } else if i + 2 <= s.len() && s[i] == 47 && s[i + 1] == 47 {
                lemma_skip_from_bounds(s, i + 2, 1);
            } else if i + 2 <= s.len() && s[i] == 47 && s[i + 1] == 42 {
                lemma_skip_from_bounds(s, i + 2, 2);
            }
        }
    }
}

/// Outside a block comment the skip always lands somewhere.
pub proof fn lemma_skip_some(s: Seq<u8>, i: int, mode: int)
    requires
        0 <= i <= s.len(),
        mode == 0 || mode == 1,
    ensures
        skip_from(s, i, mode) is Some,
    decreases s.len() - i, mode,
{
    if mode == 1 {
        if i < s.len() {
            if s[i] == 10 {
                lemma_skip_some(s, i, 0);
            } else {
                lemma_skip_some(s, i + 1, 1);
            }
        }
    } else {
        if i < s.len() {
            if is_space(s[i]) {
                lemma_skip_some(s, i + 1, 0);
            } else if i + 2 <= s.len() && s[i] == 47 && s[i + 1] == 47 {
                lemma_skip_some(s, i + 2, 1);
            }
        }
    }
}

/// Skips whitespace and comments, landing exactly where the skip rule
/// says.
pub fn skip_ws(s: &Vec<u8>, pos: usize) -> (p: usize)
    requires
        pos <= s@.len(),
    ensures
        pos <= p <= s@.len(),
        p as int == skip_to(s@, pos as int),
{
    let mut i = pos;
    loop
        invariant
            pos <= i <= s@.len(),
            skip_to(s@, pos as int) == skip_to(s@, i as int),
        decreases s@.len() - i,
    {
        if i >= s.len() {
            return i;
        }
        let c = s[i];
        if c == 32 || c == 9 || c == 10 {
            proof {
                lemma_skip_some(s@, i as int + 1, 0);
                assert(skip_to(s@, i as int) == skip_to(s@, i as int + 1));
            }
            i = i + 1;
        } else if c == 47 && i + 1 < s.len() && s[i + 1] == 47 {
            let mut j = i + 2;
            while j < s.len() && s[j] != 10
                invariant
                    i + 2 <= j <= s@.len(),
                    skip_from(s@, i as int + 2, 1) == skip_from(s@, j as int, 1),
                decreases s@.len() - j,
            {
                j = j + 1;
            }
            proof {
                assert(skip_from(s@, i as int, 0) == skip_from(s@, i as int + 2, 1));
                assert(skip_from(s@, j as int, 1) == skip_from(s@, j as int, 0));
                lemma_skip_some(s@, j as int, 0);
                assert(skip_to(s@, i as int) == skip_to(s@, j as int));
            }
            i = j;
        } else if c == 47 && i + 1 < s.len() && s[i + 1] == 42 {
            let mut j = i + 2;
            while j < s.len() - 1 && !(s[j] == 42 && s[j + 1] == 47)
                invariant
                    2 <= i + 2 <= j <= s@.len(),
                    skip_from(s@, i as int + 2, 2) == skip_from(s@, j as int, 2),
                decreases s@.len() - j,
            {
                j = j + 1;
            }
            if j < s.len() - 1 {
                // the comment closes at `j`
                proof {
                    assert(skip_from(s@, i as int, 0) == match skip_from(s@, i as int + 2, 2) {
                        Some(q) => Some(q),
                        None => Some(i as int),
                    });
                    assert(skip_from(s@, j as int, 2) == skip_from(s@, j as int + 2, 0));
                    lemma_skip_some(s@, j as int + 2, 0);
                    assert(skip_to(s@, i as int) == skip_to(s@, j as int + 2));
                }
                i = j + 2;
            } else {
                // unterminated block comment: the `/*` is not ignorable
                proof {
                    assert(skip_from(s@, j as int, 2) is None);
                }
                return i;
            }
        } else {
            return i;
        }
    }
}

/// The end of the maximal identifier-character run from `i`.
pub open spec fn ident_end(s: Seq<u8>, i: int) -> int
    decreases s.len() - i,
{
    if 0 <= i < s.len() && is_ident_char(s[i]) {
        ident_end(s, i + 1)
    } else {
        i
    }
}

/// The end of the maximal digit run from `i`.
pub open spec fn digits_end(s: Seq<u8>, i: int) -> int
    decreases s.len() - i,
{
    if 0 <= i < s.len() && is_digit(s[i]) {
        digits_end(s, i + 1)
    } else {
        i
    }
}

/// An identifier token occupies `[i, j)` and reads `name`.
pub open spec fn ident_token_at(s: Seq<u8>, i: int, name: Seq<u8>, j: int) -> bool {
    &&& 0 <= i < j <= s.len()
    &&& is_ident_start(s[i])
    &&& j == ident_end(s, i + 1)
    &&& name == s.subrange(i, j)
}

/// An integer literal token occupies `[i, j)` and reads `t`: a maximal
/// non-empty digit run, nothing else.
pub open spec fn digits_at(s: Seq<u8>, i: int, t: Seq<u8>, j: int) -> bool {
    &&& 0 <= i < j <= s.len()
    &&& is_digit(s[i])
    &&& j == digits_end(s, i)
    &&& t == s.subrange(i, j)
}

/// A string-literal character unit can start at `a`: anything but the
/// closing double quote.
pub open spec fn scu_ok(s: Seq<u8>, a: int) -> bool {
    0 <= a < s.len() && s[a] != 34
}

/// Where the character unit starting at `a` ends: a backslash followed by
/// any byte is one escape unit, anything else is itself.
pub open spec fn scu_end(s: Seq<u8>, a: int) -> int {
    if 0 <= a < s.len() && s[a] == 92 && a + 1 < s.len() {
        a + 2
    } else {
        a + 1
    }
}

/// What an escape character decodes to: `n r t 0` map to their control
/// bytes, any other escaped byte passes through.
pub open spec fn esc_byte(c: u8) -> u8 {
    if c == 110 {
        10
    } else if c == 114 {
        13
    } else if c == 116 {
        9
    } else if c == 48 {
        0
    } else {
        c
    }
}

/// The decoded byte of the character unit starting at `a`.
pub open spec fn scu_val(s: Seq<u8>, a: int) -> u8 {
    if 0 <= a < s.len() && s[a] == 92 && a + 1 < s.len() {
        esc_byte(s[a + 1])
    } else {
        s[a]
    }
}

/// Where the string-literal body starting at `a` meets its closing quote,
/// if it ever does.
pub open spec fn str_body_end(s: Seq<u8>, a: int) -> Option<int>
    decreases s.len() - a,
{
    if !(0 <= a < s.len()) {
        None
    } else if s[a] == 34 {
        Some(a)
    } else {
        str_body_end(s, scu_end(s, a))
    }
}

/// The decoded content of the string-literal body starting at `a`.
pub open spec fn str_body_val(s: Seq<u8>, a: int) -> Seq<u8>
    decreases s.len() - a,
{
    if 0 <= a < s.len() && s[a] != 34 {
        seq![scu_val(s, a)] + str_body_val(s, scu_end(s, a))
    } else {
        Seq::<u8>::empty()
    }
}

/// Every byte from `pos` to the end of the input is a digit.
pub open spec fn all_digits_from(s: Seq<u8>, pos: int) -> bool {
    forall|k: int| pos <= k < s.len() ==> is_digit(#[trigger] s[k])
}

/// On an all-digit input an expression parse must succeed, consume
/// everything, and yield the literal node holding exactly those digits.
pub open spec fn digit_run_result(s: Seq<u8>, pos: int, r: Option<(Expr, usize)>) -> bool {
    (0 <= pos < s.len() && all_digits_from(s, pos)) ==> match r {
        Some((e, p)) => p == s.len() && (e matches Expr::Literal(t) && t@ == s.subrange(
            pos,
            s.len() as int,
        )),
        None => false,
    }
}

/// A maximal digit run over an all-digit tail reaches the end.
proof fn lemma_digits_end_all(s: Seq<u8>, a: int)
    requires
        0 <= a <= s.len(),
        all_digits_from(s, a),
    ensures
        digits_end(s, a) == s.len(),
    decreases s.len() - a,
{
    if a < s.len() {
        lemma_digits_end_all(s, a + 1);
    }
}

/// A character literal `'c'` occupies `[i, j)` and decodes to `t`.
pub open spec fn char_at(s: Seq<u8>, i: int, t: Seq<u8>, j: int) -> bool {
    &&& 0 <= i && i + 2 <= j <= s.len()
    &&& s[i] == 39
    &&& scu_ok(s, i + 1)
    &&& {
        let ue = scu_end(s, i + 1);
        &&& ue < s.len()
        &&& s[ue] == 39
        &&& j == ue + 1
        &&& t == seq![scu_val(s, i + 1)]
    }
}

/// A string literal occupies `[i, j)` and decodes to `t`.
pub open spec fn string_at(s: Seq<u8>, i: int, t: Seq<u8>, j: int) -> bool {
    &&& 0 <= i < s.len()
    &&& s[i] == 34
    &&& match str_body_end(s, i + 1) {
        Some(q) => j == q + 1 && t == str_body_val(s, i + 1),
        None => false,
    }
}

/// Copies the bytes of `s` in `[a, b)`.
fn sub_bytes(s: &Vec<u8>, a: usize, b: usize) -> (r: Vec<u8>)
    requires
        a <= b <= s@.len(),
    ensures
        r@ == s@.subrange(a as int, b as int),
{
    let mut out: Vec<u8> = Vec::new();
    let mut i = a;
    while i < b
        invariant
            a <= i <= b <= s@.len(),
            out@ =~= s@.subrange(a as int, i as int),
        decreases b - i,
    {
        out.push(s[i]);
        proof {
            assert(out@ =~= s@.subrange(a as int, i as int + 1));
        }
        i = i + 1;
    }
    proof {
        assert(out@ =~= s@.subrange(a as int, b as int));
    }
    out
}

/// Reads an identifier token.
fn parse_ident(s: &Vec<u8>, pos: usize) -> (r: Option<(Vec<u8>, usize)>)
    requires
        pos <= s@.len(),
    ensures
        match r {
            Some((name, p)) => pos < p <= s@.len() && ident_token_at(
                s@,
                pos as int,
                name@,
                p as int,
            ),
            None => !(pos < s@.len() && is_ident_start(s@[pos as int])),
        },
{
    if pos >= s.len() {
        return None;
    }
    let c0 = s[pos];
    if !((97 <= c0 && c0 <= 122) || (65 <= c0 && c0 <= 90) || c0 == 95) {
        return None;
    }
    let mut j = pos + 1;
    while j < s.len() && (
        (97 <= s[j] && s[j] <= 122) || (65 <= s[j] && s[j] <= 90) || s[j] == 95
        || (48 <= s[j] && s[j] <= 57)
    )
        invariant
            pos + 1 <= j <= s@.len(),
            ident_end(s@, pos as int + 1) == ident_end(s@, j as int),
        decreases s@.len() - j,
    {
        j = j + 1;
    }
    let name = sub_bytes(s, pos, j);
    Some((name, j))
}

/// Reads an integer literal token: a maximal digit run.
fn parse_digits(s: &Vec<u8>, pos: usize) -> (r: Option<(Vec<u8>, usize)>)
    requires
        pos <= s@.len(),
    ensures
        match r {
            Some((t, p)) => pos < p <= s@.len() && digits_at(s@, pos as int, t@, p as int),
            None => !(pos < s@.len() && is_digit(s@[pos as int])),
        },
{
    if pos >= s.len() {
        return None;
    }
    let c0 = s[pos];
    if !(48 <= c0 && c0 <= 57) {
        return None;
    }
    let mut j = pos + 1;
    while j < s.len() && 48 <= s[j] && s[j] <= 57
        invariant
            pos + 1 <= j <= s@.len(),
            digits_end(s@, pos as int) == digits_end(s@, j as int),
        decreases s@.len() - j,
    {
        j = j + 1;
    }
    let t = sub_bytes(s, pos, j);
    Some((t, j))
}



/// Where the size slot of an array shape ends, if one is written at
/// `i`: an integer literal or the `&identifier` marker.
pub open spec fn lit_end(s: Seq<u8>, i: int) -> Option<int> {
    if 0 <= i < s.len() && is_digit(s[i]) {
        Some(digits_end(s, i))
    } else if 0 <= i && i + 1 < s.len() && s[i] == 38 && is_ident_start(s[i + 1]) {
        Some(ident_end(s, i + 2))
    } else {
        None
    }
}

/// The size slot written at `i` reads as `e`.
pub open spec fn lit_matches(s: Seq<u8>, i: int, e: Expr) -> bool {
    ||| (e matches Expr::Literal(t) && 0 <= i < s.len() && is_digit(s[i]) && t@ == s.subrange(
        i,
        digits_end(s, i),
    ))
    ||| (e matches Expr::TestVal(n) && 0 <= i && i + 1 < s.len() && s[i] == 38 && is_ident_start(
        s[i + 1],
    ) && n@ == s.subrange(i + 1, ident_end(s, i + 2)))
}

/// Where the type annotation written at `i` ends, if one is there: a
/// primitive name, a sized array shape `[element; size]`, or an unsized
/// one `[element]`. The type grammar is deterministic, so the end is a
/// function of the input alone.
pub open spec fn type_end(s: Seq<u8>, i: int) -> Option<int>
    decreases s.len() - i,
{
    if !(0 <= i < s.len()) {
        None
    } else if is_ident_start(s[i]) {
        Some(ident_end(s, i + 1))
    } else if s[i] == 91 {
        let k1 = skip_to(s, i + 1);
        if !(i + 1 <= k1 <= s.len()) {
            None
        } else {
            match type_end(s, k1) {
                Some(k2) => {
                    let k3 = skip_to(s, k2);
                    if !(0 <= k3 < s.len()) {
                        None
                    } else if s[k3] == 59 {
                        let k4 = skip_to(s, k3 + 1);
                        match lit_end(s, k4) {
                            Some(k5) => if k5 < s.len() && s[k5] == 93 {
                                Some(k5 + 1)
                            } else {
                                None
                            },
                            None => None,
                        }
                    } else if s[k3] == 93 {
                        Some(k3 + 1)
                    } else {
                        None
                    }
                },
                None => None,
            }
        }
    } else {
        None
    }
}

/// The type annotation written at `i` reads as `t`. Void is never
/// written: it arises only from an omitted return type.
pub open spec fn type_matches(s: Seq<u8>, i: int, t: TypeExpr) -> bool
    decreases t,
{
    match t {
        TypeExpr::Ident(n) => 0 <= i < s.len() && is_ident_start(s[i]) && n@ == s.subrange(
            i,
            ident_end(s, i + 1),
        ),
        TypeExpr::Void => false,
        TypeExpr::Array(el, szv) => 0 <= i < s.len() && s[i] == 91 && {
            let k1 = skip_to(s, i + 1);
            &&& type_matches(s, k1, *el)
            &&& match type_end(s, k1) {
                Some(k2) => {
                    let k3 = skip_to(s, k2);
                    &&& 0 <= k3 < s.len()
                    &&& ((s[k3] == 59 && lit_matches(s, skip_to(s, k3 + 1), *szv)) || (s[k3] == 93
                        && (*szv matches Expr::Literal(z) && z@ == seq![48u8])))
                },
                None => false,
            }
        },
    }
}


/// Where a character literal starting at the quote `i` ends, if one is
/// written there.
pub open spec fn char_lit_end(s: Seq<u8>, i: int) -> Option<int> {
    if scu_ok(s, i + 1) && scu_end(s, i + 1) < s.len() && s[scu_end(s, i + 1)] == 39 {
        Some(scu_end(s, i + 1) + 1)
    } else {
        None
    }
}

/// Where the greedy comma-separated list continuation starting at `cur`
/// (after one element and its trailing skip) stops: before a separator
/// whose following element does not parse, or where no separator stands.
pub open spec fn args_tail(s: Seq<u8>, cur: int) -> int
    decreases s.len() - cur, 8int,
{
    if !(0 <= cur <= s.len()) {
        cur
    } else if cur < s.len() && s[cur] == 44 {
        let k1b = skip_to(s, cur + 1);
        if !(cur + 1 <= k1b <= s.len()) {
            cur
        } else {
            match value_end(s, k1b) {
                Some(p2) => {
                    let after = skip_to(s, p2);
                    if k1b < p2 && p2 <= after <= s.len() {
                        args_tail(s, after)
                    } else {
                        cur
                    }
                },
                None => cur,
            }
        }
    } else {
        cur
    }
}

/// Where the comma-separated expression list starting at `i` stops; an
/// empty list stops at `i` itself.
pub open spec fn args_end(s: Seq<u8>, i: int) -> int
    decreases s.len() - i, 9int,
{
    if !(0 <= i <= s.len()) {
        i
    } else {
        let k1 = skip_to(s, i);
        if !(i <= k1 <= s.len()) {
            i
        } else {
            match value_end(s, k1) {
                Some(p0) => {
                    let cur = skip_to(s, p0);
                    if k1 < p0 && p0 <= cur <= s.len() {
                        args_tail(s, cur)
                    } else {
                        i
                    }
                },
                None => i,
            }
        }
    }
}

/// An atom starting at `i` has the shape of a call: a name whose
/// following token is an opening parenthesis.
pub open spec fn call_shape(s: Seq<u8>, i: int) -> bool {
    0 <= i && i < s.len() && is_ident_start(s[i]) && {
        let ie = ident_end(s, i + 1);
        let k1 = skip_to(s, ie);
        ie <= k1 && k1 < s.len() && s[k1] == 40
    }
}

/// Where the atom starting at `i` ends, if one is written there. The
/// atom grammar is deterministic: alternatives are told apart by their
/// first byte, a name followed by `(` being a call.
pub open spec fn atom_end(s: Seq<u8>, i: int) -> Option<int>
    decreases s.len() - i, 2int,
{
    if !(0 <= i < s.len()) {
        None
    } else {
        let c = s[i];
        if c == 39 {
            char_lit_end(s, i)
        } else if c == 34 {
            match str_body_end(s, i + 1) {
                Some(q) => Some(q + 1),
                None => None,
            }
        } else if is_ident_start(c) {
            let ie = ident_end(s, i + 1);
            let k1 = skip_to(s, ie);
            if i < ie && ie <= k1 <= s.len() && k1 < s.len() && s[k1] == 40 {
                let k2 = args_end(s, k1 + 1);
                if k1 + 1 <= k2 <= s.len() && k2 < s.len() && s[k2] == 41 {
                    Some(k2 + 1)
                } else {
                    None
                }
            } else {
                Some(ie)
            }
        } else if c == 64 {
            match type_end(s, i + 1) {
                Some(kt) => if i + 1 <= kt && kt < s.len() && s[kt] == 91 {
                    let k2 = args_end(s, kt + 1);
                    if kt + 1 <= k2 <= s.len() && k2 < s.len() && s[k2] == 93 {
                        Some(k2 + 1)
                    } else {
                        None
                    }
                } else {
                    None
                },
                None => None,
            }
        } else if is_digit(c) {
            Some(digits_end(s, i))
        } else if c == 38 {
            if i + 1 < s.len() && is_ident_start(s[i + 1]) {
                Some(ident_end(s, i + 2))
            } else {
                None
            }
        } else if c == 40 {
            let k1 = skip_to(s, i + 1);
            if i + 1 <= k1 <= s.len() {
                match value_end(s, k1) {
                    Some(k2) => if k2 < s.len() && s[k2] == 41 {
                        Some(k2 + 1)
                    } else {
                        None
                    },
                    None => None,
                }
            } else {
                None
            }
        } else {
            None
        }
    }
}

/// Where the greedy postfix-index chain starting at `cur` (after an
/// atom) stops.
pub open spec fn post_tail(s: Seq<u8>, cur: int) -> int
    decreases s.len() - cur, 0int,
{
    if !(0 <= cur <= s.len()) {
        cur
    } else if cur < s.len() && s[cur] == 91 {
        let k2 = skip_to(s, cur + 1);
        if !(cur + 1 <= k2 <= s.len()) {
            cur
        } else {
            match value_end(s, k2) {
                Some(k3) => {
                    let k4 = skip_to(s, k3);
                    if k2 < k3 && k3 <= k4 <= s.len() && k4 < s.len() && s[k4] == 93 {
                        post_tail(s, k4 + 1)
                    } else {
                        cur
                    }
                },
                None => cur,
            }
        }
    } else if cur < s.len() && s[cur] == 64 {
        match type_end(s, cur + 1) {
            Some(kt) => if cur + 1 <= kt && kt < s.len() && s[kt] == 91 {
                let k2 = skip_to(s, kt + 1);
                if !(kt + 1 <= k2 <= s.len()) {
                    cur
                } else {
                    match value_end(s, k2) {
                        Some(k3) => {
                            let k4 = skip_to(s, k3);
                            if k2 < k3 && k3 <= k4 <= s.len() && k4 < s.len() && s[k4] == 93 {
                                post_tail(s, k4 + 1)
                            } else {
                                cur
                            }
                        },
                        None => cur,
                    }
                }
            } else {
                cur
            },
            None => cur,
        }
    } else {
        cur
    }
}

/// Where the postfix level starting at `i` ends, if an atom starts
/// there.
pub open spec fn post_end(s: Seq<u8>, i: int) -> Option<int>
    decreases s.len() - i, 3int,
{
    match atom_end(s, i) {
        Some(p0) => if i < p0 <= s.len() {
            Some(post_tail(s, p0))
        } else {
            None
        },
        None => None,
    }
}

/// Where the greedy multiplicative chain continuation stops.
pub open spec fn mul_tail(s: Seq<u8>, cur: int) -> int
    decreases s.len() - cur, 0int,
{
    if !(0 <= cur <= s.len()) {
        cur
    } else {
        let k2 = skip_to(s, cur);
        if cur <= k2 && k2 < s.len() && (s[k2] == 42 || s[k2] == 47) {
            let k3 = skip_to(s, k2 + 1);
            if k2 + 1 <= k3 <= s.len() {
                match post_end(s, k3) {
                    Some(p2) => if k3 < p2 <= s.len() {
                        mul_tail(s, p2)
                    } else {
                        cur
                    },
                    None => cur,
                }
            } else {
                cur
            }
        } else {
            cur
        }
    }
}

/// Where the multiplicative level starting at `i` ends.
pub open spec fn mul_end(s: Seq<u8>, i: int) -> Option<int>
    decreases s.len() - i, 4int,
{
    match post_end(s, i) {
        Some(p0) => if i < p0 <= s.len() {
            Some(mul_tail(s, p0))
        } else {
            None
        },
        None => None,
    }
}

/// Where the greedy additive chain continuation stops.
pub open spec fn add_tail(s: Seq<u8>, cur: int) -> int
    decreases s.len() - cur, 0int,
{
    if !(0 <= cur <= s.len()) {
        cur
    } else {
        let k2 = skip_to(s, cur);
        if cur <= k2 && k2 < s.len() && (s[k2] == 43 || s[k2] == 45) {
            let k3 = skip_to(s, k2 + 1);
            if k2 + 1 <= k3 <= s.len() {
                match mul_end(s, k3) {
                    Some(p2) => if k3 < p2 <= s.len() {
                        add_tail(s, p2)
                    } else {
                        cur
                    },
                    None => cur,
                }
            } else {
                cur
            }
        } else {
            cur
        }
    }
}

/// Where the additive level starting at `i` ends.
pub open spec fn add_end(s: Seq<u8>, i: int) -> Option<int>
    decreases s.len() - i, 5int,
{
    match mul_end(s, i) {
        Some(p0) => if i < p0 <= s.len() {
            Some(add_tail(s, p0))
        } else {
            None
        },
        None => None,
    }
}

/// The width of the comparison operator written at `k2`, if any; the
/// two-byte forms are recognized before the one-byte ones.
pub open spec fn cmp_op_width(s: Seq<u8>, k2: int) -> Option<int> {
    if 0 <= k2 && k2 < s.len() && k2 + 1 < s.len() && ((s[k2] == 61 && s[k2 + 1] == 61) || (s[k2]
        == 33 && s[k2 + 1] == 61) || (s[k2] == 60 && s[k2 + 1] == 61) || (s[k2] == 62 && s[k2 + 1]
        == 61)) {
        Some(2)
    } else if 0 <= k2 && k2 < s.len() && (s[k2] == 60 || s[k2] == 62) {
        Some(1)
    } else {
        None
    }
}

/// Where the greedy comparison chain continuation stops.
pub open spec fn cmp_tail(s: Seq<u8>, cur: int) -> int
    decreases s.len() - cur, 0int,
{
    if !(0 <= cur <= s.len()) {
        cur
    } else {
        let k2 = skip_to(s, cur);
        if !(cur <= k2 <= s.len()) {
            cur
        } else {
            match cmp_op_width(s, k2) {
                Some(w) => {
                    let k3 = skip_to(s, k2 + w);
                    if k2 + w <= k3 <= s.len() {
                        match add_end(s, k3) {
                            Some(p2) => if k3 < p2 <= s.len() {
                                cmp_tail(s, p2)
                            } else {
                                cur
                            },
                            None => cur,
                        }
                    } else {
                        cur
                    }
                },
                None => cur,
            }
        }
    }
}

/// Where the comparison level starting at `i` ends.
pub open spec fn cmp_end(s: Seq<u8>, i: int) -> Option<int>
    decreases s.len() - i, 6int,
{
    match add_end(s, i) {
        Some(p0) => if i < p0 <= s.len() {
            Some(cmp_tail(s, p0))
        } else {
            None
        },
        None => None,
    }
}

/// Where the greedy logical chain continuation stops.
pub open spec fn value_tail(s: Seq<u8>, cur: int) -> int
    decreases s.len() - cur, 0int,
{
    if !(0 <= cur <= s.len()) {
        cur
    } else {
        let k2 = skip_to(s, cur);
        if cur <= k2 && k2 < s.len() && k2 + 1 < s.len() && ((s[k2] == 38 && s[k2 + 1] == 38) || (
        s[k2] == 124 && s[k2 + 1] == 124)) {
            let k3 = skip_to(s, k2 + 2);
            if k2 + 2 <= k3 <= s.len() {
                match cmp_end(s, k3) {
                    Some(p2) => if k3 < p2 <= s.len() {
                        value_tail(s, p2)
                    } else {
                        cur
                    },
                    None => cur,
                }
            } else {
                cur
            }
        } else {
            cur
        }
    }
}

/// Where the expression starting at `i` ends, if one is written there.
/// The expression grammar is deterministic, so the end is a function of
/// the input alone.
pub open spec fn value_end(s: Seq<u8>, i: int) -> Option<int>
    decreases s.len() - i, 7int,
{
    match cmp_end(s, i) {
        Some(p0) => if i < p0 <= s.len() {
            Some(value_tail(s, p0))
        } else {
            None
        },
        None => None,
    }
}

/// Decodes one escape character.
fn esc_b(c: u8) -> (r: u8)
    ensures
        r == esc_byte(c),
{
    if c == 110 {
        10
    } else if c == 114 {
        13
    } else if c == 116 {
        9
    } else if c == 48 {
        0
    } else {
        c
    }
}

/// Reads a character literal.
fn parse_char_lit(s: &Vec<u8>, pos: usize) -> (r: Option<(Expr, usize)>)
    requires
        pos < s@.len(),
        s@[pos as int] == 39,
    ensures
        r matches Some((e, p)) ==> pos < p <= s@.len() && (e matches Expr::Char(t) && char_at(
            s@,
            pos as int,
            t@,
            p as int,
        )),
        r is None ==> !(scu_ok(s@, pos as int + 1) && scu_end(s@, pos as int + 1) < s@.len()
            && s@[scu_end(s@, pos as int + 1)] == 39),
{
    let n: usize = s.len();
    if pos + 1 >= n {
        return None;
    }
    let c1: u8 = s[pos + 1];
    if c1 == 34 {
        return None;
    }
    let vb: u8;
    let ue: usize;
    if c1 == 92 && pos + 2 < n {
        vb = esc_b(s[pos + 2]);
        ue = pos + 3;
    } else {
        vb = c1;
        ue = pos + 2;
    }
    if ue < n && s[ue] == 39 {
        let mut t: Vec<u8> = Vec::new();
        t.push(vb);
        proof {
            assert(t@ =~= seq![scu_val(s@, pos as int + 1)]);
        }
        Some((Expr::Char(t), ue + 1))
    } else {
        None
    }
}

/// Reads a string literal, decoding escapes.
fn parse_string_lit(s: &Vec<u8>, pos: usize) -> (r: Option<(Expr, usize)>)
    requires
        pos < s@.len(),
        s@[pos as int] == 34,
    ensures
        r matches Some((e, p)) ==> pos < p <= s@.len() && (e matches Expr::String(t) && string_at(
            s@,
            pos as int,
            t@,
            p as int,
        )),
        r is None ==> str_body_end(s@, pos as int + 1) is None,
{
    let n: usize = s.len();
    if pos >= n {
        return None;
    }
    let mut out: Vec<u8> = Vec::new();
    let mut a: usize = pos + 1;
    loop
        invariant
            pos + 1 <= a <= s@.len(),
            pos < s@.len() && s@[pos as int] == 34,
            str_body_end(s@, pos as int + 1) == str_body_end(s@, a as int),
            str_body_val(s@, pos as int + 1) == out@ + str_body_val(s@, a as int),
        decreases s@.len() - a,
    {
        if a >= s.len() {
            return None;
        }
        let c: u8 = s[a];
        if c == 34 {
            proof {
                assert(str_body_val(s@, a as int) =~= Seq::<u8>::empty());
                assert(out@ + str_body_val(s@, a as int) =~= out@);
            }
            return Some((Expr::String(out), a + 1));
        }
        let vb: u8;
        let ne: usize;
        if c == 92 && a + 1 < s.len() {
            vb = esc_b(s[a + 1]);
            ne = a + 2;
        } else {
            vb = c;
            ne = a + 1;
        }
        proof {
            assert(ne as int == scu_end(s@, a as int));
            assert(vb == scu_val(s@, a as int));
            assert(str_body_val(s@, a as int) =~= seq![vb] + str_body_val(s@, ne as int));
            assert((out@ + seq![vb]) + str_body_val(s@, ne as int) =~= out@ + (seq![vb]
                + str_body_val(s@, ne as int)));
        }
        out.push(vb);
        a = ne;
    }
}

/// Reads a surface type annotation: `[element; size]`, `[element]` (an
/// implicit zero size), or a primitive name.
pub fn parse_var_type(s: &Vec<u8>, pos: usize) -> (r: Option<(TypeExpr, usize)>)
    requires
        pos <= s@.len(),
    ensures
        r matches Some((t, p)) ==> pos < p <= s@.len() && type_end(s@, pos as int) == Some(
            p as int,
        ) && type_matches(s@, pos as int, t),
        r is None ==> type_end(s@, pos as int) is None,
    decreases s@.len() - pos,
{
    if pos < s.len() && s[pos] == 91 {
        let k1 = skip_ws(s, pos + 1);
        match parse_var_type(s, k1) {
            Some((el, k2)) => {
                let k3 = skip_ws(s, k2);
                if k3 < s.len() && s[k3] == 59 {
                    let k4 = skip_ws(s, k3 + 1);
                    let szv: Expr;
                    let k5: usize;
                    if k4 < s.len() && s[k4] == 38 {
                        match parse_ident(s, k4 + 1) {
                            Some((nm, p5)) => {
                                szv = Expr::TestVal(nm);
                                k5 = p5;
                            },
                            None => {
                                return None;
                            },
                        }
                    } else {
                        match parse_digits(s, k4) {
                            Some((t, p5)) => {
                                szv = Expr::Literal(t);
                                k5 = p5;
                            },
                            None => {
                                return None;
                            },
                        }
                    }
                    if k5 < s.len() && s[k5] == 93 {
                        Some((TypeExpr::Array(Box::new(el), Box::new(szv)), k5 + 1))
                    } else {
                        None
                    }
                } else if k3 < s.len() && s[k3] == 93 {
                    let mut z: Vec<u8> = Vec::new();
                    z.push(48);
                    Some((TypeExpr::Array(Box::new(el), Box::new(Expr::Literal(z))), k3 + 1))
                } else {
                    None
                }
            },
            None => None,
        }
    } else {
        match parse_ident(s, pos) {
            Some((nm, p)) => Some((TypeExpr::Ident(nm), p)),
            None => None,
        }
    }
}

/// Reads a comma-separated expression list; an empty list consumes
/// nothing, and a separator is only consumed together with the element
/// that follows it.
fn parse_args(s: &Vec<u8>, pos: usize) -> (r: Option<(Vec<Expr>, usize)>)
    requires
        pos <= s@.len(),
    ensures
        r matches Some((items, p)) ==> pos <= p <= s@.len() && p as int == args_end(
            s@,
            pos as int,
        ),
        r is Some,
    decreases s@.len() - pos, 9int,
{
    let mut items: Vec<Expr> = Vec::new();
    let k1 = skip_ws(s, pos);
    match parse_value(s, k1) {
        None => Some((items, pos)),
        Some((e0, p0)) => {
            let mut cur = skip_ws(s, p0);
            items.push(e0);
            loop
                invariant
                    pos <= cur <= s@.len(),
                    args_end(s@, pos as int) == args_tail(s@, cur as int),
                decreases s@.len() - cur,
            {
                if cur < s.len() && s[cur] == 44 {
                    let k1b = skip_ws(s, cur + 1);
                    match parse_value(s, k1b) {
                        Some((e2, p2)) => {
                            let after = skip_ws(s, p2);
                            items.push(e2);
                            cur = after;
                        },
                        None => {
                            return Some((items, cur));
                        },
                    }
                } else {
                    return Some((items, cur));
                }
            }
        },
    }
}

/// Reads an atom that starts with a name: a call when an opening
/// parenthesis follows the name, otherwise the bare identifier.
#[verifier::rlimit(100)]
fn parse_name_atom(s: &Vec<u8>, pos: usize) -> (r: Option<(Expr, usize)>)
    requires
        pos < s@.len(),
        is_ident_start(s@[pos as int]),
    ensures
        r matches Some((e, p)) ==> pos < p <= s@.len() && atom_end(s@, pos as int) == Some(
            p as int,
        ),
        r is None ==> atom_end(s@, pos as int) is None,
        r matches Some((e, p)) ==> ((e matches Expr::Call(nm, ar)) ==> call_shape(
            s@,
            pos as int,
        )),
        r matches Some((e, p)) ==> (call_shape(s@, pos as int) ==> (e matches Expr::Call(
            nm,
            ar,
        ))),
    decreases s@.len() - pos, 1int,
{
    match parse_ident(s, pos) {
        Some((name, ie)) => {
            let k1 = skip_ws(s, ie);
            if k1 < s.len() && s[k1] == 40 {
                match parse_args(s, k1 + 1) {
                    Some((args, k2)) => {
                        if k2 < s.len() && s[k2] == 41 {
                            proof {
                                assert(call_shape(s@, pos as int));
                            }
                            Some((Expr::Call(name, args), k2 + 1))
                        } else {
                            None
                        }
                    },
                    None => None,
                }
            } else {
                proof {
                    assert(!call_shape(s@, pos as int));
                }
                Some((Expr::Identifier(name), ie))
            }
        },
        None => None,
    }
}

/// Reads an atom: a literal, identifier, call, array literal, marker, or
/// parenthesized sub-expression.
#[verifier::rlimit(100)]
#[verifier::spinoff_prover]
fn parse_atom(s: &Vec<u8>, pos: usize) -> (r: Option<(Expr, usize)>)
    requires
        pos <= s@.len(),
    ensures
        r matches Some((e, p)) ==> pos < p <= s@.len() && atom_end(s@, pos as int) == Some(
            p as int,
        ),
        r is None ==> atom_end(s@, pos as int) is None,
        digit_run_result(s@, pos as int, r),
    decreases s@.len() - pos, 2int,
{
    if pos >= s.len() {
        return None;
    }
    let c: u8 = s[pos];
    if c == 39 {
        parse_char_lit(s, pos)
    } else if c == 34 {
        parse_string_lit(s, pos)
    } else if (97 <= c && c <= 122) || (65 <= c && c <= 90) || c == 95 {
        parse_name_atom(s, pos)
    } else if c == 64 {
        match parse_var_type(s, pos + 1) {
            Some((ty, kt)) => {
                if kt < s.len() && s[kt] == 91 {
                    match parse_args(s, kt + 1) {
                        Some((elems, k2)) => {
                            if k2 < s.len() && s[k2] == 93 {
                                Some((Expr::Array(ty, elems), k2 + 1))
                            } else {
                                None
                            }
                        },
                        None => None,
                    }
                } else {
                    None
                }
            },
            None => None,
        }
    } else if 48 <= c && c <= 57 {
        match parse_digits(s, pos) {
            Some((t, p)) => {
                proof {
                    if all_digits_from(s@, pos as int) {
                        lemma_digits_end_all(s@, pos as int);
                    }
                }
                Some((Expr::Literal(t), p))
            },
            None => None,
        }
    } else if c == 38 {
        match parse_ident(s, pos + 1) {
            Some((name, p)) => Some((Expr::TestVal(name), p)),
            None => None,
        }
    } else if c == 40 {
        let k1 = skip_ws(s, pos + 1);
        match parse_value(s, k1) {
            Some((e, k2)) => {
                if k2 < s.len() && s[k2] == 41 {
                    Some((e, k2 + 1))
                } else {
                    None
                }
            },
            None => None,
        }
    } else {
        None
    }
}

/// Reads an atom followed by any chain of postfix index forms, which
/// bind tighter than every binary operator.
fn parse_post(s: &Vec<u8>, pos: usize) -> (r: Option<(Expr, usize)>)
    requires
        pos <= s@.len(),
    ensures
        r matches Some((e, p)) ==> pos < p <= s@.len() && post_end(s@, pos as int) == Some(
            p as int,
        ),
        r is None ==> post_end(s@, pos as int) is None,
        digit_run_result(s@, pos as int, r),
    decreases s@.len() - pos, 3int,
{
    match parse_atom(s, pos) {
        None => None,
        Some((e0, p0)) => {
            let mut acc = e0;
            let mut cur = p0;
            loop
                invariant
                    pos < cur <= s@.len(),
                    pos <= s@.len(),
                    post_end(s@, pos as int) == Some(post_tail(s@, cur as int)),
                    digit_run_result(s@, pos as int, Some((acc, cur))),
                decreases s@.len() - cur,
            {
                if cur < s.len() && s[cur] == 91 {
                    let k2 = skip_ws(s, cur + 1);
                    match parse_value(s, k2) {
                        Some((idx, k3)) => {
                            let k4 = skip_ws(s, k3);
                            if k4 < s.len() && s[k4] == 93 {
                                acc = Expr::ArrayAccess(Box::new(acc), Box::new(idx), None);
                                cur = k4 + 1;
                            } else {
                                return Some((acc, cur));
                            }
                        },
                        None => {
                            return Some((acc, cur));
                        },
                    }
                } else if cur < s.len() && s[cur] == 64 {
                    match parse_var_type(s, cur + 1) {
                        Some((ty, kt)) => {
                            if kt < s.len() && s[kt] == 91 {
                                let k2 = skip_ws(s, kt + 1);
                                match parse_value(s, k2) {
                                    Some((idx, k3)) => {
                                        let k4 = skip_ws(s, k3);
                                        if k4 < s.len() && s[k4] == 93 {
                                            acc = Expr::ArrayAccess(
                                                Box::new(acc),
                                                Box::new(idx),
                                                Some(ty),
                                            );
                                            cur = k4 + 1;
                                        } else {
                                            return Some((acc, cur));
                                        }
                                    },
                                    None => {
                                        return Some((acc, cur));
                                    },
                                }
                            } else {
                                return Some((acc, cur));
                            }
                        },
                        None => {
                            return Some((acc, cur));
                        },
                    }
                } else {
                    return Some((acc, cur));
                }
            }
        },
    }
}

/// Reads a multiplicative chain, folding `*` and `/` left-associatively.
fn parse_mul(s: &Vec<u8>, pos: usize) -> (r: Option<(Expr, usize)>)
    requires
        pos <= s@.len(),
    ensures
        r matches Some((e, p)) ==> pos < p <= s@.len() && mul_end(s@, pos as int) == Some(
            p as int,
        ),
        r is None ==> mul_end(s@, pos as int) is None,
        digit_run_result(s@, pos as int, r),
    decreases s@.len() - pos, 4int,
{
    match parse_post(s, pos) {
        None => None,
        Some((e0, p0)) => {
            let mut acc = e0;
            let mut cur = p0;
            loop
                invariant
                    pos < cur <= s@.len(),
                    pos <= s@.len(),
                    mul_end(s@, pos as int) == Some(mul_tail(s@, cur as int)),
                    digit_run_result(s@, pos as int, Some((acc, cur))),
                decreases s@.len() - cur,
            {
                let k2 = skip_ws(s, cur);
                if k2 < s.len() && (s[k2] == 42 || s[k2] == 47) {
                    let op: u8 = s[k2];
                    let k3 = skip_ws(s, k2 + 1);
                    match parse_post(s, k3) {
                        Some((rhs, p2)) => {
                            let lb = Box::new(acc);
                            let rb = Box::new(rhs);
                            acc = if op == 42 {
                                Expr::Mul(lb, rb)
                            } else {
                                Expr::Div(lb, rb)
                            };
                            cur = p2;
                        },
                        None => {
                            return Some((acc, cur));
                        },
                    }
                } else {
                    return Some((acc, cur));
                }
            }
        },
    }
}

/// Reads an additive chain, folding `+` and `-` left-associatively.
fn parse_add(s: &Vec<u8>, pos: usize) -> (r: Option<(Expr, usize)>)
    requires
        pos <= s@.len(),
    ensures
        r matches Some((e, p)) ==> pos < p <= s@.len() && add_end(s@, pos as int) == Some(
            p as int,
        ),
        r is None ==> add_end(s@, pos as int) is None,
        digit_run_result(s@, pos as int, r),
    decreases s@.len() - pos, 5int,
{
    match parse_mul(s, pos) {
        None => None,
        Some((e0, p0)) => {
            let mut acc = e0;
            let mut cur = p0;
            loop
                invariant
                    pos < cur <= s@.len(),
                    pos <= s@.len(),
                    add_end(s@, pos as int) == Some(add_tail(s@, cur as int)),
                    digit_run_result(s@, pos as int, Some((acc, cur))),
                decreases s@.len() - cur,
            {
                let k2 = skip_ws(s, cur);
                if k2 < s.len() && (s[k2] == 43 || s[k2] == 45) {
                    let op: u8 = s[k2];
                    let k3 = skip_ws(s, k2 + 1);
                    match parse_mul(s, k3) {
                        Some((rhs, p2)) => {
                            let lb = Box::new(acc);
                            let rb = Box::new(rhs);
                            acc = if op == 43 {
                                Expr::Add(lb, rb)
                            } else {
                                Expr::Sub(lb, rb)
                            };
                            cur = p2;
                        },
                        None => {
                            return Some((acc, cur));
                        },
                    }
                } else {
                    return Some((acc, cur));
                }
            }
        },
    }
}

/// Reads a comparison chain, folding the six comparison operators
/// left-associatively.
fn parse_cmp(s: &Vec<u8>, pos: usize) -> (r: Option<(Expr, usize)>)
    requires
        pos <= s@.len(),
    ensures
        r matches Some((e, p)) ==> pos < p <= s@.len() && cmp_end(s@, pos as int) == Some(
            p as int,
        ),
        r is None ==> cmp_end(s@, pos as int) is None,
        digit_run_result(s@, pos as int, r),
    decreases s@.len() - pos, 6int,
{
    match parse_add(s, pos) {
        None => None,
        Some((e0, p0)) => {
            let mut acc = e0;
            let mut cur = p0;
            loop
                invariant
                    pos < cur <= s@.len(),
                    pos <= s@.len(),
                    cmp_end(s@, pos as int) == Some(cmp_tail(s@, cur as int)),
                    digit_run_result(s@, pos as int, Some((acc, cur))),
                decreases s@.len() - cur,
            {
                let k2 = skip_ws(s, cur);
                let two: bool = k2 < s.len() && k2 + 1 < s.len();
                let wide: bool;
                let tag: u8;
                if two && s[k2] == 61 && s[k2 + 1] == 61 {
                    wide = true;
                    tag = 0;
                } else if two && s[k2] == 33 && s[k2 + 1] == 61 {
                    wide = true;
                    tag = 1;
                } else if two && s[k2] == 60 && s[k2 + 1] == 61 {
                    wide = true;
                    tag = 2;
                } else if two && s[k2] == 62 && s[k2 + 1] == 61 {
                    wide = true;
                    tag = 3;
                } else if k2 < s.len() && s[k2] == 60 {
                    wide = false;
                    tag = 4;
                } else if k2 < s.len() && s[k2] == 62 {
                    wide = false;
                    tag = 5;
                } else {
                    return Some((acc, cur));
                }
                let w: usize = if wide {
                    2
                } else {
                    1
                };
                let k3 = skip_ws(s, k2 + w);
                match parse_add(s, k3) {
                    Some((rhs, p2)) => {
                        let lb = Box::new(acc);
                        let rb = Box::new(rhs);
                        acc = if tag == 0 {
                            Expr::Eq(lb, rb)
                        } else if tag == 1 {
                            Expr::Ne(lb, rb)
                        } else if tag == 2 {
                            Expr::Le(lb, rb)
                        } else if tag == 3 {
                            Expr::Ge(lb, rb)
                        } else if tag == 4 {
                            Expr::Lt(lb, rb)
                        } else {
                            Expr::Gt(lb, rb)
                        };
                        cur = p2;
                    },
                    None => {
                        return Some((acc, cur));
                    },
                }
            }
        },
    }
}

/// Reads a full expression: a logical chain over comparison chains,
/// folded left-associatively. This is the expression grammar's entry
/// point. On an input that is one bare integer literal the parse always
/// succeeds, consumes everything, and yields exactly that literal node:
/// no sign and no radix prefix is ever accepted.
pub fn parse_value(s: &Vec<u8>, pos: usize) -> (r: Option<(Expr, usize)>)
    requires
        pos <= s@.len(),
    ensures
        r matches Some((e, p)) ==> pos < p <= s@.len() && value_end(s@, pos as int) == Some(
            p as int,
        ),
        r is None ==> value_end(s@, pos as int) is None,
        digit_run_result(s@, pos as int, r),
    decreases s@.len() - pos, 7int,
{
    match parse_cmp(s, pos) {
        None => None,
        Some((e0, p0)) => {
            let mut acc = e0;
            let mut cur = p0;
            loop
                invariant
                    pos < cur <= s@.len(),
                    pos <= s@.len(),
                    value_end(s@, pos as int) == Some(value_tail(s@, cur as int)),
                    digit_run_result(s@, pos as int, Some((acc, cur))),
                decreases s@.len() - cur,
            {
                let k2 = skip_ws(s, cur);
                if k2 < s.len() && k2 + 1 < s.len() && ((s[k2] == 38 && s[k2 + 1] == 38) || (s[k2] == 124 && s[k2
                    + 1] == 124)) {
                    let op: u8 = s[k2];
                    let k3 = skip_ws(s, k2 + 2);
                    match parse_cmp(s, k3) {
                        Some((rhs, p2)) => {
                            let lb = Box::new(acc);
                            let rb = Box::new(rhs);
                            acc = if op == 38 {
                                Expr::And(lb, rb)
                            } else {
                                Expr::Or(lb, rb)
                            };
                            cur = p2;
                        },
                        None => {
                            return Some((acc, cur));
                        },
                    }
                } else {
                    return Some((acc, cur));
                }
            }
        },
    }
}



/// Where the `no_mangle` keyword written at `i` ends.
pub open spec fn no_mangle_end(s: Seq<u8>, i: int) -> Option<int> {
    if 0 <= i && i + 9 <= s.len() && s[i] == 110 && s[i + 1] == 111 && s[i + 2] == 95 && s[i + 3]
        == 109 && s[i + 4] == 97 && s[i + 5] == 110 && s[i + 6] == 103 && s[i + 7] == 108 && s[i
        + 8] == 101 {
        Some(i + 9)
    } else {
        None
    }
}

/// Where one modifier written at `k` ends: `no_mangle`, or its synonym
/// `C`.
pub open spec fn mod_item_end(s: Seq<u8>, k: int) -> Option<int> {
    match no_mangle_end(s, k) {
        Some(p) => Some(p),
        None => if 0 <= k && k < s.len() && s[k] == 67 {
            Some(k + 1)
        } else {
            None
        },
    }
}

/// Where the non-empty modifier list starting at `cur` (inside the
/// angle brackets) ends, just after the closing `>`.
pub open spec fn mods_items_end(s: Seq<u8>, cur: int) -> Option<int>
    decreases s.len() - cur,
{
    if !(0 <= cur <= s.len()) {
        None
    } else {
        let k = skip_to(s, cur);
        if !(cur <= k <= s.len()) {
            None
        } else {
            match mod_item_end(s, k) {
                Some(after) => if !(k < after && after <= s.len()) {
                    None
                } else {
                    let k2 = skip_to(s, after);
                    if !(after <= k2 <= s.len()) {
                        None
                    } else if k2 < s.len() && s[k2] == 44 {
                        mods_items_end(s, k2 + 1)
                    } else if k2 < s.len() && s[k2] == 62 {
                        Some(k2 + 1)
                    } else {
                        None
                    }
                },
                None => None,
            }
        }
    }
}

/// Where the modifier list whose `<` stands at `i` ends, if it is well
/// formed.
pub open spec fn mods_end(s: Seq<u8>, i: int) -> Option<int> {
    if 0 <= i && i + 1 < s.len() && s[i + 1] == 62 {
        Some(i + 2)
    } else {
        mods_items_end(s, i + 1)
    }
}

/// Whether the modifier list whose `<` stands at `i` names at least one
/// modifier; an explicitly empty list `<>` does not.
pub open spec fn mods_nonempty(s: Seq<u8>, i: int) -> bool {
    !(0 <= i && i + 1 < s.len() && s[i + 1] == 62)
}

/// The position after the optional modifier list of a function head,
/// where `i` is the byte right after `fn`. A malformed list is not
/// consumed: the name will then fail to parse at the `<`.
pub open spec fn head_mods_end(s: Seq<u8>, i: int) -> int {
    if 0 <= i && i < s.len() && s[i] == 60 {
        match mods_end(s, i) {
            Some(p) => p,
            None => i,
        }
    } else {
        i
    }
}

/// Whether a well-formed modifier list stands on the function head that
/// starts at `i`.
pub open spec fn head_mods_present(s: Seq<u8>, i: int) -> bool {
    0 <= i + 2 && i + 2 < s.len() && s[i + 2] == 60 && mods_end(s, i + 2) is Some
}

/// Where the name of the function head starting at `i` begins.
pub open spec fn head_name_at(s: Seq<u8>, i: int) -> int {
    skip_to(s, head_mods_end(s, i + 2))
}

/// Where one parameter starting at `a` (before its leading skip) ends,
/// after its trailing skip, if it is well formed.
pub open spec fn param_elem_end(s: Seq<u8>, a: int) -> Option<int> {
    if !(0 <= a <= s.len()) {
        None
    } else {
        let k3 = skip_to(s, a);
        if !(a <= k3 <= s.len()) {
            None
        } else if k3 < s.len() && is_ident_start(s[k3]) {
            let ie = ident_end(s, k3 + 1);
            let k4 = skip_to(s, ie);
            if !(k3 < ie && ie <= k4 <= s.len()) {
                None
            } else if k4 < s.len() && s[k4] == 58 {
                let k5 = skip_to(s, k4 + 1);
                if !(k4 + 1 <= k5 <= s.len()) {
                    None
                } else {
                    match type_end(s, k5) {
                        Some(te) => {
                            let e = skip_to(s, te);
                            if k5 < te && te <= e <= s.len() {
                                Some(e)
                            } else {
                                None
                            }
                        },
                        None => None,
                    }
                }
            } else {
                None
            }
        } else {
            None
        }
    }
}

/// How many further parameters follow from `cur2`, and where the list
/// then stops: a separator is only consumed together with a well-formed
/// parameter after it.
pub open spec fn params_scan_tail(s: Seq<u8>, cur2: int) -> (int, int)
    decreases s.len() - cur2,
{
    if 0 <= cur2 && cur2 < s.len() && s[cur2] == 44 {
        match param_elem_end(s, cur2 + 1) {
            Some(e) => if cur2 + 1 <= e && e <= s.len() {
                let r = params_scan_tail(s, e);
                (1 + r.0, r.1)
            } else {
                (0, cur2)
            },
            None => (0, cur2),
        }
    } else {
        (0, cur2)
    }
}

/// How many parameters the list starting right after the opening
/// parenthesis holds, and where it stops; an empty list stops at the
/// opening itself.
pub open spec fn params_scan(s: Seq<u8>, open: int) -> (int, int) {
    match param_elem_end(s, open) {
        Some(e) => if open < e && e <= s.len() {
            let r = params_scan_tail(s, e);
            (1 + r.0, r.1)
        } else {
            (0, open)
        },
        None => (0, open),
    }
}

/// Where the parameter list of the head starting at `i` begins: right
/// after the opening parenthesis.
pub open spec fn head_params_open(s: Seq<u8>, i: int) -> int {
    let hn = head_name_at(s, i);
    skip_to(s, ident_end(s, hn + 1)) + 1
}

/// Where the function head starting at `i` ends (right after the
/// closing parenthesis of the parameter list), if one is written there.
pub open spec fn head_end(s: Seq<u8>, i: int) -> Option<int> {
    if !(0 <= i && i + 1 < s.len() && s[i] == 102 && s[i + 1] == 110) {
        None
    } else {
        let hm = head_mods_end(s, i + 2);
        let k = skip_to(s, hm);
        if !(i + 2 <= hm && hm <= k <= s.len()) {
            None
        } else if k < s.len() && is_ident_start(s[k]) {
            let ie = ident_end(s, k + 1);
            let k2 = skip_to(s, ie);
            if !(k < ie && ie <= k2 <= s.len()) {
                None
            } else if k2 < s.len() && s[k2] == 40 {
                let c2 = params_scan(s, k2 + 1).1;
                if k2 + 1 <= c2 && c2 < s.len() && s[c2] == 41 {
                    Some(c2 + 1)
                } else {
                    None
                }
            } else {
                None
            }
        } else {
            None
        }
    }
}

/// Where the explicit return-type clause written at `k` ends, if one is
/// there.
pub open spec fn ret_clause_end(s: Seq<u8>, k: int) -> Option<int> {
    if 0 <= k && k + 1 < s.len() && s[k] == 45 && s[k + 1] == 62 {
        let k2 = skip_to(s, k + 2);
        if k + 2 <= k2 && k2 < s.len() && s[k2] == 40 {
            match type_end(s, k2 + 1) {
                Some(te) => if k2 + 1 <= te && te < s.len() && s[te] == 41 {
                    Some(te + 1)
                } else {
                    None
                },
                None => None,
            }
        } else {
            None
        }
    } else {
        None
    }
}

/// Where the return type inside the clause written at `k` begins.
pub open spec fn ret_inner_at(s: Seq<u8>, k: int) -> int {
    skip_to(s, k + 2) + 1
}

/// Where the forward function declaration starting at `i` ends: the
/// head, then either an explicit return clause or only the skip after
/// the parameter list.
pub open spec fn def_func_end(s: Seq<u8>, i: int) -> Option<int> {
    match head_end(s, i) {
        Some(ha) => {
            let k = skip_to(s, ha);
            if ha <= k <= s.len() {
                match ret_clause_end(s, k) {
                    Some(p) => Some(p),
                    None => Some(k),
                }
            } else {
                None
            }
        },
        None => None,
    }
}

/// Where the full function definition starting at `i` ends, if one is
/// written there.
pub open spec fn function_end(s: Seq<u8>, i: int) -> Option<int>
    decreases s.len() - i, 10int,
{
    match head_end(s, i) {
        Some(ha) => if 0 <= i && i < ha && ha <= s.len() {
            let k = skip_to(s, ha);
            if !(ha <= k <= s.len()) {
                None
            } else {
                let body_at = match ret_clause_end(s, k) {
                    Some(p) => skip_to(s, p),
                    None => k,
                };
                if i < body_at && body_at < s.len() && s[body_at] == 123 {
                    let bend = stmts_scan(s, body_at + 1).1;
                    let k2 = skip_to(s, bend);
                    if body_at + 1 <= bend && bend <= k2 <= s.len() && k2 < s.len() && s[k2]
                        == 125 {
                        Some(k2 + 1)
                    } else {
                        None
                    }
                } else {
                    None
                }
            }
        } else {
            None
        },
        None => None,
    }
}

/// Where the return statement starting at `i` ends, if one is written
/// there: `return value` (an immediate terminator belongs to it) or
/// bare `return;`.
pub open spec fn return_end(s: Seq<u8>, i: int) -> Option<int>
    decreases s.len() - i, 10int,
{
    if !(0 <= i && i + 6 <= s.len() && s[i] == 114 && s[i + 1] == 101 && s[i + 2] == 116 && s[i
        + 3] == 117 && s[i + 4] == 114 && s[i + 5] == 110) {
        None
    } else {
        let k = skip_to(s, i + 6);
        if !(i + 6 <= k <= s.len()) {
            None
        } else {
            match value_end(s, k) {
                Some(p) => if k < p && p <= s.len() {
                    if p < s.len() && s[p] == 59 {
                        Some(p + 1)
                    } else {
                        Some(p)
                    }
                } else {
                    None
                },
                None => if i + 7 <= s.len() && s[i + 6] == 59 {
                    Some(i + 7)
                } else {
                    None
                },
            }
        }
    }
}

/// Where the while loop starting at `i` ends, if one is written there.
pub open spec fn while_end(s: Seq<u8>, i: int) -> Option<int>
    decreases s.len() - i, 10int,
{
    if !(0 <= i && i + 5 <= s.len() && s[i] == 119 && s[i + 1] == 104 && s[i + 2] == 105 && s[i
        + 3] == 108 && s[i + 4] == 101) {
        None
    } else {
        let k = skip_to(s, i + 5);
        if !(i + 5 <= k <= s.len()) {
            None
        } else {
            match value_end(s, k) {
                Some(ce) => {
                    let k2 = skip_to(s, ce);
                    if k < ce && ce <= k2 <= s.len() && k2 < s.len() && s[k2] == 123 {
                        let bend = stmts_scan(s, k2 + 1).1;
                        let k3 = skip_to(s, bend);
                        if k2 + 1 <= bend && bend <= k3 <= s.len() && k3 < s.len() && s[k3]
                            == 125 {
                            Some(k3 + 1)
                        } else {
                            None
                        }
                    } else {
                        None
                    }
                },
                None => None,
            }
        }
    }
}

/// Where the if statement starting at `i` ends, if one is written
/// there; a malformed else part falls back to the else-less form.
pub open spec fn if_end(s: Seq<u8>, i: int) -> Option<int>
    decreases s.len() - i, 10int,
{
    if !(0 <= i && i + 2 <= s.len() && s[i] == 105 && s[i + 1] == 102) {
        None
    } else {
        let k = skip_to(s, i + 2);
        if !(i + 2 <= k <= s.len()) {
            None
        } else {
            match value_end(s, k) {
                Some(ce) => {
                    let k2 = skip_to(s, ce);
                    if k < ce && ce <= k2 <= s.len() && k2 < s.len() && s[k2] == 123 {
                        let tend = stmts_scan(s, k2 + 1).1;
                        let k3 = skip_to(s, tend);
                        if k2 + 1 <= tend && tend <= k3 <= s.len() && k3 < s.len() && s[k3]
                            == 125 {
                            let q = k3 + 1;
                            let k4 = skip_to(s, q);
                            if q <= k4 && k4 + 4 <= s.len() && s[k4] == 101 && s[k4 + 1] == 108
                                && s[k4 + 2] == 115 && s[k4 + 3] == 101 {
                                let k5 = skip_to(s, k4 + 4);
                                if k4 + 4 <= k5 <= s.len() && k5 < s.len() && s[k5] == 123 {
                                    let eend = stmts_scan(s, k5 + 1).1;
                                    let k6 = skip_to(s, eend);
                                    if k5 + 1 <= eend && eend <= k6 <= s.len() && k6 < s.len()
                                        && s[k6] == 125 {
                                        Some(k6 + 1)
                                    } else {
                                        Some(q)
                                    }
                                } else {
                                    Some(q)
                                }
                            } else {
                                Some(q)
                            }
                        } else {
                            None
                        }
                    } else {
                        None
                    }
                },
                None => None,
            }
        }
    }
}

/// Where the variable declaration starting at `i` ends, if one is
/// written there.
pub open spec fn def_var_end(s: Seq<u8>, i: int) -> Option<int>
    decreases s.len() - i, 10int,
{
    if !(0 <= i && i < s.len() && is_ident_start(s[i])) {
        None
    } else {
        let ie = ident_end(s, i + 1);
        if !(i < ie && ie <= s.len() && ie < s.len() && s[ie] == 58) {
            None
        } else {
            let k = skip_to(s, ie + 1);
            if !(ie + 1 <= k <= s.len()) {
                None
            } else {
                match type_end(s, k) {
                    Some(te) => {
                        let k2 = skip_to(s, te);
                        if k < te && te <= k2 <= s.len() && k2 < s.len() && s[k2] == 61 {
                            let k3 = skip_to(s, k2 + 1);
                            if !(k2 + 1 <= k3 <= s.len()) {
                                None
                            } else {
                                match value_end(s, k3) {
                                    Some(p) => if k3 < p && p <= s.len() {
                                        Some(p)
                                    } else {
                                        None
                                    },
                                    None => None,
                                }
                            }
                        } else {
                            None
                        }
                    },
                    None => None,
                }
            }
        }
    }
}

/// Where the assignment starting at `i` ends, if one is written there.
pub open spec fn assign_end(s: Seq<u8>, i: int) -> Option<int>
    decreases s.len() - i, 10int,
{
    if !(0 <= i <= s.len()) {
        None
    } else {
        match value_end(s, i) {
            Some(le) => {
                let k = skip_to(s, le);
                if i < le && le <= k <= s.len() && k < s.len() && s[k] == 61 {
                    let k3 = skip_to(s, k + 1);
                    if !(k + 1 <= k3 <= s.len()) {
                        None
                    } else {
                        match value_end(s, k3) {
                            Some(p) => if k3 < p && p <= s.len() {
                                Some(p)
                            } else {
                                None
                            },
                            None => None,
                        }
                    }
                } else {
                    None
                }
            },
            None => None,
        }
    }
}

/// Where the bare call statement starting at `i` ends, if one is
/// written there: an atom that is a call.
pub open spec fn call_stmt_end(s: Seq<u8>, i: int) -> Option<int>
    decreases s.len() - i, 10int,
{
    if call_shape(s, i) {
        atom_end(s, i)
    } else {
        None
    }
}

/// Where the statement starting at `i` ends, if one is written there:
/// the alternatives are tried in the grammar's order from the same
/// position.
pub open spec fn stmt_end(s: Seq<u8>, i: int) -> Option<int>
    decreases s.len() - i, 11int,
{
    match function_end(s, i) {
        Some(p) => Some(p),
        None => match return_end(s, i) {
            Some(p) => Some(p),
            None => match def_func_end(s, i) {
                Some(p) => Some(p),
                None => match def_var_end(s, i) {
                    Some(p) => Some(p),
                    None => match while_end(s, i) {
                        Some(p) => Some(p),
                        None => match if_end(s, i) {
                            Some(p) => Some(p),
                            None => match assign_end(s, i) {
                                Some(p) => Some(p),
                                None => call_stmt_end(s, i),
                            },
                        },
                    },
                },
            },
        },
    }
}

/// How many statements the sequence starting at `i` holds, and where it
/// stops: before the first position from which no statement parses,
/// consuming nothing of the failed attempt, not even its leading skip.
pub open spec fn stmts_scan(s: Seq<u8>, i: int) -> (int, int)
    decreases s.len() - i, 12int,
{
    if !(0 <= i <= s.len()) {
        (0, i)
    } else {
        let k = skip_to(s, i);
        if !(i <= k <= s.len()) {
            (0, i)
        } else {
            match stmt_end(s, k) {
                Some(p) => if k < p && p <= s.len() {
                    let r = stmts_scan(s, p);
                    (1 + r.0, r.1)
                } else {
                    (0, i)
                },
                None => (0, i),
            }
        }
    }
}

/// A syntax failure: the whole parse fails atomically, carrying the
/// input position at which no further progress was possible.
#[derive(Debug, Clone, Copy, PartialEq, Eq)]
pub struct ParseError {
    pub pos: usize,
}

/// Head fields shared by function definitions and forward declarations:
/// everything from `fn` through the closing parenthesis of the
/// parameter list.
struct FnHead {
    name: Vec<u8>,
    params: Vec<(Vec<u8>, TypeExpr)>,
    mods: Option<ModifierSet>,
    after: usize,
}

/// Reads the `no_mangle` keyword, returning the position after it.
fn match_no_mangle(s: &Vec<u8>, pos: usize) -> (r: Option<usize>)
    requires
        pos <= s@.len(),
    ensures
        r matches Some(p) ==> pos < p <= s@.len() && no_mangle_end(s@, pos as int) == Some(
            p as int,
        ),
        r is None ==> no_mangle_end(s@, pos as int) is None,
{
    if s.len() - pos >= 9 && s[pos] == 110 && s[pos + 1] == 111 && s[pos + 2] == 95 && s[pos + 3]
        == 109 && s[pos + 4] == 97 && s[pos + 5] == 110 && s[pos + 6] == 103 && s[pos + 7] == 108
        && s[pos + 8] == 101 {
        Some(pos + 9)
    } else {
        None
    }
}

/// Reads a `<...>` modifier list. `C` and `no_mangle` are synonyms for
/// the fixed-linkage modifier; an empty list yields the empty set.
fn parse_mods(s: &Vec<u8>, pos: usize) -> (r: Option<(ModifierSet, usize)>)
    requires
        pos < s@.len(),
        s@[pos as int] == 60,
    ensures
        r matches Some((m, p)) ==> pos < p <= s@.len() && mods_end(s@, pos as int) == Some(
            p as int,
        ) && m.no_mangle == mods_nonempty(s@, pos as int),
        r is None ==> mods_end(s@, pos as int) is None,
{
    let n: usize = s.len();
    let mut ms = ModifierSet::empty();
    let mut cur: usize = pos + 1;
    // an empty list closes immediately, consuming nothing inside
    if cur < n && s[cur] == 62 {
        return Some((ms, cur + 1));
    }
    loop
        invariant
            pos < cur <= s@.len(),
            mods_nonempty(s@, pos as int),
            ms.no_mangle == false || ms.no_mangle == true,
            mods_end(s@, pos as int) == mods_items_end(s@, cur as int),
        decreases s@.len() - cur,
    {
        let k = skip_ws(s, cur);
        let after: usize;
        match match_no_mangle(s, k) {
            Some(p) => {
                after = p;
            },
            None => {
                if k < s.len() && s[k] == 67 {
                    after = k + 1;
                } else {
                    return None;
                }
            },
        }
        ms.insert(FunctionModifier::NoMangle);
        let k2 = skip_ws(s, after);
        if k2 < s.len() && s[k2] == 44 {
            cur = k2 + 1;
        } else if k2 < s.len() && s[k2] == 62 {
            return Some((ms, k2 + 1));
        } else {
            return None;
        }
    }
}

/// Reads one parameter `name: Type` together with its surrounding
/// skips.
fn parse_param(s: &Vec<u8>, pos: usize) -> (r: Option<((Vec<u8>, TypeExpr), usize)>)
    requires
        pos <= s@.len(),
    ensures
        r matches Some((pr, p)) ==> pos < p <= s@.len() && param_elem_end(s@, pos as int) == Some(
            p as int,
        ) && ({
            let k3 = skip_to(s@, pos as int);
            let ie = ident_end(s@, k3 + 1);
            pr.0@ == s@.subrange(k3, ie) && type_matches(
                s@,
                skip_to(s@, skip_to(s@, ie) + 1),
                pr.1,
            )
        }),
        r is None ==> param_elem_end(s@, pos as int) is None,
{
    let k3 = skip_ws(s, pos);
    let (pn, pe) = match parse_ident(s, k3) {
        Some(v) => v,
        None => {
            return None;
        },
    };
    let k4 = skip_ws(s, pe);
    if !(k4 < s.len() && s[k4] == 58) {
        return None;
    }
    let k5 = skip_ws(s, k4 + 1);
    match parse_var_type(s, k5) {
        Some((pt, te)) => {
            let e0: usize = skip_ws(s, te);
            Some(((pn, pt), e0))
        },
        None => None,
    }
}

/// Reads a function head: `fn`, an optional modifier list, the name, and
/// the parenthesized parameter list.
#[verifier::rlimit(100)]
fn parse_fn_head(s: &Vec<u8>, pos: usize) -> (r: Option<FnHead>)
    requires
        pos <= s@.len(),
    ensures
        r matches Some(h) ==> pos < h.after <= s@.len() && head_end(s@, pos as int) == Some(
            h.after as int,
        ) && h.name@ == s@.subrange(
            head_name_at(s@, pos as int),
            ident_end(s@, head_name_at(s@, pos as int) + 1),
        ) && (h.mods matches Some(m) ==> head_mods_present(s@, pos as int) && m.no_mangle
            == mods_nonempty(s@, pos as int + 2)) && (h.mods is None ==> !head_mods_present(
            s@,
            pos as int,
        )) && h.params@.len() == params_scan(s@, head_params_open(s@, pos as int)).0,
        r is None ==> head_end(s@, pos as int) is None,
    decreases s@.len() - pos, 9int,
{
    if !(pos < s.len() && s[pos] == 102 && pos + 1 < s.len() && s[pos + 1] == 110) {
        return None;
    }
    let mut cur: usize = pos + 2;
    let mut mods: Option<ModifierSet> = None;
    if cur < s.len() && s[cur] == 60 {
        match parse_mods(s, cur) {
            Some((m, p)) => {
                mods = Some(m);
                cur = p;
            },
            None => {
            },
        }
    }
    proof {
        assert(cur as int == head_mods_end(s@, pos as int + 2));
    }
    let k = skip_ws(s, cur);
    let (name, ie) = match parse_ident(s, k) {
        Some(v) => v,
        None => {
            return None;
        },
    };
    let k2 = skip_ws(s, ie);
    if !(k2 < s.len() && s[k2] == 40) {
        return None;
    }
    let mut params: Vec<(Vec<u8>, TypeExpr)> = Vec::new();
    let open: usize = k2 + 1;
    proof {
        assert(open as int == head_params_open(s@, pos as int));
    }
    let mut cur2: usize = open;
    // first parameter, if any; on failure nothing of it is consumed
    match parse_param(s, open) {
        Some((pr0, e0)) => {
            params.push(pr0);
            cur2 = e0;
            let mut go: bool = true;
            while go
                invariant
                    open < cur2 <= s@.len(),
                    params@.len() >= 1,
                    params_scan(s@, open as int).0 == params@.len() + params_scan_tail(
                        s@,
                        cur2 as int,
                    ).0,
                    params_scan(s@, open as int).1 == params_scan_tail(s@, cur2 as int).1,
                    !go ==> params_scan_tail(s@, cur2 as int) == (0int, cur2 as int),
                decreases s@.len() - cur2, (if go {
                    1int
                } else {
                    0int
                }),
            {
                if cur2 < s.len() && s[cur2] == 44 {
                    match parse_param(s, cur2 + 1) {
                        Some((pr2, e2)) => {
                            params.push(pr2);
                            cur2 = e2;
                        },
                        None => {
                            go = false;
                        },
                    }
                } else {
                    go = false;
                }
            }
        },
        None => {
        },
    }
    proof {
        assert(params_scan(s@, open as int).0 == params@.len());
        assert(params_scan(s@, open as int).1 == cur2 as int);
    }
    if cur2 < s.len() && s[cur2] == 41 {
        Some(FnHead { name, params, mods, after: cur2 + 1 })
    } else {
        None
    }
}

/// Reads an explicit return-type clause `-> (Type)`, returning the type
/// and the position right after its closing parenthesis.
fn parse_ret_clause(s: &Vec<u8>, pos: usize) -> (r: Option<(TypeExpr, usize)>)
    requires
        pos <= s@.len(),
    ensures
        r matches Some((t, p)) ==> pos < p <= s@.len() && ret_clause_end(s@, pos as int)
            == Some(p as int) && type_matches(s@, ret_inner_at(s@, pos as int), t),
        r is None ==> ret_clause_end(s@, pos as int) is None,
{
    if !(pos < s.len() && s[pos] == 45 && pos + 1 < s.len() && s[pos + 1] == 62) {
        return None;
    }
    let k = skip_ws(s, pos + 2);
    if !(k < s.len() && s[k] == 40) {
        return None;
    }
    match parse_var_type(s, k + 1) {
        Some((t, te)) => {
            if te < s.len() && s[te] == 41 {
                Some((t, te + 1))
            } else {
                None
            }
        },
        None => None,
    }
}

/// Reads a full function definition. An omitted return type is void and
/// an omitted modifier list is the empty set.
fn parse_function(s: &Vec<u8>, pos: usize) -> (r: Option<(Expr, usize)>)
    requires
        pos <= s@.len(),
    ensures
        r matches Some((e, p)) ==> pos < p <= s@.len() && function_end(s@, pos as int)
            == Some(p as int) && (e matches Expr::Function(f) && {
            let hn = head_name_at(s@, pos as int);
            let k = skip_to(s@, head_end(s@, pos as int)->Some_0);
            let body_at = match ret_clause_end(s@, k) {
                Some(pp) => skip_to(s@, pp),
                None => k,
            };
            &&& f.name@ == s@.subrange(hn, ident_end(s@, hn + 1))
            &&& f.modifiers.no_mangle == (if head_mods_present(s@, pos as int) {
                mods_nonempty(s@, pos as int + 2)
            } else {
                false
            })
            &&& f.params@.len() == params_scan(s@, head_params_open(s@, pos as int)).0
            &&& (match ret_clause_end(s@, k) {
                Some(_) => type_matches(s@, ret_inner_at(s@, k), f.return_type),
                None => f.return_type == TypeExpr::Void,
            })
            &&& f.stmts@.len() == stmts_scan(s@, body_at + 1).0
        }),
        r is None ==> function_end(s@, pos as int) is None,
    decreases s@.len() - pos, 10int,
{
    let h = match parse_fn_head(s, pos) {
        Some(h) => h,
        None => {
            return None;
        },
    };
    let k = skip_ws(s, h.after);
    let rt: TypeExpr;
    let body_at: usize;
    match parse_ret_clause(s, k) {
        Some((t, p)) => {
            rt = t;
            body_at = skip_ws(s, p);
        },
        None => {
            rt = TypeExpr::Void;
            body_at = k;
        },
    }
    if !(body_at < s.len() && s[body_at] == 123) {
        return None;
    }
    let (stmts, bend) = parse_stmts(s, body_at + 1);
    let k2 = skip_ws(s, bend);
    if k2 < s.len() && s[k2] == 125 {
        let mods = match h.mods {
            Some(m) => m,
            None => ModifierSet::empty(),
        };
        let f = FunctionExpr { name: h.name, params: h.params, return_type: rt, stmts, modifiers: mods };
        Some((Expr::Function(f), k2 + 1))
    } else {
        None
    }
}

/// Reads a forward function declaration: a head without a body. An
/// omitted return type is void; an omitted modifier list defaults to the
/// fixed-linkage marker, unlike a full definition.
fn parse_def_func(s: &Vec<u8>, pos: usize) -> (r: Option<(Expr, usize)>)
    requires
        pos <= s@.len(),
    ensures
        r matches Some((e, p)) ==> pos < p <= s@.len() && def_func_end(s@, pos as int)
            == Some(p as int) && (e matches Expr::DefFunc(d) && {
            let hn = head_name_at(s@, pos as int);
            let k = skip_to(s@, head_end(s@, pos as int)->Some_0);
            &&& d.name@ == s@.subrange(hn, ident_end(s@, hn + 1))
            &&& d.modifiers.no_mangle == (if head_mods_present(s@, pos as int) {
                mods_nonempty(s@, pos as int + 2)
            } else {
                true
            })
            &&& d.params@.len() == params_scan(s@, head_params_open(s@, pos as int)).0
            &&& (match ret_clause_end(s@, k) {
                Some(_) => type_matches(s@, ret_inner_at(s@, k), d.return_type),
                None => d.return_type == TypeExpr::Void,
            })
        }),
        r is None ==> def_func_end(s@, pos as int) is None,
    decreases s@.len() - pos, 10int,
{
    let h = match parse_fn_head(s, pos) {
        Some(h) => h,
        None => {
            return None;
        },
    };
    let k = skip_ws(s, h.after);
    let rt: TypeExpr;
    let end: usize;
    match parse_ret_clause(s, k) {
        Some((t, p)) => {
            rt = t;
            end = p;
        },
        None => {
            rt = TypeExpr::Void;
            end = k;
        },
    }
    let mods = match h.mods {
        Some(m) => m,
        None => ModifierSet::with_no_mangle(),
    };
    let d = DefFuncExpr { name: h.name, params: h.params, return_type: rt, modifiers: mods };
    Some((Expr::DefFunc(d), end))
}

/// Reads a return statement: `return value` or bare `return;`.
fn parse_return(s: &Vec<u8>, pos: usize) -> (r: Option<(Expr, usize)>)
    requires
        pos <= s@.len(),
    ensures
        r matches Some((e, p)) ==> pos < p <= s@.len() && return_end(s@, pos as int) == Some(
            p as int,
        ),
        r is None ==> return_end(s@, pos as int) is None,
    decreases s@.len() - pos, 10int,
{
    if !(s.len() - pos >= 6 && s[pos] == 114 && s[pos + 1] == 101 && s[pos + 2] == 116 && s[pos
        + 3] == 117 && s[pos + 4] == 114 && s[pos + 5] == 110) {
        return None;
    }
    let k = skip_ws(s, pos + 6);
    match parse_value(s, k) {
        Some((v, p)) => {
            // a terminator right after the value belongs to the statement
            if p < s.len() && s[p] == 59 {
                Some((Expr::Return(Some(Box::new(v))), p + 1))
            } else {
                Some((Expr::Return(Some(Box::new(v))), p))
            }
        },
        None => {
            if s.len() - pos >= 7 && s[pos + 6] == 59 {
                Some((Expr::Return(None), pos + 7))
            } else {
                None
            }
        },
    }
}

/// Reads a while loop `while cond { body }`.
fn parse_while(s: &Vec<u8>, pos: usize) -> (r: Option<(Expr, usize)>)
    requires
        pos <= s@.len(),
    ensures
        r matches Some((e, p)) ==> pos < p <= s@.len() && while_end(s@, pos as int) == Some(
            p as int,
        ),
        r is None ==> while_end(s@, pos as int) is None,
    decreases s@.len() - pos, 10int,
{
    if !(s.len() - pos >= 5 && s[pos] == 119 && s[pos + 1] == 104 && s[pos + 2] == 105 && s[pos
        + 3] == 108 && s[pos + 4] == 101) {
        return None;
    }
    let k = skip_ws(s, pos + 5);
    let (cond, ce) = match parse_value(s, k) {
        Some(v) => v,
        None => {
            return None;
        },
    };
    let k2 = skip_ws(s, ce);
    if !(k2 < s.len() && s[k2] == 123) {
        return None;
    }
    let (body, bend) = parse_stmts(s, k2 + 1);
    let k3 = skip_ws(s, bend);
    if k3 < s.len() && s[k3] == 125 {
        Some((Expr::WhileLoop(Box::new(cond), body), k3 + 1))
    } else {
        None
    }
}

/// Reads an if statement, with or without an else branch; the else-less
/// form carries an empty else-sequence.
fn parse_if(s: &Vec<u8>, pos: usize) -> (r: Option<(Expr, usize)>)
    requires
        pos <= s@.len(),
    ensures
        r matches Some((e, p)) ==> pos < p <= s@.len() && if_end(s@, pos as int) == Some(
            p as int,
        ),
        r is None ==> if_end(s@, pos as int) is None,
    decreases s@.len() - pos, 10int,
{
    if !(s.len() - pos >= 2 && s[pos] == 105 && s[pos + 1] == 102) {
        return None;
    }
    let k = skip_ws(s, pos + 2);
    let (cond, ce) = match parse_value(s, k) {
        Some(v) => v,
        None => {
            return None;
        },
    };
    let k2 = skip_ws(s, ce);
    if !(k2 < s.len() && s[k2] == 123) {
        return None;
    }
    let (then_body, tend) = parse_stmts(s, k2 + 1);
    let k3 = skip_ws(s, tend);
    if !(k3 < s.len() && s[k3] == 125) {
        return None;
    }
    let no_else: usize = k3 + 1;
    let k4 = skip_ws(s, no_else);
    if s.len() - k4 >= 4 && s[k4] == 101 && s[k4 + 1] == 108 && s[k4 + 2] == 115 && s[k4 + 3]
        == 101 {
        let k5 = skip_ws(s, k4 + 4);
        if k5 < s.len() && s[k5] == 123 {
            let (else_body, eend) = parse_stmts(s, k5 + 1);
            let k6 = skip_ws(s, eend);
            if k6 < s.len() && s[k6] == 125 {
                return Some((Expr::IfElse(Box::new(cond), then_body, else_body), k6 + 1));
            }
        }
    }
    let empty_else: Vec<Expr> = Vec::new();
    Some((Expr::IfElse(Box::new(cond), then_body, empty_else), no_else))
}

/// Reads a variable declaration `name: Type = value`.
fn parse_def_var(s: &Vec<u8>, pos: usize) -> (r: Option<(Expr, usize)>)
    requires
        pos <= s@.len(),
    ensures
        r matches Some((e, p)) ==> pos < p <= s@.len() && def_var_end(s@, pos as int) == Some(
            p as int,
        ),
        r is None ==> def_var_end(s@, pos as int) is None,
    decreases s@.len() - pos, 10int,
{
    let (name, ie) = match parse_ident(s, pos) {
        Some(v) => v,
        None => {
            return None;
        },
    };
    if !(ie < s.len() && s[ie] == 58) {
        return None;
    }
    let k = skip_ws(s, ie + 1);
    let (ty, te) = match parse_var_type(s, k) {
        Some(v) => v,
        None => {
            return None;
        },
    };
    let k2 = skip_ws(s, te);
    if !(k2 < s.len() && s[k2] == 61) {
        return None;
    }
    let k3 = skip_ws(s, k2 + 1);
    match parse_value(s, k3) {
        Some((init, p)) => Some((Expr::DefVar((name, ty), Box::new(init)), p)),
        None => None,
    }
}

/// Reads an assignment `target = value`, where the target may be any
/// addressable expression.
fn parse_assign(s: &Vec<u8>, pos: usize) -> (r: Option<(Expr, usize)>)
    requires
        pos <= s@.len(),
    ensures
        r matches Some((e, p)) ==> pos < p <= s@.len() && assign_end(s@, pos as int) == Some(
            p as int,
        ),
        r is None ==> assign_end(s@, pos as int) is None,
    decreases s@.len() - pos, 10int,
{
    let (lhs, le) = match parse_value(s, pos) {
        Some(v) => v,
        None => {
            return None;
        },
    };
    let k = skip_ws(s, le);
    if !(k < s.len() && s[k] == 61) {
        return None;
    }
    let k2 = skip_ws(s, k + 1);
    match parse_value(s, k2) {
        Some((rhs, p)) => Some((Expr::Assign(Box::new(lhs), Box::new(rhs)), p)),
        None => None,
    }
}

/// Reads a bare call used as a statement.
fn parse_call_stmt(s: &Vec<u8>, pos: usize) -> (r: Option<(Expr, usize)>)
    requires
        pos <= s@.len(),
    ensures
        r matches Some((e, p)) ==> pos < p <= s@.len() && call_stmt_end(s@, pos as int)
            == Some(p as int),
        r is None ==> call_stmt_end(s@, pos as int) is None,
    decreases s@.len() - pos, 10int,
{
    if pos < s.len() && ((97 <= s[pos] && s[pos] <= 122) || (65 <= s[pos] && s[pos] <= 90)
        || s[pos] == 95) {
        match parse_name_atom(s, pos) {
            Some((e, p)) => match e {
                Expr::Call(name, args) => Some((Expr::Call(name, args), p)),
                _ => None,
            },
            None => None,
        }
    } else {
        None
    }
}

/// Reads one statement, trying each alternative from the same position.
fn parse_statement(s: &Vec<u8>, pos: usize) -> (r: Option<(Expr, usize)>)
    requires
        pos <= s@.len(),
    ensures
        r matches Some((e, p)) ==> pos < p <= s@.len() && stmt_end(s@, pos as int) == Some(
            p as int,
        ),
        r is None ==> stmt_end(s@, pos as int) is None,
    decreases s@.len() - pos, 11int,
{
    match parse_function(s, pos) {
        Some(v) => {
            return Some(v);
        },
        None => {
        },
    }
    match parse_return(s, pos) {
        Some(v) => {
            return Some(v);
        },
        None => {
        },
    }
    match parse_def_func(s, pos) {
        Some(v) => {
            return Some(v);
        },
        None => {
        },
    }
    match parse_def_var(s, pos) {
        Some(v) => {
            return Some(v);
        },
        None => {
        },
    }
    match parse_while(s, pos) {
        Some(v) => {
            return Some(v);
        },
        None => {
        },
    }
    match parse_if(s, pos) {
        Some(v) => {
            return Some(v);
        },
        None => {
        },
    }
    match parse_assign(s, pos) {
        Some(v) => {
            return Some(v);
        },
        None => {
        },
    }
    parse_call_stmt(s, pos)
}

/// Reads a sequence of statements, each preceded by the skip rule; stops
/// before the first position where no statement starts, consuming
/// nothing of the failed attempt.
fn parse_stmts(s: &Vec<u8>, pos: usize) -> (r: (Vec<Expr>, usize))
    requires
        pos <= s@.len(),
    ensures
        pos <= r.1 <= s@.len(),
        r.1 as int == stmts_scan(s@, pos as int).1,
        r.0@.len() == stmts_scan(s@, pos as int).0,
    decreases s@.len() - pos, 12int,
{
    let mut out: Vec<Expr> = Vec::new();
    let mut cur = pos;
    loop
        invariant
            pos <= cur <= s@.len(),
            stmts_scan(s@, pos as int).0 == out@.len() + stmts_scan(s@, cur as int).0,
            stmts_scan(s@, pos as int).1 == stmts_scan(s@, cur as int).1,
        decreases s@.len() - cur,
    {
        let k = skip_ws(s, cur);
        match parse_statement(s, k) {
            Some((e, p)) => {
                out.push(e);
                cur = p;
            },
            None => {
                return (out, cur);
            },
        }
    }
}

/// Parses a whole program: a sequence of statements covering the entire
/// input. The parse is atomic: either every statement matches and the
/// complete tree is returned, or the whole parse fails and no partial
/// tree is returned. Completed statements are committed: a later failure
/// never re-parses them, and the reported position is where the first
/// unparsable statement starts (after the skip), a deliberate deviation
/// from the furthest-position convention of packrat error reporting.
pub fn parse_file(s: &Vec<u8>) -> (r: Result<Vec<Expr>, ParseError>)
    ensures
        r matches Ok(v) ==> skip_to(s@, stmts_scan(s@, 0).1) == s@.len() && v@.len()
            == stmts_scan(s@, 0).0,
        r matches Err(e) ==> skip_to(s@, stmts_scan(s@, 0).1) < s@.len() && e.pos as int
            == skip_to(s@, stmts_scan(s@, 0).1) && e.pos < s@.len(),
{
    let (stmts, p) = parse_stmts(s, 0);
    let k = skip_ws(s, p);
    if k == s.len() {
        Ok(stmts)
    } else {
        Err(ParseError { pos: k })
    }
}

} // verus!

