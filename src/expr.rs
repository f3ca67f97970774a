use vstd::prelude::*;

use crate::ast::{
    block_view, elifs_view, expr_view, stmt_view, name_view, names_view, node_view, nodes_view, BinOp,
    Block, Expr, ExprV, Literal, Loc, NameV, NodeV, Statement, StmtV,
};
use crate::fs::File;
use crate::span::{is_merge_of, lemma_merge_unique, pos_le, BoxedSpan, RangedPosition, Span};
use crate::tree::{ParseTree, Rule};

verus! {

// What the expression builder makes of a parse tree, stated over the model
// of the AST. `None` stands for a tree whose shape the grammar cannot give.

pub open spec fn min_pos(a: (usize, usize), b: (usize, usize)) -> (usize, usize) {
    if pos_le(a, b) { a } else { b }
}

pub open spec fn max_pos(a: (usize, usize), b: (usize, usize)) -> (usize, usize) {
    if pos_le(a, b) { b } else { a }
}

/// The range covering both `a` and `b`.
pub open spec fn merge2(a: RangedPosition, b: RangedPosition) -> RangedPosition {
    RangedPosition { start: min_pos(a.start, b.start), end: max_pos(a.end, b.end) }
}

/// Binding strength of a binary operator: sums, then products, then powers;
/// -1 for anything that is no operator.
pub open spec fn tier(r: Rule) -> int {
    match r {
        Rule::Add | Rule::Subtract => 0,
        Rule::Multiply | Rule::Divide => 1,
        Rule::Power => 2,
        _ => -1,
    }
}

pub open spec fn binop_of(r: Rule) -> BinOp {
    match r {
        Rule::Add => BinOp::Add,
        Rule::Subtract => BinOp::Sub,
        Rule::Multiply => BinOp::Mul,
        Rule::Divide => BinOp::Div,
        _ => BinOp::Pow,
    }
}

/// The last index in `[lo, j)` holding an operator of tier `level`.
pub open spec fn last_op(items: Seq<ParseTree>, lo: int, j: int, level: int) -> Option<int>
    decreases j - lo,
{
    if j <= lo || j > items.len() {
        None
    } else if tier(items[j - 1].rule) == level {
        Some(j - 1)
    } else {
        last_op(items, lo, j - 1, level)
    }
}

/// The first index in `[j, hi)` holding an operator of tier `level`.
pub open spec fn first_op(items: Seq<ParseTree>, j: int, hi: int, level: int) -> Option<int>
    decreases hi - j,
{
    if j >= hi || j < 0 || hi > items.len() {
        None
    } else if tier(items[j].rule) == level {
        Some(j)
    } else {
        first_op(items, j + 1, hi, level)
    }
}

/// The value of a string of decimal digits, when it is one and fits in `i64`.
pub open spec fn int_value(s: Seq<char>) -> Option<i64>
    decreases s.len(),
{
    if s.len() == 0 {
        None
    } else {
        let d = s.last() as int - '0' as int;
        let prev = if s.len() == 1 { Some(0i64) } else { int_value(s.drop_last()) };
        match prev {
            Some(v) => if 0 <= d <= 9 && v * 10 + d <= i64::MAX {
                Some((v * 10 + d) as i64)
            } else {
                None
            },
            None => None,
        }
    }
}

/// How a term's children divide: the indices of its unary operators and
/// of its argument lists, in order, and of its operand (the last one given).
pub open spec fn scan_term(ch: Seq<ParseTree>) -> Option<(Seq<usize>, Seq<usize>, Option<usize>)>
    decreases ch.len(),
{
    if ch.len() == 0 {
        Some((Seq::empty(), Seq::empty(), None))
    } else {
        let i = (ch.len() - 1) as usize;
        match scan_term(ch.drop_last()) {
            Some((u, c, m)) => match ch.last().rule {
                Rule::Unary => Some((u.push(i), c, m)),
                Rule::FnCall => Some((u, c.push(i), m)),
                Rule::Value | Rule::Expr => Some((u, c, Some(i))),
                _ => None,
            },
            None => None,
        }
    }
}

/// `x` under the unary operator at `ch[i]`.
pub open spec fn spec_not(ch: Seq<ParseTree>, i: usize, x: NodeV, f: File) -> Option<NodeV> {
    if i < ch.len() && ch[i as int].children@.len() > 0
        && ch[i as int].children@[0].rule == Rule::Not {
        Some(NodeV { loc: Loc { range: ch[i as int].children@[0].range, file: f }, expr: ExprV::Not(Box::new(x)) })
    } else {
        None
    }
}

/// Applies the unary operators at the indices `u`, the last one first, so
/// that the first written is the outermost.
pub open spec fn spec_nots(ch: Seq<ParseTree>, u: Seq<usize>, x: NodeV, f: File) -> Option<NodeV>
    decreases u.len(),
{
    if u.len() == 0 {
        Some(x)
    } else {
        match spec_not(ch, u.last(), x, f) {
            Some(y) => spec_nots(ch, u.drop_last(), y, f),
            None => None,
        }
    }
}

/// Expression built from the operator/operand sequence `items`: sums bind
/// loosest, then products, then powers; sums and products group to the
/// left, powers to the right.
#[verifier::opaque]
pub open spec fn spec_climb(items: Seq<ParseTree>, f: File) -> Option<NodeV>
    decreases items, items.len() + 1, 0int,
{
    spec_build(items, 0, items.len() as int, 0, f)
}

/// `items[lo..hi]`, which holds no operator below tier `level`. For tiers
/// that group to the left it splits at the last operator of the tier, for
/// powers at the first.
pub open spec fn spec_build(items: Seq<ParseTree>, lo: int, hi: int, level: int, f: File) -> Option<NodeV>
    decreases items, hi - lo, 3 - level,
{
    if !(0 <= lo < hi <= items.len()) || level < 0 {
        None
    } else if level >= 3 {
        if hi == lo + 1 {
            spec_operand(items[lo], f)
        } else {
            None
        }
    } else {
        let k = if level < 2 { last_op(items, lo, hi, level) } else { first_op(items, lo, hi, level) };
        match k {
            None => spec_build(items, lo, hi, level + 1, f),
            Some(k) => if lo <= k < hi {
                let l = spec_build(items, lo, k, if level < 2 { level } else { level + 1 }, f);
                let r = spec_build(items, k + 1, hi, if level < 2 { level + 1 } else { level }, f);
                match (l, r) {
                    (Some(l), Some(r)) => Some(NodeV {
                        loc: Loc { range: merge2(l.loc.range, r.loc.range), file: f },
                        expr: ExprV::Binary(
                            binop_of(items[k].rule),
                            Box::new(l),
                            Loc { range: items[k].range, file: f },
                            Box::new(r),
                        ),
                    }),
                    _ => None,
                }
            } else {
                None
            },
        }
    }
}

/// An operand: a parenthesised expression or a term.
pub open spec fn spec_operand(t: ParseTree, f: File) -> Option<NodeV>
    decreases t, 1int, 0int,
{
    match t.rule {
        Rule::Expr => spec_climb(t.children@, f),
        Rule::Term => spec_term(t, f),
        _ => None,
    }
}

/// A term: its operand, then its argument lists applied left to right,
/// then its unary operators.
pub open spec fn spec_term(t: ParseTree, f: File) -> Option<NodeV>
    decreases t, 0int, 0int,
{
    let ch = t.children@;
    match scan_term(ch) {
        Some((u, c, Some(m))) => if m < ch.len() {
            let mid = if ch[m as int].rule == Rule::Value {
                spec_value(ch[m as int], f)
            } else {
                spec_climb(ch[m as int].children@, f)
            };
            match mid {
                Some(mid) => match spec_calls(ch, c, mid, f) {
                    Some(x) => spec_nots(ch, u, x, f),
                    None => None,
                },
                None => None,
            }
        } else {
            None
        },
        _ => None,
    }
}

/// `mid` called with the argument lists at indices `c`, in order; each call
/// spans the callee and its argument list.
pub open spec fn spec_calls(ch: Seq<ParseTree>, c: Seq<usize>, mid: NodeV, f: File) -> Option<NodeV>
    decreases ch, c.len(), 0int,
{
    if c.len() == 0 {
        Some(mid)
    } else if c.last() < ch.len() {
        match spec_calls(ch, c.drop_last(), mid, f) {
            Some(callee) => {
                let call = ch[c.last() as int];
                match spec_args(call.children@, call.children@.len() as int, f) {
                    Some(a) => Some(NodeV {
                        loc: Loc { range: merge2(callee.loc.range, call.range), file: f },
                        expr: ExprV::Call(Box::new(callee), a),
                    }),
                    None => None,
                }
            },
            None => None,
        }
    } else {
        None
    }
}

/// The arguments `ch[0..end]`, each an expression.
pub open spec fn spec_args(ch: Seq<ParseTree>, end: int, f: File) -> Option<Seq<NodeV>>
    decreases ch, end, 0int,
{
    if end <= 0 || end > ch.len() {
        if end == 0 { Some(Seq::empty()) } else { None }
    } else {
        match (spec_args(ch, end - 1, f), spec_climb(ch[end - 1].children@, f)) {
            (Some(a), Some(x)) => Some(a.push(x)),
            _ => None,
        }
    }
}

/// One statement of a block: its expression, and whether it is the block's
/// value.
pub open spec fn spec_stmt(s: ParseTree, f: File) -> Option<StmtV>
    decreases s, 0int, 0int,
{
    match spec_climb(s.children@, f) {
        Some(x) => if s.rule == Rule::Statement {
            Some(StmtV { loc: x.loc, returning: true, expr: x.expr })
        } else if s.rule == Rule::NonReturningStatement {
            Some(StmtV { loc: x.loc, returning: false, expr: x.expr })
        } else {
            None
        },
        None => None,
    }
}

/// The statements `ch[0..end]` of a block.
pub open spec fn spec_stmts(ch: Seq<ParseTree>, end: int, f: File) -> Option<Seq<StmtV>>
    decreases ch, end, 0int,
{
    if end <= 0 || end > ch.len() {
        if end == 0 { Some(Seq::empty()) } else { None }
    } else {
        match (spec_stmts(ch, end - 1, f), spec_stmt(ch[end - 1], f)) {
            (Some(a), Some(x)) => Some(a.push(x)),
            _ => None,
        }
    }
}

/// The block made of the children of `t`.
pub open spec fn spec_block(t: ParseTree, f: File) -> Option<Seq<StmtV>>
    decreases t, 0int, 0int,
{
    spec_stmts(t.children@, t.children@.len() as int, f)
}

/// The `elseif` and `else` clauses `ch[2..end]` of an if-expression: the
/// `elseif` ones in order, and the last `else`.
pub open spec fn spec_clauses(ch: Seq<ParseTree>, end: int, f: File)
    -> Option<(Seq<(NodeV, Seq<StmtV>)>, Option<Seq<StmtV>>)>
    decreases ch, end, 0int,
{
    if end <= 2 || end > ch.len() {
        if end == 2 { Some((Seq::empty(), None)) } else { None }
    } else {
        let cl = ch[end - 1];
        match spec_clauses(ch, end - 1, f) {
            Some((elifs, els)) => if cl.rule == Rule::ElseifClause && cl.children@.len() >= 2 {
                match (spec_climb(cl.children@[0].children@, f), spec_block(cl.children@[1], f)) {
                    (Some(c), Some(b)) => Some((elifs.push((c, b)), els)),
                    _ => None,
                }
            } else if cl.rule == Rule::ElseClause && cl.children@.len() >= 1 {
                match spec_block(cl.children@[0], f) {
                    Some(b) => Some((elifs, Some(b))),
                    None => None,
                }
            } else {
                None
            },
            None => None,
        }
    }
}

/// An if-expression: condition, block, then its clauses.
pub open spec fn spec_if(t: ParseTree, f: File) -> Option<ExprV>
    decreases t, 0int, 0int,
{
    let ch = t.children@;
    if ch.len() < 2 {
        None
    } else {
        match (spec_climb(ch[0].children@, f), spec_block(ch[1], f), spec_clauses(ch, ch.len() as int, f)) {
            (Some(c), Some(b), Some((elifs, els))) => Some(ExprV::If(Box::new(c), b, elifs, els)),
            _ => None,
        }
    }
}

/// The segments of a path, each with its place.
pub open spec fn spec_path(ch: Seq<ParseTree>, f: File) -> Seq<NameV> {
    ch.map_values(|x: ParseTree| NameV { loc: Loc { range: x.range, file: f }, name: x.text@ })
}

/// A value: a literal, an if-expression or a path, placed where its one
/// child stands.
pub open spec fn spec_value(t: ParseTree, f: File) -> Option<NodeV>
    decreases t, 0int, 0int,
{
    if t.children@.len() == 0 {
        None
    } else {
        let c = t.children@[0];
        let loc = Loc { range: c.range, file: f };
        match c.rule {
            Rule::Int => match int_value(c.text@) {
                Some(v) => Some(NodeV { loc, expr: ExprV::Int(v) }),
                None => None,
            },
            Rule::Float => Some(NodeV { loc, expr: ExprV::Float(c.text@) }),
            Rule::StringContent => Some(NodeV { loc, expr: ExprV::Str(c.text@) }),
            Rule::IfStatement => match spec_if(c, f) {
                Some(e) => Some(NodeV { loc, expr: e }),
                None => None,
            },
            Rule::Ident => Some(NodeV { loc, expr: ExprV::Ident(spec_path(c.children@, f)) }),
            _ => None,
        }
    }
}

pub open spec fn opt_node(r: Option<BoxedSpan<Expr>>) -> Option<NodeV> {
    match r {
        Some(n) => Some(node_view(n)),
        None => None,
    }
}

/// `merge2` is the merge of two ranges: a span merged from two has
/// exactly the range `merge2` gives.
pub proof fn lemma_merge2(a: RangedPosition, b: RangedPosition, x: RangedPosition)
    requires
        is_merge_of(x, seq![a, b]),
    ensures
        x == merge2(a, b),
{
    let s = seq![a, b];
    let m = merge2(a, b);
    assert(s[0] == a && s[1] == b);
    if pos_le(a.start, b.start) {
        assert(s[0].start == m.start);
    } else {
        assert(s[1].start == m.start);
    }
    if pos_le(a.end, b.end) {
        assert(s[1].end == m.end);
    } else {
        assert(s[0].end == m.end);
    }
    assert(is_merge_of(m, s));
    lemma_merge_unique(x, m, s);
}

/// A span covering the two ranges `a` and `b`.
fn merged<T>(a: RangedPosition, b: RangedPosition, file: &File, content: T) -> (r: BoxedSpan<T>)
    ensures
        r.range == merge2(a, b),
        r.file == *file,
        *r.content == content,
{
    let v = vec![a, b];
    let r = Span::boxed_from_inner(v.as_slice(), file.clone(), content);
    proof {
        assert(v@ =~= seq![a, b]);
        lemma_merge2(a, b, r.range);
    }
    r
}

fn tier_of(r: Rule) -> (t: i8)
    ensures
        t == tier(r),
{
    match r {
        Rule::Add | Rule::Subtract => 0,
        Rule::Multiply | Rule::Divide => 1,
        Rule::Power => 2,
        _ => -1,
    }
}

fn find_last_op(items: &Vec<ParseTree>, lo: usize, hi: usize, level: i8) -> (r: Option<usize>)
    requires
        lo <= hi <= items@.len(),
    ensures
        match r {
            Some(k) => last_op(items@, lo as int, hi as int, level as int) == Some(k as int),
            None => last_op(items@, lo as int, hi as int, level as int) is None,
        },
{
    let mut j = hi;
    while j > lo
        invariant
            lo <= j <= hi <= items@.len(),
            last_op(items@, lo as int, hi as int, level as int) == last_op(items@, lo as int, j as int, level as int),
        decreases j,
    {
        if tier_of(items[j - 1].rule) == level {
            return Some(j - 1);
        }
        j = j - 1;
    }
    None
}

fn find_first_op(items: &Vec<ParseTree>, lo: usize, hi: usize, level: i8) -> (r: Option<usize>)
    requires
        lo <= hi <= items@.len(),
    ensures
        match r {
            Some(k) => first_op(items@, lo as int, hi as int, level as int) == Some(k as int),
            None => first_op(items@, lo as int, hi as int, level as int) is None,
        },
{
    let mut j = lo;
    while j < hi
        invariant
            lo <= j <= hi <= items@.len(),
            first_op(items@, lo as int, hi as int, level as int) == first_op(items@, j as int, hi as int, level as int),
        decreases hi - j,
    {
        if tier_of(items[j].rule) == level {
            return Some(j);
        }
        j = j + 1;
    }
    None
}

/// The value of a decimal literal, when it fits in `i64`.
pub fn parse_int(s: &String) -> (r: Option<i64>)
    ensures
        r == int_value(s@),
{
    let t = s.as_str();
    let n = t.unicode_len();
    if n == 0 {
        return None;
    }
    let mut acc: i64 = 0;
    let mut i: usize = 0;
    while i < n
        invariant
            n == t@.len(),
            t@ == s@,
            0 < n,
            i <= n,
            i == 0 ==> acc == 0,
            i > 0 ==> int_value(t@.subrange(0, i as int)) == Some(acc),
            acc >= 0,
        decreases n - i,
    {
        let c = t.get_char(i);
        proof {
            let p = t@.subrange(0, i + 1);
            assert(p.drop_last() =~= t@.subrange(0, i as int));
            assert(p.last() == c);
        }
        if c < '0' || c > '9' {
            proof {
                lemma_int_value_prefix(t@, i + 1);
            }
            return None;
        }
        let d: i64 = (c as u32 - '0' as u32) as i64;
        if acc > (i64::MAX - d) / 10 {
            proof {
                lemma_int_value_prefix(t@, i + 1);
            }
            return None;
        }
        acc = acc * 10 + d;
        i = i + 1;
    }
    assert(t@.subrange(0, n as int) =~= t@);
    Some(acc)
}

/// Once a prefix has no value, no longer prefix has one.
proof fn lemma_int_value_prefix(s: Seq<char>, i: int)
    requires
        0 < i <= s.len(),
        int_value(s.subrange(0, i)) is None,
    ensures
        int_value(s) is None,
    decreases s.len() - i,
{
    if i < s.len() {
        let p = s.subrange(0, i + 1);
        assert(p.drop_last() =~= s.subrange(0, i));
        lemma_int_value_prefix(s, i + 1);
    } else {
        assert(s.subrange(0, i) =~= s);
    }
}

/// Builds the expression of the operator/operand sequence `items` (the
/// children of an `expr` node), grouping by precedence and associativity.
#[verifier::spinoff_prover]
pub fn eval_expr(items: &Vec<ParseTree>, file: &File) -> (r: Option<BoxedSpan<Expr>>)
    ensures
        opt_node(r) == spec_climb(items@, *file),
    decreases items@, items@.len() + 1, 0int,
{
    proof {
        reveal(spec_climb);
    }
    build_level(items, 0, items.len(), 0, file)
}

#[verifier::spinoff_prover]
fn build_level(items: &Vec<ParseTree>, lo: usize, hi: usize, level: i8, file: &File) -> (r: Option<BoxedSpan<Expr>>)
    requires
        0 <= level,
    ensures
        opt_node(r) == spec_build(items@, lo as int, hi as int, level as int, *file),
    decreases items@, hi - lo, 3 - level,
{
    if !(lo < hi && hi <= items.len()) {
        return None;
    }
    if level >= 3 {
        if hi == lo + 1 {
            return build_operand(&items[lo], file);
        } else {
            return None;
        }
    }
    let k = if level < 2 { find_last_op(items, lo, hi, level) } else { find_first_op(items, lo, hi, level) };
    match k {
        None => build_level(items, lo, hi, level + 1, file),
        Some(k) => {
            if !(lo <= k && k < hi) {
                return None;
            }
            let l = build_level(items, lo, k, if level < 2 { level } else { level + 1 }, file);
            let r = build_level(items, k + 1, hi, if level < 2 { level + 1 } else { level }, file);
            match (l, r) {
                (Some(l), Some(r)) => {
                    let lr = l.range;
                    let rr = r.range;
                    let op = Span::new(items[k].range, file.clone(), ());
                    let e = match items[k].rule {
                        Rule::Add => Expr::Add(l, op, r),
                        Rule::Subtract => Expr::Sub(l, op, r),
                        Rule::Multiply => Expr::Mul(l, op, r),
                        Rule::Divide => Expr::Div(l, op, r),
                        _ => Expr::Pow(l, op, r),
                    };
                    Some(merged(lr, rr, file, e))
                },
                _ => None,
            }
        },
    }
}

#[verifier::spinoff_prover]
fn build_operand(t: &ParseTree, file: &File) -> (r: Option<BoxedSpan<Expr>>)
    ensures
        opt_node(r) == spec_operand(*t, *file),
    decreases *t, 1int, 0int,
{
    match t.rule {
        Rule::Expr => eval_expr(&t.children, file),
        Rule::Term => parse_term(t, file),
        _ => None,
    }
}

/// Builds a term: its operand, the calls that follow it, then the unary
/// operators before it.
#[verifier::spinoff_prover]
pub fn parse_term(t: &ParseTree, file: &File) -> (r: Option<BoxedSpan<Expr>>)
    ensures
        opt_node(r) == spec_term(*t, *file),
    decreases *t, 0int, 0int,
{
    let ch = &t.children;
    let mut unary: Vec<usize> = Vec::new();
    let mut calls: Vec<usize> = Vec::new();
    let mut middle: Option<usize> = None;
    let mut i: usize = 0;
    while i < ch.len()
        invariant
            ch@ == t.children@,
            i <= ch@.len(),
            scan_term(ch@.subrange(0, i as int)) == Some((unary@, calls@, middle)),
            forall|j: int| 0 <= j < calls@.len() ==> calls@[j] < ch@.len(),
            forall|j: int| 0 <= j < unary@.len() ==> unary@[j] < ch@.len(),
            middle matches Some(m) ==> m < ch@.len(),
        decreases ch@.len() - i,
    {
        proof {
            assert(ch@.subrange(0, i + 1).drop_last() =~= ch@.subrange(0, i as int));
        }
        match ch[i].rule {
            Rule::Unary => unary.push(i),
            Rule::FnCall => calls.push(i),
            Rule::Value | Rule::Expr => middle = Some(i),
            _ => {
                proof {
                    assert(scan_term(ch@.subrange(0, i + 1)) is None);
                    lemma_scan_prefix(ch@, i + 1);
                    assert(spec_term(*t, *file) is None);
                }
                return None;
            },
        }
        i = i + 1;
    }
    assert(ch@.subrange(0, ch@.len() as int) =~= ch@);
    let m = match middle {
        Some(m) => m,
        None => return None,
    };
    let mid = if ch[m].rule == Rule::Value {
        parse_value(&ch[m], file)
    } else {
        eval_expr(&ch[m].children, file)
    };
    let mut cur = match mid {
        Some(x) => x,
        None => return None,
    };
    let ghost mid_v = node_view(cur);
    assert(spec_term(*t, *file) == match spec_calls(ch@, calls@, mid_v, *file) {
        Some(x) => spec_nots(ch@, unary@, x, *file),
        None => None,
    });
    assert(calls@.subrange(0, 0) =~= Seq::<usize>::empty());
    let mut j: usize = 0;
    while j < calls.len()
        invariant
            ch@ == t.children@,
            j <= calls@.len(),
            spec_term(*t, *file) == match spec_calls(ch@, calls@, mid_v, *file) {
                Some(x) => spec_nots(ch@, unary@, x, *file),
                None => None,
            },
            forall|q: int| 0 <= q < calls@.len() ==> calls@[q] < ch@.len(),
            spec_calls(ch@, calls@.subrange(0, j as int), mid_v, *file) == Some(node_view(cur)),
        decreases calls@.len() - j,
    {
        let call = &ch[calls[j]];
        proof {

            assert(calls@.subrange(0, j + 1).drop_last() =~= calls@.subrange(0, j as int));
        }
        proof {
            let q = calls@[j as int] as int;
            assert(decreases_to!(*t => t.children@));
            assert(decreases_to!(t.children@ => t.children@[q]));
            assert(decreases_to!(t.children@[q] => t.children@[q].children@));
        }
        let args = match parse_args(&call.children, file) {
            Some(a) => a,
            None => {
                proof {
                    lemma_calls_prefix(ch@, calls@, j as int + 1, mid_v, *file);
                }
                return None;
            },
        };
        let callee_range = cur.range;
        cur = merged(callee_range, call.range, file, Expr::FnCall(cur, args));
        j = j + 1;
    }
    assert(calls@.subrange(0, calls@.len() as int) =~= calls@);
    assert(unary@.subrange(0, unary@.len() as int) =~= unary@);
    let mut k: usize = unary.len();
    while k > 0
        invariant
            ch@ == t.children@,
            k <= unary@.len(),
            forall|q: int| 0 <= q < unary@.len() ==> unary@[q] < ch@.len(),
            spec_term(*t, *file) == spec_nots(ch@, unary@.subrange(0, k as int), node_view(cur), *file),
        decreases k,
    {
        proof {
            assert(unary@.subrange(0, k as int).drop_last() =~= unary@.subrange(0, k - 1));
        }
        let u = &ch[unary[k - 1]];
        if u.children.len() == 0 || u.children[0].rule != Rule::Not {
            return None;
        }
        cur = Span::boxed(u.children[0].range, file.clone(), Expr::Not(cur));
        k = k - 1;
    }
    Some(cur)
}

/// A call that fails fails every longer chain of calls.
proof fn lemma_calls_prefix(ch: Seq<ParseTree>, c: Seq<usize>, i: int, mid: NodeV, f: File)
    requires
        0 <= i <= c.len(),
        forall|q: int| 0 <= q < c.len() ==> c[q] < ch.len(),
        spec_calls(ch, c.subrange(0, i), mid, f) is None,
    ensures
        spec_calls(ch, c, mid, f) is None,
    decreases c.len() - i,
{
    if i < c.len() {
        assert(c.subrange(0, i + 1).drop_last() =~= c.subrange(0, i));
        lemma_calls_prefix(ch, c, i + 1, mid, f);
    } else {
        assert(c.subrange(0, i) =~= c);
    }
}

/// A failed scan of a prefix fails the whole scan.
proof fn lemma_scan_prefix(ch: Seq<ParseTree>, i: int)
    requires
        0 <= i <= ch.len(),
        scan_term(ch.subrange(0, i)) is None,
    ensures
        scan_term(ch) is None,
    decreases ch.len() - i,
{
    if i < ch.len() {
        assert(ch.subrange(0, i + 1).drop_last() =~= ch.subrange(0, i));
        lemma_scan_prefix(ch, i + 1);
    } else {
        assert(ch.subrange(0, i) =~= ch);
    }
}

/// The arguments of a call, each an expression.
#[verifier::spinoff_prover]
fn parse_args(ch: &Vec<ParseTree>, file: &File) -> (r: Option<Vec<BoxedSpan<Expr>>>)
    ensures
        match r {
            Some(v) => spec_args(ch@, ch@.len() as int, *file) == Some(nodes_view(v@)),
            None => spec_args(ch@, ch@.len() as int, *file) is None,
        },
    decreases ch@, 0int, 0int,
{
    let mut v: Vec<BoxedSpan<Expr>> = Vec::new();
    let mut i: usize = 0;
    while i < ch.len()
        invariant
            i <= ch@.len(),
            spec_args(ch@, i as int, *file) == Some(nodes_view(v@)),
        decreases ch@.len() - i,
    {
        match eval_expr(&ch[i].children, file) {
            Some(x) => {
                let ghost old_v = v@;
                v.push(x);
                proof {
                    assert(v@.drop_last() =~= old_v);
                }
            },
            None => {
                proof {
                    lemma_args_prefix(ch@, i as int + 1, *file);
                }
                return None;
            },
        }
        i = i + 1;
    }
    Some(v)
}

proof fn lemma_args_prefix(ch: Seq<ParseTree>, i: int, f: File)
    requires
        0 <= i <= ch.len(),
        spec_args(ch, i, f) is None,
    ensures
        spec_args(ch, ch.len() as int, f) is None,
    decreases ch.len() - i,
{
    if i < ch.len() {
        lemma_args_prefix(ch, i + 1, f);
    }
}

proof fn lemma_stmts_prefix(ch: Seq<ParseTree>, i: int, f: File)
    requires
        0 <= i <= ch.len(),
        spec_stmts(ch, i, f) is None,
    ensures
        spec_stmts(ch, ch.len() as int, f) is None,
    decreases ch.len() - i,
{
    if i < ch.len() {
        lemma_stmts_prefix(ch, i + 1, f);
    }
}

proof fn lemma_clauses_prefix(ch: Seq<ParseTree>, i: int, f: File)
    requires
        2 <= i <= ch.len(),
        spec_clauses(ch, i, f) is None,
    ensures
        spec_clauses(ch, ch.len() as int, f) is None,
    decreases ch.len() - i,
{
    if i < ch.len() {
        lemma_clauses_prefix(ch, i + 1, f);
    }
}

/// Builds the block made of the children of `t`.
#[verifier::spinoff_prover]
pub fn parse_block(t: &ParseTree, file: &File) -> (r: Option<Block>)
    ensures
        match r {
            Some(b) => spec_block(*t, *file) == Some(block_view(b@)),
            None => spec_block(*t, *file) is None,
        },
    decreases *t, 0int, 0int,
{
    let ch = &t.children;
    let mut v: Block = Vec::new();
    let mut i: usize = 0;
    while i < ch.len()
        invariant
            ch@ == t.children@,
            i <= ch@.len(),
            spec_stmts(ch@, i as int, *file) == Some(block_view(v@)),
        decreases ch@.len() - i,
    {
        proof {
            assert(decreases_to!(*t => t.children@));
            assert(decreases_to!(t.children@ => t.children@[i as int]));
        }
        match build_stmt(&ch[i], file) {
            Some(x) => {
                let ghost old_v = v@;
                v.push(x);
                proof {
                    assert(v@.drop_last() =~= old_v);
                }
            },
            None => {
                proof {
                    lemma_stmts_prefix(ch@, i as int + 1, *file);
                }
                return None;
            },
        }
        i = i + 1;
    }
    Some(v)
}

#[verifier::spinoff_prover]
fn build_stmt(s: &ParseTree, file: &File) -> (r: Option<BoxedSpan<Statement>>)
    ensures
        match r {
            Some(x) => spec_stmt(*s, *file) == Some(stmt_view(x)),
            None => spec_stmt(*s, *file) is None,
        },
    decreases *s, 0int, 0int,
{
    let x = match eval_expr(&s.children, file) {
        Some(x) => x,
        None => return None,
    };
    let ghost xv = node_view(x);
    assert(spec_climb(s.children@, *file) == Some(xv));
    let returning = if s.rule == Rule::Statement {
        true
    } else if s.rule == Rule::NonReturningStatement {
        false
    } else {
        return None;
    };
    let ghost sv = StmtV { loc: xv.loc, returning, expr: xv.expr };
    assert(spec_stmt(*s, *file) == Some(sv));
    let Span { range, file: f, content } = x;
    let stmt = if returning {
        Statement::Returning(*content)
    } else {
        Statement::NonReturning(*content)
    };
    let res = Span { range, file: f, content: Box::new(stmt) };
    assert(stmt_view(res) == sv);
    Some(res)
}

/// Builds an if-expression from its condition, block and clauses.
#[verifier::spinoff_prover]
fn parse_if(t: &ParseTree, file: &File) -> (r: Option<Expr>)
    ensures
        match r {
            Some(e) => spec_if(*t, *file) == Some(expr_view(e)),
            None => spec_if(*t, *file) is None,
        },
    decreases *t, 0int, 0int,
{
    let ch = &t.children;
    if ch.len() < 2 {
        return None;
    }
    let condition = match eval_expr(&ch[0].children, file) {
        Some(c) => c,
        None => return None,
    };
    let block = match parse_block(&ch[1], file) {
        Some(b) => b,
        None => return None,
    };
    let mut elifs: Vec<(BoxedSpan<Expr>, Block)> = Vec::new();
    let mut els: Option<Block> = None;
    let mut i: usize = 2;
    while i < ch.len()
        invariant
            ch@ == t.children@,
            2 <= i <= ch@.len(),
            spec_clauses(ch@, i as int, *file) == Some((elifs_view(elifs@), match els {
                Some(x) => Some(block_view(x@)),
                None => None,
            })),
        decreases ch@.len() - i,
    {
        let cl = &ch[i];
        if cl.rule == Rule::ElseifClause && cl.children.len() >= 2 {
            proof {
                assert(decreases_to!(*t => ch@[i as int]));
                assert(decreases_to!(ch@[i as int] => cl.children@[0]));
            }
            let c = eval_expr(&cl.children[0].children, file);
            let b = parse_block(&cl.children[1], file);
            match (c, b) {
                (Some(c), Some(b)) => {
                    let ghost old_e = elifs@;
                    elifs.push((c, b));
                    proof {
                        assert(elifs@.drop_last() =~= old_e);
                    }
                },
                _ => {
                    proof {
                        lemma_clauses_prefix(ch@, i as int + 1, *file);
                    }
                    return None;
                },
            }
        } else if cl.rule == Rule::ElseClause && cl.children.len() >= 1 {
            match parse_block(&cl.children[0], file) {
                Some(b) => els = Some(b),
                None => {
                    proof {
                        lemma_clauses_prefix(ch@, i as int + 1, *file);
                    }
                    return None;
                },
            }
        } else {
            proof {
                lemma_clauses_prefix(ch@, i as int + 1, *file);
            }
            return None;
        }
        i = i + 1;
    }
    Some(Expr::If(condition, block, elifs, els))
}

/// The segments of a path.
#[verifier::spinoff_prover]
pub fn parse_path(t: &ParseTree, file: &File) -> (r: Vec<Span<String>>)
    ensures
        names_view(r@) == spec_path(t.children@, *file),
{
    let ch = &t.children;
    let mut v: Vec<Span<String>> = Vec::new();
    let mut i: usize = 0;
    while i < ch.len()
        invariant
            ch@ == t.children@,
            i <= ch@.len(),
            v@.len() == i,
            forall|j: int| 0 <= j < i ==> name_view(#[trigger] v@[j]) == (NameV {
                loc: Loc { range: ch@[j].range, file: *file },
                name: ch@[j].text@,
            }),
        decreases ch@.len() - i,
    {
        v.push(Span::new(ch[i].range, file.clone(), ch[i].text.clone()));
        i = i + 1;
    }
    assert(names_view(v@) =~= spec_path(ch@, *file));
    v
}

/// Builds a value: a literal, an if-expression or a path.
#[verifier::spinoff_prover]
pub fn parse_value(t: &ParseTree, file: &File) -> (r: Option<BoxedSpan<Expr>>)
    ensures
        opt_node(r) == spec_value(*t, *file),
    decreases *t, 0int, 0int,
{
    if t.children.len() == 0 {
        return None;
    }
    let c = &t.children[0];
    let e = match c.rule {
        Rule::Int => match parse_int(&c.text) {
            Some(v) => Expr::Literal(Literal::Int(v)),
            None => return None,
        },
        Rule::Float => Expr::Literal(Literal::Float(c.text.clone())),
        Rule::StringContent => Expr::Literal(Literal::String(c.text.clone())),
        Rule::IfStatement => match parse_if(c, file) {
            Some(e) => e,
            None => return None,
        },
        Rule::Ident => Expr::Ident(parse_path(c, file)),
        _ => return None,
    };
    Some(Span::boxed(c.range, file.clone(), e))
}

} // verus!
