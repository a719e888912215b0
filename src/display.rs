//! The text form of logical plans: an indented tree, two spaces per level.
use vstd::prelude::*;

use crate::datatype::{Field, Schema};
use crate::floats::{float_text, float_text_of};
use crate::logical_expr::{AggregateFuncExpr, LogicalExpr, Operator};
use crate::logical_plan::{JoinType, LogicalPlan};
use crate::scalar::{int_text, int_text_of, uint_text, uint_text_of, Scalar};

verus! {

/// `s` between double quotes.
pub open spec fn quoted(s: Seq<char>) -> Seq<char> {
    "\""@ + s + "\""@
}

/// The items separated by ", ".
pub open spec fn join_list(items: Seq<Seq<char>>) -> Seq<char>
    decreases items.len(),
{
    if items.len() == 0 {
        Seq::empty()
    } else if items.len() == 1 {
        items[0]
    } else {
        join_list(items.drop_last()) + ", "@ + items.last()
    }
}

/// The items separated by ", ", between brackets.
pub open spec fn bracketed(items: Seq<Seq<char>>) -> Seq<char> {
    "["@ + join_list(items) + "]"@
}

pub open spec fn bool_text(b: bool) -> Seq<char> {
    if b {
        "true"@
    } else {
        "false"@
    }
}

pub open spec fn option_text(v: Option<Seq<char>>) -> Seq<char> {
    match v {
        Some(t) => "Some("@ + t + ")"@,
        None => "None"@,
    }
}

/// A scalar as its variant and payload.
pub open spec fn scalar_text(s: Scalar) -> Seq<char> {
    match s {
        Scalar::Null => "Null"@,
        Scalar::Boolean(v) => "Boolean("@ + option_text(
            match v {
                Some(b) => Some(bool_text(b)),
                None => None,
            },
        ) + ")"@,
        Scalar::Float64(v) => "Float64("@ + option_text(
            match v {
                Some(b) => Some(float_text_of(b)),
                None => None,
            },
        ) + ")"@,
        Scalar::Int64(v) => "Int64("@ + option_text(
            match v {
                Some(b) => Some(int_text_of(b)),
                None => None,
            },
        ) + ")"@,
        Scalar::UInt64(v) => "UInt64("@ + option_text(
            match v {
                Some(b) => Some(uint_text_of(b)),
                None => None,
            },
        ) + ")"@,
        Scalar::Utf8(v) => "Utf8("@ + option_text(
            match v {
                Some(b) => Some(quoted(b@)),
                None => None,
            },
        ) + ")"@,
    }
}

pub open spec fn operator_text(op: Operator) -> Seq<char> {
    match op {
        Operator::Eq => "Eq"@,
        Operator::Neq => "Neq"@,
        Operator::Gt => "Gt"@,
        Operator::GtEq => "GtEq"@,
        Operator::Lt => "Lt"@,
        Operator::LtEq => "LtEq"@,
        Operator::And => "And"@,
        Operator::Or => "Or"@,
        Operator::Add => "Add"@,
        Operator::Sub => "Sub"@,
        Operator::Mul => "Mul"@,
        Operator::Div => "Div"@,
        Operator::Mod => "Mod"@,
    }
}

/// An expression as a tree of its variants.
pub open spec fn expr_text(e: LogicalExpr) -> Seq<char>
    decreases e,
{
    match e {
        LogicalExpr::BinaryExpr(b) => "BinaryExpr(BinaryExpr { left: "@ + expr_text(*b.left)
            + ", op: "@ + operator_text(b.op) + ", right: "@ + expr_text(*b.right) + " })"@,
        LogicalExpr::Literal(s) => "Literal("@ + scalar_text(s) + ")"@,
        LogicalExpr::Alias(a) => "Alias(Alias { name: "@ + quoted(a.name@) + ", expr: "@
            + expr_text(*a.expr) + " })"@,
        LogicalExpr::Column(n) => "Column("@ + quoted(n@) + ")"@,
        LogicalExpr::ScalarFuncExpr(f) => "ScalarFuncExpr(ScalarFuncExpr { func: "@
            + f.func.name_spec() + ", exprs: ["@ + exprs_text(f.exprs@) + "] })"@,
        LogicalExpr::AggregateFuncExpr(a) => "AggregateFuncExpr("@ + "AggregateFuncExpr { func: "@
            + a.func.name_spec() + ", expr: "@ + expr_text(*a.expr) + " }"@ + ")"@,
    }
}

/// The texts of the expressions, separated by ", ".
pub open spec fn exprs_text(es: Seq<LogicalExpr>) -> Seq<char>
    decreases es,
{
    if es.len() == 0 {
        Seq::empty()
    } else if es.len() == 1 {
        expr_text(es[0])
    } else {
        expr_text(es[0]) + ", "@ + exprs_text(es.drop_first())
    }
}

pub open spec fn aggregate_text(a: AggregateFuncExpr) -> Seq<char> {
    "AggregateFuncExpr { func: "@ + a.func.name_spec() + ", expr: "@ + expr_text(*a.expr) + " }"@
}

pub open spec fn field_text(f: Field) -> Seq<char> {
    "Field { name: "@ + quoted(f.name@) + ", data_type: "@ + f.data_type.name_spec()
        + ", nullable: "@ + bool_text(f.nullable) + " }"@
}

pub open spec fn schema_text(s: Schema) -> Seq<char> {
    "Schema { fields: "@ + bracketed(Seq::new(s.fields@.len(), |i: int| field_text(s.fields@[i])))
        + " }"@
}

pub open spec fn projection_text(p: Option<Vec<usize>>) -> Seq<char> {
    option_text(
        match p {
            Some(v) => Some(bracketed(Seq::new(v@.len(), |i: int| uint_text_of(v@[i] as u64)))),
            None => None,
        },
    )
}

pub open spec fn on_text(on: Seq<(String, String)>) -> Seq<char> {
    bracketed(Seq::new(on.len(), |i: int| "("@ + quoted(on[i].0@) + ", "@ + quoted(on[i].1@) + ")"@))
}

pub open spec fn join_type_text(t: JoinType) -> Seq<char> {
    match t {
        JoinType::Inner => "Inner"@,
        JoinType::Left => "Left"@,
        JoinType::Right => "Right"@,
        JoinType::CrossJoin => "CrossJoin"@,
    }
}

/// Two spaces per level.
pub open spec fn indent(d: nat) -> Seq<char>
    decreases d,
{
    if d == 0 {
        Seq::empty()
    } else {
        indent((d - 1) as nat) + "  "@
    }
}

/// The depth of an input: two levels deeper, as far as a `usize` reaches.
pub open spec fn deeper(d: usize) -> usize {
    if d <= usize::MAX - 2 {
        (d + 2) as usize
    } else {
        d
    }
}

/// A plan printed at depth `d`: its kind, then its fields one per line
/// at depth `d + 1`, with its inputs printed at depth `d + 2`.
pub open spec fn plan_text(p: LogicalPlan, d: usize) -> Seq<char>
    decreases p,
{
    let i0 = indent(d as nat);
    let i1 = indent(d as nat + 1);
    match p {
        LogicalPlan::Scan(s) => i0 + "Scan:\n"@ + i1 + "source_type: "@ + quoted(
            s.data_source.source_type@,
        ) + "\n"@ + i1 + "projection: "@ + projection_text(s.projection) + "\n"@,
        LogicalPlan::Projection(x) => i0 + "Projection:\n"@ + i1 + "exprs: ["@ + exprs_text(
            x.exprs@,
        ) + "]\n"@ + i1 + "input:\n"@ + plan_text(*x.input, deeper(d)) + i1 + "schema: "@
            + schema_text(x.schema) + "\n"@,
        LogicalPlan::Selection(x) => i0 + "Selection:\n"@ + i1 + "expr: "@ + expr_text(x.expr)
            + "\n"@ + i1 + "input:\n"@ + plan_text(*x.input, deeper(d)),
        LogicalPlan::Aggregate(x) => i0 + "Aggregate:\n"@ + i1 + "input:\n"@ + plan_text(
            *x.input,
            deeper(d),
        ) + i1 + "group_expr: ["@ + exprs_text(x.group_expr@) + "]\n"@ + i1 + "aggr_expr: "@
            + bracketed(Seq::new(x.aggr_expr@.len(), |i: int| aggregate_text(x.aggr_expr@[i])))
            + "\n"@ + i1 + "schema: "@ + schema_text(x.schema) + "\n"@,
        LogicalPlan::Join(x) => i0 + "Join:\n"@ + i1 + "left:\n"@ + plan_text(*x.left, deeper(d))
            + i1 + "right:\n"@ + plan_text(*x.right, deeper(d)) + i1 + "on: "@ + on_text(x.on@)
            + "\n"@ + i1 + "join_type: "@ + join_type_text(x.join_type) + "\n"@ + i1
            + "schema: "@ + schema_text(x.schema) + "\n"@,
    }
}

/// Appends the items separated by ", ".
pub fn push_joined(out: &mut String, items: &Vec<String>)
    ensures
        final(out)@ == old(out)@ + join_list(Seq::new(items@.len(), |i: int| items@[i]@)),
{
    let ghost all = Seq::new(items@.len(), |i: int| items@[i]@);
    let ghost start = out@;
    let mut i: usize = 0;
    while i < items.len()
        invariant
            all == Seq::new(items@.len(), |i: int| items@[i]@),
            i <= items@.len(),
            out@ == start + join_list(all.subrange(0, i as int)),
        decreases items@.len() - i,
    {
        let ghost prev = all.subrange(0, i as int);
        let ghost next = all.subrange(0, i as int + 1);
        assert(next.drop_last() =~= prev);
        if i > 0 {
            out.append(", ");
        }
        out.append(items[i].as_str());
        i = i + 1;
        proof {
            if i == 1 {
                assert(join_list(prev) =~= Seq::<char>::empty());
                assert(out@ =~= start + join_list(next));
            } else {
                assert(out@ =~= start + join_list(next));
            }
        }
    }
    assert(all.subrange(0, items@.len() as int) =~= all);
}

fn push_quoted(out: &mut String, s: &str)
    ensures
        final(out)@ == old(out)@ + quoted(s@),
{
    let ghost start = out@;
    out.append("\"");
    out.append(s);
    out.append("\"");
    assert(out@ =~= start + quoted(s@));
}

fn push_indent(out: &mut String, d: usize)
    ensures
        final(out)@ == old(out)@ + indent(d as nat),
{
    let ghost start = out@;
    let mut i: usize = 0;
    while i < d
        invariant
            i <= d,
            out@ == start + indent(i as nat),
        decreases d - i,
    {
        out.append("  ");
        i = i + 1;
        assert(out@ =~= start + indent(i as nat));
    }
}

pub fn bool_string(b: bool) -> (r: String)
    ensures
        r@ == bool_text(b),
{
    if b {
        "true".to_string()
    } else {
        "false".to_string()
    }
}

pub fn scalar_string(s: &Scalar) -> (r: String)
    ensures
        r@ == scalar_text(*s),
{
    let (head, payload): (&str, Option<String>) = match s {
        Scalar::Null => {
            return "Null".to_string();
        },
        Scalar::Boolean(v) => ("Boolean(", match v {
            Some(b) => Some(bool_string(*b)),
            None => None,
        }),
        Scalar::Float64(v) => ("Float64(", match v {
            Some(b) => Some(float_text(*b)),
            None => None,
        }),
        Scalar::Int64(v) => ("Int64(", match v {
            Some(b) => Some(int_text(*b)),
            None => None,
        }),
        Scalar::UInt64(v) => ("UInt64(", match v {
            Some(b) => Some(uint_text(*b)),
            None => None,
        }),
        Scalar::Utf8(v) => ("Utf8(", match v {
            Some(b) => {
                let mut q = String::new();
                push_quoted(&mut q, b.as_str());
                Some(q)
            },
            None => None,
        }),
    };
    let mut out = head.to_string();
    match payload {
        Some(p) => {
            out.append("Some(");
            out.append(p.as_str());
            out.append(")");
        },
        None => out.append("None"),
    }
    out.append(")");
    assert(out@ =~= scalar_text(*s));
    out
}

pub fn operator_string(op: Operator) -> (r: String)
    ensures
        r@ == operator_text(op),
{
    match op {
        Operator::Eq => "Eq".to_string(),
        Operator::Neq => "Neq".to_string(),
        Operator::Gt => "Gt".to_string(),
        Operator::GtEq => "GtEq".to_string(),
        Operator::Lt => "Lt".to_string(),
        Operator::LtEq => "LtEq".to_string(),
        Operator::And => "And".to_string(),
        Operator::Or => "Or".to_string(),
        Operator::Add => "Add".to_string(),
        Operator::Sub => "Sub".to_string(),
        Operator::Mul => "Mul".to_string(),
        Operator::Div => "Div".to_string(),
        Operator::Mod => "Mod".to_string(),
    }
}

/// The text of an expression.
pub fn expr_string(e: &LogicalExpr) -> (r: String)
    ensures
        r@ == expr_text(*e),
    decreases e,
{
    let mut out = String::new();
    match e {
        LogicalExpr::BinaryExpr(b) => {
            out.append("BinaryExpr(BinaryExpr { left: ");
            out.append(expr_string(&b.left).as_str());
            out.append(", op: ");
            out.append(operator_string(b.op).as_str());
            out.append(", right: ");
            out.append(expr_string(&b.right).as_str());
            out.append(" })");
        },
        LogicalExpr::Literal(v) => {
            out.append("Literal(");
            out.append(scalar_string(v).as_str());
            out.append(")");
        },
        LogicalExpr::Alias(a) => {
            out.append("Alias(Alias { name: ");
            push_quoted(&mut out, a.name.as_str());
            out.append(", expr: ");
            out.append(expr_string(&a.expr).as_str());
            out.append(" })");
        },
        LogicalExpr::Column(n) => {
            out.append("Column(");
            push_quoted(&mut out, n.as_str());
            out.append(")");
        },
        LogicalExpr::ScalarFuncExpr(f) => {
            let n = f.exprs.len();
            let mut args = String::new();
            let mut i: usize = n;
            assert(f.exprs@.skip(n as int) =~= Seq::<LogicalExpr>::empty());
            while i > 0
                invariant
                    *e is ScalarFuncExpr && (*e)->ScalarFuncExpr_0 == *f,
                    n == f.exprs@.len(),
                    i <= n,
                    args@ == exprs_text(f.exprs@.skip(i as int)),
                decreases i,
            {
                let j = i - 1;
                proof {
                    assert(decreases_to!(*e => (*e)->ScalarFuncExpr_0));
                    assert(decreases_to!((*e)->ScalarFuncExpr_0 => f.exprs));
                    vstd::std_specs::vec::axiom_vec_index_decreases(f.exprs, j as int);
                }
                let ghost rest = f.exprs@.skip(j as int);
                assert(rest[0] == f.exprs@[j as int]);
                assert(rest.drop_first() =~= f.exprs@.skip(i as int));
                let mut t = expr_string(&f.exprs[j]);
                if i < n {
                    t.append(", ");
                    t.append(args.as_str());
                }
                args = t;
                i = j;
            }
            assert(f.exprs@.skip(0) =~= f.exprs@);
            out.append("ScalarFuncExpr(ScalarFuncExpr { func: ");
            out.append(f.func.name().as_str());
            out.append(", exprs: [");
            out.append(args.as_str());
            out.append("] })");
        },
        LogicalExpr::AggregateFuncExpr(a) => {
            out.append("AggregateFuncExpr(");
            out.append(aggregate_string(a).as_str());
            out.append(")");
        },
    }
    assert(out@ =~= expr_text(*e));
    out
}

/// The text of an aggregate.
pub fn aggregate_string(a: &AggregateFuncExpr) -> (r: String)
    ensures
        r@ == aggregate_text(*a),
    decreases a,
{
    let mut out = "AggregateFuncExpr { func: ".to_string();
    out.append(a.func.name().as_str());
    out.append(", expr: ");
    out.append(expr_string(&a.expr).as_str());
    out.append(" }");
    assert(out@ =~= aggregate_text(*a));
    out
}

fn push_exprs(out: &mut String, es: &Vec<LogicalExpr>)
    ensures
        final(out)@ == old(out)@ + exprs_text(es@),
{
    let n = es.len();
    let mut args = String::new();
    let mut i: usize = n;
    assert(es@.skip(n as int) =~= Seq::<LogicalExpr>::empty());
    while i > 0
        invariant
            n == es@.len(),
            i <= n,
            args@ == exprs_text(es@.skip(i as int)),
        decreases i,
    {
        let j = i - 1;
        let ghost rest = es@.skip(j as int);
        assert(rest[0] == es@[j as int]);
        assert(rest.drop_first() =~= es@.skip(i as int));
        let mut t = expr_string(&es[j]);
        if i < n {
            t.append(", ");
            t.append(args.as_str());
        }
        args = t;
        i = j;
    }
    assert(es@.skip(0) =~= es@);
    out.append(args.as_str());
}

pub fn field_string(f: &Field) -> (r: String)
    ensures
        r@ == field_text(*f),
{
    let mut out = "Field { name: ".to_string();
    push_quoted(&mut out, f.name.as_str());
    out.append(", data_type: ");
    out.append(f.data_type.name().as_str());
    out.append(", nullable: ");
    out.append(bool_string(f.nullable).as_str());
    out.append(" }");
    assert(out@ =~= field_text(*f));
    out
}

pub fn schema_string(s: &Schema) -> (r: String)
    ensures
        r@ == schema_text(*s),
{
    let mut items: Vec<String> = Vec::new();
    let mut i: usize = 0;
    while i < s.fields.len()
        invariant
            i <= s.fields@.len(),
            items@.len() == i,
            forall|k: int| 0 <= k < i ==> (#[trigger] items@[k])@ == field_text(s.fields@[k]),
        decreases s.fields@.len() - i,
    {
        items.push(field_string(&s.fields[i]));
        i = i + 1;
    }
    let mut out = "Schema { fields: ".to_string();
    out.append("[");
    push_joined(&mut out, &items);
    out.append("]");
    out.append(" }");
    assert(Seq::new(items@.len(), |i: int| items@[i]@) =~= Seq::new(
        s.fields@.len(),
        |i: int| field_text(s.fields@[i]),
    ));
    assert(out@ =~= schema_text(*s));
    out
}

fn projection_string(p: &Option<Vec<usize>>) -> (r: String)
    ensures
        r@ == projection_text(*p),
{
    match p {
        None => "None".to_string(),
        Some(v) => {
            let mut items: Vec<String> = Vec::new();
            let mut i: usize = 0;
            while i < v.len()
                invariant
                    i <= v@.len(),
                    items@.len() == i,
                    forall|k: int| 0 <= k < i ==> (#[trigger] items@[k])@ == uint_text_of(v@[k] as u64),
                decreases v@.len() - i,
            {
                items.push(uint_text(v[i] as u64));
                i = i + 1;
            }
            let mut out = "Some(".to_string();
            out.append("[");
            push_joined(&mut out, &items);
            out.append("]");
            out.append(")");
            assert(Seq::new(items@.len(), |i: int| items@[i]@) =~= Seq::new(
                v@.len(),
                |i: int| uint_text_of(v@[i] as u64),
            ));
            assert(out@ =~= projection_text(*p));
            out
        },
    }
}

fn on_string(on: &Vec<(String, String)>) -> (r: String)
    ensures
        r@ == on_text(on@),
{
    let mut items: Vec<String> = Vec::new();
    let mut i: usize = 0;
    while i < on.len()
        invariant
            i <= on@.len(),
            items@.len() == i,
            forall|k: int|
                0 <= k < i ==> (#[trigger] items@[k])@ == "("@ + quoted(on@[k].0@) + ", "@ + quoted(
                    on@[k].1@,
                ) + ")"@,
        decreases on@.len() - i,
    {
        let mut t = "(".to_string();
        push_quoted(&mut t, on[i].0.as_str());
        t.append(", ");
        push_quoted(&mut t, on[i].1.as_str());
        t.append(")");
        items.push(t);
        i = i + 1;
    }
    let mut out = "[".to_string();
    push_joined(&mut out, &items);
    out.append("]");
    assert(Seq::new(items@.len(), |i: int| items@[i]@) =~= Seq::new(
        on@.len(),
        |i: int| "("@ + quoted(on@[i].0@) + ", "@ + quoted(on@[i].1@) + ")"@,
    ));
    assert(out@ =~= on_text(on@));
    out
}

fn join_type_string(t: JoinType) -> (r: String)
    ensures
        r@ == join_type_text(t),
{
    match t {
        JoinType::Inner => "Inner".to_string(),
        JoinType::Left => "Left".to_string(),
        JoinType::Right => "Right".to_string(),
        JoinType::CrossJoin => "CrossJoin".to_string(),
    }
}

fn aggregates_string(aggs: &Vec<AggregateFuncExpr>) -> (r: String)
    ensures
        r@ == bracketed(Seq::new(aggs@.len(), |i: int| aggregate_text(aggs@[i]))),
{
    let mut items: Vec<String> = Vec::new();
    let mut i: usize = 0;
    while i < aggs.len()
        invariant
            i <= aggs@.len(),
            items@.len() == i,
            forall|k: int| 0 <= k < i ==> (#[trigger] items@[k])@ == aggregate_text(aggs@[k]),
        decreases aggs@.len() - i,
    {
        items.push(aggregate_string(&aggs[i]));
        i = i + 1;
    }
    let mut out = "[".to_string();
    push_joined(&mut out, &items);
    out.append("]");
    assert(Seq::new(items@.len(), |i: int| items@[i]@) =~= Seq::new(
        aggs@.len(),
        |i: int| aggregate_text(aggs@[i]),
    ));
    out
}

impl LogicalPlan {
    /// The plan printed at depth `depth`.
    pub fn pretty(&self, depth: usize) -> (r: String)
        ensures
            r@ == plan_text(*self, depth),
        decreases self,
    {
        let inner = if depth <= usize::MAX - 2 {
            depth + 2
        } else {
            depth
        };
        let mut i1 = String::new();
        push_indent(&mut i1, depth);
        i1.append("  ");
        assert(i1@ =~= indent(depth as nat + 1));
        let mut out = String::new();
        push_indent(&mut out, depth);
        match self {
            LogicalPlan::Scan(s) => {
                out.append("Scan:\n");
                out.append(i1.as_str());
                out.append("source_type: ");
                push_quoted(&mut out, s.data_source.source_type.as_str());
                out.append("\n");
                out.append(i1.as_str());
                out.append("projection: ");
                out.append(projection_string(&s.projection).as_str());
                out.append("\n");
            },
            LogicalPlan::Projection(x) => {
                out.append("Projection:\n");
                out.append(i1.as_str());
                out.append("exprs: [");
                push_exprs(&mut out, &x.exprs);
                out.append("]\n");
                out.append(i1.as_str());
                out.append("input:\n");
                out.append(x.input.pretty(inner).as_str());
                out.append(i1.as_str());
                out.append("schema: ");
                out.append(schema_string(&x.schema).as_str());
                out.append("\n");
            },
            LogicalPlan::Selection(x) => {
                out.append("Selection:\n");
                out.append(i1.as_str());
                out.append("expr: ");
                out.append(expr_string(&x.expr).as_str());
                out.append("\n");
                out.append(i1.as_str());
                out.append("input:\n");
                out.append(x.input.pretty(inner).as_str());
            },
            LogicalPlan::Aggregate(x) => {
                out.append("Aggregate:\n");
                out.append(i1.as_str());
                out.append("input:\n");
                out.append(x.input.pretty(inner).as_str());
                out.append(i1.as_str());
                out.append("group_expr: [");
                push_exprs(&mut out, &x.group_expr);
                out.append("]\n");
                out.append(i1.as_str());
                out.append("aggr_expr: ");
                out.append(aggregates_string(&x.aggr_expr).as_str());
                out.append("\n");
                out.append(i1.as_str());
                out.append("schema: ");
                out.append(schema_string(&x.schema).as_str());
                out.append("\n");
            },
            LogicalPlan::Join(x) => {
                out.append("Join:\n");
                out.append(i1.as_str());
                out.append("left:\n");
                out.append(x.left.pretty(inner).as_str());
                out.append(i1.as_str());
                out.append("right:\n");
                out.append(x.right.pretty(inner).as_str());
                out.append(i1.as_str());
                out.append("on: ");
                out.append(on_string(&x.on).as_str());
                out.append("\n");
                out.append(i1.as_str());
                out.append("join_type: ");
                out.append(join_type_string(x.join_type).as_str());
                out.append("\n");
                out.append(i1.as_str());
                out.append("schema: ");
                out.append(schema_string(&x.schema).as_str());
                out.append("\n");
            },
        }
        assert(out@ =~= plan_text(*self, depth));
        out
    }

    /// The plan as an indented tree.
    pub fn to_string(&self) -> (r: String)
        ensures
            r@ == plan_text(*self, 0),
    {
        self.pretty(0)
    }
}

} // verus!
