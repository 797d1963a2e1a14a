//! Plan nodes as the external query planner hands them over: a scan with
//! pushed-down filter extras, and the select node that wraps another plan.

use vstd::prelude::*;

use crate::error::EngineError;
use crate::filter::Expression;
use crate::value::{DataFieldView, DataSchema};
use std::sync::Arc;

verus! {

/// What a scan carries besides its source: the pushed-down filter
/// expressions. Pruning considers the first of them.
#[derive(Debug)]
pub struct Extras {
    pub filters: Vec<Expression>,
}

impl Extras {
    /// Equal extras: the same filters in the same order.
    pub fn duplicate(&self) -> (r: Extras)
        ensures
            r.filters@ == self.filters@,
    {
        let mut filters: Vec<Expression> = Vec::new();
        let mut i: usize = 0;
        while i < self.filters.len()
            invariant
                i <= self.filters@.len(),
                filters@ == self.filters@.take(i as int),
            decreases self.filters@.len() - i,
        {
            filters.push(duplicate_expression(&self.filters[i]));
            i = i + 1;
        }
        proof {
            assert(self.filters@.take(self.filters@.len() as int) =~= self.filters@);
        }
        Extras { filters }
    }
}

/// An equal expression tree.
pub fn duplicate_expression(e: &Expression) -> (r: Expression)
    ensures
        r == *e,
    decreases *e,
{
    match e {
        Expression::Column(n) => Expression::Column(n.clone()),
        Expression::Literal(v) => Expression::Literal(*v),
        Expression::Compare(op, l, r) => Expression::Compare(
            *op,
            Box::new(duplicate_expression(l)),
            Box::new(duplicate_expression(r)),
        ),
        Expression::And(l, r) => Expression::And(
            Box::new(duplicate_expression(l)),
            Box::new(duplicate_expression(r)),
        ),
        Expression::Other => Expression::Other,
    }
}

/// A leaf scan: the scan schema and the optional pushed-down extras.
#[derive(Debug)]
pub struct ScanPlan {
    pub schema: DataSchema,
    pub push_down: Option<Extras>,
}

/// A plan node: a scan, or a select over another plan.
#[derive(Debug)]
pub enum PlanNode {
    Scan(ScanPlan),
    Select(SelectPlan),
}

/// The select node: it wraps its input plan and exposes its schema.
#[derive(Debug)]
pub struct SelectPlan {
    pub input: Arc<PlanNode>,
}

/// Structural equality of plans up to the views of their schemas: equal
/// shapes, equal filters, and schemas with equal fields.
pub open spec fn plan_matches(a: PlanNode, b: PlanNode) -> bool
    decreases a,
{
    match (a, b) {
        (PlanNode::Scan(x), PlanNode::Scan(y)) => {
            &&& x.schema@ == y.schema@
            &&& match (x.push_down, y.push_down) {
                (Option::None, Option::None) => true,
                (Option::Some(ex), Option::Some(ey)) => ex.filters@ == ey.filters@,
                _ => false,
            }
        },
        (PlanNode::Select(x), PlanNode::Select(y)) => plan_matches(*x.input, *y.input),
        _ => false,
    }
}

/// The scan schema a plan exposes: a select passes its input's through.
pub open spec fn plan_schema(p: PlanNode) -> Seq<DataFieldView>
    decreases p,
{
    match p {
        PlanNode::Scan(x) => x.schema@,
        PlanNode::Select(x) => plan_schema(*x.input),
    }
}

impl PlanNode {
    /// A structurally equal plan.
    pub fn duplicate(&self) -> (r: PlanNode)
        ensures
            plan_matches(r, *self),
        decreases *self,
    {
        match self {
            PlanNode::Scan(x) => PlanNode::Scan(ScanPlan {
                schema: x.schema.duplicate(),
                push_down: match &x.push_down {
                    Some(ex) => Some(ex.duplicate()),
                    None => None,
                },
            }),
            PlanNode::Select(x) => PlanNode::Select(SelectPlan {
                input: Arc::new(x.input.duplicate()),
            }),
        }
    }

    /// The scan schema this plan exposes.
    pub fn schema(&self) -> (r: DataSchema)
        ensures
            r@ == plan_schema(*self),
        decreases *self,
    {
        match self {
            PlanNode::Scan(x) => x.schema.duplicate(),
            PlanNode::Select(x) => x.input.schema(),
        }
    }
}

impl SelectPlan {
    /// The schema of the wrapped plan.
    pub fn schema(&self) -> (r: DataSchema)
        ensures
            r@ == plan_schema(PlanNode::Select(*self)),
    {
        self.input.schema()
    }

    /// The wrapped plan.
    pub fn input(&self) -> (r: Arc<PlanNode>)
        ensures
            plan_matches(*r, *self.input),
    {
        Arc::new(self.input.duplicate())
    }

    /// Replaces the wrapped plan with a copy of the given one.
    pub fn set_input(&mut self, input: &PlanNode) -> (r: Result<(), EngineError>)
        ensures
            r is Ok,
            plan_matches(*final(self).input, *input),
    {
        self.input = Arc::new(input.duplicate());
        Ok(())
    }
}

} // verus!
