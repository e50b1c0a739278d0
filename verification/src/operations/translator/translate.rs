use vstd::prelude::*;
use crate::operations::executer::types::OperationTypes;
use crate::operations::planner::charts::structs::{
    NodesOpsMsg, Numeric, OperationInfo, Steps, duplicate_infos, infos_view,
};

verus! {

/// The shape of an operand, which decides how a step is computed.
#[derive(Debug, Clone, Copy, PartialEq, Eq)]
pub enum NumericKind {
    Scaler,
    Vector,
    Matrix,
}

/// The shape of a value.
pub open spec fn kind_of<T>(n: Numeric<T>) -> NumericKind {
    match n {
        Numeric::Scaler(_) => NumericKind::Scaler,
        Numeric::Vector(_) => NumericKind::Vector,
        Numeric::Matrix(_) => NumericKind::Matrix,
    }
}

/// The computation a step comes down to.
#[derive(Debug, Clone, Copy, PartialEq, Eq)]
pub enum TranslatorAction {
    Dot,
    Sum,
    Divide,
    Avg,
    OrderList,
    Max,
    Min,
    /// The operation is known but not computed for this shape: the step is
    /// left without a result.
    NoOp,
    /// The operation is not supported yet.
    Unsupported,
}

/// The computation of an operation on operands of shape `kind`. Numbers
/// support the dot product, the sum and the division; vectors support every
/// operation but addition, subtraction and multiplication; nothing is
/// computed on matrices yet.
pub open spec fn spec_action(kind: NumericKind, op: OperationTypes) -> TranslatorAction {
    match op {
        OperationTypes::ADD | OperationTypes::SUBTRACT | OperationTypes::MULTIPLY => TranslatorAction::Unsupported,
        _ => match kind {
            NumericKind::Matrix => TranslatorAction::NoOp,
            NumericKind::Scaler => match op {
                OperationTypes::DOT => TranslatorAction::Dot,
                OperationTypes::SUM => TranslatorAction::Sum,
                OperationTypes::DIVIDE => TranslatorAction::Divide,
                _ => TranslatorAction::NoOp,
            },
            NumericKind::Vector => match op {
                OperationTypes::DOT => TranslatorAction::Dot,
                OperationTypes::SUM => TranslatorAction::Sum,
                OperationTypes::DIVIDE => TranslatorAction::Divide,
                OperationTypes::AVG => TranslatorAction::Avg,
                OperationTypes::ORDERLIST => TranslatorAction::OrderList,
                OperationTypes::MAX => TranslatorAction::Max,
                _ => TranslatorAction::Min,
            },
        },
    }
}

/// The duties of this node, ready to be translated into computations.
pub struct DutiesTranslator {
    pub node_duty: Vec<OperationInfo>,
}

impl DutiesTranslator {
    /// The duties that `nodes_duty` hands to the node `current_node_id`, if
    /// it hands it any.
    pub fn new(nodes_duty: &NodesOpsMsg, current_node_id: &String) -> (translator: Option<DutiesTranslator>)
        requires
            nodes_duty.wf(),
        ensures
            match translator {
                Some(t) => nodes_duty@.contains_key(current_node_id@) && infos_view(t.node_duty@)
                    == nodes_duty@[current_node_id@],
                None => !nodes_duty@.contains_key(current_node_id@),
            },
    {
        match nodes_duty.get(current_node_id) {
            Some(node_duty) => {
                let copy = duplicate_infos(node_duty);
                Some(DutiesTranslator { node_duty: copy })
            },
            None => None,
        }
    }

    /// The shape that decides how `step` is computed: that of its first
    /// operand, or of its second when it has no first.
    pub fn translator_kind<T>(step: &Steps<T>) -> (kind: NumericKind)
        requires
            step.x is Some || step.y is Some,
        ensures
            kind == match step.x {
                Some(x) => kind_of(x),
                None => kind_of(step.y->0),
            },
    {
        let num = match &step.x {
            Some(x) => x,
            None => step.y.as_ref().unwrap(),
        };
        match num {
            Numeric::Scaler(_) => NumericKind::Scaler,
            Numeric::Vector(_) => NumericKind::Vector,
            Numeric::Matrix(_) => NumericKind::Matrix,
        }
    }

    /// The computation `op_type` comes down to on operands of shape `kind`
    /// (see `spec_action`).
    pub fn step_action(kind: NumericKind, op_type: OperationTypes) -> (action: TranslatorAction)
        ensures
            action == spec_action(kind, op_type),
    {
        match op_type {
            OperationTypes::ADD | OperationTypes::SUBTRACT | OperationTypes::MULTIPLY => {
                return TranslatorAction::Unsupported;
            },
            _ => {},
        }
        match kind {
            NumericKind::Matrix => TranslatorAction::NoOp,
            NumericKind::Scaler => match op_type {
                OperationTypes::DOT => TranslatorAction::Dot,
                OperationTypes::SUM => TranslatorAction::Sum,
                OperationTypes::DIVIDE => TranslatorAction::Divide,
                _ => TranslatorAction::NoOp,
            },
            NumericKind::Vector => match op_type {
                OperationTypes::DOT => TranslatorAction::Dot,
                OperationTypes::SUM => TranslatorAction::Sum,
                OperationTypes::DIVIDE => TranslatorAction::Divide,
                OperationTypes::AVG => TranslatorAction::Avg,
                OperationTypes::ORDERLIST => TranslatorAction::OrderList,
                OperationTypes::MAX => TranslatorAction::Max,
                _ => TranslatorAction::Min,
            },
        }
    }
}

/// Computes the steps whose operands are numbers.
pub struct ScalerTranslator<T> {
    pub step: Steps<T>,
}

/// Computes the steps whose operands are vectors.
pub struct VecTranslator<T> {
    pub step: Steps<T>,
}

/// Computes the steps whose operands are matrices.
pub struct MatricesTranslator<T> {
    pub step: Steps<T>,
}

impl<T> ScalerTranslator<T> {
    /// A translator of `step`.
    pub fn new(step: Steps<T>) -> (t: ScalerTranslator<T>)
        ensures
            t.step == step,
    {
        ScalerTranslator { step }
    }
}

impl<T> VecTranslator<T> {
    /// A translator of `step`.
    pub fn new(step: Steps<T>) -> (t: VecTranslator<T>)
        ensures
            t.step == step,
    {
        VecTranslator { step }
    }
}

impl<T> MatricesTranslator<T> {
    /// A translator of `step`.
    pub fn new(step: Steps<T>) -> (t: MatricesTranslator<T>)
        ensures
            t.step == step,
    {
        MatricesTranslator { step }
    }
}

/// Where the dividend of a division of numbers comes from.
pub enum DivideOperand {
    /// The step's own first operand.
    Own,
    /// The result of the step named, once it has one.
    PreviousStep(String),
}

impl<T> ScalerTranslator<T> {
    /// Where the dividend of the step comes from: its first operand, or the
    /// result of the step before it when it has none. A step with neither is
    /// not accepted.
    pub fn divide_operand(&self) -> (operand: DivideOperand)
        requires
            self.step.x is Some || self.step.prev_step is Some,
        ensures
            match operand {
                DivideOperand::Own => self.step.x is Some,
                DivideOperand::PreviousStep(id) => self.step.x is None && self.step.prev_step == Some(id),
            },
    {
        match &self.step.x {
            Some(_) => DivideOperand::Own,
            None => DivideOperand::PreviousStep(self.step.prev_step.as_ref().unwrap().clone()),
        }
    }
}

/// A step computes the operation it names. On vectors: a `SUM` step adds up
/// its entries, `AVG` averages them, `MAX` takes the largest, `MIN` the
/// smallest, `DOT` the dot product, `DIVIDE` divides entry by entry and
/// `ORDERLIST` orders them. On numbers: `SUM` adds, `DOT` multiplies and
/// `DIVIDE` divides, while the list operations compute nothing on a single
/// number. Addition, subtraction and multiplication of operands
/// are not supported on any shape, and nothing is computed on matrices.
pub proof fn law_steps_compute_what_they_name(op: OperationTypes)
    ensures
        op == OperationTypes::SUM ==> spec_action(NumericKind::Vector, op) == TranslatorAction::Sum,
        op == OperationTypes::AVG ==> spec_action(NumericKind::Vector, op) == TranslatorAction::Avg,
        op == OperationTypes::MAX ==> spec_action(NumericKind::Vector, op) == TranslatorAction::Max,
        op == OperationTypes::MIN ==> spec_action(NumericKind::Vector, op) == TranslatorAction::Min,
        op == OperationTypes::DOT ==> spec_action(NumericKind::Vector, op) == TranslatorAction::Dot,
        op == OperationTypes::DIVIDE ==> spec_action(NumericKind::Vector, op) == TranslatorAction::Divide,
        op == OperationTypes::ORDERLIST ==> spec_action(NumericKind::Vector, op) == TranslatorAction::OrderList,
        op == OperationTypes::SUM ==> spec_action(NumericKind::Scaler, op) == TranslatorAction::Sum,
        op == OperationTypes::DOT ==> spec_action(NumericKind::Scaler, op) == TranslatorAction::Dot,
        op == OperationTypes::DIVIDE ==> spec_action(NumericKind::Scaler, op) == TranslatorAction::Divide,
        op == OperationTypes::AVG || op == OperationTypes::ORDERLIST || op == OperationTypes::MAX || op
            == OperationTypes::MIN ==> spec_action(NumericKind::Scaler, op) == TranslatorAction::NoOp,
        op == OperationTypes::ADD || op == OperationTypes::SUBTRACT || op == OperationTypes::MULTIPLY
            ==> forall|k: NumericKind| spec_action(k, op) == TranslatorAction::Unsupported,
        !(op == OperationTypes::ADD || op == OperationTypes::SUBTRACT || op == OperationTypes::MULTIPLY)
            ==> spec_action(NumericKind::Matrix, op) == TranslatorAction::NoOp,
{
}

} // verus!
