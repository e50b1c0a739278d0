use vstd::prelude::*;

verus! {

/// The operations a step can ask a node to perform.
#[derive(Debug, Clone, Copy, PartialEq, Eq)]
pub enum OperationTypes {
    ADD,
    SUBTRACT,
    MULTIPLY,
    DOT,
    DIVIDE,
    AVG,
    ORDERLIST,
    MAX,
    MIN,
    SUM,
}

impl OperationTypes {
    /// The display name of the operation.
    pub fn as_str(&self) -> (name: &str)
        ensures
            name@ == match *self {
                OperationTypes::ADD => "Add"@,
                OperationTypes::AVG => "Average"@,
                OperationTypes::DIVIDE => "Divide"@,
                OperationTypes::DOT => "Dot"@,
                OperationTypes::MULTIPLY => "Multiply"@,
                OperationTypes::SUBTRACT => "Subtract"@,
                OperationTypes::SUM => "Sum"@,
                OperationTypes::ORDERLIST => "Order List"@,
                OperationTypes::MAX => "Max"@,
                OperationTypes::MIN => "Min"@,
            },
    {
        match self {
            OperationTypes::ADD => "Add",
            OperationTypes::AVG => "Average",
            OperationTypes::DIVIDE => "Divide",
            OperationTypes::DOT => "Dot",
            OperationTypes::MULTIPLY => "Multiply",
            OperationTypes::SUBTRACT => "Subtract",
            OperationTypes::SUM => "Sum",
            OperationTypes::ORDERLIST => "Order List",
            OperationTypes::MAX => "Max",
            OperationTypes::MIN => "Min",
        }
    }
}

/// The direction in which a list is ordered.
#[derive(Debug, Clone, Copy, PartialEq, Eq)]
pub enum OperationsHelper {
    ASCENDING,
    DESCENDING,
}

impl OperationsHelper {
    /// The display name of the direction.
    pub fn as_str(&self) -> (name: &str)
        ensures
            name@ == self@,
    {
        match self {
            OperationsHelper::ASCENDING => "Ascending",
            OperationsHelper::DESCENDING => "Descending",
        }
    }
}

impl OperationsHelper {
    /// The direction named `name`. Only the two names that `as_str` gives
    /// are accepted.
    pub fn from_name(name: &String) -> (helper: OperationsHelper)
        requires
            name@ == "Ascending"@ || name@ == "Descending"@,
        ensures
            helper@ == name@,
    {
        let ascending = "Ascending".to_owned();
        if *name == ascending {
            OperationsHelper::ASCENDING
        } else {
            OperationsHelper::DESCENDING
        }
    }

    /// The name of the direction, owned.
    pub fn to_name(&self) -> (name: String)
        ensures
            name@ == self@,
    {
        self.as_str().to_owned()
    }
}

impl View for OperationsHelper {
    type V = Seq<char>;

    /// The name of the direction.
    open spec fn view(&self) -> Seq<char> {
        match *self {
            OperationsHelper::ASCENDING => "Ascending"@,
            OperationsHelper::DESCENDING => "Descending"@,
        }
    }
}

/// Runs the steps that were assigned to this node.
pub struct Executer {}

} // verus!
