use vstd::prelude::*;
use crate::errors::thot_errors::{ThothErrors, error_text};

verus! {

/// The gRPC service of the math operations.
pub struct MathOperations {}

/// The answers the service gives besides results.
impl MathOperations {
    /// The status when one of the two matrices of a product is missing.
    pub fn missing_matrix_status() -> (status: String)
        ensures
            status@ == "Matrix X wasn't provided, please provide two matrixes"@,
    {
        "Matrix X wasn't provided, please provide two matrixes".to_owned()
    }

    /// The two matrices of a product request, or the status answered when
    /// either of them was not provided.
    pub fn matrices_given<T>(matrix_a: Option<Vec<Vec<T>>>, matrix_b: Option<Vec<Vec<T>>>) -> (given: Result<
        (Vec<Vec<T>>, Vec<Vec<T>>),
        String,
    >)
        ensures
            match given {
                Ok((a, b)) => matrix_a == Some(a) && matrix_b == Some(b),
                Err(status) => (matrix_a is None || matrix_b is None) && status@
                    == "Matrix X wasn't provided, please provide two matrixes"@,
            },
    {
        match (matrix_a, matrix_b) {
            (Some(a), Some(b)) => Ok((a, b)),
            _ => Err(Self::missing_matrix_status()),
        }
    }

    /// The status when planning failed with `e`.
    pub fn plan_failed_status(e: &ThothErrors) -> (status: String)
        ensures
            status@ == "Failed to create plans due to: "@ + error_text(*e),
    {
        let mut status = "Failed to create plans due to: ".to_owned();
        let text = e.message();
        status.append(text.as_str());
        status
    }

    /// The status when gathering failed with `e`.
    pub fn gather_failed_status(e: &ThothErrors) -> (status: String)
        ensures
            status@ == "Failed to gather results due to: "@ + error_text(*e),
    {
        let mut status = "Failed to gather results due to: ".to_owned();
        let text = e.message();
        status.append(text.as_str());
        status
    }

    /// The status of a result: the product's reply spells it `Succesfully`,
    /// the others `Successfully`.
    pub fn success_status(matrix_product: bool) -> (status: String)
        ensures
            status@ == if matrix_product {
                "Succesfully got your result."@
            } else {
                "Successfully got your result."@
            },
    {
        if matrix_product {
            "Succesfully got your result.".to_owned()
        } else {
            "Successfully got your result.".to_owned()
        }
    }
}

} // verus!
