use vstd::prelude::*;

use crate::module::Module;
use crate::value::{Value, keyed_view};

verus! {

/// The errors that can happen when rendering a module's contents.
#[derive(Debug, PartialEq, Eq)]
pub enum RenderError {
    /// The module holds no contents.
    MissingContents,
}

/// What the validate command is given: the path of the module document to check.
#[derive(Debug, PartialEq, Eq)]
pub struct ValidateArguments {
    pub source: String,
}

impl Module {
    /// The contents to render: refused when the module holds none.
    pub fn contents_to_render(&self) -> (r: Result<&Vec<(String, Value)>, RenderError>)
        ensures
            match self@.contents {
                None => r == Err::<&Vec<(String, Value)>, RenderError>(RenderError::MissingContents),
                Some(c) => r matches Ok(v) && keyed_view(v@) == c,
            },
    {
        match &self.contents {
            Some(c) => Ok(c),
            None => Err(RenderError::MissingContents),
        }
    }
}

} // verus!
