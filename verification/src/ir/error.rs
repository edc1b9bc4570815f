use vstd::prelude::*;
use vstd::string::StringExecFns;

verus! {

/// What can go wrong in the core.
#[derive(Debug, Clone, PartialEq, Eq)]
pub enum CoreError {
    General(String),
}

impl CoreError {
    /// The error as a line of text.
    pub fn message(&self) -> (text: String)
        ensures
            text@ == match self {
                CoreError::General(m) => "一般错误: "@ + m@,
            },
    {
        match self {
            CoreError::General(m) => "一般错误: ".to_owned().concat(m.as_str()),
        }
    }
}

} // verus!
