use vstd::prelude::*;

verus! {

/// Errors of this library.
#[derive(Debug)]
pub enum Error {
    /// The `grammar.json` input could not be read or parsed; the string says why.
    GrammarJson(String),
}

/// The text shown for an error: `grammar.json: ` followed by the reason.
pub open spec fn spec_error_message(e: Error) -> Seq<char> {
    match e {
        Error::GrammarJson(reason) => seq!['g', 'r', 'a', 'm', 'm', 'a', 'r', '.', 'j', 's', 'o', 'n', ':', ' '] + reason@,
    }
}

impl Error {
    /// The human-readable message of this error: `grammar.json: ` followed by
    /// the reason.
    pub fn message(&self) -> (res: String)
        ensures
            res@ == spec_error_message(*self),
    {
        match self {
            Error::GrammarJson(reason) => {
                let mut res = String::from_str("grammar.json: ");
                proof {
                    reveal_strlit("grammar.json: ");
                }
                res.append(reason.as_str());
                res
            },
        }
    }
}

} // verus!
