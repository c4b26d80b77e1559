//! Response status codes with their numbers and reason phrases.
use vstd::prelude::*;

verus! {

/// A response status.
#[derive(Clone, Copy, Debug, PartialEq, Eq, Structural)]
pub enum StatusCode {
    OK,
    BadRequest,
    NotFound,
}

impl StatusCode {
    /// The numeric HTTP code.
    pub open spec fn spec_code(self) -> u16 {
        match self {
            StatusCode::OK => 200,
            StatusCode::BadRequest => 400,
            StatusCode::NotFound => 404,
        }
    }

    /// The reason phrase.
    pub open spec fn reason(self) -> Seq<char> {
        match self {
            StatusCode::OK => seq!['O', 'k'],
            StatusCode::BadRequest => seq!['B', 'a', 'd', ' ', 'R', 'e', 'q', 'u', 'e', 's', 't'],
            StatusCode::NotFound => seq!['N', 'o', 't', ' ', 'F', 'o', 'u', 'n', 'd'],
        }
    }

    /// The numeric HTTP code.
    pub fn code(&self) -> (r: u16)
        ensures
            r == self.spec_code(),
    {
        match self {
            StatusCode::OK => 200,
            StatusCode::BadRequest => 400,
            StatusCode::NotFound => 404,
        }
    }

    /// The reason phrase.
    pub fn message(&self) -> (r: &str)
        ensures
            r@ == self.reason(),
    {
        match self {
            StatusCode::OK => {
                proof {
                    reveal_strlit("Ok");
                    assert("Ok"@ =~= self.reason());
                }
                "Ok"
            },
            StatusCode::BadRequest => {
                proof {
                    reveal_strlit("Bad Request");
                    assert("Bad Request"@ =~= self.reason());
                }
                "Bad Request"
            },
            StatusCode::NotFound => {
                proof {
                    reveal_strlit("Not Found");
                    assert("Not Found"@ =~= self.reason());
                }
                "Not Found"
            },
        }
    }
}

} // verus!
