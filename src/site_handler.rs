//! Routing of a static site: which file a request asks for, and the response it gets.
use vstd::prelude::*;
use vstd::string::StringExecFns;
use crate::method::Method;
use crate::request::Request;
use crate::response::Response;
use crate::status_code::StatusCode;
use crate::text::same_text;

verus! {

/// Serves the files under one public directory.
pub struct SiteHandler {
    public_path: String,
}

impl View for SiteHandler {
    type V = Seq<char>;

    /// The public directory.
    closed spec fn view(&self) -> Seq<char> {
        self.public_path@
    }
}

impl SiteHandler {
    /// A handler serving the given directory.
    pub fn new(public_path: String) -> (r: SiteHandler)
        ensures
            r@ == public_path@,
    {
        SiteHandler { public_path }
    }

    /// The public directory.
    pub fn public_path(&self) -> (r: &str)
        ensures
            r@ == self@,
    {
        self.public_path.as_str()
    }

    /// Where a requested file is looked for: `<public directory>/<file>`.
    pub fn location(&self, file: &str) -> (r: String)
        ensures
            r@ == self@ + seq!['/'] + file@,
    {
        proof {
            reveal_strlit("/");
        }
        let mut r = self.public_path.clone();
        r.append("/");
        r.append(file);
        assert(r@ =~= self@ + seq!['/'] + file@);
        r
    }

    /// The file a request asks for: `index.html` for `GET /`, the path for any other
    /// `GET`, none for another method.
    pub fn requested_file(&self, request: &Request) -> (r: Option<String>)
        ensures
            request@.method != Method::GET ==> r is None,
            request@.method == Method::GET && request@.path == "/"@ ==> (r matches Some(f)
                && f@ == "index.html"@),
            request@.method == Method::GET && request@.path != "/"@ ==> (r matches Some(f) && f@
                == request@.path),
    {
        match request.method() {
            Method::GET => {
                if same_text(request.path(), "/") {
                    Some(String::from_str("index.html"))
                } else {
                    Some(String::from_str(request.path()))
                }
            },
            _ => None,
        }
    }

    /// The response to a request, given what reading its file gave: `200` with the contents
    /// (for `GET /` also when there were none), `404` for a missing file, `400` for a method
    /// other than `GET`.
    pub fn response_for(&self, request: &Request, contents: Option<String>) -> (r: Response)
        ensures
            request@.method != Method::GET ==> r@ == (StatusCode::BadRequest, None::<Seq<char>>),
            request@.method == Method::GET && (request@.path == "/"@ || contents is Some) ==> r@
                == (StatusCode::OK, match contents {
                Some(c) => Some(c@),
                None => None::<Seq<char>>,
            }),
            request@.method == Method::GET && request@.path != "/"@ && contents is None ==> r@ == (
            StatusCode::NotFound, None::<Seq<char>>),
    {
        match request.method() {
            Method::GET => {
                if same_text(request.path(), "/") {
                    Response::new(StatusCode::OK, contents)
                } else {
                    match contents {
                        Some(c) => Response::new(StatusCode::OK, Some(c)),
                        None => Response::new(StatusCode::NotFound, None),
                    }
                }
            },
            _ => Response::new(StatusCode::BadRequest, None),
        }
    }
}

} // verus!
