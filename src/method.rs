//! The closed set of request methods and their parsing from text.
use vstd::prelude::*;
use crate::text::same_text;

verus! {

/// A request method.
#[derive(Clone, Copy, Debug, PartialEq, Eq, Structural)]
pub enum Method {
    GET,
    DELETE,
    PUT,
    POST,
    HEAD,
    CONNECT,
    OPTIONS,
    TRACE,
    PATH,
}

/// The text is not one of the method names.
#[derive(Clone, Copy, Debug, PartialEq, Eq, Structural)]
pub struct MethodError;

impl Method {
    /// The canonical upper-case name of the method.
    pub open spec fn name(self) -> Seq<char> {
        match self {
            Method::GET => seq!['G', 'E', 'T'],
            Method::DELETE => seq!['D', 'E', 'L', 'E', 'T', 'E'],
            Method::PUT => seq!['P', 'U', 'T'],
            Method::POST => seq!['P', 'O', 'S', 'T'],
            Method::HEAD => seq!['H', 'E', 'A', 'D'],
            Method::CONNECT => seq!['C', 'O', 'N', 'N', 'E', 'C', 'T'],
            Method::OPTIONS => seq!['O', 'P', 'T', 'I', 'O', 'N', 'S'],
            Method::TRACE => seq!['T', 'R', 'A', 'C', 'E'],
            Method::PATH => seq!['P', 'A', 'T', 'H'],
        }
    }

    /// Parses a method name: exact, case-sensitive, nothing trimmed.
    pub fn from_str(s: &str) -> (r: Result<Method, MethodError>)
        ensures
            r == method_of(s@).ok_or(MethodError),
    {
        proof {
            reveal_strlit("GET");
            reveal_strlit("DELETE");
            reveal_strlit("PUT");
            reveal_strlit("POST");
            reveal_strlit("HEAD");
            reveal_strlit("CONNECT");
            reveal_strlit("OPTIONS");
            reveal_strlit("TRACE");
            reveal_strlit("PATH");
            assert("GET"@ =~= Method::GET.name());
            assert("DELETE"@ =~= Method::DELETE.name());
            assert("PUT"@ =~= Method::PUT.name());
            assert("POST"@ =~= Method::POST.name());
            assert("HEAD"@ =~= Method::HEAD.name());
            assert("CONNECT"@ =~= Method::CONNECT.name());
            assert("OPTIONS"@ =~= Method::OPTIONS.name());
            assert("TRACE"@ =~= Method::TRACE.name());
            assert("PATH"@ =~= Method::PATH.name());
        }
        if same_text(s, "GET") {
            Ok(Method::GET)
        } else if same_text(s, "DELETE") {
            Ok(Method::DELETE)
        } else if same_text(s, "PUT") {
            Ok(Method::PUT)
        } else if same_text(s, "POST") {
            Ok(Method::POST)
        } else if same_text(s, "HEAD") {
            Ok(Method::HEAD)
        } else if same_text(s, "CONNECT") {
            Ok(Method::CONNECT)
        } else if same_text(s, "OPTIONS") {
            Ok(Method::OPTIONS)
        } else if same_text(s, "TRACE") {
            Ok(Method::TRACE)
        } else if same_text(s, "PATH") {
            Ok(Method::PATH)
        } else {
            Err(MethodError)
        }
    }
}

/// The method whose name is exactly `s`, if any.
pub open spec fn method_of(s: Seq<char>) -> Option<Method> {
    if s == Method::GET.name() {
        Some(Method::GET)
    } else if s == Method::DELETE.name() {
        Some(Method::DELETE)
    } else if s == Method::PUT.name() {
        Some(Method::PUT)
    } else if s == Method::POST.name() {
        Some(Method::POST)
    } else if s == Method::HEAD.name() {
        Some(Method::HEAD)
    } else if s == Method::CONNECT.name() {
        Some(Method::CONNECT)
    } else if s == Method::OPTIONS.name() {
        Some(Method::OPTIONS)
    } else if s == Method::TRACE.name() {
        Some(Method::TRACE)
    } else if s == Method::PATH.name() {
        Some(Method::PATH)
    } else {
        None
    }
}

/// Parsing recognises exactly the nine names: each name gives its own method, and any
/// text that gives a method is that method's name (so empty, lower-case or unknown text
/// gives none).
pub proof fn lemma_method_names(m: Method, s: Seq<char>)
    ensures
        method_of(m.name()) == Some(m),
        method_of(s) == Some(m) ==> s == m.name(),
{
    let g = Method::GET.name();
    let d = Method::DELETE.name();
    let pu = Method::PUT.name();
    let po = Method::POST.name();
    let h = Method::HEAD.name();
    let c = Method::CONNECT.name();
    let o = Method::OPTIONS.name();
    let t = Method::TRACE.name();
    let pa = Method::PATH.name();
    assert(g != d && g != pu && g != po && g != h && g != c && g != o && g != t && g != pa) by {
        assert(g.len() != d.len() && g[0] != pu[0] && g.len() != po.len() && g.len() != h.len());
        assert(g.len() != c.len() && g.len() != o.len() && g.len() != t.len() && g.len() != pa.len());
    }
    assert(d != pu && d != po && d != h && d != c && d != o && d != t && d != pa) by {
        assert(d.len() != pu.len() && d.len() != po.len() && d.len() != h.len());
        assert(d.len() != c.len() && d.len() != o.len() && d.len() != t.len() && d.len() != pa.len());
    }
    assert(pu != po && pu != h && pu != c && pu != o && pu != t && pu != pa) by {
        assert(pu.len() != po.len() && pu.len() != h.len() && pu.len() != c.len());
        assert(pu.len() != o.len() && pu.len() != t.len() && pu.len() != pa.len());
    }
    assert(po != h && po != c && po != o && po != t && po != pa) by {
        assert(po[0] != h[0] && po.len() != c.len() && po.len() != o.len());
        assert(po.len() != t.len() && po[1] != pa[1]);
    }
    assert(h != c && h != o && h != t && h != pa) by {
        assert(h.len() != c.len() && h.len() != o.len() && h.len() != t.len() && h[0] != pa[0]);
    }
    assert(c != o && c != t && c != pa) by {
        assert(c[0] != o[0] && c.len() != t.len() && c.len() != pa.len());
    }
    assert(o != t && o != pa) by {
        assert(o.len() != t.len() && o.len() != pa.len());
    }
    assert(t != pa) by {
        assert(t.len() != pa.len());
    }
}

} // verus!
