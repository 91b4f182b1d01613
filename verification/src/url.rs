//! A materialized URL: scheme, authority, and path-with-query as plain text.
//!
//! Redirect targets are resolved by path substitution, not by full relative
//! URI resolution: a target without a scheme or authority of its own borrows
//! them from the original request's URL and keeps its path and query as
//! given.

use vstd::prelude::*;
use vstd::string::{StrSliceExecFns, StringExecFns};

verus! {

/// A URL split into its three materialized components.  A target URL of a
/// request has a scheme and an authority; a redirect target may lack both.
#[derive(Debug)]
pub struct Url {
    pub scheme: Option<String>,
    pub authority: Option<String>,
    pub path_and_query: String,
}

/// The mathematical model of a [`Url`].
#[verifier::ext_equal]
pub struct UrlView {
    pub scheme: Option<Seq<char>>,
    pub authority: Option<Seq<char>>,
    pub path_and_query: Seq<char>,
}

impl View for Url {
    type V = UrlView;

    open spec fn view(&self) -> UrlView {
        UrlView {
            scheme: match self.scheme {
                Some(s) => Some(s@),
                None => None,
            },
            authority: match self.authority {
                Some(a) => Some(a@),
                None => None,
            },
            path_and_query: self.path_and_query@,
        }
    }
}

/// Whether the scheme separator `://` starts at position `i` of `s`.
pub open spec fn sep_at(s: Seq<char>, i: int) -> bool {
    &&& 0 <= i
    &&& i + 3 <= s.len()
    &&& s[i] == ':'
    &&& s[i + 1] == '/'
    &&& s[i + 2] == '/'
}

/// The first position of `s`, at or after `i`, where the scheme separator
/// `://` starts.  The scan stops at the first `/` or `?`: once a path or a
/// query has begun, no scheme can follow, so a target such as
/// `/a?u=https://x` is a bare path.
pub open spec fn find_sep_from(s: Seq<char>, i: int) -> Option<int>
    decreases s.len() - i,
{
    if i < 0 || i + 3 > s.len() {
        None
    } else if s[i] == '/' || s[i] == '?' {
        None
    } else if sep_at(s, i) {
        Some(i)
    } else {
        find_sep_from(s, i + 1)
    }
}

/// The first position of the character `c` in `s` at or after `i`.
pub open spec fn find_char_from(s: Seq<char>, c: char, i: int) -> Option<int>
    decreases s.len() - i,
{
    if i < 0 || i >= s.len() {
        None
    } else if s[i] == c {
        Some(i)
    } else {
        find_char_from(s, c, i + 1)
    }
}

/// What parsing a URL string yields.  Text before the first `://` is the
/// scheme, provided no `/` or `?` comes first; the authority runs from
/// after the separator to the first `/` (the path defaults to `/` when
/// there is none); everything else is a bare path and query.
pub open spec fn url_of(s: Seq<char>) -> UrlView {
    match find_sep_from(s, 0) {
        None => UrlView { scheme: None, authority: None, path_and_query: s },
        Some(i) => {
            let rest = s.subrange(i + 3, s.len() as int);
            match find_char_from(rest, '/', 0) {
                None => UrlView {
                    scheme: Some(s.subrange(0, i)),
                    authority: Some(rest),
                    path_and_query: "/"@,
                },
                Some(j) => UrlView {
                    scheme: Some(s.subrange(0, i)),
                    authority: Some(rest.subrange(0, j)),
                    path_and_query: rest.subrange(j, rest.len() as int),
                },
            }
        },
    }
}

/// The textual form of a URL: `scheme://authority` followed by the path and
/// query when both are present, the bare path and query otherwise.
pub open spec fn url_text(u: UrlView) -> Seq<char> {
    match (u.scheme, u.authority) {
        (Some(sc), Some(au)) => sc + "://"@ + au + u.path_and_query,
        _ => u.path_and_query,
    }
}

impl Url {
    /// Parse a URL string into its components.  Parsing is total under the
    /// simplified grammar: text without `://`, or whose path or query
    /// begins before any `://`, is a bare path.
    pub fn parse(s: &str) -> (r: Url)
        ensures
            r@ == url_of(s@),
    {
        let n = s.unicode_len();
        let mut i: usize = 0;
        let mut sep: Option<usize> = None;
        while n >= 3 && i <= n - 3
            invariant_except_break
                sep is None,
            invariant
                n == s@.len(),
                i <= n,
                sep is None ==> find_sep_from(s@, 0) == find_sep_from(s@, i as int),
            ensures
                match sep {
                    Some(k) => find_sep_from(s@, 0) == Some(k as int) && sep_at(s@, k as int),
                    None => find_sep_from(s@, 0) is None,
                },
            decreases n - i,
        {
            let c = s.get_char(i);
            if c == '/' || c == '?' {
                proof {
                    assert(find_sep_from(s@, i as int) is None);
                }
                break ;
            }
            if c == ':' && s.get_char(i + 1) == '/' && s.get_char(i + 2) == '/' {
                proof {
                    assert(sep_at(s@, i as int));
                    assert(find_sep_from(s@, i as int) == Some(i as int));
                }
                sep = Some(i);
                break ;
            } else {
                i += 1;
            }
        }
        match sep {
            None => {
                assert(find_sep_from(s@, 0) is None);
                Url {
                    scheme: None,
                    authority: None,
                    path_and_query: String::from_str(s),
                }
            },
            Some(k) => {
                assert(k + 3 <= n);
                let scheme = String::from_str(s.substring_char(0, k));
                let rest = s.substring_char(k + 3, n);
                let ghost rest_view = s@.subrange(k + 3, n as int);
                let rest_len = n - (k + 3);
                assert(rest@ =~= rest_view);
                let mut j: usize = 0;
                let mut slash: Option<usize> = None;
                while j < rest_len
                    invariant_except_break
                        slash is None,
                    invariant
                        rest@ == rest_view,
                        rest_len == rest_view.len(),
                        j <= rest_len,
                        slash is None ==> find_char_from(rest_view, '/', 0) == find_char_from(
                            rest_view,
                            '/',
                            j as int,
                        ),
                    ensures
                        match slash {
                            Some(m) => find_char_from(rest_view, '/', 0) == Some(m as int) && m
                                < rest_len && rest_view[m as int] == '/',
                            None => find_char_from(rest_view, '/', 0) is None,
                        },
                    decreases rest_len - j,
                {
                    if rest.get_char(j) == '/' {
                        proof {
                            assert(find_char_from(rest_view, '/', j as int) == Some(j as int));
                        }
                        slash = Some(j);
                        break ;
                    } else {
                        j += 1;
                    }
                }
                match slash {
                    None => {
                        assert(find_char_from(rest_view, '/', 0) is None);
                        Url {
                            scheme: Some(scheme),
                            authority: Some(String::from_str(rest)),
                            path_and_query: String::from_str("/"),
                        }
                    },
                    Some(m) => {
                        let authority = String::from_str(rest.substring_char(0, m));
                        let path = String::from_str(rest.substring_char(m, rest_len));
                        Url {
                            scheme: Some(scheme),
                            authority: Some(authority),
                            path_and_query: path,
                        }
                    },
                }
            },
        }
    }

    /// The textual form of this URL.
    pub fn to_string(&self) -> (r: String)
        ensures
            r@ == url_text(self@),
    {
        match (&self.scheme, &self.authority) {
            (Some(sc), Some(au)) => {
                let mut out = sc.clone();
                out.append("://");
                out.append(au.as_str());
                out.append(self.path_and_query.as_str());
                out
            },
            _ => self.path_and_query.clone(),
        }
    }
}

impl Clone for Url {
    fn clone(&self) -> (r: Self)
        ensures
            r@ == self@,
    {
        Url {
            scheme: match &self.scheme {
                Some(s) => Some(s.clone()),
                None => None,
            },
            authority: match &self.authority {
                Some(a) => Some(a.clone()),
                None => None,
            },
            path_and_query: self.path_and_query.clone(),
        }
    }
}

} // verus!
