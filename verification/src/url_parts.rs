//! The parts of a URL that a provisioning URL is read from.

use vstd::prelude::*;
use vstd::string::StrSliceExecFns;
use crate::text::same_text;

verus! {

/// A URL taken apart: scheme, host, path, and the decoded query pairs in
/// the order in which they stand.
#[derive(Debug, PartialEq, Eq)]
pub struct UrlParts {
    pub scheme: String,
    pub host: Option<String>,
    pub path: String,
    pub query: Vec<(String, String)>,
}

/// The mathematical content of `UrlParts`.
pub struct UrlPartsView {
    pub scheme: Seq<char>,
    pub host: Option<Seq<char>>,
    pub path: Seq<char>,
    pub query: Seq<(Seq<char>, Seq<char>)>,
}

impl View for UrlParts {
    type V = UrlPartsView;

    open spec fn view(&self) -> UrlPartsView {
        UrlPartsView {
            scheme: self.scheme@,
            host: match self.host {
                Some(h) => Some(h@),
                None => None,
            },
            path: self.path@,
            query: Seq::new(self.query@.len(), |i: int| (self.query@[i].0@, self.query@[i].1@)),
        }
    }
}

/// The parts of a text read as a URL, or `None` where it is not one.
pub uninterp spec fn url_components(text: Seq<char>) -> Option<UrlPartsView>;

/// Calls `url::Url::parse` and copies out of the parsed URL its `scheme`,
/// `host_str`, `path` and `query_pairs`. Parsing is a function of the text
/// alone; its outcome is named `url_components`, and is `None` exactly where
/// the parser reports an error.
#[verifier::external_body]
pub(crate) fn split_url(text: &str) -> (r: Option<UrlParts>)
    ensures
        r is Some <==> url_components(text@) is Some,
        r matches Some(parts) ==> url_components(text@) == Some(parts@),
{
    match url::Url::parse(text) {
        Ok(u) => Some(
            UrlParts {
                scheme: u.scheme().to_string(),
                host: u.host_str().map(|h| h.to_string()),
                path: u.path().to_string(),
                query: u.query_pairs().map(|(k, v)| (k.into_owned(), v.into_owned())).collect(),
            },
        ),
        Err(_) => None,
    }
}

/// The value of the last pair with the given key.
pub open spec fn lookup(query: Seq<(Seq<char>, Seq<char>)>, key: Seq<char>) -> Option<Seq<char>>
    decreases query.len(),
{
    if query.len() == 0 {
        None
    } else if query.last().0 == key {
        Some(query.last().1)
    } else {
        lookup(query.drop_last(), key)
    }
}

/// Where the first segment of a path starts: behind its leading slashes.
pub open spec fn segment_start(path: Seq<char>, from: int) -> int
    decreases path.len() - from,
{
    if 0 <= from < path.len() && path[from] == '/' {
        segment_start(path, from + 1)
    } else {
        from
    }
}

/// Where the segment that starts at `from` ends: at the next slash, or at
/// the end of the path.
pub open spec fn segment_end(path: Seq<char>, from: int) -> int
    decreases path.len() - from,
{
    if 0 <= from < path.len() && path[from] != '/' {
        segment_end(path, from + 1)
    } else {
        from
    }
}

/// The first non-empty segment of a path, or the empty string.
pub open spec fn first_segment(path: Seq<char>) -> Seq<char> {
    let start = segment_start(path, 0);
    path.subrange(start, segment_end(path, start))
}

/// The first non-empty segment of what follows the scheme: the host where
/// the URL has one, else the first non-empty segment of the path.
pub open spec fn leading_segment(parts: UrlPartsView) -> Seq<char> {
    match parts.host {
        Some(h) => if h.len() > 0 {
            h
        } else {
            first_segment(parts.path)
        },
        None => first_segment(parts.path),
    }
}

impl UrlParts {
    /// The value of the last query pair with the given key.
    pub fn find<'a>(&'a self, key: &str) -> (r: Option<&'a String>)
        ensures
            match lookup(self@.query, key@) {
                Some(v) => r matches Some(s) && s@ == v,
                None => r is None,
            },
    {
        let n: usize = self.query.len();
        let mut found: Option<usize> = None;
        let mut i: usize = 0;
        let ghost q = self@.query;
        while i < n
            invariant
                i <= n,
                n == self.query@.len(),
                q == self@.query,
                match lookup(q.take(i as int), key@) {
                    Some(v) => found matches Some(j) && j < i && q[j as int].1 == v,
                    None => found is None,
                },
            decreases n - i,
        {
            proof {
                let next = q.take(i as int + 1);
                assert(next.drop_last() =~= q.take(i as int));
                assert(next.last() == q[i as int]);
            }
            if same_text(self.query[i].0.as_str(), key) {
                found = Some(i);
            }
            i += 1;
        }
        assert(q.take(n as int) =~= q);
        match found {
            Some(j) => Some(&self.query[j].1),
            None => None,
        }
    }

    /// The first non-empty segment of the path.
    pub fn first_path_segment<'a>(&'a self) -> (r: &'a str)
        ensures
            r@ == first_segment(self@.path),
    {
        let path: &str = self.path.as_str();
        let n: usize = path.unicode_len();
        let mut start: usize = 0;
        while start < n && path.get_char(start) == '/'
            invariant
                start <= n,
                n == path@.len(),
                segment_start(path@, 0) == segment_start(path@, start as int),
            decreases n - start,
        {
            start += 1;
        }
        let mut end: usize = start;
        while end < n && path.get_char(end) != '/'
            invariant
                start <= end <= n,
                n == path@.len(),
                segment_end(path@, start as int) == segment_end(path@, end as int),
            decreases n - end,
        {
            end += 1;
        }
        path.substring_char(start, end)
    }

    /// The first non-empty segment of host and path: see `leading_segment`.
    pub fn leading<'a>(&'a self) -> (r: &'a str)
        ensures
            r@ == leading_segment(self@),
    {
        match &self.host {
            Some(h) => {
                if h.as_str().unicode_len() > 0 {
                    h.as_str()
                } else {
                    self.first_path_segment()
                }
            },
            None => self.first_path_segment(),
        }
    }
}

} // verus!
