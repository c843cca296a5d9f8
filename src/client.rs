//! The registry's endpoints: request paths, and what each response status
//! means for the caller.

use vstd::prelude::*;

use crate::blob::str_view;
use crate::digest::{parse_spec, Digest};
use crate::error::{Error, ErrorKind};
use crate::pagination::{link_cursor, query_spec, Paginate};

verus! {

pub open spec fn with_query(path: Seq<char>, q: Seq<char>) -> Seq<char> {
    if q.len() == 0 {
        path
    } else {
        path + seq!['?'] + q
    }
}

pub open spec fn cursor_query(c: Option<Paginate>) -> Seq<char> {
    match c {
        Some(p) => query_spec(p.n, p.last@),
        None => Seq::empty(),
    }
}

fn add_query(path: &mut String, cursor: &Option<Paginate>)
    ensures
        final(path)@ == with_query(old(path)@, cursor_query(*cursor)),
{
    match cursor {
        Some(p) => {
            let q = p.query();
            if !q.as_str().is_empty() {
                proof {
                    reveal_strlit("?");
                }
                path.append("?");
                path.append(q.as_str());
                assert(final(path)@ =~= old(path)@ + seq!['?'] + q@);
            }
        },
        None => {},
    }
}

/// `/v2/_catalog`, with the cursor's query.
pub fn catalog_path(cursor: &Option<Paginate>) -> (r: String)
    ensures
        r@ == with_query("/v2/_catalog"@, cursor_query(*cursor)),
{
    let mut p = String::from_str("/v2/_catalog");
    add_query(&mut p, cursor);
    p
}

/// `/v2/<repo>/tags/list`, with the cursor's query.
pub fn tags_path(repo: &str, cursor: &Option<Paginate>) -> (r: String)
    ensures
        r@ == with_query("/v2/"@ + repo@ + "/tags/list"@, cursor_query(*cursor)),
{
    let mut p = String::from_str("/v2/");
    p.append(repo);
    p.append("/tags/list");
    add_query(&mut p, cursor);
    p
}

/// `/v2/<repo>/manifests/<tag or digest>`.
pub fn manifest_path(repo: &str, reference: &str) -> (r: String)
    ensures
        r@ == "/v2/"@ + repo@ + "/manifests/"@ + reference@,
{
    let mut p = String::from_str("/v2/");
    p.append(repo);
    p.append("/manifests/");
    p.append(reference);
    p
}

/// `/v2/<repo>/blobs/<digest>`.
pub fn blob_path(repo: &str, digest: &Digest) -> (r: String)
    ensures
        r@ == "/v2/"@ + repo@ + "/blobs/"@ + digest.text(),
{
    let mut p = String::from_str("/v2/");
    p.append(repo);
    p.append("/blobs/");
    let d = digest.as_str();
    p.append(d.as_str());
    p
}

/// A catalog response: `None` when the registry has no catalog (404), else
/// the cursor of the next page (`None` on the last page).
pub fn catalog_outcome(status: u16, link: Option<&str>) -> (r: Result<Option<Option<Paginate>>, Error>)
    ensures
        status == 404 ==> r matches Ok(None),
        status == 200 ==> match link {
            None => r matches Ok(Some(None)),
            Some(h) => match link_cursor(h@) {
                None => r is Err && r->Err_0.kind == ErrorKind::Protocol,
                Some(c) => r matches Ok(Some(Some(p))) && p@ == c,
            },
        },
        status != 404 && status != 200 ==> r is Err && r->Err_0.kind == ErrorKind::Protocol,
{
    if status == 404 {
        return Ok(None);
    }
    if status != 200 {
        return Err(Error::new(ErrorKind::Protocol));
    }
    match Paginate::from_link(link) {
        Ok(c) => Ok(Some(c)),
        Err(e) => Err(e),
    }
}

/// A tags response: the cursor of the next page, `RepoNotFound` on 404.
pub fn tags_outcome(status: u16, link: Option<&str>) -> (r: Result<Option<Paginate>, Error>)
    ensures
        status == 404 ==> r is Err && r->Err_0.kind == ErrorKind::RepoNotFound,
        status == 200 ==> match link {
            None => r matches Ok(None),
            Some(h) => match link_cursor(h@) {
                None => r is Err && r->Err_0.kind == ErrorKind::Protocol,
                Some(c) => r matches Ok(Some(p)) && p@ == c,
            },
        },
        status != 404 && status != 200 ==> r is Err && r->Err_0.kind == ErrorKind::Protocol,
{
    if status == 404 {
        return Err(Error::new(ErrorKind::RepoNotFound));
    }
    if status != 200 {
        return Err(Error::new(ErrorKind::Protocol));
    }
    Paginate::from_link(link)
}

/// A blob response must be whole (200) or partial (206); 404 means the
/// registry does not have it.
pub fn blob_outcome(status: u16) -> (r: Result<(), Error>)
    ensures
        (status == 200 || status == 206) <==> r is Ok,
        status == 404 ==> r is Err && r->Err_0.kind == ErrorKind::RepoNotFound,
        status != 200 && status != 206 && status != 404 ==> r is Err && r->Err_0.kind == ErrorKind::Protocol,
{
    if status == 200 || status == 206 {
        Ok(())
    } else if status == 404 {
        Err(Error::new(ErrorKind::RepoNotFound))
    } else {
        Err(Error::new(ErrorKind::Protocol))
    }
}

/// Whether a blob response is checked against the whole object's digest:
/// partial responses are not.
pub fn validates_whole_object(status: u16) -> (r: bool)
    ensures
        r == (status != 206),
{
    status != 206
}

/// The digest a manifest response is expected to have. The content-digest
/// header decides when present; it must then parse, and must match the
/// digest that was asked for, if one was. Without the header, the requested
/// digest stands, or none.
pub fn manifest_expected_digest(requested: Option<&Digest>, header: Option<&str>) -> (r: Result<Option<Digest>, Error>)
    ensures
        match header {
            None => match requested {
                None => r matches Ok(None),
                Some(d) => r matches Ok(Some(x)) && x@ == d@ && x.wf() == d.wf(),
            },
            Some(h) => match parse_spec(h@) {
                None => r is Err && r->Err_0.kind == ErrorKind::MalformedDigest,
                Some(m) => match requested {
                    Some(d) => if d.text() == m.0 + seq![':'] + m.1 {
                        r matches Ok(Some(x)) && x@ == m && x.wf()
                    } else {
                        r is Err && r->Err_0.kind == ErrorKind::DigestMismatch
                    },
                    None => r matches Ok(Some(x)) && x@ == m && x.wf(),
                },
            },
        },
{
    match header {
        None => match requested {
            None => Ok(None),
            Some(d) => Ok(Some(d.duplicate())),
        },
        Some(h) => {
            let got = Digest::parse(h)?;
            match requested {
                Some(d) => if d.same_as(&got) {
                    Ok(Some(got))
                } else {
                    Err(Error::new(ErrorKind::DigestMismatch))
                },
                None => Ok(Some(got)),
            }
        },
    }
}

} // verus!
