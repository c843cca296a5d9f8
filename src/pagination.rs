//! Pagination cursors of the list endpoints, read from `Link` headers.

use vstd::prelude::*;

use crate::error::{Error, ErrorKind};
use crate::text::{
    chars_of, dec_string, find_char, first_from, has_prefix, parse_u64, parse_u64_spec,
    push_decimal, starts_with, string_of,
};

verus! {

/// The value of the first `&`-separated field of `s`, from `pos` on, that
/// begins with `key` (which ends in `=`).
pub open spec fn param_from(s: Seq<char>, pos: int, key: Seq<char>) -> Option<Seq<char>>
    decreases s.len() - pos,
{
    if pos < 0 || pos > s.len() {
        None
    } else {
        let end = first_from(s, pos, '&');
        let field = s.subrange(pos, end);
        if starts_with(field, key) {
            Some(field.skip(key.len() as int))
        } else if end < pos || end >= s.len() {
            None
        } else {
            param_from(s, end + 1, key)
        }
    }
}

pub open spec fn n_key() -> Seq<char> {
    seq!['n', '=']
}

pub open spec fn last_key() -> Seq<char> {
    seq!['l', 'a', 's', 't', '=']
}

/// The tail that marks a link to the next page.
pub open spec fn rel_next() -> Seq<char> {
    seq![';', ' ', 'r', 'e', 'l', '=', '"', 'n', 'e', 'x', 't', '"']
}

/// The URL of a `<url>; rel="next"` header value.
pub open spec fn link_target(h: Seq<char>) -> Option<Seq<char>> {
    let close = first_from(h, 0, '>');
    if h.len() > 0 && h[0] == '<' && close < h.len() && h.skip(close + 1) == rel_next() {
        Some(h.subrange(1, close))
    } else {
        None
    }
}

/// The query part of a URL: what follows its first `?`.
pub open spec fn query_of(url: Seq<char>) -> Seq<char> {
    let q = first_from(url, 0, '?');
    if q < url.len() {
        url.skip(q + 1)
    } else {
        Seq::empty()
    }
}

/// The cursor that a query string describes, or nothing when its `n` field
/// is not a number. A missing `last` field reads as the empty key.
pub open spec fn cursor_of_query(q: Seq<char>) -> Option<(Option<u64>, Seq<char>)> {
    let last = match param_from(q, 0, last_key()) {
        Some(v) => v,
        None => Seq::empty(),
    };
    match param_from(q, 0, n_key()) {
        None => Some((None, last)),
        Some(v) => match parse_u64_spec(v) {
            Some(n) => Some((Some(n), last)),
            None => None,
        },
    }
}

/// The cursor that a `Link` header value points to.
pub open spec fn link_cursor(h: Seq<char>) -> Option<(Option<u64>, Seq<char>)> {
    match link_target(h) {
        Some(url) => cursor_of_query(query_of(url)),
        None => None,
    }
}

/// The query string of a page request: `n=<n>&last=<last>`, leaving out a
/// missing page size and an empty key.
pub open spec fn query_spec(n: Option<u64>, last: Seq<char>) -> Seq<char> {
    let np = match n {
        Some(x) => n_key() + dec_string(x as nat),
        None => Seq::empty(),
    };
    let lp = if last.len() > 0 {
        last_key() + last
    } else {
        Seq::empty()
    };
    if np.len() > 0 && lp.len() > 0 {
        np + seq!['&'] + lp
    } else {
        np + lp
    }
}

/// Where a list request resumes: a page size hint and the last key seen.
#[derive(Debug, Clone)]
pub struct Paginate {
    pub n: Option<u64>,
    pub last: String,
}

impl View for Paginate {
    type V = (Option<u64>, Seq<char>);

    open spec fn view(&self) -> (Option<u64>, Seq<char>) {
        (self.n, self.last@)
    }
}

impl Paginate {
    /// A cursor asking for pages of `n` entries after `last`.
    pub fn new(n: u64, last: String) -> (r: Paginate)
        ensures
            r@ == (Some(n), last@),
    {
        Paginate { n: Some(n), last }
    }

    /// The query string that requests the page this cursor points to.
    pub fn query(&self) -> (r: String)
        ensures
            r@ == query_spec(self.n, self.last@),
    {
        let mut r = String::new();
        let has_n = match self.n {
            Some(x) => {
                proof {
                    reveal_strlit("n=");
                }
                r.append("n=");
                push_decimal(&mut r, x);
                true
            },
            None => false,
        };
        proof {
            assert(r@ =~= match self.n {
                Some(x) => n_key() + dec_string(x as nat),
                None => Seq::empty(),
            });
        }
        let ghost np = r@;
        if !self.last.as_str().is_empty() {
            proof {
                reveal_strlit("&");
                reveal_strlit("last=");
                if let Some(x) = self.n {
                    crate::text::lemma_dec_string_nonempty(x as nat);
                }
            }
            if has_n {
                r.append("&");
            }
            r.append("last=");
            r.append(self.last.as_str());
            proof {
                if has_n {
                    assert(r@ =~= np + seq!['&'] + (last_key() + self.last@));
                } else {
                    assert(r@ =~= np + (last_key() + self.last@));
                }
            }
        } else {
            proof {
                assert(self.last@.len() == 0);
                assert(r@ =~= np + Seq::<char>::empty());
            }
        }
        r
    }

    /// The cursor for the next page, from the response's `Link` header. No
    /// header means the last page; a header of another shape is a protocol
    /// error.
    pub fn from_link(link: Option<&str>) -> (r: Result<Option<Paginate>, Error>)
        ensures
            match link {
                None => r matches Ok(None),
                Some(h) => match link_cursor(h@) {
                    None => r is Err && r->Err_0.kind == ErrorKind::Protocol,
                    Some(c) => r matches Ok(Some(p)) && p@ == c,
                },
            },
    {
        let h = match link {
            None => return Ok(None),
            Some(h) => h,
        };
        let cs = chars_of(h);
        let close = find_char(&cs, 0, '>');
        let tail = chars_of("; rel=\"next\"");
        proof {
            reveal_strlit("; rel=\"next\"");
            assert(tail@ =~= rel_next());
        }
        if cs.len() == 0 || cs[0] != '<' || close >= cs.len() || !has_prefix(&cs, close + 1, cs.len(), &tail)
            || cs.len() - (close + 1) != tail.len() {
            proof {
                if link_target(h@) is Some {
                    let t = cs@.subrange(close + 1, cs@.len() as int);
                    assert(t =~= cs@.skip(close + 1));
                    assert(t.take(tail@.len() as int) =~= t);
                }
            }
            return Err(Error::new(ErrorKind::Protocol));
        }
        proof {
            let t = cs@.subrange(close + 1, cs@.len() as int);
            assert(t =~= cs@.skip(close + 1));
            assert(t.take(tail@.len() as int) =~= t);
            assert(link_target(h@) == Some(cs@.subrange(1, close as int)));
        }
        let ghost url = cs@.subrange(1, close as int);
        let qm = find_char(&cs, 1, '?');
        let qlo = if qm < close {
            qm + 1
        } else {
            close
        };
        proof {
            crate::text::lemma_first_from_bounds(cs@, 0, '>');
            assert(close >= 1);
            crate::text::lemma_first_from_bounds(cs@, 1, '?');
            crate::text::lemma_first_from_bounds(url, 0, '?');
            lemma_first_from_shift(cs@, url, 1, close as int, '?');
            if qm < close {
                assert(query_of(url) =~= cs@.subrange(qlo as int, close as int));
            } else {
                assert(query_of(url) =~= cs@.subrange(qlo as int, close as int));
            }
        }
        let q = sub_vec(&cs, qlo, close);
        let last_k = chars_of("last=");
        let n_k = chars_of("n=");
        proof {
            reveal_strlit("last=");
            reveal_strlit("n=");
            assert(last_k@ =~= last_key());
            assert(n_k@ =~= n_key());
        }
        let last = match param_value(&q, &last_k) {
            Some((lo, hi)) => string_of(&q, lo, hi),
            None => String::new(),
        };
        let n = match param_value(&q, &n_k) {
            None => None,
            Some((lo, hi)) => match parse_u64(&q, lo, hi) {
                Some(x) => Some(x),
                None => return Err(Error::new(ErrorKind::Protocol)),
            },
        };
        Ok(Some(Paginate { n, last }))
    }
}

proof fn lemma_first_from_shift(s: Seq<char>, t: Seq<char>, off: int, end: int, c: char)
    requires
        0 <= off <= end <= s.len(),
        t == s.subrange(off, end),
    ensures
        first_from(s, off, c) < end ==> first_from(t, 0, c) == first_from(s, off, c) - off,
        first_from(s, off, c) >= end ==> first_from(t, 0, c) == t.len(),
{
    crate::text::lemma_first_from_bounds(s, off, c);
    crate::text::lemma_first_from_bounds(t, 0, c);
    let a = first_from(s, off, c);
    let b = first_from(t, 0, c);
    if b < t.len() {
        assert(t[b] == s[b + off]);
    }
    if a < end {
        assert(s[a] == t[a - off]);
    }
}

/// The characters of `cs[lo..hi]`.
fn sub_vec(cs: &Vec<char>, lo: usize, hi: usize) -> (r: Vec<char>)
    requires
        lo <= hi <= cs.len(),
    ensures
        r@ == cs@.subrange(lo as int, hi as int),
{
    let mut r: Vec<char> = Vec::new();
    let mut i = lo;
    while i < hi
        invariant
            lo <= i <= hi <= cs.len(),
            r@ == cs@.subrange(lo as int, i as int),
        decreases hi - i,
    {
        r.push(cs[i]);
        assert(cs@.subrange(lo as int, i + 1) =~= cs@.subrange(lo as int, i as int).push(cs@[i as int]));
        i = i + 1;
    }
    r
}

/// Where the value of the first field that begins with `key` lies in `q`.
fn param_value(q: &Vec<char>, key: &Vec<char>) -> (r: Option<(usize, usize)>)
    ensures
        match r {
            Some((lo, hi)) => lo <= hi <= q.len() && param_from(q@, 0, key@) == Some(
                q@.subrange(lo as int, hi as int),
            ),
            None => param_from(q@, 0, key@) is None,
        },
{
    let mut pos: usize = 0;
    loop
        invariant
            pos <= q.len(),
            param_from(q@, pos as int, key@) == param_from(q@, 0, key@),
        decreases q.len() - pos,
    {
        let end = find_char(q, pos, '&');
        if has_prefix(q, pos, end, key) {
            proof {
                assert(q@.subrange(pos as int, end as int).skip(key@.len() as int) =~= q@.subrange(
                    pos + key@.len(),
                    end as int,
                ));
            }
            return Some((pos + key.len(), end));
        }
        if end >= q.len() {
            return None;
        }
        pos = end + 1;
    }
}

} // verus!
