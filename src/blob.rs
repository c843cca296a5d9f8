//! Blobs: single-pass byte streams with an optional declared length and an
//! expected digest, and the byte ranges of partial fetches.

use vstd::prelude::*;

use crate::digest::{matches_spec, Digest, Validator};
use crate::error::{Error, ErrorKind};
use crate::text::{chars_of, dec_string, find_char, first_from, parse_u64, parse_u64_spec, push_decimal};

verus! {

pub open spec fn bytes_view(o: Option<Vec<u8>>) -> Option<Seq<u8>> {
    match o {
        Some(v) => Some(v@),
        None => None,
    }
}

/// What a blob's caller sees: its declared length, whether the stream has
/// ended, and the bytes handed out so far.
pub struct BlobView {
    pub declared: Option<u64>,
    pub exhausted: bool,
    pub delivered: Seq<u8>,
}

/// One pull on a blob: the network's next chunk, or the end of the stream.
/// Once the stream has ended, every pull yields nothing and changes nothing.
pub open spec fn chunk_step(b: BlobView, incoming: Option<Seq<u8>>) -> (BlobView, Option<Seq<u8>>) {
    if b.exhausted {
        (b, None)
    } else {
        match incoming {
            None => (BlobView { exhausted: true, ..b }, None),
            Some(c) => (BlobView { delivered: b.delivered + c, ..b }, Some(c)),
        }
    }
}

/// A blob whose headers have arrived. The caller reads its body chunk by
/// chunk while `wants_chunk` holds and hands each result to `next_chunk`.
pub struct Blob {
    declared: Option<u64>,
    expected: Digest,
    validator: Option<Validator>,
    exhausted: bool,
    delivered: Ghost<Seq<u8>>,
}

impl Blob {
    pub closed spec fn view(&self) -> BlobView {
        BlobView { declared: self.declared, exhausted: self.exhausted, delivered: self.delivered@ }
    }

    /// The digest the content is expected to have.
    pub closed spec fn expected_spec(&self) -> Digest {
        self.expected
    }

    /// Whether the content is being checked as it streams.
    pub closed spec fn validating(&self) -> bool {
        self.validator is Some
    }

    pub closed spec fn wf(&self) -> bool {
        match self.validator {
            Some(v) => v.wf() && v.fed() == self.delivered@ && v.algorithm() == self.expected.algorithm
                && v.expected_hex() == self.expected.hex@,
            None => true,
        }
    }

    /// A blob whose body has not been read. It checks its content against
    /// `expected` when `validate` holds and the algorithm is supported.
    pub fn new(expected: Digest, declared: Option<u64>, validate: bool) -> (r: Blob)
        ensures
            r.wf(),
            r.view() == (BlobView { declared, exhausted: false, delivered: Seq::empty() }),
            r.expected_spec() == expected,
            r.validating() == (validate && expected.algorithm.is_supported()),
    {
        let validator = if validate {
            expected.validator()
        } else {
            None
        };
        Blob { declared, expected, validator, exhausted: false, delivered: Ghost(Seq::empty()) }
    }

    /// The length that the response declared, when it did.
    pub fn len(&self) -> (r: Option<u64>)
        ensures
            r == self.view().declared,
    {
        self.declared
    }

    /// The digest the content is expected to have.
    pub fn get_expected_digest(&self) -> (r: &Digest)
        ensures
            *r == self.expected_spec(),
    {
        &self.expected
    }

    /// Whether the body still has to be read from the network.
    pub fn wants_chunk(&self) -> (r: bool)
        ensures
            r == !self.view().exhausted,
    {
        !self.exhausted
    }

    /// Takes the network's next chunk (`None` at the end of the body) and
    /// returns the chunk to consume, or `None` once the stream has ended.
    pub fn next_chunk(&mut self, incoming: Option<Vec<u8>>) -> (r: Option<Vec<u8>>)
        requires
            old(self).wf(),
        ensures
            final(self).wf(),
            (final(self).view(), bytes_view(r)) == chunk_step(old(self).view(), bytes_view(incoming)),
            final(self).expected_spec() == old(self).expected_spec(),
            final(self).validating() == old(self).validating(),
    {
        if self.exhausted {
            return None;
        }
        match incoming {
            None => {
                self.exhausted = true;
                None
            },
            Some(c) => {
                match &mut self.validator {
                    Some(v) => v.feed(c.as_slice()),
                    None => {},
                }
                self.delivered = Ghost(self.delivered@ + c@);
                Some(c)
            },
        }
    }

    /// After the end of the stream: whether the content matched the expected
    /// digest, or `None` when it was not checked.
    pub fn finish(self) -> (r: Option<bool>)
        requires
            self.wf(),
        ensures
            self.validating() ==> r == Some(matches_spec(self.expected_spec().algorithm, self.expected_spec().hex@, self.view().delivered)),
            !self.validating() ==> r is None,
    {
        match self.validator {
            Some(v) => Some(v.finish()),
            None => None,
        }
    }

    /// One pull of a full read into `buf`, which may hold at most `max`
    /// bytes: the chunk the stream yields is appended, or the read fails with
    /// `PayloadTooLarge`, leaving `buf` as it was.
    pub fn drain_chunk(&mut self, buf: &mut Vec<u8>, max: u64, incoming: Option<Vec<u8>>) -> (r: Result<(), Error>)
        requires
            old(self).wf(),
        ensures
            final(self).wf(),
            final(self).view() == chunk_step(old(self).view(), bytes_view(incoming)).0,
            final(self).expected_spec() == old(self).expected_spec(),
            final(self).validating() == old(self).validating(),
            match chunk_step(old(self).view(), bytes_view(incoming)).1 {
                None => r is Ok && final(buf)@ == old(buf)@,
                Some(c) => if old(buf)@.len() + c.len() > max {
                    r is Err && r->Err_0.kind == ErrorKind::PayloadTooLarge && final(buf)@ == old(buf)@
                } else {
                    r is Ok && final(buf)@ == old(buf)@ + c
                },
            },
    {
        match self.next_chunk(incoming) {
            None => Ok(()),
            Some(c) => append_bounded(buf, c.as_slice(), max),
        }
    }

    /// Fails with `PayloadTooLarge` when the declared length exceeds `max`.
    pub fn check_declared(&self, max: u64) -> (r: Result<(), Error>)
        ensures
            r is Err <==> (self.view().declared matches Some(d) && d > max),
            r matches Err(e) ==> e.kind == ErrorKind::PayloadTooLarge,
    {
        match self.declared {
            Some(d) => if d > max {
                Err(Error::new(ErrorKind::PayloadTooLarge))
            } else {
                Ok(())
            },
            None => Ok(()),
        }
    }
}

/// Appends a chunk to a buffer that may hold at most `max` bytes; fails with
/// `PayloadTooLarge`, leaving the buffer as it was, when it would not fit.
pub fn append_bounded(buf: &mut Vec<u8>, chunk: &[u8], max: u64) -> (r: Result<(), Error>)
    ensures
        r is Err <==> old(buf)@.len() + chunk@.len() > max,
        r matches Err(e) ==> e.kind == ErrorKind::PayloadTooLarge && final(buf)@ == old(buf)@,
        r is Ok ==> final(buf)@ == old(buf)@ + chunk@,
{
    if chunk.len() as u64 > max || buf.len() as u64 > max - chunk.len() as u64 {
        return Err(Error::new(ErrorKind::PayloadTooLarge));
    }
    let mut i: usize = 0;
    let ghost start = buf@;
    while i < chunk.len()
        invariant
            i <= chunk@.len(),
            buf@ == start + chunk@.take(i as int),
        decreases chunk.len() - i,
    {
        buf.push(chunk[i]);
        assert(chunk@.take(i + 1) =~= chunk@.take(i as int).push(chunk@[i as int]));
        i = i + 1;
    }
    assert(chunk@.take(chunk@.len() as int) =~= chunk@);
    Ok(())
}

/// Once a blob's stream has ended, pulling again yields nothing and leaves
/// the blob as it is, however often it is repeated and whatever the network
/// would have offered.
pub proof fn law_exhausted_blob_stays_exhausted(b: BlobView, first: Option<Seq<u8>>, second: Option<Seq<u8>>)
    requires
        b.exhausted,
    ensures
        chunk_step(b, first) == (b, None::<Seq<u8>>),
        chunk_step(chunk_step(b, first).0, second) == (b, None::<Seq<u8>>),
{
}

/// The bytes a blob hands out are the chunks it was given, in the order given.
pub proof fn law_blob_keeps_stream_order(b: BlobView, c1: Seq<u8>, c2: Seq<u8>)
    requires
        !b.exhausted,
    ensures
        chunk_step(chunk_step(b, Some(c1)).0, Some(c2)).0.delivered == b.delivered + c1 + c2,
{
    assert(b.delivered + c1 + c2 =~= (b.delivered + c1) + c2);
}

/// A request for the bytes from `start` to `end`, both included, or to the
/// end of the object when `end` is `None`.
#[derive(Debug, Clone, Copy, PartialEq, Eq, Structural)]
pub struct ByteRange {
    pub start: u64,
    pub end: Option<u64>,
}

pub open spec fn range_header_spec(r: ByteRange) -> Seq<char> {
    seq!['b', 'y', 't', 'e', 's', '='] + dec_string(r.start as nat) + seq!['-'] + match r.end {
        Some(e) => dec_string(e as nat),
        None => Seq::empty(),
    }
}

/// The `Range` header value: `bytes=<start>-<end>`, the end left out when open.
pub fn range_header(r: &ByteRange) -> (h: String)
    ensures
        h@ == range_header_spec(*r),
{
    proof {
        reveal_strlit("bytes=");
        reveal_strlit("-");
    }
    let mut h = String::from_str("bytes=");
    push_decimal(&mut h, r.start);
    h.append("-");
    match r.end {
        Some(e) => push_decimal(&mut h, e),
        None => {},
    }
    proof {
        assert(h@ =~= range_header_spec(*r));
    }
    h
}

pub open spec fn bytes_word() -> Seq<char> {
    seq!['b', 'y', 't', 'e', 's', ' ']
}

/// What a `Content-Range` value `bytes <start>-<end>/<total or *>` denotes.
pub open spec fn content_range_spec(h: Seq<char>) -> Option<(u64, u64, Option<u64>)> {
    let dash = first_from(h, 6, '-');
    let slash = first_from(h, dash + 1, '/');
    if h.len() < 6 || h.take(6) != bytes_word() || slash >= h.len() {
        None
    } else {
        let tail = h.skip(slash + 1);
        match (parse_u64_spec(h.subrange(6, dash)), parse_u64_spec(h.subrange(dash + 1, slash))) {
            (Some(s), Some(e)) => if tail == seq!['*'] {
                Some((s, e, None))
            } else {
                match parse_u64_spec(tail) {
                    Some(t) => Some((s, e, Some(t))),
                    None => None,
                }
            },
            _ => None,
        }
    }
}

/// Reads a `Content-Range` value.
pub fn parse_content_range(h: &str) -> (r: Option<(u64, u64, Option<u64>)>)
    ensures
        r == content_range_spec(h@),
{
    let cs = chars_of(h);
    let n = cs.len();
    let word = chars_of("bytes ");
    proof {
        reveal_strlit("bytes ");
        assert(word@ =~= bytes_word());
    }
    if n < 6 {
        return None;
    }
    let ok_word = crate::text::has_prefix(&cs, 0, 6, &word);
    proof {
        assert(cs@.subrange(0, 6) =~= cs@.take(6));
        assert(cs@.take(6).take(6) =~= cs@.take(6));
    }
    if !ok_word {
        return None;
    }
    let dash = find_char(&cs, 6, '-');
    if dash >= n {
        proof {
            crate::text::lemma_first_from_bounds(cs@, dash + 1, '/');
        }
        return None;
    }
    let slash = find_char(&cs, dash + 1, '/');
    if slash >= n {
        return None;
    }
    let s = parse_u64(&cs, 6, dash);
    let e = parse_u64(&cs, dash + 1, slash);
    proof {
        assert(cs@.subrange(slash + 1, n as int) =~= cs@.skip(slash + 1));
    }
    match (s, e) {
        (Some(s), Some(e)) => {
            if n - slash == 2 && cs[slash + 1] == '*' {
                proof {
                    assert(cs@.skip(slash + 1) =~= seq!['*']);
                }
                return Some((s, e, None));
            }
            proof {
                if cs@.skip(slash + 1) == seq!['*'] {
                    assert(cs@.skip(slash + 1)[0] == cs@[slash + 1]);
                }
            }
            match parse_u64(&cs, slash + 1, n) {
                Some(t) => Some((s, e, Some(t))),
                None => None,
            }
        },
        _ => None,
    }
}

/// The length of the body of a blob response. A partial answer (206) has
/// the length its `Content-Range` reports (when that fits in a `u64`), or an
/// unknown length without one;
/// any other answer has its `Content-Length`.
pub open spec fn body_length_spec(status: u16, content_range: Option<Seq<char>>, content_length: Option<u64>) -> Option<u64> {
    if status == 206 {
        match content_range {
            Some(h) => match content_range_spec(h) {
                Some((s, e, _)) => if s <= e && e - s < u64::MAX {
                    Some((e - s + 1) as u64)
                } else {
                    None
                },
                None => None,
            },
            None => None,
        }
    } else {
        content_length
    }
}

pub open spec fn str_view(o: Option<&str>) -> Option<Seq<char>> {
    match o {
        Some(s) => Some(s@),
        None => None,
    }
}

/// The declared length of a blob response.
pub fn body_length(status: u16, content_range: Option<&str>, content_length: Option<u64>) -> (r: Option<u64>)
    ensures
        r == body_length_spec(status, str_view(content_range), content_length),
{
    if status == 206 {
        match content_range {
            Some(h) => match parse_content_range(h) {
                Some((s, e, _)) => if s <= e && e - s < u64::MAX {
                    Some(e - s + 1)
                } else {
                    None
                },
                None => None,
            },
            None => None,
        }
    } else {
        content_length
    }
}

} // verus!
