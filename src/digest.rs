//! Content digests of the form `algorithm:hex`, and their validation.

use vstd::prelude::*;

use crate::error::{Error, ErrorKind};
use crate::text::{chars_of, push_char};

verus! {

/// The SHA-256 digest of a byte string, as computed by the `sha2` crate.
pub uninterp spec fn sha256_of(data: Seq<u8>) -> Seq<u8>;

/// The SHA-512 digest of a byte string, as computed by the `sha2` crate.
pub uninterp spec fn sha512_of(data: Seq<u8>) -> Seq<u8>;

/// The bytes fed so far to a SHA-256 hasher.
pub uninterp spec fn sha256_input(h: Sha256Hasher) -> Seq<u8>;

/// The bytes fed so far to a SHA-512 hasher.
pub uninterp spec fn sha512_input(h: Sha512Hasher) -> Seq<u8>;

/// A running `sha2::Sha256`. Verus cannot declare the hasher type itself (it
/// is built from a chain of `typenum` types), so it is held here, opaque.
#[verifier::external_body]
pub struct Sha256Hasher {
    inner: sha2::Sha256,
}

/// A running `sha2::Sha512`, held opaque for the same reason.
#[verifier::external_body]
pub struct Sha512Hasher {
    inner: sha2::Sha512,
}

/// Relies on `sha2::Sha256::new`: a hasher that has been fed nothing.
#[verifier::external_body]
fn sha256_new() -> (r: Sha256Hasher)
    ensures
        sha256_input(r) == Seq::<u8>::empty(),
{
    Sha256Hasher { inner: <sha2::Sha256 as sha2::Digest>::new() }
}

/// Relies on `sha2::Sha512::new`: a hasher that has been fed nothing.
#[verifier::external_body]
fn sha512_new() -> (r: Sha512Hasher)
    ensures
        sha512_input(r) == Seq::<u8>::empty(),
{
    Sha512Hasher { inner: <sha2::Sha512 as sha2::Digest>::new() }
}

/// Relies on `sha2::Sha256::update`: the chunk is appended to the hashed input.
#[verifier::external_body]
fn sha256_update(h: &mut Sha256Hasher, data: &[u8])
    ensures
        sha256_input(*final(h)) == sha256_input(*old(h)) + data@,
{
    <sha2::Sha256 as sha2::Digest>::update(&mut h.inner, data)
}

/// Relies on `sha2::Sha512::update`: the chunk is appended to the hashed input.
#[verifier::external_body]
fn sha512_update(h: &mut Sha512Hasher, data: &[u8])
    ensures
        sha512_input(*final(h)) == sha512_input(*old(h)) + data@,
{
    <sha2::Sha512 as sha2::Digest>::update(&mut h.inner, data)
}

/// Relies on `sha2::Sha256::finalize`: the SHA-256 of everything fed.
#[verifier::external_body]
fn sha256_finalize(h: Sha256Hasher) -> (r: Vec<u8>)
    ensures
        r@ == sha256_of(sha256_input(h)),
{
    <sha2::Sha256 as sha2::Digest>::finalize(h.inner).to_vec()
}

/// Relies on `sha2::Sha512::finalize`: the SHA-512 of everything fed.
#[verifier::external_body]
fn sha512_finalize(h: Sha512Hasher) -> (r: Vec<u8>)
    ensures
        r@ == sha512_of(sha512_input(h)),
{
    <sha2::Sha512 as sha2::Digest>::finalize(h.inner).to_vec()
}

pub open spec fn is_digit(c: char) -> bool {
    '0' <= c && c <= '9'
}

pub open spec fn is_lower(c: char) -> bool {
    'a' <= c && c <= 'z'
}

pub open spec fn is_upper(c: char) -> bool {
    'A' <= c && c <= 'Z'
}

/// Characters allowed in the algorithm part.
pub open spec fn is_algorithm_char(c: char) -> bool {
    is_digit(c) || is_lower(c) || c == '+' || c == '.' || c == '_' || c == '-'
}

/// Characters allowed in the encoded part.
pub open spec fn is_encoded_char(c: char) -> bool {
    is_digit(c) || is_lower(c) || is_upper(c) || c == '=' || c == '_' || c == '-'
}

pub open spec fn is_hex_char(c: char) -> bool {
    is_digit(c) || ('a' <= c && c <= 'f') || ('A' <= c && c <= 'F')
}

pub open spec fn to_lower(c: char) -> char {
    if is_upper(c) {
        ((c as u32) + 32) as char
    } else {
        c
    }
}

pub open spec fn lower_seq(s: Seq<char>) -> Seq<char> {
    s.map_values(|c: char| to_lower(c))
}

pub open spec fn sha256_name() -> Seq<char> {
    seq!['s', 'h', 'a', '2', '5', '6']
}

pub open spec fn sha512_name() -> Seq<char> {
    seq!['s', 'h', 'a', '5', '1', '2']
}

/// Whether an encoded part suits its algorithm: hex of the digest's fixed
/// size for the known algorithms, anything for the others.
pub open spec fn encoded_fits(alg: Seq<char>, enc: Seq<char>) -> bool {
    if alg == sha256_name() {
        enc.len() == 64 && forall|i: int| 0 <= i < enc.len() ==> is_hex_char(#[trigger] enc[i])
    } else if alg == sha512_name() {
        enc.len() == 128 && forall|i: int| 0 <= i < enc.len() ==> is_hex_char(#[trigger] enc[i])
    } else {
        true
    }
}

/// `s` is `algorithm:encoded`, split at position `k`.
pub open spec fn well_formed_at(s: Seq<char>, k: int) -> bool {
    &&& 0 < k && k + 1 < s.len()
    &&& s[k] == ':'
    &&& forall|i: int| 0 <= i < k ==> is_algorithm_char(#[trigger] s[i])
    &&& forall|i: int| k < i < s.len() ==> is_encoded_char(#[trigger] s[i])
    &&& encoded_fits(s.take(k), s.skip(k + 1))
}

/// What a digest string denotes: its algorithm name and its encoded part in
/// lower case, or nothing when it is malformed.
pub open spec fn parse_spec(s: Seq<char>) -> Option<(Seq<char>, Seq<char>)> {
    if exists|k: int| well_formed_at(s, k) {
        let k = choose|k: int| well_formed_at(s, k);
        Some((s.take(k), lower_seq(s.skip(k + 1))))
    } else {
        None
    }
}

pub open spec fn hex_digit(n: u8) -> char {
    if n < 10 {
        (('0' as u8) + n) as char
    } else {
        (('a' as u8) + n - 10) as char
    }
}

/// Lower-case hex of a byte string, two digits per byte, high nibble first.
pub open spec fn hex_of(b: Seq<u8>) -> Seq<char>
    decreases b.len(),
{
    if b.len() == 0 {
        Seq::empty()
    } else {
        hex_of(b.drop_last()).push(hex_digit(b.last() / 16)).push(hex_digit(b.last() % 16))
    }
}

/// A hash algorithm named by a digest.
#[derive(Debug, Clone, PartialEq, Eq)]
pub enum Algorithm {
    Sha256,
    Sha512,
    /// Any other name: digests that carry it cannot be checked here.
    Unsupported(String),
}

impl Algorithm {
    pub open spec fn name(&self) -> Seq<char> {
        match self {
            Algorithm::Sha256 => sha256_name(),
            Algorithm::Sha512 => sha512_name(),
            Algorithm::Unsupported(n) => n@,
        }
    }

    pub open spec fn is_supported(&self) -> bool {
        !(self is Unsupported)
    }

    /// The digest that this algorithm computes; meaningful for the supported ones.
    pub open spec fn hash_spec(&self, data: Seq<u8>) -> Seq<u8> {
        match self {
            Algorithm::Sha512 => sha512_of(data),
            _ => sha256_of(data),
        }
    }
}

/// A parsed digest. The encoded part is kept in lower case, so two digests
/// that differ only in the case of their hex are equal.
#[derive(Debug, Clone, PartialEq, Eq)]
pub struct Digest {
    pub algorithm: Algorithm,
    /// The encoded part, in lower case.
    pub hex: String,
}

impl View for Digest {
    type V = (Seq<char>, Seq<char>);

    open spec fn view(&self) -> (Seq<char>, Seq<char>) {
        (self.algorithm.name(), self.hex@)
    }
}

/// Whether `data` hashes, under `alg`, to the lower-case hex `hex`. Never
/// for an unsupported algorithm: such a digest cannot be checked.
pub open spec fn matches_spec(alg: Algorithm, hex: Seq<char>, data: Seq<u8>) -> bool {
    alg.is_supported() && hex_of(alg.hash_spec(data)) == hex
}

impl Digest {
    /// The invariant of a parsed digest.
    pub open spec fn wf(&self) -> bool {
        let a = self.algorithm.name();
        let h = self.hex@;
        &&& a.len() > 0
        &&& forall|i: int| 0 <= i < a.len() ==> is_algorithm_char(#[trigger] a[i])
        &&& h.len() > 0
        &&& forall|i: int| 0 <= i < h.len() ==> is_encoded_char(#[trigger] h[i]) && !is_upper(h[i])
        &&& encoded_fits(a, h)
        &&& (self.algorithm is Unsupported ==> a != sha256_name() && a != sha512_name())
    }

    /// The text form `algorithm:hex`.
    pub open spec fn text(&self) -> Seq<char> {
        self.algorithm.name() + seq![':'] + self.hex@
    }

    pub open spec fn hash_matches(&self, data: Seq<u8>) -> bool {
        matches_spec(self.algorithm, self.hex@, data)
    }

    /// Parses `algorithm:encoded`. The algorithm part is lower-case letters,
    /// digits and `+._-`; the encoded part is letters, digits and `=_-`, and
    /// for sha256 and sha512 exactly 64 or 128 hex digits of either case.
    pub fn parse(text: &str) -> (r: Result<Digest, Error>)
        ensures
            match parse_spec(text@) {
                Some(m) => r is Ok && r->Ok_0@ == m && r->Ok_0.wf(),
                None => r is Err && r->Err_0.kind == ErrorKind::MalformedDigest,
            },
    {
        let cs = chars_of(text);
        let n = cs.len();
        let ghost s = cs@;
        let mut k: usize = 0;
        while k < n && cs[k] != ':'
            invariant
                k <= n,
                n == s.len(),
                s == cs@,
                forall|j: int| 0 <= j < k ==> s[j] != ':',
            decreases n - k,
        {
            k = k + 1;
        }
        if k == n {
            proof {
                assert forall|k2: int| !well_formed_at(s, k2) by {
                    if well_formed_at(s, k2) {
                        assert(s[k2] == ':');
                    }
                }
            }
            return Err(Error::new(ErrorKind::MalformedDigest));
        }
        proof {
            lemma_first_colon_unique(s, k as int);
        }
        if k == 0 || k + 1 >= n {
            return Err(Error::new(ErrorKind::MalformedDigest));
        }
        let mut i: usize = 0;
        while i < k
            invariant
                i <= k < n,
                s == cs@,
                s == text@,
                n == s.len(),
                forall|k2: int| well_formed_at(s, k2) ==> k2 == k,
                forall|j: int| 0 <= j < i ==> is_algorithm_char(#[trigger] s[j]),
            decreases k - i,
        {
            if !algorithm_char(cs[i]) {
                proof {
                    assert(!well_formed_at(s, k as int));
                }
                return Err(Error::new(ErrorKind::MalformedDigest));
            }
            i = i + 1;
        }
        let mut all_hex = true;
        let mut i: usize = k + 1;
        while i < n
            invariant
                k + 1 <= i <= n,
                s == cs@,
                s == text@,
                n == s.len(),
                forall|k2: int| well_formed_at(s, k2) ==> k2 == k,
                forall|j: int| 0 <= j < k ==> is_algorithm_char(#[trigger] s[j]),
                forall|j: int| k < j < i ==> is_encoded_char(#[trigger] s[j]),
                all_hex == forall|j: int| k < j < i ==> is_hex_char(#[trigger] s[j]),
            decreases n - i,
        {
            if !encoded_char(cs[i]) {
                proof {
                    assert(!well_formed_at(s, k as int));
                }
                return Err(Error::new(ErrorKind::MalformedDigest));
            }
            all_hex = all_hex && hex_char(cs[i]);
            i = i + 1;
        }
        let ghost a = s.take(k as int);
        let ghost e = s.skip(k + 1);
        let is256 = k == 6 && cs[0] == 's' && cs[1] == 'h' && cs[2] == 'a' && cs[3] == '2'
            && cs[4] == '5' && cs[5] == '6';
        let is512 = k == 6 && cs[0] == 's' && cs[1] == 'h' && cs[2] == 'a' && cs[3] == '5'
            && cs[4] == '1' && cs[5] == '2';
        proof {
            if is256 {
                assert(a =~= sha256_name());
            }
            if a == sha256_name() {
                assert(a.len() == 6 && a[3] == '2' && a[4] == '5' && a[5] == '6');
            }
            if is512 {
                assert(a =~= sha512_name());
            }
            if a == sha512_name() {
                assert(a.len() == 6 && a[3] == '5' && a[4] == '1' && a[5] == '2');
            }
            assert(all_hex == forall|j: int| 0 <= j < e.len() ==> is_hex_char(#[trigger] e[j])) by {
                if all_hex {
                    assert forall|j: int| 0 <= j < e.len() implies is_hex_char(#[trigger] e[j]) by {
                        assert(e[j] == s[j + k + 1]);
                    }
                } else {
                    let j0 = choose|j: int| k < j < n && !is_hex_char(#[trigger] s[j]);
                    assert(e[j0 - k - 1] == s[j0]);
                }
            }
        }
        let elen = n - k - 1;
        let fits = if is256 {
            elen == 64 && all_hex
        } else if is512 {
            elen == 128 && all_hex
        } else {
            true
        };
        if !fits {
            proof {
                assert(!encoded_fits(a, e));
            }
            return Err(Error::new(ErrorKind::MalformedDigest));
        }
        proof {
            assert(well_formed_at(s, k as int));
        }
        let mut hex = String::new();
        let mut i: usize = k + 1;
        while i < n
            invariant
                k + 1 <= i <= n,
                s == cs@,
                n == s.len(),
                hex@ == lower_seq(s.subrange(k + 1, i as int)),
            decreases n - i,
        {
            let c = lower_char(cs[i]);
            push_char(&mut hex, c);
            proof {
                assert(s.subrange(k + 1, i + 1) =~= s.subrange(k + 1, i as int).push(s[i as int]));
                assert(lower_seq(s.subrange(k + 1, i + 1)) =~= lower_seq(s.subrange(k + 1, i as int)).push(c));
            }
            i = i + 1;
        }
        proof {
            assert(s.subrange(k + 1, n as int) =~= e);
        }
        let algorithm = if is256 {
            Algorithm::Sha256
        } else if is512 {
            Algorithm::Sha512
        } else {
            let mut name = String::new();
            let mut i: usize = 0;
            while i < k
                invariant
                    i <= k < n,
                    s == cs@,
                    n == s.len(),
                    name@ == s.subrange(0, i as int),
                decreases k - i,
            {
                push_char(&mut name, cs[i]);
                proof {
                    assert(s.subrange(0, i + 1) =~= s.subrange(0, i as int).push(s[i as int]));
                }
                i = i + 1;
            }
            proof {
                assert(name@ =~= a);
            }
            Algorithm::Unsupported(name)
        };
        let d = Digest { algorithm, hex };
        proof {
            assert(d.algorithm.name() == a);
            lemma_lower_keeps_encoded(e);
        }
        Ok(d)
    }

    /// The text form `algorithm:hex`, with the hex in lower case.
    pub fn as_str(&self) -> (r: String)
        ensures
            r@ == self.text(),
    {
        let mut r = match &self.algorithm {
            Algorithm::Sha256 => {
                proof {
                    reveal_strlit("sha256");
                }
                String::from_str("sha256")
            },
            Algorithm::Sha512 => {
                proof {
                    reveal_strlit("sha512");
                }
                String::from_str("sha512")
            },
            Algorithm::Unsupported(n) => n.clone(),
        };
        proof {
            reveal_strlit(":");
        }
        r.append(":");
        r.append(self.hex.as_str());
        r
    }

    /// A copy of this digest.
    pub fn duplicate(&self) -> (r: Digest)
        ensures
            r@ == self@,
            r.algorithm.is_supported() == self.algorithm.is_supported(),
            r.wf() == self.wf(),
    {
        let algorithm = match &self.algorithm {
            Algorithm::Sha256 => Algorithm::Sha256,
            Algorithm::Sha512 => Algorithm::Sha512,
            Algorithm::Unsupported(n) => Algorithm::Unsupported(n.clone()),
        };
        Digest { algorithm, hex: self.hex.clone() }
    }

    /// Whether two digests have the same text form.
    pub fn same_as(&self, other: &Digest) -> (r: bool)
        ensures
            r == (self.text() == other.text()),
    {
        self.as_str() == other.as_str()
    }

    /// Whether `data` hashes to this digest. False when the algorithm is not
    /// supported.
    pub fn validate_once(&self, data: &[u8]) -> (r: bool)
        ensures
            r == self.hash_matches(data@),
    {
        match &self.algorithm {
            Algorithm::Sha256 => {
                let mut h = sha256_new();
                sha256_update(&mut h, data);
                assert(Seq::<u8>::empty() + data@ =~= data@);
                let out = sha256_finalize(h);
                let hx = hex_string(&out);
                hx == self.hex
            },
            Algorithm::Sha512 => {
                let mut h = sha512_new();
                sha512_update(&mut h, data);
                assert(Seq::<u8>::empty() + data@ =~= data@);
                let out = sha512_finalize(h);
                let hx = hex_string(&out);
                hx == self.hex
            },
            Algorithm::Unsupported(_) => false,
        }
    }

    /// An incremental validator for this digest, or `None` when its algorithm
    /// is not supported.
    pub fn validator(&self) -> (r: Option<Validator>)
        ensures
            r is None <==> !self.algorithm.is_supported(),
            r matches Some(v) ==> v.wf() && v.fed() == Seq::<u8>::empty() && v.algorithm()
                == self.algorithm && v.expected_hex() == self.hex@,
    {
        match &self.algorithm {
            Algorithm::Sha256 => Some(
                Validator {
                    algorithm: Algorithm::Sha256,
                    hex: self.hex.clone(),
                    state: HasherState::Sha256(sha256_new()),
                    fed: Ghost(Seq::empty()),
                },
            ),
            Algorithm::Sha512 => Some(
                Validator {
                    algorithm: Algorithm::Sha512,
                    hex: self.hex.clone(),
                    state: HasherState::Sha512(sha512_new()),
                    fed: Ghost(Seq::empty()),
                },
            ),
            Algorithm::Unsupported(_) => None,
        }
    }
}

enum HasherState {
    Sha256(Sha256Hasher),
    Sha512(Sha512Hasher),
}

/// Checks a stream against a digest: feed it the chunks in stream order, then
/// finish once. Finishing consumes the validator.
pub struct Validator {
    algorithm: Algorithm,
    hex: String,
    state: HasherState,
    fed: Ghost<Seq<u8>>,
}

impl Validator {
    /// The bytes fed so far, in order.
    pub closed spec fn fed(&self) -> Seq<u8> {
        self.fed@
    }

    pub closed spec fn algorithm(&self) -> Algorithm {
        self.algorithm
    }

    pub closed spec fn expected_hex(&self) -> Seq<char> {
        self.hex@
    }

    pub closed spec fn wf(&self) -> bool {
        match self.state {
            HasherState::Sha256(h) => self.algorithm is Sha256 && sha256_input(h) == self.fed@,
            HasherState::Sha512(h) => self.algorithm is Sha512 && sha512_input(h) == self.fed@,
        }
    }

    /// Feeds the next chunk of the stream.
    pub fn feed(&mut self, chunk: &[u8])
        requires
            old(self).wf(),
        ensures
            final(self).wf(),
            final(self).fed() == old(self).fed() + chunk@,
            final(self).algorithm() == old(self).algorithm(),
            final(self).expected_hex() == old(self).expected_hex(),
    {
        match &mut self.state {
            HasherState::Sha256(h) => sha256_update(h, chunk),
            HasherState::Sha512(h) => sha512_update(h, chunk),
        }
        self.fed = Ghost(self.fed@ + chunk@);
    }

    /// Whether everything fed hashes to the expected digest.
    pub fn finish(self) -> (r: bool)
        requires
            self.wf(),
        ensures
            r == matches_spec(self.algorithm(), self.expected_hex(), self.fed()),
    {
        let out = match self.state {
            HasherState::Sha256(h) => sha256_finalize(h),
            HasherState::Sha512(h) => sha512_finalize(h),
        };
        let hx = hex_string(&out);
        hx == self.hex
    }
}

fn algorithm_char(c: char) -> (r: bool)
    ensures
        r == is_algorithm_char(c),
{
    ('0' <= c && c <= '9') || ('a' <= c && c <= 'z') || c == '+' || c == '.' || c == '_' || c
        == '-'
}

fn encoded_char(c: char) -> (r: bool)
    ensures
        r == is_encoded_char(c),
{
    ('0' <= c && c <= '9') || ('a' <= c && c <= 'z') || ('A' <= c && c <= 'Z') || c == '='
        || c == '_' || c == '-'
}

fn hex_char(c: char) -> (r: bool)
    ensures
        r == is_hex_char(c),
{
    ('0' <= c && c <= '9') || ('a' <= c && c <= 'f') || ('A' <= c && c <= 'F')
}

fn lower_char(c: char) -> (r: char)
    ensures
        r == to_lower(c),
{
    if 'A' <= c && c <= 'Z' {
        (((c as u32) + 32) as u8) as char
    } else {
        c
    }
}

fn hex_digit_char(n: u8) -> (r: char)
    requires
        n < 16,
    ensures
        r == hex_digit(n),
{
    if n < 10 {
        ('0' as u8 + n) as char
    } else {
        ('a' as u8 + n - 10) as char
    }
}

/// Lower-case hex of `b`.
pub fn hex_string(b: &Vec<u8>) -> (r: String)
    ensures
        r@ == hex_of(b@),
{
    let mut r = String::new();
    let mut i: usize = 0;
    while i < b.len()
        invariant
            i <= b.len(),
            r@ == hex_of(b@.take(i as int)),
        decreases b.len() - i,
    {
        let x = b[i];
        push_char(&mut r, hex_digit_char(x / 16));
        push_char(&mut r, hex_digit_char(x % 16));
        proof {
            assert(b@.take(i + 1).drop_last() =~= b@.take(i as int));
        }
        i = i + 1;
    }
    proof {
        assert(b@.take(b.len() as int) =~= b@);
    }
    r
}

proof fn lemma_first_colon_unique(s: Seq<char>, k: int)
    requires
        0 <= k < s.len(),
        s[k] == ':',
        forall|j: int| 0 <= j < k ==> s[j] != ':',
    ensures
        forall|k2: int| well_formed_at(s, k2) ==> k2 == k,
{
    assert forall|k2: int| well_formed_at(s, k2) implies k2 == k by {
        if k2 > k {
            assert(is_algorithm_char(s[k]));
        }
    }
}

proof fn lemma_lower_keeps_encoded(e: Seq<char>)
    requires
        forall|i: int| 0 <= i < e.len() ==> is_encoded_char(#[trigger] e[i]),
    ensures
        forall|i: int| 0 <= i < e.len() ==> is_encoded_char(#[trigger] lower_seq(e)[i]) && !is_upper(lower_seq(e)[i]),
        (forall|i: int| 0 <= i < e.len() ==> is_hex_char(#[trigger] e[i])) ==> (forall|i: int|
            0 <= i < e.len() ==> is_hex_char(#[trigger] lower_seq(e)[i])),
{
}

proof fn lemma_lower_char(c: char)
    ensures
        is_encoded_char(c) == is_encoded_char(to_lower(c)),
        is_hex_char(c) == is_hex_char(to_lower(c)),
{
}

proof fn lemma_hex_of_lower(b: Seq<u8>)
    ensures
        hex_of(b).len() == 2 * b.len(),
        forall|i: int| 0 <= i < hex_of(b).len() ==> !is_upper(#[trigger] hex_of(b)[i]),
    decreases b.len(),
{
    if b.len() > 0 {
        lemma_hex_of_lower(b.drop_last());
    }
}

proof fn lemma_lower_no_upper(s: Seq<char>)
    requires
        forall|i: int| 0 <= i < s.len() ==> !is_upper(#[trigger] s[i]),
    ensures
        lower_seq(s) == s,
{
    assert(lower_seq(s) =~= s);
}

/// A digest accepts any bytes whose hash, written in hex of either case,
/// equals its encoded part.
pub proof fn law_digest_accepts_its_content(d: Digest, data: Seq<u8>)
    requires
        d.wf(),
        d.algorithm.is_supported(),
        lower_seq(hex_of(d.algorithm.hash_spec(data))) == lower_seq(d.hex@),
    ensures
        d.hash_matches(data),
{
    lemma_hex_of_lower(d.algorithm.hash_spec(data));
    lemma_lower_no_upper(hex_of(d.algorithm.hash_spec(data)));
    lemma_lower_no_upper(d.hex@);
}

/// Two digest strings that differ only in the case of their encoded part
/// parse to the same digest, or both fail to parse.
pub proof fn law_parse_ignores_case(a: Seq<char>, e1: Seq<char>, e2: Seq<char>)
    requires
        lower_seq(e1) == lower_seq(e2),
    ensures
        parse_spec(a + seq![':'] + e1) == parse_spec(a + seq![':'] + e2),
{
    let s1 = a + seq![':'] + e1;
    let s2 = a + seq![':'] + e2;
    let k = a.len() as int;
    assert(e1.len() == lower_seq(e1).len());
    assert(e2.len() == lower_seq(e2).len());
    assert(s1.take(k) =~= a);
    assert(s2.take(k) =~= a);
    assert(s1.skip(k + 1) =~= e1);
    assert(s2.skip(k + 1) =~= e2);
    assert forall|i: int| 0 <= i < e1.len() implies (is_encoded_char(e1[i]) <==> is_encoded_char(e2[i]))
        && (is_hex_char(e1[i]) <==> is_hex_char(e2[i])) by {
        assert(lower_seq(e1)[i] == lower_seq(e2)[i]);
        assert(lower_seq(e1)[i] == to_lower(e1[i]));
        assert(lower_seq(e2)[i] == to_lower(e2[i]));
        lemma_lower_char(e1[i]);
        lemma_lower_char(e2[i]);
    }
    assert forall|k2: int| well_formed_at(s1, k2) <==> well_formed_at(s2, k2) by {
        if k2 < k && 0 < k2 {
            assert(s1[k] == ':' && s2[k] == ':');
        }
        if k2 > k {
            assert(s1[k] == ':' && s2[k] == ':');
        }
        if k2 == k {
            if well_formed_at(s1, k2) {
                assert forall|i: int| k < i < s2.len() implies is_encoded_char(#[trigger] s2[i]) by {
                    assert(s1[i] == e1[i - k - 1] && s2[i] == e2[i - k - 1]);
                }
            }
            if well_formed_at(s2, k2) {
                assert forall|i: int| k < i < s1.len() implies is_encoded_char(#[trigger] s1[i]) by {
                    assert(s1[i] == e1[i - k - 1] && s2[i] == e2[i - k - 1]);
                }
            }
        }
    }
    assert forall|k2: int| well_formed_at(s1, k2) implies k2 == k by {
        if k2 != k {
            assert(s1[k] == ':');
        }
    }
}

/// Checking a stream chunk by chunk agrees with checking all its bytes at
/// once: a validator opened on a digest and fed the stream finishes with
/// the same answer as `validate_once` on the concatenated bytes.
pub proof fn law_incremental_agrees_with_one_shot(d: Digest, v: Validator, chunks: Seq<Seq<u8>>)
    requires
        v.algorithm() == d.algorithm,
        v.expected_hex() == d.hex@,
        v.fed() == chunks.fold_left(Seq::<u8>::empty(), |acc: Seq<u8>, c: Seq<u8>| acc + c),
    ensures
        matches_spec(v.algorithm(), v.expected_hex(), v.fed()) == d.hash_matches(
            chunks.fold_left(Seq::<u8>::empty(), |acc: Seq<u8>, c: Seq<u8>| acc + c),
        ),
{
}

} // verus!
