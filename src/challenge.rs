//! `WWW-Authenticate` challenges: `Bearer realm="..",service="..",scope=".."`
//! or `Basic realm=".."`.

use vstd::prelude::*;

use crate::text::{chars_of, find_char, first_from, string_of};

verus! {

/// The `key="value"` pairs from `pos` on, separated by single commas.
pub open spec fn params_spec(s: Seq<char>, pos: int) -> Option<Seq<(Seq<char>, Seq<char>)>>
    decreases s.len() - pos,
{
    if pos < 0 || pos >= s.len() {
        None
    } else {
        let eq = first_from(s, pos, '=');
        if eq + 1 >= s.len() || s[eq + 1] != '"' {
            None
        } else {
            let close = first_from(s, eq + 2, '"');
            if close >= s.len() || close + 2 <= pos {
                None
            } else {
                let item = (s.subrange(pos, eq), s.subrange(eq + 2, close));
                if close + 1 == s.len() {
                    Some(seq![item])
                } else if s[close + 1] == ',' {
                    match params_spec(s, close + 2) {
                        Some(rest) => Some(seq![item] + rest),
                        None => None,
                    }
                } else {
                    None
                }
            }
        }
    }
}

/// The value of the first pair with the given key.
pub open spec fn lookup_spec(ps: Seq<(Seq<char>, Seq<char>)>, key: Seq<char>) -> Option<Seq<char>>
    decreases ps.len(),
{
    if ps.len() == 0 {
        None
    } else if ps[0].0 == key {
        Some(ps[0].1)
    } else {
        lookup_spec(ps.skip(1), key)
    }
}

pub open spec fn bearer_word() -> Seq<char> {
    seq!['B', 'e', 'a', 'r', 'e', 'r']
}

pub open spec fn basic_word() -> Seq<char> {
    seq!['B', 'a', 's', 'i', 'c']
}

pub open spec fn realm_key() -> Seq<char> {
    seq!['r', 'e', 'a', 'l', 'm']
}

pub open spec fn service_key() -> Seq<char> {
    seq!['s', 'e', 'r', 'v', 'i', 'c', 'e']
}

pub open spec fn scope_key() -> Seq<char> {
    seq!['s', 'c', 'o', 'p', 'e']
}

/// What a challenge denotes: whether it is `Bearer`, its realm (empty when
/// a `Basic` challenge names none), service and scope. A `Bearer` challenge
/// must name a realm.
pub open spec fn challenge_spec(s: Seq<char>) -> Option<(bool, Seq<char>, Option<Seq<char>>, Option<Seq<char>>)> {
    let sp = first_from(s, 0, ' ');
    let word = s.take(sp);
    let ps = if sp >= s.len() {
        Some(Seq::empty())
    } else {
        params_spec(s, sp + 1)
    };
    if word != bearer_word() && word != basic_word() {
        None
    } else {
        match ps {
            None => None,
            Some(ps) => {
                let bearer = word == bearer_word();
                match lookup_spec(ps, realm_key()) {
                    None => if bearer {
                        None
                    } else {
                        Some((false, Seq::empty(), lookup_spec(ps, service_key()), lookup_spec(ps, scope_key())))
                    },
                    Some(realm) => Some((bearer, realm, lookup_spec(ps, service_key()), lookup_spec(ps, scope_key()))),
                }
            },
        }
    }
}

pub open spec fn opt_view(o: Option<String>) -> Option<Seq<char>> {
    match o {
        Some(s) => Some(s@),
        None => None,
    }
}

pub open spec fn pairs_view(v: Seq<(String, String)>) -> Seq<(Seq<char>, Seq<char>)> {
    v.map_values(|p: (String, String)| (p.0@, p.1@))
}

/// A parsed authentication challenge.
#[derive(Debug, Clone)]
pub struct Challenge {
    /// `Bearer` rather than `Basic`.
    pub bearer: bool,
    pub realm: String,
    pub service: Option<String>,
    pub scope: Option<String>,
}

impl View for Challenge {
    type V = (bool, Seq<char>, Option<Seq<char>>, Option<Seq<char>>);

    open spec fn view(&self) -> Self::V {
        (self.bearer, self.realm@, opt_view(self.service), opt_view(self.scope))
    }
}

pub(crate) fn lookup(ps: &Vec<(String, String)>, key: &str) -> (r: Option<String>)
    ensures
        opt_view(r) == lookup_spec(pairs_view(ps@), key@),
{
    let ghost pv = pairs_view(ps@);
    let k = String::from_str(key);
    let mut i: usize = 0;
    assert(pv.skip(0) =~= pv);
    while i < ps.len()
        invariant
            i <= ps.len(),
            pv == pairs_view(ps@),
            k@ == key@,
            lookup_spec(pv.skip(i as int), key@) == lookup_spec(pv, key@),
        decreases ps.len() - i,
    {
        assert(pv.skip(i as int).skip(1) =~= pv.skip(i + 1));
        assert(pv.skip(i as int)[0] == pv[i as int]);
        if ps[i].0 == k {
            return Some(ps[i].1.clone());
        }
        i = i + 1;
    }
    None
}

/// Parses the value of a `WWW-Authenticate` header.
pub fn parse_challenge(h: &str) -> (r: Option<Challenge>)
    ensures
        match challenge_spec(h@) {
            None => r is None,
            Some(c) => r matches Some(x) && x@ == c,
        },
{
    let cs = chars_of(h);
    let ghost s = cs@;
    let n = cs.len();
    let sp = find_char(&cs, 0, ' ');
    let bearer_w = chars_of("Bearer");
    let basic_w = chars_of("Basic");
    proof {
        reveal_strlit("Bearer");
        reveal_strlit("Basic");
    }
    let is_bearer = crate::text::has_prefix(&cs, 0, sp, &bearer_w) && sp == 6;
    let is_basic = crate::text::has_prefix(&cs, 0, sp, &basic_w) && sp == 5;
    proof {
        assert(s.subrange(0, sp as int) =~= s.take(sp as int));
        if sp == 6 && crate::text::starts_with(s.take(6), bearer_w@) {
            assert(s.take(6).take(6) =~= s.take(6));
        }
        if sp == 5 && crate::text::starts_with(s.take(5), basic_w@) {
            assert(s.take(5).take(5) =~= s.take(5));
        }
        assert(bearer_w@ =~= bearer_word());
        assert(basic_w@ =~= basic_word());
        if s.take(sp as int) == bearer_word() {
            assert(s.take(sp as int).take(6) =~= s.take(sp as int));
        }
        if s.take(sp as int) == basic_word() {
            assert(s.take(sp as int).take(5) =~= s.take(sp as int));
        }
    }
    if !is_bearer && !is_basic {
        return None;
    }
    let ghost word_ok = s.take(sp as int) == bearer_word() || s.take(sp as int) == basic_word();
    assert(word_ok);
    let mut ps: Vec<(String, String)> = Vec::new();
    if sp < n {
        let mut pos = sp + 1;
        loop
            invariant_except_break
                params_spec(s, sp + 1) == match params_spec(s, pos as int) {
                    Some(rest) => Some(pairs_view(ps@) + rest),
                    None => None,
                },
            invariant
                s == cs@,
                s == h@,
                n == s.len(),
                sp < n,
                sp == first_from(s, 0, ' '),
                s.take(sp as int) == bearer_word() || s.take(sp as int) == basic_word(),
                is_bearer == (s.take(sp as int) == bearer_word()),
                pos <= n,
            ensures
                params_spec(s, sp + 1) == Some(pairs_view(ps@)),
            decreases n - pos,
        {
            if pos >= n {
                return None;
            }
            let eq = find_char(&cs, pos, '=');
            if eq >= n || eq + 1 >= n || cs[eq + 1] != '"' {
                return None;
            }
            let close = find_char(&cs, eq + 2, '"');
            if close >= n {
                return None;
            }
            let key = string_of(&cs, pos, eq);
            let value = string_of(&cs, eq + 2, close);
            let ghost before = pairs_view(ps@);
            ps.push((key, value));
            proof {
                assert(pairs_view(ps@) =~= before.push((s.subrange(pos as int, eq as int), s.subrange(eq + 2, close as int))));
            }
            if close + 1 == n {
                proof {
                    let item = (s.subrange(pos as int, eq as int), s.subrange(eq + 2, close as int));
                    assert(params_spec(s, pos as int) == Some(seq![item]));
                    assert(pairs_view(ps@) =~= before + seq![item]);
                }
                break;
            }
            if cs[close + 1] != ',' {
                return None;
            }
            proof {
                let item = (s.subrange(pos as int, eq as int), s.subrange(eq + 2, close as int));
                match params_spec(s, close + 2) {
                    Some(rest) => {
                        assert(before + (seq![item] + rest) =~= pairs_view(ps@) + rest);
                    },
                    None => {},
                }
            }
            pos = close + 2;
        }
    } else {
        proof {
            assert(pairs_view(ps@) =~= Seq::empty());
        }
    }
    let realm = lookup(&ps, "realm");
    let service = lookup(&ps, "service");
    let scope = lookup(&ps, "scope");
    proof {
        reveal_strlit("realm");
        reveal_strlit("service");
        reveal_strlit("scope");
        assert("realm"@ =~= realm_key());
        assert("service"@ =~= service_key());
        assert("scope"@ =~= scope_key());
    }
    match realm {
        None => if is_bearer {
            None
        } else {
            Some(Challenge { bearer: false, realm: String::new(), service, scope })
        },
        Some(realm) => Some(Challenge { bearer: is_bearer, realm, service, scope }),
    }
}

} // verus!
