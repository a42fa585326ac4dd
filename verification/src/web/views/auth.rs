//! Login and logout: the login form and reading the session cookie.

use vstd::prelude::*;

use crate::text::{chars_of, string_of, trim};

verus! {

pub struct LoginForm {
    pub username: String,
    pub password: String,
}

/// The parts of a `Cookie` header: the text between `;`s.
pub open spec fn cookie_parts(h: Seq<char>) -> Seq<Seq<char>>
    decreases h.len(),
{
    if h.len() == 0 {
        seq![Seq::empty()]
    } else {
        let p = cookie_parts(h.drop_last());
        if h.last() == ';' {
            p.push(Seq::empty())
        } else {
            p.update(p.len() - 1, p.last().push(h.last()))
        }
    }
}

/// The value of the first part that, trimmed, starts with `name=`.
pub open spec fn token_in(parts: Seq<Seq<char>>, name: Seq<char>) -> Option<Seq<char>>
    decreases parts.len(),
{
    if parts.len() == 0 {
        None
    } else {
        let t = trim(parts[0]);
        let key = name.push('=');
        if t.len() >= key.len() && t.subrange(0, key.len() as int) == key {
            Some(t.subrange(key.len() as int, t.len() as int))
        } else {
            token_in(parts.drop_first(), name)
        }
    }
}

proof fn lemma_cookie_parts_nonempty(h: Seq<char>)
    ensures
        cookie_parts(h).len() >= 1,
    decreases h.len(),
{
    if h.len() > 0 {
        lemma_cookie_parts_nonempty(h.drop_last());
    }
}

fn split_cookie(h: &[char]) -> (parts: Vec<Vec<char>>)
    ensures
        parts@.len() == cookie_parts(h@).len(),
        forall|i: int| 0 <= i < parts@.len() ==> #[trigger] parts@[i]@ == cookie_parts(h@)[i],
{
    let mut parts: Vec<Vec<char>> = Vec::new();
    let mut cur: Vec<char> = Vec::new();
    let mut k: usize = 0;
    while k < h.len()
        invariant
            k <= h@.len(),
            parts@.len() + 1 == cookie_parts(h@.subrange(0, k as int)).len(),
            forall|i: int| 0 <= i < parts@.len() ==> #[trigger] parts@[i]@ == cookie_parts(
                h@.subrange(0, k as int),
            )[i],
            cur@ == cookie_parts(h@.subrange(0, k as int)).last(),
        decreases h@.len() - k,
    {
        let ghost pre = h@.subrange(0, k as int);
        let ghost nxt = h@.subrange(0, k + 1);
        proof {
            assert(nxt.drop_last() =~= pre);
            assert(nxt.last() == h@[k as int]);
            lemma_cookie_parts_nonempty(pre);
        }
        if h[k] == ';' {
            let done = cur;
            parts.push(done);
            cur = Vec::new();
        } else {
            cur.push(h[k]);
        }
        k += 1;
    }
    parts.push(cur);
    assert(h@.subrange(0, h@.len() as int) =~= h@);
    parts
}

/// The session token in a `Cookie` header: the value of the first
/// `name=value` pair (spaces around pairs ignored).
pub fn session_token(cookie_header: &str, cookie_name: &str) -> (r: Option<String>)
    ensures
        match r {
            Some(t) => token_in(cookie_parts(cookie_header@), cookie_name@) == Some(t@),
            None => token_in(cookie_parts(cookie_header@), cookie_name@) is None,
        },
{
    let h = chars_of(cookie_header);
    let parts = split_cookie(h.as_slice());
    let mut key = chars_of(cookie_name);
    key.push('=');
    let ghost all = cookie_parts(h@);
    assert(all.subrange(0, all.len() as int) =~= all);
    let mut i: usize = 0;
    while i < parts.len()
        invariant
            i <= parts@.len(),
            parts@.len() == all.len(),
            all == cookie_parts(cookie_header@),
            forall|j: int| 0 <= j < parts@.len() ==> #[trigger] parts@[j]@ == all[j],
            key@ == cookie_name@.push('='),
            token_in(all, cookie_name@) == token_in(all.subrange(i as int, all.len() as int), cookie_name@),
        decreases parts@.len() - i,
    {
        let t = crate::text::trim_chars(parts[i].as_slice());
        let ghost rest = all.subrange(i as int, all.len() as int);
        proof {
            assert(rest[0] == all[i as int]);
            assert(rest.drop_first() =~= all.subrange(i + 1, all.len() as int));
        }
        if t.len() >= key.len() {
            let mut matches = true;
            let mut k: usize = 0;
            while k < key.len()
                invariant
                    k <= key@.len(),
                    key@.len() <= t@.len(),
                    matches <==> forall|j: int| 0 <= j < k ==> t@[j] == key@[j],
                decreases key@.len() - k,
            {
                if t[k] != key[k] {
                    matches = false;
                }
                k += 1;
            }
            proof {
                if matches {
                    assert(t@.subrange(0, key@.len() as int) =~= key@);
                } else {
                    assert(t@.subrange(0, key@.len() as int) != key@) by {
                        let j = choose|j: int| 0 <= j < key@.len() && t@[j] != key@[j];
                        assert(t@.subrange(0, key@.len() as int)[j] == t@[j]);
                    }
                }
            }
            if matches {
                let mut v: Vec<char> = Vec::new();
                let mut m: usize = key.len();
                while m < t.len()
                    invariant
                        key@.len() <= m <= t@.len(),
                        v@ =~= t@.subrange(key@.len() as int, m as int),
                    decreases t@.len() - m,
                {
                    v.push(t[m]);
                    m += 1;
                }
                proof {
                    assert(t@ == trim(rest[0]));
                    assert(token_in(rest, cookie_name@) == Some(t@.subrange(key@.len() as int, t@.len() as int)));
                }
                return Some(string_of(v.as_slice()));
            }
        }
        i += 1;
    }
    proof {
        assert(all.subrange(parts@.len() as int, all.len() as int) =~= Seq::<Seq<char>>::empty());
    }
    None
}

} // verus!
