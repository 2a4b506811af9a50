//! The session token kept in the `auth-token` cookie:
//! `minecraft-<user id>.<user name>.<expiration>.<signature>`.

use vstd::prelude::*;
use crate::ctx::Ctx;
use crate::error::Error;
use crate::text::{
    before_first, chars_of, find_char, first_index, has_char, starts_with, string_of_chars,
};
use vstd::string::StringExecFns;

verus! {

/// The text that every session token begins with.
pub open spec fn token_prefix() -> Seq<char> {
    "minecraft-"@
}

/// The part of a token that its four parts are read from: what follows the
/// prefix, up to the first line break (no part may span a line break).
pub open spec fn token_body(token: Seq<char>) -> Seq<char> {
    before_first(token.skip(token_prefix().len() as int), '\n')
}

/// Dots at `p`, `q` and `r` cut `body` into four non-empty parts.
pub open spec fn is_split(body: Seq<char>, p: int, q: int, r: int) -> bool {
    &&& 1 <= p
    &&& p + 2 <= q
    &&& q + 2 <= r
    &&& r + 2 <= body.len()
    &&& body[p] == '.'
    &&& body[q] == '.'
    &&& body[r] == '.'
}

/// The cut `(p2, q2, r2)` comes before `(p, q, r)` in the order that prefers a
/// longer first part, then a longer second part, then a longer third part.
pub open spec fn split_le(p2: int, q2: int, r2: int, p: int, q: int, r: int) -> bool {
    p2 < p || (p2 == p && (q2 < q || (q2 == q && r2 <= r)))
}

/// The cut that the token pattern `^minecraft-(.+)\.(.+)\.(.+)\.(.+)` takes:
/// each part as long as the parts after it allow, the first one first.
pub open spec fn is_greatest_split(body: Seq<char>, p: int, q: int, r: int) -> bool {
    &&& is_split(body, p, q, r)
    &&& forall|p2: int, q2: int, r2: int|
        #[trigger] is_split(body, p2, q2, r2) ==> split_le(p2, q2, r2, p, q, r)
}

/// The four parts of a session token (user id, user name, expiration,
/// signature), as the pattern `^minecraft-(.+)\.(.+)\.(.+)\.(.+)` captures
/// them, or `None` when the token does not match it.
pub open spec fn token_parts(token: Seq<char>) -> Option<(Seq<char>, Seq<char>, Seq<char>, Seq<char>)> {
    let body = token_body(token);
    if starts_with(token, token_prefix()) && exists|p: int, q: int, r: int|
        is_greatest_split(body, p, q, r) {
        let (p, q, r) = choose|p: int, q: int, r: int| is_greatest_split(body, p, q, r);
        Some(
            (
                body.subrange(0, p),
                body.subrange(p + 1, q),
                body.subrange(q + 1, r),
                body.subrange(r + 1, body.len() as int),
            ),
        )
    } else {
        None
    }
}

/// Two greatest cuts are the same cut.
proof fn lemma_greatest_unique(body: Seq<char>, p: int, q: int, r: int, p2: int, q2: int, r2: int)
    requires
        is_greatest_split(body, p, q, r),
        is_greatest_split(body, p2, q2, r2),
    ensures
        p == p2 && q == q2 && r == r2,
{
    assert(split_le(p2, q2, r2, p, q, r));
    assert(split_le(p, q, r, p2, q2, r2));
}

/// When `(p, q, r)` is a greatest cut, the token's parts are the pieces it cuts.
proof fn lemma_parts_of_greatest(token: Seq<char>, p: int, q: int, r: int)
    requires
        starts_with(token, token_prefix()),
        is_greatest_split(token_body(token), p, q, r),
    ensures
        token_parts(token) == Some(
            (
                token_body(token).subrange(0, p),
                token_body(token).subrange(p + 1, q),
                token_body(token).subrange(q + 1, r),
                token_body(token).subrange(r + 1, token_body(token).len() as int),
            ),
        ),
{
    let body = token_body(token);
    let (p1, q1, r1) = choose|p: int, q: int, r: int| is_greatest_split(body, p, q, r);
    lemma_greatest_unique(body, p, q, r, p1, q1, r1);
}

/// The largest index `i` in `[lo, hi)` with `chars[i] == c`.
fn rfind_char(chars: &Vec<char>, lo: usize, hi: usize, c: char) -> (r: Option<usize>)
    requires
        lo <= hi <= chars@.len(),
    ensures
        r matches Some(i) ==> lo <= i < hi && chars@[i as int] == c && forall|j: int|
            i < j < hi ==> chars@[j] != c,
        r is None ==> forall|j: int| lo <= j < hi ==> chars@[j] != c,
{
    let mut i = hi;
    while i > lo
        invariant
            lo <= i <= hi <= chars@.len(),
            forall|j: int| i <= j < hi ==> chars@[j] != c,
        decreases i - lo,
    {
        if chars[i - 1] == c {
            return Some(i - 1);
        }
        i = i - 1;
    }
    None
}

/// Whether `chars` begins with the characters of `prefix`.
fn has_prefix(chars: &Vec<char>, prefix: &Vec<char>) -> (r: bool)
    ensures
        r == starts_with(chars@, prefix@),
{
    if chars.len() < prefix.len() {
        return false;
    }
    let mut i: usize = 0;
    while i < prefix.len()
        invariant
            prefix@.len() <= chars@.len(),
            i <= prefix@.len(),
            forall|j: int| 0 <= j < i ==> chars@[j] == prefix@[j],
        decreases prefix@.len() - i,
    {
        if chars[i] != prefix[i] {
            assert(chars@.take(prefix@.len() as int)[i as int] != prefix@[i as int]);
            return false;
        }
        i = i + 1;
    }
    assert(chars@.take(prefix@.len() as int) =~= prefix@);
    true
}

/// The line after the prefix is `chars[start..end]`.
proof fn lemma_body_range(token: Seq<char>, start: int, end: int)
    requires
        0 <= start <= end <= token.len(),
        start == token_prefix().len(),
        forall|j: int| start <= j < end ==> token[j] != '\n',
        end < token.len() ==> token[end] == '\n',
    ensures
        token_body(token) =~= token.subrange(start, end),
{
    let rest = token.skip(start);
    if end < token.len() {
        assert(rest[end - start] == '\n');
        assert(has_char(rest, '\n'));
        let f = first_index(rest, '\n');
        assert(rest[f] == '\n');
        if f < end - start {
            assert(token[start + f] == '\n');
        }
        if end - start < f {
            assert(rest[end - start] != '\n');
        }
    } else {
        assert(!has_char(rest, '\n')) by {
            if has_char(rest, '\n') {
                let k = choose|k: int| 0 <= k < rest.len() && rest[k] == '\n';
                assert(token[start + k] == '\n');
            }
        }
    }
}

/// The greatest cut of `chars[start..end]`, as indices into `chars`, or
/// `None` when that text cannot be cut into four non-empty parts.
fn find_split(chars: &Vec<char>, start: usize, end: usize) -> (res: Option<(usize, usize, usize)>)
    requires
        start <= end <= chars@.len(),
    ensures
        res matches Some((p, q, r)) ==> start <= p && p <= q && q <= r && r <= end
            && is_greatest_split(chars@.subrange(start as int, end as int), p - start, q - start, r - start),
        res is None ==> forall|p2: int, q2: int, r2: int|
            !#[trigger] is_split(chars@.subrange(start as int, end as int), p2, q2, r2),
{
    let ghost body = chars@.subrange(start as int, end as int);
    if end - start < 2 {
        return None;
    }
    let r = match rfind_char(chars, start, end - 1, '.') {
        Some(i) => i,
        None => {
            assert forall|p2: int, q2: int, r2: int| !#[trigger] is_split(body, p2, q2, r2) by {
                if is_split(body, p2, q2, r2) {
                    assert(chars@[start + r2] == '.');
                }
            }
            return None;
        },
    };
    if r < start + 2 {
        assert forall|p2: int, q2: int, r2: int| !#[trigger] is_split(body, p2, q2, r2) by {
            if is_split(body, p2, q2, r2) {
                assert(chars@[start + r2] == '.');
            }
        }
        return None;
    }
    let q = match rfind_char(chars, start, r - 1, '.') {
        Some(i) => i,
        None => {
            assert forall|p2: int, q2: int, r2: int| !#[trigger] is_split(body, p2, q2, r2) by {
                if is_split(body, p2, q2, r2) {
                    assert(chars@[start + r2] == '.');
                    assert(chars@[start + q2] == '.');
                }
            }
            return None;
        },
    };
    if q < start + 3 {
        assert forall|p2: int, q2: int, r2: int| !#[trigger] is_split(body, p2, q2, r2) by {
            if is_split(body, p2, q2, r2) {
                assert(chars@[start + r2] == '.');
                assert(chars@[start + q2] == '.');
            }
        }
        return None;
    }
    let p = match rfind_char(chars, start + 1, q - 1, '.') {
        Some(i) => i,
        None => {
            assert forall|p2: int, q2: int, r2: int| !#[trigger] is_split(body, p2, q2, r2) by {
                if is_split(body, p2, q2, r2) {
                    assert(chars@[start + r2] == '.');
                    assert(chars@[start + q2] == '.');
                    assert(chars@[start + p2] == '.');
                }
            }
            return None;
        },
    };
    proof {
        let (bp, bq, br) = ((p - start) as int, (q - start) as int, (r - start) as int);
        assert(is_split(body, bp, bq, br));
        assert forall|p2: int, q2: int, r2: int|
            #[trigger] is_split(body, p2, q2, r2) implies split_le(p2, q2, r2, bp, bq, br) by {
            assert(chars@[start + r2] == '.');
            assert(r2 <= br);
            assert(chars@[start + q2] == '.');
            assert(q2 <= bq);
            assert(chars@[start + p2] == '.');
            assert(p2 <= bp);
        }
    }
    Some((p, q, r))
}

/// Splits a session token into its four parts (user id, user name,
/// expiration, signature), or reports that it is not of that form.
pub fn parse_token(token: String) -> (r: Result<(String, String, String, String), Error>)
    ensures
        match token_parts(token@) {
            Some(parts) => r matches Ok((a, b, c, d)) && (a@, b@, c@, d@) == parts,
            None => r matches Err(Error::AuthFailTokenWrongFormat),
        },
{
    let chars = chars_of(token.as_str());
    let prefix = chars_of("minecraft-");
    if !has_prefix(&chars, &prefix) {
        return Err(Error::AuthFailTokenWrongFormat);
    }
    let start = prefix.len();
    let end = find_char(&chars, start, '\n');
    proof {
        lemma_body_range(token@, start as int, end as int);
    }
    let ghost body = token@.subrange(start as int, end as int);
    let (p, q, r) = match find_split(&chars, start, end) {
        Some(cut) => cut,
        None => return Err(Error::AuthFailTokenWrongFormat),
    };
    proof {
        lemma_parts_of_greatest(token@, (p - start) as int, (q - start) as int, (r - start) as int);
    }
    let user_id = string_of_chars(chars.as_slice(), start, p);
    let username = string_of_chars(chars.as_slice(), p + 1, q);
    let exp = string_of_chars(chars.as_slice(), q + 1, r);
    let sign = string_of_chars(chars.as_slice(), r + 1, end);
    proof {
        assert(user_id@ =~= body.subrange(0, (p - start) as int));
        assert(username@ =~= body.subrange((p - start) + 1, (q - start) as int));
        assert(exp@ =~= body.subrange((q - start) + 1, (r - start) as int));
        assert(sign@ =~= body.subrange((r - start) + 1, body.len() as int));
    }
    Ok((user_id, username, exp, sign))
}

/// The token that the login issues for a user: `minecraft-<id>.<name>.exp.sign`.
pub open spec fn token_of(user_id: Seq<char>, username: Seq<char>) -> Seq<char> {
    token_prefix() + user_id + "."@ + username + ".exp.sign"@
}

/// The session token that the login puts in the cookie for this user.
pub fn auth_token(user_id: &str, username: &str) -> (t: String)
    ensures
        t@ == token_of(user_id@, username@),
{
    let mut t = String::from_str("minecraft-");
    t.append(user_id);
    t.append(".");
    t.append(username);
    t.append(".exp.sign");
    t
}

/// Whether `s` holds no `c`.
pub open spec fn lacks(s: Seq<char>, c: char) -> bool {
    forall|i: int| 0 <= i < s.len() ==> s[i] != c
}

/// A token that the login issues reads back as the same user id and user
/// name, with the expiration `exp` and the signature `sign`, whenever the id
/// and the name are not empty, neither holds a line break, and the name holds
/// no dot (Minecraft names are letters, digits and `_`).
pub proof fn lemma_issued_token_parts(user_id: Seq<char>, username: Seq<char>)
    requires
        user_id.len() >= 1,
        username.len() >= 1,
        lacks(user_id, '\n'),
        lacks(username, '\n'),
        lacks(username, '.'),
    ensures
        token_parts(token_of(user_id, username)) == Some((user_id, username, "exp"@, "sign"@)),
{
    reveal_strlit("minecraft-");
    reveal_strlit(".");
    reveal_strlit(".exp.sign");
    reveal_strlit("exp");
    reveal_strlit("sign");
    let token = token_of(user_id, username);
    let plen = token_prefix().len() as int;
    assert(plen == 10);
    assert(token.take(plen) =~= token_prefix());
    assert(starts_with(token, token_prefix()));
    let rest = token.skip(plen);
    let a = user_id.len() as int;
    let b = username.len() as int;
    assert(rest =~= user_id + "."@ + username + ".exp.sign"@);
    assert(rest.len() == a + b + 10);
    assert(!has_char(rest, '\n')) by {
        if has_char(rest, '\n') {
            let k = choose|k: int| 0 <= k < rest.len() && rest[k] == '\n';
            if k < a {
                assert(user_id[k] == '\n');
            } else if a < k < a + 1 + b {
                assert(username[k - a - 1] == '\n');
            }
        }
    }
    let body = token_body(token);
    assert(body =~= rest);
    let p = a;
    let q = a + 1 + b;
    let r = q + 4;
    assert(body[p] == '.');
    assert(body[q] == '.');
    assert(body[r] == '.');
    assert(is_split(body, p, q, r));
    assert forall|p2: int, q2: int, r2: int|
        #[trigger] is_split(body, p2, q2, r2) implies split_le(p2, q2, r2, p, q, r) by {
        assert(body[r2] == '.');
        if r2 > r {
            assert(body[r2] != '.');
        }
        assert(body[q2] == '.');
        if q2 > q {
            assert(body[q2] != '.');
        }
        assert(body[p2] == '.');
        if p2 > p {
            assert(username[p2 - a - 1] == '.');
        }
    }
    lemma_parts_of_greatest(token, p, q, r);
    assert(body.subrange(0, p) =~= user_id);
    assert(body.subrange(p + 1, q) =~= username);
    assert(body.subrange(q + 1, r) =~= "exp"@);
    assert(body.subrange(r + 1, body.len() as int) =~= "sign"@);
}

/// The context of a request, from the value of its session cookie (if any).
pub fn resolve_ctx(token: Option<String>) -> (r: Result<Ctx, Error>)
    ensures
        match token {
            None => r matches Err(Error::AuthFailNoAuthTokenCookie),
            Some(t) => match token_parts(t@) {
                Some(parts) => r matches Ok(c) && c@ == (parts.0, parts.1),
                None => r matches Err(Error::AuthFailTokenWrongFormat),
            },
        },
{
    match token {
        None => Err(Error::AuthFailNoAuthTokenCookie),
        Some(t) => match parse_token(t) {
            Ok((user_id, username, _exp, _sign)) => Ok(Ctx::new(user_id, username)),
            Err(e) => Err(e),
        },
    }
}

/// Whether the session cookie must be cleared: the request's context could not
/// be resolved for a reason other than there being no cookie.
pub fn should_clear_session(ctx: &Result<Ctx, Error>) -> (clear: bool)
    ensures
        clear == (ctx is Err && !(ctx matches Err(Error::AuthFailNoAuthTokenCookie))),
{
    match ctx {
        Ok(_) => false,
        Err(Error::AuthFailNoAuthTokenCookie) => false,
        Err(_) => true,
    }
}

} // verus!
