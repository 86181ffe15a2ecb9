//! Relay topology composition.
//!
//! A session's relay topology assigns each relay URL one or both roles:
//! `Read` (subscribed to for inbound envelopes) and `Write` (published to
//! for outbound envelopes).  The read role set is the declared message
//! relays together with any extra read relays; the write role set is the
//! declared message relays, a fixed list of public fallback relays, and any
//! extra write relays.  Within each role set, URLs that differ only in
//! ASCII letter case or in trailing slashes count as the same relay, and
//! only the first occurrence is kept.

use vstd::prelude::*;
use crate::errors::AppError;

verus! {

/// The role a relay holds within a session: subscribed to, published to,
/// or both (a URL may carry each role independently).
#[derive(Debug, Clone, Copy, PartialEq, Eq, Structural)]
pub enum RelayRole {
    Read,
    Write,
}

/// The code point a character counts as when relay URLs are compared:
/// ASCII upper-case letters fold to lower case, all else is unchanged.
pub open spec fn fold_code(c: char) -> u32 {
    let x = c as u32;
    if 65 <= x && x <= 90 {
        (x + 32) as u32
    } else {
        x
    }
}

/// `s` with every trailing `'/'` removed.
pub open spec fn strip_trailing_slashes(s: Seq<char>) -> Seq<char>
    decreases s.len(),
{
    if s.len() > 0 && s.last() == '/' {
        strip_trailing_slashes(s.drop_last())
    } else {
        s
    }
}

/// The normalized key of a relay URL: trailing slashes dropped and ASCII
/// letters folded to lower case.  Two URLs name the same relay exactly
/// when their keys are equal.
pub open spec fn norm_url(s: Seq<char>) -> Seq<u32> {
    strip_trailing_slashes(s).map_values(|c: char| fold_code(c))
}

/// Whether some URL in `q` has normalized key `key`.
pub open spec fn has_norm(q: Seq<Seq<char>>, key: Seq<u32>) -> bool {
    exists|i: int| 0 <= i < q.len() && norm_url(q[i]) == key
}

/// No two URLs of `q` share a normalized key.
pub open spec fn unique_norms(q: Seq<Seq<char>>) -> bool {
    forall|i: int, j: int| 0 <= i < j < q.len() ==> norm_url(q[i]) != norm_url(q[j])
}

/// Append `urls` to `acc` left to right, keeping only the first occurrence
/// of each normalized relay URL.
pub open spec fn dedup_append(acc: Seq<Seq<char>>, urls: Seq<Seq<char>>) -> Seq<Seq<char>>
    decreases urls.len(),
{
    if urls.len() == 0 {
        acc
    } else {
        let acc2 = if has_norm(acc, norm_url(urls[0])) {
            acc
        } else {
            acc.push(urls[0])
        };
        dedup_append(acc2, urls.drop_first())
    }
}

/// The fixed public fallback relays that always augment the write role set,
/// so that a send can still reach the peer when the declared message relays
/// are transiently unreachable.
pub open spec fn fallback_relay_views() -> Seq<Seq<char>> {
    seq!["wss://relay.damus.io"@, "wss://nos.lol"@, "wss://relay.primal.net"@]
}

/// The read role set composed from message relays and extra read relays.
pub open spec fn spec_read_relays(msg: Seq<Seq<char>>, extra_read: Seq<Seq<char>>) -> Seq<
    Seq<char>,
> {
    dedup_append(dedup_append(Seq::empty(), msg), extra_read)
}

/// The write role set composed from message relays, the fixed fallback
/// relays, and extra write relays.
pub open spec fn spec_write_relays(msg: Seq<Seq<char>>, extra_write: Seq<Seq<char>>) -> Seq<
    Seq<char>,
> {
    dedup_append(
        dedup_append(dedup_append(Seq::empty(), msg), fallback_relay_views()),
        extra_write,
    )
}

/// The role-tagged relay set of a session.  A URL standing in both vectors
/// holds both roles.
#[derive(Debug, Clone)]
pub struct RelaySet {
    pub read: Vec<String>,
    pub write: Vec<String>,
}

impl RelaySet {
    /// Well-formed: each role set holds at least one relay, and no role set
    /// names the same relay twice once URLs are normalized.
    pub open spec fn wf(self) -> bool {
        &&& self.read@.len() > 0
        &&& self.write@.len() > 0
        &&& unique_norms(self.read.deep_view())
        &&& unique_norms(self.write.deep_view())
    }

    /// Whether `url` holds `role` in this topology, URLs compared by their
    /// normalized keys.
    pub fn has_role(&self, url: &str, role: RelayRole) -> (r: bool)
        ensures
            r == (match role {
                RelayRole::Read => has_norm(self.read.deep_view(), norm_url(url@)),
                RelayRole::Write => has_norm(self.write.deep_view(), norm_url(url@)),
            }),
    {
        match role {
            RelayRole::Read => contains_norm(&self.read, url),
            RelayRole::Write => contains_norm(&self.write, url),
        }
    }
}

/// The fixed public fallback relays, as values.
pub fn fallback_relays() -> (v: Vec<String>)
    ensures
        v.deep_view() =~= fallback_relay_views(),
{
    let mut v: Vec<String> = Vec::new();
    v.push(String::from_str("wss://relay.damus.io"));
    v.push(String::from_str("wss://nos.lol"));
    v.push(String::from_str("wss://relay.primal.net"));
    v
}

/// `fold_code`, executably.
fn fold_char(c: char) -> (r: u32)
    ensures
        r == fold_code(c),
{
    let x = c as u32;
    if 65 <= x && x <= 90 {
        x + 32
    } else {
        x
    }
}

/// The number of characters of `s` that remain once trailing slashes are
/// stripped.
fn effective_len(s: &str) -> (l: usize)
    ensures
        l <= s@.len(),
        strip_trailing_slashes(s@) =~= s@.subrange(0, l as int),
{
    let n = s.unicode_len();
    let mut l = n;
    proof {
        assert(s@.subrange(0, n as int) =~= s@);
    }
    while l > 0 && s.get_char(l - 1) == '/'
        invariant
            l <= s@.len(),
            strip_trailing_slashes(s@) == strip_trailing_slashes(s@.subrange(0, l as int)),
        decreases l,
    {
        proof {
            let t = s@.subrange(0, l as int);
            assert(t.last() == '/');
            assert(t.drop_last() =~= s@.subrange(0, l as int - 1));
        }
        l = l - 1;
    }
    proof {
        let t = s@.subrange(0, l as int);
        if l > 0 {
            assert(t.last() == s@[l as int - 1]);
            assert(t.last() != '/');
        }
        assert(strip_trailing_slashes(t) == t);
    }
    l
}

/// Whether `a` and `b` name the same relay: their normalized keys agree.
fn norm_eq(a: &str, b: &str) -> (r: bool)
    ensures
        r == (norm_url(a@) == norm_url(b@)),
{
    let la = effective_len(a);
    let lb = effective_len(b);
    proof {
        assert(norm_url(a@).len() == la as int);
        assert(norm_url(b@).len() == lb as int);
    }
    if la != lb {
        proof {
            assert(norm_url(a@) != norm_url(b@));
        }
        return false;
    }
    let mut i: usize = 0;
    while i < la
        invariant
            i <= la,
            la == lb,
            la <= a@.len(),
            lb <= b@.len(),
            strip_trailing_slashes(a@) =~= a@.subrange(0, la as int),
            strip_trailing_slashes(b@) =~= b@.subrange(0, lb as int),
            forall|j: int| 0 <= j < i ==> fold_code(a@[j]) == fold_code(b@[j]),
        decreases la - i,
    {
        let ca = a.get_char(i);
        let cb = b.get_char(i);
        if fold_char(ca) != fold_char(cb) {
            proof {
                assert(norm_url(a@)[i as int] == fold_code(a@[i as int]));
                assert(norm_url(b@)[i as int] == fold_code(b@[i as int]));
                assert(norm_url(a@) != norm_url(b@));
            }
            return false;
        }
        i = i + 1;
    }
    proof {
        assert forall|j: int| 0 <= j < la implies norm_url(a@)[j] == norm_url(b@)[j] by {
            assert(norm_url(a@)[j] == fold_code(a@[j]));
            assert(norm_url(b@)[j] == fold_code(b@[j]));
        }
        assert(norm_url(a@) =~= norm_url(b@));
    }
    true
}

/// Whether some entry of `v` names the same relay as `url`.
fn contains_norm(v: &Vec<String>, url: &str) -> (r: bool)
    ensures
        r == has_norm(v.deep_view(), norm_url(url@)),
{
    let n = v.len();
    let mut i: usize = 0;
    while i < n
        invariant
            i <= n,
            n == v@.len(),
            forall|j: int| 0 <= j < i ==> norm_url(v.deep_view()[j]) != norm_url(url@),
        decreases n - i,
    {
        if norm_eq(v[i].as_str(), url) {
            proof {
                assert(norm_url(v.deep_view()[i as int]) == norm_url(url@));
            }
            return true;
        }
        i = i + 1;
    }
    false
}

/// Push `url` unless an entry with the same normalized key is present.
fn push_unique(acc: &mut Vec<String>, url: &String)
    ensures
        final(acc).deep_view() =~= (if has_norm(old(acc).deep_view(), norm_url(url@)) {
            old(acc).deep_view()
        } else {
            old(acc).deep_view().push(url@)
        }),
{
    if !contains_norm(acc, url.as_str()) {
        let c = url.clone();
        proof {
            assert(c@ == url@);
        }
        acc.push(c);
    }
}

/// Append every URL of `urls` to `acc`, first occurrence per relay kept.
fn add_all(acc: &mut Vec<String>, urls: &Vec<String>)
    ensures
        final(acc).deep_view() == dedup_append(old(acc).deep_view(), urls.deep_view()),
{
    let n = urls.len();
    let mut i: usize = 0;
    proof {
        assert(urls.deep_view().subrange(0, n as int) =~= urls.deep_view());
    }
    while i < n
        invariant
            i <= n,
            n == urls@.len(),
            dedup_append(
                acc.deep_view(),
                urls.deep_view().subrange(i as int, n as int),
            ) == dedup_append(old(acc).deep_view(), urls.deep_view()),
        decreases n - i,
    {
        let ghost pre = acc.deep_view();
        let ghost rest = urls.deep_view().subrange(i as int, n as int);
        push_unique(acc, &urls[i]);
        proof {
            assert(rest[0] == urls.deep_view()[i as int]);
            assert(rest.drop_first() =~= urls.deep_view().subrange(i as int + 1, n as int));
            assert(urls.deep_view()[i as int] == urls@[i as int]@);
            assert(dedup_append(acc.deep_view(), rest.drop_first()) == dedup_append(
                old(acc).deep_view(),
                urls.deep_view(),
            ));
        }
        i = i + 1;
    }
    proof {
        assert(urls.deep_view().subrange(n as int, n as int) =~= Seq::<Seq<char>>::empty());
    }
}

/// Compose the session's relay topology from the declared message relays,
/// extra read relays and extra write relays.
///
/// Fails with `ConfigurationError` exactly when the message-relay list is
/// empty: without a message relay the protocol has no delivery point, and
/// silently defaulting would break its strict-delivery guarantee.  On
/// success, the read role set is the message relays plus the extra read
/// relays, and the write role set is the message relays plus the fixed
/// public fallback relays plus the extra write relays, each deduplicated
/// with the first occurrence kept.
pub fn compose_topology(
    message_relays: &Vec<String>,
    extra_read: &Vec<String>,
    extra_write: &Vec<String>,
) -> (r: Result<RelaySet, AppError>)
    ensures
        r is Err <==> message_relays@.len() == 0,
        r matches Err(e) ==> e is ConfigurationError,
        r matches Ok(rs) ==> {
            &&& rs.read.deep_view() == spec_read_relays(
                message_relays.deep_view(),
                extra_read.deep_view(),
            )
            &&& rs.write.deep_view() == spec_write_relays(
                message_relays.deep_view(),
                extra_write.deep_view(),
            )
            &&& rs.wf()
        },
{
    if message_relays.len() == 0 {
        return Err(
            AppError::ConfigurationError(
                String::from_str("at least one message relay is required"),
            ),
        );
    }
    let mut read: Vec<String> = Vec::new();
    proof {
        assert(read.deep_view() =~= Seq::<Seq<char>>::empty());
    }
    add_all(&mut read, message_relays);
    add_all(&mut read, extra_read);
    let mut write: Vec<String> = Vec::new();
    proof {
        assert(write.deep_view() =~= Seq::<Seq<char>>::empty());
    }
    add_all(&mut write, message_relays);
    let fb = fallback_relays();
    add_all(&mut write, &fb);
    add_all(&mut write, extra_write);
    proof {
        lemma_dedup_unique(Seq::empty(), message_relays.deep_view());
        lemma_dedup_unique(
            dedup_append(Seq::empty(), message_relays.deep_view()),
            extra_read.deep_view(),
        );
        lemma_dedup_unique(
            dedup_append(Seq::empty(), message_relays.deep_view()),
            fallback_relay_views(),
        );
        lemma_dedup_unique(
            dedup_append(
                dedup_append(Seq::empty(), message_relays.deep_view()),
                fallback_relay_views(),
            ),
            extra_write.deep_view(),
        );
        lemma_dedup_nonempty(Seq::empty(), message_relays.deep_view());
        lemma_dedup_nonempty(
            dedup_append(Seq::empty(), message_relays.deep_view()),
            extra_read.deep_view(),
        );
        lemma_dedup_nonempty(
            dedup_append(Seq::empty(), message_relays.deep_view()),
            fallback_relay_views(),
        );
        lemma_dedup_nonempty(
            dedup_append(
                dedup_append(Seq::empty(), message_relays.deep_view()),
                fallback_relay_views(),
            ),
            extra_write.deep_view(),
        );
    }
    Ok(RelaySet { read, write })
}

/// Deduplication keeps a key in the result exactly when the accumulator or
/// the appended URLs hold it.
pub proof fn lemma_dedup_norms(acc: Seq<Seq<char>>, urls: Seq<Seq<char>>, key: Seq<u32>)
    ensures
        has_norm(dedup_append(acc, urls), key) <==> has_norm(acc, key) || has_norm(urls, key),
    decreases urls.len(),
{
    if urls.len() == 0 {
        assert(!has_norm(urls, key));
    } else {
        let acc2 = if has_norm(acc, norm_url(urls[0])) {
            acc
        } else {
            acc.push(urls[0])
        };
        lemma_dedup_norms(acc2, urls.drop_first(), key);
        lemma_has_norm_push(acc, urls[0], key);
        lemma_has_norm_drop_first(urls, key);
    }
}

/// `has_norm` over a push.
proof fn lemma_has_norm_push(q: Seq<Seq<char>>, url: Seq<char>, key: Seq<u32>)
    ensures
        has_norm(q.push(url), key) <==> has_norm(q, key) || norm_url(url) == key,
{
    if has_norm(q, key) {
        let i = choose|i: int| 0 <= i < q.len() && norm_url(q[i]) == key;
        assert(q.push(url)[i] == q[i]);
    }
    if norm_url(url) == key {
        assert(q.push(url)[q.len() as int] == url);
    }
    if has_norm(q.push(url), key) {
        let i = choose|i: int| 0 <= i < q.push(url).len() && norm_url(q.push(url)[i]) == key;
        if i < q.len() {
            assert(q[i] == q.push(url)[i]);
        } else {
            assert(q.push(url)[i] == url);
        }
    }
}

/// `has_norm` over dropping the first URL.
proof fn lemma_has_norm_drop_first(q: Seq<Seq<char>>, key: Seq<u32>)
    requires
        q.len() > 0,
    ensures
        has_norm(q, key) <==> norm_url(q[0]) == key || has_norm(q.drop_first(), key),
{
    if has_norm(q, key) {
        let i = choose|i: int| 0 <= i < q.len() && norm_url(q[i]) == key;
        if i > 0 {
            assert(q.drop_first()[i - 1] == q[i]);
        }
    }
    if has_norm(q.drop_first(), key) {
        let i = choose|i: int| 0 <= i < q.drop_first().len() && norm_url(q.drop_first()[i]) == key;
        assert(q[i + 1] == q.drop_first()[i]);
    }
}

/// Deduplication preserves uniqueness of normalized keys.
pub proof fn lemma_dedup_unique(acc: Seq<Seq<char>>, urls: Seq<Seq<char>>)
    requires
        unique_norms(acc),
    ensures
        unique_norms(dedup_append(acc, urls)),
    decreases urls.len(),
{
    if urls.len() > 0 {
        if has_norm(acc, norm_url(urls[0])) {
            lemma_dedup_unique(acc, urls.drop_first());
        } else {
            let acc2 = acc.push(urls[0]);
            assert forall|i: int, j: int| 0 <= i < j < acc2.len() implies norm_url(acc2[i])
                != norm_url(acc2[j]) by {
                if j < acc.len() {
                    assert(acc2[i] == acc[i] && acc2[j] == acc[j]);
                } else {
                    assert(acc2[j] == urls[0]);
                    assert(acc2[i] == acc[i]);
                    if norm_url(acc[i]) == norm_url(urls[0]) {
                        assert(has_norm(acc, norm_url(urls[0])));
                    }
                }
            }
            lemma_dedup_unique(acc2, urls.drop_first());
        }
    }
}

/// Deduplication of anything non-empty yields a non-empty role set.
pub proof fn lemma_dedup_nonempty(acc: Seq<Seq<char>>, urls: Seq<Seq<char>>)
    requires
        acc.len() > 0 || urls.len() > 0,
    ensures
        dedup_append(acc, urls).len() > 0,
    decreases urls.len(),
{
    if urls.len() > 0 {
        let acc2 = if has_norm(acc, norm_url(urls[0])) {
            acc
        } else {
            acc.push(urls[0])
        };
        lemma_dedup_nonempty(acc2, urls.drop_first());
    }
}

/// Law: the composed write role set is never empty, and it covers every
/// declared message relay — whatever extra write relays are declared, each
/// message relay keeps its write role.
pub proof fn lemma_write_covers_message_relays(msg: Seq<Seq<char>>, extra_write: Seq<Seq<char>>)
    ensures
        spec_write_relays(msg, extra_write).len() > 0,
        forall|i: int|
            0 <= i < msg.len() ==> has_norm(spec_write_relays(msg, extra_write), norm_url(msg[i])),
{
    let base = dedup_append(Seq::empty(), msg);
    let with_fb = dedup_append(base, fallback_relay_views());
    lemma_dedup_nonempty(base, fallback_relay_views());
    lemma_dedup_nonempty(with_fb, extra_write);
    assert forall|i: int| 0 <= i < msg.len() implies has_norm(
        spec_write_relays(msg, extra_write),
        norm_url(msg[i]),
    ) by {
        assert(has_norm(msg, norm_url(msg[i])));
        lemma_dedup_norms(Seq::empty(), msg, norm_url(msg[i]));
        lemma_dedup_norms(base, fallback_relay_views(), norm_url(msg[i]));
        lemma_dedup_norms(with_fb, extra_write, norm_url(msg[i]));
    }
}

/// Deduplication leaves an already-unique list unchanged when nothing in it
/// collides with the accumulator.
proof fn lemma_dedup_no_collision(acc: Seq<Seq<char>>, urls: Seq<Seq<char>>)
    requires
        unique_norms(urls),
        forall|i: int| 0 <= i < urls.len() ==> !has_norm(acc, norm_url(urls[i])),
    ensures
        dedup_append(acc, urls) == acc + urls,
    decreases urls.len(),
{
    if urls.len() == 0 {
        assert(dedup_append(acc, urls) =~= acc + urls);
    } else {
        assert(!has_norm(acc, norm_url(urls[0])));
        let acc2 = acc.push(urls[0]);
        let rest = urls.drop_first();
        assert forall|i: int| 0 <= i < rest.len() implies !has_norm(acc2, norm_url(rest[i])) by {
            assert(rest[i] == urls[i + 1]);
            lemma_has_norm_push(acc, urls[0], norm_url(rest[i]));
            assert(norm_url(urls[0]) != norm_url(urls[i + 1]));
        }
        lemma_dedup_no_collision(acc2, rest);
        assert(acc2 + rest =~= acc + urls);
    }
}

/// Law: with no extra read relays declared, the read role set defaults to
/// exactly the deduplicated message-relay list.
pub proof fn lemma_read_defaults_to_message_relays(msg: Seq<Seq<char>>)
    ensures
        spec_read_relays(msg, Seq::empty()) == dedup_append(Seq::empty(), msg),
{
}

/// Law: deduplication is idempotent — running composition's deduplication
/// over its own output changes nothing.
pub proof fn lemma_dedup_idempotent(urls: Seq<Seq<char>>)
    ensures
        dedup_append(Seq::empty(), dedup_append(Seq::empty(), urls)) == dedup_append(
            Seq::empty(),
            urls,
        ),
{
    let once = dedup_append(Seq::empty(), urls);
    lemma_dedup_unique(Seq::empty(), urls);
    assert forall|i: int| 0 <= i < once.len() implies !has_norm(
        Seq::<Seq<char>>::empty(),
        norm_url(once[i]),
    ) by {
        assert(!has_norm(Seq::<Seq<char>>::empty(), norm_url(once[i])));
    }
    lemma_dedup_no_collision(Seq::empty(), once);
    assert(Seq::<Seq<char>>::empty() + once =~= once);
}

} // verus!
