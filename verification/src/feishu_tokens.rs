//! What is kept between calls of the Feishu API: access tokens and bot
//! identities, each under the credentials that it was got with.

use vstd::prelude::*;

use crate::digest::{fingerprint, fingerprint_of};
use crate::feishu_api::{
    FeishuBotIdentity, IdentityView, DEFAULT_TOKEN_LIFETIME_SECS, TOKEN_REFRESH_AHEAD_SECS,
};
use crate::text::{owned, same};

verus! {

broadcast use vstd::string::group_string_axioms;

/// The credentials that something was got with. Of the secret only its digest is
/// kept.
#[derive(Debug, PartialEq, Eq)]
pub struct TokenCacheKey {
    pub base_url: String,
    pub app_id: String,
    pub secret_digest: String,
}

#[verifier::ext_equal]
pub struct TokenKeyView {
    pub base_url: Seq<char>,
    pub app_id: Seq<char>,
    pub secret_digest: Seq<char>,
}

impl View for TokenCacheKey {
    type V = TokenKeyView;

    open spec fn view(&self) -> TokenKeyView {
        TokenKeyView {
            base_url: self.base_url@,
            app_id: self.app_id@,
            secret_digest: self.secret_digest@,
        }
    }
}

/// The key of some credentials. There is none for a secret that has no
/// fingerprint.
pub open spec fn key_of(base_url: Seq<char>, app_id: Seq<char>, app_secret: Seq<char>) -> Option<
    TokenKeyView,
> {
    match fingerprint_of(app_secret) {
        Some(secret_digest) => Some(TokenKeyView { base_url, app_id, secret_digest }),
        None => None,
    }
}

pub open spec fn opt_key(key: Option<TokenCacheKey>) -> Option<TokenKeyView> {
    match key {
        Some(k) => Some(k@),
        None => None,
    }
}

pub fn token_cache_key(base_url: &str, app_id: &str, app_secret: &str) -> (r: Option<TokenCacheKey>)
    ensures
        opt_key(r) == key_of(base_url@, app_id@, app_secret@),
{
    match fingerprint(app_secret) {
        Some(secret_digest) => Some(
            TokenCacheKey { base_url: owned(base_url), app_id: owned(app_id), secret_digest },
        ),
        None => None,
    }
}

/// Credentials that differ in the address, in the application or in the digest
/// of the secret have different keys.
pub proof fn lemma_keys_tell_apart(
    base_url: Seq<char>,
    app_id: Seq<char>,
    app_secret: Seq<char>,
    other_url: Seq<char>,
    other_id: Seq<char>,
    other_secret: Seq<char>,
)
    requires
        fingerprint_of(app_secret) is Some,
        base_url != other_url || app_id != other_id || fingerprint_of(app_secret)
            != fingerprint_of(other_secret),
    ensures
        key_of(base_url, app_id, app_secret) != key_of(other_url, other_id, other_secret),
{
}

// ---------------------------------------------------------------------------
// A map by credentials
// ---------------------------------------------------------------------------

/// Whether no key stands twice in a list of entries.
pub open spec fn distinct_keys<V>(e: Seq<(TokenCacheKey, V)>) -> bool {
    forall|i: int, j: int|
        0 <= i < j < e.len() ==> (#[trigger] e[i]).0@ != (#[trigger] e[j]).0@
}

/// Whether a key stands in a list of entries.
pub open spec fn holds_key<V>(e: Seq<(TokenCacheKey, V)>, key: TokenKeyView) -> bool {
    exists|i: int| 0 <= i < e.len() && (#[trigger] e[i]).0@ == key
}

/// The map that a list of entries stands for.
pub open spec fn credential_map<V>(e: Seq<(TokenCacheKey, V)>) -> Map<TokenKeyView, V> {
    Map::new(
        |key: TokenKeyView| holds_key(e, key),
        |key: TokenKeyView| e[choose|i: int| 0 <= i < e.len() && (#[trigger] e[i]).0@ == key].1,
    )
}

proof fn lemma_entry<V>(e: Seq<(TokenCacheKey, V)>, i: int)
    requires
        distinct_keys(e),
        0 <= i < e.len(),
    ensures
        credential_map(e).contains_key(e[i].0@),
        credential_map(e)[e[i].0@] == e[i].1,
{
    let key = e[i].0@;
    assert(holds_key(e, key));
    let k = choose|k: int| 0 <= k < e.len() && (#[trigger] e[k]).0@ == key;
    assert(0 <= k < e.len() && e[k].0@ == key);
    if k < i {
        assert(e[k].0@ != e[i].0@);
    } else if i < k {
        assert(e[i].0@ != e[k].0@);
    }
}

proof fn lemma_same_map<V>(e: Seq<(TokenCacheKey, V)>, f: Seq<(TokenCacheKey, V)>, at: int)
    requires
        distinct_keys(e),
        distinct_keys(f),
        0 <= at < f.len(),
        at <= e.len(),
        f.len() == if at < e.len() {
            e.len()
        } else {
            e.len() + 1
        },
        at < e.len() ==> e[at].0@ == f[at].0@,
        forall|i: int| 0 <= i < e.len() && i != at ==> #[trigger] f[i] == e[i],
    ensures
        credential_map(f) == credential_map(e).insert(f[at].0@, f[at].1),
{
    let a = credential_map(f);
    let b = credential_map(e).insert(f[at].0@, f[at].1);
    lemma_entry(f, at);
    assert forall|key: TokenKeyView| a.contains_key(key) == #[trigger] b.contains_key(key) by {
        if holds_key(f, key) {
            let i = choose|i: int| 0 <= i < f.len() && (#[trigger] f[i]).0@ == key;
            if i != at {
                assert(f[i] == e[i]);
                assert(e[i].0@ == key);
            }
        }
        if holds_key(e, key) {
            let i = choose|i: int| 0 <= i < e.len() && (#[trigger] e[i]).0@ == key;
            if i != at {
                assert(f[i] == e[i]);
                assert(f[i].0@ == key);
            } else {
                assert(f[at].0@ == key);
            }
        }
        if key == f[at].0@ {
            assert(holds_key(f, key));
        }
    }
    assert forall|key: TokenKeyView| #[trigger] a.contains_key(key) implies a[key] == b[key] by {
        let i = choose|i: int| 0 <= i < f.len() && (#[trigger] f[i]).0@ == key;
        lemma_entry(f, i);
        if i != at {
            assert(f[i] == e[i]);
            lemma_entry(e, i);
            if i < at {
                assert(f[i].0@ != f[at].0@);
            } else {
                assert(f[at].0@ != f[i].0@);
            }
        }
    }
    assert(a =~= b);
}

/// A map from credentials to values.
#[derive(Debug, PartialEq, Eq)]
pub struct CredentialMap<V> {
    entries: Vec<(TokenCacheKey, V)>,
}

impl<V> View for CredentialMap<V> {
    type V = Map<TokenKeyView, V>;

    closed spec fn view(&self) -> Map<TokenKeyView, V> {
        credential_map(self.entries@)
    }
}

fn same_key(a: &TokenCacheKey, b: &TokenCacheKey) -> (r: bool)
    ensures
        r == (a@ == b@),
{
    proof {
        assert((a@ == b@) == (a@.base_url == b@.base_url && a@.app_id == b@.app_id
            && a@.secret_digest == b@.secret_digest));
    }
    same(a.base_url.as_str(), b.base_url.as_str()) && same(a.app_id.as_str(), b.app_id.as_str())
        && same(a.secret_digest.as_str(), b.secret_digest.as_str())
}

impl<V> CredentialMap<V> {
    #[verifier::type_invariant]
    spec fn inv(self) -> bool {
        distinct_keys(self.entries@)
    }

    pub fn new() -> (r: Self)
        ensures
            r@ == Map::<TokenKeyView, V>::empty(),
    {
        let r = CredentialMap { entries: Vec::new() };
        proof {
            assert(r@ =~= Map::<TokenKeyView, V>::empty());
        }
        r
    }

    fn place(&self, key: &TokenCacheKey) -> (r: usize)
        ensures
            r <= self.entries@.len(),
            r < self.entries@.len() ==> self.entries@[r as int].0@ == key@,
            r == self.entries@.len() ==> !holds_key(self.entries@, key@),
    {
        let mut i: usize = 0;
        while i < self.entries.len()
            invariant
                i <= self.entries@.len(),
                forall|j: int| 0 <= j < i ==> (#[trigger] self.entries@[j]).0@ != key@,
            decreases self.entries@.len() - i,
        {
            if same_key(&self.entries[i].0, key) {
                return i;
            }
            i = i + 1;
        }
        i
    }

    pub fn get(&self, key: &TokenCacheKey) -> (r: Option<&V>)
        ensures
            r == if self@.contains_key(key@) {
                Some(&self@[key@])
            } else {
                None
            },
    {
        proof {
            use_type_invariant(&*self);
        }
        let i = self.place(key);
        if i < self.entries.len() {
            proof {
                lemma_entry(self.entries@, i as int);
            }
            Some(&self.entries[i].1)
        } else {
            None
        }
    }

    pub fn insert(&mut self, key: TokenCacheKey, value: V)
        ensures
            final(self)@ == old(self)@.insert(key@, value),
    {
        proof {
            use_type_invariant(&*self);
        }
        let i = self.place(&key);
        let mut taken: CredentialMap<V> = CredentialMap { entries: Vec::new() };
        std::mem::swap(self, &mut taken);
        let ghost before = taken.entries@;
        let mut entries = taken.entries;
        if i < entries.len() {
            entries.set(i, (key, value));
        } else {
            entries.push((key, value));
        }
        proof {
            assert(distinct_keys(entries@)) by {
                assert forall|a: int, b: int| 0 <= a < b < entries@.len() implies (
                #[trigger] entries@[a]).0@ != (#[trigger] entries@[b]).0@ by {
                    if a != i {
                        assert(entries@[a] == before[a]);
                    }
                    if b != i {
                        assert(entries@[b] == before[b]);
                    }
                    if i < before.len() {
                        assert(before[a].0@ != before[b].0@);
                    }
                }
            }
            lemma_same_map(before, entries@, i as int);
        }
        self.entries = entries;
    }
}

// ---------------------------------------------------------------------------
// Tokens and identities
// ---------------------------------------------------------------------------

/// A token, and when it expires.
#[derive(Debug, PartialEq, Eq)]
pub struct TokenCache {
    pub token: String,
    pub expires_at: u64,
}

#[verifier::ext_equal]
pub struct TokenView {
    pub token: Seq<char>,
    pub expires_at: u64,
}

impl View for TokenCache {
    type V = TokenView;

    open spec fn view(&self) -> TokenView {
        TokenView { token: self.token@, expires_at: self.expires_at }
    }
}

/// What is remembered of the applications that the API was called for.
#[derive(Debug, PartialEq, Eq)]
pub struct FeishuProvider {
    pub tokens: CredentialMap<TokenCache>,
    pub identities: CredentialMap<FeishuBotIdentity>,
}

/// The token that is remembered under a key and may still be used.
pub open spec fn usable_token(tokens: Map<TokenKeyView, TokenCache>, key: TokenKeyView, now: u64) -> Option<
    Seq<char>,
> {
    if tokens.contains_key(key) && now + TOKEN_REFRESH_AHEAD_SECS < tokens[key].expires_at {
        Some(tokens[key].token@)
    } else {
        None
    }
}

/// The identity that is remembered under a key.
pub open spec fn known_identity(
    identities: Map<TokenKeyView, FeishuBotIdentity>,
    key: TokenKeyView,
) -> Option<IdentityView> {
    if identities.contains_key(key) {
        Some(identities[key]@)
    } else {
        None
    }
}

impl Default for FeishuProvider {
    fn default() -> (r: Self)
        ensures
            r.tokens@ == Map::<TokenKeyView, TokenCache>::empty(),
            r.identities@ == Map::<TokenKeyView, FeishuBotIdentity>::empty(),
    {
        FeishuProvider::new()
    }
}

impl FeishuProvider {
    pub fn new() -> (r: Self)
        ensures
            r.tokens@ == Map::<TokenKeyView, TokenCache>::empty(),
            r.identities@ == Map::<TokenKeyView, FeishuBotIdentity>::empty(),
    {
        FeishuProvider { tokens: CredentialMap::new(), identities: CredentialMap::new() }
    }

    /// The token to use for a call, unless it has to be asked for.
    pub fn cached_token(&self, key: &TokenCacheKey, now: u64) -> (r: Option<String>)
        requires
            now + TOKEN_REFRESH_AHEAD_SECS <= u64::MAX,
        ensures
            crate::text::opt(r) == usable_token(self.tokens@, key@, now),
    {
        match self.tokens.get(key) {
            Some(c) => if now + TOKEN_REFRESH_AHEAD_SECS < c.expires_at {
                Some(c.token.clone())
            } else {
                None
            },
            None => None,
        }
    }

    /// Remembers a token that was asked for at `now` and is good for `expire`
    /// seconds.
    pub fn store_token(&mut self, key: TokenCacheKey, token: &str, expire: u64, now: u64)
        requires
            now + expire <= u64::MAX,
        ensures
            final(self).identities == old(self).identities,
            final(self).tokens@.dom() == old(self).tokens@.dom().insert(key@),
            final(self).tokens@[key@]@ == (TokenView {
                token: token@,
                expires_at: (now + expire) as u64,
            }),
            forall|k: TokenKeyView|
                k != key@ && old(self).tokens@.contains_key(k)
                    ==> #[trigger] final(self).tokens@[k] == old(self).tokens@[k],
    {
        self.tokens.insert(key, TokenCache { token: owned(token), expires_at: now + expire });
    }

    /// The identity of the bot, unless it has to be asked for.
    pub fn cached_identity(&self, key: &TokenCacheKey) -> (r: Option<FeishuBotIdentity>)
        ensures
            (match r {
                Some(i) => Some(i@),
                None => None,
            }) == known_identity(self.identities@, key@),
    {
        match self.identities.get(key) {
            Some(i) => Some(i.copy()),
            None => None,
        }
    }

    pub fn store_identity(&mut self, key: TokenCacheKey, identity: &FeishuBotIdentity)
        ensures
            final(self).tokens == old(self).tokens,
            final(self).identities@.dom() == old(self).identities@.dom().insert(key@),
            final(self).identities@[key@]@ == identity@,
            forall|k: TokenKeyView|
                k != key@ && old(self).identities@.contains_key(k)
                    ==> #[trigger] final(self).identities@[k] == old(self).identities@[k],
    {
        self.identities.insert(key, identity.copy());
    }
}

/// A token that was just remembered is used until shortly before it expires, and
/// never after; the tokens of other credentials are used as before.
pub proof fn lemma_token_is_reused(
    before: Map<TokenKeyView, TokenCache>,
    key: TokenKeyView,
    entry: TokenCache,
    other: TokenKeyView,
    now: u64,
)
    ensures
        usable_token(before.insert(key, entry), key, now) == (if now + TOKEN_REFRESH_AHEAD_SECS
            < entry.expires_at {
            Some(entry.token@)
        } else {
            None
        }),
        other != key ==> usable_token(before.insert(key, entry), other, now) == usable_token(
            before,
            other,
            now,
        ),
{
}

/// How long a token is good for, as the answer says or else as usual.
pub fn token_lifetime(expire: Option<u64>) -> (r: u64)
    ensures
        r == (match expire {
            Some(e) => e,
            None => DEFAULT_TOKEN_LIFETIME_SECS,
        }),
{
    match expire {
        Some(e) => e,
        None => DEFAULT_TOKEN_LIFETIME_SECS,
    }
}

} // verus!
