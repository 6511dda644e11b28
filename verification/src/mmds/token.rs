//! Session tokens: what they look like, how long they live, and which are valid.

use vstd::prelude::*;
use vstd::string::*;
use vstd::utf8::*;

use crate::clock::Clock;
use crate::text::{self, push_decimal};

verus! {

/// Shortest lifetime of a token, in seconds.
pub const MIN_TTL_SECONDS: u32 = 1;

/// Longest lifetime of a token, in seconds.
pub const MAX_TTL_SECONDS: u32 = 21_600;

/// Random bytes in a token.
pub const TOKEN_LEN_BYTES: usize = 32;

/// Nanoseconds in a second.
pub const NANOS_PER_SECOND: u64 = 1_000_000_000;

/// Why no token was issued.
#[derive(Debug)]
#[non_exhaustive]
pub enum TokenStoreError {
    /// The lifetime is out of bounds.
    TtlOutOfRange { ttl: u32, min: u32, max: u32 },
    /// There were no random bytes.
    Entropy(String),
}

/// The text of a token error.
pub open spec fn token_error_text(e: TokenStoreError) -> Seq<char> {
    match e {
        TokenStoreError::TtlOutOfRange { ttl, min, max } => "token TTL "@ + text::decimal(
            ttl as nat,
        ) + " outside ["@ + text::decimal(min as nat) + ", "@ + text::decimal(max as nat) + "]"@,
        TokenStoreError::Entropy(why) => "failed to read OS entropy: "@ + why@,
    }
}

impl TokenStoreError {
    /// The text of the error.
    pub fn message(&self) -> (s: String)
        ensures
            s@ == token_error_text(*self),
    {
        let mut s = String::new();
        match self {
            TokenStoreError::TtlOutOfRange { ttl, min, max } => {
                s.append("token TTL ");
                push_decimal(&mut s, *ttl as u64);
                s.append(" outside [");
                push_decimal(&mut s, *min as u64);
                s.append(", ");
                push_decimal(&mut s, *max as u64);
                s.append("]");
            },
            TokenStoreError::Entropy(why) => {
                s.append("failed to read OS entropy: ");
                s.append(why.as_str());
            },
        }
        assert(s@ =~= token_error_text(*self));
        s
    }
}

/// The character of the URL-safe alphabet for a number below 64.
pub open spec fn alphabet(n: int) -> char {
    if n < 26 {
        (65 + n) as char
    } else if n < 52 {
        (71 + n) as char
    } else if n < 62 {
        (n - 4) as char
    } else if n == 62 {
        '-'
    } else {
        '_'
    }
}

/// The URL-safe base64 text of bytes, without padding.
pub open spec fn base64url(b: Seq<u8>) -> Seq<char>
    decreases b.len(),
{
    if b.len() == 0 {
        Seq::empty()
    } else if b.len() == 1 {
        seq![alphabet(b[0] as int / 4), alphabet(b[0] as int % 4 * 16)]
    } else if b.len() == 2 {
        seq![
            alphabet(b[0] as int / 4),
            alphabet(b[0] as int % 4 * 16 + b[1] as int / 16),
            alphabet(b[1] as int % 16 * 4),
        ]
    } else {
        seq![
            alphabet(b[0] as int / 4),
            alphabet(b[0] as int % 4 * 16 + b[1] as int / 16),
            alphabet(b[1] as int % 16 * 4 + b[2] as int / 64),
            alphabet(b[2] as int % 64),
        ] + base64url(b.skip(3))
    }
}

fn alphabet_char(n: u8) -> (c: char)
    requires
        n < 64,
    ensures
        c == alphabet(n as int),
{
    if n < 26 {
        (65 + n) as char
    } else if n < 52 {
        (71 + n) as char
    } else if n < 62 {
        (n - 4) as char
    } else if n == 62 {
        '-'
    } else {
        '_'
    }
}

/// The URL-safe base64 text of `bytes`, without padding.
pub fn base64url_no_pad(bytes: &[u8]) -> (out: String)
    ensures
        out@ == base64url(bytes@),
{
    let mut out = String::new();
    let mut i: usize = 0;
    assert(bytes@.skip(0) =~= bytes@);
    while bytes.len() - i >= 3
        invariant
            i <= bytes@.len(),
            out@ + base64url(bytes@.skip(i as int)) == base64url(bytes@),
        decreases bytes@.len() - i,
    {
        let a: u8 = bytes[i];
        let b: u8 = bytes[i + 1];
        let c: u8 = bytes[i + 2];
        let ghost rest = bytes@.skip(i as int);
        let ghost before = out@;
        assert(rest.skip(3) =~= bytes@.skip(i + 3));
        out.push(alphabet_char(a / 4));
        out.push(alphabet_char(a % 4 * 16 + b / 16));
        out.push(alphabet_char(b % 16 * 4 + c / 64));
        out.push(alphabet_char(c % 64));
        assert(out@ + base64url(rest.skip(3)) =~= before + base64url(rest));
        i = i + 3;
    }
    let ghost rest = bytes@.skip(i as int);
    let ghost before = out@;
    if bytes.len() - i == 1 {
        let a: u8 = bytes[i];
        assert(rest[0] == a);
        out.push(alphabet_char(a / 4));
        out.push(alphabet_char(a % 4 * 16));
    } else if bytes.len() - i == 2 {
        let a: u8 = bytes[i];
        let b: u8 = bytes[i + 1];
        assert(rest[0] == a && rest[1] == b);
        out.push(alphabet_char(a / 4));
        out.push(alphabet_char(a % 4 * 16 + b / 16));
        out.push(alphabet_char(b % 16 * 4));
    }
    assert(out@ =~= before + base64url(rest));
    out
}

proof fn alphabet_injective(m: int, n: int)
    requires
        0 <= m < 64,
        0 <= n < 64,
        alphabet(m) == alphabet(n),
    ensures
        m == n,
{
}

/// Different bytes of one length have different texts.
pub proof fn base64url_injective(a: Seq<u8>, b: Seq<u8>)
    requires
        a.len() == b.len(),
        base64url(a) == base64url(b),
    ensures
        a == b,
    decreases a.len(),
{
    let x = base64url(a);
    let y = base64url(b);
    if a.len() > 0 {
        assert(x[0] == alphabet(a[0] as int / 4) && y[0] == alphabet(b[0] as int / 4));
        alphabet_injective(a[0] as int / 4, b[0] as int / 4);
    }
    if a.len() == 1 {
        assert(x[1] == y[1]);
        alphabet_injective(a[0] as int % 4 * 16, b[0] as int % 4 * 16);
    } else if a.len() >= 2 {
        assert(x[1] == alphabet(a[0] as int % 4 * 16 + a[1] as int / 16));
        assert(y[1] == alphabet(b[0] as int % 4 * 16 + b[1] as int / 16));
        alphabet_injective(
            a[0] as int % 4 * 16 + a[1] as int / 16,
            b[0] as int % 4 * 16 + b[1] as int / 16,
        );
        assert(x[2] == y[2]);
        if a.len() == 2 {
            alphabet_injective(a[1] as int % 16 * 4, b[1] as int % 16 * 4);
        } else {
            assert(x[2] == alphabet(a[1] as int % 16 * 4 + a[2] as int / 64));
            assert(y[2] == alphabet(b[1] as int % 16 * 4 + b[2] as int / 64));
            alphabet_injective(
                a[1] as int % 16 * 4 + a[2] as int / 64,
                b[1] as int % 16 * 4 + b[2] as int / 64,
            );
            assert(x[3] == alphabet(a[2] as int % 64) && y[3] == alphabet(b[2] as int % 64));
            alphabet_injective(a[2] as int % 64, b[2] as int % 64);
            assert(base64url(a.skip(3)) =~= x.skip(4));
            assert(base64url(b.skip(3)) =~= y.skip(4));
            base64url_injective(a.skip(3), b.skip(3));
            assert forall|i: int| 0 <= i < a.len() implies a[i] == b[i] by {
                if i >= 3 {
                    assert(a.skip(3)[i - 3] == a[i]);
                    assert(b.skip(3)[i - 3] == b[i]);
                }
            }
        }
    }
    assert(a =~= b);
}

/// The text of bytes is plain ASCII, four characters for three bytes.
pub proof fn base64url_shape(b: Seq<u8>)
    ensures
        base64url(b).len() == (4 * b.len() + 2) / 3,
        is_ascii_chars(base64url(b)),
    decreases b.len(),
{
    if b.len() >= 3 {
        base64url_shape(b.skip(3));
        let head = seq![
            alphabet(b[0] as int / 4),
            alphabet(b[0] as int % 4 * 16 + b[1] as int / 16),
            alphabet(b[1] as int % 16 * 4 + b[2] as int / 64),
            alphabet(b[2] as int % 64),
        ];
        assert(base64url(b) =~= head + base64url(b.skip(3)));
    }
}

/// A session token.
#[derive(Clone, Debug, PartialEq, Eq, Hash)]
pub struct Token(pub String);

impl View for Token {
    type V = Seq<char>;

    open spec fn view(&self) -> Seq<char> {
        self.0@
    }
}

impl Token {
    /// The text of the token.
    pub fn as_str(&self) -> (s: &str)
        ensures
            s@ == self@,
    {
        self.0.as_str()
    }

    /// Whether `other` is the text of the token. Looks at every byte whatever the first
    /// ones are.
    pub fn constant_time_eq(&self, other: &str) -> (b: bool)
        ensures
            b == (self@ == other@),
    {
        let a: &[u8] = self.0.as_str().as_bytes();
        let b: &[u8] = other.as_bytes();
        proof {
            encode_utf8_decode_utf8(self@);
            encode_utf8_decode_utf8(other@);
        }
        if a.len() != b.len() {
            return false;
        }
        let mut diff: u8 = 0;
        let mut i: usize = 0;
        while i < a.len()
            invariant
                i <= a@.len(),
                a@.len() == b@.len(),
                diff == 0 <==> (forall|k: int| 0 <= k < i ==> a@[k] == b@[k]),
            decreases a@.len() - i,
        {
            let x: u8 = a[i];
            let y: u8 = b[i];
            assert((diff | (x ^ y)) == 0 <==> diff == 0 && x == y) by (bit_vector);
            diff = diff | (x ^ y);
            i = i + 1;
        }
        assert(diff == 0 ==> a@ =~= b@);
        diff == 0
    }
}

/// A token and when it ends, in nanoseconds of the store's clock.
#[derive(Debug)]
struct Entry {
    token: Token,
    expires_at: u64,
}

/// Accepts the entries that have not ended at time `now`.
pub open spec fn ends_after(now: u64) -> spec_fn((Seq<char>, u64)) -> bool {
    |e: (Seq<char>, u64)| e.1 > now
}

/// Accepts the entries of other tokens.
pub open spec fn other_than(token: Seq<char>) -> spec_fn((Seq<char>, u64)) -> bool {
    |e: (Seq<char>, u64)| e.0 != token
}

/// The entries that have not ended at time `now`.
pub open spec fn live(entries: Seq<(Seq<char>, u64)>, now: u64) -> Seq<(Seq<char>, u64)> {
    entries.filter(ends_after(now))
}

/// The entries of other tokens.
pub open spec fn without(entries: Seq<(Seq<char>, u64)>, token: Seq<char>) -> Seq<
    (Seq<char>, u64),
> {
    entries.filter(other_than(token))
}

/// No token is stored twice.
pub open spec fn each_once(entries: Seq<(Seq<char>, u64)>) -> bool {
    forall|i: int, j: int|
        0 <= i < j < entries.len() ==> (#[trigger] entries[i]).0 != (#[trigger] entries[j]).0
}

/// Whether a token is stored and has not ended at time `now`.
pub open spec fn is_valid(entries: Seq<(Seq<char>, u64)>, token: Seq<char>, now: u64) -> bool {
    exists|i: int| 0 <= i < entries.len() && (#[trigger] entries[i]).0 == token && entries[i].1 > now
}

/// When a token issued at `now` ends.
pub open spec fn end_of(now: u64, ttl_seconds: u32) -> u64 {
    let end = now + ttl_seconds * NANOS_PER_SECOND;
    if end > u64::MAX {
        u64::MAX
    } else {
        end as u64
    }
}

/// Whether a lifetime is within bounds.
pub open spec fn ttl_ok(ttl_seconds: u32) -> bool {
    MIN_TTL_SECONDS <= ttl_seconds <= MAX_TTL_SECONDS
}

/// Whether a lifetime is within bounds.
pub fn ttl_allowed(ttl_seconds: u32) -> (b: bool)
    ensures
        b == ttl_ok(ttl_seconds),
{
    MIN_TTL_SECONDS <= ttl_seconds && ttl_seconds <= MAX_TTL_SECONDS
}

/// The tokens that are out, each once, with their ends.
#[derive(Debug)]
pub struct TokenStore {
    tokens: Vec<Entry>,
    clock: Clock,
}

impl View for TokenStore {
    type V = Seq<(Seq<char>, u64)>;

    closed spec fn view(&self) -> Seq<(Seq<char>, u64)> {
        Seq::new(self.tokens@.len(), |i: int| (self.tokens@[i].token@, self.tokens@[i].expires_at))
    }
}

impl TokenStore {
    #[verifier::type_invariant]
    closed spec fn holds_each_once(self) -> bool {
        each_once(self@)
    }
}

/// What issuing a token at time `now` from random bytes does.
pub open spec fn issued(
    before: Seq<(Seq<char>, u64)>,
    after: Seq<(Seq<char>, u64)>,
    r: Result<Token, TokenStoreError>,
    ttl_seconds: u32,
    entropy: Result<[u8; 32], String>,
    now: u64,
) -> bool {
    match r {
        Ok(t) => ttl_ok(ttl_seconds) && entropy is Ok && t@ == base64url(entropy->Ok_0@) && after
            == without(before, t@).push((t@, end_of(now, ttl_seconds))),
        Err(TokenStoreError::TtlOutOfRange { ttl, min, max }) => !ttl_ok(ttl_seconds) && ttl
            == ttl_seconds && min == MIN_TTL_SECONDS && max == MAX_TTL_SECONDS && after == before,
        Err(TokenStoreError::Entropy(why)) => ttl_ok(ttl_seconds) && entropy == Err::<
            [u8; 32],
            String,
        >(why) && after == before,
    }
}

impl TokenStore {
    /// A store without tokens.
    pub fn new() -> (s: Self)
        ensures
            s@ == Seq::<(Seq<char>, u64)>::empty(),
    {
        let s = TokenStore { tokens: Vec::new(), clock: Clock::start() };
        assert(s@ =~= Seq::<(Seq<char>, u64)>::empty());
        s
    }

    /// Issues a token made of random bytes (or not, if there were none), at time `now` of
    /// the store's clock.
    pub fn issue_at(&mut self, ttl_seconds: u32, entropy: Result<[u8; 32], String>, now: u64) -> (r:
        Result<Token, TokenStoreError>)
        ensures
            issued(old(self)@, final(self)@, r, ttl_seconds, entropy, now),
            each_once(final(self)@),
    {
        proof {
            use_type_invariant(&*self);
        }
        if !ttl_allowed(ttl_seconds) {
            return Err(
                TokenStoreError::TtlOutOfRange {
                    ttl: ttl_seconds,
                    min: MIN_TTL_SECONDS,
                    max: MAX_TTL_SECONDS,
                },
            );
        }
        let bytes: [u8; 32] = match entropy {
            Ok(b) => b,
            Err(why) => {
                return Err(TokenStoreError::Entropy(why));
            },
        };
        let text: String = base64url_no_pad(bytes.as_slice());
        let expires_at: u64 = now.saturating_add(ttl_seconds as u64 * NANOS_PER_SECOND);
        let ghost before = self@;
        let mut old_tokens: Vec<Entry> = Vec::new();
        std::mem::swap(&mut old_tokens, &mut self.tokens);
        let mut kept: Vec<Entry> = Vec::new();
        let mut i: usize = 0;
        let ghost p = other_than(text@);
        while i < old_tokens.len()
            invariant
                i <= old_tokens@.len(),
                before.len() == old_tokens@.len(),
                forall|k: int|
                    0 <= k < before.len() ==> #[trigger] before[k] == (
                        old_tokens@[k].token@,
                        old_tokens@[k].expires_at,
                    ),
                p == other_than(text@),
                entries_of(kept@) == before.take(i as int).filter(p),
            decreases old_tokens@.len() - i,
        {
            proof {
                filter_step(before, p, i as int);
            }
            let e: &Entry = &old_tokens[i];
            assert(before[i as int] == (e.token@, e.expires_at));
            if !(e.token.0 == text) {
                kept.push(Entry { token: Token(e.token.0.clone()), expires_at: e.expires_at });
                assert(entries_of(kept@) =~= before.take(i as int).filter(p).push(before[i as int]));
            }
            i = i + 1;
        }
        assert(before.take(i as int) =~= before);
        kept.push(Entry { token: Token(text.clone()), expires_at });
        proof {
            issuing_keeps_tokens_apart(before, text@, expires_at);
            assert(entries_of(kept@) =~= without(before, text@).push((text@, expires_at)));
        }
        self.tokens = kept;
        assert(self@ =~= without(before, text@).push((text@, expires_at)));
        Ok(Token(text))
    }

    /// Issues a token made of random bytes (or not, if there were none).
    pub fn issue(&mut self, ttl_seconds: u32, entropy: Result<[u8; 32], String>) -> (r: Result<
        Token,
        TokenStoreError,
    >)
        ensures
            exists|now: u64|
                issued(old(self)@, final(self)@, r, ttl_seconds, entropy, now),
            each_once(final(self)@),
    {
        let now: u64 = self.clock.now_ns();
        self.issue_at(ttl_seconds, entropy, now)
    }

    /// Whether `candidate` is a token that has not ended at time `now` of the store's
    /// clock. Forgets the tokens that have.
    pub fn validate_at(&mut self, candidate: &str, now: u64) -> (valid: bool)
        ensures
            valid == is_valid(old(self)@, candidate@, now),
            final(self)@ == live(old(self)@, now),
            each_once(final(self)@),
    {
        proof {
            use_type_invariant(&*self);
        }
        let ghost before = self@;
        let mut old_tokens: Vec<Entry> = Vec::new();
        std::mem::swap(&mut old_tokens, &mut self.tokens);
        let mut kept: Vec<Entry> = Vec::new();
        let mut hit: bool = false;
        let mut i: usize = 0;
        let ghost p = ends_after(now);
        while i < old_tokens.len()
            invariant
                i <= old_tokens@.len(),
                before.len() == old_tokens@.len(),
                forall|k: int|
                    0 <= k < before.len() ==> #[trigger] before[k] == (
                        old_tokens@[k].token@,
                        old_tokens@[k].expires_at,
                    ),
                p == ends_after(now),
                entries_of(kept@) == before.take(i as int).filter(p),
                hit == (exists|k: int|
                    0 <= k < i && (#[trigger] before[k]).0 == candidate@ && before[k].1 > now),
            decreases old_tokens@.len() - i,
        {
            proof {
                filter_step(before, p, i as int);
            }
            let e: &Entry = &old_tokens[i];
            assert(before[i as int] == (e.token@, e.expires_at));
            if e.expires_at > now {
                if e.token.constant_time_eq(candidate) {
                    hit = true;
                }
                kept.push(Entry { token: Token(e.token.0.clone()), expires_at: e.expires_at });
                assert(entries_of(kept@) =~= before.take(i as int).filter(p).push(before[i as int]));
            }
            i = i + 1;
        }
        assert(before.take(i as int) =~= before);
        proof {
            forgetting_keeps_tokens_apart(before, p);
            assert(entries_of(kept@) =~= live(before, now));
        }
        self.tokens = kept;
        assert(self@ =~= live(before, now));
        hit
    }

    /// Whether `candidate` is a token that has not ended. Forgets the tokens that have.
    pub fn validate(&mut self, candidate: &str) -> (valid: bool)
        ensures
            exists|now: u64|
                valid == is_valid(old(self)@, candidate@, now) && final(self)@ == #[trigger] live(
                    old(self)@,
                    now,
                ),
            each_once(final(self)@),
    {
        let now: u64 = self.clock.now_ns();
        self.validate_at(candidate, now)
    }

    /// The time of the store's clock.
    pub fn now(&self) -> (n: u64) {
        self.clock.now_ns()
    }

    /// How many tokens are stored.
    pub fn len(&self) -> (n: usize)
        ensures
            n == self@.len(),
            each_once(self@),
    {
        proof {
            use_type_invariant(self);
        }
        self.tokens.len()
    }

    /// Whether no token is stored.
    pub fn is_empty(&self) -> (b: bool)
        ensures
            b == (self@.len() == 0),
    {
        self.tokens.len() == 0
    }
}

impl Default for TokenStore {
    fn default() -> (s: Self)
        ensures
            s@ == Seq::<(Seq<char>, u64)>::empty(),
    {
        TokenStore::new()
    }
}

spec fn entries_of(s: Seq<Entry>) -> Seq<(Seq<char>, u64)> {
    Seq::new(s.len(), |i: int| (s[i].token@, s[i].expires_at))
}

/// Filtering one element more keeps it if it passes.
proof fn filter_step<T>(s: Seq<T>, p: spec_fn(T) -> bool, i: int)
    requires
        0 <= i < s.len(),
    ensures
        s.take(i + 1).filter(p) == if p(s[i]) {
            s.take(i).filter(p).push(s[i])
        } else {
            s.take(i).filter(p)
        },
{
    reveal(Seq::filter);
    assert(s.take(i + 1).drop_last() =~= s.take(i));
}

/// Forgetting some of the tokens stores none twice.
pub proof fn forgetting_keeps_tokens_apart(
    entries: Seq<(Seq<char>, u64)>,
    p: spec_fn((Seq<char>, u64)) -> bool,
)
    requires
        each_once(entries),
    ensures
        each_once(entries.filter(p)),
    decreases entries.len(),
{
    reveal(Seq::filter);
    if entries.len() > 0 {
        let rest = entries.drop_last();
        assert forall|i: int, j: int| 0 <= i < j < rest.len() implies (#[trigger] rest[i]).0 != (
        #[trigger] rest[j]).0 by {
            assert(entries[i].0 != entries[j].0);
        }
        forgetting_keeps_tokens_apart(rest, p);
        let kept = rest.filter(p);
        assert forall|i: int| 0 <= i < kept.len() implies (#[trigger] kept[i]).0
            != entries.last().0 by {
            rest.lemma_filter_contains_rev(p, kept[i]);
            let k = choose|k: int| 0 <= k < rest.len() && rest[k] == kept[i];
            assert(entries[k] == kept[i]);
        }
    }
}

/// Issuing a token stores none twice, even one that was issued before.
pub proof fn issuing_keeps_tokens_apart(
    before: Seq<(Seq<char>, u64)>,
    token: Seq<char>,
    end: u64,
)
    requires
        each_once(before),
    ensures
        each_once(without(before, token).push((token, end))),
{
    let rest = without(before, token);
    forgetting_keeps_tokens_apart(before, other_than(token));
    assert forall|i: int| 0 <= i < rest.len() implies (#[trigger] rest[i]).0 != token by {
        before.lemma_filter_pred(other_than(token), i);
    }
}

/// A token is valid from when it was issued until its end, and not after.
pub proof fn issued_token_is_valid_until_its_end(
    before: Seq<(Seq<char>, u64)>,
    token: Seq<char>,
    issued_at: u64,
    ttl_seconds: u32,
    now: u64,
)
    ensures
        is_valid(
            without(before, token).push((token, end_of(issued_at, ttl_seconds))),
            token,
            now,
        ) <==> now < end_of(issued_at, ttl_seconds),
{
    let rest = without(before, token);
    let after = rest.push((token, end_of(issued_at, ttl_seconds)));
    assert(after[rest.len() as int] == (token, end_of(issued_at, ttl_seconds)));
    assert forall|i: int| 0 <= i < rest.len() implies (#[trigger] rest[i]).0 != token by {
        before.lemma_filter_pred(other_than(token), i);
    }
    assert forall|i: int| 0 <= i < rest.len() implies #[trigger] after[i] == rest[i] by {}
}

/// Checking a token forgets nothing that is still valid: every token is as valid after as
/// before, at that time and later.
pub proof fn validation_keeps_live_tokens(
    entries: Seq<(Seq<char>, u64)>,
    token: Seq<char>,
    now: u64,
    later: u64,
)
    requires
        now <= later,
    ensures
        is_valid(live(entries, now), token, later) <==> is_valid(entries, token, later),
{
    let p = ends_after(now);
    let kept = live(entries, now);
    if is_valid(entries, token, later) {
        let i = choose|i: int|
            0 <= i < entries.len() && (#[trigger] entries[i]).0 == token && entries[i].1 > later;
        entries.lemma_filter_contains(p, i);
        let k = choose|k: int| 0 <= k < kept.len() && kept[k] == entries[i];
        assert(kept[k].0 == token);
    }
    if is_valid(kept, token, later) {
        let k = choose|k: int|
            0 <= k < kept.len() && (#[trigger] kept[k]).0 == token && kept[k].1 > later;
        entries.lemma_filter_contains_rev(p, kept[k]);
        let i = choose|i: int| 0 <= i < entries.len() && entries[i] == kept[k];
        assert(entries[i].0 == token);
    }
}

/// The alphabet: the upper-case letters, the lower-case letters, the digits, the hyphen and
/// the underscore, in this order.
pub proof fn alphabet_in_order(n: int)
    requires
        0 <= n < 64,
    ensures
        n < 26 ==> 'A' <= alphabet(n) <= 'Z' && alphabet(n) as int - 'A' as int == n,
        26 <= n < 52 ==> 'a' <= alphabet(n) <= 'z' && alphabet(n) as int - 'a' as int == n - 26,
        52 <= n < 62 ==> '0' <= alphabet(n) <= '9' && alphabet(n) as int - '0' as int == n - 52,
        n == 62 ==> alphabet(n) == '-',
        n == 63 ==> alphabet(n) == '_',
{
}

proof fn six_bits_each(x: int, y: int, z: int)
    requires
        0 <= x < 256,
        0 <= y < 256,
        0 <= z < 256,
    ensures
        ({
            let n = x * 65536 + y * 256 + z;
            &&& n / 262144 == x / 4
            &&& n / 4096 % 64 == x % 4 * 16 + y / 16
            &&& n / 64 % 64 == y % 16 * 4 + z / 64
            &&& n % 64 == z % 64
        }),
{
    let n = x * 65536 + y * 256 + z;
    assert(n / 4096 == x * 16 + y / 16);
    assert(n / 64 == x * 1024 + y * 4 + z / 64);
}

/// The text of three bytes are four characters of the alphabet, six bits each, most
/// significant first; one byte left over gives two characters and two give three, the
/// missing bits being zero.
pub proof fn base64url_writes_six_bits_each(b: Seq<u8>)
    ensures
        ({
            let x = b[0] as int;
            let y = if b.len() >= 2 {
                b[1] as int
            } else {
                0
            };
            let z = if b.len() >= 3 {
                b[2] as int
            } else {
                0
            };
            let n = x * 65536 + y * 256 + z;
            let t = base64url(b);
            &&& b.len() == 0 ==> t.len() == 0
            &&& b.len() >= 1 ==> t.len() >= 2 && t[0] == alphabet(n / 262144) && t[1] == alphabet(
                n / 4096 % 64,
            )
            &&& b.len() == 1 ==> t.len() == 2
            &&& b.len() >= 2 ==> t.len() >= 3 && t[2] == alphabet(n / 64 % 64)
            &&& b.len() == 2 ==> t.len() == 3
            &&& b.len() >= 3 ==> t.len() >= 4 && t[3] == alphabet(n % 64) && t.skip(4) == base64url(
                b.skip(3),
            )
        }),
{
    let x = b[0] as int;
    if b.len() == 1 {
        six_bits_each(x, 0, 0);
    } else if b.len() == 2 {
        six_bits_each(x, b[1] as int, 0);
    } else if b.len() >= 3 {
        six_bits_each(x, b[1] as int, b[2] as int);
        assert(base64url(b).skip(4) =~= base64url(b.skip(3)));
    }
}

/// Issuing a token changes the validity of no other token, at no time.
pub proof fn issuing_leaves_other_tokens(
    before: Seq<(Seq<char>, u64)>,
    token: Seq<char>,
    end: u64,
    other: Seq<char>,
    now: u64,
)
    requires
        other != token,
    ensures
        is_valid(without(before, token).push((token, end)), other, now) <==> is_valid(
            before,
            other,
            now,
        ),
{
    let p = other_than(token);
    let rest = without(before, token);
    let after = rest.push((token, end));
    if is_valid(before, other, now) {
        let i = choose|i: int|
            0 <= i < before.len() && (#[trigger] before[i]).0 == other && before[i].1 > now;
        before.lemma_filter_contains(p, i);
        let k = choose|k: int| 0 <= k < rest.len() && rest[k] == before[i];
        assert(after[k].0 == other);
    }
    if is_valid(after, other, now) {
        let k = choose|k: int|
            0 <= k < after.len() && (#[trigger] after[k]).0 == other && after[k].1 > now;
        assert(rest[k] == after[k]);
        before.lemma_filter_contains_rev(p, rest[k]);
        let i = choose|i: int| 0 <= i < before.len() && before[i] == rest[k];
        assert(before[i].0 == other);
    }
}

/// A token ends as many seconds after it was issued as its lifetime says, counted in
/// nanoseconds up to the last that can be counted. A lifetime is one second to six hours.
pub proof fn tokens_live_for_their_lifetime(now: u64, ttl_seconds: u32)
    ensures
        now + ttl_seconds * 1_000_000_000 <= u64::MAX ==> end_of(now, ttl_seconds) == now
            + ttl_seconds * 1_000_000_000,
        now + ttl_seconds * 1_000_000_000 > u64::MAX ==> end_of(now, ttl_seconds) == u64::MAX,
        ttl_ok(ttl_seconds) <==> 1 <= ttl_seconds <= 6 * 3600,
{
}

/// A token is valid exactly while it is stored with an end that lies ahead.
pub proof fn tokens_are_valid_before_their_end(
    entries: Seq<(Seq<char>, u64)>,
    t: Seq<char>,
    now: u64,
    later: u64,
)
    ensures
        is_valid(entries, t, now) <==> exists|i: int|
            0 <= i < entries.len() && (#[trigger] entries[i]).0 == t && now < entries[i].1,
        now <= later && is_valid(entries, t, later) ==> is_valid(entries, t, now),
{
}

/// A token is issued exactly for a lifetime of one second to six hours and with random
/// bytes; it is the text of these bytes. Else nothing is stored.
pub proof fn tokens_are_issued_for_up_to_six_hours(
    before: Seq<(Seq<char>, u64)>,
    after: Seq<(Seq<char>, u64)>,
    r: Result<Token, TokenStoreError>,
    ttl_seconds: u32,
    entropy: Result<[u8; 32], String>,
    now: u64,
)
    requires
        issued(before, after, r, ttl_seconds, entropy, now),
    ensures
        r is Ok <==> 1 <= ttl_seconds <= 21600 && entropy is Ok,
        r is Ok ==> r->Ok_0@ == base64url(entropy->Ok_0@) && after.len() > 0 && after.last().0
            == r->Ok_0@,
        r is Err ==> after == before,
        r is Err && r->Err_0 is TtlOutOfRange <==> ttl_seconds == 0 || ttl_seconds > 21600,
{
}

/// Looking at a token forgets exactly those that have ended: what is left lies ahead, and
/// what lies ahead is left.
pub proof fn only_ended_tokens_are_forgotten(entries: Seq<(Seq<char>, u64)>, now: u64, i: int)
    ensures
        live(entries, now).len() <= entries.len(),
        0 <= i < live(entries, now).len() ==> live(entries, now)[i].1 > now,
        0 <= i < entries.len() && entries[i].1 > now ==> live(entries, now).contains(entries[i]),
{
    let p = ends_after(now);
    entries.filter_lemma(p);
    if 0 <= i < live(entries, now).len() {
        assert(p(live(entries, now)[i]));
    }
    if 0 <= i < entries.len() && entries[i].1 > now {
        assert(p(entries[i]));
    }
}

} // verus!
