//! The keys that access tokens are signed with.
//!
//! Keys are rotated with an overlap, so that tokens minted just before a rotation keep
//! verifying. The secrets are stored sealed; what is stored is read in [`refresh`].

use crate::encoding::{b64_encode, base64url};
use crate::relay::crypto::{
    claims_text, key_for, mint_token, minted, opened, random_bytes, token_input, token_tag,
    verified_token, verify_token, Claims, Parts, PrincipalKind, SecretBox, SigningKey,
    TokenClaims, TokenParts,
};
use crate::relay::error::{outcome, ApiError, ApiResult, Refusal};
use crate::relay::repo::StoredSigningKey;
use crate::text::{option_view, texts};
use vstd::prelude::*;
use vstd::utf8::*;

verus! {

/// A signing key that still verifies.
#[derive(Debug)]
pub struct KeyEntry {
    pub key: SigningKey,
    pub created_at: i64,
    /// New tokens are minted with it.
    pub active: bool,
}

/// A signing key that still verifies, over sequences.
pub struct Entry {
    pub kid: Seq<char>,
    pub secret: Seq<u8>,
    pub created_at: i64,
    pub active: bool,
}

impl View for KeyEntry {
    type V = Entry;

    open spec fn view(&self) -> Entry {
        Entry {
            kid: self.key.kid@,
            secret: self.key.secret@,
            created_at: self.created_at,
            active: self.active,
        }
    }
}

/// The views of a list of keys.
pub open spec fn entries(list: Seq<KeyEntry>) -> Seq<Entry> {
    list.map_values(|entry: KeyEntry| entry@)
}

/// A stored key still verifies: it is active, or its overlap has not run out.
pub open spec fn still_verifies(key: StoredSigningKey, now: i64) -> bool {
    key.active || key.not_after is None || key.not_after->0 >= now
}

/// What is read of the stored keys. One that cannot be opened fails the whole: the key
/// material is wrong, and every outstanding token would quietly stop verifying.
pub open spec fn opened_keys(secret: Seq<u8>, stored: Seq<StoredSigningKey>, now: i64) -> Result<
    Seq<Entry>,
    Refusal,
>
    decreases stored.len(),
{
    if stored.len() == 0 {
        Ok(Seq::empty())
    } else {
        match opened_keys(secret, stored.drop_last(), now) {
            Err(refusal) => Err(refusal),
            Ok(front) => {
                let key = stored.last();
                if !still_verifies(key, now) {
                    Ok(front)
                } else {
                    match opened(secret, key.nonce@, key.ciphertext@) {
                        None => Err(
                            Refusal::internal(
                                "a stored token signing key could not be decrypted with the supplied bootstrap key material"@,
                            ),
                        ),
                        Some(plain) => Ok(
                            front.push(
                                Entry {
                                    kid: key.kid@,
                                    secret: plain,
                                    created_at: key.created_at,
                                    active: key.active,
                                },
                            ),
                        ),
                    }
                }
            },
        }
    }
}

/// Reading more keys never mends a failure.
proof fn lemma_failure_stays(secret: Seq<u8>, stored: Seq<StoredSigningKey>, now: i64, size: int)
    requires
        0 <= size <= stored.len(),
        opened_keys(secret, stored.take(size), now) is Err,
    ensures
        opened_keys(secret, stored, now) == opened_keys(secret, stored.take(size), now),
    decreases stored.len(),
{
    if size < stored.len() {
        assert(stored.drop_last().take(size) =~= stored.take(size));
        lemma_failure_stays(secret, stored.drop_last(), now, size);
    } else {
        assert(stored.take(size) =~= stored);
    }
}

/// Opens the stored keys that still verify.
pub fn open_keys(secret_box: &SecretBox, stored: &Vec<StoredSigningKey>, now: i64) -> (result:
    ApiResult<Vec<KeyEntry>>)
    ensures
        match result {
            Ok(list) => opened_keys(secret_box@, stored@, now) == Ok::<Seq<Entry>, Refusal>(
                entries(list@),
            ),
            Err(error) => opened_keys(secret_box@, stored@, now) == Err::<Seq<Entry>, Refusal>(
                error@,
            ),
        },
{
    let mut list: Vec<KeyEntry> = Vec::new();
    let mut index: usize = 0;
    assert(entries(list@) =~= Seq::<Entry>::empty());
    while index < stored.len()
        invariant
            index <= stored@.len(),
            opened_keys(secret_box@, stored@.take(index as int), now) == Ok::<Seq<Entry>, Refusal>(
                entries(list@),
            ),
        decreases stored@.len() - index,
    {
        let key = &stored[index];
        let ghost before = entries(list@);
        proof {
            let front = stored@.take(index + 1);
            assert(front.drop_last() =~= stored@.take(index as int));
            assert(front.last() == *key);
        }
        let expired: bool = !key.active && match key.not_after {
            Some(not_after) => not_after < now,
            None => false,
        };
        assert(expired == !still_verifies(*key, now));
        if !expired {
            match secret_box.open(key.nonce.as_slice(), key.ciphertext.as_slice()) {
                Some(secret) => {
                    let entry = KeyEntry {
                        key: SigningKey { kid: key.kid.as_str().to_owned(), secret },
                        created_at: key.created_at,
                        active: key.active,
                    };
                    let ghost shown = entry@;
                    list.push(entry);
                    assert(entries(list@) =~= before.push(shown));
                },
                None => {
                    proof {
                        lemma_failure_stays(secret_box@, stored@, now, index + 1);
                    }
                    return Err(
                        ApiError::internal(
                            "a stored token signing key could not be decrypted with the supplied bootstrap key material",
                        ),
                    );
                },
            }
        }
        index = index + 1;
    }
    assert(stored@.take(stored@.len() as int) =~= stored@);
    Ok(list)
}

/// One key comes before another: the active one first, then the younger.
pub open spec fn ranks_before(a: Entry, b: Entry) -> bool {
    if a.active != b.active {
        a.active
    } else {
        a.created_at > b.created_at
    }
}

/// Where a key belongs in an ordered list: behind all that it does not rank before.
pub open spec fn place(list: Seq<Entry>, entry: Entry) -> nat
    decreases list.len(),
{
    if list.len() == 0 {
        0
    } else if ranks_before(entry, list.last()) {
        place(list.drop_last(), entry)
    } else {
        list.len()
    }
}

/// The keys in the order in which they are looked through; those that rank alike stay as
/// they were.
pub open spec fn ordered(list: Seq<Entry>) -> Seq<Entry>
    decreases list.len(),
{
    if list.len() == 0 {
        Seq::empty()
    } else {
        let front = ordered(list.drop_last());
        front.insert(place(front, list.last()) as int, list.last())
    }
}

proof fn lemma_place(list: Seq<Entry>, entry: Entry)
    ensures
        place(list, entry) <= list.len(),
        forall|i: int| place(list, entry) <= i < list.len() ==> ranks_before(entry, #[trigger] list[i]),
        place(list, entry) > 0 ==> !ranks_before(entry, list[place(list, entry) - 1]),
    decreases list.len(),
{
    if list.len() > 0 && ranks_before(entry, list.last()) {
        lemma_place(list.drop_last(), entry);
        assert forall|i: int| place(list, entry) <= i < list.len() implies ranks_before(
            entry,
            #[trigger] list[i],
        ) by {
            if i < list.len() - 1 {
                assert(list.drop_last()[i] == list[i]);
            }
        }
    }
}

/// Nothing in the list ranks before what stands in front of it.
pub open spec fn is_ordered(list: Seq<Entry>) -> bool {
    forall|i: int, j: int| 0 <= i < j < list.len() ==> !ranks_before(#[trigger] list[j], #[trigger] list[i])
}

/// Ordering the keys loses none and adds none, and an active key is found first.
pub proof fn law_keys_are_ordered(list: Seq<Entry>)
    ensures
        is_ordered(ordered(list)),
        ordered(list).to_multiset() == list.to_multiset(),
    decreases list.len(),
{
    broadcast use vstd::seq_lib::group_to_multiset_ensures;

    if list.len() > 0 {
        let front = ordered(list.drop_last());
        let last = list.last();
        law_keys_are_ordered(list.drop_last());
        lemma_place(front, last);
        let at = place(front, last) as int;
        let whole = front.insert(at, last);
        assert forall|i: int, j: int| 0 <= i < j < whole.len() implies !ranks_before(
            #[trigger] whole[j],
            #[trigger] whole[i],
        ) by {
            if i < at && j == at && at > 0 {
                if i < at - 1 {
                    assert(!ranks_before(front[at - 1], front[i]));
                }
            }
        }
        vstd::seq_lib::to_multiset_insert(front, at, last);
        assert(list =~= list.drop_last().push(last));
        vstd::seq_lib::to_multiset_build(list.drop_last(), last);
    } else {
        assert(list =~= ordered(list));
    }
}

fn goes_before(a: &KeyEntry, b: &KeyEntry) -> (before: bool)
    ensures
        before == ranks_before(a@, b@),
{
    if a.active != b.active {
        a.active
    } else {
        a.created_at > b.created_at
    }
}

fn put_in_place(list: &mut Vec<KeyEntry>, entry: KeyEntry)
    ensures
        entries(final(list)@) == entries(old(list)@).insert(
            place(entries(old(list)@), entry@) as int,
            entry@,
        ),
{
    let mut at: usize = list.len();
    let ghost all = entries(list@);
    assert(all.take(all.len() as int) =~= all);
    while at > 0 && goes_before(&entry, &list[at - 1])
        invariant
            at <= list@.len(),
            list@ == old(list)@,
            all == entries(list@),
            place(all, entry@) == place(all.take(at as int), entry@),
        ensures
            at <= list@.len(),
            at == place(all, entry@),
        decreases at,
    {
        assert(all.take(at as int).drop_last() =~= all.take(at - 1));
        assert(all.take(at as int).last() == list@[at - 1]@);
        at = at - 1;
    }
    let ghost shown = entry@;
    list.insert(at, entry);
    assert(entries(list@) =~= all.insert(at as int, shown));
}

/// Puts the keys in the order in which they are looked through.
pub fn order(list: Vec<KeyEntry>) -> (sorted: Vec<KeyEntry>)
    ensures
        entries(sorted@) == ordered(entries(list@)),
{
    let ghost all = entries(list@);
    let mut rest = list;
    let mut sorted: Vec<KeyEntry> = Vec::new();
    let ghost mut done: int = 0;
    assert(entries(sorted@) =~= Seq::<Entry>::empty());
    assert(all.skip(0) =~= all);
    while rest.len() > 0
        invariant
            0 <= done <= all.len(),
            entries(rest@) == all.skip(done),
            entries(sorted@) == ordered(all.take(done)),
        decreases rest@.len(),
    {
        let ghost before = rest@;
        let entry = rest.remove(0);
        proof {
            assert(entries(before).len() == before.len());
            assert(all.skip(done)[0] == all[done]);
            assert(entry@ == all[done]);
            assert(entries(rest@) =~= entries(before).drop_first());
            assert(all.skip(done).drop_first() =~= all.skip(done + 1));
            assert(all.take(done + 1).drop_last() =~= all.take(done));
            assert(all.take(done + 1).last() == all[done]);
            done = done + 1;
        }
        put_in_place(&mut sorted, entry);
    }
    proof {
        assert(entries(rest@).len() == 0);
        assert(all.skip(done).len() == all.len() - done);
        assert(all.take(done) =~= all);
    }
    sorted
}

/// New tokens can be minted with one of the keys.
pub open spec fn has_active(list: Seq<Entry>) -> bool {
    exists|i: int| 0 <= i < list.len() && (#[trigger] list[i]).active
}

/// The keys once a fresh one has taken over.
pub open spec fn taken_over(list: Seq<Entry>, fresh: Entry) -> Seq<Entry> {
    seq![fresh] + list.map_values(|entry: Entry| Entry { active: false, ..entry })
}

/// A key as it is stored: sealed.
#[derive(Debug)]
pub struct SealedKey {
    pub kid: String,
    pub nonce: Vec<u8>,
    pub ciphertext: Vec<u8>,
}

/// Draws a signing key. What is stored of it opens to its secret.
pub fn new_key(secret_box: &SecretBox, kid: &str, now: i64) -> (drawn: (KeyEntry, SealedKey))
    ensures
        drawn.0@ == (Entry { kid: kid@, secret: drawn.0@.secret, created_at: now, active: true }),
        drawn.0@.secret.len() == 32,
        drawn.1.kid@ == kid@,
        opened(secret_box@, drawn.1.nonce@, drawn.1.ciphertext@) == Some(drawn.0@.secret),
{
    let secret = random_bytes(32);
    let (nonce, ciphertext) = secret_box.seal(secret.as_slice());
    (
        KeyEntry {
            key: SigningKey { kid: kid.to_owned(), secret },
            created_at: now,
            active: true,
        },
        SealedKey { kid: kid.to_owned(), nonce, ciphertext },
    )
}

/// Lets a fresh key take over from the others.
pub fn take_over(list: Vec<KeyEntry>, fresh: KeyEntry) -> (all: Vec<KeyEntry>)
    ensures
        entries(all@) == taken_over(entries(list@), fresh@),
{
    let mut all = list;
    let ghost before = entries(list@);
    let mut index: usize = 0;
    while index < all.len()
        invariant
            index <= all@.len(),
            all@.len() == before.len(),
            forall|i: int|
                0 <= i < index ==> (#[trigger] all@[i])@ == (Entry { active: false, ..before[i] }),
            forall|i: int| index <= i < all@.len() ==> (#[trigger] all@[i])@ == before[i],
        decreases all@.len() - index,
    {
        all[index].active = false;
        index = index + 1;
    }
    let ghost shown = fresh@;
    all.insert(0, fresh);
    assert(entries(all@) =~= taken_over(before, shown));
    all
}

fn any_active(list: &Vec<KeyEntry>) -> (any: bool)
    ensures
        any == has_active(entries(list@)),
{
    let mut index: usize = 0;
    while index < list.len()
        invariant
            index <= list@.len(),
            forall|i: int| 0 <= i < index ==> !(#[trigger] entries(list@)[i]).active,
        decreases list@.len() - index,
    {
        if list[index].active {
            assert(entries(list@)[index as int].active);
            return true;
        }
        index = index + 1;
    }
    false
}

/// The keys read from durable state, and the one that was drawn because there was none
/// to mint with. That one has to be stored before the keys are used.
#[derive(Debug)]
pub struct Refreshed {
    pub keys: Vec<KeyEntry>,
    pub drawn: Option<SealedKey>,
}

/// Reads the keys from durable state, drawing the first one if there is none to mint
/// with. A drawn key gets the ID `kid`.
pub fn refresh(
    secret_box: &SecretBox,
    stored: &Vec<StoredSigningKey>,
    now: i64,
    kid: &str,
) -> (result: ApiResult<Refreshed>)
    ensures
        match (result, opened_keys(secret_box@, stored@, now)) {
            (Ok(refreshed), Ok(list)) => if has_active(list) {
                entries(refreshed.keys@) == ordered(list) && refreshed.drawn is None
            } else {
                exists|secret: Seq<u8>|
                    {
                        &&& secret.len() == 32
                        &&& entries(refreshed.keys@) == #[trigger] ordered(
                            taken_over(
                                list,
                                Entry { kid: kid@, secret, created_at: now, active: true },
                            ),
                        )
                        &&& refreshed.drawn matches Some(sealed) && sealed.kid@ == kid@ && opened(
                            secret_box@,
                            sealed.nonce@,
                            sealed.ciphertext@,
                        ) == Some(secret)
                    }
            },
            (Err(error), Err(refusal)) => error@ == refusal,
            _ => false,
        },
{
    let list = match open_keys(secret_box, stored, now) {
        Ok(list) => list,
        Err(error) => return Err(error),
    };
    if any_active(&list) {
        return Ok(Refreshed { keys: order(list), drawn: None });
    }
    let (fresh, sealed) = new_key(secret_box, kid, now);
    let keys = order(take_over(list, fresh));
    Ok(Refreshed { keys, drawn: Some(sealed) })
}

/// The key that new tokens are minted with.
pub open spec fn active_key(list: Seq<Entry>) -> Option<Entry>
    decreases list.len(),
{
    if list.len() == 0 {
        None
    } else if list[0].active {
        Some(list[0])
    } else {
        active_key(list.drop_first())
    }
}

/// The keys that tokens are verified with.
pub open spec fn signing_keys(list: Seq<KeyEntry>) -> Seq<SigningKey> {
    list.map_values(|entry: KeyEntry| entry.key)
}

/// Two lists hold the same keys.
pub open spec fn same_keys(a: Seq<SigningKey>, b: Seq<SigningKey>) -> bool {
    a.len() == b.len() && forall|i: int|
        0 <= i < a.len() ==> (#[trigger] a[i]).kid@ == b[i].kid@ && a[i].secret@ == b[i].secret@
}

proof fn lemma_same_keys_find_alike(a: Seq<SigningKey>, b: Seq<SigningKey>, kid: Seq<char>)
    requires
        same_keys(a, b),
    ensures
        key_for(a, kid) is Some <==> key_for(b, kid) is Some,
        key_for(a, kid) is Some ==> key_for(a, kid)->0.secret@ == key_for(b, kid)->0.secret@,
    decreases a.len(),
{
    if a.len() > 0 {
        assert(a[0].kid@ == b[0].kid@);
        assert(same_keys(a.drop_first(), b.drop_first())) by {
            assert forall|i: int| 0 <= i < a.len() - 1 implies (#[trigger] a.drop_first()[i]).kid@
                == b.drop_first()[i].kid@ && a.drop_first()[i].secret@ == b.drop_first()[i].secret@ by {
                assert(a[i + 1].kid@ == b[i + 1].kid@);
            }
        }
        lemma_same_keys_find_alike(a.drop_first(), b.drop_first(), kid);
    }
}

/// The keys that tokens are minted and verified with.
#[derive(Debug)]
pub struct TokenService {
    pub keys: Vec<KeyEntry>,
}

impl TokenService {
    /// The key that new tokens are minted with.
    fn active(&self) -> (key: ApiResult<&KeyEntry>)
        ensures
            match key {
                Ok(entry) => active_key(entries(self.keys@)) == Some(entry@),
                Err(error) => active_key(entries(self.keys@)) is None && error@
                    == Refusal::internal("no active token signing key"@),
            },
    {
        let ghost all = entries(self.keys@);
        let mut index: usize = 0;
        assert(all.skip(0) =~= all);
        while index < self.keys.len()
            invariant
                index <= self.keys@.len(),
                all == entries(self.keys@),
                active_key(all) == active_key(all.skip(index as int)),
            decreases self.keys@.len() - index,
        {
            assert(all.skip(index as int)[0] == self.keys@[index as int]@);
            if self.keys[index].active {
                return Ok(&self.keys[index]);
            }
            assert(all.skip(index as int).drop_first() =~= all.skip(index + 1));
            index = index + 1;
        }
        Err(ApiError::internal("no active token signing key"))
    }

    /// All keys that tokens are verified with.
    fn all(&self) -> (keys: Vec<SigningKey>)
        ensures
            same_keys(keys@, signing_keys(self.keys@)),
    {
        let mut keys: Vec<SigningKey> = Vec::new();
        let mut index: usize = 0;
        while index < self.keys.len()
            invariant
                index <= self.keys@.len(),
                keys@.len() == index,
                forall|i: int|
                    0 <= i < index ==> (#[trigger] keys@[i]).kid@ == self.keys@[i].key.kid@
                        && keys@[i].secret@ == self.keys@[i].key.secret@,
            decreases self.keys@.len() - index,
        {
            let key = &self.keys[index].key;
            let secret = crate::encoding::copy_of(key.secret.as_slice(), 0, key.secret.len());
            assert(secret@ =~= key.secret@);
            keys.push(SigningKey { kid: key.kid.as_str().to_owned(), secret });
            index = index + 1;
        }
        keys
    }

    /// Mints a token over claims, under the ID of the key that signs them.
    pub fn mint(&self, claims: TokenClaims) -> (result: ApiResult<String>)
        ensures
            outcome(result) == (match active_key(entries(self.keys@)) {
                Some(key) => Ok::<Seq<char>, Refusal>(
                    minted(
                        key.secret,
                        encode_utf8(claims_text(Claims { kid: key.kid, ..claims@ })),
                    ),
                ),
                None => Err(Refusal::internal("no active token signing key"@)),
            }),
    {
        match self.active() {
            Ok(entry) => {
                let mut claims = claims;
                claims.kid = entry.key.kid.as_str().to_owned();
                Ok(mint_token(&entry.key, &claims))
            },
            Err(error) => Err(error),
        }
    }

    /// Verifies a token that was taken apart. The relay is both the issuer and the
    /// audience of its tokens.
    pub fn verify(
        &self,
        parts: &TokenParts,
        claims: Option<TokenClaims>,
        origin: &str,
        now: i64,
        max_skew_seconds: i64,
    ) -> (result: ApiResult<TokenClaims>)
        ensures
            outcome(result) == verified_token(
                parts@,
                option_view(claims),
                signing_keys(self.keys@),
                origin@,
                origin@,
                now as int,
                max_skew_seconds as int,
            ),
    {
        let keys = self.all();
        proof {
            match option_view(claims) {
                Some(read) => {
                    lemma_same_keys_find_alike(keys@, signing_keys(self.keys@), read.kid);
                },
                None => {},
            }
        }
        verify_token(parts, claims, keys.as_slice(), origin, origin, now, max_skew_seconds)
    }

    /// Whether the key that tokens are minted with is older than the rotation age, or
    /// missing.
    pub fn is_rotation_due(&self, now: i64, rotation_seconds: i64) -> (due: bool)
        ensures
            due == (match active_key(entries(self.keys@)) {
                Some(key) => now - key.created_at > rotation_seconds * 1000,
                None => true,
            }),
    {
        match self.active() {
            Ok(entry) => now as i128 - entry.created_at as i128 > rotation_seconds as i128 * 1000,
            Err(error) => true,
        }
    }
}

/// When a key that is rotated out at `now` stops verifying.
pub fn outgoing_until(now: i64, overlap_seconds: i64) -> (until: i64)
    requires
        i64::MIN <= now + overlap_seconds * 1000 <= i64::MAX,
    ensures
        until == now + overlap_seconds * 1000,
{
    (now as i128 + overlap_seconds as i128 * 1000) as i64
}

/// Builds the claims of a token for an authenticated principal, with a random token ID.
/// The key is stamped in when the token is minted.
pub fn build_claims(
    origin: &str,
    issued: i64,
    ttl_seconds: i64,
    principal: PrincipalKind,
    subject: &str,
    identity_id: &str,
    scopes: Vec<String>,
) -> (claims: TokenClaims)
    requires
        i64::MIN <= issued + ttl_seconds <= i64::MAX,
    ensures
        claims@ == (Claims {
            jti: claims@.jti,
            sub: subject@,
            principal,
            identity_id: identity_id@,
            iss: origin@,
            aud: origin@,
            iat: issued,
            exp: (issued + ttl_seconds) as i64,
            scopes: texts(scopes@),
            kid: ""@,
        }),
        exists|bytes: Seq<u8>| bytes.len() == 16 && claims@.jti == #[trigger] base64url(bytes),
{
    TokenClaims {
        jti: b64_encode(random_bytes(16).as_slice()),
        sub: subject.to_owned(),
        principal,
        identity_id: identity_id.to_owned(),
        iss: origin.to_owned(),
        aud: origin.to_owned(),
        iat: issued,
        exp: issued + ttl_seconds,
        scopes,
        kid: "".to_owned(),
    }
}

/// No two keys share an ID.
pub open spec fn distinct_ids(list: Seq<KeyEntry>) -> bool {
    forall|i: int, j: int|
        0 <= i < j < list.len() ==> (#[trigger] list[i]).key.kid@ != (#[trigger] list[j]).key.kid@
}

/// The active key is one of the keys.
pub proof fn lemma_active_key(list: Seq<Entry>) -> (at: int)
    requires
        active_key(list) is Some,
    ensures
        0 <= at < list.len(),
        active_key(list) == Some(list[at]),
    decreases list.len(),
{
    if list[0].active {
        0
    } else {
        let at = lemma_active_key(list.drop_first());
        assert(list.drop_first()[at] == list[at + 1]);
        at + 1
    }
}

/// A key is found under its ID.
pub proof fn lemma_found_by_id(list: Seq<KeyEntry>, at: int)
    requires
        0 <= at < list.len(),
        distinct_ids(list),
    ensures
        key_for(signing_keys(list), list[at].key.kid@) == Some(list[at].key),
    decreases list.len(),
{
    let keys = signing_keys(list);
    assert(keys[0] == list[0].key);
    if at > 0 {
        assert(list[0].key.kid@ != list[at].key.kid@);
        let rest = list.drop_first();
        assert(signing_keys(rest) =~= keys.drop_first());
        assert(rest[at - 1] == list[at]);
        assert(distinct_ids(rest)) by {
            assert forall|i: int, j: int| 0 <= i < j < rest.len() implies (
            #[trigger] rest[i]).key.kid@ != (#[trigger] rest[j]).key.kid@ by {
                assert(list[i + 1].key.kid@ != list[j + 1].key.kid@);
            }
        }
        lemma_found_by_id(rest, at - 1);
    }
}

/// What the relay mints it accepts: a token minted with the active key verifies with the
/// keys that the relay holds, from issue to expiry, give or take the skew, and speaks for
/// whom it was minted for.
pub proof fn law_minted_tokens_are_accepted(
    keys: Seq<KeyEntry>,
    claims: Claims,
    now: int,
    skew: int,
)
    requires
        distinct_ids(keys),
        active_key(entries(keys)) is Some,
        claims.iss == claims.aud,
        claims.iat - skew <= now <= claims.exp + skew,
    ensures
        ({
            let key = active_key(entries(keys))->0;
            let stamped = Claims { kid: key.kid, ..claims };
            let payload = encode_utf8(claims_text(stamped));
            verified_token(
                Parts {
                    payload,
                    signing_input: token_input(payload),
                    tag: token_tag(key.secret, token_input(payload)),
                },
                Some(stamped),
                signing_keys(keys),
                claims.iss,
                claims.iss,
                now,
                skew,
            ) == Ok::<Claims, Refusal>(stamped)
        }),
{
    let at = lemma_active_key(entries(keys));
    assert(entries(keys)[at] == keys[at]@);
    lemma_found_by_id(keys, at);
}

/// A key that was rotated out keeps verifying until its overlap has run out: tokens
/// minted a moment before a rotation stay good.
pub proof fn law_outgoing_keys_keep_verifying(
    secret: Seq<u8>,
    stored: Seq<StoredSigningKey>,
    index: int,
    now: i64,
)
    requires
        0 <= index < stored.len(),
        opened_keys(secret, stored, now) is Ok,
        stored[index].not_after is Some,
        now <= stored[index].not_after->0,
    ensures
        opened(secret, stored[index].nonce@, stored[index].ciphertext@) is Some,
        opened_keys(secret, stored, now)->Ok_0.contains(
            Entry {
                kid: stored[index].kid@,
                secret: opened(secret, stored[index].nonce@, stored[index].ciphertext@)->0,
                created_at: stored[index].created_at,
                active: stored[index].active,
            },
        ),
    decreases stored.len(),
{
    let key = stored[index];
    let last = stored.last();
    let front = opened_keys(secret, stored.drop_last(), now)->Ok_0;
    let whole = opened_keys(secret, stored, now)->Ok_0;
    let entry = Entry {
        kid: key.kid@,
        secret: opened(secret, key.nonce@, key.ciphertext@)->0,
        created_at: key.created_at,
        active: key.active,
    };
    if index == stored.len() - 1 {
        assert(still_verifies(key, now));
        assert(whole[whole.len() - 1] == entry);
    } else {
        law_outgoing_keys_keep_verifying(secret, stored.drop_last(), index, now);
        assert(stored.drop_last()[index] == key);
        let at = choose|at: int| 0 <= at < front.len() && front[at] == entry;
        assert(whole[at] == entry);
    }
}

/// A key whose overlap has run out no longer verifies: every key that is read comes from
/// a stored one that still does.
pub proof fn law_expired_keys_are_left_out(
    secret: Seq<u8>,
    stored: Seq<StoredSigningKey>,
    now: i64,
    entry: Entry,
)
    requires
        opened_keys(secret, stored, now) is Ok,
        opened_keys(secret, stored, now)->Ok_0.contains(entry),
    ensures
        exists|i: int|
            0 <= i < stored.len() && still_verifies(#[trigger] stored[i], now) && stored[i].kid@
                == entry.kid && opened(secret, stored[i].nonce@, stored[i].ciphertext@) == Some(
                entry.secret,
            ),
    decreases stored.len(),
{
    if stored.len() > 0 {
        let front = opened_keys(secret, stored.drop_last(), now)->Ok_0;
        let whole = opened_keys(secret, stored, now)->Ok_0;
        let at = choose|at: int| 0 <= at < whole.len() && whole[at] == entry;
        if at < front.len() {
            assert(front[at] == entry);
            law_expired_keys_are_left_out(secret, stored.drop_last(), now, entry);
            let i = choose|i: int|
                0 <= i < stored.len() - 1 && still_verifies(
                    #[trigger] stored.drop_last()[i],
                    now,
                ) && stored.drop_last()[i].kid@ == entry.kid && opened(
                    secret,
                    stored.drop_last()[i].nonce@,
                    stored.drop_last()[i].ciphertext@,
                ) == Some(entry.secret);
            assert(stored.drop_last()[i] == stored[i]);
        } else {
            assert(stored[stored.len() - 1] == stored.last());
        }
    }
}

} // verus!
