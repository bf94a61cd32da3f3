//! Sessions and stored tokens: the claims of a session, the record of an
//! OAuth token, and the reading of credentials from request headers.

use vstd::prelude::*;
use crate::text::{
    chars_of, copy_opt_text, is_white_space, is_whitespace, join_strings, joined, opt_text,
    same_text, slice_of, split, split_chars, string_of, trim, trimmed, views,
};

verus! {

/// How long a session lasts, in seconds.
pub const SESSION_SECONDS: i64 = 3600;

/// The claims of a session token.
#[derive(Debug)]
pub struct Claims {
    pub sub: String,
    pub iat: i64,
    pub exp: i64,
    pub iss: String,
    pub aud: String,
    pub roles: Vec<String>,
}

/// The mathematical form of `Claims`.
pub struct ClaimSet {
    pub sub: Seq<char>,
    pub iat: i64,
    pub exp: i64,
    pub iss: Seq<char>,
    pub aud: Seq<char>,
    pub roles: Seq<Seq<char>>,
}

impl View for Claims {
    type V = ClaimSet;

    open spec fn view(&self) -> ClaimSet {
        ClaimSet {
            sub: self.sub@,
            iat: self.iat,
            exp: self.exp,
            iss: self.iss@,
            aud: self.aud@,
            roles: views(self.roles@),
        }
    }
}

/// Why a session is refused.
#[derive(Debug, Clone, Copy, PartialEq, Eq, Structural)]
pub enum AuthError {
    /// The session has expired.
    Expired,
    /// The session holds a role other than the one asked for.
    MissingRole,
}

/// The stored OAuth token of an account. Times are seconds since the Unix
/// epoch.
#[derive(Debug)]
pub struct TokenRecord {
    pub user_id: String,
    pub account_sub: Option<String>,
    pub account_email: String,
    pub account_name: Option<String>,
    pub provider: String,
    pub scope: String,
    pub access_token: String,
    pub refresh_token: Option<String>,
    pub expires_at: Option<i64>,
    pub updated_at: i64,
}

/// The mathematical form of a `TokenRecord`.
pub struct TokenState {
    pub user_id: Seq<char>,
    pub account_sub: Option<Seq<char>>,
    pub account_email: Seq<char>,
    pub account_name: Option<Seq<char>>,
    pub provider: Seq<char>,
    pub scope: Seq<char>,
    pub access_token: Seq<char>,
    pub refresh_token: Option<Seq<char>>,
    pub expires_at: Option<i64>,
    pub updated_at: i64,
}

impl View for TokenRecord {
    type V = TokenState;

    open spec fn view(&self) -> TokenState {
        TokenState {
            user_id: self.user_id@,
            account_sub: opt_text(self.account_sub),
            account_email: self.account_email@,
            account_name: opt_text(self.account_name),
            provider: self.provider@,
            scope: self.scope@,
            access_token: self.access_token@,
            refresh_token: opt_text(self.refresh_token),
            expires_at: self.expires_at,
            updated_at: self.updated_at,
        }
    }
}

/// What the provider answers to a refresh.
#[derive(Debug)]
pub struct RefreshedToken {
    pub access_token: String,
    /// For how many seconds the new access token is valid, where the
    /// provider says so.
    pub expires_in: Option<u64>,
    pub scopes: Option<Vec<String>>,
    pub refresh_token: Option<String>,
}

/// How a token is written to the store.
#[derive(Debug, Clone, Copy, PartialEq, Eq, Structural)]
pub enum TokenWrite {
    /// There is no record yet: it is created.
    Store,
    /// There is a record: it is replaced.
    Update,
}

/// The claims of a session of `user_id` that begins at `now`.
pub open spec fn session_claims(user_id: Seq<char>, now: i64) -> ClaimSet {
    ClaimSet {
        sub: user_id,
        iat: now,
        exp: (now + SESSION_SECONDS) as i64,
        iss: "finOS"@,
        aud: "finOS"@,
        roles: seq!["user"@],
    }
}

/// Whether every role of `roles` is `required`.
pub open spec fn only_role(roles: Seq<Seq<char>>, required: Seq<char>) -> bool {
    forall|k: int| 0 <= k < roles.len() ==> roles[k] == required
}

/// The time `seconds` after `now`.
pub open spec fn time_after(now: i64, seconds: u64) -> i64 {
    (now + seconds) as i64
}

/// Whether the time `seconds` after `now` can be written down.
pub open spec fn is_reachable(now: i64, seconds: Option<u64>) -> bool {
    match seconds {
        Some(s) => now + s <= i64::MAX,
        None => true,
    }
}

/// The record `token` as it is written at `now`, with a record `existing`
/// in the store or none: the time of writing is set, and a refresh token
/// that the store has is kept where the new record brings none.
pub open spec fn token_to_store(token: TokenState, existing: Option<TokenState>, now: i64) -> TokenState {
    TokenState {
        updated_at: now,
        refresh_token: match existing {
            Some(old) => if token.refresh_token.is_none() {
                old.refresh_token
            } else {
                token.refresh_token
            },
            None => token.refresh_token,
        },
        ..token
    }
}

/// The record `record` after the provider answered a refresh at `now`: the
/// access token and its expiry are the new ones; scope and refresh token are
/// replaced where the answer brings them.
pub open spec fn token_after_refresh(
    record: TokenState,
    access_token: Seq<char>,
    expires_in: Option<u64>,
    scopes: Option<Seq<Seq<char>>>,
    refresh_token: Option<Seq<char>>,
    now: i64,
) -> TokenState {
    TokenState {
        access_token,
        expires_at: match expires_in {
            Some(seconds) => Some(time_after(now, seconds)),
            None => None,
        },
        scope: match scopes {
            Some(list) => joined(list, " "@),
            None => record.scope,
        },
        refresh_token: match refresh_token {
            Some(fresh) => Some(fresh),
            None => record.refresh_token,
        },
        updated_at: now,
        ..record
    }
}

/// Computes `time_after`.
pub fn seconds_after(now: i64, seconds: u64) -> (at: i64)
    requires
        now + seconds <= i64::MAX,
    ensures
        at == time_after(now, seconds),
{
    let wide: i128 = now as i128 + seconds as i128;
    wide as i64
}

impl Claims {
    /// The claims of a session of the owner of `token_record` that begins
    /// at `now`, in seconds since the Unix epoch: it lasts an hour, and its
    /// only role is `user`.
    pub fn issue(token_record: &TokenRecord, now: i64) -> (claims: Claims)
        requires
            now + SESSION_SECONDS <= i64::MAX,
        ensures
            claims@ == session_claims(token_record.user_id@, now),
    {
        let mut roles: Vec<String> = Vec::new();
        roles.push(String::from_str("user"));
        let claims = Claims {
            sub: token_record.user_id.clone(),
            iat: now,
            exp: seconds_after(now, 3600),
            iss: String::from_str("finOS"),
            aud: String::from_str("finOS"),
            roles,
        };
        proof {
            assert(views(claims.roles@) == seq!["user"@]);
        }
        claims
    }

    /// Accepts the claims while the session lasts: while `now` lies before
    /// their expiry.
    pub fn validate_expiry(self, now: i64) -> (r: Result<Claims, AuthError>)
        ensures
            match r {
                Ok(claims) => self.exp > now && claims == self,
                Err(e) => self.exp <= now && e == AuthError::Expired,
            },
    {
        if self.exp > now {
            Ok(self)
        } else {
            Err(AuthError::Expired)
        }
    }

    /// Accepts the claims where every role they hold is `required_role`.
    pub fn validate_roles(self, required_role: &str) -> (r: Result<Claims, AuthError>)
        ensures
            match r {
                Ok(claims) => only_role(self@.roles, required_role@) && claims == self,
                Err(e) => !only_role(self@.roles, required_role@) && e == AuthError::MissingRole,
            },
    {
        let mut i: usize = 0;
        while i < self.roles.len()
            invariant
                i <= self.roles.len(),
                forall|k: int| 0 <= k < i ==> views(self.roles@)[k] == required_role@,
            decreases self.roles.len() - i,
        {
            if !same_text(self.roles[i].as_str(), required_role) {
                proof {
                    assert(views(self.roles@)[i as int] != required_role@);
                }
                return Err(AuthError::MissingRole);
            }
            i += 1;
        }
        Ok(self)
    }
}

impl TokenRecord {
    /// Whether the access token is of no use any more at `now`: whether it
    /// has an expiry and `now` is not before it.
    pub fn needs_refresh(&self, now: i64) -> (due: bool)
        ensures
            due == match self.expires_at {
                Some(at) => at <= now,
                None => false,
            },
    {
        match self.expires_at {
            Some(at) => at <= now,
            None => false,
        }
    }

    /// Prepares `self` for the store at `now`, where the store holds the
    /// record `existing` for the same account and provider, or none. Says
    /// how the record is to be written.
    pub fn prepare_store(self, existing: Option<&TokenRecord>, now: i64) -> (r: (
        TokenRecord,
        TokenWrite,
    ))
        ensures
            r.0@ == token_to_store(
                self@,
                match existing {
                    Some(old) => Some(old@),
                    None => None,
                },
                now,
            ),
            r.1 == match existing {
                Some(_) => TokenWrite::Update,
                None => TokenWrite::Store,
            },
    {
        let mut token: TokenRecord = self;
        token.updated_at = now;
        match existing {
            Some(old) => {
                if token.refresh_token.is_none() {
                    token.refresh_token = copy_opt_text(&old.refresh_token);
                }
                (token, TokenWrite::Update)
            },
            None => (token, TokenWrite::Store),
        }
    }

    /// The record after the provider answered a refresh at `now`.
    pub fn apply_refresh(self, refreshed: RefreshedToken, now: i64) -> (record: TokenRecord)
        requires
            is_reachable(now, refreshed.expires_in),
        ensures
            record@ == token_after_refresh(
                self@,
                refreshed.access_token@,
                refreshed.expires_in,
                match refreshed.scopes {
                    Some(list) => Some(views(list@)),
                    None => None,
                },
                opt_text(refreshed.refresh_token),
                now,
            ),
    {
        let mut record: TokenRecord = self;
        record.access_token = refreshed.access_token;
        record.expires_at = match refreshed.expires_in {
            Some(seconds) => Some(seconds_after(now, seconds)),
            None => None,
        };
        match &refreshed.scopes {
            Some(list) => {
                record.scope = join_strings(list, " ");
            },
            None => {},
        }
        match refreshed.refresh_token {
            Some(fresh) => {
                record.refresh_token = Some(fresh);
            },
            None => {},
        }
        record.updated_at = now;
        record
    }
}

/// The words of `s`: its maximal runs of characters that are no white
/// space, in order.
pub open spec fn words(s: Seq<char>) -> Seq<Seq<char>>
    decreases s.len(),
{
    if s.len() == 0 {
        Seq::empty()
    } else {
        let head = words(s.drop_last());
        if is_white_space(s.last()) {
            head
        } else if s.len() >= 2 && !is_white_space(s[s.len() - 2]) {
            head.drop_last().push(head.last().push(s.last()))
        } else {
            head.push(seq![s.last()])
        }
    }
}

/// `c` in lower case where it is an ASCII capital, else `c`.
pub open spec fn ascii_lower(c: char) -> char {
    if 'A' <= c <= 'Z' {
        ((c as u8) + 32) as char
    } else {
        c
    }
}

/// `s` with its ASCII capitals in lower case.
pub open spec fn ascii_lowered(s: Seq<char>) -> Seq<char> {
    s.map_values(|c: char| ascii_lower(c))
}

/// The token of an `Authorization` header: its second word, where the first
/// is `bearer` in any case.
pub open spec fn bearer_token(header: Seq<char>) -> Option<Seq<char>> {
    let w = words(header);
    if w.len() >= 2 && ascii_lowered(w[0]) == "bearer"@ {
        Some(w[1])
    } else {
        None
    }
}

/// The place of the first `c` in `s`, or -1 where there is none.
pub open spec fn first_index_of(s: Seq<char>, c: char) -> int
    decreases s.len(),
{
    if s.len() == 0 {
        -1
    } else if s[0] == c {
        0
    } else {
        let rest = first_index_of(s.drop_first(), c);
        if rest < 0 {
            -1
        } else {
            rest + 1
        }
    }
}

/// The value of the cookie `name` in `pair`, one piece of a `Cookie` header:
/// what follows the first `=`, where `name` stands before it; white space
/// around the pair is of no account.
pub open spec fn cookie_value(pair: Seq<char>, name: Seq<char>) -> Option<Seq<char>> {
    let t = trimmed(pair);
    let k = first_index_of(t, '=');
    if k >= 0 && t.take(k) == name {
        Some(t.skip(k + 1))
    } else {
        None
    }
}

/// The value of the first of `pairs` that is a cookie `name`.
pub open spec fn first_cookie(pairs: Seq<Seq<char>>, name: Seq<char>) -> Option<Seq<char>>
    decreases pairs.len(),
{
    if pairs.len() == 0 {
        None
    } else {
        match cookie_value(pairs[0], name) {
            Some(v) => Some(v),
            None => first_cookie(pairs.drop_first(), name),
        }
    }
}

/// The session of a `Cookie` header: the value of its first cookie
/// `session`, the cookies being set apart by `;`.
pub open spec fn session_cookie(header: Seq<char>) -> Option<Seq<char>> {
    first_cookie(split(header, ';'), "session"@)
}

/// The first place of `c` in `s` is `k` where `c` stands at `k` and nowhere
/// before it; there is none where `c` stands nowhere.
pub proof fn lemma_first_index_of(s: Seq<char>, c: char, k: int)
    requires
        0 <= k <= s.len(),
        forall|j: int| 0 <= j < k ==> s[j] != c,
        k < s.len() ==> s[k] == c,
    ensures
        first_index_of(s, c) == if k < s.len() {
            k
        } else {
            -1
        },
    decreases s.len(),
{
    if s.len() > 0 && k > 0 {
        assert forall|j: int| 0 <= j < k - 1 implies s.drop_first()[j] != c by {
            assert(s.drop_first()[j] == s[j + 1]);
        }
        lemma_first_index_of(s.drop_first(), c, k - 1);
    }
}

/// The words of `chars`.
pub fn split_words(chars: &Vec<char>) -> (list: Vec<Vec<char>>)
    ensures
        list@.map_values(|w: Vec<char>| w@) == words(chars@),
{
    let mut list: Vec<Vec<char>> = Vec::new();
    let mut word: Vec<char> = Vec::new();
    let mut in_word: bool = false;
    let mut i: usize = 0;
    proof {
        assert(list@.map_values(|w: Vec<char>| w@) == Seq::<Seq<char>>::empty());
    }
    while i < chars.len()
        invariant
            i <= chars.len(),
            in_word == (i > 0 && !is_white_space(chars@[i - 1])),
            words(chars@.take(i as int)) == if in_word {
                list@.map_values(|w: Vec<char>| w@).push(word@)
            } else {
                list@.map_values(|w: Vec<char>| w@)
            },
            !in_word ==> word@.len() == 0,
        decreases chars.len() - i,
    {
        let c: char = chars[i];
        proof {
            assert(chars@.take(i + 1).drop_last() == chars@.take(i as int));
            assert(list@.map_values(|w: Vec<char>| w@).push(word@).drop_last() == list@.map_values(
                |w: Vec<char>| w@,
            ));
            assert(list@.push(word).map_values(|w: Vec<char>| w@) == list@.map_values(
                |w: Vec<char>| w@,
            ).push(word@));
            assert(Seq::<char>::empty().push(c) == seq![c]);
            assert(list@.map_values(|w: Vec<char>| w@).push(word@).last() == word@);
            assert(chars@.take(i + 1).last() == c);
            if i > 0 {
                assert(chars@.take(i + 1)[i - 1] == chars@[i - 1]);
            }
            if !in_word {
                assert(word@ == Seq::<char>::empty());
            }
        }
        if is_whitespace(c) {
            if in_word {
                list.push(word);
                word = Vec::new();
            }
            in_word = false;
        } else {
            word.push(c);
            in_word = true;
        }
        i += 1;
    }
    proof {
        assert(chars@.take(chars.len() as int) == chars@);
        assert(list@.push(word).map_values(|w: Vec<char>| w@) == list@.map_values(
            |w: Vec<char>| w@,
        ).push(word@));
    }
    if in_word {
        list.push(word);
    }
    list
}

/// Whether `word` is `expected` but for the case of its ASCII letters.
pub fn is_word_ignoring_case(word: &Vec<char>, expected: &str) -> (same: bool)
    ensures
        same == (ascii_lowered(word@) == expected@),
{
    let want: Vec<char> = chars_of(expected);
    if word.len() != want.len() {
        return false;
    }
    let mut i: usize = 0;
    while i < word.len()
        invariant
            i <= word.len() == want.len(),
            want@ == expected@,
            forall|k: int| 0 <= k < i ==> ascii_lower(word@[k]) == want@[k],
        decreases word.len() - i,
    {
        let c: char = word[i];
        let low: char = if 'A' <= c && c <= 'Z' {
            ((c as u8) + 32) as char
        } else {
            c
        };
        if low != want[i] {
            proof {
                assert(ascii_lowered(word@)[i as int] != expected@[i as int]);
            }
            return false;
        }
        i += 1;
    }
    proof {
        assert(ascii_lowered(word@) == expected@);
    }
    true
}

/// Reads the token from the value of an `Authorization` header.
pub fn extract_bearer_token(header: &str) -> (token: Option<String>)
    ensures
        opt_text(token) == bearer_token(header@),
{
    let list: Vec<Vec<char>> = split_words(&chars_of(header));
    if list.len() >= 2 && is_word_ignoring_case(&list[0], "bearer") {
        Some(string_of(&list[1]))
    } else {
        None
    }
}

/// The place of the first `c` in `chars`, if there is one.
pub fn find_first(chars: &Vec<char>, c: char) -> (place: Option<usize>)
    ensures
        match place {
            Some(k) => first_index_of(chars@, c) == k && k < chars.len(),
            None => first_index_of(chars@, c) == -1,
        },
{
    let mut i: usize = 0;
    while i < chars.len()
        invariant
            i <= chars.len(),
            forall|j: int| 0 <= j < i ==> chars@[j] != c,
        decreases chars.len() - i,
    {
        if chars[i] == c {
            proof {
                lemma_first_index_of(chars@, c, i as int);
            }
            return Some(i);
        }
        i += 1;
    }
    proof {
        lemma_first_index_of(chars@, c, chars.len() as int);
    }
    None
}

/// Reads the value of the cookie `name` from one piece of a `Cookie`
/// header.
pub fn read_cookie(pair: &Vec<char>, name: &str) -> (value: Option<String>)
    ensures
        opt_text(value) == cookie_value(pair@, name@),
{
    let t: Vec<char> = trim(pair);
    match find_first(&t, '=') {
        None => None,
        Some(k) => {
            let key: String = string_of(&slice_of(&t, 0, k));
            proof {
                assert(t@.subrange(0, k as int) == t@.take(k as int));
                assert(t@.subrange(k + 1, t.len() as int) == t@.skip(k + 1));
            }
            if same_text(key.as_str(), name) {
                Some(string_of(&slice_of(&t, k + 1, t.len())))
            } else {
                None
            }
        },
    }
}

/// Reads the session from the value of a `Cookie` header.
pub fn extract_session_cookie(header: &str) -> (session: Option<String>)
    ensures
        opt_text(session) == session_cookie(header@),
{
    let pairs: Vec<Vec<char>> = split_chars(&chars_of(header), ';');
    let ghost all = pairs@.map_values(|p: Vec<char>| p@);
    let mut i: usize = 0;
    proof {
        assert(all.skip(0) == all);
    }
    while i < pairs.len()
        invariant
            i <= pairs.len(),
            all == pairs@.map_values(|p: Vec<char>| p@),
            all == split(header@, ';'),
            session_cookie(header@) == first_cookie(all.skip(i as int), "session"@),
        decreases pairs.len() - i,
    {
        proof {
            assert(all.skip(i as int)[0] == pairs@[i as int]@);
            assert(all.skip(i as int).drop_first() == all.skip(i + 1));
        }
        match read_cookie(&pairs[i], "session") {
            Some(value) => {
                return Some(value);
            },
            None => {},
        }
        i += 1;
    }
    None
}

} // verus!
