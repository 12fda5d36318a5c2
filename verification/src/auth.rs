//! Logging the command line in to a roadmap server: the device flow (the
//! command line asks for a code, the user approves it in a browser, the
//! command line polls until it gets its tokens), and the checks made on
//! requests.

use vstd::prelude::*;
use crate::text::{chars_of, string_of, chars_from, owned, push_str, push_decimal, decimal, is_prefix, str_eq, starts_with};

verus! {

/// Where a device request stands.
pub enum DeviceStatus {
    Pending,
    Approved,
    Denied,
    Expired,
}

impl DeviceStatus {
    /// The name of the status in the answers of the server.
    pub fn name(&self) -> (r: &'static str)
        ensures
            r@ == match self {
                DeviceStatus::Pending => "pending"@,
                DeviceStatus::Approved => "approved"@,
                DeviceStatus::Denied => "denied"@,
                DeviceStatus::Expired => "expired"@,
            },
    {
        match self {
            DeviceStatus::Pending => "pending",
            DeviceStatus::Approved => "approved",
            DeviceStatus::Denied => "denied",
            DeviceStatus::Expired => "expired",
        }
    }
}

/// A login asked for by a command line; `created_at` in nanoseconds since
/// the Unix epoch.
pub struct DeviceRequest {
    pub device_code: String,
    pub user_code: String,
    pub status: DeviceStatus,
    pub access_token: Option<String>,
    pub refresh_token: Option<String>,
    pub user_email: Option<String>,
    pub user_name: Option<String>,
    pub created_at: i64,
}

/// The device requests that a server has received, each under its own
/// device code.
pub struct DeviceStore {
    pub pending: Vec<DeviceRequest>,
}

/// The request at `i` is the first one with the device code.
pub open spec fn first_device(s: Seq<DeviceRequest>, code: Seq<char>, i: int) -> bool {
    0 <= i < s.len() && s[i].device_code@ == code && forall|j: int| 0 <= j < i ==> s[j].device_code@ != code
}

/// The request at `i` is the first one with the user code.
pub open spec fn first_user(s: Seq<DeviceRequest>, code: Seq<char>, i: int) -> bool {
    0 <= i < s.len() && s[i].user_code@ == code && forall|j: int| 0 <= j < i ==> s[j].user_code@ != code
}

/// Some request has the device code.
pub open spec fn has_device(s: Seq<DeviceRequest>, code: Seq<char>) -> bool {
    exists|i: int| 0 <= i < s.len() && (#[trigger] s[i]).device_code@ == code
}

/// Some request has the user code.
pub open spec fn has_user(s: Seq<DeviceRequest>, code: Seq<char>) -> bool {
    exists|i: int| 0 <= i < s.len() && (#[trigger] s[i]).user_code@ == code
}

/// A request made more than five minutes before `now` (whole seconds, as
/// `chrono` counts them) has expired.
pub open spec fn expired_at(created_at: i64, now: i64) -> bool {
    now - created_at >= 301_000_000_000
}

/// The answer to a poll.
pub enum PollResult {
    /// No request has this device code.
    NotFound,
    /// The request is more than five minutes old, or marked expired.
    Expired,
    /// The user has not answered yet.
    Pending,
    /// The user approved: the tokens and who they are for.
    Approved {
        access_token: Option<String>,
        refresh_token: Option<String>,
        user_email: Option<String>,
        user_name: Option<String>,
    },
    /// The user refused.
    Denied,
}

/// The answer to a poll for the request at `i` at time `now`.
pub open spec fn poll_answer(r: PollResult, e: DeviceRequest, now: i64) -> bool {
    if expired_at(e.created_at, now) {
        r is Expired
    } else {
        match e.status {
            DeviceStatus::Pending => r is Pending,
            DeviceStatus::Denied => r is Denied,
            DeviceStatus::Expired => r is Expired,
            DeviceStatus::Approved => r == (PollResult::Approved {
                access_token: e.access_token,
                refresh_token: e.refresh_token,
                user_email: e.user_email,
                user_name: e.user_name,
            }),
        }
    }
}

impl DeviceStore {
    /// No two requests have the same device code.
    pub open spec fn well_formed(self) -> bool {
        forall|i: int, j: int|
            0 <= i < j < self.pending@.len() ==> (#[trigger] self.pending@[i]).device_code@
                != (#[trigger] self.pending@[j]).device_code@
    }

    /// A store with no request.
    pub fn new() -> (r: DeviceStore)
        ensures
            r.pending@.len() == 0,
            r.well_formed(),
    {
        DeviceStore { pending: Vec::new() }
    }

    /// The position of the request with the device code, if any.
    fn find_device(&self, code: &str) -> (r: Option<usize>)
        ensures
            r matches Some(i) ==> first_device(self.pending@, code@, i as int),
            r is None ==> !has_device(self.pending@, code@),
    {
        let mut i: usize = 0;
        while i < self.pending.len()
            invariant
                i <= self.pending@.len(),
                forall|j: int| 0 <= j < i ==> self.pending@[j].device_code@ != code@,
            decreases self.pending@.len() - i,
        {
            if str_eq(self.pending[i].device_code.as_str(), code) {
                return Some(i);
            }
            i = i + 1;
        }
        None
    }

    /// The position of the first request with the user code, if any.
    fn find_user(&self, code: &str) -> (r: Option<usize>)
        ensures
            r matches Some(i) ==> first_user(self.pending@, code@, i as int),
            r is None ==> !has_user(self.pending@, code@),
    {
        let mut i: usize = 0;
        while i < self.pending.len()
            invariant
                i <= self.pending@.len(),
                forall|j: int| 0 <= j < i ==> self.pending@[j].user_code@ != code@,
            decreases self.pending@.len() - i,
        {
            if str_eq(self.pending[i].user_code.as_str(), code) {
                return Some(i);
            }
            i = i + 1;
        }
        None
    }

    /// Records a request under its device code, in place of any request
    /// that had it.
    pub fn insert(&mut self, req: DeviceRequest)
        requires
            old(self).well_formed(),
        ensures
            final(self).well_formed(),
            has_device(final(self).pending@, req.device_code@),
            forall|i: int| first_device(final(self).pending@, req.device_code@, i) ==> final(self).pending@[i] == req,
            forall|i: int|
                0 <= i < old(self).pending@.len() && old(self).pending@[i].device_code@ != req.device_code@
                    ==> final(self).pending@.contains(#[trigger] old(self).pending@[i]),
            forall|i: int|
                0 <= i < final(self).pending@.len() && final(self).pending@[i].device_code@ != req.device_code@
                    ==> old(self).pending@.contains(#[trigger] final(self).pending@[i]),
    {
        match self.find_device(req.device_code.as_str()) {
            Some(i) => {
                let ghost before = self.pending@;
                self.pending.remove(i);
                self.pending.insert(i, req);
                assert(self.pending@ =~= before.update(i as int, req));
                assert forall|k: int|
                    0 <= k < before.len() && before[k].device_code@ != req.device_code@ implies self.pending@.contains(
                    #[trigger] before[k],
                ) by {
                    assert(k != i);
                    assert(self.pending@[k] == before[k]);
                }
                assert forall|k: int|
                    0 <= k < self.pending@.len() && self.pending@[k].device_code@ != req.device_code@ implies before.contains(
                    #[trigger] self.pending@[k],
                ) by {
                    assert(k != i);
                    assert(self.pending@[k] == before[k]);
                }
                assert(self.pending@[i as int] == req);
            },
            None => {
                let ghost before = self.pending@;
                self.pending.push(req);
                assert forall|k: int|
                    0 <= k < before.len() && before[k].device_code@ != req.device_code@ implies self.pending@.contains(
                    #[trigger] before[k],
                ) by {
                    assert(self.pending@[k] == before[k]);
                }
                assert forall|k: int|
                    0 <= k < self.pending@.len() && self.pending@[k].device_code@ != req.device_code@ implies before.contains(
                    #[trigger] self.pending@[k],
                ) by {
                    assert(self.pending@[k] == before[k]);
                }
                assert(self.pending@[before.len() as int] == req);
            },
        }
    }

    /// The web application approves the first request with the user code:
    /// it becomes approved and gets the tokens and who they are for. Tells
    /// whether a request had the code.
    pub fn approve(
        &mut self,
        user_code: &str,
        access_token: String,
        refresh_token: String,
        user_email: String,
        user_name: String,
    ) -> (found: bool)
        requires
            old(self).well_formed(),
        ensures
            final(self).well_formed(),
            found == has_user(old(self).pending@, user_code@),
            !found ==> final(self).pending@ == old(self).pending@,
            found ==> exists|i: int|
                first_user(old(self).pending@, user_code@, i) && final(self).pending@ == old(self).pending@.update(
                    i,
                    DeviceRequest {
                        status: DeviceStatus::Approved,
                        access_token: Some(access_token),
                        refresh_token: Some(refresh_token),
                        user_email: Some(user_email),
                        user_name: Some(user_name),
                        ..old(self).pending@[i]
                    },
                ),
    {
        match self.find_user(user_code) {
            Some(i) => {
                let ghost before = self.pending@;
                let mut r = self.pending.remove(i);
                r.status = DeviceStatus::Approved;
                r.access_token = Some(access_token);
                r.refresh_token = Some(refresh_token);
                r.user_email = Some(user_email);
                r.user_name = Some(user_name);
                self.pending.insert(i, r);
                assert(self.pending@ =~= before.update(i as int, r));
                assert forall|a: int, b: int|
                    0 <= a < b < self.pending@.len() implies (#[trigger] self.pending@[a]).device_code@
                    != (#[trigger] self.pending@[b]).device_code@ by {
                    assert(before[a].device_code@ != before[b].device_code@);
                }
                true
            },
            None => false,
        }
    }

    /// The web application refuses the first request with the user code.
    /// Tells whether a request had the code.
    pub fn deny(&mut self, user_code: &str) -> (found: bool)
        requires
            old(self).well_formed(),
        ensures
            final(self).well_formed(),
            found == has_user(old(self).pending@, user_code@),
            !found ==> final(self).pending@ == old(self).pending@,
            found ==> exists|i: int|
                first_user(old(self).pending@, user_code@, i) && final(self).pending@ == old(self).pending@.update(
                    i,
                    DeviceRequest { status: DeviceStatus::Denied, ..old(self).pending@[i] },
                ),
    {
        match self.find_user(user_code) {
            Some(i) => {
                let ghost before = self.pending@;
                let mut r = self.pending.remove(i);
                r.status = DeviceStatus::Denied;
                self.pending.insert(i, r);
                assert(self.pending@ =~= before.update(i as int, r));
                assert forall|a: int, b: int|
                    0 <= a < b < self.pending@.len() implies (#[trigger] self.pending@[a]).device_code@
                    != (#[trigger] self.pending@[b]).device_code@ by {
                    assert(before[a].device_code@ != before[b].device_code@);
                }
                true
            },
            None => false,
        }
    }

    /// The answer to the command line that polls with its device code at
    /// time `now` (nanoseconds since the Unix epoch).
    pub fn poll(&self, device_code: &str, now: i64) -> (r: PollResult)
        ensures
            !has_device(self.pending@, device_code@) ==> r is NotFound,
            forall|i: int| first_device(self.pending@, device_code@, i) ==> poll_answer(r, #[trigger] self.pending@[i], now),
    {
        let i = match self.find_device(device_code) {
            Some(i) => i,
            None => {
                return PollResult::NotFound;
            },
        };
        let e = &self.pending[i];
        if (now as i128) - (e.created_at as i128) >= 301_000_000_000i128 {
            return PollResult::Expired;
        }
        match e.status {
            DeviceStatus::Pending => PollResult::Pending,
            DeviceStatus::Denied => PollResult::Denied,
            DeviceStatus::Expired => PollResult::Expired,
            DeviceStatus::Approved => PollResult::Approved {
                access_token: e.access_token.clone(),
                refresh_token: e.refresh_token.clone(),
                user_email: e.user_email.clone(),
                user_name: e.user_name.clone(),
            },
        }
    }
}

/// What `uuid::Uuid::parse_str` gives for a text: the 128-bit value of the
/// UUID it reads, or nothing where it reads none.
pub uninterp spec fn uuid_value(text: Seq<char>) -> Option<u128>;

/// Calls `uuid::Uuid::parse_str` and takes the value of the UUID it reads
/// (`Uuid::as_u128`). Which texts it reads is named, not described.
#[verifier::external_body]
fn parse_uuid(text: &str) -> (r: Option<u128>)
    ensures
        r == uuid_value(text@),
{
    uuid::Uuid::parse_str(text).ok().map(|u| u.as_u128())
}

/// Reads the clock with `chrono::Utc::now`: nanoseconds since the Unix
/// epoch, where they fit in an `i64`. Nothing is promised of the value.
#[verifier::external_body]
fn clock_nanos() -> (r: Option<i64>) {
    chrono::Utc::now().timestamp_nanos_opt()
}

/// The user code that a timestamp gives: a number of six digits.
pub open spec fn user_code_value(ts: u64) -> nat {
    (ts % 900000) as nat + 100000
}

/// The user code that a timestamp gives, written in decimal.
pub fn user_code_of(ts: u64) -> (r: String)
    ensures
        r@ == decimal(user_code_value(ts)),
{
    crate::text::decimal_string(ts % 900000 + 100000)
}

/// A new user code, made from the clock (nanoseconds since the Unix epoch,
/// 0 where they do not fit): whatever the clock says, six digits from
/// 100000 to 999999.
pub fn generate_user_code() -> (r: String)
    ensures
        exists|n: nat| 100000 <= n <= 999999 && r@ == decimal(n),
{
    let ts: i64 = match clock_nanos() {
        Some(t) => t,
        None => 0,
    };
    let r = user_code_of(ts as u64);
    assert(100000 <= user_code_value(ts as u64) <= 999999);
    r
}

/// The requests after a new one, pending since `now`, was recorded under
/// `device_code` with `user_code`: it is the request with that device code,
/// and the requests with other device codes are those there were before.
pub open spec fn opened_in(
    before: Seq<DeviceRequest>,
    after: Seq<DeviceRequest>,
    device_code: Seq<char>,
    user_code: Seq<char>,
    now: i64,
) -> bool {
    &&& has_device(after, device_code)
    &&& forall|i: int| first_device(after, device_code, i) ==> {
        let e = #[trigger] after[i];
        &&& e.user_code@ == user_code
        &&& e.status is Pending
        &&& e.access_token is None
        &&& e.refresh_token is None
        &&& e.user_email is None
        &&& e.user_name is None
        &&& e.created_at == now
    }
    &&& forall|i: int|
        0 <= i < before.len() && before[i].device_code@ != device_code ==> after.contains(#[trigger] before[i])
    &&& forall|i: int|
        0 <= i < after.len() && after[i].device_code@ != device_code ==> before.contains(#[trigger] after[i])
}

/// What the server answers to a command line that asks to log in.
pub struct DeviceCodeResponse {
    pub device_code: String,
    pub user_code: String,
    pub verification_url: String,
    pub expires_in: u64,
    pub interval: u64,
}

/// The page where the user approves a code: under the web application's
/// address (`http://localhost:3000` where none is set), `/auth/cli?code=`
/// and the code.
pub open spec fn verification_url_of(frontend: Option<Seq<char>>, user_code: Seq<char>) -> Seq<char> {
    let base = match frontend {
        Some(f) => f,
        None => "http://localhost:3000"@,
    };
    base + "/auth/cli?code="@ + user_code
}

/// Records a new pending request, made at `now` (nanoseconds since the Unix
/// epoch) under a fresh device code, and gives the answer to the command
/// line: the codes, where to approve, five minutes to do it, polls every
/// two seconds.
pub fn open_device_request(
    store: &mut DeviceStore,
    device_code: String,
    user_code: String,
    now: i64,
    frontend_url: Option<&str>,
) -> (r: DeviceCodeResponse)
    requires
        old(store).well_formed(),
    ensures
        final(store).well_formed(),
        opened_in(old(store).pending@, final(store).pending@, device_code@, user_code@, now),
        r.device_code == device_code,
        r.user_code == user_code,
        r.verification_url@ == verification_url_of(
            match frontend_url {
                Some(f) => Some(f@),
                None => None,
            },
            user_code@,
        ),
        r.expires_in == 300,
        r.interval == 2,
{
    let req = DeviceRequest {
        device_code: device_code.clone(),
        user_code: user_code.clone(),
        status: DeviceStatus::Pending,
        access_token: None,
        refresh_token: None,
        user_email: None,
        user_name: None,
        created_at: now,
    };
    store.insert(req);
    let mut url = String::new();
    match frontend_url {
        Some(f) => push_str(&mut url, f),
        None => push_str(&mut url, "http://localhost:3000"),
    }
    push_str(&mut url, "/auth/cli?code=");
    push_str(&mut url, user_code.as_str());
    DeviceCodeResponse { device_code, user_code, verification_url: url, expires_in: 300, interval: 2 }
}

impl DeviceStore {
    /// The answer to a poll now, by the clock: a device code that no request
    /// has is not found, whatever the time; for one that a request has, the
    /// answer that `poll` gives at some instant (the one the clock read).
    pub fn poll_now(&self, device_code: &str) -> (r: PollResult)
        ensures
            !has_device(self.pending@, device_code@) ==> r is NotFound,
            forall|i: int| first_device(self.pending@, device_code@, i) ==> exists|now: i64|
                poll_answer(r, #[trigger] self.pending@[i], now),
    {
        let now: i64 = match clock_nanos() {
            Some(t) => t,
            None => 0,
        };
        let r = self.poll(device_code, now);
        assert forall|i: int| first_device(self.pending@, device_code@, i) implies exists|t: i64|
            poll_answer(r, #[trigger] self.pending@[i], t) by {
            assert(poll_answer(r, self.pending@[i], now));
        }
        r
    }
}

/// The body with which the web application approves a code.
pub struct ApproveRequest {
    pub user_code: String,
    pub access_token: String,
    pub refresh_token: String,
    pub user_email: String,
    pub user_name: String,
}

/// The body with which the web application refuses a code.
pub struct DenyRequest {
    pub user_code: String,
}

/// What a token says: whose it is, until when (seconds since the Unix
/// epoch), since when, and whether it is an `access` or a `refresh` token.
pub struct Claims {
    pub sub: String,
    pub email: String,
    pub exp: usize,
    pub iat: usize,
    pub token_type: String,
}

/// How tokens are signed and how long they last.
pub struct JwtConfig {
    pub secret: String,
    pub access_expiry_hours: i64,
    pub refresh_expiry_days: i64,
}

impl JwtConfig {
    /// The settings used unless told otherwise: the secret set in the
    /// environment (a development secret where none is), access tokens for
    /// an hour, refresh tokens for thirty days.
    pub fn with_secret(secret: Option<String>) -> (r: JwtConfig)
        ensures
            match secret {
                Some(s) => r.secret == s,
                None => r.secret@ == "roadmap-dev-secret-change-me"@,
            },
            r.access_expiry_hours == 1,
            r.refresh_expiry_days == 30,
    {
        JwtConfig {
            secret: match secret {
                Some(s) => s,
                None => owned("roadmap-dev-secret-change-me"),
            },
            access_expiry_hours: 1,
            refresh_expiry_days: 30,
        }
    }
}

/// The earliest and latest instants (seconds since the Unix epoch) that
/// `chrono` can hold.
pub open spec fn earliest_instant() -> int {
    -8_334_601_228_800
}

/// See `earliest_instant`.
pub open spec fn latest_instant() -> int {
    8_210_266_876_799
}

/// The claims of a token issued at `now` (seconds since the Unix epoch) for
/// `lifetime` seconds.
pub open spec fn is_claims(c: Claims, sub: Seq<char>, email: Seq<char>, now: i64, lifetime: int, kind: Seq<char>) -> bool {
    &&& c.sub@ == sub
    &&& c.email@ == email
    &&& c.exp == (now + lifetime) as usize
    &&& c.iat == now as usize
    &&& c.token_type@ == kind
}

/// The claims of a token issued at `now` for `lifetime` seconds.
fn claims_for(sub: &str, email: &str, now: i64, lifetime: i64, kind: &str) -> (r: Claims)
    requires
        earliest_instant() <= now + lifetime <= latest_instant(),
    ensures
        is_claims(r, sub@, email@, now, lifetime as int, kind@),
{
    let exp: i64 = now + lifetime;
    Claims {
        sub: owned(sub),
        email: owned(email),
        exp: exp as usize,
        iat: now as usize,
        token_type: owned(kind),
    }
}

/// The claims of an access token for a user, issued at `now`: valid for the
/// configured number of hours.
pub fn access_claims(sub: &str, email: &str, now: i64, config: &JwtConfig) -> (r: Claims)
    requires
        -2_562_047_788_015 <= config.access_expiry_hours <= 2_562_047_788_015,
        earliest_instant() <= now + config.access_expiry_hours * 3600 <= latest_instant(),
    ensures
        is_claims(r, sub@, email@, now, config.access_expiry_hours * 3600, "access"@),
{
    claims_for(sub, email, now, config.access_expiry_hours * 3600, "access")
}

/// The claims of a refresh token for a user, issued at `now`: valid for the
/// configured number of days.
pub fn refresh_claims(sub: &str, email: &str, now: i64, config: &JwtConfig) -> (r: Claims)
    requires
        -106_751_991_167 <= config.refresh_expiry_days <= 106_751_991_167,
        earliest_instant() <= now + config.refresh_expiry_days * 86400 <= latest_instant(),
    ensures
        is_claims(r, sub@, email@, now, config.refresh_expiry_days * 86400, "refresh"@),
{
    claims_for(sub, email, now, config.refresh_expiry_days * 86400, "refresh")
}

/// The token that `jsonwebtoken::encode` gives for these claims (written as
/// a JSON object with the fields in this order), the default header (HS256)
/// and the secret.
pub uninterp spec fn jwt_encoding(
    sub: Seq<char>,
    email: Seq<char>,
    exp: int,
    iat: int,
    kind: Seq<char>,
    secret: Seq<char>,
) -> Seq<char>;

/// Signs the claims with `jsonwebtoken::encode` (default header, HS256 with
/// the secret); the payload is the JSON object `sub`, `email`, `exp`, `iat`,
/// `token_type`. The token is named, not described. Signing a map of string
/// keys with an HMAC key under HS256 does not fail.
#[verifier::external_body]
fn encode_claims(c: &Claims, secret: &str) -> (r: Result<String, String>)
    ensures
        r is Ok,
        r matches Ok(t) ==> t@ == jwt_encoding(c.sub@, c.email@, c.exp as int, c.iat as int, c.token_type@, secret@),
{
    let mut m = serde_json::Map::new();
    m.insert("sub".to_string(), c.sub.clone().into());
    m.insert("email".to_string(), c.email.clone().into());
    m.insert("exp".to_string(), c.exp.into());
    m.insert("iat".to_string(), c.iat.into());
    m.insert("token_type".to_string(), c.token_type.clone().into());
    let key = jsonwebtoken::EncodingKey::from_secret(secret.as_bytes());
    jsonwebtoken::encode(&jsonwebtoken::Header::default(), &m, &key).map_err(|e| e.to_string())
}

/// The payload fields of a token whose signature and form check out: `sub`,
/// `email`, `exp`, `iat`, `token_type`, each where it is there with its type.
pub type ClaimFields = (Option<String>, Option<String>, Option<u64>, Option<u64>, Option<String>);

/// The model of payload fields.
pub type ClaimFieldsView = (Option<Seq<char>>, Option<Seq<char>>, Option<u64>, Option<u64>, Option<Seq<char>>);

/// The model of payload fields, the texts taken as character sequences.
pub open spec fn fields_view(f: ClaimFields) -> ClaimFieldsView {
    (
        match f.0 {
            Some(s) => Some(s@),
            None => None,
        },
        match f.1 {
            Some(s) => Some(s@),
            None => None,
        },
        f.2,
        f.3,
        match f.4 {
            Some(s) => Some(s@),
            None => None,
        },
    )
}

/// The model of what reading a token's payload gives.
pub open spec fn read_view(r: Result<ClaimFields, String>) -> Result<ClaimFieldsView, Seq<char>> {
    match r {
        Ok(f) => Ok(fields_view(f)),
        Err(e) => Err(e@),
    }
}

/// What `jsonwebtoken::decode` reads of a token with the secret when the
/// time is not checked (HS256, the default validation without expiry and
/// without required claims): the payload fields, or the crate's message
/// where the token is malformed, badly signed or its payload no JSON object.
pub uninterp spec fn jwt_claim_fields(token: Seq<char>, secret: Seq<char>) -> Result<ClaimFieldsView, Seq<char>>;

/// Reads a token with `jsonwebtoken::decode` (HS256 with the secret; the
/// expiry is not checked and no claim is required, so the clock is not
/// read) and gives the payload's fields where each is there with its type.
/// The outcome is named, not described.
#[verifier::external_body]
fn read_claim_fields(token: &str, secret: &str) -> (r: Result<ClaimFields, String>)
    ensures
        read_view(r) == jwt_claim_fields(token@, secret@),
{
    let key = jsonwebtoken::DecodingKey::from_secret(secret.as_bytes());
    let mut validation = jsonwebtoken::Validation::default();
    validation.validate_exp = false;
    validation.required_spec_claims.clear();
    let data = jsonwebtoken::decode::<serde_json::Map<String, serde_json::Value>>(token, &key, &validation)
        .map_err(|e| e.to_string())?;
    let text = |k: &str| data.claims.get(k).and_then(|v| v.as_str()).map(|x| x.to_string());
    let number = |k: &str| data.claims.get(k).and_then(|v| v.as_u64());
    Ok((text("sub"), text("email"), number("exp"), number("iat"), text("token_type")))
}

/// Checks a token with `jsonwebtoken::decode` and the default validation
/// (HS256 with the secret; `exp` required and not past by the clock); the
/// crate's message where it fails. Nothing is stated: the outcome depends on
/// the clock.
#[verifier::external_body]
fn check_token_time(token: &str, secret: &str) -> (r: Result<(), String>) {
    let key = jsonwebtoken::DecodingKey::from_secret(secret.as_bytes());
    let validation = jsonwebtoken::Validation::default();
    jsonwebtoken::decode::<serde_json::Map<String, serde_json::Value>>(token, &key, &validation)
        .map(|_| ())
        .map_err(|e| e.to_string())
}

/// The message for a payload field that is missing or of the wrong type.
pub open spec fn missing_field(name: Seq<char>) -> Seq<char> {
    "JSON error: missing field `"@ + name + "`"@
}

/// What keeps payload fields from making claims: the first field, in the
/// order `sub`, `email`, `exp`, `iat`, `token_type`, that is missing, of the
/// wrong type, or (for the times) too large for a `usize`.
pub open spec fn field_problem(v: ClaimFieldsView) -> Option<Seq<char>> {
    if v.0 is None {
        Some(missing_field("sub"@))
    } else if v.1 is None {
        Some(missing_field("email"@))
    } else if v.2 is None || v.2->0 > usize::MAX {
        Some(missing_field("exp"@))
    } else if v.3 is None || v.3->0 > usize::MAX {
        Some(missing_field("iat"@))
    } else if v.4 is None {
        Some(missing_field("token_type"@))
    } else {
        None
    }
}

/// The claims are those the payload fields give.
pub open spec fn claims_match(c: Claims, v: ClaimFieldsView) -> bool {
    v == (Some(c.sub@), Some(c.email@), Some(c.exp as u64), Some(c.iat as u64), Some(c.token_type@))
}

fn field_missing(name: &str) -> (r: String)
    ensures
        r@ == missing_field(name@),
{
    let mut m = owned("JSON error: missing field `");
    push_str(&mut m, name);
    push_str(&mut m, "`");
    m
}

/// Builds the claims from the fields of a token's payload, or says which
/// field is missing (see `field_problem`).
pub fn claims_from_fields(f: ClaimFields) -> (r: Result<Claims, String>)
    ensures
        match field_problem(fields_view(f)) {
            Some(e) => r matches Err(m) && m@ == e,
            None => r matches Ok(c) && claims_match(c, fields_view(f)),
        },
{
    let (sub, email, exp, iat, kind) = f;
    let sub = match sub {
        Some(x) => x,
        None => {
            return Err(field_missing("sub"));
        },
    };
    let email = match email {
        Some(x) => x,
        None => {
            return Err(field_missing("email"));
        },
    };
    let exp = match exp {
        Some(x) if x <= usize::MAX as u64 => x,
        _ => {
            return Err(field_missing("exp"));
        },
    };
    let iat = match iat {
        Some(x) if x <= usize::MAX as u64 => x,
        _ => {
            return Err(field_missing("iat"));
        },
    };
    let kind = match kind {
        Some(x) => x,
        None => {
            return Err(field_missing("token_type"));
        },
    };
    let c = Claims { sub, email, exp: exp as usize, iat: iat as usize, token_type: kind };
    assert(c.exp as u64 == exp && c.iat as u64 == iat);
    assert(fields_view(f) == (Some(c.sub@), Some(c.email@), Some(c.exp as u64), Some(c.iat as u64), Some(c.token_type@)));
    Ok(c)
}

/// Signs claims.
fn sign(c: &Claims, secret: &str) -> (r: String)
    ensures
        r@ == jwt_encoding(c.sub@, c.email@, c.exp as int, c.iat as int, c.token_type@, secret@),
{
    match encode_claims(c, secret) {
        Ok(t) => t,
        Err(e) => e,
    }
}

/// An access token for a user, issued at `now` (seconds since the Unix
/// epoch) for the configured number of hours; signing always succeeds.
pub fn create_access_token(sub: &str, email: &str, now: i64, config: &JwtConfig) -> (r: Result<String, String>)
    requires
        -2_562_047_788_015 <= config.access_expiry_hours <= 2_562_047_788_015,
        earliest_instant() <= now + config.access_expiry_hours * 3600 <= latest_instant(),
    ensures
        r is Ok,
        r matches Ok(t) ==> exists|c: Claims|
            is_claims(c, sub@, email@, now, config.access_expiry_hours * 3600, "access"@) && t@ == jwt_encoding(
                c.sub@,
                c.email@,
                c.exp as int,
                c.iat as int,
                c.token_type@,
                config.secret@,
            ),
{
    let c = access_claims(sub, email, now, config);
    Ok(sign(&c, config.secret.as_str()))
}

/// A refresh token for a user, issued at `now` (seconds since the Unix
/// epoch) for the configured number of days; signing always succeeds.
pub fn create_refresh_token(sub: &str, email: &str, now: i64, config: &JwtConfig) -> (r: Result<String, String>)
    requires
        -106_751_991_167 <= config.refresh_expiry_days <= 106_751_991_167,
        earliest_instant() <= now + config.refresh_expiry_days * 86400 <= latest_instant(),
    ensures
        r is Ok,
        r matches Ok(t) ==> exists|c: Claims|
            is_claims(c, sub@, email@, now, config.refresh_expiry_days * 86400, "refresh"@) && t@ == jwt_encoding(
                c.sub@,
                c.email@,
                c.exp as int,
                c.iat as int,
                c.token_type@,
                config.secret@,
            ),
{
    let c = refresh_claims(sub, email, now, config);
    Ok(sign(&c, config.secret.as_str()))
}

/// `Token invalide: ` followed by a message.
pub open spec fn invalid_token(e: Seq<char>) -> Seq<char> {
    "Token invalide: "@ + e
}

fn invalid(e: String) -> (r: String)
    ensures
        r@ == invalid_token(e@),
{
    let mut m = owned("Token invalide: ");
    push_str(&mut m, e.as_str());
    m
}

/// The claims of a valid token, or `Token invalide: ` and why not. The
/// token is read with the configured secret: where it is malformed or badly
/// signed, that is the reason; where its payload lacks a claim, the first one
/// missing; then the token must not be expired by the clock. The claims are
/// those of the token's payload.
pub fn validate_token(token: &str, config: &JwtConfig) -> (r: Result<Claims, String>)
    ensures
        match jwt_claim_fields(token@, config.secret@) {
            Err(e) => r matches Err(m) && m@ == invalid_token(e),
            Ok(v) => match field_problem(v) {
                Some(e) => r matches Err(m) && m@ == invalid_token(e),
                None => (r matches Ok(c) ==> claims_match(c, v)) && (r matches Err(m) ==> is_prefix(
                    "Token invalide: "@,
                    m@,
                )),
            },
        },
{
    let fields = match read_claim_fields(token, config.secret.as_str()) {
        Ok(f) => f,
        Err(e) => {
            return Err(invalid(e));
        },
    };
    let c = match claims_from_fields(fields) {
        Ok(c) => c,
        Err(e) => {
            return Err(invalid(e));
        },
    };
    match check_token_time(token, config.secret.as_str()) {
        Ok(()) => Ok(c),
        Err(e) => {
            let m = invalid(e);
            proof {
                reveal_strlit("Token invalide: ");
                assert(m@.take(16) =~= "Token invalide: "@);
            }
            Err(m)
        },
    }
}

/// Who an authenticated request is made for: the `Authorization` header must
/// carry a bearer token, valid (see `validate_token`), of an access token
/// whose subject is a UUID; else why the request is refused. The user is the
/// one named by the claims of the token presented.
pub fn authenticate(header: Option<&str>, config: &JwtConfig) -> (r: Result<AuthUser, String>)
    ensures
        ({
            let h = match header {
                Some(h) => Some(h@),
                None => None,
            };
            &&& bearer_of(h) is None ==> (r matches Err(m) && m@ == "Token manquant"@)
            &&& bearer_of(h) matches Some(t) ==> {
                &&& r matches Err(m) ==> m@ != "Token manquant"@
                &&& jwt_claim_fields(t, config.secret@) matches Err(e) ==> (r matches Err(m) && m@ == invalid_token(e))
                &&& r matches Ok(u) ==> exists|c: Claims| {
                    &&& jwt_claim_fields(t, config.secret@) matches Ok(v)
                    &&& claims_match(c, v)
                    &&& #[trigger] access_result(c) == Ok::<(u128, Seq<char>), Seq<char>>((u.id, u.email@))
                }
            }
        }),
{
    let token = match bearer_token(header) {
        Ok(t) => t,
        Err(m) => {
            return Err(m);
        },
    };
    proof {
        reveal_strlit("Token manquant");
        reveal_strlit("Token invalide: ");
        reveal_strlit("Token invalide");
        reveal_strlit("Token de type access requis");
        assert("Token manquant"@.len() == 14);
    }
    let c = match validate_token(token.as_str(), config) {
        Ok(c) => c,
        Err(m) => {
            proof {
                if m@ == "Token manquant"@ {
                    assert(m@.take(16).len() == 16);
                }
            }
            return Err(m);
        },
    };
    let ghost claims = c;
    let r = access_user(c);
    proof {
        assert("Token invalide"@ != "Token manquant"@) by {
            assert("Token invalide"@[6] != "Token manquant"@[6]);
        }
        assert("Token de type access requis"@ != "Token manquant"@) by {
            assert("Token de type access requis"@.len() != "Token manquant"@.len());
        }
    }
    assert(r matches Ok(u) ==> access_result(claims) == Ok::<(u128, Seq<char>), Seq<char>>((u.id, u.email@)));
    r
}

/// The token of an `Authorization` header: what follows `Bearer `.
pub open spec fn bearer_of(header: Option<Seq<char>>) -> Option<Seq<char>> {
    match header {
        Some(h) => if is_prefix("Bearer "@, h) {
            Some(h.skip(7))
        } else {
            None
        },
        None => None,
    }
}

/// The token of an `Authorization` header, or why there is none.
pub fn bearer_token(header: Option<&str>) -> (r: Result<String, String>)
    ensures
        match bearer_of(
            match header {
                Some(h) => Some(h@),
                None => None,
            },
        ) {
            Some(t) => r matches Ok(s) && s@ == t,
            None => r matches Err(m) && m@ == "Token manquant"@,
        },
{
    match header {
        Some(h) => {
            if starts_with(h, "Bearer ") {
                proof {
                    reveal_strlit("Bearer ");
                }
                let cs = chars_of(h);
                return Ok(string_of(&chars_from(&cs, 7)));
            }
            Err(owned("Token manquant"))
        },
        None => Err(owned("Token manquant")),
    }
}

/// The user that a request is made for.
pub struct AuthUser {
    pub id: u128,
    pub email: String,
}

/// Who a valid token is for, where it is an access token whose subject is a
/// UUID; else why the request is refused.
pub open spec fn access_result(c: Claims) -> Result<(u128, Seq<char>), Seq<char>> {
    if c.token_type@ != "access"@ {
        Err("Token de type access requis"@)
    } else {
        match uuid_value(c.sub@) {
            Some(id) => Ok((id, c.email@)),
            None => Err("Token invalide"@),
        }
    }
}

/// Who the claims of a valid token are for, or why the request is refused
/// (see `access_result`).
pub fn access_user(c: Claims) -> (r: Result<AuthUser, String>)
    ensures
        match (r, access_result(c)) {
            (Ok(u), Ok(v)) => u.id == v.0 && u.email@ == v.1,
            (Err(m), Err(e)) => m@ == e,
            _ => false,
        },
{
    if !str_eq(c.token_type.as_str(), "access") {
        return Err(owned("Token de type access requis"));
    }
    match parse_uuid(c.sub.as_str()) {
        Some(id) => Ok(AuthUser { id, email: c.email }),
        None => Err(owned("Token invalide")),
    }
}

/// The user whose refresh token it is, or why it is refused.
pub open spec fn refresh_result(c: Claims) -> Result<u128, Seq<char>> {
    if c.token_type@ != "refresh"@ {
        Err("Token de type refresh requis"@)
    } else {
        match uuid_value(c.sub@) {
            Some(id) => Ok(id),
            None => Err("Token invalide"@),
        }
    }
}

/// The user whose refresh token it is, or why it is refused (see
/// `refresh_result`).
pub fn refresh_user(c: &Claims) -> (r: Result<u128, String>)
    ensures
        match (r, refresh_result(*c)) {
            (Ok(a), Ok(b)) => a == b,
            (Err(m), Err(e)) => m@ == e,
            _ => false,
        },
{
    if !str_eq(c.token_type.as_str(), "refresh") {
        return Err(owned("Token de type refresh requis"));
    }
    match parse_uuid(c.sub.as_str()) {
        Some(id) => Ok(id),
        None => Err(owned("Token invalide")),
    }
}

/// The query of a live connection: the token and the project.
pub struct WsParams {
    pub token: String,
    pub project_id: String,
}

/// Why a live connection is refused.
pub enum WsRefusal {
    /// The token's subject is not a user id.
    Unauthorized,
    /// The project id is not a UUID.
    BadRequest,
}

/// Who connects, and to which project, from the claims of a valid token and
/// the query; the user is read first.
pub fn ws_identity(c: &Claims, params: &WsParams) -> (r: Result<(u128, u128), WsRefusal>)
    ensures
        uuid_value(c.sub@) is None ==> r matches Err(WsRefusal::Unauthorized),
        uuid_value(c.sub@) is Some && uuid_value(params.project_id@) is None ==> r matches Err(
            WsRefusal::BadRequest,
        ),
        uuid_value(c.sub@) matches Some(u) ==> (uuid_value(params.project_id@) matches Some(p) ==> r == Ok::<
            (u128, u128),
            WsRefusal,
        >((u, p))),
{
    let user = match parse_uuid(c.sub.as_str()) {
        Some(u) => u,
        None => {
            return Err(WsRefusal::Unauthorized);
        },
    };
    match parse_uuid(params.project_id.as_str()) {
        Some(p) => Ok((user, p)),
        None => Err(WsRefusal::BadRequest),
    }
}

/// The body of a registration.
pub struct RegisterRequest {
    pub email: String,
    pub name: String,
    pub password: String,
}

/// Why a registration is refused before the database is asked, if it is:
/// a field left empty, or a password under eight bytes.
pub open spec fn registration_problem(r: RegisterRequest) -> Option<Seq<char>> {
    if r.email@.len() == 0 || r.password@.len() == 0 || r.name@.len() == 0 {
        Some("Tous les champs sont requis"@)
    } else if crate::scan::utf8_len(r.password@) < 8 {
        Some("Mot de passe trop court (min 8 caractères)"@)
    } else {
        None
    }
}

/// Checks a registration before the database is asked (see
/// `registration_problem`).
pub fn check_registration(req: &RegisterRequest) -> (r: Result<(), String>)
    ensures
        match registration_problem(*req) {
            None => r is Ok,
            Some(e) => r matches Err(m) && m@ == e,
        },
{
    let e = chars_of(req.email.as_str());
    let p = chars_of(req.password.as_str());
    let n = chars_of(req.name.as_str());
    if e.len() == 0 || p.len() == 0 || n.len() == 0 {
        return Err(owned("Tous les champs sont requis"));
    }
    if crate::scan::utf8_len_capped(&p, 8) < 8 {
        return Err(owned("Mot de passe trop court (min 8 caractères)"));
    }
    Ok(())
}

/// The role of an invited member: the one asked for, `member` by default.
pub fn invite_role(role: Option<&str>) -> (r: String)
    ensures
        match role {
            Some(x) => r@ == x@,
            None => r@ == "member"@,
        },
{
    match role {
        Some(x) => owned(x),
        None => owned("member"),
    }
}

/// Whether a member's role lets them manage the organisation.
pub fn is_admin_role(role: &str) -> (r: bool)
    ensures
        r == (role@ == "owner"@ || role@ == "admin"@),
{
    str_eq(role, "owner") || str_eq(role, "admin")
}

/// The query of the activity log.
pub struct AuditParams {
    pub limit: Option<u64>,
}

impl AuditParams {
    /// The number of entries asked for, 50 by default.
    pub fn limit_or_default(&self) -> (r: u64)
        ensures
            r == match self.limit {
                Some(l) => l,
                None => 50,
            },
    {
        match self.limit {
            Some(l) => l,
            None => 50,
        }
    }
}

} // verus!
