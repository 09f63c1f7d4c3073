use vstd::prelude::*;

use crate::text::{concat_all, join, owned, text_eq};

verus! {

/// A bearer token and the instant at which it expires: the second (Unix
/// time) and the nanoseconds within it.
#[derive(Debug)]
pub struct AccessToken {
    pub token: String,
    pub expires_on: i64,
    pub expires_on_nanos: u32,
}

/// Why a credential could not produce a token.
#[derive(Debug)]
pub enum CredentialError {
    /// The authority or the tool refused, or its answer was unusable.
    Authentication(String),
    /// The token request could not be sent or its reply not read.
    Http(String),
}

/// Calls `chrono::Utc::now` and returns `DateTime::timestamp` and
/// `DateTime::timestamp_subsec_nanos` of that one instant. The value depends
/// on the clock; only its range is claimed: `Utc::now` panics on a system
/// time before the Unix epoch, so the second is not negative; no `DateTime`
/// lies after December 31 of year 262142, whose last second is about 8.2e12
/// seconds after the epoch; and `Utc::now` builds the instant from the
/// sub-second nanoseconds of a `Duration`, which are below one billion.
#[verifier::external_body]
fn clock_now() -> (r: (i64, u32))
    ensures
        0 <= r.0 <= 9_000_000_000_000,
        r.1 < 1_000_000_000,
{
    let now = chrono::Utc::now();
    (now.timestamp(), now.timestamp_subsec_nanos())
}

/// Calls `chrono::DateTime::parse_from_rfc3339` and returns the
/// `timestamp` and `timestamp_subsec_nanos` of the parsed instant, or the
/// text of the parse error.
#[verifier::external_body]
fn parse_rfc3339_instant(s: &str) -> (r: Result<(i64, u32), String>)
    ensures
        match r {
            Ok(t) => rfc3339_instant(s@) == Some(t),
            Err(_) => rfc3339_instant(s@) is None,
        },
{
    match chrono::DateTime::parse_from_rfc3339(s) {
        Ok(d) => Ok((d.timestamp(), d.timestamp_subsec_nanos())),
        Err(e) => Err(format!("{e}")),
    }
}

/// The Unix second and the nanoseconds within it of an RFC 3339
/// timestamp, as chrono reads it.
pub uninterp spec fn rfc3339_instant(s: Seq<char>) -> Option<(i64, u32)>;

/// Calls `chrono::NaiveDateTime::parse_from_str` with the format
/// `%Y-%m-%d %H:%M:%S%.f` and returns the `timestamp` and
/// `timestamp_subsec_nanos` of the time taken as UTC (`and_utc`), or the
/// text of the parse error.
#[verifier::external_body]
fn parse_cli_instant(s: &str) -> (r: Result<(i64, u32), String>)
    ensures
        match r {
            Ok(t) => cli_time_instant(s@) == Some(t),
            Err(_) => cli_time_instant(s@) is None,
        },
{
    match chrono::NaiveDateTime::parse_from_str(s, "%Y-%m-%d %H:%M:%S%.f") {
        Ok(d) => Ok((d.and_utc().timestamp(), d.and_utc().timestamp_subsec_nanos())),
        Err(e) => Err(format!("{e}")),
    }
}

/// The Unix second and the nanoseconds within it of a
/// `%Y-%m-%d %H:%M:%S%.f` time taken as UTC, as chrono reads it.
pub uninterp spec fn cli_time_instant(s: Seq<char>) -> Option<(i64, u32)>;

// ── Mock credential ────────────────────────────────────────────────────

/// A credential that always returns the same token, valid for an hour.
pub struct MockCredential;

impl MockCredential {
    /// The token the mock credential issues at the instant `now` seconds
    /// and `now_nanos` nanoseconds: it expires an hour later.
    pub fn token_at(&self, now: i64, now_nanos: u32) -> (t: AccessToken)
        requires
            now <= i64::MAX - 3600,
        ensures
            t.token@ == "mock-access-token"@,
            t.expires_on == now + 3600,
            t.expires_on_nanos == now_nanos,
    {
        AccessToken { token: owned("mock-access-token"), expires_on: now + 3600, expires_on_nanos: now_nanos }
    }

    /// A token valid for an hour from now; the scopes are not looked at.
    /// It always succeeds.
    pub fn get_token(&self, scopes: &Vec<String>) -> (r: Result<AccessToken, CredentialError>)
        ensures
            r matches Ok(t) && t.token@ == "mock-access-token"@ && 3600 <= t.expires_on <= 9_000_000_003_600
                && t.expires_on_nanos < 1_000_000_000,
    {
        let (now, nanos) = clock_now();
        Ok(self.token_at(now, nanos))
    }
}

// ── Azure CLI credential ───────────────────────────────────────────────

/// `s` without any number of trailing `/.default`.
pub open spec fn trim_default_suffix(s: Seq<char>) -> Seq<char>
    decreases s.len(),
{
    if s.len() >= 9 && s.subrange(s.len() - 9, s.len() as int) == "/.default"@ {
        trim_default_suffix(s.subrange(0, s.len() - 9))
    } else {
        s
    }
}

/// The resource the CLI is asked for: the first scope without its
/// `/.default` suffix, or the management endpoint when there is none.
pub open spec fn cli_resource(scopes: Seq<Seq<char>>) -> Seq<char> {
    if scopes.len() > 0 {
        trim_default_suffix(scopes[0])
    } else {
        "https://management.azure.com"@
    }
}

/// The arguments of the CLI call for `resource`.
pub open spec fn cli_arguments(resource: Seq<char>) -> Seq<Seq<char>> {
    seq!["account"@, "get-access-token"@, "--resource"@, resource, "--output"@, "json"@]
}

/// The expiry the CLI reports, read as RFC 3339 or else as a plain UTC
/// time.
pub open spec fn cli_expiry(s: Seq<char>) -> Option<(i64, u32)> {
    match rfc3339_instant(s) {
        Some(t) => Some(t),
        None => cli_time_instant(s),
    }
}

/// Authenticates through `az account get-access-token`.
pub struct AzureCliCredential;

fn ends_with_default(s: &str) -> (b: bool)
    ensures
        b == (s@.len() >= 9 && s@.subrange(s@.len() - 9, s@.len() as int) == "/.default"@),
{
    proof {
        reveal_strlit("/.default");
    }
    let n = s.unicode_len();
    if n < 9 {
        return false;
    }
    let tail = s.substring_char(n - 9, n);
    text_eq(tail, "/.default")
}

impl AzureCliCredential {
    /// The resource to ask the CLI for.
    pub fn resource_for(&self, scopes: &Vec<String>) -> (r: String)
        ensures
            r@ == cli_resource(scopes@.map_values(|s: String| s@)),
    {
        if scopes.len() == 0 {
            return owned("https://management.azure.com");
        }
        let mut s: &str = scopes[0].as_str();
        assert(s@ == scopes@.map_values(|s: String| s@)[0]);
        while ends_with_default(s)
            invariant
                trim_default_suffix(s@) == trim_default_suffix(scopes@.map_values(|s: String| s@)[0]),
            decreases s@.len(),
        {
            let n = s.unicode_len();
            s = s.substring_char(0, n - 9);
        }
        owned(s)
    }

    /// The arguments of the CLI call.
    pub fn cli_args(&self, resource: &str) -> (r: Vec<String>)
        ensures
            r@.map_values(|s: String| s@) == cli_arguments(resource@),
    {
        let r = vec![
            owned("account"),
            owned("get-access-token"),
            owned("--resource"),
            owned(resource),
            owned("--output"),
            owned("json"),
        ];
        proof {
            assert(r@.map_values(|s: String| s@) =~= cli_arguments(resource@));
        }
        r
    }

    /// The token the CLI printed, with its expiry read as RFC 3339 or else
    /// as `%Y-%m-%d %H:%M:%S%.f` in UTC.
    pub fn token_from_output(&self, access_token: String, expires_on: &str) -> (r: Result<AccessToken, CredentialError>)
        ensures
            match r {
                Ok(t) => cli_expiry(expires_on@) == Some((t.expires_on, t.expires_on_nanos)) && t.token@ == access_token@,
                Err(_) => cli_expiry(expires_on@) is None,
            },
    {
        let (seconds, nanos) = match parse_rfc3339_instant(expires_on) {
            Ok(t) => t,
            Err(_) => match parse_cli_instant(expires_on) {
                Ok(t) => t,
                Err(e) => {
                    let m = join(&["failed to parse expiry: ", e.as_str()]);
                    return Err(CredentialError::Authentication(m));
                },
            },
        };
        Ok(AccessToken { token: access_token, expires_on: seconds, expires_on_nanos: nanos })
    }
}

// ── Client secret credential ───────────────────────────────────────────

/// Authenticates a service principal with its secret at an authority's
/// token endpoint.
pub struct ClientSecretCredential {
    pub tenant_id: String,
    pub client_id: String,
    pub client_secret: String,
    pub authority: String,
}

/// `s` without any number of trailing slashes.
pub open spec fn trim_trailing_slashes(s: Seq<char>) -> Seq<char>
    decreases s.len(),
{
    if s.len() > 0 && s.last() == '/' {
        trim_trailing_slashes(s.drop_last())
    } else {
        s
    }
}

/// The token endpoint of a tenant at an authority.
pub open spec fn token_endpoint(authority: Seq<char>, tenant: Seq<char>) -> Seq<char> {
    trim_trailing_slashes(authority) + "/"@ + tenant + "/oauth2/v2.0/token"@
}

/// Scopes joined by single spaces.
pub open spec fn joined_scopes(scopes: Seq<Seq<char>>) -> Seq<char>
    decreases scopes.len(),
{
    if scopes.len() == 0 {
        Seq::empty()
    } else if scopes.len() == 1 {
        scopes[0]
    } else {
        joined_scopes(scopes.drop_last()) + " "@ + scopes.last()
    }
}

/// The form of a client credentials token request.
pub open spec fn token_form_pairs(client_id: Seq<char>, secret: Seq<char>, scopes: Seq<Seq<char>>) -> Seq<(Seq<char>, Seq<char>)> {
    seq![
        ("grant_type"@, "client_credentials"@),
        ("client_id"@, client_id),
        ("client_secret"@, secret),
        ("scope"@, joined_scopes(scopes)),
    ]
}

impl ClientSecretCredential {
    /// A credential for the public Azure AD authority.
    pub fn new(tenant_id: String, client_id: String, client_secret: String) -> (c: ClientSecretCredential)
        ensures
            c.tenant_id == tenant_id,
            c.client_id == client_id,
            c.client_secret == client_secret,
            c.authority@ == "https://login.microsoftonline.com"@,
    {
        ClientSecretCredential { tenant_id, client_id, client_secret, authority: owned("https://login.microsoftonline.com") }
    }

    /// A credential for another authority, such as the mock server.
    pub fn with_authority(tenant_id: String, client_id: String, client_secret: String, authority: String) -> (c: ClientSecretCredential)
        ensures
            c.tenant_id == tenant_id,
            c.client_id == client_id,
            c.client_secret == client_secret,
            c.authority == authority,
    {
        ClientSecretCredential { tenant_id, client_id, client_secret, authority }
    }

    /// The token endpoint: `{authority}/{tenant}/oauth2/v2.0/token`, the
    /// authority without trailing slashes.
    pub fn token_url(&self) -> (r: String)
        ensures
            r@ == token_endpoint(self.authority@, self.tenant_id@),
    {
        let mut s: &str = self.authority.as_str();
        while s.unicode_len() > 0 && s.get_char(s.unicode_len() - 1) == '/'
            invariant
                trim_trailing_slashes(s@) == trim_trailing_slashes(self.authority@),
            decreases s@.len(),
        {
            let n = s.unicode_len();
            proof {
                assert(s@.drop_last() =~= s@.subrange(0, n - 1));
            }
            s = s.substring_char(0, n - 1);
        }
        let r = join(&[s, "/", self.tenant_id.as_str(), "/oauth2/v2.0/token"]);
        proof {
            reveal_with_fuel(concat_all, 5);
        }
        r
    }

    /// The form fields of the token request.
    pub fn token_form(&self, scopes: &Vec<String>) -> (r: Vec<(String, String)>)
        ensures
            r@.map_values(|p: (String, String)| (p.0@, p.1@)) == token_form_pairs(
                self.client_id@,
                self.client_secret@,
                scopes@.map_values(|s: String| s@),
            ),
    {
        let ghost ss = scopes@.map_values(|s: String| s@);
        let mut scope = String::new();
        let mut i: usize = 0;
        while i < scopes.len()
            invariant
                i <= scopes@.len(),
                ss == scopes@.map_values(|s: String| s@),
                scope@ == joined_scopes(ss.take(i as int)),
            decreases scopes.len() - i,
        {
            proof {
                assert(ss.take(i + 1).drop_last() =~= ss.take(i as int));
            }
            if i > 0 {
                scope.append(" ");
            }
            scope.append(scopes[i].as_str());
            proof {
                if i == 0 {
                    assert(ss.take(1) =~= seq![ss[0]]);
                }
            }
            i = i + 1;
        }
        proof {
            assert(ss.take(scopes@.len() as int) =~= ss);
        }
        let r = vec![
            (owned("grant_type"), owned("client_credentials")),
            (owned("client_id"), self.client_id.clone()),
            (owned("client_secret"), self.client_secret.clone()),
            (owned("scope"), scope),
        ];
        proof {
            assert(r@.map_values(|p: (String, String)| (p.0@, p.1@)) =~= token_form_pairs(self.client_id@, self.client_secret@, ss));
        }
        r
    }

    /// The token a successful reply grants at the instant `now` seconds
    /// and `now_nanos` nanoseconds; the lifetime is taken as a signed
    /// number of whole seconds, so the nanoseconds carry over.
    pub fn token_from_reply(&self, access_token: String, expires_in: u64, now: i64, now_nanos: u32) -> (t: AccessToken)
        requires
            i64::MIN <= now + (expires_in as i64) <= i64::MAX,
        ensures
            t.token == access_token,
            t.expires_on == now + (expires_in as i64),
            t.expires_on_nanos == now_nanos,
    {
        let secs = #[verifier::truncate] (expires_in as i64);
        AccessToken { token: access_token, expires_on: now + secs, expires_on_nanos: now_nanos }
    }

    /// The error of a refused token request.
    pub fn refusal(&self, body: &str) -> (e: CredentialError)
        ensures
            e matches CredentialError::Authentication(m) && m@ == "token request failed: "@ + body@,
    {
        let m = join(&["token request failed: ", body]);
        proof {
            reveal_with_fuel(concat_all, 3);
        }
        CredentialError::Authentication(m)
    }
}

// ── Credential chain ───────────────────────────────────────────────────

/// Position of the first token among the outcomes from `i` on, or their
/// number when there is none.
pub open spec fn first_ok_from(o: Seq<Result<AccessToken, CredentialError>>, i: int) -> int
    decreases o.len() - i,
{
    if i < 0 || i >= o.len() {
        o.len() as int
    } else if o[i] is Ok {
        i
    } else {
        first_ok_from(o, i + 1)
    }
}

proof fn lemma_first_ok_from(o: Seq<Result<AccessToken, CredentialError>>, a: int, b: int)
    requires
        0 <= a <= b <= o.len(),
        forall|m: int| a <= m < b ==> o[m] is Err,
    ensures
        first_ok_from(o, a) == first_ok_from(o, b),
    decreases b - a,
{
    if a < b {
        lemma_first_ok_from(o, a + 1, b);
    }
}

/// What a chain of credentials yields from the outcomes of its members,
/// tried in order: the first token, else the last error, else the error
/// of an empty chain.
pub fn chain_outcome(outcomes: Vec<Result<AccessToken, CredentialError>>) -> (r: Result<AccessToken, CredentialError>)
    ensures
        first_ok_from(outcomes@, 0) < outcomes@.len() ==> r == outcomes@[first_ok_from(outcomes@, 0)],
        first_ok_from(outcomes@, 0) >= outcomes@.len() && outcomes@.len() > 0 ==> r == outcomes@.last(),
        outcomes@.len() == 0 ==> (r matches Err(CredentialError::Authentication(m)) && m@ == "no credentials configured in chain"@),
{
    let n = outcomes.len();
    if n == 0 {
        return Err(empty_chain_error());
    }
    let mut i: usize = 0;
    while i < n
        invariant
            n == outcomes@.len(),
            i <= n,
            forall|m: int| 0 <= m < i ==> outcomes@[m] is Err,
        decreases n - i,
    {
        if outcomes[i].is_ok() {
            proof {
                lemma_first_ok_from(outcomes@, 0, i as int);
            }
            let mut outcomes = outcomes;
            return outcomes.swap_remove(i);
        }
        i = i + 1;
    }
    proof {
        lemma_first_ok_from(outcomes@, 0, n as int);
    }
    let mut outcomes = outcomes;
    outcomes.pop().unwrap()
}

/// Decides after one more member of a chain was tried: stop at a token,
/// go on after an error.
pub fn chain_should_stop(outcome: &Result<AccessToken, CredentialError>) -> (b: bool)
    ensures
        b == outcome is Ok,
{
    outcome.is_ok()
}

/// The error of a chain without members.
pub fn empty_chain_error() -> (e: CredentialError)
    ensures
        e matches CredentialError::Authentication(m) && m@ == "no credentials configured in chain"@,
{
    CredentialError::Authentication(owned("no credentials configured in chain"))
}

} // verus!
