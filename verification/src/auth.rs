//! The authentication data model and the tier rules: which models each
//! subscription tier may use, and how a backend user record becomes the
//! application's user. The HTTP client and the session files live outside
//! the library; they hand these types in and out as plain values.

use vstd::prelude::*;
use vstd::string::StringExecFns;
use vstd::string::StrSliceExecFns;

verus! {

/// The application's view of a signed-in user.
#[derive(Debug, Clone)]
pub struct User {
    pub id: String,
    pub email: String,
    pub name: String,
    pub tier: String,
    pub token: String,
    pub usage: UserUsage,
    pub created_at: String,
    pub subscription_status: Option<String>,
    pub stripe_customer_id: Option<String>,
    pub usage_daily: Option<i32>,
    pub usage_total: Option<i32>,
    pub updated_at: Option<String>,
}

/// Usage counters bundled into the user record.
#[derive(Debug, Clone)]
pub struct UserUsage {
    pub daily: i32,
    pub total: i32,
    pub last_reset: String,
}

/// Stand-alone usage counters.
#[derive(Debug, Clone)]
pub struct Usage {
    pub daily: i32,
    pub total: i32,
    pub last_reset: String,
}

/// The credentials sent to the login endpoint.
#[derive(Debug)]
pub struct LoginRequest {
    pub email: String,
    pub password: String,
}

/// A user record as the backend returns it.
#[derive(Debug)]
pub struct BackendUser {
    pub id: String,
    pub email: String,
    pub name: String,
    pub tier: String,
    pub subscription_status: Option<String>,
    pub stripe_customer_id: Option<String>,
    pub usage_daily: Option<i32>,
    pub usage_total: Option<i32>,
    pub created_at: Option<String>,
    pub updated_at: Option<String>,
}

/// The login/verify endpoints' response envelope.
#[derive(Debug)]
pub struct AuthResponse {
    pub success: bool,
    pub user: Option<BackendUser>,
    pub token: Option<String>,
    pub message: Option<String>,
}

/// The fields of a decoded session token.
#[derive(Debug)]
pub struct Claims {
    pub user_id: String,
    pub email: String,
    pub exp: usize,
}

/// Relies on chrono's `Utc::now` formatted as `%Y-%m-%d`: the current date.
/// The result depends on the clock, so nothing is promised of it.
#[verifier::external_body]
fn today_utc_date() -> (r: String) {
    chrono::Utc::now().format("%Y-%m-%d").to_string()
}

impl Default for UserUsage {
    /// Fresh counters, reset today.
    fn default() -> (r: UserUsage)
        ensures
            r.daily == 0,
            r.total == 0,
    {
        UserUsage { daily: 0, total: 0, last_reset: today_utc_date() }
    }
}

/// Character-by-character string equality.
pub fn str_eq(a: &str, b: &str) -> (r: bool)
    ensures
        r == (a@ == b@),
{
    let la = a.unicode_len();
    let lb = b.unicode_len();
    if la != lb {
        proof {
            if a@ == b@ {
                assert(a@.len() == b@.len());
            }
        }
        return false;
    }
    let mut i: usize = 0;
    while i < la
        invariant
            0 <= i <= la,
            la == a@.len(),
            la == b@.len(),
            forall|j: int| 0 <= j < i ==> a@[j] == b@[j],
        decreases la - i,
    {
        if a.get_char(i) != b.get_char(i) {
            return false;
        }
        i += 1;
    }
    proof {
        assert(a@ =~= b@);
    }
    true
}

/// The model names each tier unlocks, in the order they are offered.
pub open spec fn tier_models(tier: Seq<char>) -> Seq<Seq<char>> {
    if tier == "free"@ {
        seq!["GPT-3.5-turbo"@, "Gemini Flash"@]
    } else if tier == "premium"@ {
        seq![
            "GPT-3.5-turbo"@,
            "Gemini Flash"@,
            "GPT-4o-mini"@,
            "Haiku 3"@,
            "Gemini Pro"@,
            "Jamba Mini"@,
            "Mistral Small"@,
        ]
    } else if tier == "pro"@ {
        seq![
            "GPT-3.5-turbo"@,
            "Gemini Flash"@,
            "GPT-4o-mini"@,
            "Haiku 3"@,
            "Gemini Pro"@,
            "Jamba Mini"@,
            "Mistral Small"@,
            "GPT-4o"@,
            "Sonnet 3.5"@,
            "Jamba Large"@,
            "Mistral Medium"@,
        ]
    } else if tier == "enterprise"@ {
        seq![
            "GPT-3.5-turbo"@,
            "Gemini Flash"@,
            "GPT-4o-mini"@,
            "Haiku 3"@,
            "Gemini Pro"@,
            "Jamba Mini"@,
            "Mistral Small"@,
            "GPT-4o"@,
            "Sonnet 3.5"@,
            "Jamba Large"@,
            "Mistral Medium"@,
            "GPT-4o 32k"@,
            "Opus 3"@,
            "Mistral Large"@,
        ]
    } else {
        seq!["GPT-3.5-turbo"@]
    }
}

/// The stateless client configuration for the login/verify API: the endpoint
/// base and, when sessions are persisted, where they are stored.
#[derive(Clone)]
pub struct AuthService {
    pub api_url: String,
    pub storage_path: Option<std::path::PathBuf>,
}

#[verifier::external_type_specification]
#[verifier::external_body]
pub struct ExPathBuf(std::path::PathBuf);

impl AuthService {
    /// A client against the production API, with no session storage yet.
    pub fn new() -> (r: AuthService)
        ensures
            r.api_url@ == "https://api.finalyze.pro"@,
            r.storage_path is None,
    {
        AuthService {
            api_url: String::from_str("https://api.finalyze.pro"),
            storage_path: None,
        }
    }

    /// The same client with a session storage directory set.
    pub fn with_storage_path(self, path: std::path::PathBuf) -> (r: AuthService)
        ensures
            r.api_url == self.api_url,
            r.storage_path == Some(path),
    {
        AuthService { api_url: self.api_url, storage_path: Some(path) }
    }

    /// The models this tier may use, exactly the published list per tier,
    /// with a single-model fallback for unknown tiers.
    pub fn get_available_models(&self, user_tier: &str) -> (r: Vec<&'static str>)
        ensures
            r@.len() == tier_models(user_tier@).len(),
            forall|i: int|
                0 <= i < r@.len() ==> (#[trigger] r@[i])@ == tier_models(user_tier@)[i],
    {
        let mut v: Vec<&'static str> = Vec::new();
        if str_eq(user_tier, "free") {
            v.push("GPT-3.5-turbo");
            v.push("Gemini Flash");
        } else if str_eq(user_tier, "premium") {
            v.push("GPT-3.5-turbo");
            v.push("Gemini Flash");
            v.push("GPT-4o-mini");
            v.push("Haiku 3");
            v.push("Gemini Pro");
            v.push("Jamba Mini");
            v.push("Mistral Small");
        } else if str_eq(user_tier, "pro") {
            v.push("GPT-3.5-turbo");
            v.push("Gemini Flash");
            v.push("GPT-4o-mini");
            v.push("Haiku 3");
            v.push("Gemini Pro");
            v.push("Jamba Mini");
            v.push("Mistral Small");
            v.push("GPT-4o");
            v.push("Sonnet 3.5");
            v.push("Jamba Large");
            v.push("Mistral Medium");
        } else if str_eq(user_tier, "enterprise") {
            v.push("GPT-3.5-turbo");
            v.push("Gemini Flash");
            v.push("GPT-4o-mini");
            v.push("Haiku 3");
            v.push("Gemini Pro");
            v.push("Jamba Mini");
            v.push("Mistral Small");
            v.push("GPT-4o");
            v.push("Sonnet 3.5");
            v.push("Jamba Large");
            v.push("Mistral Medium");
            v.push("GPT-4o 32k");
            v.push("Opus 3");
            v.push("Mistral Large");
        } else {
            v.push("GPT-3.5-turbo");
        }
        v
    }

    /// Whether this tier's list contains the model, by exact name.
    pub fn can_use_model(&self, user_tier: &str, model: &str) -> (r: bool)
        ensures
            r == tier_models(user_tier@).contains(model@),
    {
        let models = self.get_available_models(user_tier);
        let n = models.len();
        let mut i: usize = 0;
        while i < n
            invariant
                0 <= i <= n,
                n == models@.len(),
                models@.len() == tier_models(user_tier@).len(),
                forall|k: int|
                    0 <= k < n ==> (#[trigger] models@[k])@ == tier_models(user_tier@)[k],
                forall|k: int| 0 <= k < i ==> tier_models(user_tier@)[k] != model@,
            decreases n - i,
        {
            if str_eq(models[i], model) {
                proof {
                    assert(tier_models(user_tier@)[i as int] == model@);
                }
                return true;
            }
            i += 1;
        }
        proof {
            if tier_models(user_tier@).contains(model@) {
                let k = choose|k: int|
                    0 <= k < tier_models(user_tier@).len() && tier_models(user_tier@)[k]
                        == model@;
                assert(tier_models(user_tier@)[k] != model@);
            }
        }
        false
    }
}

impl Default for AuthService {
    fn default() -> (r: AuthService)
        ensures
            r.api_url@ == "https://api.finalyze.pro"@,
            r.storage_path is None,
    {
        AuthService::new()
    }
}

/// Convert a backend user record plus its session token into the
/// application's user, filling absent counters with zero, stamping the
/// usage reset with today's date, and defaulting a missing creation time to
/// the given fallback.
pub fn user_from_backend(
    backend: BackendUser,
    token: String,
    today: String,
    now_rfc3339: String,
) -> (u: User)
    ensures
        u.id == backend.id,
        u.email == backend.email,
        u.name == backend.name,
        u.tier == backend.tier,
        u.token == token,
        u.usage.daily == match backend.usage_daily {
            Option::Some(d) => d,
            Option::None => 0,
        },
        u.usage.total == match backend.usage_total {
            Option::Some(t) => t,
            Option::None => 0,
        },
        u.usage.last_reset == today,
        u.created_at == match backend.created_at {
            Option::Some(c) => c,
            Option::None => now_rfc3339,
        },
        u.subscription_status == backend.subscription_status,
        u.stripe_customer_id == backend.stripe_customer_id,
        u.usage_daily == backend.usage_daily,
        u.usage_total == backend.usage_total,
        u.updated_at == backend.updated_at,
{
    let daily = match &backend.usage_daily {
        Some(d) => *d,
        None => 0,
    };
    let total = match &backend.usage_total {
        Some(t) => *t,
        None => 0,
    };
    let created_at = match backend.created_at {
        Some(c) => c,
        None => now_rfc3339,
    };
    User {
        id: backend.id,
        email: backend.email,
        name: backend.name,
        tier: backend.tier,
        token,
        usage: UserUsage { daily, total, last_reset: today },
        created_at,
        subscription_status: backend.subscription_status,
        stripe_customer_id: backend.stripe_customer_id,
        usage_daily: backend.usage_daily,
        usage_total: backend.usage_total,
        updated_at: backend.updated_at,
    }
}

} // verus!
