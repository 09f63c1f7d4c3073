use vstd::prelude::*;

use crate::text::{join, owned};

verus! {

/// Root configuration of the mock server: where it listens and which
/// subscriptions (with their seed resource groups) it starts with.
#[derive(Debug)]
pub struct AzureMockConfig {
    pub server: ServerConfig,
    /// Subscriptions by their configuration key, in file order.
    pub subscriptions: Vec<(String, SubscriptionConfig)>,
}

/// Bind address, port and per-response delay.
#[derive(Debug)]
pub struct ServerConfig {
    pub bind: String,
    pub port: u16,
    /// Delay in milliseconds added to every response; 0 for none.
    pub delay_ms: u64,
}

/// One subscription and its seed data.
#[derive(Debug)]
pub struct SubscriptionConfig {
    pub id: String,
    pub display_name: String,
    pub tenant_id: String,
    pub state: String,
    pub resource_groups: Vec<ResourceGroupSeed>,
}

/// A resource group that exists from the start.
#[derive(Debug)]
pub struct ResourceGroupSeed {
    pub name: String,
    pub location: String,
    pub tags: Vec<(String, String)>,
}

/// Why a configuration could not be loaded.
#[derive(Debug)]
pub enum ConfigError {
    /// The file could not be read.
    Io { path: String, message: String },
    /// The text is not a valid configuration document.
    Parse(String),
    /// The document is well-formed but not acceptable.
    Validation(String),
}

/// Address the server binds to when none is configured.
pub fn default_bind() -> (r: String)
    ensures
        r@ == "127.0.0.1"@,
{
    owned("127.0.0.1")
}

/// Port the server listens on when none is configured.
pub fn default_port() -> (r: u16)
    ensures
        r == 8080,
{
    8080
}

/// State of a subscription when none is configured.
pub fn default_subscription_state() -> (r: String)
    ensures
        r@ == "Enabled"@,
{
    owned("Enabled")
}

impl Default for ServerConfig {
    fn default() -> (r: Self)
        ensures
            r.bind@ == "127.0.0.1"@,
            r.port == 8080,
            r.delay_ms == 0,
    {
        ServerConfig { bind: default_bind(), port: default_port(), delay_ms: 0 }
    }
}

/// Message of the validation error for an empty subscription list.
pub open spec fn no_subscription_message() -> Seq<char> {
    "at least one subscription must be defined"@
}

/// Message of the validation error for a subscription with an empty id.
pub open spec fn empty_id_message(key: Seq<char>) -> Seq<char> {
    "subscription '"@ + key + "' has an empty id"@
}

/// Index of the first subscription whose id is empty, if any.
pub open spec fn first_empty_id(subs: Seq<(String, SubscriptionConfig)>) -> int {
    if exists|i: int| 0 <= i < subs.len() && subs[i].1.id@.len() == 0 {
        choose|i: int|
            0 <= i < subs.len() && subs[i].1.id@.len() == 0 && forall|j: int|
                0 <= j < i ==> subs[j].1.id@.len() != 0
    } else {
        -1
    }
}

impl AzureMockConfig {
    /// Checks that at least one subscription is defined and that every
    /// subscription has a non-empty id; the first offending subscription
    /// is named.
    pub fn validate(&self) -> (r: Result<(), ConfigError>)
        ensures
            self.subscriptions@.len() == 0 ==> (r matches Err(ConfigError::Validation(m))
                && m@ == no_subscription_message()),
            self.subscriptions@.len() > 0 && first_empty_id(self.subscriptions@) >= 0 ==> (r matches Err(
                ConfigError::Validation(m),
            ) && m@ == empty_id_message(
                self.subscriptions@[first_empty_id(self.subscriptions@)].0@,
            )),
            self.subscriptions@.len() > 0 && first_empty_id(self.subscriptions@) < 0 <==> r is Ok,
    {
        if self.subscriptions.len() == 0 {
            return Err(ConfigError::Validation(owned("at least one subscription must be defined")));
        }
        let mut i: usize = 0;
        while i < self.subscriptions.len()
            invariant
                i <= self.subscriptions@.len(),
                forall|j: int| 0 <= j < i ==> self.subscriptions@[j].1.id@.len() != 0,
            decreases self.subscriptions.len() - i,
        {
            if self.subscriptions[i].1.id.as_str().unicode_len() == 0 {
                proof {
                    let subs = self.subscriptions@;
                    assert(0 <= i < subs.len() && subs[i as int].1.id@.len() == 0);
                    let c = choose|c: int|
                        0 <= c < subs.len() && subs[c].1.id@.len() == 0 && forall|j: int|
                            0 <= j < c ==> subs[j].1.id@.len() != 0;
                    assert(c == i) by {
                        if c < i {
                        } else if c > i {
                            assert(subs[i as int].1.id@.len() == 0);
                        }
                    }
                }
                let m = join(&["subscription '", self.subscriptions[i].0.as_str(), "' has an empty id"]);
                proof {
                    let parts = seq!["subscription '"@, self.subscriptions@[i as int].0@, "' has an empty id"@];
                    reveal_with_fuel(crate::text::concat_all, 4);
                }
                return Err(ConfigError::Validation(m));
            }
            i = i + 1;
        }
        Ok(())
    }
}

impl ConfigError {
    /// The error as text.
    pub fn describe(&self) -> (r: String)
        ensures
            match self {
                ConfigError::Io { path, message } => r@ == "failed to read config file '"@ + path@
                    + "': "@ + message@,
                ConfigError::Parse(m) => r@ == "failed to parse config: "@ + m@,
                ConfigError::Validation(m) => r@ == "invalid config: "@ + m@,
            },
    {
        match self {
            ConfigError::Io { path, message } => {
                let r = join(&["failed to read config file '", path.as_str(), "': ", message.as_str()]);
                proof {
                    reveal_with_fuel(crate::text::concat_all, 5);
                }
                r
            },
            ConfigError::Parse(m) => {
                let r = join(&["failed to parse config: ", m.as_str()]);
                proof {
                    reveal_with_fuel(crate::text::concat_all, 3);
                }
                r
            },
            ConfigError::Validation(m) => {
                let r = join(&["invalid config: ", m.as_str()]);
                proof {
                    reveal_with_fuel(crate::text::concat_all, 3);
                }
                r
            },
        }
    }
}

} // verus!
