use vstd::prelude::*;
use crate::jsonio::{
    json_int_member, json_parses, json_str_member, json_wellformed, root_int_member,
    root_str_member, RawInt, RawStr,
};
use crate::mailapi::{mailbox_accepted, mailbox_ok};

verus! {

/// The configuration fields, for naming the one a `ConfigError` is about.
#[derive(Clone, Copy, PartialEq, Eq, Structural, Debug)]
pub enum ConfigField {
    ApiKey,
    ApiSecret,
    User,
    OutputDir,
    Days,
    Notify,
}

/// Why a configuration text was rejected.
#[derive(Clone, Copy, PartialEq, Eq, Structural, Debug)]
pub enum ConfigError {
    /// The text is not well-formed JSON.
    Malformed,
    /// A required member is not there.
    Missing(ConfigField),
    /// A member is there but its value is unusable: not a string where a
    /// string is needed, not an integer or a negative integer for `days`,
    /// or an address lettre does not accept for `notify`.
    Invalid(ConfigField),
}

/// One run's configuration.
#[derive(Debug)]
pub struct Config {
    /// Credential identifier for the remote API.
    pub api_key: String,
    /// Credential secret for the remote API.
    pub api_secret: String,
    /// Whose recordings to collect (an email identifier).
    pub user: String,
    /// Root directory the artifacts go under.
    pub output_dir: String,
    /// How many days back to include; never negative.
    pub days: i64,
    /// Where to send the summary, if anywhere.
    pub notify: Option<String>,
}

/// The lookback window applied when the configuration does not set one.
pub fn default_days() -> (r: i64)
    ensures
        r == 1,
{
    1
}

pub open spec fn str_field_error(v: RawStr, f: ConfigField) -> Option<ConfigError> {
    match v {
        RawStr::Absent => Some(ConfigError::Missing(f)),
        RawStr::NotAString => Some(ConfigError::Invalid(f)),
        RawStr::Val(_) => None,
    }
}

pub open spec fn days_error(v: RawInt) -> Option<ConfigError> {
    match v {
        RawInt::Absent => None,
        RawInt::NotAnInt => Some(ConfigError::Invalid(ConfigField::Days)),
        RawInt::Val(d) => if d < 0 {
            Some(ConfigError::Invalid(ConfigField::Days))
        } else {
            None
        },
    }
}

pub open spec fn notify_error(v: RawStr, mailbox_fine: bool) -> Option<ConfigError> {
    match v {
        RawStr::Absent => None,
        RawStr::NotAString => Some(ConfigError::Invalid(ConfigField::Notify)),
        RawStr::Val(_) => if mailbox_fine {
            None
        } else {
            Some(ConfigError::Invalid(ConfigField::Notify))
        },
    }
}

/// The first problem among the extracted members, checked in a fixed
/// order: the four required strings, then `days`, then `notify`.
pub open spec fn config_error_spec(
    api_key: RawStr,
    api_secret: RawStr,
    user: RawStr,
    output_dir: RawStr,
    days: RawInt,
    notify: RawStr,
    mailbox_fine: bool,
) -> Option<ConfigError> {
    if str_field_error(api_key, ConfigField::ApiKey) is Some {
        str_field_error(api_key, ConfigField::ApiKey)
    } else if str_field_error(api_secret, ConfigField::ApiSecret) is Some {
        str_field_error(api_secret, ConfigField::ApiSecret)
    } else if str_field_error(user, ConfigField::User) is Some {
        str_field_error(user, ConfigField::User)
    } else if str_field_error(output_dir, ConfigField::OutputDir) is Some {
        str_field_error(output_dir, ConfigField::OutputDir)
    } else if days_error(days) is Some {
        days_error(days)
    } else {
        notify_error(notify, mailbox_fine)
    }
}

/// The lookback window a configuration stands for: the given value, or one
/// day when the member is absent.
pub open spec fn days_value(v: RawInt) -> i64 {
    match v {
        RawInt::Val(d) => d,
        _ => 1,
    }
}

pub open spec fn notify_value(v: RawStr) -> Option<String> {
    match v {
        RawStr::Val(s) => Some(s),
        _ => None,
    }
}

/// Assemble a configuration from its extracted members, rejecting exactly
/// the first problem `config_error_spec` names: a missing or non-string
/// required member, a non-integer or negative `days`, or a `notify` that is
/// not a mailbox; `days` falls back to one day when absent.
pub fn validate_config(
    api_key: RawStr,
    api_secret: RawStr,
    user: RawStr,
    output_dir: RawStr,
    days: RawInt,
    notify: RawStr,
    mailbox_fine: bool,
) -> (r: Result<Config, ConfigError>)
    ensures
        r is Err <==> config_error_spec(
            api_key,
            api_secret,
            user,
            output_dir,
            days,
            notify,
            mailbox_fine,
        ) is Some,
        r is Err ==> Some(r->Err_0) == config_error_spec(
            api_key,
            api_secret,
            user,
            output_dir,
            days,
            notify,
            mailbox_fine,
        ),
        r matches Ok(c) ==> {
            &&& api_key matches RawStr::Val(s) && c.api_key == s
            &&& api_secret matches RawStr::Val(s) && c.api_secret == s
            &&& user matches RawStr::Val(s) && c.user == s
            &&& output_dir matches RawStr::Val(s) && c.output_dir == s
            &&& c.days == days_value(days)
            &&& c.days >= 0
            &&& c.notify == notify_value(notify)
        },
{
    let api_key = match api_key {
        RawStr::Absent => return Err(ConfigError::Missing(ConfigField::ApiKey)),
        RawStr::NotAString => return Err(ConfigError::Invalid(ConfigField::ApiKey)),
        RawStr::Val(s) => s,
    };
    let api_secret = match api_secret {
        RawStr::Absent => return Err(ConfigError::Missing(ConfigField::ApiSecret)),
        RawStr::NotAString => return Err(ConfigError::Invalid(ConfigField::ApiSecret)),
        RawStr::Val(s) => s,
    };
    let user = match user {
        RawStr::Absent => return Err(ConfigError::Missing(ConfigField::User)),
        RawStr::NotAString => return Err(ConfigError::Invalid(ConfigField::User)),
        RawStr::Val(s) => s,
    };
    let output_dir = match output_dir {
        RawStr::Absent => return Err(ConfigError::Missing(ConfigField::OutputDir)),
        RawStr::NotAString => return Err(ConfigError::Invalid(ConfigField::OutputDir)),
        RawStr::Val(s) => s,
    };
    let days = match days {
        RawInt::Absent => default_days(),
        RawInt::NotAnInt => return Err(ConfigError::Invalid(ConfigField::Days)),
        RawInt::Val(d) => {
            if d < 0 {
                return Err(ConfigError::Invalid(ConfigField::Days));
            }
            d
        },
    };
    let notify = match notify {
        RawStr::Absent => None,
        RawStr::NotAString => return Err(ConfigError::Invalid(ConfigField::Notify)),
        RawStr::Val(s) => {
            if !mailbox_fine {
                return Err(ConfigError::Invalid(ConfigField::Notify));
            }
            Some(s)
        },
    };
    Ok(Config { api_key, api_secret, user, output_dir, days, notify })
}

/// Swap a configuration's credential fields, which in the store-backed
/// deployment name entries of a secret store, for the secrets the store
/// resolved them to. A credential the store did not know is reported as
/// missing, in field order.
pub fn resolve_credentials(config: Config, api_key: Option<String>, api_secret: Option<String>) -> (r:
    Result<Config, ConfigError>)
    ensures
        r is Ok <==> (api_key is Some && api_secret is Some),
        r matches Ok(c) ==> {
            &&& api_key matches Some(k) && c.api_key == k
            &&& api_secret matches Some(s) && c.api_secret == s
            &&& c.user == config.user
            &&& c.output_dir == config.output_dir
            &&& c.days == config.days
            &&& c.notify == config.notify
        },
        r is Err ==> r->Err_0 == (if api_key is None {
            ConfigError::Missing(ConfigField::ApiKey)
        } else {
            ConfigError::Missing(ConfigField::ApiSecret)
        }),
{
    let api_key = match api_key {
        None => return Err(ConfigError::Missing(ConfigField::ApiKey)),
        Some(k) => k,
    };
    let api_secret = match api_secret {
        None => return Err(ConfigError::Missing(ConfigField::ApiSecret)),
        Some(s) => s,
    };
    Ok(Config { api_key, api_secret, ..config })
}

/// Whether the configuration text's `notify` member is a string lettre
/// accepts as a mailbox.
pub open spec fn notify_fine_spec(s: Seq<char>) -> bool {
    json_str_member(s, "notify"@) matches RawStr::Val(a) && mailbox_accepted(a@)
}

/// The first problem with a well-formed configuration text, over its
/// extracted members.
pub open spec fn read_error_spec(s: Seq<char>) -> Option<ConfigError> {
    config_error_spec(
        json_str_member(s, "api_key"@),
        json_str_member(s, "api_secret"@),
        json_str_member(s, "user"@),
        json_str_member(s, "output_dir"@),
        json_int_member(s, "days"@),
        json_str_member(s, "notify"@),
        notify_fine_spec(s),
    )
}

/// Parse a configuration text. Text that is not well-formed JSON is
/// `Malformed`; a well-formed text is rejected exactly when
/// `read_error_spec` names a problem with its members, and otherwise yields
/// the configuration those members spell out, with `days` defaulting to one
/// day and `notify` only kept when lettre accepts it.
pub fn read_config(s: &str) -> (r: Result<Config, ConfigError>)
    ensures
        r is Ok <==> (json_parses(s@) && read_error_spec(s@) is None),
        (r is Err && r->Err_0 == ConfigError::Malformed) <==> !json_parses(s@),
        (r is Err && json_parses(s@)) ==> Some(r->Err_0) == read_error_spec(s@),
        r matches Ok(c) ==> {
            &&& json_str_member(s@, "api_key"@) matches RawStr::Val(k) && c.api_key == k
            &&& json_str_member(s@, "api_secret"@) matches RawStr::Val(k2) && c.api_secret == k2
            &&& json_str_member(s@, "user"@) matches RawStr::Val(u) && c.user == u
            &&& json_str_member(s@, "output_dir"@) matches RawStr::Val(o) && c.output_dir == o
            &&& c.days == days_value(json_int_member(s@, "days"@))
            &&& c.days >= 0
            &&& c.notify == notify_value(json_str_member(s@, "notify"@))
            &&& (c.notify matches Some(a) ==> mailbox_accepted(a@))
        },
{
    if !json_wellformed(s) {
        return Err(ConfigError::Malformed);
    }
    let api_key = root_str_member(s, "api_key");
    let api_secret = root_str_member(s, "api_secret");
    let user = root_str_member(s, "user");
    let output_dir = root_str_member(s, "output_dir");
    let days = root_int_member(s, "days");
    let notify = root_str_member(s, "notify");
    let mailbox_fine = match &notify {
        RawStr::Val(a) => mailbox_ok(a.as_str()),
        _ => false,
    };
    proof {
        assert(mailbox_fine == notify_fine_spec(s@));
    }
    let r = validate_config(api_key, api_secret, user, output_dir, days, notify, mailbox_fine);
    proof {
        if r is Err {
            assert(r->Err_0 != ConfigError::Malformed);
        }
    }
    r
}

} // verus!
