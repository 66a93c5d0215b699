//! Validation and normalisation of the application configuration.
//!
//! Reading and writing `config.yml` happen around this module; what is
//! decided here is which configurations are accepted, how they are
//! normalised, and which message a rejected one gets.

use vstd::prelude::*;

use crate::models::config::{AppConfig, HostConfig, HostKind};
use crate::text::{
    chars_of, concat2, concat3, contains_char, contains_seq, contains_str, is_ascii_hexdigit, str_eq,
    trim, trim_char, trim_char_seq, trim_seq, ascii_hexdigit, lemma_trim_idempotent,
    lemma_trim_char_edges, lemma_trim_char_wrapped, lemma_trim_fixed, strip_start_char,
};

verus! {

/// Why a configuration could not be used.
#[derive(Debug)]
pub enum ConfigError {
    /// The file could not be read; the text is the I/O error's, and
    /// `not_found` says whether the file does not exist.
    Read { message: String, not_found: bool },
    /// The file is not valid YAML; the text is the parser's.
    Parse(String),
    /// The configuration breaks a rule; the text says which.
    Validation(String),
}

pub open spec fn config_error_message(e: ConfigError) -> Seq<char> {
    match e {
        ConfigError::Read { message, .. } => "configuration file could not be read: "@ + message@,
        ConfigError::Parse(m) => "configuration file is not valid YAML: "@ + m@,
        ConfigError::Validation(m) => "configuration is invalid: "@ + m@,
    }
}

impl ConfigError {
    /// The text that `Display` shows for this error.
    pub fn message(&self) -> (r: String)
        ensures
            r@ == config_error_message(*self),
    {
        match self {
            ConfigError::Read { message, .. } => concat2(
                "configuration file could not be read: ",
                message.as_str(),
            ),
            ConfigError::Parse(m) => concat2("configuration file is not valid YAML: ", m.as_str()),
            ConfigError::Validation(m) => concat2("configuration is invalid: ", m.as_str()),
        }
    }
}

/// The message of a rejected hostname.
pub open spec fn hostname_message() -> Seq<char> {
    "host.hostname must be a hostname without scheme, path, query, fragment, username, password, or port"@
}

/// A required text that is empty once trimmed is rejected.
pub open spec fn required_error(path: Seq<char>, value: Seq<char>) -> Option<Seq<char>> {
    if trim_seq(value).len() == 0 {
        Some(path + " must not be empty"@)
    } else {
        None
    }
}

/// A hostname may not carry a scheme, path, query, fragment, user or port.
pub open spec fn has_forbidden_hostname_part(t: Seq<char>) -> bool {
    ||| contains_seq(t, "://"@)
    ||| t.contains('/')
    ||| t.contains('?')
    ||| t.contains('#')
    ||| t.contains('@')
    ||| t.contains(':')
}

pub open spec fn hostname_error(value: Seq<char>) -> Option<Seq<char>> {
    match required_error("host.hostname"@, value) {
        Some(e) => Some(e),
        None => if has_forbidden_hostname_part(trim_seq(value)) {
            Some(hostname_message())
        } else {
            None
        },
    }
}

/// A host name that carries a scheme, path, query, fragment, user or port
/// is refused with the host name message, once the host has a name.
pub proof fn lemma_hostname_parts_refused(config: AppConfig)
    requires
        trim_seq(config.host.name@).len() > 0,
        ({
            let t = trim_seq(config.host.hostname@);
            ||| t.contains(':')
            ||| t.contains('/')
            ||| t.contains('?')
            ||| t.contains('#')
            ||| t.contains('@')
        }),
    ensures
        config_error(config) == Some(hostname_message()),
        host_error(config.host) == Some(hostname_message()),
{
}

pub open spec fn rest_path_error(value: Seq<char>) -> Option<Seq<char>> {
    if trim_seq(value).len() == 0 {
        Some("host.rest_api_base_path must not be empty"@)
    } else {
        None
    }
}

/// A REST base path is trimmed, stripped of slashes at both ends, and
/// written back between two slashes (`/` when nothing is left).
pub open spec fn normalized_rest_path(value: Seq<char>) -> Seq<char> {
    let inner = trim_char_seq(trim_seq(value), '/');
    if inner.len() == 0 {
        "/"@
    } else {
        "/"@ + inner + "/"@
    }
}

/// The first rule a host configuration breaks, in the order the checks run.
pub open spec fn host_error(host: HostConfig) -> Option<Seq<char>> {
    match required_error("host.name"@, host.name@) {
        Some(e) => Some(e),
        None => match hostname_error(host.hostname@) {
            Some(e) => Some(e),
            None => match rest_path_error(host.rest_api_base_path@) {
                Some(e) => Some(e),
                None => if host.kind == HostKind::GitHub && trim_seq(host.hostname@)
                    != "api.github.com"@ {
                    Some("host.kind github requires host.hostname api.github.com"@)
                } else {
                    None
                },
            },
        },
    }
}

/// `normalized` is `host` with its texts normalised.
pub open spec fn is_normalized_host(normalized: HostConfig, host: HostConfig) -> bool {
    &&& normalized.name@ == trim_seq(host.name@)
    &&& normalized.hostname@ == trim_seq(host.hostname@)
    &&& normalized.rest_api_base_path@ == normalized_rest_path(host.rest_api_base_path@)
    &&& normalized.scheme == host.scheme
    &&& normalized.kind == host.kind
}

/// `#RRGGBB`: seven characters, `#` then six ASCII hex digits. (Over UTF-8
/// bytes this is the same test: a non-ASCII character is no hex digit.)
pub open spec fn is_hex_color_spec(value: Seq<char>) -> bool {
    &&& value.len() == 7
    &&& value[0] == '#'
    &&& forall|k: int| 1 <= k < 7 ==> is_ascii_hexdigit(#[trigger] value[k])
}

/// The first rule a whole configuration breaks.
pub open spec fn config_error(config: AppConfig) -> Option<Seq<char>> {
    match host_error(config.host) {
        Some(e) => Some(e),
        None => match required_error("auth.pat"@, config.auth.pat@) {
            Some(e) => Some(e),
            None => if !is_hex_color_spec(config.ui.accent_color@) {
                Some("ui.accent_color must be a #RRGGBB hex color"@)
            } else if !(15 <= config.refresh.polling_interval_seconds <= 3600) {
                Some("refresh.polling_interval_seconds must be between 15 and 3600"@)
            } else {
                None
            },
        },
    }
}

/// Past the host, a configuration is refused for an empty token, then for
/// an accent color that is not `#` and six hexadecimal digits, then for a
/// polling interval outside 15 to 3600 seconds; otherwise it is accepted.
pub proof fn lemma_config_rules(config: AppConfig)
    requires
        host_error(config.host) is None,
    ensures
        trim_seq(config.auth.pat@).len() == 0 ==> config_error(config) == Some(
            "auth.pat must not be empty"@,
        ),
        (trim_seq(config.auth.pat@).len() > 0 && !(config.ui.accent_color@.len() == 7
            && config.ui.accent_color@[0] == '#' && forall|k: int|
            1 <= k < 7 ==> is_ascii_hexdigit(#[trigger] config.ui.accent_color@[k]))) ==> config_error(
            config,
        ) == Some("ui.accent_color must be a #RRGGBB hex color"@),
        (trim_seq(config.auth.pat@).len() > 0 && is_hex_color_spec(config.ui.accent_color@) && (
        config.refresh.polling_interval_seconds < 15 || config.refresh.polling_interval_seconds
            > 3600)) ==> config_error(config) == Some(
            "refresh.polling_interval_seconds must be between 15 and 3600"@,
        ),
        (trim_seq(config.auth.pat@).len() > 0 && is_hex_color_spec(config.ui.accent_color@) && 15
            <= config.refresh.polling_interval_seconds <= 3600) ==> config_error(config) is None,
{
    reveal_strlit("auth.pat");
    reveal_strlit(" must not be empty");
    reveal_strlit("auth.pat must not be empty");
    assert("auth.pat"@ + " must not be empty"@ =~= "auth.pat must not be empty"@);
}

/// `normalized` is `config` with its host normalised and its token trimmed.
pub open spec fn is_normalized_config(normalized: AppConfig, config: AppConfig) -> bool {
    &&& is_normalized_host(normalized.host, config.host)
    &&& normalized.auth.pat@ == trim_seq(config.auth.pat@)
    &&& normalized.ui == config.ui
    &&& normalized.refresh == config.refresh
}

/// The trimmed value, or an error naming `path` when nothing is left.
pub fn trim_required(path: &str, value: &str) -> (r: Result<String, ConfigError>)
    ensures
        match r {
            Ok(t) => required_error(path@, value@) is None && t@ == trim_seq(value@),
            Err(ConfigError::Validation(m)) => required_error(path@, value@) == Some(m@),
            Err(_) => false,
        },
{
    let trimmed = trim(value);
    if trimmed.as_str().is_empty() {
        Err(ConfigError::Validation(concat2(path, " must not be empty")))
    } else {
        Ok(trimmed)
    }
}

fn validate_hostname(value: &str) -> (r: Result<String, ConfigError>)
    ensures
        match r {
            Ok(t) => hostname_error(value@) is None && t@ == trim_seq(value@),
            Err(ConfigError::Validation(m)) => hostname_error(value@) == Some(m@),
            Err(_) => false,
        },
{
    let trimmed = trim_required("host.hostname", value)?;
    let t = trimmed.as_str();
    let invalid = contains_str(t, "://") || contains_char(t, '/') || contains_char(t, '?')
        || contains_char(t, '#') || contains_char(t, '@') || contains_char(t, ':');
    if invalid {
        return Err(
            ConfigError::Validation(
                "host.hostname must be a hostname without scheme, path, query, fragment, username, password, or port".to_owned(),
            ),
        );
    }
    Ok(trimmed)
}

fn normalize_rest_api_base_path(value: &str) -> (r: Result<String, ConfigError>)
    ensures
        match r {
            Ok(p) => rest_path_error(value@) is None && p@ == normalized_rest_path(value@),
            Err(ConfigError::Validation(m)) => rest_path_error(value@) == Some(m@),
            Err(_) => false,
        },
{
    let trimmed = trim(value);
    if trimmed.as_str().is_empty() {
        return Err(ConfigError::Validation("host.rest_api_base_path must not be empty".to_owned()));
    }
    let without_edges = trim_char(trimmed.as_str(), '/');
    if without_edges.as_str().is_empty() {
        Ok("/".to_owned())
    } else {
        Ok(concat3("/", without_edges.as_str(), "/"))
    }
}

/// Whether `value` is a `#RRGGBB` colour.
pub fn is_hex_color(value: &str) -> (b: bool)
    ensures
        b == is_hex_color_spec(value@),
{
    let cs = chars_of(value);
    if cs.len() != 7 || cs[0] != '#' {
        return false;
    }
    let mut i: usize = 1;
    while i < 7
        invariant
            cs@ == value@,
            cs.len() == 7,
            1 <= i <= 7,
            forall|k: int| 1 <= k < i ==> is_ascii_hexdigit(#[trigger] cs@[k]),
        decreases 7 - i,
    {
        if !ascii_hexdigit(cs[i]) {
            return false;
        }
        i = i + 1;
    }
    true
}

/// Checks and normalises a host: the name and hostname are trimmed, the
/// hostname must be bare, the REST base path is normalised, and GitHub.com
/// must use `api.github.com`.
pub fn validate_host_config(host: HostConfig) -> (r: Result<HostConfig, ConfigError>)
    ensures
        match r {
            Ok(h) => host_error(host) is None && is_normalized_host(h, host),
            Err(ConfigError::Validation(m)) => host_error(host) == Some(m@),
            Err(_) => false,
        },
{
    let name = trim_required("host.name", host.name.as_str())?;
    let hostname = validate_hostname(host.hostname.as_str())?;
    let rest_api_base_path = normalize_rest_api_base_path(host.rest_api_base_path.as_str())?;
    if host.kind == HostKind::GitHub && !str_eq(hostname.as_str(), "api.github.com") {
        return Err(
            ConfigError::Validation(
                "host.kind github requires host.hostname api.github.com".to_owned(),
            ),
        );
    }
    Ok(HostConfig { name, scheme: host.scheme, hostname, rest_api_base_path, kind: host.kind })
}

/// Checks and normalises a whole configuration.
pub fn validate_config(config: AppConfig) -> (r: Result<AppConfig, ConfigError>)
    ensures
        match r {
            Ok(c) => config_error(config) is None && is_normalized_config(c, config),
            Err(ConfigError::Validation(m)) => config_error(config) == Some(m@),
            Err(_) => false,
        },
{
    let AppConfig { host, auth, ui, refresh } = config;
    let host = validate_host_config(host)?;
    let pat = trim_required("auth.pat", auth.pat.as_str())?;
    if !is_hex_color(ui.accent_color.as_str()) {
        return Err(ConfigError::Validation("ui.accent_color must be a #RRGGBB hex color".to_owned()));
    }
    if !(15 <= refresh.polling_interval_seconds && refresh.polling_interval_seconds <= 3600) {
        return Err(
            ConfigError::Validation(
                "refresh.polling_interval_seconds must be between 15 and 3600".to_owned(),
            ),
        );
    }
    Ok(AppConfig { host, auth: crate::models::config::AuthConfig { pat }, ui, refresh })
}

proof fn lemma_normalized_rest_path_fixed(value: Seq<char>)
    requires
        rest_path_error(value) is None,
    ensures
        rest_path_error(normalized_rest_path(value)) is None,
        normalized_rest_path(normalized_rest_path(value)) == normalized_rest_path(value),
{
    reveal_strlit("/");
    let inner = trim_char_seq(trim_seq(value), '/');
    let p = normalized_rest_path(value);
    lemma_trim_char_edges(trim_seq(value), '/');
    if inner.len() == 0 {
        assert(p =~= seq!['/']);
        lemma_trim_fixed(p);
        assert(p.drop_first().len() == 0);
        assert(strip_start_char(p.drop_first(), '/') == p.drop_first());
        assert(strip_start_char(p, '/') =~= Seq::<char>::empty());
        assert(trim_char_seq(p, '/') =~= Seq::<char>::empty());
    } else {
        assert(p =~= seq!['/'] + inner + seq!['/']);
        assert(p[0] == '/');
        assert(p.last() == '/');
        lemma_trim_fixed(p);
        lemma_trim_char_wrapped(inner, '/');
    }
}

/// Validation is idempotent: a configuration that validation accepted and
/// normalised is accepted again, and normalising it once more changes
/// nothing. (So a configuration that `write_config` stored loads back as
/// the one that was written.)
pub proof fn lemma_validate_config_idempotent(config: AppConfig, normalized: AppConfig)
    requires
        config_error(config) is None,
        is_normalized_config(normalized, config),
    ensures
        config_error(normalized) is None,
        is_normalized_config(normalized, normalized),
{
    lemma_trim_idempotent(config.host.name@);
    lemma_trim_idempotent(config.host.hostname@);
    lemma_trim_idempotent(config.auth.pat@);
    lemma_normalized_rest_path_fixed(config.host.rest_api_base_path@);
}

pub open spec fn redacted(value: Seq<char>) -> Seq<char> {
    if value.len() == 0 {
        "<empty>"@
    } else {
        "<redacted>"@
    }
}

/// What the UI shows in place of a token.
pub fn redact_pat(value: &str) -> (r: String)
    ensures
        r@ == redacted(value@),
{
    if value.is_empty() {
        "<empty>".to_owned()
    } else {
        "<redacted>".to_owned()
    }
}

} // verus!
