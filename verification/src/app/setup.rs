//! The setup form: one GitHub or GHES host and its token.

use vstd::prelude::*;

use crate::config::{config_error, is_normalized_config, validate_config, ConfigError};
use crate::models::config::{
    graphql_url_of, is_default_config_with_pat, rest_api_base_url_of, AppConfig, HostKind, Scheme,
};
use crate::text::concat2;

verus! {

/// What the setup form holds.
#[derive(Debug, PartialEq, Eq)]
pub struct SetupState {
    pub name: String,
    pub scheme: Scheme,
    pub hostname: String,
    pub rest_api_base_path: String,
    pub kind: HostKind,
    pub pat: String,
    pub validation_message: String,
}

impl Default for SetupState {
    /// The form for GitHub.com, without a token.
    fn default() -> (r: Self)
        ensures
            r.name@ == "GitHub.com"@,
            r.scheme == Scheme::Https,
            r.hostname@ == "api.github.com"@,
            r.rest_api_base_path@ == "/"@,
            r.kind == HostKind::GitHub,
            r.pat@ == Seq::<char>::empty(),
            r.validation_message@ == Seq::<char>::empty(),
    {
        let config = AppConfig::default_with_pat(String::new());
        SetupState {
            name: config.host.name,
            scheme: config.host.scheme,
            hostname: config.host.hostname,
            rest_api_base_path: config.host.rest_api_base_path,
            kind: config.host.kind,
            pat: String::new(),
            validation_message: String::new(),
        }
    }
}

/// The form filled in from `config`: its host and token, with no message.
pub open spec fn is_form_of(state: SetupState, config: AppConfig) -> bool {
    &&& state.name == config.host.name
    &&& state.scheme == config.host.scheme
    &&& state.hostname == config.host.hostname
    &&& state.rest_api_base_path == config.host.rest_api_base_path
    &&& state.kind == config.host.kind
    &&& state.pat == config.auth.pat
    &&& state.validation_message@ == Seq::<char>::empty()
}

impl SetupState {
    /// The form filled in from a configuration, to edit it.
    pub fn from_config(config: &AppConfig) -> (r: Self)
        ensures
            is_form_of(r, *config),
    {
        SetupState {
            name: config.host.name.clone(),
            scheme: config.host.scheme,
            hostname: config.host.hostname.clone(),
            rest_api_base_path: config.host.rest_api_base_path.clone(),
            kind: config.host.kind,
            pat: config.auth.pat.clone(),
            validation_message: String::new(),
        }
    }
}

/// `config` is what the form describes: the default configuration for the
/// form's token, with the form's host.
pub open spec fn is_setup_config(config: AppConfig, state: SetupState) -> bool {
    &&& config.host.name@ == state.name@
    &&& config.host.scheme == state.scheme
    &&& config.host.hostname@ == state.hostname@
    &&& config.host.rest_api_base_path@ == state.rest_api_base_path@
    &&& config.host.kind == state.kind
    &&& config.auth.pat@ == state.pat@
    &&& config.ui.theme == crate::models::config::Theme::System
    &&& config.ui.accent_color@ == "#4F8CC9"@
    &&& config.ui.default_sort == crate::models::config::SortOrder::UpdatedDesc
    &&& config.ui.font_size == crate::models::config::FontSize::Default
    &&& config.refresh.polling_interval_seconds == 180
}

/// The configuration the form describes.
pub fn build_config(state: &SetupState) -> (r: AppConfig)
    ensures
        is_setup_config(r, *state),
{
    let mut config = AppConfig::default_with_pat(state.pat.clone());
    config.host.name = state.name.clone();
    config.host.scheme = state.scheme;
    config.host.hostname = state.hostname.clone();
    config.host.rest_api_base_path = state.rest_api_base_path.clone();
    config.host.kind = state.kind;
    config
}

/// What the form says after a check: where a valid configuration's
/// requests go, or why it is invalid.
pub open spec fn check_message(built: AppConfig, checked: AppConfig) -> Seq<char> {
    match config_error(built) {
        None => "Configuration is valid. REST: "@ + rest_api_base_url_of(checked.host)
            + " GraphQL: "@ + graphql_url_of(checked.host),
        Some(m) => "configuration is invalid: "@ + m,
    }
}

/// The form's Test button: checks the configuration and says what came of
/// it.
pub fn test_setup(state: &mut SetupState)
    ensures
        exists|built: AppConfig, checked: AppConfig|
            is_setup_config(built, *old(state)) && (config_error(built) is None ==> is_normalized_config(
                checked,
                built,
            )) && final(state).validation_message@ == check_message(built, checked),
        final(state).name == old(state).name,
        final(state).scheme == old(state).scheme,
        final(state).hostname == old(state).hostname,
        final(state).rest_api_base_path == old(state).rest_api_base_path,
        final(state).kind == old(state).kind,
        final(state).pat == old(state).pat,
{
    let built = build_config(state);
    let ghost built_spec = built;
    match validate_config(built) {
        Ok(config) => {
            let rest = config.host.rest_api_base_url();
            let graphql = config.host.graphql_url();
            let mut message = concat2("Configuration is valid. REST: ", rest.as_str());
            message.append(" GraphQL: ");
            message.append(graphql.as_str());
            state.validation_message = message;
            assert(final(state).validation_message@ == check_message(built_spec, config));
        },
        Err(e) => {
            state.validation_message = e.message();
            assert(final(state).validation_message@ == check_message(built_spec, built_spec));
        },
    }
}

/// The form's Save button: the checked configuration, or `None` with the
/// reason in the form.
pub fn save_setup(state: &mut SetupState) -> (r: Option<AppConfig>)
    ensures
        exists|built: AppConfig|
            is_setup_config(built, *old(state)) && match r {
                Some(c) => config_error(built) is None && is_normalized_config(c, built)
                    && final(state).validation_message == old(state).validation_message,
                None => config_error(built) is Some && final(state).validation_message@
                    == "configuration is invalid: "@ + config_error(built)->0,
            },
        final(state).name == old(state).name,
        final(state).pat == old(state).pat,
        final(state).hostname == old(state).hostname,
{
    let built = build_config(state);
    let ghost built_spec = built;
    match validate_config(built) {
        Ok(config) => Some(config),
        Err(e) => {
            state.validation_message = e.message();
            None
        },
    }
}

} // verus!
