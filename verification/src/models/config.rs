//! Host, authentication, UI and refresh configuration.

use std::str::FromStr;

use vstd::prelude::*;

use crate::encoding::{url_encode, url_encoded};
use crate::models::saved_query::StreamSource;
use crate::text::{concat2, concat3, str_eq, trim, trim_seq};

verus! {

#[derive(Clone, Copy, Debug, PartialEq, Eq, Structural)]
pub enum HostKind {
    GitHub,
    Ghes,
}

/// The name of a host kind as configuration files and fingerprints write it.
pub open spec fn host_kind_name(kind: HostKind) -> Seq<char> {
    match kind {
        HostKind::GitHub => "github"@,
        HostKind::Ghes => "ghes"@,
    }
}

/// The GraphQL endpoint path of a host kind.
pub open spec fn graphql_path_of(kind: HostKind) -> Seq<char> {
    match kind {
        HostKind::GitHub => "/graphql"@,
        HostKind::Ghes => "/api/graphql"@,
    }
}

impl HostKind {
    pub fn graphql_path(&self) -> (r: &'static str)
        ensures
            r@ == graphql_path_of(*self),
    {
        match self {
            HostKind::GitHub => "/graphql",
            HostKind::Ghes => "/api/graphql",
        }
    }

    /// The text that `Display` shows for this kind.
    pub fn as_str(&self) -> (r: &'static str)
        ensures
            r@ == host_kind_name(*self),
    {
        match self {
            HostKind::GitHub => "github",
            HostKind::Ghes => "ghes",
        }
    }
}

#[derive(Clone, Copy, Debug, PartialEq, Eq, Structural)]
pub enum Scheme {
    Http,
    Https,
}

pub open spec fn scheme_name(scheme: Scheme) -> Seq<char> {
    match scheme {
        Scheme::Http => "http"@,
        Scheme::Https => "https"@,
    }
}

impl Scheme {
    /// The text that `Display` shows for this scheme.
    pub fn as_str(&self) -> (r: &'static str)
        ensures
            r@ == scheme_name(*self),
    {
        match self {
            Scheme::Http => "http",
            Scheme::Https => "https",
        }
    }
}

#[derive(Clone, Copy, Debug, PartialEq, Eq, Structural)]
pub enum Theme {
    Light,
    Dark,
    System,
}

pub open spec fn theme_label(theme: Theme) -> Seq<char> {
    match theme {
        Theme::Light => "Light"@,
        Theme::Dark => "Dark"@,
        Theme::System => "System"@,
    }
}

impl Theme {
    pub fn label(self) -> (r: &'static str)
        ensures
            r@ == theme_label(self),
    {
        match self {
            Theme::Light => "Light",
            Theme::Dark => "Dark",
            Theme::System => "System",
        }
    }
}

#[derive(Clone, Copy, Debug, PartialEq, Eq, Structural)]
pub enum SortOrder {
    UpdatedDesc,
    UpdatedAsc,
    CreatedDesc,
    ReadDesc,
    ClosedDesc,
    MergedDesc,
}

pub open spec fn sort_db_value(sort: SortOrder) -> Seq<char> {
    match sort {
        SortOrder::UpdatedDesc => "updated_desc"@,
        SortOrder::UpdatedAsc => "updated_asc"@,
        SortOrder::CreatedDesc => "created_desc"@,
        SortOrder::ReadDesc => "read_desc"@,
        SortOrder::ClosedDesc => "closed_desc"@,
        SortOrder::MergedDesc => "merged_desc"@,
    }
}

pub open spec fn sort_label(sort: SortOrder) -> Seq<char> {
    match sort {
        SortOrder::UpdatedDesc => "Updated at"@,
        SortOrder::UpdatedAsc => "Updated at, oldest first"@,
        SortOrder::CreatedDesc => "Created at"@,
        SortOrder::ReadDesc => "Read at"@,
        SortOrder::ClosedDesc => "Closed at"@,
        SortOrder::MergedDesc => "Merged at"@,
    }
}

/// The stored names a sort order is read back from: its own name, and the
/// names of the orders it replaced (`created_asc`, `comments_desc`,
/// `comments_asc`).
pub open spec fn sort_from_db_value(value: Seq<char>) -> Option<SortOrder> {
    if value == "updated_desc"@ || value == "comments_desc"@ || value == "comments_asc"@ {
        Some(SortOrder::UpdatedDesc)
    } else if value == "updated_asc"@ {
        Some(SortOrder::UpdatedAsc)
    } else if value == "created_desc"@ || value == "created_asc"@ {
        Some(SortOrder::CreatedDesc)
    } else if value == "read_desc"@ {
        Some(SortOrder::ReadDesc)
    } else if value == "closed_desc"@ {
        Some(SortOrder::ClosedDesc)
    } else if value == "merged_desc"@ {
        Some(SortOrder::MergedDesc)
    } else {
        None
    }
}

impl SortOrder {
    pub fn as_db_value(self) -> (r: &'static str)
        ensures
            r@ == sort_db_value(self),
    {
        match self {
            SortOrder::UpdatedDesc => "updated_desc",
            SortOrder::UpdatedAsc => "updated_asc",
            SortOrder::CreatedDesc => "created_desc",
            SortOrder::ReadDesc => "read_desc",
            SortOrder::ClosedDesc => "closed_desc",
            SortOrder::MergedDesc => "merged_desc",
        }
    }

    pub fn label(self) -> (r: &'static str)
        ensures
            r@ == sort_label(self),
    {
        match self {
            SortOrder::UpdatedDesc => "Updated at",
            SortOrder::UpdatedAsc => "Updated at, oldest first",
            SortOrder::CreatedDesc => "Created at",
            SortOrder::ReadDesc => "Read at",
            SortOrder::ClosedDesc => "Closed at",
            SortOrder::MergedDesc => "Merged at",
        }
    }

    /// Reads a stored sort order name.
    pub fn from_db_value(value: &str) -> (r: Option<SortOrder>)
        ensures
            r == sort_from_db_value(value@),
    {
        if str_eq(value, "updated_desc") || str_eq(value, "comments_desc") || str_eq(
            value,
            "comments_asc",
        ) {
            Some(SortOrder::UpdatedDesc)
        } else if str_eq(value, "updated_asc") {
            Some(SortOrder::UpdatedAsc)
        } else if str_eq(value, "created_desc") || str_eq(value, "created_asc") {
            Some(SortOrder::CreatedDesc)
        } else if str_eq(value, "read_desc") {
            Some(SortOrder::ReadDesc)
        } else if str_eq(value, "closed_desc") {
            Some(SortOrder::ClosedDesc)
        } else if str_eq(value, "merged_desc") {
            Some(SortOrder::MergedDesc)
        } else {
            None
        }
    }
}

impl FromStr for SortOrder {
    type Err = ();

    fn from_str(value: &str) -> (r: Result<Self, Self::Err>)
        ensures
            match sort_from_db_value(value@) {
                Some(sort) => r == Ok::<SortOrder, ()>(sort),
                None => r is Err,
            },
    {
        match SortOrder::from_db_value(value) {
            Some(sort) => Ok(sort),
            None => Err(()),
        }
    }
}

#[derive(Debug, PartialEq, Eq)]
pub struct HostConfig {
    pub name: String,
    pub scheme: Scheme,
    pub hostname: String,
    pub rest_api_base_path: String,
    pub kind: HostKind,
}

impl Clone for HostConfig {
    fn clone(&self) -> (r: Self)
        ensures
            r == *self,
    {
        HostConfig {
            name: self.name.clone(),
            scheme: self.scheme,
            hostname: self.hostname.clone(),
            rest_api_base_path: self.rest_api_base_path.clone(),
            kind: self.kind,
        }
    }
}

/// `kind|scheme|hostname|rest_api_base_path`.
pub open spec fn fingerprint_of(host: HostConfig) -> Seq<char> {
    host_kind_name(host.kind) + "|"@ + scheme_name(host.scheme) + "|"@ + host.hostname@ + "|"@
        + host.rest_api_base_path@
}

pub open spec fn rest_api_base_url_of(host: HostConfig) -> Seq<char> {
    scheme_name(host.scheme) + "://"@ + host.hostname@ + host.rest_api_base_path@
}

/// GitHub.com always answers GraphQL at `api.github.com`; a GHES host at
/// its own hostname.
pub open spec fn graphql_url_of(host: HostConfig) -> Seq<char> {
    match host.kind {
        HostKind::GitHub => scheme_name(host.scheme) + "://api.github.com/graphql"@,
        HostKind::Ghes => scheme_name(host.scheme) + "://"@ + host.hostname@ + graphql_path_of(
            host.kind,
        ),
    }
}

/// The web (not API) base of a host: `github.com` for GitHub.com.
pub open spec fn web_base_of(host: HostConfig) -> Seq<char> {
    match host.kind {
        HostKind::GitHub => scheme_name(host.scheme) + "://github.com"@,
        HostKind::Ghes => scheme_name(host.scheme) + "://"@ + host.hostname@,
    }
}

pub open spec fn search_type_of(source: StreamSource) -> Seq<char> {
    match source {
        StreamSource::IssueOrPullRequest => "issues"@,
        StreamSource::Discussion => "discussions"@,
        StreamSource::ProjectV2 => "issues"@,
    }
}

/// The web search page for a query: the query is trimmed, then
/// percent-encoded.
pub open spec fn search_url_of(host: HostConfig, source: StreamSource, query: Seq<char>) -> Seq<
    char,
> {
    web_base_of(host) + "/search?q="@ + url_encoded(trim_seq(query)) + "&type="@ + search_type_of(
        source,
    )
}

impl HostConfig {
    pub fn github_default() -> (r: Self)
        ensures
            r.name@ == "GitHub.com"@,
            r.scheme == Scheme::Https,
            r.hostname@ == "api.github.com"@,
            r.rest_api_base_path@ == "/"@,
            r.kind == HostKind::GitHub,
    {
        HostConfig {
            name: "GitHub.com".to_owned(),
            scheme: Scheme::Https,
            hostname: "api.github.com".to_owned(),
            rest_api_base_path: "/".to_owned(),
            kind: HostKind::GitHub,
        }
    }

    pub fn fingerprint(&self) -> (r: String)
        ensures
            r@ == fingerprint_of(*self),
    {
        let mut r = concat3(self.kind.as_str(), "|", self.scheme.as_str());
        r.append("|");
        r.append(self.hostname.as_str());
        r.append("|");
        r.append(self.rest_api_base_path.as_str());
        r
    }

    pub fn rest_api_base_url(&self) -> (r: String)
        ensures
            r@ == rest_api_base_url_of(*self),
    {
        let mut r = concat3(self.scheme.as_str(), "://", self.hostname.as_str());
        r.append(self.rest_api_base_path.as_str());
        r
    }

    pub fn graphql_url(&self) -> (r: String)
        ensures
            r@ == graphql_url_of(*self),
    {
        match self.kind {
            HostKind::GitHub => concat2(self.scheme.as_str(), "://api.github.com/graphql"),
            HostKind::Ghes => {
                let mut r = concat3(self.scheme.as_str(), "://", self.hostname.as_str());
                r.append(self.kind.graphql_path());
                r
            },
        }
    }

    /// The web base of this host.
    pub fn web_base(&self) -> (r: String)
        ensures
            r@ == web_base_of(*self),
    {
        match self.kind {
            HostKind::GitHub => concat2(self.scheme.as_str(), "://github.com"),
            HostKind::Ghes => concat3(self.scheme.as_str(), "://", self.hostname.as_str()),
        }
    }

    pub fn search_url(&self, query: &str) -> (r: String)
        ensures
            r@ == search_url_of(*self, StreamSource::IssueOrPullRequest, query@),
    {
        self.search_url_for(StreamSource::IssueOrPullRequest, query)
    }

    pub fn search_url_for(&self, source: StreamSource, query: &str) -> (r: String)
        ensures
            r@ == search_url_of(*self, source, query@),
    {
        let mut r = self.web_base();
        r.append("/search?q=");
        let trimmed = trim(query);
        let encoded = url_encode(trimmed.as_str());
        r.append(encoded.as_str());
        r.append("&type=");
        let kind = match source {
            StreamSource::IssueOrPullRequest => "issues",
            StreamSource::Discussion => "discussions",
            StreamSource::ProjectV2 => "issues",
        };
        r.append(kind);
        r
    }
}

#[derive(Debug, PartialEq, Eq)]
pub struct AuthConfig {
    pub pat: String,
}

impl Clone for AuthConfig {
    fn clone(&self) -> (r: Self)
        ensures
            r == *self,
    {
        AuthConfig { pat: self.pat.clone() }
    }
}

#[derive(Clone, Copy, Debug, PartialEq, Eq, Structural)]
pub enum FontSize {
    XSmall,
    Small,
    Default,
    Large,
    XLarge,
}

pub open spec fn font_size_label(size: FontSize) -> Seq<char> {
    match size {
        FontSize::XSmall => "X-Small"@,
        FontSize::Small => "Small"@,
        FontSize::Default => "Default"@,
        FontSize::Large => "Large"@,
        FontSize::XLarge => "X-Large"@,
    }
}

impl FontSize {
    pub fn label(self) -> (r: &'static str)
        ensures
            r@ == font_size_label(self),
    {
        match self {
            FontSize::XSmall => "X-Small",
            FontSize::Small => "Small",
            FontSize::Default => "Default",
            FontSize::Large => "Large",
            FontSize::XLarge => "X-Large",
        }
    }
}

#[derive(Debug, PartialEq, Eq)]
pub struct UiConfig {
    pub theme: Theme,
    pub accent_color: String,
    pub default_sort: SortOrder,
    pub font_size: FontSize,
}

impl Clone for UiConfig {
    fn clone(&self) -> (r: Self)
        ensures
            r == *self,
    {
        UiConfig {
            theme: self.theme,
            accent_color: self.accent_color.clone(),
            default_sort: self.default_sort,
            font_size: self.font_size,
        }
    }
}

#[derive(Clone, Debug, PartialEq, Eq)]
pub struct RefreshConfig {
    pub polling_interval_seconds: u32,
}

#[derive(Debug, PartialEq, Eq)]
pub struct AppConfig {
    pub host: HostConfig,
    pub auth: AuthConfig,
    pub ui: UiConfig,
    pub refresh: RefreshConfig,
}

impl Clone for AppConfig {
    fn clone(&self) -> (r: Self)
        ensures
            r == *self,
    {
        AppConfig {
            host: self.host.clone(),
            auth: self.auth.clone(),
            ui: self.ui.clone(),
            refresh: RefreshConfig { polling_interval_seconds: self.refresh.polling_interval_seconds },
        }
    }
}

/// The configuration a first run starts from, for a given token: GitHub.com,
/// system theme, accent `#4F8CC9`, newest updates first, default font size,
/// polling every 180 seconds.
pub open spec fn is_default_config_with_pat(config: AppConfig, pat: Seq<char>) -> bool {
    &&& config.host.name@ == "GitHub.com"@
    &&& config.host.scheme == Scheme::Https
    &&& config.host.hostname@ == "api.github.com"@
    &&& config.host.rest_api_base_path@ == "/"@
    &&& config.host.kind == HostKind::GitHub
    &&& config.auth.pat@ == pat
    &&& config.ui.theme == Theme::System
    &&& config.ui.accent_color@ == "#4F8CC9"@
    &&& config.ui.default_sort == SortOrder::UpdatedDesc
    &&& config.ui.font_size == FontSize::Default
    &&& config.refresh.polling_interval_seconds == 180
}

impl AppConfig {
    pub fn default_with_pat(pat: String) -> (r: Self)
        ensures
            is_default_config_with_pat(r, pat@),
    {
        AppConfig {
            host: HostConfig::github_default(),
            auth: AuthConfig { pat },
            ui: UiConfig {
                theme: Theme::System,
                accent_color: "#4F8CC9".to_owned(),
                default_sort: SortOrder::UpdatedDesc,
                font_size: FontSize::Default,
            },
            refresh: RefreshConfig { polling_interval_seconds: 180 },
        }
    }
}

} // verus!
