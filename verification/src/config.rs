//! The settings of the service, resolved once at startup.

use crate::template::{compiled, Template};
use vstd::prelude::*;
use vstd::string::*;

verus! {

/// How the address of a caller is found in its request.
#[derive(Debug, Clone, PartialEq, Eq)]
pub enum IpResolvMethod {
    /// The value of the header of this name is the address.
    Header(String),
    /// The query parameters `domain` and `myip` are required, and `myip` is
    /// the address.
    DynDns2,
}

/// A resolution method, with the header name as a sequence of characters.
pub enum IpResolvView {
    Header(Seq<char>),
    DynDns2,
}

impl View for IpResolvMethod {
    type V = IpResolvView;

    open spec fn view(&self) -> IpResolvView {
        match self {
            IpResolvMethod::Header(name) => IpResolvView::Header(name@),
            IpResolvMethod::DynDns2 => IpResolvView::DynDns2,
        }
    }
}

/// Where the settings are read from.
#[derive(Debug, Clone, PartialEq, Eq)]
pub enum ConfigSource {
    /// The process environment.
    Env,
    /// The file at this path.
    File(String),
}

/// Why the settings could not be resolved.
#[derive(Debug, Clone, Copy, PartialEq, Eq, Structural)]
pub enum ConfigError {
    /// The header method is selected and no header name is set.
    IpHeaderNotSet,
    /// The selected resolution method is neither `DynDns2` nor `Header`.
    UnknownIpResolv,
}

/// The settings as they are written down, before they are resolved.
#[derive(Debug, Clone)]
pub struct RawConfig {
    pub from_addr: String,
    pub to_addr: String,
    pub smtp_host: String,
    pub smtp_username: String,
    pub smtp_password: String,
    pub pgp_key: String,
    pub domain: String,
    pub hetzner_user: String,
    pub server_addr: String,
    pub http_auth_user: String,
    pub http_auth_password: String,
    pub ip_resolv_method: String,
    pub ip_header: Option<String>,
    /// The path of the file that holds the template text.
    pub template: String,
}

/// The resolved settings.
#[derive(Debug, Clone)]
pub struct Config {
    pub from_addr: String,
    pub to_addr: String,
    pub smtp_host: String,
    pub smtp_username: String,
    pub smtp_password: String,
    pub pgp_key: String,
    pub domain: String,
    pub hetzner_user: String,
    pub server_addr: String,
    pub http_auth_user: String,
    pub http_auth_password: String,
    pub ip_resolv: IpResolvMethod,
    pub template: Template,
}

/// The resolution method that a method name and an optional header name
/// select.
pub open spec fn ip_resolv_of(method: Seq<char>, header: Option<Seq<char>>) -> Result<
    IpResolvView,
    ConfigError,
> {
    if method == "DynDns2"@ {
        Ok(IpResolvView::DynDns2)
    } else if method == "Header"@ {
        match header {
            Some(name) => Ok(IpResolvView::Header(name)),
            None => Err(ConfigError::IpHeaderNotSet),
        }
    } else {
        Err(ConfigError::UnknownIpResolv)
    }
}

/// The view of a header name that may be missing.
pub open spec fn header_view(header: Option<String>) -> Option<Seq<char>> {
    match header {
        Some(name) => Some(name@),
        None => None,
    }
}

/// Whether `config` holds the values of `raw`, each under its own name.
pub open spec fn same_values(raw: RawConfig, config: Config) -> bool {
    &&& config.from_addr@ == raw.from_addr@
    &&& config.to_addr@ == raw.to_addr@
    &&& config.smtp_host@ == raw.smtp_host@
    &&& config.smtp_username@ == raw.smtp_username@
    &&& config.smtp_password@ == raw.smtp_password@
    &&& config.pgp_key@ == raw.pgp_key@
    &&& config.domain@ == raw.domain@
    &&& config.hetzner_user@ == raw.hetzner_user@
    &&& config.server_addr@ == raw.server_addr@
    &&& config.http_auth_user@ == raw.http_auth_user@
    &&& config.http_auth_password@ == raw.http_auth_password@
}

impl RawConfig {
    /// The resolution method that the settings select: `DynDns2`, or
    /// `Header` together with a header name.
    pub fn get_ip_resolv(&self) -> (result: Result<IpResolvMethod, ConfigError>)
        ensures
            match ip_resolv_of(self.ip_resolv_method@, header_view(self.ip_header)) {
                Ok(method) => result matches Ok(found) && found@ == method,
                Err(error) => result == Err::<IpResolvMethod, ConfigError>(error),
            },
    {
        let dyndns2 = "DynDns2".to_owned();
        let header = "Header".to_owned();
        let method = self.ip_resolv_method.clone();
        if method == dyndns2 {
            Ok(IpResolvMethod::DynDns2)
        } else if method == header {
            match &self.ip_header {
                Some(name) => Ok(IpResolvMethod::Header(name.clone())),
                None => Err(ConfigError::IpHeaderNotSet),
            }
        } else {
            Err(ConfigError::UnknownIpResolv)
        }
    }
}

impl Config {
    /// Resolves the settings: compiles the template text and selects the
    /// resolution method. Fails exactly where no method is selected.
    pub fn from_raw(raw: RawConfig, template_text: &str) -> (result: Result<Config, ConfigError>)
        ensures
            match ip_resolv_of(raw.ip_resolv_method@, header_view(raw.ip_header)) {
                Ok(method) => {
                    &&& result matches Ok(config)
                    &&& config.ip_resolv@ == method
                    &&& config.template@ == compiled(template_text@)
                    &&& same_values(raw, config)
                },
                Err(error) => result matches Err(found) && found == error,
            },
    {
        let template = Template::from_str(template_text);
        match raw.get_ip_resolv() {
            Ok(ip_resolv) => Ok(
                Config {
                    from_addr: raw.from_addr,
                    to_addr: raw.to_addr,
                    smtp_host: raw.smtp_host,
                    smtp_username: raw.smtp_username,
                    smtp_password: raw.smtp_password,
                    pgp_key: raw.pgp_key,
                    domain: raw.domain,
                    hetzner_user: raw.hetzner_user,
                    server_addr: raw.server_addr,
                    http_auth_user: raw.http_auth_user,
                    http_auth_password: raw.http_auth_password,
                    ip_resolv,
                    template,
                },
            ),
            Err(error) => Err(error),
        }
    }
}

} // verus!
