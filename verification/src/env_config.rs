//! The adapter settings: base URL and API key, read through an
//! environment-variable port so that the reading itself stays outside the
//! library.

use vstd::prelude::*;

verus! {

/// Variable naming the remote system's API key.
pub const API_KEY_ENV: &'static str = "GALAXY_ADMIN_API_KEY";

/// Variable naming the remote system's host.
pub const GALAXY_HOSTNAME_ENV: &'static str = "GALAXY_HOSTNAME";

/// Where environment variables come from; implemented by the process
/// environment outside the library, and by test doubles.
pub trait EnvVarProvider {
    /// The variable's value, or a message when it cannot be read.
    fn get(&self, key: &str) -> Result<String, String>;

    /// Sets the variable.
    fn set(&mut self, key: &str, value: &str);

    /// Unsets the variable.
    fn remove(&mut self, key: &str);
}

/// Accepts a fetched value exactly when it is non-empty, handing it back
/// unchanged; an empty value is reported as unset, naming the variable.
pub fn require_env_value(name: &str, value: String) -> (r: Result<String, String>)
    ensures
        r is Ok <==> value@.len() > 0,
        r is Ok ==> r->Ok_0 == value,
        r is Err ==> r->Err_0@ == name@ + " not set"@,
{
    if value.as_str().is_empty() {
        Err(name.to_owned().concat(" not set"))
    } else {
        Ok(value)
    }
}

/// A set variable's non-empty value; an unset or empty one is an error
/// naming the variable.  What the provider yields is the provider's own
/// business; the acceptance decision is [`require_env_value`], whose
/// contract is exact.
pub fn get_env_var<P: EnvVarProvider>(name: &str, provider: &P) -> (r: Result<String, String>)
    ensures
        r is Ok ==> r->Ok_0@.len() > 0,
{
    match provider.get(name) {
        Ok(value) => require_env_value(name, value),
        Err(e) => Err(name.to_owned().concat(" not set: ").concat(e.as_str())),
    }
}

/// The API key the adapter must send.
pub fn get_api_key<P: EnvVarProvider>(provider: &P) -> (r: Result<String, String>)
    ensures
        r is Ok ==> r->Ok_0@.len() > 0,
{
    get_env_var(API_KEY_ENV, provider)
}

/// The base URL for a host: `https://` before the host's text.
pub fn prefixed_url(hostname: &str) -> (r: String)
    ensures
        r@ == "https://"@ + hostname@,
{
    String::from_str("https://").concat(hostname)
}

/// The remote system's base URL: `https://` before the configured host.
pub fn get_galaxy_url<P: EnvVarProvider>(provider: &P) -> (r: Result<String, String>)
    ensures
        r is Ok ==> exists|h: Seq<char>|
            #![auto]
            h.len() > 0 && r->Ok_0@ == "https://"@ + h,
{
    let hostname = match get_env_var(GALAXY_HOSTNAME_ENV, provider) {
        Ok(h) => h,
        Err(e) => return Err(e),
    };
    let url = prefixed_url(hostname.as_str());
    proof {
        assert(url@ == "https://"@ + hostname@);
    }
    Ok(url)
}

/// What the HTTP adapter needs to reach the remote system.
#[derive(Debug)]
pub struct Config {
    pub galaxy_url: String,
    pub api_key: String,
}

impl Config {
    /// Reads both settings; fails with the first missing one.
    pub fn new<P: EnvVarProvider>(provider: &P) -> (r: Result<Config, String>)
        ensures
            r is Ok ==> r->Ok_0.api_key@.len() > 0,
            r is Ok ==> exists|h: Seq<char>|
                #![auto]
                h.len() > 0 && r->Ok_0.galaxy_url@ == "https://"@ + h,
    {
        let galaxy_url = match get_galaxy_url(provider) {
            Ok(u) => u,
            Err(e) => return Err(e),
        };
        let api_key = match get_api_key(provider) {
            Ok(k) => k,
            Err(e) => return Err(e),
        };
        Ok(Config { galaxy_url, api_key })
    }
}

} // verus!
