//! Configuration: the API credential and the batch of targets.

use vstd::prelude::*;

use crate::text::{split_commas, split_commas_exec, trim_all, trim_str, trimmed, views_of};

verus! {

/// Command-line surface of the tool: the list of target addresses.
pub struct ShodanCliArgs {
    pub targets: Vec<String>,
}

/// Process-wide configuration, loaded once at startup and immutable
/// thereafter: the credential that authenticates every outbound request
/// and the ordered batch of targets to look up.
#[derive(Clone)]
pub struct Config {
    pub api_key: String,
    pub targets: Vec<String>,
}

/// Startup failure: nothing useful can proceed without a credential.
#[derive(Debug)]
pub enum ConfigError {
    MissingCredential,
}

impl Config {
    /// Assembles a configuration from a credential and a target batch,
    /// keeping both exactly as given: no deduplication, no validation.
    pub fn new(api_key: String, targets: Vec<String>) -> (cfg: Config)
        ensures
            cfg.api_key == api_key,
            cfg.targets == targets,
    {
        Config { api_key, targets }
    }
}

/// Validates the credential read from the process environment: the
/// entry point passes the raw lookup result and converts a
/// `MissingCredential` into a fatal exit. Succeeds exactly when a value
/// was present, and returns that value unchanged.
pub fn load_credential(value: Option<String>) -> (r: Result<String, ConfigError>)
    ensures
        match value {
            Some(key) => r == Ok::<String, ConfigError>(key),
            None => r == Err::<String, ConfigError>(ConfigError::MissingCredential),
        },
{
    match value {
        Some(key) => Ok(key),
        None => Err(ConfigError::MissingCredential),
    }
}

/// The diagnostic printed when the credential is absent; it names the
/// environment variable and the place a key is issued.
pub fn missing_credential_message() -> (r: &'static str)
    ensures
        r@ == missing_credential_text(),
{
    "Please set the SHODAN_API_KEY environment variable to your Shodan API key. You can obtain an API key from your account on the Shodan website (https://account.shodan.io/)."
}

/// The exact text of the missing-credential diagnostic.
pub open spec fn missing_credential_text() -> Seq<char> {
    "Please set the SHODAN_API_KEY environment variable to your Shodan API key. You can obtain an API key from your account on the Shodan website (https://account.shodan.io/)."@
}

/// The missing-credential diagnostic names the environment variable
/// that supplies the credential.
pub proof fn lemma_diagnostic_names_variable()
    ensures
        missing_credential_text().subrange(15, 29) == "SHODAN_API_KEY"@,
{
    reveal_strlit(
        "Please set the SHODAN_API_KEY environment variable to your Shodan API key. You can obtain an API key from your account on the Shodan website (https://account.shodan.io/).",
    );
    reveal_strlit("SHODAN_API_KEY");
    assert(missing_credential_text().subrange(15, 29) =~= "SHODAN_API_KEY"@);
}

/// The target batch a comma-delimited command-line value stands for:
/// its pieces between commas, each trimmed of surrounding whitespace.
pub open spec fn target_list(s: Seq<char>) -> Seq<Seq<char>> {
    trim_all(split_commas(s))
}

/// Splits a comma-delimited command-line value into individual trimmed
/// targets: no deduplication, no format validation.
pub fn parse_targets(s: &str) -> (r: Vec<String>)
    ensures
        views_of(r@) == target_list(s@),
{
    let pieces = split_commas_exec(s);
    let mut r: Vec<String> = Vec::new();
    let mut i: usize = 0;
    while i < pieces.len()
        invariant
            0 <= i <= pieces@.len(),
            views_of(pieces@) == split_commas(s@),
            views_of(r@) == trim_all(views_of(pieces@).take(i as int)),
        decreases pieces@.len() - i,
    {
        let ghost r0 = r@;
        let ghost ps = views_of(pieces@);
        let t = trim_str(pieces[i].as_str());
        proof {
            assert(pieces@[i as int]@ == ps[i as int]);
            assert(t@ == trimmed(ps[i as int]));
        }
        r.push(t);
        proof {
            assert(views_of(r@) =~~= views_of(r0).push(t@));
            assert forall|k: int| 0 <= k < i + 1 implies #[trigger] trim_all(ps.take(i + 1))[k]
                == views_of(r@)[k] by {
                assert(trim_all(ps.take(i + 1))[k] == trimmed(ps[k]));
                if k < i {
                    assert(views_of(r@)[k] == views_of(r0)[k]);
                    assert(views_of(r0)[k] == trim_all(ps.take(i as int))[k]);
                    assert(trim_all(ps.take(i as int))[k] == trimmed(ps[k]));
                }
            }
            assert(views_of(r@) =~~= trim_all(ps.take(i + 1)));
        }
        i = i + 1;
    }
    proof {
        assert(views_of(pieces@).take(pieces@.len() as int) =~= views_of(pieces@));
        assert(views_of(r@) =~~= target_list(s@));
    }
    r
}

} // verus!
