//! Process configuration.

use crate::text::{parse_u32, parse_u64, parse_unsigned};
use vstd::prelude::*;

verus! {

/// Name of the variable that holds the database address.
pub const DB_URL: &'static str = "DATABASE_URL";

/// Name of the variable that holds the number of database connections.
pub const DB_POOL_SIZE: &'static str = "DATABASE_POOL_SIZE";

/// Name of the variable that holds the credential for the remote API.
pub const GITHUB_TOKEN: &'static str = "GITHUB_ACCESS_TOKEN";

/// Name of the variable that holds the user agent for the remote API.
pub const GITHUB_UA: &'static str = "GITHUB_USER_AGENT";

/// Name of the variable that holds the minutes between passes over the
/// repository.
pub const GITHUB_INTERVAL: &'static str = "GITHUB_SCRAPE_INTERVAL";

/// Name of the variable that holds the minutes between passes over the
/// releases.
pub const RELEASES_INTERVAL: &'static str = "RELEASES_SCRAPE_INTERVAL";

/// Name of the variable that holds the minutes between passes over the
/// builds.
pub const BUILDBOT_INTERVAL: &'static str = "BUILDBOT_SCRAPE_INTERVAL";

/// Settings of the service.
#[derive(Debug)]
pub struct Config {
    pub db_url: String,
    pub db_pool_size: u32,
    pub github_access_token: String,
    pub github_user_agent: String,
    pub github_interval_mins: u64,
    pub release_interval_mins: u64,
    pub buildbot_interval_mins: u64,
}

/// The text of each configuration variable, `None` where it is not set.
#[derive(Debug)]
pub struct Variables {
    pub db_url: Option<String>,
    pub db_pool_size: Option<String>,
    pub github_access_token: Option<String>,
    pub github_user_agent: Option<String>,
    pub github_interval: Option<String>,
    pub releases_interval: Option<String>,
    pub buildbot_interval: Option<String>,
}

impl Config {
    /// Whether the three settings without which nothing can run are present.
    pub open spec fn usable(&self) -> bool {
        &&& self.db_url@.len() > 0
        &&& self.github_access_token@.len() > 0
        &&& self.github_user_agent@.len() > 0
    }

    /// True when the database URL, the access token and the user agent are
    /// all non-empty.
    pub fn check(&self) -> (ok: bool)
        ensures
            ok == self.usable(),
    {
        !self.db_url.as_str().is_empty() && !self.github_access_token.as_str().is_empty()
            && !self.github_user_agent.as_str().is_empty()
    }
}

/// The name of a variable if it is not set, nothing otherwise.
pub open spec fn name_if_unset(value: Option<String>, name: &str) -> Seq<Seq<char>> {
    if value is None {
        seq![name@]
    } else {
        Seq::empty()
    }
}

/// Whether `value` is set and spells a number of at most `max`.
pub open spec fn is_number(value: Option<String>, max: nat) -> bool {
    value matches Some(text) && parse_unsigned(text@, max) is Some
}

/// The number that a set variable spells.
pub open spec fn number_of(value: Option<String>, max: nat) -> nat {
    parse_unsigned(value->0@, max)->0
}

impl Variables {
    /// The names of the variables that are not set, in alphabetical order.
    pub open spec fn unset(&self) -> Seq<Seq<char>> {
        name_if_unset(self.buildbot_interval, BUILDBOT_INTERVAL) + name_if_unset(
            self.db_pool_size,
            DB_POOL_SIZE,
        ) + name_if_unset(self.db_url, DB_URL) + name_if_unset(
            self.github_access_token,
            GITHUB_TOKEN,
        ) + name_if_unset(self.github_interval, GITHUB_INTERVAL) + name_if_unset(
            self.github_user_agent,
            GITHUB_UA,
        ) + name_if_unset(self.releases_interval, RELEASES_INTERVAL)
    }

    /// The first numeric variable, in the order pool size, repository
    /// interval, releases interval, build interval, that spells no number of
    /// its type; `None` if all four do.
    pub open spec fn first_malformed(&self) -> Option<Seq<char>> {
        if !is_number(self.db_pool_size, u32::MAX as nat) {
            Some(DB_POOL_SIZE@)
        } else if !is_number(self.github_interval, u64::MAX as nat) {
            Some(GITHUB_INTERVAL@)
        } else if !is_number(self.releases_interval, u64::MAX as nat) {
            Some(RELEASES_INTERVAL@)
        } else if !is_number(self.buildbot_interval, u64::MAX as nat) {
            Some(BUILDBOT_INTERVAL@)
        } else {
            None
        }
    }

    /// The variable names that make `init` fail; empty when it succeeds.
    pub open spec fn rejected(&self) -> Seq<Seq<char>> {
        if self.unset().len() > 0 {
            self.unset()
        } else {
            match self.first_malformed() {
                Some(name) => seq![name],
                None => Seq::empty(),
            }
        }
    }
}

/// The texts that a list of names holds.
pub open spec fn names_view(names: Seq<&'static str>) -> Seq<Seq<char>> {
    Seq::new(names.len(), |i: int| names[i]@)
}

fn note_if_unset(value: &Option<String>, name: &'static str, names: &mut Vec<&'static str>)
    ensures
        names_view(final(names)@) == names_view(old(names)@) + name_if_unset(*value, name),
{
    if value.is_none() {
        names.push(name);
        assert(names_view(names@) =~= names_view(old(names)@) + seq![name@]);
    } else {
        assert(names_view(names@) =~= names_view(old(names)@) + Seq::<Seq<char>>::empty());
    }
}

fn only(name: &'static str) -> (names: Vec<&'static str>)
    ensures
        names_view(names@) == seq![name@],
{
    let names = vec![name];
    assert(names_view(names@) =~= seq![name@]);
    names
}

/// Builds the configuration from the text of its variables.
///
/// If any variable is unset the result names all unset variables, in
/// alphabetical order.  Otherwise the numeric variables are read in the
/// order pool size, repository interval, releases interval, build interval,
/// and the result names the first that is malformed.
pub fn init(vars: Variables) -> (r: Result<Config, Vec<&'static str>>)
    ensures
        r is Ok <==> vars.rejected().len() == 0,
        r matches Ok(c) ==> {
            &&& c.db_url@ == vars.db_url->0@
            &&& c.db_pool_size == number_of(vars.db_pool_size, u32::MAX as nat)
            &&& c.github_access_token@ == vars.github_access_token->0@
            &&& c.github_user_agent@ == vars.github_user_agent->0@
            &&& c.github_interval_mins == number_of(vars.github_interval, u64::MAX as nat)
            &&& c.release_interval_mins == number_of(vars.releases_interval, u64::MAX as nat)
            &&& c.buildbot_interval_mins == number_of(vars.buildbot_interval, u64::MAX as nat)
        },
        r matches Err(names) ==> names_view(names@) == vars.rejected(),
{
    let mut unset: Vec<&'static str> = Vec::new();
    assert(names_view(unset@) =~= Seq::<Seq<char>>::empty());
    note_if_unset(&vars.buildbot_interval, BUILDBOT_INTERVAL, &mut unset);
    note_if_unset(&vars.db_pool_size, DB_POOL_SIZE, &mut unset);
    note_if_unset(&vars.db_url, DB_URL, &mut unset);
    note_if_unset(&vars.github_access_token, GITHUB_TOKEN, &mut unset);
    note_if_unset(&vars.github_interval, GITHUB_INTERVAL, &mut unset);
    note_if_unset(&vars.github_user_agent, GITHUB_UA, &mut unset);
    note_if_unset(&vars.releases_interval, RELEASES_INTERVAL, &mut unset);
    assert(names_view(unset@) =~= vars.unset());
    if unset.len() > 0 {
        return Err(unset);
    }
    let Variables {
        db_url,
        db_pool_size,
        github_access_token,
        github_user_agent,
        github_interval,
        releases_interval,
        buildbot_interval,
    } = vars;
    match (
        db_url,
        db_pool_size,
        github_access_token,
        github_user_agent,
        github_interval,
        releases_interval,
        buildbot_interval,
    ) {
        (Some(url), Some(pool), Some(token), Some(agent), Some(gh), Some(rel), Some(bb)) => {
            let db_pool_size = match parse_u32(pool.as_str()) {
                Some(n) => n,
                None => return Err(only(DB_POOL_SIZE)),
            };
            let github_interval_mins = match parse_u64(gh.as_str()) {
                Some(n) => n,
                None => return Err(only(GITHUB_INTERVAL)),
            };
            let release_interval_mins = match parse_u64(rel.as_str()) {
                Some(n) => n,
                None => return Err(only(RELEASES_INTERVAL)),
            };
            let buildbot_interval_mins = match parse_u64(bb.as_str()) {
                Some(n) => n,
                None => return Err(only(BUILDBOT_INTERVAL)),
            };
            Ok(
                Config {
                    db_url: url,
                    db_pool_size,
                    github_access_token: token,
                    github_user_agent: agent,
                    github_interval_mins,
                    release_interval_mins,
                    buildbot_interval_mins,
                },
            )
        },
        _ => {
            assert(false);
            Err(unset)
        },
    }
}

} // verus!
