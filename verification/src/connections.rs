//! Saved connection profiles. A profile holds everything the form needs
//! except the password, which never leaves the form (it goes, if the user
//! asks, to the system's credential store).
use vstd::prelude::*;
use crate::drivers::{config_label, Config, Driver};
use crate::text::{blank, is_blank};

verus! {

/// A saved connection, as the profiles file holds it.
#[derive(Debug, Clone, PartialEq)]
pub struct ConnectionProfile {
    pub id: u64,
    pub name: String,
    pub driver: Driver,
    pub path: String,
    pub host: String,
    pub port: String,
    pub database: String,
    pub user: String,
    pub tls: bool,
    /// When false, the server's certificate is accepted without checking
    /// it; profiles saved before this setting existed read as `true`.
    pub tls_verify: bool,
}

/// What a profile saved without `tls_verify` reads as: verify.
pub fn default_tls_verify() -> (b: bool)
    ensures
        b,
{
    true
}

/// The profiles file: the next free id and the saved profiles.
#[derive(Debug, Clone)]
pub struct ConnectionsFile {
    pub next_id: u64,
    pub profiles: Vec<ConnectionProfile>,
}

impl Default for ConnectionsFile {
    fn default() -> (f: Self)
        ensures
            f.next_id == 0,
            f.profiles@.len() == 0,
    {
        ConnectionsFile { next_id: 0, profiles: Vec::new() }
    }
}

/// The name a form is saved under: its own, or its label when it has none.
pub open spec fn saved_name(c: Config) -> Seq<char> {
    if blank(c.name@) {
        config_label(c)
    } else {
        c.name@
    }
}

/// `p` is the profile that saving form `c` under `id` gives.
pub open spec fn saved_as(p: ConnectionProfile, id: u64, c: Config) -> bool {
    &&& p.id == id
    &&& p.name@ == saved_name(c)
    &&& p.driver == c.driver
    &&& p.path@ == c.path@
    &&& p.host@ == c.host@
    &&& p.port@ == c.port@
    &&& p.database@ == c.database@
    &&& p.user@ == c.user@
    &&& p.tls == c.tls
    &&& p.tls_verify == c.tls_verify
}

/// `c` is the form that opening profile `p` gives: its settings, an empty
/// password, and the password remembered by default.
pub open spec fn loaded_from(c: Config, p: ConnectionProfile) -> bool {
    &&& c.name@ == p.name@
    &&& c.driver == p.driver
    &&& c.path@ == p.path@
    &&& c.host@ == p.host@
    &&& c.port@ == p.port@
    &&& c.database@ == p.database@
    &&& c.user@ == p.user@
    &&& c.password@ == Seq::<char>::empty()
    &&& c.tls == p.tls
    &&& c.tls_verify == p.tls_verify
    &&& c.remember_password
}

/// Two profiles with the same contents.
pub open spec fn same_profile(a: ConnectionProfile, b: ConnectionProfile) -> bool {
    &&& a.id == b.id
    &&& a.name@ == b.name@
    &&& a.driver == b.driver
    &&& a.path@ == b.path@
    &&& a.host@ == b.host@
    &&& a.port@ == b.port@
    &&& a.database@ == b.database@
    &&& a.user@ == b.user@
    &&& a.tls == b.tls
    &&& a.tls_verify == b.tls_verify
}

/// Two forms that differ at most in the password and in whether to remember it.
pub open spec fn same_but_password(a: Config, b: Config) -> bool {
    &&& a.name@ == b.name@
    &&& a.driver == b.driver
    &&& a.path@ == b.path@
    &&& a.host@ == b.host@
    &&& a.port@ == b.port@
    &&& a.database@ == b.database@
    &&& a.user@ == b.user@
    &&& a.tls == b.tls
    &&& a.tls_verify == b.tls_verify
}

/// Saves a form as a profile under `id`.
pub fn profile_from_config(id: u64, config: &Config) -> (p: ConnectionProfile)
    ensures
        saved_as(p, id, *config),
{
    let name = if is_blank(config.name.as_str()) {
        config.label()
    } else {
        config.name.clone()
    };
    ConnectionProfile {
        id,
        name,
        driver: config.driver,
        path: config.path.clone(),
        host: config.host.clone(),
        port: config.port.clone(),
        database: config.database.clone(),
        user: config.user.clone(),
        tls: config.tls,
        tls_verify: config.tls_verify,
    }
}

/// Opens a profile in the form, with an empty password.
pub fn config_from_profile(profile: &ConnectionProfile) -> (c: Config)
    ensures
        loaded_from(c, *profile),
{
    Config {
        name: profile.name.clone(),
        driver: profile.driver,
        path: profile.path.clone(),
        host: profile.host.clone(),
        port: profile.port.clone(),
        database: profile.database.clone(),
        user: profile.user.clone(),
        password: String::new(),
        tls: profile.tls,
        tls_verify: profile.tls_verify,
        remember_password: true,
    }
}

/// A copy of a profile, field for field.
pub fn copy_profile(p: &ConnectionProfile) -> (r: ConnectionProfile)
    ensures
        r == *p,
{
    ConnectionProfile {
        id: p.id,
        name: p.name.clone(),
        driver: p.driver,
        path: p.path.clone(),
        host: p.host.clone(),
        port: p.port.clone(),
        database: p.database.clone(),
        user: p.user.clone(),
        tls: p.tls,
        tls_verify: p.tls_verify,
    }
}

/// A saved profile never depends on the password typed in the form, nor on
/// whether it is to be remembered: the password is never saved with it.
pub proof fn law_profile_ignores_password(
    id: u64,
    a: Config,
    b: Config,
    pa: ConnectionProfile,
    pb: ConnectionProfile,
)
    requires
        same_but_password(a, b),
        saved_as(pa, id, a),
        saved_as(pb, id, b),
    ensures
        same_profile(pa, pb),
{
}

/// The label of a form never shows its password.
pub proof fn law_label_ignores_password(a: Config, b: Config)
    requires
        same_but_password(a, b),
    ensures
        config_label(a) == config_label(b),
{
}

/// Saving a named form and opening the profile again gives back the same
/// form, with the password emptied and remembered by default.
pub proof fn law_form_round_trip(id: u64, c: Config, p: ConnectionProfile, back: Config)
    requires
        !blank(c.name@),
        saved_as(p, id, c),
        loaded_from(back, p),
    ensures
        same_but_password(back, c),
        back.password@ == Seq::<char>::empty(),
        back.remember_password,
{
}

/// Opening a named profile and saving it again under its own id gives the
/// same profile.
pub proof fn law_profile_round_trip(p: ConnectionProfile, c: Config, again: ConnectionProfile)
    requires
        !blank(p.name@),
        loaded_from(c, p),
        saved_as(again, p.id, c),
    ensures
        same_profile(again, p),
{
}

} // verus!
