//! The closed set of modpacks the server distributes, and the address of each.
use vstd::prelude::*;
use crate::text::{int_text, push_int, push_str};

verus! {

/// A modpack offered by the content server.
#[derive(Debug, Clone, Copy, PartialEq, Eq, Structural)]
pub enum Modpack {
    ModTeam,
    Base,
    Other1,
    Other2,
    Other3,
}

/// The identifier the server knows a modpack by.
pub open spec fn server_identifier(m: Modpack) -> Seq<char> {
    match m {
        Modpack::ModTeam => "ModTeam"@,
        Modpack::Base => "Base"@,
        Modpack::Other1 => "Other1"@,
        Modpack::Other2 => "Other2"@,
        Modpack::Other3 => "Other3"@,
    }
}

/// The name shown to the user for a modpack.
pub open spec fn display_name(m: Modpack) -> Seq<char> {
    match m {
        Modpack::ModTeam => "Modded Team Pack"@,
        Modpack::Base => "Base Pack"@,
        Modpack::Other1 => "Other 1"@,
        Modpack::Other2 => "Other 2"@,
        Modpack::Other3 => "Other 3"@,
    }
}

/// Every modpack, in the order offered to the user.
pub open spec fn all_modpacks() -> Seq<Modpack> {
    seq![Modpack::ModTeam, Modpack::Base, Modpack::Other1, Modpack::Other2, Modpack::Other3]
}

/// `http://{host}:{port}/{identifier}`: where the server keeps a modpack.
pub open spec fn pack_url(host: Seq<char>, port: int, m: Modpack) -> Seq<char> {
    "http://"@ + host + ":"@ + int_text(port) + "/"@ + server_identifier(m)
}

impl Modpack {
    pub fn get_server_identifier(&self) -> (r: &'static str)
        ensures
            r@ == server_identifier(*self),
    {
        match self {
            Modpack::ModTeam => "ModTeam",
            Modpack::Base => "Base",
            Modpack::Other1 => "Other1",
            Modpack::Other2 => "Other2",
            Modpack::Other3 => "Other3",
        }
    }

    pub fn get_name(&self) -> (r: &'static str)
        ensures
            r@ == display_name(*self),
    {
        match self {
            Modpack::ModTeam => "Modded Team Pack",
            Modpack::Base => "Base Pack",
            Modpack::Other1 => "Other 1",
            Modpack::Other2 => "Other 2",
            Modpack::Other3 => "Other 3",
        }
    }

    pub fn vec_all() -> (r: Vec<Modpack>)
        ensures
            r@ == all_modpacks(),
    {
        let r = vec![
            Modpack::ModTeam,
            Modpack::Base,
            Modpack::Other1,
            Modpack::Other2,
            Modpack::Other3,
        ];
        assert(r@ =~= all_modpacks());
        r
    }

    /// The base address of this modpack on the server at `host:port`.
    pub fn base_url(&self, host: &str, port: i32) -> (r: String)
        ensures
            r@ == pack_url(host@, port as int, *self),
    {
        let mut r = String::new();
        push_str(&mut r, "http://");
        push_str(&mut r, host);
        push_str(&mut r, ":");
        push_int(&mut r, port as i64);
        push_str(&mut r, "/");
        push_str(&mut r, self.get_server_identifier());
        assert(r@ =~= pack_url(host@, port as int, *self));
        r
    }
}

} // verus!
