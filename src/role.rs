use vstd::prelude::*;

use crate::text::{lower_of, lowercase, str_equal};

verus! {

/// The role a node plays in the cluster.
#[derive(Clone, Copy, Debug, PartialEq, Eq, Structural)]
pub enum Role {
    Default,
    Master,
    Data,
    DNS,
    Client,
}

/// The byte that stands for a role on the wire.
pub open spec fn role_byte(r: Role) -> u8 {
    match r {
        Role::Default => 0,
        Role::Master => 1,
        Role::Data => 2,
        Role::DNS => 3,
        Role::Client => 4,
    }
}

/// The role a byte stands for, if any.
pub open spec fn role_of_byte(b: u8) -> Option<Role> {
    if b == 0 {
        Some(Role::Default)
    } else if b == 1 {
        Some(Role::Master)
    } else if b == 2 {
        Some(Role::Data)
    } else if b == 3 {
        Some(Role::DNS)
    } else if b == 4 {
        Some(Role::Client)
    } else {
        None
    }
}

impl Role {
    pub fn to_u8(&self) -> (r: u8)
        ensures
            r == role_byte(*self),
    {
        match self {
            Role::Default => 0,
            Role::Master => 1,
            Role::Data => 2,
            Role::DNS => 3,
            Role::Client => 4,
        }
    }

    /// The role of a byte, or `None` for a byte that stands for no role.
    pub fn from_u8(b: u8) -> (r: Option<Role>)
        ensures
            r == role_of_byte(b),
    {
        match b {
            0 => Some(Role::Default),
            1 => Some(Role::Master),
            2 => Some(Role::Data),
            3 => Some(Role::DNS),
            4 => Some(Role::Client),
            _ => None,
        }
    }
}

/// What a client asks of the cluster.
#[derive(Clone, Copy, Debug, PartialEq, Eq, Structural)]
pub enum Action {
    Read,
    Write,
}

pub open spec fn action_byte(a: Action) -> u8 {
    match a {
        Action::Read => 0,
        Action::Write => 1,
    }
}

pub open spec fn action_of_byte(b: u8) -> Option<Action> {
    if b == 0 {
        Some(Action::Read)
    } else if b == 1 {
        Some(Action::Write)
    } else {
        None
    }
}

impl Action {
    pub fn to_u8(&self) -> (r: u8)
        ensures
            r == action_byte(*self),
    {
        match self {
            Action::Read => 0,
            Action::Write => 1,
        }
    }

    pub fn from_u8(b: u8) -> (r: Option<Action>)
        ensures
            r == action_of_byte(b),
    {
        match b {
            0 => Some(Action::Read),
            1 => Some(Action::Write),
            _ => None,
        }
    }
}

/// The role a lower-case name stands for.
pub open spec fn role_named(t: Seq<char>) -> Option<Role> {
    if t == seq!['d', 'n', 's'] {
        Some(Role::DNS)
    } else if t == seq!['m', 'a', 's', 't', 'e', 'r'] {
        Some(Role::Master)
    } else if t == seq!['d', 'a', 't', 'a'] {
        Some(Role::Data)
    } else if t == seq!['c', 'l', 'i', 'e', 'n', 't'] {
        Some(Role::Client)
    } else {
        None
    }
}

/// The action a lower-case name stands for.
pub open spec fn action_named(t: Seq<char>) -> Option<Action> {
    if t == seq!['r', 'e', 'a', 'd'] {
        Some(Action::Read)
    } else if t == seq!['w', 'r', 'i', 't', 'e'] {
        Some(Action::Write)
    } else {
        None
    }
}

impl Role {
    /// The role named by an already lower-cased string.
    pub fn from_lowered(t: &str) -> (r: Option<Role>)
        ensures
            r == role_named(t@),
    {
        proof {
            reveal_strlit("dns");
            assert("dns"@ =~= seq!['d', 'n', 's']);
            reveal_strlit("master");
            assert("master"@ =~= seq!['m', 'a', 's', 't', 'e', 'r']);
            reveal_strlit("data");
            assert("data"@ =~= seq!['d', 'a', 't', 'a']);
            reveal_strlit("client");
            assert("client"@ =~= seq!['c', 'l', 'i', 'e', 'n', 't']);
        }
        if str_equal(t, "dns") {
            Some(Role::DNS)
        } else if str_equal(t, "master") {
            Some(Role::Master)
        } else if str_equal(t, "data") {
            Some(Role::Data)
        } else if str_equal(t, "client") {
            Some(Role::Client)
        } else {
            None
        }
    }

    /// The role named by `s`, in any case: `dns`, `master`, `data` or `client`.
    pub fn from_name(s: &str) -> (r: Option<Role>)
        ensures
            r == role_named(lower_of(s@)),
    {
        let t = lowercase(s);
        Role::from_lowered(t.as_str())
    }
}

impl Action {
    /// The action named by an already lower-cased string.
    pub fn from_lowered(t: &str) -> (r: Option<Action>)
        ensures
            r == action_named(t@),
    {
        proof {
            reveal_strlit("read");
            assert("read"@ =~= seq!['r', 'e', 'a', 'd']);
            reveal_strlit("write");
            assert("write"@ =~= seq!['w', 'r', 'i', 't', 'e']);
        }
        if str_equal(t, "read") {
            Some(Action::Read)
        } else if str_equal(t, "write") {
            Some(Action::Write)
        } else {
            None
        }
    }

    /// The action named by `s`, in any case: `read` or `write`.
    pub fn from_name(s: &str) -> (r: Option<Action>)
        ensures
            r == action_named(lower_of(s@)),
    {
        let t = lowercase(s);
        Action::from_lowered(t.as_str())
    }
}

} // verus!
