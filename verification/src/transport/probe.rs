//! Turn what a box's files say into an identity.
//!
//! openHC is asked first, then stock Control4's board files, then SMBIOS: only
//! one board has that, but for that board it is the only route.
use crate::env::{env_value, first_keyed};
use crate::flasher::board::{
    c4_identity, dmi_identity, env_identity, from_c4board, from_dmi, from_env_values, none_model, opt_str, Identity,
    IdentityModel, Running,
};
use crate::num::{parse_number, parse_unsigned};
use crate::text::{lines, opt, to_chars, trim, trim_str, trimmed};
use vstd::prelude::*;

verus! {

/// The files that say what a box is, each as far as it could be read.
#[derive(Debug)]
pub struct Evidence {
    /// `/opt/ohc/board.env`
    pub board_env: Option<String>,
    /// `/proc/c4board/name`
    pub c4_name: Option<String>,
    /// `/proc/c4board/type`
    pub c4_type: Option<String>,
    /// `/proc/c4board/revision`
    pub c4_revision: Option<String>,
    /// `/sys/class/dmi/id/sys_vendor`
    pub sys_vendor: Option<String>,
    /// `/sys/class/dmi/id/product_name`
    pub product_name: Option<String>,
}

/// A small number out of a file.
pub open spec fn file_number(s: Option<Seq<char>>) -> Option<u8> {
    match s {
        Some(t) => match parse_unsigned(trim(t), 10, 255) {
            Some(n) => Some(n as u8),
            None => None,
        },
        None => None,
    }
}

pub open spec fn file_trimmed(s: Option<Seq<char>>) -> Option<Seq<char>> {
    match s {
        Some(t) => Some(trim(t)),
        None => None,
    }
}

/// An identity that names a board, or at least candidates.
pub open spec fn settles(m: IdentityModel) -> bool {
    m.board is Some || m.candidates.len() > 0
}

pub open spec fn openhc_identity(env: Option<Seq<char>>) -> Option<IdentityModel> {
    match env {
        None => None,
        Some(t) => {
            let m = env_identity(first_keyed(lines(t), "OHC_BOARD"@), first_keyed(lines(t), "OHC_MODEL"@));
            if settles(m) {
                Some(m)
            } else {
                None
            }
        },
    }
}

impl Evidence {
    /// Stock Control4 left a mark.
    pub open spec fn is_stock(&self) -> bool {
        self.c4_name is Some || file_number(opt(self.c4_type)) is Some || file_number(opt(self.c4_revision)) is Some
    }

    pub open spec fn stock_identity(&self) -> Option<IdentityModel> {
        let m = c4_identity(
            file_trimmed(opt(self.c4_name)),
            file_number(opt(self.c4_type)),
            file_number(opt(self.c4_revision)),
        );
        if self.is_stock() && settles(m) {
            Some(m)
        } else {
            None
        }
    }

    /// What booted is decided by the other files: SMBIOS says what the hardware
    /// is and nothing about what runs on it.
    pub open spec fn running(&self) -> Running {
        if self.board_env is Some {
            Running::Openhc
        } else if self.is_stock() {
            Running::Stock
        } else {
            Running::Unknown
        }
    }

    pub open spec fn smbios_identity(&self) -> Option<IdentityModel> {
        let m = dmi_identity(
            file_trimmed(opt(self.sys_vendor)),
            file_trimmed(opt(self.product_name)),
            self.running(),
        );
        if (self.sys_vendor is Some || self.product_name is Some) && m.board is Some {
            Some(m)
        } else {
            None
        }
    }

    pub open spec fn identity(&self) -> IdentityModel {
        if openhc_identity(opt(self.board_env)) is Some {
            openhc_identity(opt(self.board_env))->0
        } else if self.stock_identity() is Some {
            self.stock_identity()->0
        } else if self.smbios_identity() is Some {
            self.smbios_identity()->0
        } else {
            none_model(Running::Unknown)
        }
    }
}

fn number_in(s: &Option<String>) -> (r: Option<u8>)
    ensures
        r == file_number(opt(*s)),
{
    match s {
        Some(t) => {
            let chars = to_chars(t.as_str());
            match parse_number(trimmed(chars.as_slice()), 10, 255) {
                Some(n) => Some(n as u8),
                None => None,
            }
        },
        None => None,
    }
}

fn trimmed_in(s: &Option<String>) -> (r: Option<String>)
    ensures
        opt(r) == file_trimmed(opt(*s)),
{
    match s {
        Some(t) => Some(trim_str(t.as_str())),
        None => None,
    }
}

fn borrowed(s: &Option<String>) -> (r: Option<&str>)
    ensures
        opt_str(r) == opt(*s),
{
    match s {
        Some(t) => Some(t.as_str()),
        None => None,
    }
}

fn is_settled(id: &Identity) -> (r: bool)
    ensures
        r == settles(id@),
{
    id.board.is_some() || id.candidates.len() > 0
}

/// What a box is, from its files.
pub fn identify(e: &Evidence) -> (r: Identity)
    ensures
        r@ == e.identity(),
{
    if let Some(env) = &e.board_env {
        let id = from_env_values(env_value(env.as_str(), "OHC_BOARD"), env_value(env.as_str(), "OHC_MODEL"));
        if is_settled(&id) {
            return id;
        }
    }
    let name = trimmed_in(&e.c4_name);
    let btype: Option<u8> = number_in(&e.c4_type);
    let rev: Option<u8> = number_in(&e.c4_revision);
    let stock: bool = e.c4_name.is_some() || btype.is_some() || rev.is_some();
    if stock {
        let id = from_c4board(borrowed(&name), btype, rev);
        if is_settled(&id) {
            return id;
        }
    }
    if e.sys_vendor.is_some() || e.product_name.is_some() {
        let running = if e.board_env.is_some() {
            Running::Openhc
        } else if stock {
            Running::Stock
        } else {
            Running::Unknown
        };
        let vendor = trimmed_in(&e.sys_vendor);
        let product = trimmed_in(&e.product_name);
        let id = from_dmi(borrowed(&vendor), borrowed(&product), running);
        if id.board.is_some() {
            return id;
        }
    }
    Identity::none(Running::Unknown)
}

} // verus!
