//! Board identity and network, parsed from `/opt/ohc/board.env`.
//!
//! Ports and radios are not modelled here: the daemon that owns the devices
//! describes them.
use crate::env::{env_get, hostname, hostname_of, or_text, Env};
use crate::flasher::board::opt_str;
use crate::json::{members, object, put, text, with, Json, JsonModel, Member};
use vstd::prelude::*;

verus! {

#[derive(Debug)]
pub struct Board {
    pub model: String,
    pub hostname: String,
    pub uplink_iface: String,
    pub wifi_iface: String,
}

pub ghost struct BoardModel {
    pub model: Seq<char>,
    pub hostname: Seq<char>,
    pub uplink_iface: Seq<char>,
    pub wifi_iface: Seq<char>,
}

impl View for Board {
    type V = BoardModel;

    open spec fn view(&self) -> BoardModel {
        BoardModel {
            model: self.model@,
            hostname: self.hostname@,
            uplink_iface: self.uplink_iface@,
            wifi_iface: self.wifi_iface@,
        }
    }
}

/// What a `board.env` text and the kernel's host name say of a board.
pub open spec fn board_of(env: Seq<char>, host: Option<Seq<char>>) -> BoardModel {
    BoardModel {
        model: or_text(env_get(env, "OHC_MODEL"@), "unknown"@),
        hostname: hostname_of(host),
        uplink_iface: or_text(env_get(env, "OHC_UPLINK_IFACE"@), "eth0"@),
        wifi_iface: or_text(env_get(env, "OHC_WIFI_IFACE"@), ""@),
    }
}

impl Board {
    /// The board that a `board.env` text describes. A file that could not be
    /// read is an empty text.
    pub fn load(env: &str, host: Option<&str>) -> (r: Board)
        ensures
            r@ == board_of(env@, opt_str(host)),
    {
        let e = Env::parse(env);
        Board {
            model: e.get_or("OHC_MODEL", "unknown"),
            hostname: hostname(host),
            uplink_iface: e.get_or("OHC_UPLINK_IFACE", "eth0"),
            wifi_iface: e.get_or("OHC_WIFI_IFACE", ""),
        }
    }

    /// The board's document.
    pub fn doc(&self) -> (r: Json)
        ensures
            r@ == board_doc(self@),
    {
        let mut o: Vec<Member> = Vec::new();
        assert(members(o@) =~= seq![]);
        put(&mut o, "model", text(self.model.as_str()));
        put(&mut o, "hostname", text(self.hostname.as_str()));
        put(&mut o, "uplink_iface", text(self.uplink_iface.as_str()));
        put(&mut o, "wifi_iface", text(self.wifi_iface.as_str()));
        object(o)
    }
}

pub open spec fn board_doc(b: BoardModel) -> JsonModel {
    let o = with(seq![], "model"@, JsonModel::Text(b.model));
    let o = with(o, "hostname"@, JsonModel::Text(b.hostname));
    let o = with(o, "uplink_iface"@, JsonModel::Text(b.uplink_iface));
    JsonModel::Object(with(o, "wifi_iface"@, JsonModel::Text(b.wifi_iface)))
}

} // verus!
