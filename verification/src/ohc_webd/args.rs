//! The command line.
use crate::text::{same, strings};
use vstd::prelude::*;
use vstd::string::*;

verus! {

#[derive(Debug)]
pub struct Config {
    pub bind: String,
    pub board_env: String,
}

pub ghost struct ConfigModel {
    pub bind: Seq<char>,
    pub board_env: Seq<char>,
}

impl View for Config {
    type V = ConfigModel;

    open spec fn view(&self) -> ConfigModel {
        ConfigModel { bind: self.bind@, board_env: self.board_env@ }
    }
}

pub const USAGE: &'static str = "ohc-webd [--bind ADDR:PORT] [--board-env PATH]";

/// What is left when nothing is asked for.
pub open spec fn defaults() -> ConfigModel {
    ConfigModel { bind: "0.0.0.0:80"@, board_env: "/opt/ohc/board.env"@ }
}

/// What the arguments make of a configuration; `None` when help is asked for. An
/// option at the end of the line has no value and leaves things as they are, and
/// what is not known is passed over.
pub open spec fn read_args(cfg: ConfigModel, args: Seq<Seq<char>>) -> Option<ConfigModel>
    decreases args.len(),
{
    if args.len() == 0 {
        Some(cfg)
    } else if args[0] == "--bind"@ {
        if args.len() == 1 {
            Some(cfg)
        } else {
            read_args(ConfigModel { bind: args[1], ..cfg }, args.skip(2))
        }
    } else if args[0] == "--board-env"@ {
        if args.len() == 1 {
            Some(cfg)
        } else {
            read_args(ConfigModel { board_env: args[1], ..cfg }, args.skip(2))
        }
    } else if args[0] == "-h"@ || args[0] == "--help"@ {
        None
    } else {
        read_args(cfg, args.skip(1))
    }
}

/// The configuration the arguments ask for, without the program's own name;
/// `None` when they ask for help.
pub fn parse_args(args: &Vec<String>) -> (r: Option<Config>)
    ensures
        match r {
            Some(c) => read_args(defaults(), strings(args@)) == Some(c@),
            None => read_args(defaults(), strings(args@)) is None,
        },
{
    let ghost all = strings(args@);
    let mut cfg = Config {
        bind: String::from_str("0.0.0.0:80"),
        board_env: String::from_str("/opt/ohc/board.env"),
    };
    let mut i: usize = 0;
    assert(all.skip(0) =~= all);
    while i < args.len()
        invariant
            i <= args@.len(),
            all == strings(args@),
            read_args(defaults(), all) == read_args(cfg@, all.skip(i as int)),
        decreases args@.len() - i,
    {
        let ghost rest = all.skip(i as int);
        assert(rest[0] == args@[i as int]@);
        let a = args[i].as_str();
        if same(a, "--bind") {
            if i + 1 < args.len() {
                assert(rest[1] == args@[i + 1]@);
                assert(rest.skip(2) =~= all.skip(i + 2));
                cfg.bind = String::from_str(args[i + 1].as_str());
                i += 2;
            } else {
                return Some(cfg);
            }
        } else if same(a, "--board-env") {
            if i + 1 < args.len() {
                assert(rest[1] == args@[i + 1]@);
                assert(rest.skip(2) =~= all.skip(i + 2));
                cfg.board_env = String::from_str(args[i + 1].as_str());
                i += 2;
            } else {
                return Some(cfg);
            }
        } else if same(a, "-h") || same(a, "--help") {
            return None;
        } else {
            assert(rest.skip(1) =~= all.skip(i + 1));
            i += 1;
        }
    }
    Some(cfg)
}

} // verus!
