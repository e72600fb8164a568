//! Board identity: what a unit *is*, independent of what is running on it.
//!
//! A unit must be identifiable from every side of a takeover: running stock
//! Control4 (`/proc/c4board`), running openHC (`/opt/ohc/board.env`), sitting at
//! the CEFDK shell with no OS (the banner's `Type N, Rev M`), or, for the one
//! board that is a PC, from its SMBIOS tables. The type and revision pairs here
//! are measured on real units; where a variant has not been read off hardware
//! its ids are absent, and detection then reports an honest ambiguity instead of
//! guessing, because a wrong guess flashes the wrong image at someone's board.
use crate::num::{dec, dec_string, parse_number, parse_unsigned};
use crate::text::{
    eq_str, find_chars, find_from, from_chars, lower, opt, skip_class, starts_with, starts_with_str, to_chars,
    to_lower, trim, trim_start, trim_start_of, trimmed, Class,
};
use vstd::prelude::*;
use vstd::slice::slice_subrange;
use vstd::string::*;

verus! {

/// SoC family. Determines which install methods even apply: the EA boards use
/// CEFDK and an eMMC container, the CA-1 uses U-Boot and a boot.scr, and they
/// must never be confused for one another.
#[derive(Debug, Clone, Copy, PartialEq, Eq, Structural)]
pub enum Family {
    /// Intel CE5300 (EA1/EA3): CEFDK, kernel in a raw eMMC container.
    Ea,
    /// Freescale i.MX6SL (CA-1): U-Boot from SPI-NOR, boot.scr on vfat.
    Ca,
    /// TI DM355 (IOX).
    Iox,
    /// Atom D525 (HC800): a PC, really.
    Hc,
}

impl Family {
    /// The family's name as diagnostics print it.
    pub open spec fn label_spec(self) -> Seq<char> {
        match self {
            Family::Ea => "Ea"@,
            Family::Ca => "Ca"@,
            Family::Iox => "Iox"@,
            Family::Hc => "Hc"@,
        }
    }

    pub fn label(self) -> (r: &'static str)
        ensures
            r@ == self.label_spec(),
    {
        match self {
            Family::Ea => "Ea",
            Family::Ca => "Ca",
            Family::Iox => "Iox",
            Family::Hc => "Hc",
        }
    }
}

/// A model openHC can run on.
#[derive(Debug, Clone, Copy)]
pub struct Board {
    /// openHC board directory, e.g. `ea3-v2`.
    pub name: &'static str,
    pub family: Family,
    pub desc: &'static str,
    /// `/proc/c4board/type`, when a unit has been read.
    pub c4_type: Option<u8>,
    /// `/proc/c4board/revision` values seen on real units.
    pub c4_revs: &'static [u8],
    /// Fuse blown: CEFDK's verifying `bootkernel` rejects an unsigned image, so
    /// the install must route through the autoscript and the `bootlinux` bypass.
    pub secure_boot: bool,
    pub has_switch: bool,
    pub has_wifi: bool,
    pub notes: &'static str,
}

/// A board as the contracts speak of it.
pub ghost struct BoardModel {
    pub name: Seq<char>,
    pub family: Family,
    pub desc: Seq<char>,
    pub c4_type: Option<u8>,
    pub c4_revs: Seq<u8>,
    pub secure_boot: bool,
    pub has_switch: bool,
    pub has_wifi: bool,
    pub notes: Seq<char>,
}

impl View for Board {
    type V = BoardModel;

    open spec fn view(&self) -> BoardModel {
        BoardModel {
            name: self.name@,
            family: self.family,
            desc: self.desc@,
            c4_type: self.c4_type,
            c4_revs: self.c4_revs@,
            secure_boot: self.secure_boot,
            has_switch: self.has_switch,
            has_wifi: self.has_wifi,
            notes: self.notes@,
        }
    }
}

impl Board {
    /// The single fact the installer branches on: a secure-boot part cannot use
    /// the normal verifying boot path, so it needs the autoscript.
    pub fn needs_autoscript(&self) -> (r: bool)
        ensures
            r == self@.secure_boot,
    {
        self.secure_boot
    }
}

// The known-board table. Add ids as units are read, and never fill one in
// speculatively.

pub open spec fn ea1_v1_model() -> BoardModel {
    BoardModel {
        name: "ea1-v1"@,
        family: Family::Ea,
        desc: "EA1 (board v1, Wi-Fi, no switch)"@,
        c4_type: Some(1u8),
        c4_revs: seq![5u8],
        secure_boot: false,
        has_switch: false,
        has_wifi: true,
        notes: "fuse clear: an unsigned container at 0x400 boots, so no autoscript is needed."@,
    }
}

fn ea1_v1() -> (r: &'static Board)
    ensures
        r@ == ea1_v1_model(),
{
    let b: &'static Board = &Board {
        name: "ea1-v1",
        family: Family::Ea,
        desc: "EA1 (board v1, Wi-Fi, no switch)",
        c4_type: Some(1),
        c4_revs: &[5u8],
        secure_boot: false,
        has_switch: false,
        has_wifi: true,
        notes: "fuse clear: an unsigned container at 0x400 boots, so no autoscript is needed.",
    };
    assert(b.c4_revs@ =~= seq![5u8]);
    b
}

pub open spec fn ea1_v2_model() -> BoardModel {
    BoardModel {
        name: "ea1-v2"@,
        family: Family::Ea,
        desc: "EA1 (board v2, Wi-Fi, no switch)"@,
        c4_type: Some(1u8),
        c4_revs: seq![],
        secure_boot: false,
        has_switch: false,
        has_wifi: true,
        notes: "ids not yet read off hardware; boot behaviour assumed to match v1 and NOT verified."@,
    }
}

fn ea1_v2() -> (r: &'static Board)
    ensures
        r@ == ea1_v2_model(),
{
    let b: &'static Board = &Board {
        name: "ea1-v2",
        family: Family::Ea,
        desc: "EA1 (board v2, Wi-Fi, no switch)",
        c4_type: Some(1),
        c4_revs: &[],
        secure_boot: false,
        has_switch: false,
        has_wifi: true,
        notes: "ids not yet read off hardware; boot behaviour assumed to match v1 and NOT verified.",
    };
    assert(b.c4_revs@ =~= seq![]);
    b
}

pub open spec fn ea1_v2_poe_model() -> BoardModel {
    BoardModel {
        name: "ea1-v2-poe"@,
        family: Family::Ea,
        desc: "EA1 v2 PoE (switch, no Wi-Fi)"@,
        c4_type: Some(1u8),
        c4_revs: seq![],
        secure_boot: false,
        has_switch: true,
        has_wifi: false,
        notes: "CEFDK's own enum calls this board_ea1p = 5, which is not /proc/c4board/type."@,
    }
}

fn ea1_v2_poe() -> (r: &'static Board)
    ensures
        r@ == ea1_v2_poe_model(),
{
    let b: &'static Board = &Board {
        name: "ea1-v2-poe",
        family: Family::Ea,
        desc: "EA1 v2 PoE (switch, no Wi-Fi)",
        c4_type: Some(1),
        c4_revs: &[],
        secure_boot: false,
        has_switch: true,
        has_wifi: false,
        notes: "CEFDK's own enum calls this board_ea1p = 5, which is not /proc/c4board/type.",
    };
    assert(b.c4_revs@ =~= seq![]);
    b
}

pub open spec fn ea3_v1_model() -> BoardModel {
    BoardModel {
        name: "ea3-v1"@,
        family: Family::Ea,
        desc: "EA3 v1 (Wi-Fi, switch, PoE)"@,
        c4_type: Some(2u8),
        c4_revs: seq![],
        secure_boot: true,
        has_switch: true,
        has_wifi: true,
        notes: ""@,
    }
}

fn ea3_v1() -> (r: &'static Board)
    ensures
        r@ == ea3_v1_model(),
{
    let b: &'static Board = &Board {
        name: "ea3-v1",
        family: Family::Ea,
        desc: "EA3 v1 (Wi-Fi, switch, PoE)",
        c4_type: Some(2),
        c4_revs: &[],
        secure_boot: true,
        has_switch: true,
        has_wifi: true,
        notes: "",
    };
    assert(b.c4_revs@ =~= seq![]);
    b
}

pub open spec fn ea3_v2_model() -> BoardModel {
    BoardModel {
        name: "ea3-v2"@,
        family: Family::Ea,
        desc: "EA3 v2 (switch, PoE, no Wi-Fi)"@,
        c4_type: Some(2u8),
        c4_revs: seq![9u8],
        secure_boot: true,
        has_switch: true,
        has_wifi: false,
        notes: "secure-boot fuse BLOWN (measured): bootkernel rejects unsigned images, so this board must install via the autoscript + bootlinux path."@,
    }
}

fn ea3_v2() -> (r: &'static Board)
    ensures
        r@ == ea3_v2_model(),
{
    let b: &'static Board = &Board {
        name: "ea3-v2",
        family: Family::Ea,
        desc: "EA3 v2 (switch, PoE, no Wi-Fi)",
        c4_type: Some(2),
        c4_revs: &[9u8],
        secure_boot: true,
        has_switch: true,
        has_wifi: false,
        notes: "secure-boot fuse BLOWN (measured): bootkernel rejects unsigned images, so this board must install via the autoscript + bootlinux path.",
    };
    assert(b.c4_revs@ =~= seq![9u8]);
    b
}

pub open spec fn ca1_model() -> BoardModel {
    BoardModel {
        name: "ca1"@,
        family: Family::Ca,
        desc: "CA-1 (i.MX6SL, U-Boot)"@,
        c4_type: Some(0u8),
        c4_revs: seq![4u8],
        secure_boot: false,
        has_switch: false,
        has_wifi: false,
        notes: "stock bootcmd already tries boot.scr on the vfat partition; dropping one takes over and deleting it reverts."@,
    }
}

fn ca1() -> (r: &'static Board)
    ensures
        r@ == ca1_model(),
{
    let b: &'static Board = &Board {
        name: "ca1",
        family: Family::Ca,
        desc: "CA-1 (i.MX6SL, U-Boot)",
        c4_type: Some(0),
        c4_revs: &[4u8],
        secure_boot: false,
        has_switch: false,
        has_wifi: false,
        notes: "stock bootcmd already tries boot.scr on the vfat partition; dropping one takes over and deleting it reverts.",
    };
    assert(b.c4_revs@ =~= seq![4u8]);
    b
}

pub open spec fn ioxv1_model() -> BoardModel {
    BoardModel {
        name: "ioxv1"@,
        family: Family::Iox,
        desc: "IOX v1 (TI DM355)"@,
        c4_type: None,
        c4_revs: seq![],
        secure_boot: false,
        has_switch: false,
        has_wifi: false,
        notes: ""@,
    }
}

fn ioxv1() -> (r: &'static Board)
    ensures
        r@ == ioxv1_model(),
{
    let b: &'static Board = &Board {
        name: "ioxv1",
        family: Family::Iox,
        desc: "IOX v1 (TI DM355)",
        c4_type: None,
        c4_revs: &[],
        secure_boot: false,
        has_switch: false,
        has_wifi: false,
        notes: "",
    };
    assert(b.c4_revs@ =~= seq![]);
    b
}

pub open spec fn hc800_model() -> BoardModel {
    BoardModel {
        name: "hc800"@,
        family: Family::Hc,
        desc: "HC800 (Atom D525)"@,
        c4_type: None,
        c4_revs: seq![],
        secure_boot: false,
        has_switch: false,
        has_wifi: false,
        notes: ""@,
    }
}

fn hc800() -> (r: &'static Board)
    ensures
        r@ == hc800_model(),
{
    let b: &'static Board = &Board {
        name: "hc800",
        family: Family::Hc,
        desc: "HC800 (Atom D525)",
        c4_type: None,
        c4_revs: &[],
        secure_boot: false,
        has_switch: false,
        has_wifi: false,
        notes: "",
    };
    assert(b.c4_revs@ =~= seq![]);
    b
}

/// Every board the flasher knows, in table order.
pub open spec fn table() -> Seq<BoardModel> {
    seq![
        ea1_v1_model(),
        ea1_v2_model(),
        ea1_v2_poe_model(),
        ea3_v1_model(),
        ea3_v2_model(),
        ca1_model(),
        ioxv1_model(),
        hc800_model(),
    ]
}

/// The models of a list of boards.
pub open spec fn models(v: Seq<&'static Board>) -> Seq<BoardModel> {
    v.map_values(|b: &'static Board| b@)
}

/// Every board the flasher knows.
pub fn boards() -> (r: Vec<&'static Board>)
    ensures
        models(r@) == table(),
{
    let mut v: Vec<&'static Board> = Vec::new();
    v.push(ea1_v1());
    v.push(ea1_v2());
    v.push(ea1_v2_poe());
    v.push(ea3_v1());
    v.push(ea3_v2());
    v.push(ca1());
    v.push(ioxv1());
    v.push(hc800());
    assert(models(v@) =~= table());
    v
}

// ---------------------------------------------------------------------- lookup

/// The first board in the list with that exact name.
pub open spec fn named(v: Seq<BoardModel>, name: Seq<char>) -> Option<BoardModel>
    decreases v.len(),
{
    if v.len() == 0 {
        None
    } else if v[0].name == name {
        Some(v[0])
    } else {
        named(v.skip(1), name)
    }
}

/// The board of the table a name means: white space around it and ASCII case do
/// not matter.
pub open spec fn lookup(name: Seq<char>) -> Option<BoardModel> {
    named(table(), lower(trim(name)))
}

/// The model of an optional board.
pub open spec fn opt_model(b: Option<&'static Board>) -> Option<BoardModel> {
    match b {
        Some(b) => Some(b@),
        None => None,
    }
}

/// Look a board up by its openHC name (`ea3-v2`).
pub fn by_name(name: &str) -> (r: Option<&'static Board>)
    ensures
        opt_model(r) == lookup(name@),
{
    let chars = to_chars(name);
    let key = to_lower(trimmed(chars.as_slice()));
    let all = boards();
    let mut i: usize = 0;
    let ghost t = table();
    assert(t.skip(0) =~= t);
    while i < all.len()
        invariant
            i <= all@.len(),
            t == models(all@),
            lookup(name@) == named(t.skip(i as int), key@),
        decreases all@.len() - i,
    {
        assert(t.skip(i as int).skip(1) =~= t.skip(i + 1));
        assert(t.skip(i as int)[0] == all@[i as int]@);
        if eq_str(key.as_slice(), all[i].name) {
            return Some(all[i]);
        }
        i += 1;
    }
    None
}

/// The boards of a list whose `/proc/c4board/type` is `t`, in order.
pub open spec fn with_type(v: Seq<BoardModel>, t: u8) -> Seq<BoardModel> {
    v.filter(|b: BoardModel| b.c4_type == Some(t))
}

/// The boards of a list on which that revision was seen, in order.
pub open spec fn with_rev(v: Seq<BoardModel>, rev: Option<u8>) -> Seq<BoardModel> {
    v.filter(|b: BoardModel| rev is Some && b.c4_revs.contains(rev->0))
}

/// The EA boards of a list whose name starts with `prefix`, in order.
pub open spec fn ea_named(v: Seq<BoardModel>, prefix: Seq<char>) -> Seq<BoardModel> {
    v.filter(|b: BoardModel| b.family == Family::Ea && starts_with(b.name, prefix))
}

fn by_type(t: u8) -> (r: Vec<&'static Board>)
    ensures
        models(r@) == with_type(table(), t),
{
    let all = boards();
    let mut out: Vec<&'static Board> = Vec::new();
    let mut i: usize = 0;
    let ghost f = |b: BoardModel| b.c4_type == Some(t);
    assert(table().take(0).filter(f) =~= seq![]) by {
        reveal(Seq::filter);
    }
    while i < all.len()
        invariant
            i <= all@.len(),
            models(all@) == table(),
            f == (|b: BoardModel| b.c4_type == Some(t)),
            models(out@) == table().take(i as int).filter(f),
        decreases all@.len() - i,
    {
        let ghost before = out@;
        assert(table().take(i + 1).drop_last() =~= table().take(i as int));
        assert(table()[i as int] == all@[i as int]@);
        if let Some(k) = all[i].c4_type {
            if k == t {
                out.push(all[i]);
                assert(models(out@) =~= models(before).push(all@[i as int]@));
            }
        }
        assert(models(out@) == table().take(i + 1).filter(f)) by {
            reveal(Seq::filter);
        }
        i += 1;
    }
    assert(table().take(table().len() as int) =~= table());
    out
}

// -------------------------------------------------------------------- identity

/// Where the identification came from. A front end shows this so a user knows
/// how much to trust it.
#[derive(Debug, Clone, Copy, PartialEq, Eq, Structural)]
pub enum Running {
    Stock,
    Openhc,
    Cefdk,
    Unknown,
}

impl Running {
    /// The state's name as diagnostics print it.
    pub open spec fn label_spec(self) -> Seq<char> {
        match self {
            Running::Stock => "Stock"@,
            Running::Openhc => "Openhc"@,
            Running::Cefdk => "Cefdk"@,
            Running::Unknown => "Unknown"@,
        }
    }

    pub fn label(self) -> (r: &'static str)
        ensures
            r@ == self.label_spec(),
    {
        match self {
            Running::Stock => "Stock",
            Running::Openhc => "Openhc",
            Running::Cefdk => "Cefdk",
            Running::Unknown => "Unknown",
        }
    }
}

/// The result of trying to work out what a unit is, and how sure we are.
#[derive(Debug)]
pub struct Identity {
    pub board: Option<&'static Board>,
    pub candidates: Vec<&'static Board>,
    pub running: Running,
    /// The openHC version the unit reported, when it reported one.
    pub version: Option<String>,
    /// Raw evidence, for display.
    pub raw: Vec<(String, String)>,
}

pub ghost struct IdentityModel {
    pub board: Option<BoardModel>,
    pub candidates: Seq<BoardModel>,
    pub running: Running,
    pub version: Option<Seq<char>>,
    pub raw: Seq<(Seq<char>, Seq<char>)>,
}

/// The texts of a list of key and value pairs.
pub open spec fn pairs(v: Seq<(String, String)>) -> Seq<(Seq<char>, Seq<char>)> {
    v.map_values(|p: (String, String)| (p.0@, p.1@))
}

impl View for Identity {
    type V = IdentityModel;

    open spec fn view(&self) -> IdentityModel {
        IdentityModel {
            board: opt_model(self.board),
            candidates: models(self.candidates@),
            running: self.running,
            version: opt(self.version),
            raw: pairs(self.raw@),
        }
    }
}

impl IdentityModel {
    /// Exactly one board matches.
    pub open spec fn certain(self) -> bool {
        self.board is Some && self.candidates.len() <= 1
    }
}

/// Nothing is known but where the question was asked.
pub open spec fn none_model(running: Running) -> IdentityModel {
    IdentityModel { board: None, candidates: seq![], running, version: None, raw: seq![] }
}

/// One board, beyond doubt.
pub open spec fn certain_model(
    b: BoardModel,
    running: Running,
    raw: Seq<(Seq<char>, Seq<char>)>,
) -> IdentityModel {
    IdentityModel { board: Some(b), candidates: seq![b], running, version: None, raw }
}

/// The names of the boards, comma separated.
pub open spec fn joined_names(v: Seq<BoardModel>) -> Seq<char>
    decreases v.len(),
{
    if v.len() == 0 {
        seq![]
    } else if v.len() == 1 {
        v[0].name
    } else {
        joined_names(v.drop_last()) + ", "@ + v.last().name
    }
}

impl IdentityModel {
    pub open spec fn describe(self) -> Seq<char> {
        if self.certain() {
            self.board->0.name + " ("@ + self.board->0.desc + ") running "@ + self.running.label_spec()
        } else if self.candidates.len() > 0 {
            "ambiguous: could be "@ + joined_names(self.candidates) + " (running "@
                + self.running.label_spec() + ")"@
        } else {
            "unidentified board (running "@ + self.running.label_spec() + ")"@
        }
    }
}

fn one_board(b: &'static Board) -> (r: Vec<&'static Board>)
    ensures
        models(r@) == seq![b@],
{
    let mut v: Vec<&'static Board> = Vec::new();
    v.push(b);
    assert(models(v@) =~= seq![b@]);
    v
}

impl Identity {
    pub fn none(running: Running) -> (r: Self)
        ensures
            r@ == none_model(running),
    {
        let r = Identity { board: None, candidates: Vec::new(), running, version: None, raw: Vec::new() };
        assert(models(r.candidates@) =~= seq![]);
        assert(pairs(r.raw@) =~= seq![]);
        r
    }

    fn sure(b: &'static Board, running: Running, raw: Vec<(String, String)>) -> (r: Self)
        ensures
            r@ == certain_model(b@, running, pairs(raw@)),
    {
        Identity { board: Some(b), candidates: one_board(b), running, version: None, raw }
    }

    /// True only when exactly one board matches, the precondition for an
    /// unattended install.
    pub fn certain(&self) -> (r: bool)
        ensures
            r == self@.certain(),
    {
        self.board.is_some() && self.candidates.len() <= 1
    }

    /// One line for a person.
    pub fn describe(&self) -> (r: String)
        ensures
            r@ == self@.describe(),
    {
        match self.board {
            Some(b) if self.certain() => {
                let mut s = String::from_str(b.name);
                s.append(" (");
                s.append(b.desc);
                s.append(") running ");
                s.append(self.running.label());
                s
            },
            _ => {
                if self.candidates.len() > 0 {
                    let mut s = String::from_str("ambiguous: could be ");
                    let names = join_names(&self.candidates);
                    s.append(names.as_str());
                    s.append(" (running ");
                    s.append(self.running.label());
                    s.append(")");
                    s
                } else {
                    let mut s = String::from_str("unidentified board (running ");
                    s.append(self.running.label());
                    s.append(")");
                    s
                }
            },
        }
    }
}

fn join_names(v: &Vec<&'static Board>) -> (r: String)
    ensures
        r@ == joined_names(models(v@)),
{
    let mut s = String::new();
    let mut i: usize = 0;
    let ghost m = models(v@);
    while i < v.len()
        invariant
            i <= v@.len(),
            m == models(v@),
            s@ == joined_names(m.take(i as int)),
        decreases v@.len() - i,
    {
        assert(m.take(i + 1).drop_last() =~= m.take(i as int));
        if i > 0 {
            s.append(", ");
        }
        s.append(v[i].name);
        assert(i == 0 ==> s@ =~= m[0].name);
        i += 1;
    }
    assert(m.take(m.len() as int) =~= m);
    s
}

fn keep_rev(pool: &Vec<&'static Board>, rev: Option<u8>) -> (r: Vec<&'static Board>)
    ensures
        models(r@) == with_rev(models(pool@), rev),
{
    let mut out: Vec<&'static Board> = Vec::new();
    let mut i: usize = 0;
    let ghost f = |b: BoardModel| rev is Some && b.c4_revs.contains(rev->0);
    let ghost m = models(pool@);
    assert(m.take(0).filter(f) =~= seq![]) by {
        reveal(Seq::filter);
    }
    while i < pool.len()
        invariant
            i <= pool@.len(),
            m == models(pool@),
            f == (|b: BoardModel| rev is Some && b.c4_revs.contains(rev->0)),
            models(out@) == m.take(i as int).filter(f),
        decreases pool@.len() - i,
    {
        let ghost before = out@;
        assert(m.take(i + 1).drop_last() =~= m.take(i as int));
        assert(m[i as int] == pool@[i as int]@);
        if let Some(want) = rev {
            if has_rev(pool[i], want) {
                out.push(pool[i]);
                assert(models(out@) =~= models(before).push(pool@[i as int]@));
            }
        }
        assert(models(out@) == m.take(i + 1).filter(f)) by {
            reveal(Seq::filter);
        }
        i += 1;
    }
    assert(m.take(m.len() as int) =~= m);
    out
}

fn has_rev(b: &Board, want: u8) -> (r: bool)
    ensures
        r == b@.c4_revs.contains(want),
{
    let mut i: usize = 0;
    while i < b.c4_revs.len()
        invariant
            i <= b.c4_revs@.len(),
            forall|k: int| 0 <= k < i ==> b.c4_revs@[k] != want,
        decreases b.c4_revs@.len() - i,
    {
        if b.c4_revs[i] == want {
            assert(b.c4_revs@[i as int] == want);
            return true;
        }
        i += 1;
    }
    false
}

/// What a stock unit said of itself, as display lines.
pub open spec fn c4_raw(name: Option<Seq<char>>, btype: Option<u8>, rev: Option<u8>) -> Seq<
    (Seq<char>, Seq<char>),
> {
    (match name {
        Some(n) => seq![("name"@, n)],
        None => seq![],
    }) + (match btype {
        Some(t) => seq![("type"@, dec(t as nat))],
        None => seq![],
    }) + (match rev {
        Some(v) => seq![("revision"@, dec(v as nat))],
        None => seq![],
    })
}

/// The only board of a list that has exactly one.
pub open spec fn sole(v: Seq<BoardModel>) -> Option<BoardModel> {
    if v.len() == 1 {
        Some(v[0])
    } else {
        None
    }
}

/// A stock unit's identity. Its name decides when it is a board name; else the
/// type narrows the table and the revision narrows it further, and a board is
/// named only when one is left.
pub open spec fn c4_identity(name: Option<Seq<char>>, btype: Option<u8>, rev: Option<u8>) -> IdentityModel {
    let raw = c4_raw(name, btype, rev);
    if name is Some && lookup(name->0) is Some {
        certain_model(lookup(name->0)->0, Running::Stock, raw)
    } else {
        let pool = if btype is Some { with_type(table(), btype->0) } else { seq![] };
        let exact = with_rev(pool, rev);
        IdentityModel {
            board: if exact.len() == 1 { Some(exact[0]) } else { sole(pool) },
            candidates: if exact.len() == 1 { exact } else { pool },
            running: Running::Stock,
            version: None,
            raw,
        }
    }
}

/// The text of an optional borrowed string.
pub open spec fn opt_str(o: Option<&str>) -> Option<Seq<char>> {
    match o {
        Some(s) => Some(s@),
        None => None,
    }
}

fn c4_evidence(name: Option<&str>, btype: Option<u8>, rev: Option<u8>) -> (r: Vec<(String, String)>)
    ensures
        pairs(r@) == c4_raw(opt_str(name), btype, rev),
{
    let mut raw: Vec<(String, String)> = Vec::new();
    if let Some(n) = name {
        raw.push((String::from_str("name"), String::from_str(n)));
    }
    assert(pairs(raw@) =~= c4_raw(opt_str(name), None, None));
    if let Some(t) = btype {
        raw.push((String::from_str("type"), dec_string(t as u64)));
    }
    assert(pairs(raw@) =~= c4_raw(opt_str(name), btype, None));
    if let Some(v) = rev {
        raw.push((String::from_str("revision"), dec_string(v as u64)));
    }
    assert(pairs(raw@) =~= c4_raw(opt_str(name), btype, rev));
    raw
}

/// Identify from a stock Control4 `/proc/c4board`.
///
/// `/proc/c4board/name` is a short family tag (`ea3`), not the variant, so it
/// rarely matches a board name directly; type and revision then decide.
pub fn from_c4board(name: Option<&str>, btype: Option<u8>, rev: Option<u8>) -> (r: Identity)
    ensures
        r@ == c4_identity(opt_str(name), btype, rev),
{
    let raw = c4_evidence(name, btype, rev);
    if let Some(n) = name {
        if let Some(b) = by_name(n) {
            return Identity::sure(b, Running::Stock, raw);
        }
    }
    let pool: Vec<&'static Board> = match btype {
        Some(t) => by_type(t),
        None => Vec::new(),
    };
    let ghost pm = if btype is Some { with_type(table(), btype->0) } else { seq![] };
    assert(models(pool@) =~= pm);
    let exact: Vec<&'static Board> = keep_rev(&pool, rev);
    if exact.len() == 1 {
        let board: Option<&'static Board> = Some(exact[0]);
        Identity { board, candidates: exact, running: Running::Stock, version: None, raw }
    } else {
        let board: Option<&'static Board> = if pool.len() == 1 { Some(pool[0]) } else { None };
        Identity { board, candidates: pool, running: Running::Stock, version: None, raw }
    }
}

// ------------------------------------------------------------------ a running openHC

/// What the variant name in a running openHC's env says: a board, when the name
/// is known.
pub open spec fn env_board(name: Seq<char>) -> Option<IdentityModel> {
    match lookup(name) {
        Some(b) => Some(certain_model(b, Running::Openhc, seq![("OHC_BOARD"@, name)])),
        None => None,
    }
}

/// The evidence lines the variant name leaves behind when it settles nothing.
pub open spec fn env_board_raw(name: Option<Seq<char>>) -> Seq<(Seq<char>, Seq<char>)> {
    match name {
        Some(n) => seq![("OHC_BOARD"@, n)],
        None => seq![],
    }
}

/// What the model in a running openHC's env says. The EA overlays carry a bare
/// 1, 3 or 5, which names a group of EA boards; every other board carries its
/// own name.
pub open spec fn env_model(raw: Seq<(Seq<char>, Seq<char>)>, model: Seq<char>) -> IdentityModel {
    let raw = raw.push(("OHC_MODEL"@, model));
    match lookup(model) {
        Some(b) => certain_model(b, Running::Openhc, raw),
        None => {
            let pool = ea_named(table(), "ea"@ + trim(model));
            IdentityModel { board: sole(pool), candidates: pool, running: Running::Openhc, version: None, raw }
        },
    }
}

/// A running openHC's identity from the two variables that name its board.
pub open spec fn env_identity(board: Option<Seq<char>>, model: Option<Seq<char>>) -> IdentityModel {
    if board is Some && env_board(board->0) is Some {
        env_board(board->0)->0
    } else if model is Some {
        env_model(env_board_raw(board), model->0)
    } else {
        none_model(Running::Openhc)
    }
}

fn keep_ea(prefix: &str) -> (r: Vec<&'static Board>)
    ensures
        models(r@) == ea_named(table(), prefix@),
{
    let all = boards();
    let mut out: Vec<&'static Board> = Vec::new();
    let mut i: usize = 0;
    let ghost f = |b: BoardModel| b.family == Family::Ea && starts_with(b.name, prefix@);
    assert(table().take(0).filter(f) =~= seq![]) by {
        reveal(Seq::filter);
    }
    while i < all.len()
        invariant
            i <= all@.len(),
            models(all@) == table(),
            f == (|b: BoardModel| b.family == Family::Ea && starts_with(b.name, prefix@)),
            models(out@) == table().take(i as int).filter(f),
        decreases all@.len() - i,
    {
        let ghost before = out@;
        assert(table().take(i + 1).drop_last() =~= table().take(i as int));
        assert(table()[i as int] == all@[i as int]@);
        let name = to_chars(all[i].name);
        if all[i].family == Family::Ea && starts_with_str(name.as_slice(), prefix) {
            out.push(all[i]);
            assert(models(out@) =~= models(before).push(all@[i as int]@));
        }
        assert(models(out@) == table().take(i + 1).filter(f)) by {
            reveal(Seq::filter);
        }
        i += 1;
    }
    assert(table().take(table().len() as int) =~= table());
    out
}

/// A running openHC's env, by the values of `OHC_BOARD` and `OHC_MODEL`.
pub fn from_env_values(board: Option<String>, model: Option<String>) -> (r: Identity)
    ensures
        r@ == env_identity(opt(board), opt(model)),
{
    let mut raw: Vec<(String, String)> = Vec::new();
    if let Some(name) = &board {
        raw.push((String::from_str("OHC_BOARD"), name.clone()));
        assert(pairs(raw@) =~= seq![("OHC_BOARD"@, name@)]);
        if let Some(b) = by_name(name.as_str()) {
            return Identity::sure(b, Running::Openhc, raw);
        }
    }
    assert(pairs(raw@) =~= env_board_raw(opt(board)));
    if let Some(m) = &model {
        let ghost before = raw@;
        raw.push((String::from_str("OHC_MODEL"), m.clone()));
        assert(pairs(raw@) =~= pairs(before).push(("OHC_MODEL"@, m@)));
        if let Some(b) = by_name(m.as_str()) {
            return Identity::sure(b, Running::Openhc, raw);
        }
        let chars = to_chars(m.as_str());
        let bare = from_chars(trimmed(chars.as_slice()));
        let mut prefix = String::from_str("ea");
        prefix.append(bare.as_str());
        let pool = keep_ea(prefix.as_str());
        let sole_one: Option<&'static Board> = if pool.len() == 1 { Some(pool[0]) } else { None };
        return Identity { board: sole_one, candidates: pool, running: Running::Openhc, version: None, raw };
    }
    Identity::none(Running::Openhc)
}

/// Identify from a running openHC `/opt/ohc/board.env` (already parsed).
///
/// `OHC_MODEL` is asked for only when `OHC_BOARD` did not settle it.
pub fn from_board_env<F: Fn(&str) -> Option<String>>(get: F) -> (r: Identity)
    requires
        forall|k: &str| #[trigger] get.requires((k,)),
    ensures
        exists|board: Option<String>| #[trigger]
            get.ensures(("OHC_BOARD",), board) && if board is Some && env_board(board->0@) is Some {
                r@ == env_board(board->0@)->0
            } else {
                exists|model: Option<String>| #[trigger]
                    get.ensures(("OHC_MODEL",), model) && r@ == env_identity(opt(board), opt(model))
            },
{
    let board: Option<String> = get("OHC_BOARD");
    let settled: bool = match &board {
        Some(name) => by_name(name.as_str()).is_some(),
        None => false,
    };
    if settled {
        return from_env_values(board, None);
    }
    let model: Option<String> = get("OHC_MODEL");
    from_env_values(board, model)
}

// ---------------------------------------------------------------- the other two

/// SMBIOS's answer to "what PC is this", as display lines.
pub open spec fn dmi_raw(vendor: Option<Seq<char>>, product: Option<Seq<char>>) -> Seq<
    (Seq<char>, Seq<char>),
> {
    (match vendor {
        Some(v) => seq![("sys_vendor"@, v)],
        None => seq![],
    }) + (match product {
        Some(p) => seq![("product_name"@, p)],
        None => seq![],
    })
}

/// Does a BIOS string read as `want` (given in lower case), whatever its case
/// and the white space around it?
pub open spec fn dmi_reads(s: Option<Seq<char>>, want: Seq<char>) -> bool {
    s is Some && lower(trim(s->0)) == want
}

/// The one board with SMBIOS tables, known by vendor and product together.
pub open spec fn dmi_identity(
    vendor: Option<Seq<char>>,
    product: Option<Seq<char>>,
    running: Running,
) -> IdentityModel {
    let raw = dmi_raw(vendor, product);
    if dmi_reads(vendor, "lite-on tech."@) && dmi_reads(product, "hc800"@) {
        certain_model(hc800_model(), running, raw)
    } else {
        IdentityModel { board: None, candidates: seq![], running, version: None, raw }
    }
}

fn reads_as(s: Option<&str>, want: &str) -> (r: bool)
    ensures
        r == dmi_reads(opt_str(s), want@),
{
    match s {
        Some(t) => {
            let chars = to_chars(t);
            let key = to_lower(trimmed(chars.as_slice()));
            eq_str(key.as_slice(), want)
        },
        None => false,
    }
}

/// Identify from SMBIOS, `/sys/class/dmi/id`. Only the HC-800 has it, and for
/// that board it is the only route: there is no `/proc/c4board` on a PC. DMI says
/// what the hardware is and nothing about what booted on it, so `running` comes
/// from the caller.
pub fn from_dmi(vendor: Option<&str>, product: Option<&str>, running: Running) -> (r: Identity)
    ensures
        r@ == dmi_identity(opt_str(vendor), opt_str(product), running),
{
    let mut raw: Vec<(String, String)> = Vec::new();
    if let Some(v) = vendor {
        raw.push((String::from_str("sys_vendor"), String::from_str(v)));
    }
    assert(pairs(raw@) =~= dmi_raw(opt_str(vendor), None));
    if let Some(p) = product {
        raw.push((String::from_str("product_name"), String::from_str(p)));
    }
    assert(pairs(raw@) =~= dmi_raw(opt_str(vendor), opt_str(product)));
    if reads_as(vendor, "lite-on tech.") && reads_as(product, "hc800") {
        Identity::sure(hc800(), running, raw)
    } else {
        let r = Identity { board: None, candidates: Vec::new(), running, version: None, raw };
        assert(models(r.candidates@) =~= seq![]);
        r
    }
}

/// The number that follows a key word, such as the 5 of `Rev 5`: white space
/// after the first occurrence of the word is skipped, and the digits up to the
/// first other character are read.
pub open spec fn number_after(text: Seq<char>, key: Seq<char>) -> Option<u8> {
    match find_from(text, key, 0) {
        Some(i) => {
            let rest = trim_start(text.skip(i + key.len()), Class::White);
            let run = rest.take(skip_class(rest, Class::Digit, 0));
            match parse_unsigned(run, 10, 255) {
                Some(v) => Some(v as u8),
                None => None,
            }
        },
        None => None,
    }
}

/// A unit at the CEFDK shell, by the type and revision its banner prints.
pub open spec fn banner_identity(text: Seq<char>) -> IdentityModel {
    match (number_after(text, "Type"@), number_after(text, "Rev"@)) {
        (Some(t), Some(v)) => IdentityModel {
            running: Running::Cefdk,
            ..c4_identity(None, Some(t), Some(v))
        },
        _ => none_model(Running::Cefdk),
    }
}

fn find_after(text: &[char], key: &str) -> (r: Option<u8>)
    ensures
        r == number_after(text@, key@),
{
    let pat = to_chars(key);
    match find_chars(text, pat.as_slice()) {
        Some(i) => {
            let tail: &[char] = slice_subrange(text, i + pat.len(), text.len());
            assert(tail@ =~= text@.skip(i + key@.len()));
            let rest: &[char] = trim_start_of(tail, &Class::White);
            let n: usize = crate::text::skip_idx(rest, &Class::Digit);
            let run: &[char] = slice_subrange(rest, 0, n);
            assert(run@ =~= rest@.take(n as int));
            match parse_number(run, 10, 255) {
                Some(v) => Some(v as u8),
                None => None,
            }
        },
        None => None,
    }
}

/// Identify from CEFDK's own banner text, e.g. `Board : Type 1, Rev 5`.
pub fn from_cefdk_banner(text: &str) -> (r: Identity)
    ensures
        r@ == banner_identity(text@),
{
    let chars = to_chars(text);
    match (find_after(chars.as_slice(), "Type"), find_after(chars.as_slice(), "Rev")) {
        (Some(t), Some(v)) => {
            let mut id = from_c4board(None, Some(t), Some(v));
            id.running = Running::Cefdk;
            id
        },
        _ => Identity::none(Running::Cefdk),
    }
}

// ------------------------------------------------------------------------- laws

/// A stock unit's board is named exactly when one candidate is left, and then
/// the identification is certain: an ambiguity is reported, never guessed at.
pub proof fn law_stock_board_is_named_only_when_sure(
    name: Option<Seq<char>>,
    btype: Option<u8>,
    rev: Option<u8>,
)
    ensures
        c4_identity(name, btype, rev).board is Some <==> c4_identity(name, btype, rev).candidates.len() == 1,
        c4_identity(name, btype, rev).board is Some ==> c4_identity(name, btype, rev).certain(),
        c4_identity(name, btype, rev).board is Some ==> c4_identity(name, btype, rev).candidates[0]
            == c4_identity(name, btype, rev).board->0,
{
}

/// The same of a running openHC.
pub proof fn law_openhc_board_is_named_only_when_sure(board: Option<Seq<char>>, model: Option<Seq<char>>)
    ensures
        env_identity(board, model).board is Some <==> env_identity(board, model).candidates.len() == 1,
        env_identity(board, model).board is Some ==> env_identity(board, model).certain(),
        env_identity(board, model).running == Running::Openhc,
{
}

/// The banner's two numbers identify what `/proc/c4board` with those numbers
/// would: which side of a takeover a unit is looked at from does not change what
/// it is.
pub proof fn law_banner_agrees_with_c4board(text: Seq<char>, t: u8, rev: u8)
    requires
        number_after(text, "Type"@) == Some(t),
        number_after(text, "Rev"@) == Some(rev),
    ensures
        banner_identity(text).board == c4_identity(None, Some(t), Some(rev)).board,
        banner_identity(text).candidates == c4_identity(None, Some(t), Some(rev)).candidates,
        banner_identity(text).running == Running::Cefdk,
{
}

proof fn lemma_named_in(v: Seq<BoardModel>, name: Seq<char>)
    ensures
        match named(v, name) {
            Some(b) => v.contains(b) && b.name == name,
            None => forall|i: int| 0 <= i < v.len() ==> (#[trigger] v[i]).name != name,
        },
    decreases v.len(),
{
    if v.len() > 0 && v[0].name != name {
        lemma_named_in(v.skip(1), name);
        match named(v.skip(1), name) {
            Some(b) => {
                let i = choose|i: int| 0 <= i < v.skip(1).len() && v.skip(1)[i] == b;
                assert(v[i + 1] == b);
            },
            None => {
                assert forall|i: int| 0 <= i < v.len() implies (#[trigger] v[i]).name != name by {
                    if i > 0 {
                        assert(v.skip(1)[i - 1] == v[i]);
                    }
                }
            },
        }
    } else if v.len() > 0 {
        assert(v[0] == named(v, name)->0);
    }
}

/// Looking a name up gives a board of the table that carries it, and fails only
/// for a name that no board carries.
pub proof fn law_lookup(name: Seq<char>)
    ensures
        match lookup(name) {
            Some(b) => table().contains(b) && b.name == lower(trim(name)),
            None => forall|i: int| 0 <= i < table().len() ==> (#[trigger] table()[i]).name != lower(trim(name)),
        },
{
    lemma_named_in(table(), lower(trim(name)));
}

} // verus!
