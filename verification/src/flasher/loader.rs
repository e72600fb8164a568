//! What the CEFDK shell makes of the lines it is given.
//!
//! The shell reads a line at a time. Some lines bring bytes into RAM, some set one
//! of the loader's own words, and `bootlinux` starts the kernel with what stands
//! there by then. This is the far side of the scripts: nothing here knows how a
//! script is built.
use crate::num::{digits_value, hex, hex0x, lemma_digits_plain, lemma_digits_value};
use crate::text::{lemma_one_word, lemma_words_push, white, words};
use vstd::prelude::*;
use vstd::string::*;

verus! {

/// A line as the shell understands it.
pub ghost enum Line {
    /// The box's own address, mask and gateway.
    Address { ip: Seq<char>, mask: Seq<char>, gateway: Seq<char> },
    /// Bytes of the eMMC, by the loader's count, to an address in RAM.
    Read { from: nat, to: nat, len: nat },
    /// A file of a server to an address in RAM.
    Fetch { server: Seq<char>, to: nat, name: Seq<char> },
    /// A word of memory.
    Store { addr: nat, value: nat },
    Flush,
    Boot { cmdline: Seq<char> },
    Unknown,
}

/// A number the way the shell reads it.
pub open spec fn hex_word(w: Seq<char>) -> Option<nat> {
    if w.len() > 2 && w[0] == '0' && w[1] == 'x' {
        digits_value(w.skip(2), 16)
    } else {
        None
    }
}

/// `bootlinux`, a space and a quoted command line.
pub open spec fn boot_line(line: Seq<char>) -> Option<Seq<char>> {
    let head = seq!['b', 'o', 'o', 't', 'l', 'i', 'n', 'u', 'x', ' ', '"'];
    if line.len() > head.len() && line.take(head.len() as int) == head && line.last() == '"' {
        Some(line.subrange(head.len() as int, line.len() - 1))
    } else {
        None
    }
}

pub open spec fn understood(line: Seq<char>) -> Line {
    let w = words(line);
    if boot_line(line) is Some {
        Line::Boot { cmdline: boot_line(line)->0 }
    } else if w.len() == 5 && w[0] == "ip"@ && w[1] == "set"@ {
        Line::Address { ip: w[2], mask: w[3], gateway: w[4] }
    } else if w.len() == 5 && w[0] == "emmc"@ && w[1] == "rd"@ && hex_word(w[2]) is Some && hex_word(w[3]) is Some
        && hex_word(w[4]) is Some {
        Line::Read { from: hex_word(w[2])->0, to: hex_word(w[3])->0, len: hex_word(w[4])->0 }
    } else if w.len() == 5 && w[0] == "tftp"@ && w[1] == "get"@ && hex_word(w[3]) is Some {
        Line::Fetch { server: w[2], to: hex_word(w[3])->0, name: w[4] }
    } else if w.len() == 4 && w[0] == "ord4"@ && w[2] == "="@ && hex_word(w[1]) is Some && hex_word(w[3]) is Some {
        Line::Store { addr: hex_word(w[1])->0, value: hex_word(w[3])->0 }
    } else if w.len() == 2 && w[0] == "cache"@ && w[1] == "flush"@ {
        Line::Flush
    } else {
        Line::Unknown
    }
}

/// What the shell has done so far.
pub ghost struct Machine {
    pub address: Option<Seq<char>>,
    /// Where in RAM bytes of the eMMC were brought: from where, and how many.
    pub read: Map<nat, (nat, nat)>,
    /// Where in RAM a file was brought: whose, and its name.
    pub fetched: Map<nat, (Seq<char>, Seq<char>)>,
    pub words: Map<nat, nat>,
    /// The cache was flushed since bytes last arrived. The loader copies behind the
    /// processor's back, so what is booted before that is stale.
    pub fresh: bool,
    /// The command line of the kernel that was started.
    pub booted: Option<Seq<char>>,
}

pub open spec fn at_rest() -> Machine {
    Machine {
        address: None,
        read: Map::empty(),
        fetched: Map::empty(),
        words: Map::empty(),
        fresh: true,
        booted: None,
    }
}

/// One more line. Once a kernel was started nobody reads lines any more.
pub open spec fn typed(m: Machine, line: Seq<char>) -> Machine {
    if m.booted is Some {
        m
    } else {
        match understood(line) {
            Line::Address { ip, .. } => Machine { address: Some(ip), ..m },
            Line::Read { from, to, len } => Machine { read: m.read.insert(to, (from, len)), fresh: false, ..m },
            Line::Fetch { server, to, name } => Machine {
                fetched: m.fetched.insert(to, (server, name)),
                fresh: false,
                ..m
            },
            Line::Store { addr, value } => Machine { words: m.words.insert(addr, value), ..m },
            Line::Flush => Machine { fresh: true, ..m },
            Line::Boot { cmdline } => Machine { booted: Some(cmdline), ..m },
            Line::Unknown => m,
        }
    }
}

/// The machine after all the lines.
pub open spec fn ran(lines: Seq<Seq<char>>) -> Machine
    decreases lines.len(),
{
    if lines.len() == 0 {
        at_rest()
    } else {
        typed(ran(lines.drop_last()), lines.last())
    }
}

impl Machine {
    /// Where `bootlinux` looks for the kernel.
    pub open spec fn kernel_base(self) -> Option<nat> {
        if self.words.dom().contains(0xc90a4) {
            Some(self.words[0xc90a4])
        } else {
            None
        }
    }

    /// The ramdisk the kernel is told of: its address and its length. A flag of one
    /// says that there is one.
    pub open spec fn ramdisk(self) -> Option<(nat, nat)> {
        if self.words.dom().contains(0x837560) && self.words[0x837560] == 1 && self.words.dom().contains(0x837564)
            && self.words.dom().contains(0x837568) {
            Some((self.words[0x837564], self.words[0x837568]))
        } else {
            None
        }
    }

    /// The kernel is told that there is no ramdisk.
    pub open spec fn diskless(self) -> bool {
        self.words.dom().contains(0x837560) && self.words[0x837560] == 0
    }
}

/// The loader counts the eMMC's two boot partitions in front, 4 MiB each; Linux
/// does not.
pub open spec fn loader_offset(linux: nat) -> nat {
    linux + 2 * 0x400000
}

/// A word: at least one character, none of them white space.
pub open spec fn is_word(w: Seq<char>) -> bool {
    w.len() > 0 && forall|k: int| 0 <= k < w.len() ==> !white(#[trigger] w[k])
}

// ------------------------------------------------------------------ reading back

pub proof fn lemma_hex_word(n: nat)
    ensures
        hex_word(hex0x(n)) == Some(n),
        is_word(hex0x(n)),
{
    reveal_strlit("0x");
    lemma_digits_value(n, 16);
    lemma_digits_plain(n, 16);
    let w = hex0x(n);
    assert(w.skip(2) =~= hex(n));
    assert forall|k: int| 0 <= k < w.len() implies !white(#[trigger] w[k]) by {
        if k >= 2 {
            assert(w[k] == hex(n)[k - 2]);
        }
    }
}

/// Five words, a space between each two.
pub proof fn lemma_five_words(a: Seq<char>, b: Seq<char>, c: Seq<char>, d: Seq<char>, e: Seq<char>)
    requires
        is_word(a),
        is_word(b),
        is_word(c),
        is_word(d),
        is_word(e),
    ensures
        words(a + " "@ + b + " "@ + c + " "@ + d + " "@ + e) == seq![a, b, c, d, e],
{
    lemma_one_word(a);
    lemma_words_push(a, b);
    lemma_words_push(a + " "@ + b, c);
    lemma_words_push(a + " "@ + b + " "@ + c, d);
    lemma_words_push(a + " "@ + b + " "@ + c + " "@ + d, e);
    assert(words(a + " "@ + b + " "@ + c + " "@ + d + " "@ + e) =~= seq![a, b, c, d, e]);
}

pub proof fn lemma_four_words(a: Seq<char>, b: Seq<char>, c: Seq<char>, d: Seq<char>)
    requires
        is_word(a),
        is_word(b),
        is_word(c),
        is_word(d),
    ensures
        words(a + " "@ + b + " "@ + c + " "@ + d) == seq![a, b, c, d],
{
    lemma_one_word(a);
    lemma_words_push(a, b);
    lemma_words_push(a + " "@ + b, c);
    lemma_words_push(a + " "@ + b + " "@ + c, d);
    assert(words(a + " "@ + b + " "@ + c + " "@ + d) =~= seq![a, b, c, d]);
}

/// A line that starts another way boots nothing.
proof fn lemma_no_boot(line: Seq<char>)
    requires
        line.len() > 0,
        line[0] != 'b',
    ensures
        boot_line(line) is None,
{
    let head = seq!['b', 'o', 'o', 't', 'l', 'i', 'n', 'u', 'x', ' ', '"'];
    if line.len() > head.len() && line.take(head.len() as int) == head {
        assert(line.take(head.len() as int)[0] == head[0]);
    }
}

pub proof fn lemma_read(from: nat, to: nat, len: nat)
    ensures
        understood("emmc rd "@ + hex0x(from) + " "@ + hex0x(to) + " "@ + hex0x(len)) == (Line::Read { from, to, len }),
{
    let line = "emmc rd "@ + hex0x(from) + " "@ + hex0x(to) + " "@ + hex0x(len);
    reveal_strlit("emmc rd ");
    reveal_strlit("emmc");
    reveal_strlit("rd");
    reveal_strlit("ip");
    reveal_strlit(" ");
    lemma_hex_word(from);
    lemma_hex_word(to);
    lemma_hex_word(len);
    lemma_five_words("emmc"@, "rd"@, hex0x(from), hex0x(to), hex0x(len));
    assert(line =~= "emmc"@ + " "@ + "rd"@ + " "@ + hex0x(from) + " "@ + hex0x(to) + " "@ + hex0x(len));
    assert("emmc"@[0] != "ip"@[0]);
    lemma_no_boot(line);
}

pub proof fn lemma_fetch(server: Seq<char>, to: nat, name: Seq<char>)
    requires
        is_word(server),
        is_word(name),
    ensures
        understood("tftp get "@ + server + " "@ + hex0x(to) + " "@ + name) == (Line::Fetch { server, to, name }),
{
    let line = "tftp get "@ + server + " "@ + hex0x(to) + " "@ + name;
    reveal_strlit("tftp get ");
    reveal_strlit("tftp");
    reveal_strlit("get");
    reveal_strlit("ip");
    reveal_strlit("emmc");
    reveal_strlit(" ");
    lemma_hex_word(to);
    lemma_five_words("tftp"@, "get"@, server, hex0x(to), name);
    assert(line =~= "tftp"@ + " "@ + "get"@ + " "@ + server + " "@ + hex0x(to) + " "@ + name);
    assert("tftp"@[0] == 't' && "ip"@[0] == 'i' && "emmc"@[0] == 'e');
    lemma_no_boot(line);
}

pub proof fn lemma_set(addr: nat, value: nat)
    ensures
        understood("ord4 "@ + hex0x(addr) + " = "@ + hex0x(value)) == (Line::Store { addr, value }),
{
    let line = "ord4 "@ + hex0x(addr) + " = "@ + hex0x(value);
    reveal_strlit("ord4 ");
    reveal_strlit("ord4");
    reveal_strlit(" = ");
    reveal_strlit("=");
    reveal_strlit(" ");
    lemma_hex_word(addr);
    lemma_hex_word(value);
    lemma_four_words("ord4"@, hex0x(addr), "="@, hex0x(value));
    assert(line =~= "ord4"@ + " "@ + hex0x(addr) + " "@ + "="@ + " "@ + hex0x(value));
    lemma_no_boot(line);
}

pub proof fn lemma_flush()
    ensures
        understood("cache flush"@) == Line::Flush,
{
    reveal_strlit("cache flush");
    reveal_strlit("cache");
    reveal_strlit("flush");
    reveal_strlit(" ");
    lemma_one_word("cache"@);
    lemma_words_push("cache"@, "flush"@);
    assert("cache flush"@ =~= "cache"@ + " "@ + "flush"@);
    assert(words("cache flush"@) =~= seq!["cache"@, "flush"@]);
    lemma_no_boot("cache flush"@);
}

pub proof fn lemma_address(ip: Seq<char>)
    requires
        is_word(ip),
    ensures
        understood("ip set "@ + ip + " 255.255.255.0 0.0.0.0"@) == (Line::Address {
            ip,
            mask: "255.255.255.0"@,
            gateway: "0.0.0.0"@,
        }),
{
    let line = "ip set "@ + ip + " 255.255.255.0 0.0.0.0"@;
    reveal_strlit("ip set ");
    reveal_strlit("ip");
    reveal_strlit("set");
    reveal_strlit(" 255.255.255.0 0.0.0.0");
    reveal_strlit("255.255.255.0");
    reveal_strlit("0.0.0.0");
    reveal_strlit(" ");
    lemma_five_words("ip"@, "set"@, ip, "255.255.255.0"@, "0.0.0.0"@);
    assert(line =~= "ip"@ + " "@ + "set"@ + " "@ + ip + " "@ + "255.255.255.0"@ + " "@ + "0.0.0.0"@);
    lemma_no_boot(line);
}

pub proof fn lemma_boot(cmdline: Seq<char>)
    ensures
        understood("bootlinux \""@ + cmdline + "\""@) == (Line::Boot { cmdline }),
{
    let line = "bootlinux \""@ + cmdline + "\""@;
    reveal_strlit("bootlinux \"");
    reveal_strlit("\"");
    let head = seq!['b', 'o', 'o', 't', 'l', 'i', 'n', 'u', 'x', ' ', '"'];
    assert("bootlinux \""@ =~= head);
    assert(line.take(head.len() as int) =~= head);
    assert(line.subrange(head.len() as int, line.len() - 1) =~= cmdline);
}

/// One more line at the end of a script.
pub proof fn lemma_ran(lines: Seq<Seq<char>>, line: Seq<char>)
    ensures
        ran(lines.push(line)) == typed(ran(lines), line),
{
    assert(lines.push(line).drop_last() =~= lines);
}

} // verus!
