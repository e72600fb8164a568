//! What the HC-800's own software makes of what the install flows hand it: `kexec`,
//! the shell, and GRUB.
use crate::engine::flow::{NextModel, OpModel};
use crate::engine::hc800::{
    append_text, free_turn, grub_turn, is_default_line, kexec_tool, kexec_turn, menu_line, menu_lines, new_menu,
    restore_command, GrubAt, GrubModel, KexecAt, KexecModel, GRUB_DEFAULT, GRUB_MOUNT, KERNEL_MOUNT, MENU,
    STAGED_INITRD, STAGED_KERNEL,
};
use crate::engine::network::{is_blank, number_or};
use crate::engine::shell::{cat_file, lemma_cat_file, lemma_line_in_front, one_line};
use crate::flasher::hc800::{
    default_text, entry_text, CMDLINE, ENTRY_VENDOR, GRUB_KERNEL_ROOT, GRUB_PART, INITRD_FILE, KERNEL_FILE,
    KERNEL_PART, RESTORE_PART, VENDOR_ROOT_PART,
};
use crate::flasher::loader::is_word;
use crate::num::dec;
use crate::text::{head, lines, starts_with, strip_prefix, utf8, Class};
use vstd::prelude::*;
use vstd::string::*;

verus! {

/// Bytes that a flow streams into a file of the box.
pub ghost struct FileWrite {
    pub path: Seq<char>,
    pub data: Seq<u8>,
}

pub open spec fn file_write(n: NextModel) -> Option<FileWrite> {
    match n {
        NextModel::Do(OpModel::Put { data, command }) => match cat_file(command) {
            Some(path) => Some(FileWrite { path, data }),
            None => None,
        },
        _ => None,
    }
}

pub open spec fn command_of(n: NextModel) -> Option<Seq<char>> {
    match n {
        NextModel::Do(OpModel::Run { command, .. }) => Some(command),
        _ => None,
    }
}

// -------------------------------------------------------------------------- kexec

proof fn lemma_staged()
    ensures
        is_word(STAGED_KERNEL@),
        is_word(STAGED_INITRD@),
        STAGED_KERNEL@ != STAGED_INITRD@,
{
    reveal_strlit("/tmp/openhc-bzImage");
    reveal_strlit("/tmp/openhc-initrd.gz");
    assert(STAGED_KERNEL@.len() != STAGED_INITRD@.len());
}

/// The load names as the kernel the file that the kernel was streamed into, and as
/// the initrd the file that the initramfs was streamed into; those are two files. Each
/// is measured under its own name first, and a file that is not as long as the image
/// it should hold ends the flow. With the jump both are removed.
pub proof fn law_kexec_starts_what_was_staged(
    m: KexecModel,
    first: Result<Seq<char>, Seq<char>>,
    out: Seq<char>,
    own: bool,
)
    ensures
        ({
            let k = file_write(kexec_turn(KexecModel { at: KexecAt::Start, ..m }, first).1.next);
            let i = file_write(kexec_turn(KexecModel { at: KexecAt::KernelPut, ..m }, Ok(out)).1.next);
            let load = kexec_turn(KexecModel { at: KexecAt::Watchdog(own), ..m }, first);
            let jump = kexec_turn(KexecModel { at: KexecAt::Loaded(own), ..m }, Ok(out));
            &&& k is Some && k->0.data == m.kernel
            &&& i is Some && i->0.data == m.initrd && i->0.path != k->0.path
            &&& load.1.next == NextModel::Do(
                OpModel::Run {
                    command: kexec_tool(own) + " -l "@ + k->0.path + " --initrd="@ + i->0.path + " --append='"@
                        + append_text(m.netconsole) + "'"@,
                    must: true,
                },
            )
            &&& command_of(kexec_turn(KexecModel { at: KexecAt::InitrdPut, ..m }, Ok(out)).1.next) == Some(
                "wc -c < "@ + k->0.path,
            )
            &&& kexec_turn(KexecModel { at: KexecAt::KernelLen, ..m }, Ok(out)).0 is Ended <==> number_or(out, 0)
                != m.kernel.len()
            &&& number_or(out, 0) == m.kernel.len() ==> command_of(
                kexec_turn(KexecModel { at: KexecAt::KernelLen, ..m }, Ok(out)).1.next,
            ) == Some("wc -c < "@ + i->0.path)
            &&& kexec_turn(KexecModel { at: KexecAt::InitrdLen, ..m }, Ok(out)).0 is Ended <==> number_or(out, 0)
                != m.initrd.len()
            &&& command_of(jump.1.next) == Some(
                "rm -f "@ + k->0.path + " "@ + i->0.path + "; sync; "@ + kexec_tool(own) + " -e"@,
            )
        }),
{
    lemma_staged();
    lemma_cat_file(STAGED_KERNEL@);
    lemma_cat_file(STAGED_INITRD@);
}

/// The tool is the box's own where it has one, and else the one that was found to be
/// executable; without either nothing is loaded.
pub proof fn law_kexec_runs_a_tool_that_is_there(m: KexecModel, reply: Result<Seq<char>, Seq<char>>, own: bool)
    ensures
        kexec_turn(m, reply).0 == KexecAt::Watchdog(own) ==> reply is Ok && (if own {
            m.at is Which && !is_blank(reply->Ok_0) && kexec_tool(own) == "kexec"@
        } else {
            m.at is Static
        }),
        m.at is Which && kexec_turn(m, reply).0 is Static ==> command_of(kexec_turn(m, reply).1.next) == Some(
            "test -x "@ + kexec_tool(false),
        ),
        kexec_turn(m, reply).0 == KexecAt::Loaded(own) && !(m.at is Loaded) ==> m.at == KexecAt::Watchdog(own),
{
}

/// The new kernel is started with the board's command line, and where a network
/// console is wanted with that behind it.
pub proof fn law_kexec_appends_the_console(nc: Seq<char>)
    ensures
        append_text(None) == CMDLINE@,
        append_text(Some(nc)).take(CMDLINE@.len() as int) == CMDLINE@,
        append_text(Some(nc)).skip(CMDLINE@.len() as int + 1) == nc,
        append_text(Some(nc))[CMDLINE@.len() as int] == ' ',
{
    reveal_strlit(" ");
    assert(append_text(Some(nc)).take(CMDLINE@.len() as int) =~= CMDLINE@);
    assert(append_text(Some(nc)).skip(CMDLINE@.len() as int + 1) =~= nc);
}

// --------------------------------------------------------------------------- GRUB

/// What a menu line says of something: the rest of the line after the word for it.
pub open spec fn directive(line: Seq<char>, key: Seq<char>) -> Option<Seq<char>> {
    strip_prefix(line, key + "\t\t"@)
}

/// How many entries a menu has: GRUB counts its titles.
pub open spec fn entries(ls: Seq<Seq<char>>) -> nat
    decreases ls.len(),
{
    if ls.len() == 0 {
        0
    } else {
        entries(ls.drop_last()) + if starts_with(ls.last(), "title"@) {
            1nat
        } else {
            0nat
        }
    }
}

proof fn lemma_paths()
    ensures
        is_word(KERNEL_MOUNT@ + KERNEL_FILE@),
        is_word(KERNEL_MOUNT@ + INITRD_FILE@),
        is_word(MENU@),
        is_word(GRUB_DEFAULT@),
        KERNEL_FILE@ != INITRD_FILE@,
        MENU@ != GRUB_DEFAULT@,
        is_word(KERNEL_FILE@),
        is_word(INITRD_FILE@),
{
    reveal_strlit("/mnt/ohc-kernel");
    reveal_strlit("/boot/openhc-bzImage");
    reveal_strlit("/boot/openhc-initrd.gz");
    reveal_strlit("/mnt/ohc-grub/boot/grub/menu.lst");
    reveal_strlit("/mnt/ohc-grub/boot/grub/default");
    assert(KERNEL_FILE@.len() != INITRD_FILE@.len());
    assert(MENU@.len() != GRUB_DEFAULT@.len());
}

/// The lines of the entry that is appended.
pub open spec fn entry_lines(boot_once: bool) -> Seq<Seq<char>> {
    lines(entry_text(boot_once))
}

spec fn root_line() -> Seq<char> {
    "root\t\t"@ + GRUB_KERNEL_ROOT@
}

spec fn kernel_line() -> Seq<char> {
    "kernel\t\t"@ + KERNEL_FILE@ + " "@ + CMDLINE@
}

spec fn initrd_line() -> Seq<char> {
    "initrd\t\t"@ + INITRD_FILE@
}

spec fn save_line() -> Seq<char> {
    "savedefault\t"@ + dec(ENTRY_VENDOR as nat)
}

/// The lines that both kinds of entry begin with, and more text.
spec fn entry_before(t: Seq<char>) -> Seq<char> {
    ""@ + "\n"@ + ("title\t\topenHC"@ + "\n"@ + (root_line() + "\n"@ + (kernel_line() + "\n"@ + (initrd_line()
        + "\n"@ + t))))
}

proof fn lemma_entry_ones()
    ensures
        one_line(""@),
        one_line("title\t\topenHC"@),
        one_line(root_line()),
        one_line(kernel_line()),
        one_line(initrd_line()),
        one_line(save_line()),
        one_line("boot"@),
{
    reveal_strlit("");
    reveal_strlit("title\t\topenHC");
    reveal_strlit("root\t\t");
    reveal_strlit("kernel\t\t");
    reveal_strlit("initrd\t\t");
    reveal_strlit("savedefault\t");
    reveal_strlit("boot");
    reveal_strlit(" ");
    reveal_strlit("(hd0,2)");
    reveal_strlit("/boot/openhc-bzImage");
    reveal_strlit("/boot/openhc-initrd.gz");
    reveal_strlit("console=ttyS0,115200");
    crate::num::lemma_digits_plain(ENTRY_VENDOR as nat, 10);
    let d = dec(ENTRY_VENDOR as nat);
    assert forall|k: int| 0 <= k < d.len() implies #[trigger] d[k] != '\n' && d[k] != '\r' by {
        assert(!crate::text::white(crate::num::digits(ENTRY_VENDOR as nat, 10)[k]));
    }
    assert(save_line().last() == d.last());
}

proof fn lemma_entry_front(t: Seq<char>)
    ensures
        lines(entry_before(t)) == seq![
            ""@,
            "title\t\topenHC"@,
            root_line(),
            kernel_line(),
            initrd_line(),
        ] + lines(t),
{
    lemma_entry_ones();
    let nl = "\n"@;
    let t5 = initrd_line() + nl + t;
    let t4 = kernel_line() + nl + t5;
    let t3 = root_line() + nl + t4;
    let t2 = "title\t\topenHC"@ + nl + t3;
    lemma_line_in_front(initrd_line(), t);
    lemma_line_in_front(kernel_line(), t5);
    lemma_line_in_front(root_line(), t4);
    lemma_line_in_front("title\t\topenHC"@, t3);
    lemma_line_in_front(""@, t2);
    assert(lines(entry_before(t)) =~= seq![
        ""@,
        "title\t\topenHC"@,
        root_line(),
        kernel_line(),
        initrd_line(),
    ] + lines(t));
}

proof fn lemma_entry_head(t: Seq<char>)
    ensures
        crate::flasher::hc800::entry_head() + "\n"@ + t == entry_before(t),
{
    reveal_strlit("\ntitle\t\topenHC\nroot\t\t");
    reveal_strlit("\nkernel\t\t");
    reveal_strlit("\ninitrd\t\t");
    reveal_strlit("");
    reveal_strlit("title\t\topenHC");
    reveal_strlit("root\t\t");
    reveal_strlit("kernel\t\t");
    reveal_strlit("initrd\t\t");
    reveal_strlit("\n");
    let nl = "\n"@;
    assert("\ntitle\t\topenHC\nroot\t\t"@ =~= ""@ + nl + "title\t\topenHC"@ + nl + "root\t\t"@);
    assert("\nkernel\t\t"@ =~= nl + "kernel\t\t"@);
    assert("\ninitrd\t\t"@ =~= nl + "initrd\t\t"@);
    let a = ""@ + nl + "title\t\topenHC"@ + nl + "root\t\t"@;
    let h = a + GRUB_KERNEL_ROOT@ + (nl + "kernel\t\t"@) + KERNEL_FILE@ + " "@ + CMDLINE@ + (nl + "initrd\t\t"@)
        + INITRD_FILE@;
    assert(crate::flasher::hc800::entry_head() == h);
    assert(h + nl + t =~= entry_before(t));
}

proof fn lemma_entry_lines()
    ensures
        entry_lines(true) == seq![
            ""@,
            "title\t\topenHC"@,
            "root\t\t"@ + GRUB_KERNEL_ROOT@,
            "kernel\t\t"@ + KERNEL_FILE@ + " "@ + CMDLINE@,
            "initrd\t\t"@ + INITRD_FILE@,
            "savedefault\t"@ + dec(ENTRY_VENDOR as nat),
            "boot"@,
        ],
        entry_lines(false) == seq![
            ""@,
            "title\t\topenHC"@,
            "root\t\t"@ + GRUB_KERNEL_ROOT@,
            "kernel\t\t"@ + KERNEL_FILE@ + " "@ + CMDLINE@,
            "initrd\t\t"@ + INITRD_FILE@,
            "boot"@,
        ],
{
    reveal_strlit("\nsavedefault\t");
    reveal_strlit("savedefault\t");
    reveal_strlit("\nboot\n");
    reveal_strlit("boot");
    reveal_strlit("\n");
    let nl = "\n"@;
    let e = Seq::<char>::empty();
    let t7 = "boot"@ + nl + e;
    let t6 = save_line() + nl + t7;
    lemma_entry_ones();
    lemma_line_in_front("boot"@, e);
    lemma_line_in_front(save_line(), t7);
    lemma_entry_front(t6);
    lemma_entry_front(t7);
    lemma_entry_head(t6);
    lemma_entry_head(t7);
    let h = crate::flasher::hc800::entry_head();
    assert("\nboot\n"@ =~= nl + t7);
    assert("\nsavedefault\t"@ =~= nl + "savedefault\t"@);
    assert(entry_text(false) =~= h + nl + t7);
    assert(entry_text(true) =~= h + nl + t6);
    assert(lines(e) =~= seq![]);
    assert(entry_lines(true) =~= seq![
        ""@,
        "title\t\topenHC"@,
        root_line(),
        kernel_line(),
        initrd_line(),
        save_line(),
        "boot"@,
    ]);
    assert(entry_lines(false) =~= seq![
        ""@,
        "title\t\topenHC"@,
        root_line(),
        kernel_line(),
        initrd_line(),
        "boot"@,
    ]);
}

/// GRUB, told to boot the entry, reads the kernel and the initrd from the very files
/// that were streamed onto the kernel partition: the entry's root is that partition
/// by GRUB's count, which starts at zero where the kernel's starts at one, and the
/// entry's files, below where that partition was mounted, are the files written.
pub proof fn law_the_entry_boots_the_files_that_were_written(
    m: GrubModel,
    free: Seq<char>,
    out: Seq<char>,
    boot_once: bool,
)
    requires
        number_or(free, 0) >= (m.kernel.len() + m.initrd.len()) / 1024 + 4096,
    ensures
        ({
            let k = file_write(grub_turn(GrubModel { at: GrubAt::Free, ..m }, Ok(free)).1.next);
            let i = file_write(grub_turn(GrubModel { at: GrubAt::KernelPut, ..m }, Ok(out)).1.next);
            let mount = command_of(grub_turn(GrubModel { at: GrubAt::Start, ..m }, Ok(out)).1.next);
            let e = entry_lines(boot_once);
            &&& k is Some && k->0.data == m.kernel
            &&& i is Some && i->0.data == m.initrd
            &&& e.len() >= 6 && starts_with(e[1], "title"@)
            &&& exists|mnt: Seq<char>, part: nat|
                #![trigger dec(part), mnt + "/"@]
                {
                    &&& mount == Some("mkdir -p "@ + mnt + " && mount /dev/sda"@ + dec(part + 1) + " "@ + mnt)
                    &&& directive(e[2], "root"@) == Some("(hd0,"@ + dec(part) + ")"@)
                    &&& directive(e[3], "kernel"@) is Some && k->0.path == mnt + head(
                        directive(e[3], "kernel"@)->0,
                        Class::One(' '),
                    )
                    &&& directive(e[4], "initrd"@) is Some && i->0.path == mnt + directive(e[4], "initrd"@)->0
                }
            &&& e.last() == "boot"@
        }),
{
    lemma_paths();
    lemma_cat_file(KERNEL_MOUNT@ + KERNEL_FILE@);
    lemma_cat_file(KERNEL_MOUNT@ + INITRD_FILE@);
    lemma_entry_lines();
    let e = entry_lines(boot_once);
    reveal_strlit("\t\t");
    reveal_strlit("root");
    reveal_strlit("kernel");
    reveal_strlit("initrd");
    reveal_strlit("root\t\t");
    reveal_strlit("kernel\t\t");
    reveal_strlit("initrd\t\t");
    reveal_strlit("title\t\topenHC");
    reveal_strlit("title");
    reveal_strlit(" ");
    reveal_strlit("/dev/sda3");
    reveal_strlit("/dev/sda");
    reveal_strlit(" && mount ");
    reveal_strlit(" && mount /dev/sda");
    reveal_strlit("(hd0,2)");
    reveal_strlit("(hd0,");
    reveal_strlit(")");
    assert(dec(2) =~= seq!['2']);
    assert(dec(3) =~= seq!['3']);
    assert("cat > "@ + KERNEL_MOUNT@ + KERNEL_FILE@ =~= "cat > "@ + (KERNEL_MOUNT@ + KERNEL_FILE@));
    assert("cat > "@ + KERNEL_MOUNT@ + INITRD_FILE@ =~= "cat > "@ + (KERNEL_MOUNT@ + INITRD_FILE@));
    assert(e[1].subrange(0, 5) =~= "title"@);
    lemma_directive("root"@, GRUB_KERNEL_ROOT@);
    lemma_directive("kernel"@, KERNEL_FILE@ + " "@ + CMDLINE@);
    lemma_directive("initrd"@, INITRD_FILE@);
    assert("root"@ + "\t\t"@ + GRUB_KERNEL_ROOT@ =~= e[2]);
    assert("kernel"@ + "\t\t"@ + (KERNEL_FILE@ + " "@ + CMDLINE@) =~= e[3]);
    assert("initrd"@ + "\t\t"@ + INITRD_FILE@ =~= e[4]);
    assert(GRUB_KERNEL_ROOT@ =~= "(hd0,"@ + dec(2) + ")"@);
    assert("mkdir -p "@ + KERNEL_MOUNT@ + " && mount "@ + KERNEL_PART@ + " "@ + KERNEL_MOUNT@ =~= "mkdir -p "@
        + KERNEL_MOUNT@ + " && mount /dev/sda"@ + dec(3) + " "@ + KERNEL_MOUNT@);
    lemma_head(KERNEL_FILE@, CMDLINE@);
    let witness = KERNEL_MOUNT@ + "/"@;
    assert(dec(2) == dec(2nat));
}

proof fn lemma_directive(key: Seq<char>, v: Seq<char>)
    ensures
        directive(key + "\t\t"@ + v, key) == Some(v),
{
    let p = key + "\t\t"@;
    assert((p + v).subrange(0, p.len() as int) =~= p);
    assert((p + v).skip(p.len() as int) =~= v);
}

proof fn lemma_head(file: Seq<char>, rest: Seq<char>)
    requires
        is_word(file),
    ensures
        head(file + " "@ + rest, Class::One(' ')) == file,
{
    reveal_strlit(" ");
    let s = file + " "@ + rest;
    let cl = Class::One(' ');
    crate::text::lemma_first_from(s, cl, 0);
    let j = crate::text::first_from(s, cl, 0);
    assert(s[file.len() as int] == ' ');
    assert(j == file.len()) by {
        if j < file.len() {
            assert(s[j] == file[j]);
        }
    }
    assert(s.take(j) =~= file);
    assert(s.subrange(0, j) =~= file);
}

/// The openHC boot hands the saved default back before it boots: `savedefault`, with
/// the number of the vendor's entry, stands in the entry, and `boot` is its last line.
/// An entry that is to stay saves nothing.
pub proof fn law_a_boot_once_entry_hands_the_default_back()
    ensures
        exists|i: int|
            0 <= i < entry_lines(true).len() - 1 && #[trigger] entry_lines(true)[i] == "savedefault\t"@ + dec(1),
        entry_lines(true).last() == "boot"@,
        forall|i: int|
            0 <= i < entry_lines(false).len() ==> !starts_with(#[trigger] entry_lines(false)[i], "savedefault"@),
        entry_lines(false).last() == "boot"@,
{
    lemma_entry_lines();
    assert(entry_lines(true)[5] == "savedefault\t"@ + dec(1));
    reveal_strlit("savedefault");
    reveal_strlit("");
    reveal_strlit("title\t\topenHC");
    reveal_strlit("root\t\t");
    reveal_strlit("kernel\t\t");
    reveal_strlit("initrd\t\t");
    reveal_strlit("boot");
    assert forall|i: int| 0 <= i < entry_lines(false).len() implies !starts_with(
        #[trigger] entry_lines(false)[i],
        "savedefault"@,
    ) by {
        let l = entry_lines(false)[i];
        if l.len() >= 11 {
            assert(l.subrange(0, 11)[0] == l[0]);
            assert("savedefault"@[0] == 's');
            assert(l[0] != 's');
        }
    }
}

proof fn lemma_entries_push(v: Seq<Seq<char>>, l: Seq<char>)
    ensures
        entries(v.push(l)) == entries(v) + if starts_with(l, "title"@) {
            1nat
        } else {
            0nat
        },
{
    assert(v.push(l).drop_last() =~= v);
}

proof fn lemma_entries_append(a: Seq<Seq<char>>, b: Seq<Seq<char>>)
    ensures
        entries(a + b) == entries(a) + entries(b),
    decreases b.len(),
{
    if b.len() == 0 {
        assert(a + b =~= a);
    } else {
        lemma_entries_append(a, b.drop_last());
        assert((a + b).drop_last() =~= a + b.drop_last());
    }
}

/// The lines of the menu that is written: the vendor's, each rewritten or kept, and
/// then the entry's.
proof fn lemma_menu_lines(ls: Seq<Seq<char>>, rest: Seq<char>)
    requires
        forall|i: int| 0 <= i < ls.len() ==> one_line(#[trigger] ls[i]),
    ensures
        lines(menu_lines(ls) + rest) == ls.map_values(|l: Seq<char>| menu_line(l)) + lines(rest),
    decreases ls.len(),
{
    let f = ls.map_values(|l: Seq<char>| menu_line(l));
    if ls.len() == 0 {
        assert(menu_lines(ls) + rest =~= rest);
        assert(f + lines(rest) =~= lines(rest));
    } else {
        let init = ls.drop_last();
        let l = ls.last();
        assert(one_line(ls[ls.len() - 1]));
        assert forall|i: int| 0 <= i < init.len() implies one_line(#[trigger] init[i]) by {
            assert(init[i] == ls[i]);
        }
        reveal_strlit("default\t\tsaved");
        assert(one_line(menu_line(l)));
        let more = menu_line(l) + "\n"@ + rest;
        lemma_menu_lines(init, more);
        lemma_line_in_front(menu_line(l), rest);
        assert(menu_lines(ls) + rest =~= menu_lines(init) + more);
        assert(f =~= init.map_values(|l: Seq<char>| menu_line(l)).push(menu_line(l)));
        assert(f + lines(rest) =~= init.map_values(|l: Seq<char>| menu_line(l)) + (seq![menu_line(l)] + lines(rest)));
    }
}

proof fn lemma_entries_kept(ls: Seq<Seq<char>>)
    ensures
        entries(ls.map_values(|l: Seq<char>| menu_line(l))) == entries(ls),
    decreases ls.len(),
{
    let f = ls.map_values(|l: Seq<char>| menu_line(l));
    if ls.len() > 0 {
        lemma_entries_kept(ls.drop_last());
        assert(f.drop_last() =~= ls.drop_last().map_values(|l: Seq<char>| menu_line(l)));
        let l = ls.last();
        if is_default_line(l) {
            reveal_strlit("default\t\tsaved");
            reveal_strlit("default");
            reveal_strlit("title");
            assert(!starts_with("default\t\tsaved"@, "title"@)) by {
                assert("default\t\tsaved"@.subrange(0, 5)[0] == 'd');
            }
            assert(!starts_with(l, "title"@)) by {
                if starts_with(l, "title"@) {
                    assert(l.subrange(0, 5)[0] == 't');
                    assert(!crate::text::white(l[0]));
                    assert(crate::text::skip_class(l, Class::White, 0) == 0);
                    let t = crate::text::trim_start(l, Class::White);
                    assert(t =~= l);
                    assert(t.subrange(0, 7)[0] == 'd');
                }
            }
        }
    }
}

/// GRUB, told to boot the saved default that the install writes, boots openHC: the
/// vendor's menu has two entries, its lines come first and in their order, and the
/// number written is that of the entry that comes next. The entry in turn saves the
/// number of one of the vendor's.
pub proof fn law_the_saved_default_is_openhc(before: Seq<char>, m: GrubModel, out: Seq<char>)
    requires
        forall|i: int| 0 <= i < lines(before).len() ==> one_line(#[trigger] lines(before)[i]),
        entries(lines(before)) == 2,
    ensures
        ({
            let now = lines(new_menu(before));
            let n = lines(before).len() as int;
            let d = file_write(grub_turn(GrubModel { at: GrubAt::MenuPut, ..m }, Ok(out)).1.next);
            &&& now.len() == n + entry_lines(true).len()
            &&& now.skip(n) == entry_lines(true)
            &&& forall|i: int| 0 <= i < n ==> #[trigger] now[i] == menu_line(lines(before)[i])
            &&& d is Some && d->0.data == utf8(default_text(entries(now.take(n))))
            &&& lines(default_text(entries(now.take(n))))[0] == dec(entries(now.take(n)))
            &&& entries(now) == entries(now.take(n)) + 1
            &&& ENTRY_VENDOR < entries(now.take(n))
        }),
{
    let ls = lines(before);
    let f = ls.map_values(|l: Seq<char>| menu_line(l));
    let now = lines(new_menu(before));
    let n = ls.len() as int;
    lemma_menu_lines(ls, entry_text(true));
    lemma_entries_kept(ls);
    lemma_entry_lines();
    lemma_entry_count();
    lemma_paths();
    lemma_cat_file(GRUB_DEFAULT@);
    assert(now.take(n) =~= f);
    assert(now.skip(n) =~= entry_lines(true));
    lemma_entries_append(f, entry_lines(true));
    assert(now =~= f + entry_lines(true));
    lemma_default_line(2);
}

proof fn lemma_entry_count()
    ensures
        entries(entry_lines(true)) == 1,
{
    lemma_entry_lines();
    reveal_strlit("title");
    reveal_strlit("");
    reveal_strlit("title\t\topenHC");
    reveal_strlit("root\t\t");
    reveal_strlit("kernel\t\t");
    reveal_strlit("initrd\t\t");
    reveal_strlit("savedefault\t");
    reveal_strlit("boot");
    let e = entry_lines(true);
    assert(e[1].subrange(0, 5) =~= "title"@);
    assert forall|i: int| 0 <= i < e.len() && i != 1 implies !starts_with(#[trigger] e[i], "title"@) by {
        if e[i].len() >= 5 {
            assert(e[i].subrange(0, 5)[0] == e[i][0]);
            assert(e[i][0] != 't');
        }
    }
    let s0 = Seq::<Seq<char>>::empty();
    assert(entries(s0) == 0);
    lemma_entries_push(s0, e[0]);
    lemma_entries_push(s0.push(e[0]), e[1]);
    lemma_entries_push(s0.push(e[0]).push(e[1]), e[2]);
    lemma_entries_push(s0.push(e[0]).push(e[1]).push(e[2]), e[3]);
    lemma_entries_push(s0.push(e[0]).push(e[1]).push(e[2]).push(e[3]), e[4]);
    lemma_entries_push(s0.push(e[0]).push(e[1]).push(e[2]).push(e[3]).push(e[4]), e[5]);
    lemma_entries_push(s0.push(e[0]).push(e[1]).push(e[2]).push(e[3]).push(e[4]).push(e[5]), e[6]);
    assert(e =~= s0.push(e[0]).push(e[1]).push(e[2]).push(e[3]).push(e[4]).push(e[5]).push(e[6]));
}

proof fn lemma_default_line(n: nat)
    ensures
        lines(default_text(n)).len() > 0,
        lines(default_text(n))[0] == dec(n),
{
    crate::num::lemma_digits_plain(n, 10);
    let d = dec(n);
    let tail =
        "\n#\n# This file is used by the grub-set-default command.\n# openHC writes it so `default saved` has something to read.\n# Do not move or edit it: savedefault rewrites these bytes directly,\n# by sector, without going through the filesystem.\n"@;
    reveal_strlit(
        "\n#\n# This file is used by the grub-set-default command.\n# openHC writes it so `default saved` has something to read.\n# Do not move or edit it: savedefault rewrites these bytes directly,\n# by sector, without going through the filesystem.\n",
    );
    reveal_strlit("\n");
    assert forall|k: int| 0 <= k < d.len() implies #[trigger] d[k] != '\n' && d[k] != '\r' by {
        assert(!crate::text::white(crate::num::digits(n, 10)[k]));
    }
    assert(one_line(d));
    lemma_line_in_front(d, tail.skip(1));
    assert(default_text(n) =~= d + "\n"@ + tail.skip(1));
}

/// The backup is a copy of the menu that is about to be written, and the way back
/// copies it the other way; the menu that is read, written and read back is one file
/// on the bootloader's partition, which is mounted for it.
pub proof fn law_the_backup_goes_back_where_it_came_from(m: GrubModel, before: Seq<char>, out: Seq<char>)
    requires
        grub_turn(GrubModel { at: GrubAt::Before, ..m }, Ok(before)).0.at is Backup,
        crate::engine::hc800::has_default(lines(m.before)),
    ensures
        ({
            let saved = command_of(grub_turn(GrubModel { at: GrubAt::Before, ..m }, Ok(before)).1.next);
            let put = file_write(grub_turn(GrubModel { at: GrubAt::Backup, ..m }, Ok(out)).1.next);
            &&& put is Some && put->0.data == utf8(new_menu(m.before))
            &&& grub_turn(GrubModel { at: GrubAt::MountGrub, ..m }, Ok(out)).1.next == NextModel::Do(
                OpModel::Read { path: put->0.path },
            )
            &&& grub_turn(GrubModel { at: GrubAt::DefaultPut, ..m }, Ok(out)).1.next == NextModel::Do(
                OpModel::Read { path: put->0.path },
            )
            &&& exists|copy: Seq<char>|
                #![trigger copy + ";"@]
                saved == Some("cp "@ + put->0.path + " "@ + copy) && starts_with(
                    restore_command(),
                    "cp "@ + copy + " "@ + put->0.path + ";"@,
                ) && copy != put->0.path
            &&& starts_with(put->0.path, GRUB_MOUNT@ + "/"@)
            &&& command_of(grub_turn(GrubModel { at: GrubAt::UnmountKernel, ..m }, Ok(out)).1.next) == Some(
                "mkdir -p "@ + GRUB_MOUNT@ + " && mount "@ + GRUB_PART@ + " "@ + GRUB_MOUNT@,
            )
        }),
{
    lemma_paths();
    lemma_cat_file(MENU@);
    let copy = MENU@ + ".pre-openhc"@;
    reveal_strlit(".pre-openhc");
    reveal_strlit(".pre-openhc ");
    reveal_strlit(" ");
    reveal_strlit(";");
    reveal_strlit("; sync; umount ");
    reveal_strlit("/mnt/ohc-grub");
    reveal_strlit("/mnt/ohc-grub/boot/grub/menu.lst");
    reveal_strlit("/");
    assert("cp "@ + MENU@ + " "@ + MENU@ + ".pre-openhc"@ =~= "cp "@ + MENU@ + " "@ + copy);
    let p = "cp "@ + copy + " "@ + MENU@ + ";"@;
    assert(restore_command().subrange(0, p.len() as int) =~= p);
    assert(copy.len() != MENU@.len());
    assert(MENU@.subrange(0, (GRUB_MOUNT@ + "/"@).len() as int) =~= GRUB_MOUNT@ + "/"@);
    let witness = copy + ";"@;
}

/// The bootloader, the factory-restore system, the kernels and the vendor's root are
/// the disk's first four partitions, in that order; the two the install mounts are
/// the first and the third.
pub proof fn law_the_partitions_are_told_apart()
    ensures
        GRUB_PART@ == "/dev/sda"@ + dec(1),
        RESTORE_PART@ == "/dev/sda"@ + dec(2),
        KERNEL_PART@ == "/dev/sda"@ + dec(3),
        VENDOR_ROOT_PART@ == "/dev/sda"@ + dec(4),
{
    reveal_strlit("/dev/sda");
    reveal_strlit("/dev/sda1");
    reveal_strlit("/dev/sda2");
    reveal_strlit("/dev/sda3");
    reveal_strlit("/dev/sda4");
    assert(dec(1) =~= seq!['1']);
    assert(dec(2) =~= seq!['2']);
    assert(dec(3) =~= seq!['3']);
    assert(dec(4) =~= seq!['4']);
    assert(GRUB_PART@ =~= "/dev/sda"@ + dec(1));
    assert(RESTORE_PART@ =~= "/dev/sda"@ + dec(2));
    assert(KERNEL_PART@ =~= "/dev/sda"@ + dec(3));
    assert(VENDOR_ROOT_PART@ =~= "/dev/sda"@ + dec(4));
}

/// Nothing is streamed onto the kernel partition that does not fit: the free space
/// the box tells, in KiB, holds both images with four MiB to spare.
pub proof fn law_the_images_fit_what_is_free(m: GrubModel, out: Seq<char>)
    ensures
        file_write(free_turn(m, out).1.next) is Some ==> number_or(out, 0) * 1024 > m.kernel.len() + m.initrd.len()
            + 4095 * 1024,
        number_or(out, 0) * 1024 >= m.kernel.len() + m.initrd.len() + 4096 * 1024 ==> file_write(
            free_turn(m, out).1.next,
        ) is Some,
{
    lemma_paths();
    lemma_cat_file(KERNEL_MOUNT@ + KERNEL_FILE@);
    assert("cat > "@ + KERNEL_MOUNT@ + KERNEL_FILE@ =~= "cat > "@ + (KERNEL_MOUNT@ + KERNEL_FILE@));
}

} // verus!
