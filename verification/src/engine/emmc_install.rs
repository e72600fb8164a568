//! What the EA's own software makes of what the network install hands it.
use crate::engine::flow::{NextModel, OpModel};
use crate::engine::network::{
    back_command, erase_verdict, first_size, guard_verdict, mtd_command, mtd_step, number_or, ram_script,
    record_command, recorded_sizes, stage1_turn, stage2_turn, MtdAt, MtdNext, Stage1At, Stage1Model, Stage2Model,
    AUTOSCRIPT_ENV, KERNEL_SLOT, MARK_P1, READ_P1_START, WRITE_P1,
};
use crate::engine::shell::{dd_device, lemma_line_in_front, lemma_trimmed, lemma_value_of, one_line, printed};
use crate::flasher::loader::{is_word, ran};
use crate::num::{dec, lemma_digits_plain, lemma_print_parse};
use crate::text::{
    at, contains, lemma_one_word, lemma_words_push, lines, starts_with, strip_prefix, trim, white, words,
};
use vstd::prelude::*;
use vstd::string::*;

verus! {

// --------------------------------------------------------------------- the flash entry

/// The command holds these pieces, one behind the other.
pub open spec fn does_in_order(command: Seq<char>, a: Seq<char>, b: Seq<char>, c: Seq<char>, d: Seq<char>) -> bool {
    exists|p: Seq<char>, q: Seq<char>, r: Seq<char>, s: Seq<char>, t: Seq<char>|
        command == #[trigger] (p + a + q + b + r + c + s + d + t)
}

/// The script goes into its own erase block and nowhere else: the block that begins
/// at the script's place is copied out, the script laid over its beginning, that one
/// block erased, and the copy written back over it. The place is a block boundary and
/// the script fits the block.
pub proof fn law_the_script_is_spliced_into_its_own_block(out: Seq<char>, esz: nat)
    requires
        erase_verdict(out) == Ok::<nat, Seq<char>>(esz),
    ensures
        esz >= 0x800,
        exists|blk: nat|
            #![trigger dec(blk)]
            blk * esz == 0x91000 && does_in_order(
                mtd_command(esz),
                "dd if=/dev/mtd0 bs="@ + dec(esz) + " skip="@ + dec(blk) + " count=1 of=/tmp/ohc.blk "@,
                "cat > /tmp/ohc.scr;          dd if=/tmp/ohc.scr of=/tmp/ohc.blk bs=1 conv=notrunc "@,
                "flash_erase /dev/mtd0 "@ + dec(blk * esz) + " 1 "@,
                "dd if=/tmp/ohc.blk of=/dev/mtd0 bs="@ + dec(esz) + " seek="@ + dec(blk) + " count=1 "@,
            ),
{
    let blk = 0x91000nat / esz;
    assert(blk * esz == 0x91000) by (nonlinear_arith)
        requires
            esz > 0,
            0x91000nat % esz == 0,
            blk == 0x91000nat / esz,
    ;
    reveal_strlit("set -e;          dd if=/dev/mtd0 bs=");
    reveal_strlit("set -e;          ");
    reveal_strlit("dd if=/dev/mtd0 bs=");
    reveal_strlit(
        " count=1 of=/tmp/ohc.blk 2>/dev/null;          cat > /tmp/ohc.scr;          dd if=/tmp/ohc.scr of=/tmp/ohc.blk bs=1 conv=notrunc 2>/dev/null;          flash_erase /dev/mtd0 ",
    );
    reveal_strlit(" count=1 of=/tmp/ohc.blk ");
    reveal_strlit("2>/dev/null;          ");
    reveal_strlit("cat > /tmp/ohc.scr;          dd if=/tmp/ohc.scr of=/tmp/ohc.blk bs=1 conv=notrunc ");
    reveal_strlit("flash_erase /dev/mtd0 ");
    reveal_strlit(" 1 >/dev/null 2>&1;          dd if=/tmp/ohc.blk of=/dev/mtd0 bs=");
    reveal_strlit(" 1 ");
    reveal_strlit(">/dev/null 2>&1;          ");
    reveal_strlit("dd if=/tmp/ohc.blk of=/dev/mtd0 bs=");
    reveal_strlit(" count=1 2>/dev/null;          sync; rm -f /tmp/ohc.blk /tmp/ohc.scr");
    reveal_strlit(" count=1 ");
    reveal_strlit("2>/dev/null;          sync; rm -f /tmp/ohc.blk /tmp/ohc.scr");
    let p = "set -e;          "@;
    let a = "dd if=/dev/mtd0 bs="@ + dec(esz) + " skip="@ + dec(blk) + " count=1 of=/tmp/ohc.blk "@;
    let q = "2>/dev/null;          "@;
    let b = "cat > /tmp/ohc.scr;          dd if=/tmp/ohc.scr of=/tmp/ohc.blk bs=1 conv=notrunc "@;
    let c = "flash_erase /dev/mtd0 "@ + dec(blk * esz) + " 1 "@;
    let s = ">/dev/null 2>&1;          "@;
    let d = "dd if=/tmp/ohc.blk of=/dev/mtd0 bs="@ + dec(esz) + " seek="@ + dec(blk) + " count=1 "@;
    let t = "2>/dev/null;          sync; rm -f /tmp/ohc.blk /tmp/ohc.scr"@;
    assert("set -e;          dd if=/dev/mtd0 bs="@ =~= p + "dd if=/dev/mtd0 bs="@);
    assert(
        " count=1 of=/tmp/ohc.blk 2>/dev/null;          cat > /tmp/ohc.scr;          dd if=/tmp/ohc.scr of=/tmp/ohc.blk bs=1 conv=notrunc 2>/dev/null;          flash_erase /dev/mtd0 "@
            =~= " count=1 of=/tmp/ohc.blk "@ + q + b + q + "flash_erase /dev/mtd0 "@);
    assert(" 1 >/dev/null 2>&1;          dd if=/tmp/ohc.blk of=/dev/mtd0 bs="@ =~= " 1 "@ + s
        + "dd if=/tmp/ohc.blk of=/dev/mtd0 bs="@);
    assert(" count=1 2>/dev/null;          sync; rm -f /tmp/ohc.blk /tmp/ohc.scr"@ =~= " count=1 "@ + t);
    assert(mtd_command(esz) =~= p + a + q + b + q + c + s + d + t);
    assert(does_in_order(mtd_command(esz), a, b, c, d));
    assert(dec(blk) == dec(blk));
}

/// The write counts as done only when the flash, read back from the script's place,
/// begins as the script's first line begins.
pub proof fn law_the_script_is_read_back_where_it_was_put(out: Seq<char>)
    ensures
        mtd_step(MtdAt::Written, Ok(out)) == MtdNext::Go(
            MtdAt::Back,
            OpModel::Run {
                command: "dd if=/dev/mtd0 bs=1 skip="@ + dec(0x91000) + " count="@ + dec(4) + " 2>/dev/null"@,
                must: false,
            },
        ),
        mtd_step(MtdAt::Back, Ok(out)) is Verified <==> starts_with(out, ram_script()[0].take(4)),
{
    reveal_strlit(" count=4 2>/dev/null");
    reveal_strlit(" count=");
    reveal_strlit(" 2>/dev/null");
    reveal_strlit("emmc");
    reveal_strlit("emmc rd ");
    assert(dec(4) =~= seq!['4']);
    assert(back_command() =~= "dd if=/dev/mtd0 bs=1 skip="@ + dec(0x91000) + " count="@ + dec(4) + " 2>/dev/null"@);
    assert(ram_script()[0].take(4) =~= "emmc"@);
}

// ------------------------------------------------------------------ the recorded sizes

proof fn lemma_printed_sizes(k: Seq<char>, r: Seq<char>)
    ensures
        printed("KSZ=%s\\nRSZ=%s\\n"@, seq![k, r]) == "KSZ="@ + k + "\n"@ + ("RSZ="@ + r + "\n"@ + Seq::<char>::empty()),
{
    reveal_strlit("KSZ=%s\\nRSZ=%s\\n");
    reveal_strlit("KSZ=");
    reveal_strlit("RSZ=");
    reveal_strlit("\n");
    let f = "KSZ=%s\\nRSZ=%s\\n"@;
    let a = seq![k, r];
    let n = Seq::<Seq<char>>::empty();
    assert(f.len() == 16);
    assert(a.skip(1) =~= seq![r]);
    assert(seq![r].skip(1) =~= n);
    assert(printed(f.skip(16), n) =~= seq![]);
    assert(f.skip(14).skip(2) =~= f.skip(16));
    assert(printed(f.skip(14), n) == seq!['\n'] + printed(f.skip(16), n));
    assert(f.skip(12).skip(2) =~= f.skip(14));
    assert(printed(f.skip(12), seq![r]) == r + printed(f.skip(14), n));
    assert(f.skip(11).skip(1) =~= f.skip(12));
    assert(f.skip(10).skip(1) =~= f.skip(11));
    assert(f.skip(9).skip(1) =~= f.skip(10));
    assert(f.skip(8).skip(1) =~= f.skip(9));
    assert(printed(f.skip(11), seq![r]) == seq!['='] + printed(f.skip(12), seq![r]));
    assert(printed(f.skip(10), seq![r]) == seq!['Z'] + printed(f.skip(11), seq![r]));
    assert(printed(f.skip(9), seq![r]) == seq!['S'] + printed(f.skip(10), seq![r]));
    assert(printed(f.skip(8), seq![r]) == seq!['R'] + printed(f.skip(9), seq![r]));
    assert(f.skip(6).skip(2) =~= f.skip(8));
    assert(printed(f.skip(6), seq![r]) == seq!['\n'] + printed(f.skip(8), seq![r]));
    assert(f.skip(4).skip(2) =~= f.skip(6));
    assert(printed(f.skip(4), a) == k + printed(f.skip(6), seq![r]));
    assert(f.skip(3).skip(1) =~= f.skip(4));
    assert(f.skip(2).skip(1) =~= f.skip(3));
    assert(f.skip(1).skip(1) =~= f.skip(2));
    assert(f.skip(0) =~= f);
    assert(printed(f.skip(3), a) == seq!['='] + printed(f.skip(4), a));
    assert(printed(f.skip(2), a) == seq!['Z'] + printed(f.skip(3), a));
    assert(printed(f.skip(1), a) == seq!['S'] + printed(f.skip(2), a));
    assert(printed(f, a) == seq!['K'] + printed(f.skip(1), a));
    assert(printed(f, a) =~= "KSZ="@ + k + "\n"@ + ("RSZ="@ + r + "\n"@ + Seq::<char>::empty()));
}

proof fn lemma_size_line(key: Seq<char>, n: nat)
    requires
        is_word(key),
        n <= u64::MAX,
    ensures
        one_line(key + dec(n)),
        trim(key + dec(n)) == key + dec(n),
        strip_prefix(key + dec(n), key) == Some(dec(n)),
        trim(dec(n)) == dec(n),
        crate::num::parse_unsigned(dec(n), 10, u64::MAX as nat) == Some(n),
{
    lemma_digits_plain(n, 10);
    lemma_print_parse(n, 10, u64::MAX as nat);
    let d = dec(n);
    let s = key + d;
    assert(s.last() == d.last());
    lemma_value_of(key, d);
    assert forall|i: int| 0 <= i < s.len() implies !white(#[trigger] s[i]) by {
        if i < key.len() {
            assert(s[i] == key[i]);
        } else {
            assert(s[i] == d[i - key.len()]);
        }
    }
    assert(!white('a'));
    assert(white('\n') && white('\r'));
    lemma_trimmed(s);
    lemma_trimmed(d);
}

/// Two arguments of a command.
pub open spec fn two(a: Seq<char>, b: Seq<char>) -> Seq<Seq<char>> {
    seq![a, b]
}

/// The sizes that an install records are the sizes that a later one reads: the file
/// the command writes is the file that is read, and what it prints there reads back
/// as the two numbers, the kernel's first.
pub proof fn law_recorded_sizes_read_back(k: nat, r: nat, m: Stage1Model, none: Seq<char>)
    requires
        k <= u64::MAX,
        r <= u64::MAX,
        m.at is HasMtd,
        crate::engine::network::is_blank(none),
    ensures
        exists|format: Seq<char>, path: Seq<char>|
            #![trigger printed(format, two(dec(k), dec(r))), path + ";"@]
            {
                &&& record_command(k, r) == "mkdir -p /opt/ohc && printf '"@ + format + "' "@ + dec(k) + " "@ + dec(r)
                    + " > "@ + path + "; sync"@
                &&& recorded_sizes(printed(format, two(dec(k), dec(r)))) == Some((k, r))
                &&& stage1_turn(m, Ok(none)).1.next == NextModel::Do(OpModel::Read { path })
                &&& starts_with(path, "/opt/ohc/"@)
            },
{
    let f = "KSZ=%s\\nRSZ=%s\\n"@;
    reveal_strlit("mkdir -p /opt/ohc && printf 'KSZ=%s\\nRSZ=%s\\n' ");
    reveal_strlit("mkdir -p /opt/ohc && printf '");
    reveal_strlit("KSZ=%s\\nRSZ=%s\\n");
    reveal_strlit("' ");
    reveal_strlit("KSZ=");
    reveal_strlit("RSZ=");
    reveal_strlit("/opt/ohc/");
    reveal_strlit("/opt/ohc/autoscript.env");
    assert("mkdir -p /opt/ohc && printf 'KSZ=%s\\nRSZ=%s\\n' "@ =~= "mkdir -p /opt/ohc && printf '"@ + f + "' "@);
    assert(record_command(k, r) =~= "mkdir -p /opt/ohc && printf '"@ + f + "' "@ + dec(k) + " "@ + dec(r) + " > "@
        + AUTOSCRIPT_ENV@ + "; sync"@);
    assert(AUTOSCRIPT_ENV@.subrange(0, 9) =~= "/opt/ohc/"@);
    lemma_printed_sizes(dec(k), dec(r));
    lemma_size_line("KSZ="@, k);
    lemma_size_line("RSZ="@, r);
    let e = Seq::<char>::empty();
    let text = printed(f, two(dec(k), dec(r)));
    lemma_line_in_front("RSZ="@ + dec(r), e);
    lemma_line_in_front("KSZ="@ + dec(k), "RSZ="@ + dec(r) + "\n"@ + e);
    assert(lines(e) =~= seq![]);
    let ls = lines(text);
    assert(ls =~= seq!["KSZ="@ + dec(k), "RSZ="@ + dec(r)]);
    assert(strip_prefix(ls[0], "RSZ="@) is None) by {
        assert(ls[0].subrange(0, 4)[0] == 'K');
    }
    reveal_with_fuel(first_size, 3);
    assert(ls.skip(1)[0] == ls[1]);
    let witness = AUTOSCRIPT_ENV@ + ";"@;
}

/// What is recorded after the script was verified is what the script reads.
pub proof fn law_stage1_records_what_the_script_reads(m: Stage1Model, out: Seq<char>)
    requires
        m.at == Stage1At::Mtd(MtdAt::Back),
        starts_with(out, "emmc"@),
    ensures
        ({
            let b = ran(ram_script());
            let next = stage1_turn(m, Ok(out)).1.next;
            b.ramdisk() matches Some((at, rsz)) && next matches NextModel::Do(OpModel::Run { command, .. })
                && exists|ksz: nat, to: nat|
                #![trigger b.read.dom().contains(to), dec(ksz)]
                b.read.dom().contains(to) && to != at && b.read[to].1 == ksz && command == record_command(ksz, rsz)
        }),
{
    crate::engine::network::lemma_ram_script_runs();
    let b = ran(ram_script());
    assert(b.read.dom().contains(crate::flasher::cefdk::KERNEL_ADDR as nat));
    assert(dec(KERNEL_SLOT as nat) == dec(KERNEL_SLOT as nat));
}

// ------------------------------------------------------------------------ the root, p1

proof fn lemma_write_p1()
    ensures
        dd_device(WRITE_P1@) == Some("/dev/mmcblk0p1"@),
{
    reveal_strlit("dd of=/dev/mmcblk0p1 bs=1M 2>/dev/null; sync");
    reveal_strlit("dd");
    reveal_strlit("of=");
    reveal_strlit("/dev/mmcblk0p1");
    reveal_strlit("bs=1M");
    reveal_strlit("2>/dev/null;");
    reveal_strlit("sync");
    reveal_strlit(" ");
    let o = "of="@ + "/dev/mmcblk0p1"@;
    lemma_value_of("of="@, "/dev/mmcblk0p1"@);
    lemma_one_word("dd"@);
    lemma_words_push("dd"@, o);
    let s1 = "dd"@ + " "@ + o;
    lemma_words_push(s1, "bs=1M"@);
    let s2 = s1 + " "@ + "bs=1M"@;
    lemma_words_push(s2, "2>/dev/null;"@);
    let s3 = s2 + " "@ + "2>/dev/null;"@;
    lemma_words_push(s3, "sync"@);
    assert(WRITE_P1@ =~= s3 + " "@ + "sync"@);
    assert(words(WRITE_P1@) =~= seq!["dd"@, o, "bs=1M"@, "2>/dev/null;"@, "sync"@]);
}

/// Stage 2 writes one partition, whose name is the very thing it first looks for
/// among what the box has as its root: a box that tells that name is refused. The
/// partition whose start is checked before the raw writes, and the one that is marked
/// afterwards, is the same.
pub proof fn law_stage2_writes_the_partition_it_checked(m: Stage2Model, out: Seq<char>, name: Seq<char>)
    requires
        m.at is Root,
        stage2_turn(m, Ok(out)).1.next is Do,
        dd_device(stage2_turn(m, Ok(out)).1.next->Do_0->Put_command) == Some("/dev/"@ + name),
    ensures
        stage2_turn(m, Ok(out)).1.next matches NextModel::Do(OpModel::Put { data, .. }) && m.rootfs == Some(data),
        !contains(out, name),
        name == "mmcblk0"@ + "p1"@,
        contains(READ_P1_START@, "/sys/block/mmcblk0/"@ + name + "/start"@),
        contains(MARK_P1@, "mount /dev/"@ + name + " /mnt/ohcp1 "@),
{
    lemma_write_p1();
    reveal_strlit("/dev/");
    reveal_strlit("/dev/mmcblk0p1");
    reveal_strlit("mmcblk0p1");
    reveal_strlit("mmcblk0");
    reveal_strlit("p1");
    assert(name =~= ("/dev/"@ + name).skip(5));
    assert("mmcblk0p1"@ =~= "/dev/mmcblk0p1"@.skip(5));
    assert("mmcblk0p1"@ =~= "mmcblk0"@ + "p1"@);
    reveal_strlit("cat /sys/block/mmcblk0/mmcblk0p1/start 2>/dev/null");
    reveal_strlit("/sys/block/mmcblk0/");
    reveal_strlit("/start");
    let pat = "/sys/block/mmcblk0/"@ + name + "/start"@;
    assert(READ_P1_START@.subrange(4, 4 + pat.len() as int) =~= pat);
    assert(at(READ_P1_START@, pat, 4));
    lemma_mark_p1();
    assert("mount /dev/mmcblk0p1 /mnt/ohcp1 "@ =~= "mount /dev/"@ + name + " /mnt/ohcp1 "@) by {
        reveal_strlit("mount /dev/mmcblk0p1 /mnt/ohcp1 ");
        reveal_strlit("mount /dev/");
        reveal_strlit(" /mnt/ohcp1 ");
    }
}

proof fn lemma_mark_p1()
    ensures
        contains(MARK_P1@, "mount /dev/mmcblk0p1 /mnt/ohcp1 "@),
{
    reveal_strlit(
        "mkdir -p /mnt/ohcp1 && mount /dev/mmcblk0p1 /mnt/ohcp1 2>/dev/null && { test -f /mnt/ohcp1/etc/openhc-release && echo HAVE || { mkdir -p /mnt/ohcp1/etc && { cat /etc/openhc-release 2>/dev/null || printf 'openHC\\n'; } > /mnt/ohcp1/etc/openhc-release && echo STAMPED; }; } ; sync; umount /mnt/ohcp1 2>/dev/null",
    );
    reveal_strlit("mount /dev/mmcblk0p1 /mnt/ohcp1 ");
    let pat = "mount /dev/mmcblk0p1 /mnt/ohcp1 "@;
    assert(MARK_P1@.subrange(23, 23 + pat.len() as int) =~= pat);
    assert(at(MARK_P1@, pat, 23));
}

/// The box is restarted out of stage 2 only when p1 carries the release marker, be it
/// its own or one just made; anything else the box says ends the flow without a restart.
pub proof fn law_stage2_restarts_into_a_marked_root(m: Stage2Model, reply: Result<Seq<char>, Seq<char>>)
    requires
        m.at is Marked,
    ensures
        stage2_turn(m, reply).0 is Reboot <==> reply is Ok && (contains(reply->Ok_0, "HAVE"@) || contains(
            reply->Ok_0,
            "STAMPED"@,
        )),
        !(stage2_turn(m, reply).0 is Reboot) ==> stage2_turn(m, reply).0 is Ended && stage2_turn(m, reply).1.next is Failed,
        stage2_turn(m, reply).0 is Reboot ==> stage2_turn(m, reply).1.next == NextModel::Do(
            OpModel::Run { command: "sync; (sleep 1; reboot) >/dev/null 2>&1 &"@, must: false },
        ),
{
}

/// A first partition that starts before 32 MiB, by the sector the box tells, stops the
/// install before anything is written; one that starts there or later does not.
pub proof fn law_a_partition_in_the_way_stops_the_install(out: Seq<char>)
    ensures
        guard_verdict(Ok(out)) is Err <==> 0 < number_or(out, 0) * 512 < 0x2000000,
        forall|m: Stage1Model|
            #![trigger stage1_turn(m, Ok(out))]
            m.at is Guard && guard_verdict(Ok(out)) is Err ==> stage1_turn(m, Ok(out)).0 is Ended && stage1_turn(
                m,
                Ok(out),
            ).1.next is Failed,
{
}

} // verus!
