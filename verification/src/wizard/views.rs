//! What can be seen and pressed on each page.
use crate::engine::updates::{differs, first_flasher};
use crate::flasher::board::Running;
use crate::num::dec;
use crate::text::trim;
use crate::wizard::icon::{channel, inked, letter_c, letter_h, weight};
use crate::wizard::page::{ActionModel, Field, ItemModel, Tone};
use crate::wizard::state::{ConnModel, Lvl, RelInfoModel, Step, UnitModel, WizardModel};
use crate::wizard::steps::{
    body_page, check_page, currency, find_page, head_page, image_on_offer, images_page, install_page, log_lines,
    newer_flasher, offered, release_lines, unit_choices,
};
use vstd::prelude::*;
use vstd::string::*;

verus! {

/// What stands on a longer page: the things of the shorter one, and the new.
proof fn lemma_pages()
    ensures
        forall|p: Seq<ItemModel>, x: ItemModel, q: ItemModel| #[trigger] p.push(x).contains(q) <==> p.contains(q) || q == x,
        forall|a: Seq<ItemModel>, b: Seq<ItemModel>, q: ItemModel|
            #[trigger] (a + b).contains(q) <==> a.contains(q) || b.contains(q),
{
    assert forall|p: Seq<ItemModel>, x: ItemModel, q: ItemModel| #[trigger] p.push(x).contains(q) <==> p.contains(q) || q
        == x by {
        let w = p.push(x);
        if p.contains(q) {
            let i = choose|i: int| 0 <= i < p.len() && p[i] == q;
            assert(w[i] == q);
        }
        assert(w[p.len() as int] == x);
    }
    assert forall|a: Seq<ItemModel>, b: Seq<ItemModel>, q: ItemModel|
        #[trigger] (a + b).contains(q) <==> a.contains(q) || b.contains(q) by {
        let w = a + b;
        if a.contains(q) {
            let i = choose|i: int| 0 <= i < a.len() && a[i] == q;
            assert(w[i] == q);
        }
        if b.contains(q) {
            let i = choose|i: int| 0 <= i < b.len() && b[i] == q;
            assert(w[a.len() + i] == q);
        }
    }
}

/// Each step shows its own page.
pub proof fn law_each_step_shows_its_page(w: WizardModel)
    ensures
        w.step == Step::Find ==> body_page(w) == find_page(w),
        w.step == Step::Check ==> body_page(w) == check_page(w),
        w.step == Step::Images ==> body_page(w) == images_page(w),
        w.step == Step::Install ==> body_page(w) == install_page(w),
{
}

/// The first page can scan while nothing else is done, takes an address and a password,
/// hides the password, and offers every box that was found.
pub proof fn law_the_first_page_finds(w: WizardModel, k: int)
    requires
        0 <= k < w.found.len(),
    ensures
        find_page(w).contains(ItemModel::Button("Scan the network"@, w.idle(), ActionModel::Scan)),
        find_page(w).contains(ItemModel::Input(Field::Host, "192.168.1.50"@, false)),
        find_page(w).contains(ItemModel::Input(Field::Password, "leave blank for a factory controller"@, true)),
        find_page(w).contains(unit_choices(w.found, w.host, w.details)[k]),
{
    lemma_pages();
    let c = unit_choices(w.found, w.host, w.details);
    assert(c.contains(c[k]));
    let p0 = seq![
        ItemModel::Heading(Tone::Plain, "Find your controller"@),
        ItemModel::Text(
            Tone::Plain,
            "Plug the controller into the same network as this computer and turn it on."@,
        ),
        ItemModel::Button("Scan the network"@, w.idle(), ActionModel::Scan),
    ];
    assert(p0[2] == ItemModel::Button("Scan the network"@, w.idle(), ActionModel::Scan));
    assert(p0.contains(ItemModel::Button("Scan the network"@, w.idle(), ActionModel::Scan)));
}

/// The second page says what went wrong and lets one try again, or lets one connect; an
/// uncertain board has a menu to choose it from, and a certain one only in the details.
pub proof fn law_the_second_page_connects(w: WizardModel, c: ConnModel)
    ensures
        w.connect_error matches Some(e) ==> check_page(w).contains(ItemModel::Text(Tone::Bad, e)) && check_page(
            w,
        ).contains(ItemModel::Button("Try again"@, w.idle(), ActionModel::Connect)),
        w.connect_error is None && w.conn is None && w.idle() ==> check_page(w).contains(
            ItemModel::Button("Connect"@, true, ActionModel::Connect),
        ),
        !w.details && c.id.certain() ==> offered(w, c).len() == 0,
        w.details || !c.id.certain() ==> offered(w, c) == (if c.id.candidates.len() > 1 {
            c.id.candidates
        } else {
            crate::flasher::board::table()
        }),
{
    lemma_pages();
}

/// A box is called current exactly when it runs the newest release.
pub proof fn law_a_box_is_called_current_when_it_is(p: Seq<ItemModel>, w: WizardModel, c: ConnModel)
    requires
        c.installed_version is Some,
        w.latest is Some,
    ensures
        currency(p, w, c).len() == p.len() + 1,
        differs(c.installed_version->0, w.latest->0.tag_name) ==> (currency(p, w, c).last() matches ItemModel::Text(t, _) && t
            == Tone::Warn),
        !differs(c.installed_version->0, w.latest->0.tag_name) ==> (currency(p, w, c).last() matches ItemModel::Text(t, _) && t
            == Tone::Good),
{
}

/// The third page offers the download exactly when there is one for the board, says why
/// a release cannot be read, and can read one when a path is there.
pub proof fn law_the_third_page_offers_the_image(w: WizardModel)
    ensures
        image_on_offer(w) is Some ==> images_page(w).contains(
            ItemModel::Button(
                "⤓ Download the latest openHC for this controller"@,
                w.idle(),
                ActionModel::Download,
            ),
        ),
        w.rel_error matches Some(e) ==> images_page(w).contains(ItemModel::Text(Tone::Bad, "✗ "@ + e)),
        w.rel_error is None && w.rel_info is None && w.idle() && trim(w.images).len() > 0 ==> images_page(w).contains(
            ItemModel::Button("Check this release"@, true, ActionModel::Load),
        ),
        images_page(w).contains(ItemModel::Button("Browse…"@, true, ActionModel::Browse)),
        images_page(w).contains(ItemModel::Button("Folder…"@, true, ActionModel::Folder)),
        images_page(w).contains(ItemModel::Input(Field::Images, "folder or .zip"@, false)),
{
    lemma_pages();
}

/// Every fault of a release is shown, and for the one-shot install also what it lacks.
pub proof fn law_every_fault_is_shown(p: Seq<ItemModel>, w: WizardModel, r: RelInfoModel, k: int)
    requires
        0 <= k < r.problems.len(),
    ensures
        release_lines(p, w, r).contains(ItemModel::Text(Tone::Bad, "✗ "@ + r.problems[k])),
        w.self_install && !r.names.contains("boot-init.cpio.gz"@) ==> release_lines(p, w, r).contains(
            ItemModel::Text(
                Tone::Bad,
                "✗ self-install needs "@ + "boot-init.cpio.gz"@ + ", not in this release"@,
            ),
        ),
        w.self_install && !r.names.contains("rootfs.ext2.gz"@) ==> release_lines(p, w, r).contains(
            ItemModel::Text(
                Tone::Bad,
                "✗ self-install needs "@ + "rootfs.ext2.gz"@ + ", not in this release"@,
            ),
        ),
{
    lemma_pages();
    let l = crate::wizard::steps::lines_model(r.problems, false, Tone::Bad, "✗ "@);
    assert(l[k] == ItemModel::Text(Tone::Bad, "✗ "@ + r.problems[k]));
    assert(l.contains(l[k]));
}

/// A newer flasher is offered exactly when there is one for this system; the details can
/// be shown and hidden on every page, and a notice stays in sight.
pub proof fn law_a_newer_flasher_is_offered(w: WizardModel, version: Seq<char>, os: Seq<char>)
    ensures
        newer_flasher(w, version, os) is Some <==> w.latest is Some && first_flasher(w.latest->0.assets, os) is Some
            && differs(version, w.latest->0.tag_name),
        newer_flasher(w, version, os) is Some ==> newer_flasher(w, version, os) == Some(w.latest->0.tag_name)
            && head_page(w, version, os).contains(
            ItemModel::Button("Update now"@, w.idle(), ActionModel::UpdateFlasher),
        ),
        head_page(w, version, os).contains(
            ItemModel::Check(
                w.details,
                "Details"@,
                "Show raw evidence, flash offsets and the full engine log"@,
                ActionModel::ToggleDetails,
            ),
        ),
        w.notice matches Some(n) ==> head_page(w, version, os).contains(ItemModel::Text(Tone::Good, n)),
        head_page(w, version, os).contains(
            ItemModel::Text(Tone::Strong, dec(step_number(w.step)) + ". "@ + w.step.title_spec()),
        ),
{
    lemma_pages();
}

/// The steps are numbered in the order they are gone through.
pub open spec fn step_number(s: Step) -> nat {
    match s {
        Step::Find => 1,
        Step::Check => 2,
        Step::Images => 3,
        Step::Install => 4,
    }
}

/// The log is shown line by line, a warning as one; details only when they are wanted.
pub proof fn law_the_log_is_shown(log: Seq<(Lvl, Seq<char>)>, t: Seq<char>)
    ensures
        log_lines(log.push((Lvl::Step, t)), false) == log_lines(log, false).push(ItemModel::Mono(Tone::Plain, t)),
        log_lines(log.push((Lvl::Warn, t)), false) == log_lines(log, false).push(ItemModel::Mono(Tone::Warn, t)),
        log_lines(log.push((Lvl::Detail, t)), false) == log_lines(log, false),
        log_lines(log.push((Lvl::Detail, t)), true) == log_lines(log, true).push(ItemModel::Mono(Tone::Weak, t)),
        log_lines(log.push((Lvl::Step, t)), true) == log_lines(log, true).push(ItemModel::Mono(Tone::Plain, t)),
{
    assert(log.push((Lvl::Step, t)).drop_last() =~= log);
    assert(log.push((Lvl::Warn, t)).drop_last() =~= log);
    assert(log.push((Lvl::Detail, t)).drop_last() =~= log);
}

/// What a box runs is told once it has answered; until then it is being asked.
pub proof fn law_what_a_box_runs_is_told(u: UnitModel)
    ensures
        !u.probed ==> u.firmware() == "checking…"@,
        u.probed && u.running == Some(Running::Stock) ==> u.firmware() == "the original Control4 software"@,
        u.probed && u.running == Some(Running::Openhc) ==> u.firmware() == "openHC (already installed)"@,
        u.probed && u.running is None && u.sddp ==> u.firmware() == "Control4 (needs a password to read more)"@,
        u.probed && u.running is None && !u.sddp && u.note is Some ==> u.firmware() == u.note->0,
{
}

/// The icon's letters, row by row.
pub open spec fn drawn(row: int, h: bool) -> Seq<char> {
    if h {
        if row == 3 {
            "#####"@
        } else {
            "#...#"@
        }
    } else {
        if row == 0 || row == 6 {
            ".###."@
        } else if row == 1 || row == 5 {
            "#...#"@
        } else {
            "#...."@
        }
    }
}

/// The icon shows an H and a C, in white on green.
pub proof fn law_the_icon_shows_its_letters(row: int, col: int, x: int, y: int)
    requires
        0 <= row < 7,
        0 <= col < 5,
    ensures
        letter_h(row) / weight(col) % 2 == 1 <==> drawn(row, true)[col] == '#',
        letter_c(row) / weight(col) % 2 == 1 <==> drawn(row, false)[col] == '#',
        inked(x, y) ==> channel(x, y, 0) == 255 && channel(x, y, 1) == 255 && channel(x, y, 2) == 255 && channel(x, y, 3)
            == 255,
        !inked(x, y) && !crate::wizard::icon::clipped(x, y) ==> channel(x, y, 1) > channel(x, y, 2) > channel(x, y, 0)
            && channel(x, y, 3) == 255,
        !inked(x, y) && crate::wizard::icon::clipped(x, y) ==> channel(x, y, 3) == 0,
{
    reveal_strlit("#####");
    reveal_strlit("#...#");
    reveal_strlit(".###.");
    reveal_strlit("#....");
    assert(17u32 / 16u32 % 2 == 1 && 17u32 / 8u32 % 2 == 0 && 17u32 / 4u32 % 2 == 0 && 17u32 / 2u32 % 2 == 0 && 17u32 / 1u32 % 2 == 1);
    assert(31u32 / 16u32 % 2 == 1 && 31u32 / 8u32 % 2 == 1 && 31u32 / 4u32 % 2 == 1 && 31u32 / 2u32 % 2 == 1 && 31u32 / 1u32 % 2 == 1);
    assert(14u32 / 16u32 % 2 == 0 && 14u32 / 8u32 % 2 == 1 && 14u32 / 4u32 % 2 == 1 && 14u32 / 2u32 % 2 == 1 && 14u32 / 1u32 % 2 == 0);
    assert(16u32 / 16u32 % 2 == 1 && 16u32 / 8u32 % 2 == 0 && 16u32 / 4u32 % 2 == 0 && 16u32 / 2u32 % 2 == 0 && 16u32 / 1u32 % 2 == 0);
    if col == 0 {
        assert(weight(col) == 16);
    } else if col == 1 {
        assert(weight(col) == 8);
    } else if col == 2 {
        assert(weight(col) == 4);
    } else if col == 3 {
        assert(weight(col) == 2);
    } else {
        assert(weight(col) == 1);
    }
}

} // verus!
