//! What a press of each button does, what each page shows, and what an install makes
//! of its parts.
use crate::engine::release::artefact;
use crate::engine::updates::{first_flasher, AssetModel};
use crate::flasher::board::{lookup, BoardModel, IdentityModel};
use crate::flasher::image::ea_complaints;
use crate::num::dec;
use crate::text::trim;
use crate::wizard::jobs::{
    fresh_unit, info_of, log_text, probed_in, run_turn, FoundModel, JobModel, RunAt, RunStepModel,
};
use crate::wizard::page::{ActionModel, ItemModel, Tone};
use crate::wizard::state::{
    log_line, nearest, size_text, typed_passwords, ConnModel, Lvl, Phase, RelInfoModel, Step, UnitModel, WizardModel,
};
use crate::wizard::steps::{board_choices, identity_rows, image_on_offer, install_page, nav_page, spare, unit_choices};
use vstd::prelude::*;
use vstd::string::*;

verus! {

/// A press of a button does what the button says and nothing else: it changes the one
/// thing it is for, and starts the one job it is for.
pub proof fn law_a_press_does_what_the_button_says(w: WizardModel, os: Seq<char>, ip: Seq<char>, name: Seq<char>)
    ensures
        w.pressed(ActionModel::Pick(ip), os) == (WizardModel { host: ip, ..w }, JobModel::Nothing),
        w.pressed(ActionModel::Force(name), os).0.forced == lookup(name),
        w.pressed(ActionModel::Unforce, os).0 == (WizardModel { forced: None, ..w }),
        w.pressed(ActionModel::ToggleDetails, os).0 == (WizardModel { details: !w.details, ..w }),
        w.pressed(ActionModel::ToggleSelfInstall, os).0 == (WizardModel { self_install: !w.self_install, ..w }),
        w.pressed(ActionModel::ClearLog, os).0 == (WizardModel { log: seq![], ..w }),
        w.pressed(ActionModel::Scan, os).1 == JobModel::Scan,
        w.pressed(ActionModel::Browse, os) == (w, JobModel::Browse),
        w.pressed(ActionModel::Folder, os) == (w, JobModel::Folder),
        w.pressed(ActionModel::Connect, os).1 == (JobModel::Connect {
            host: trim(w.host),
            passwords: typed_passwords(w.password),
        }),
        w.pressed(ActionModel::Load, os).1 == (JobModel::Load { path: trim(w.images) }),
        w.pressed(ActionModel::CopyLog, os).1 == (JobModel::Copy { text: log_text(w.log) }),
{
}

/// An old list, an old connection and an old release are forgotten when a new one is
/// asked for, and the wizard is busy until the answer is there.
pub proof fn law_a_new_search_forgets_the_old(w: WizardModel, os: Seq<char>)
    ensures
        ({
            let s = w.pressed(ActionModel::Scan, os).0;
            s.found.len() == 0 && !s.scanned && !s.idle() && s.host == w.host && s.conn == w.conn
        }),
        ({
            let s = w.pressed(ActionModel::Connect, os).0;
            s.conn is None && s.forced is None && s.connect_error is None && !s.idle() && s.host == w.host && s.rel_info
                == w.rel_info
        }),
        ({
            let s = w.pressed(ActionModel::Load, os).0;
            s.rel_info is None && s.rel_error is None && !s.idle() && s.images == w.images && s.conn == w.conn
        }),
{
}

/// Back undoes next, step by step, and neither leaves the ends; leaving the first step
/// connects to the address typed there.
pub proof fn law_back_undoes_next(w: WizardModel)
    ensures
        w.step == Step::Find ==> w.next().0.step == Step::Check && w.next().1 == (JobModel::Connect {
            host: trim(w.host),
            passwords: typed_passwords(w.password),
        }),
        w.step == Step::Check ==> w.next() == (WizardModel { step: Step::Images, ..w }, JobModel::Nothing),
        w.step == Step::Images ==> w.next() == (WizardModel { step: Step::Install, ..w }, JobModel::Nothing),
        w.step == Step::Install ==> w.next() == (w, JobModel::Nothing),
        w.step == Step::Check || w.step == Step::Images ==> w.next().0.back() == w,
        w.step == Step::Find ==> w.back() == w && w.next().0.back().step == Step::Find,
{
}

/// An install is made of what was found and chosen: it goes to the host that was logged
/// into, with the fuse of the board that was chosen or found, in the way that was
/// ticked.
pub proof fn law_an_install_is_made_of_what_was_chosen(w: WizardModel, finish_only: bool)
    requires
        w.rel_info is Some,
        w.conn is Some,
        w.board() is Some,
    ensures
        w.installing(finish_only).1 == (JobModel::Install {
            host: w.conn->0.host,
            secure_boot: (match w.forced {
                Some(b) => b.secure_boot,
                None => w.conn->0.id.board->0.secure_boot,
            }),
            self_install: w.self_install,
            finish_only,
        }),
        !w.installing(finish_only).0.idle(),
        w.installing(finish_only).0.error is None,
        w.installing(finish_only).0.phase == Some(
            if finish_only {
                Phase::Restarting
            } else {
                Phase::Writing
            },
        ),
        w.installing(false).0.stage1_done == false,
{
}

/// A download is of the file that was offered, from its own address.
pub proof fn law_a_download_is_of_the_file_offered(w: WizardModel, a: AssetModel, os: Seq<char>)
    ensures
        image_on_offer(w) == Some(a) ==> w.downloading().1 == (JobModel::Download { url: a.url, name: a.name }),
        image_on_offer(w) is None ==> w.downloading() == (w, JobModel::Nothing),
        (w.latest matches Some(r) && first_flasher(r.assets, os) == Some(a)) ==> w.updating(os).1 == (JobModel::Update {
            url: a.url,
            name: a.name,
        }),
{
}

/// A dropped file is the release that is then read.
pub proof fn law_a_dropped_file_is_read(w: WizardModel, path: Seq<char>)
    ensures
        w.given(path).0.images == path,
        w.given(path).0.step == Step::Images,
        w.given(path).1 == (JobModel::Load { path: trim(path) }),
{
}

/// What came back is what is then shown.
pub proof fn law_an_answer_is_kept(
    w: WizardModel,
    c: ConnModel,
    r: RelInfoModel,
    why: Seq<char>,
    v: Seq<UnitModel>,
    host: Seq<char>,
)
    ensures
        w.connected(c).conn == Some(c),
        w.loaded(r).rel_info == Some(r),
        w.load_failed(why).rel_error == Some(why),
        w.installed(Err(why)).error == Some(why) && w.installed(Err(why)).phase == Some(Phase::Failed),
        w.installed(Ok(())).phase == Some(Phase::Done) && w.installed(Ok(())).error == w.error,
        w.installed(Ok(())).wait is None && w.installed(Err(why)).wait is None,
        w.updated(why).notice == Some(why),
        w.scanned_units(v).found == v && w.scanned_units(v).scanned,
        w.connect_failed(host, true).connect_error is Some && w.connect_failed(host, false).connect_error is Some,
        w.connect_failed(host, true).conn == w.conn,
{
}

/// Only the asked box changes when a box has answered: it is then known to have
/// answered, by the name and with the system and board it gave; one that let nobody in
/// says so.
pub proof fn law_only_the_asked_box_changes(
    v: Seq<UnitModel>,
    ip: Seq<char>,
    hostname: Option<Seq<char>>,
    id: Option<IdentityModel>,
    k: int,
)
    requires
        0 <= k < v.len(),
        forall|i: int, j: int| 0 <= i < j < v.len() ==> (#[trigger] v[i]).ip != (#[trigger] v[j]).ip,
    ensures
        probed_in(v, ip, hostname, id).len() == v.len(),
        v[k].ip != ip ==> probed_in(v, ip, hostname, id)[k] == v[k],
        v[k].ip == ip ==> ({
            let u = probed_in(v, ip, hostname, id)[k];
            &&& u.probed && u.hostname == hostname && u.ip == ip && u.mac == v[k].mac && u.sddp == v[k].sddp
            &&& id matches Some(i) ==> u.running == Some(i.running) && u.board == i.board
            &&& id is None ==> u.note is Some && u.running == v[k].running && u.board == v[k].board
        }),
    decreases v.len(),
{
    if v[0].ip != ip {
        let rest = v.skip(1);
        if k > 0 {
            assert(rest[k - 1] == v[k]);
            assert forall|i: int, j: int| 0 <= i < j < rest.len() implies (#[trigger] rest[i]).ip != (#[trigger] rest[j]).ip by {
                assert(rest[i] == v[i + 1] && rest[j] == v[j + 1]);
            }
            law_only_the_asked_box_changes(rest, ip, hostname, id, k - 1);
        } else if rest.len() > 0 {
            assert forall|i: int, j: int| 0 <= i < j < rest.len() implies (#[trigger] rest[i]).ip != (#[trigger] rest[j]).ip by {
                assert(rest[i] == v[i + 1] && rest[j] == v[j + 1]);
            }
            law_only_the_asked_box_changes(rest, ip, hostname, id, 0);
        }
    } else if k > 0 {
        assert(v[0].ip != v[k].ip);
    }
}

/// A box just found is listed with its own addresses, and as one that answered the
/// search when it did.
pub proof fn law_a_found_box_is_listed(f: FoundModel)
    ensures
        fresh_unit(f).ip == f.ip,
        fresh_unit(f).mac == f.mac,
        fresh_unit(f).sddp <==> f.via.contains("sddp"@),
        !fresh_unit(f).probed && fresh_unit(f).board is None && fresh_unit(f).running is None,
{
}

/// A release is judged by its own kernel, whole and by its first bytes, and by whether
/// it has a root filesystem.
pub proof fn law_a_release_is_judged_by_its_files(
    source: Seq<char>,
    files: Map<Seq<char>, Seq<u8>>,
    names: Seq<Seq<char>>,
    kernel: Seq<u8>,
)
    requires
        0x400 <= kernel.len() <= u64::MAX,
        artefact(files, "bzImage"@) == Some(kernel),
    ensures
        info_of(source, files, names).kernel_len == kernel.len(),
        info_of(source, files, names).source == source,
        info_of(source, files, names).names == names,
        info_of(source, files, names).problems == ea_complaints(
            Some(kernel.subrange(0, 0x400)),
            kernel.len(),
            files.dom().contains("rootfs.ext2"@),
            true,
        ),
{
    assert(kernel.subrange(0, 0x400) =~= kernel.take(0x400));
}

/// What is spare is what the window has left, and nothing when it is full.
pub proof fn law_what_is_spare(kernel_len: u64)
    ensures
        kernel_len <= 0x713000 ==> kernel_len + spare(kernel_len) == 0x713000,
        kernel_len > 0x713000 ==> spare(kernel_len) == 0,
{
}

/// A quotient is rounded to the nearest whole, and to the even one of two as near.
pub proof fn law_nearest_is_nearest(n: nat, d: nat)
    requires
        d > 0,
    ensures
        2 * n - d <= 2 * (nearest(n, d) * d) <= 2 * n + d,
        2 * (nearest(n, d) * d) == 2 * n + d || 2 * (nearest(n, d) * d) == 2 * n - d ==> nearest(n, d) % 2 == 0,
{
    let q = n / d;
    let r = n % d;
    assert(n == q * d + r && 0 <= r < d) by (nonlinear_arith)
        requires
            d > 0,
            q == n / d,
            r == n % d,
    ;
    assert((q + 1) * d == q * d + d) by (nonlinear_arith);
}

/// A small size is told in bytes, a middling one in kilobytes of 1024, and only a large
/// one in megabytes.
pub proof fn law_a_size_is_told_in_its_unit(n: nat)
    ensures
        n < 1024 ==> size_text(n) == dec(n) + " B"@,
        1024 <= n < 1048576 ==> exists|k: nat| #![trigger dec(k)]
            size_text(n) == dec(k) + " KB"@ && 2 * n - 1024 <= 2048 * k <= 2 * n + 1024,
{
    if 1024 <= n < 1048576 {
        law_nearest_is_nearest(n, 1024);
        assert(size_text(n) == dec(nearest(n, 1024)) + " KB"@);
    }
}

/// Every box found is offered with its own address, and the one whose address is typed
/// is marked; every board offered is chosen by its own name.
pub proof fn law_a_choice_chooses_itself(
    v: Seq<UnitModel>,
    host: Seq<char>,
    details: bool,
    b: Seq<BoardModel>,
    current: Option<BoardModel>,
    k: int,
)
    ensures
        0 <= k < v.len() ==> (unit_choices(v, host, details)[k] matches ItemModel::Choice(on, label, a) && on == (host
            == v[k].ip) && a == ActionModel::Pick(v[k].ip)),
        unit_choices(v, host, details).len() == v.len(),
        0 <= k < b.len() ==> (board_choices(b, current)[k] matches ItemModel::Choice(on, label, a) && a
            == ActionModel::Force(b[k].name) && (on <==> current is Some && current->0.name == b[k].name)),
        board_choices(b, current).len() == b.len(),
{
}

/// What is known of the box is in the rows for it.
pub proof fn law_the_rows_say_what_is_known(p: Seq<ItemModel>, w: WizardModel, c: ConnModel)
    ensures
        identity_rows(p, w, c).contains(ItemModel::Row("Address"@, Tone::Plain, true, c.host)),
        w.board() matches Some(b) ==> identity_rows(p, w, c).contains(
            ItemModel::Row("Model"@, Tone::Strong, false, b.desc),
        ),
        w.board() is None ==> identity_rows(p, w, c).contains(
            ItemModel::Row("Model"@, Tone::Bad, false, "could not be identified"@),
        ),
        c.installed_version matches Some(v) ==> identity_rows(p, w, c).contains(
            ItemModel::Row("openHC version"@, Tone::Plain, true, v),
        ),
        w.latest matches Some(r) ==> identity_rows(p, w, c).contains(
            ItemModel::Row("Latest release"@, Tone::Plain, true, r.tag_name),
        ),
{
    let rows = identity_rows(p, w, c);
    let n = p.len() as int;
    assert(rows[n] == ItemModel::Row("Address"@, Tone::Plain, true, c.host));
    match w.board() {
        Some(b) => {
            assert(rows[n + 1] == ItemModel::Row("Model"@, Tone::Strong, false, b.desc));
        },
        None => {
            assert(rows[n + 1] == ItemModel::Row("Model"@, Tone::Bad, false, "could not be identified"@));
        },
    }
    match c.installed_version {
        Some(v) => {
            assert(rows[n + 3] == ItemModel::Row("openHC version"@, Tone::Plain, true, v));
        },
        None => {},
    }
    if w.latest is Some {
        assert(rows[rows.len() - 1] == ItemModel::Row("Latest release"@, Tone::Plain, true, w.latest->0.tag_name));
    }
}

/// The last page offers the install, with the address and the release it is of, until
/// it has begun; and afterwards to finish it exactly when its first half was done.
pub proof fn law_the_install_page_offers_the_next_thing(w: WizardModel)
    requires
        w.board() is Some,
    ensures
        w.phase is None ==> install_page(w).contains(
            ItemModel::Button("Install openHC"@, w.idle(), ActionModel::Install),
        ) && install_page(w).contains(ItemModel::Row("Address"@, Tone::Plain, true, w.host)) && install_page(w).contains(
            ItemModel::Row("Release"@, Tone::Plain, true, w.images),
        ) && install_page(w).contains(ItemModel::Row("Controller"@, Tone::Strong, false, w.board()->0.desc)),
        w.phase == Some(Phase::Done) ==> install_page(w).contains(
            ItemModel::Button("Install another"@, true, ActionModel::Reset),
        ),
        w.phase == Some(Phase::Failed) ==> (install_page(w).contains(
            ItemModel::Button("Finish install"@, w.idle(), ActionModel::Finish),
        ) <==> w.stage1_done),
        w.phase == Some(Phase::Failed) && w.error is Some ==> install_page(w).contains(
            ItemModel::Text(Tone::Bad, w.error->0),
        ),
{
    let p = install_page(w);
    if w.phase is None {
        assert(p[1] == ItemModel::Row("Controller"@, Tone::Strong, false, w.board()->0.desc));
        assert(p[2] == ItemModel::Row("Address"@, Tone::Plain, true, w.host));
        assert(p[3] == ItemModel::Row("Release"@, Tone::Plain, true, w.images));
        assert(p[6] == ItemModel::Button("Install openHC"@, w.idle(), ActionModel::Install));
    } else if w.phase == Some(Phase::Done) {
        assert(p[2] == ItemModel::Button("Install another"@, true, ActionModel::Reset));
    } else if w.phase == Some(Phase::Failed) {
        let k: int = if w.error is Some {
            3
        } else {
            2
        };
        if w.error is Some {
            assert(p[1] == ItemModel::Text(Tone::Bad, w.error->0));
        }
        if w.stage1_done {
            assert(p[k] == ItemModel::Button("Finish install"@, w.idle(), ActionModel::Finish));
        } else {
            assert forall|i: int| 0 <= i < p.len() implies #[trigger] p[i] != ItemModel::Button(
                "Finish install"@,
                w.idle(),
                ActionModel::Finish,
            ) by {
                assert(p[i] matches ItemModel::Button(_, _, a) ==> a == ActionModel::Reset);
            }
        }
    }
}

/// One can go back from every step but the first, and on from every step but the last
/// once nothing stands in the way; neither while the wizard is busy.
pub proof fn law_one_can_go_on_when_nothing_is_in_the_way(w: WizardModel)
    ensures
        nav_page(w)[1] == ItemModel::Button("Back"@, w.step != Step::Find && w.busy is None, ActionModel::Back),
        nav_page(w)[2] == ItemModel::Button(
            "Next"@,
            w.step != Step::Install && w.blocker() is None && w.busy is None,
            ActionModel::Next,
        ),
{
}

/// What an install tells is logged at the level it is told at, word for word.
pub proof fn law_what_is_told_is_logged(t: Seq<char>)
    ensures
        log_line(crate::engine::flow::EventModel::Step(t)) == (Lvl::Step, t),
        log_line(crate::engine::flow::EventModel::Resolved(t)) == (Lvl::Step, t),
        log_line(crate::engine::flow::EventModel::Detail(t)) == (Lvl::Detail, t),
        log_line(crate::engine::flow::EventModel::Observed(t)) == (Lvl::Detail, t),
        log_line(crate::engine::flow::EventModel::Warn(t)) == (Lvl::Warn, t),
        log_line(crate::engine::flow::EventModel::Await { title: t, instruction: t }).0 == Lvl::Warn,
{
}

/// An install goes through its stages in order: what was asked for is done first, the
/// restart is waited for after the first stage, and the second stage follows the
/// restart; a stage that failed ends it, with its own words.
pub proof fn law_an_install_goes_in_order(self_install: bool, finish_only: bool, w: WizardModel, why: Seq<char>)
    ensures
        ({
            let (at, _, step) = run_turn(RunAt::Start, self_install, finish_only, w, Ok(()));
            &&& finish_only ==> at == RunAt::Waiting && step == (RunStepModel::Wait { secs: 300 })
            &&& !finish_only && self_install ==> at == RunAt::SelfInstalling && step == RunStepModel::SelfInstall
            &&& !finish_only && !self_install ==> at == RunAt::Writing && step == RunStepModel::Stage1
        }),
        run_turn(RunAt::Writing, self_install, finish_only, w, Ok(())).2 == (RunStepModel::Wait { secs: 300 }),
        run_turn(RunAt::Writing, self_install, finish_only, w, Ok(())).1.stage1_done,
        run_turn(RunAt::Writing, self_install, finish_only, w, Err(why)).2 == RunStepModel::Ended(Err(why)),
        run_turn(RunAt::Waiting, self_install, finish_only, w, Ok(())).2 == RunStepModel::Stage2,
        run_turn(RunAt::Waiting, self_install, finish_only, w, Err(why)).2 matches RunStepModel::Ended(r) && r is Err,
        run_turn(RunAt::Finishing, self_install, finish_only, w, Ok(())).2 == RunStepModel::Ended(Ok(())),
        run_turn(RunAt::Finishing, self_install, finish_only, w, Err(why)).2 == RunStepModel::Ended(Err(why)),
        run_turn(RunAt::SelfInstalling, self_install, finish_only, w, Err(why)).2 == RunStepModel::Ended(Err(why)),
        run_turn(RunAt::SelfInstalling, self_install, finish_only, w, Ok(())).2 == RunStepModel::Ended(Ok(())),
{
}

} // verus!
