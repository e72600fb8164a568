//! What is picked out of a release, and what is said while a box is waited for.
use crate::engine::archive::EntryModel;
use crate::engine::mfgmode::{fed, silence_told, Stage, WatchModel};
use crate::engine::release::{artefact, base_name, folder_files, known_names, zip_files};
use crate::engine::updates::{
    app_binary, bundle_os, differs, fetch_args, first_flasher, first_image, is_app_binary, latest_args, AssetModel,
    REPO,
};
use crate::text::{contains, ends_with, last_before, lemma_last_before, starts_with, tail, trim, Class};
use vstd::prelude::*;
use vstd::string::*;

verus! {

/// A program called with these words has this value for this option.
pub open spec fn has_option(v: Seq<Seq<char>>, flag: Seq<char>, value: Seq<char>) -> bool {
    exists|i: int| 0 <= i < v.len() - 1 && #[trigger] v[i] == flag && v[i + 1] == value
}

/// A bundle of this board's by its name.
pub open spec fn is_bundle_for(name: Seq<char>, board: Seq<char>) -> bool {
    starts_with(name, "openhc-"@ + board + "-"@) && ends_with(name, ".zip"@)
}

/// The image offered for a board is one of the release's files, and one of that
/// board's bundles; no earlier file was passed over but for belonging to a board with
/// a longer name. Nothing is offered only when there is nothing of that kind.
pub proof fn law_the_image_is_the_boards_own(v: Seq<AssetModel>, board: Seq<char>)
    ensures
        match first_image(v, board) {
            Some(a) => v.contains(a) && is_bundle_for(a.name, board),
            None => forall|i: int| #![trigger v[i]]
                0 <= i < v.len() && is_bundle_for(v[i].name, board) ==> exists|k: int|
                    0 <= k < crate::flasher::board::table().len() && is_bundle_for(
                        v[i].name,
                        (#[trigger] crate::flasher::board::table()[k]).name,
                    ) && starts_with(crate::flasher::board::table()[k].name, board + "-"@),
        },
    decreases v.len(),
{
    if v.len() > 0 {
        let rest = v.skip(1);
        law_the_image_is_the_boards_own(rest, board);
        match first_image(v, board) {
            Some(a) => {
                if !crate::engine::updates::is_image_of(v[0].name, board) {
                    let j = choose|j: int| 0 <= j < rest.len() && rest[j] == a;
                    assert(v[j + 1] == a);
                } else {
                    assert(v[0] == a);
                }
            },
            None => {
                assert forall|i: int| #![trigger v[i]]
                    0 <= i < v.len() && is_bundle_for(v[i].name, board) implies exists|k: int|
                        0 <= k < crate::flasher::board::table().len() && is_bundle_for(
                            v[i].name,
                            (#[trigger] crate::flasher::board::table()[k]).name,
                        ) && starts_with(crate::flasher::board::table()[k].name, board + "-"@) by {
                    if i > 0 {
                        assert(rest[i - 1] == v[i]);
                    }
                }
            },
        }
    }
}

/// The flasher offered is one of the release's files, is named as one for this system,
/// and is the first such; nothing is offered only when there is none.
pub proof fn law_the_flasher_is_for_this_system(v: Seq<AssetModel>, os: Seq<char>)
    ensures
        match first_flasher(v, os) {
            Some(a) => exists|i: int| #![trigger v[i]]
                0 <= i < v.len() && v[i] == a && starts_with(a.name, "ohc-flasher-"@) && contains(a.name, "-"@ + os)
                    && forall|j: int| #![trigger v[j]]
                    0 <= j < i ==> !(starts_with(v[j].name, "ohc-flasher-"@) && contains(v[j].name, "-"@ + os)),
            None => forall|i: int| #![trigger v[i]]
                0 <= i < v.len() ==> !(starts_with(v[i].name, "ohc-flasher-"@) && contains(v[i].name, "-"@ + os)),
        },
    decreases v.len(),
{
    if v.len() > 0 {
        let rest = v.skip(1);
        law_the_flasher_is_for_this_system(rest, os);
        if starts_with(v[0].name, "ohc-flasher-"@) && contains(v[0].name, "-"@ + os) {
            assert(v[0] == first_flasher(v, os)->0);
        } else {
            match first_flasher(rest, os) {
                Some(a) => {
                    let i = choose|i: int| #![trigger rest[i]]
                        0 <= i < rest.len() && rest[i] == a && forall|j: int| #![trigger rest[j]]
                            0 <= j < i ==> !(starts_with(rest[j].name, "ohc-flasher-"@) && contains(
                                rest[j].name,
                                "-"@ + os,
                            ));
                    assert(v[i + 1] == a);
                    assert forall|j: int| #![trigger v[j]] 0 <= j < i + 1 implies !(starts_with(
                        v[j].name,
                        "ohc-flasher-"@,
                    ) && contains(v[j].name, "-"@ + os)) by {
                        if j > 0 {
                            assert(rest[j - 1] == v[j]);
                        }
                    }
                },
                None => {
                    assert forall|i: int| #![trigger v[i]] 0 <= i < v.len() implies !(starts_with(
                        v[i].name,
                        "ohc-flasher-"@,
                    ) && contains(v[i].name, "-"@ + os)) by {
                        if i > 0 {
                            assert(rest[i - 1] == v[i]);
                        }
                    }
                },
            }
        }
    }
}

/// Each system has bundles of its own name, and every other one takes Linux's.
pub proof fn law_a_system_has_its_own_bundle(target: Seq<char>)
    ensures
        target == "macos"@ || target == "windows"@ || target == "linux"@ ==> bundle_os(target) == target,
        target != "macos"@ && target != "windows"@ ==> bundle_os(target) == "linux"@,
{
}

/// curl is asked for the address, follows it, fails on a refusal, and writes where it
/// was told; the newest release is asked of the project's own page.
pub proof fn law_curl_fetches_what_was_asked_for(url: Seq<char>, dest: Seq<char>)
    ensures
        fetch_args(url, dest).last() == url,
        has_option(fetch_args(url, dest), "-o"@, dest),
        has_option(fetch_args(url, dest), "-A"@, "ohc-flasher"@),
        fetch_args(url, dest)[0] == "-fL"@,
        latest_args().last() == "https://api.github.com/repos/The1TrueJoe/openHC/releases/latest"@,
        has_option(latest_args(), "-H"@, "Accept: application/vnd.github+json"@),
        has_option(latest_args(), "-A"@, "ohc-flasher"@),
        latest_args()[0] == "-fsSL"@,
{
    let f = fetch_args(url, dest);
    assert(f[3] == "-o"@ && f[4] == dest);
    assert(f[1] == "-A"@ && f[2] == "ohc-flasher"@);
    let l = latest_args();
    assert(l[3] == "-H"@ && l[4] == "Accept: application/vnd.github+json"@);
    assert(l[1] == "-A"@ && l[2] == "ohc-flasher"@);
    reveal_strlit("https://api.github.com/repos/");
    reveal_strlit("The1TrueJoe/openHC");
    reveal_strlit("/releases/latest");
    reveal_strlit("https://api.github.com/repos/The1TrueJoe/openHC/releases/latest");
    assert("https://api.github.com/repos/The1TrueJoe/openHC/releases/latest"@ =~= "https://api.github.com/repos/"@
        + REPO@ + "/releases/latest"@);
}

/// The program inside a bundle is the first file that lies where programs lie, and is
/// no shadow of one.
pub proof fn law_the_first_program_is_taken(v: Seq<Option<EntryModel>>, from: int)
    requires
        0 <= from <= v.len(),
    ensures
        match app_binary(v, from) {
            Some(i) => from <= i < v.len() && is_program(v[i]) && forall|j: int|
                from <= j < i ==> !is_program(#[trigger] v[j]),
            None => forall|j: int| from <= j < v.len() ==> !is_program(#[trigger] v[j]),
        },
    decreases v.len() - from,
{
    if from < v.len() {
        if !is_app_binary(v[from]) {
            law_the_first_program_is_taken(v, from + 1);
        }
    }
}

/// A file where programs lie, that is no shadow of one.
pub open spec fn is_program(e: Option<EntryModel>) -> bool {
    e matches Some(f) && f.is_file && contains(f.name, "/Contents/MacOS/"@) && !contains(f.name, "__MACOSX"@)
        && !starts_with(tail(f.name, Class::One('/')), "._"@)
}

/// An update is offered exactly when it is known what is installed, and that is not
/// the newest.
pub proof fn law_an_update_is_offered_when_it_is_one(installed: Seq<char>, tag: Seq<char>)
    requires
        trim(installed) == installed,
        trim(tag) == tag,
    ensures
        differs(installed, tag) <==> installed.len() > 0 && installed != "unknown"@ && installed != tag,
{
}

/// The files an installation is made of.
pub open spec fn is_artefact(name: Seq<char>) -> bool {
    ||| name == "bzImage"@
    ||| name == "rootfs.cpio.gz"@
    ||| name == "rootfs.ext2"@
    ||| name == "rootfs.ext2.gz"@
    ||| name == "boot-init.cpio.gz"@
    ||| name == "zImage"@
    ||| name == "openhc-ca1-zImage"@
    ||| name == "c4-imx6sl-ca1.dtb"@
    ||| name == "boot.scr"@
}

proof fn lemma_known(name: Seq<char>)
    ensures
        known_names().contains(name) <==> is_artefact(name),
{
    let k = known_names();
    assert(k[0] == "bzImage"@ && k[1] == "rootfs.cpio.gz"@ && k[2] == "rootfs.ext2"@ && k[3] == "rootfs.ext2.gz"@);
    assert(k[4] == "boot-init.cpio.gz"@ && k[5] == "zImage"@ && k[6] == "openhc-ca1-zImage"@);
    assert(k[7] == "c4-imx6sl-ca1.dtb"@ && k[8] == "boot.scr"@);
}

/// A folder's file is the artefact of that name when it is one, the later of two; any
/// other file changes nothing.
pub proof fn law_a_folder_gives_its_artefacts(v: Seq<(Seq<char>, Seq<u8>)>, name: Seq<char>, data: Seq<u8>, q: Seq<char>)
    ensures
        artefact(folder_files(v.push((name, data))), q) == (if q == name && is_artefact(name) {
            Some(data)
        } else {
            artefact(folder_files(v), q)
        }),
{
    lemma_known(name);
    assert(v.push((name, data)).drop_last() =~= v);
}

/// An archive's file is the artefact of the name that ends its path.
pub proof fn law_an_archive_gives_its_artefacts(
    v: Seq<Option<EntryModel>>,
    dir: Seq<char>,
    name: Seq<char>,
    data: Seq<u8>,
    q: Seq<char>,
)
    requires
        zip_files(v) is Some,
        forall|i: int| 0 <= i < name.len() ==> #[trigger] name[i] != '/' && name[i] != '\\',
    ensures
        ({
            let e = EntryModel { name: dir + "/"@ + name, is_file: true, data: Some(data) };
            &&& zip_files(v.push(Some(e))) is Some
            &&& artefact(zip_files(v.push(Some(e)))->0, q) == (if q == name && is_artefact(name) {
                Some(data)
            } else {
                artefact(zip_files(v)->0, q)
            })
        }),
{
    reveal_strlit("/");
    let s = dir + "/"@ + name;
    let e = EntryModel { name: s, is_file: true, data: Some(data) };
    let cl = Class::Two('/', '\\');
    lemma_last_before(s, cl, s.len() as int);
    let j = last_before(s, cl, s.len() as int);
    assert(s[dir.len() as int] == '/');
    assert(j == dir.len() + 1) by {
        if j > dir.len() + 1 {
            assert(s[j - 1] == name[j - 1 - dir.len() - 1]);
        }
    }
    assert(base_name(s) =~= name);
    lemma_known(name);
    assert(v.push(Some(e)).drop_last() =~= v);
}

/// What the console says of the button is what the installer goes by: with the mode
/// enabled it waits for the box to ask for its cookie, and else asks for the button
/// again.
pub proof fn law_the_button_is_read_off_the_console(m: WatchModel, l: Seq<char>)
    requires
        trim(l) == l,
        contains(l, "Manufacturing Mode:"@),
    ensures
        contains(l, "Enabled"@) ==> fed(m, l).0.stage == Stage::WaitingForCookie && fed(m, l).1[0] is Resolved,
        !contains(l, "Enabled"@) ==> fed(m, l).0.stage == Stage::ButtonNotHeld && fed(m, l).1[0] is Warn && fed(m, l).1[1]
            is Await,
{
    lemma_not_empty(l, "Manufacturing Mode:"@);
    reveal_strlit("Manufacturing Mode:");
}

proof fn lemma_not_empty(l: Seq<char>, pat: Seq<char>)
    requires
        contains(l, pat),
        pat.len() > 0 || pat == "Manufacturing Mode:"@,
    ensures
        l.len() > 0,
{
    reveal_strlit("Manufacturing Mode:");
}

/// The cookie is taken when the box says so, and refused when the box boots on while it
/// was waited for; the shell is there when its prompt is, and not before the cookie.
pub proof fn law_the_cookie_is_read_off_the_console(m: WatchModel, l: Seq<char>)
    requires
        trim(l) == l,
        l.len() > 0,
        !contains(l, "Manufacturing Mode:"@),
    ensures
        contains(l, "Entering Control4 Manufacturing Mode"@) ==> fed(m, l).0.stage == Stage::WaitingForShell,
        !contains(l, "Entering Control4 Manufacturing Mode"@) ==> fed(m, l).0.stage == (if contains(l, "AC_BOOT"@)
            && m.stage == Stage::WaitingForCookie {
            Stage::CookieRejected
        } else if contains(l, "shell>"@) && m.stage == Stage::WaitingForShell {
            Stage::AtShell
        } else {
            m.stage
        }),
{
}

/// A silent console is complained of at every forty-fifth second and at no other, and
/// only while nothing at all was heard.
pub proof fn law_silence_is_complained_of(m: WatchModel, elapsed_s: u64)
    ensures
        silence_told(m, elapsed_s).len() > 0 <==> m.stage == Stage::WaitingForPowerCycle && !m.heard && elapsed_s > 0
            && elapsed_s % 45 == 0,
{
}

} // verus!
