//! What the command line takes its options for, and what it says and does.
use crate::cli::{
    after_flag, board_line, feature, features, header_arg, images_of, install_turn, method_of, netboot_end,
    netboot_plan, plain_args, plan_lines, planned, resume_line, rootfs_turn, seen_line, shown, stock, tallied,
    target_of, verdict, wishes_of, wrapped, BootNews, BootTally, HeardModel, InstallAt, SayModel, SeenModel, Todo,
    Wishes,
};
use crate::engine::flow::EventModel;
use crate::engine::shell::lemma_trimmed;
use crate::flasher::board::{lookup, BoardModel, IdentityModel};
use crate::flasher::image::{bzimage, header_bytes, word};
use crate::flasher::loader::is_word;
use crate::flasher::method::{chosen, order, Method, PlanModel};
use crate::num::{dec, lemma_print_parse};
use crate::readers::{bare, lemma_plain, lemma_unquote};
use crate::text::{at, contains, ends_with, joined, lines, padded, starts_with, text_or_none, trim};
use crate::transport::ipv4::address;
use crate::transport::netboot::{bootfile_for, loose_mac};
use crate::wizard::jobs::{after_key, version_in};
use crate::wizard::state::RelInfoModel;
use vstd::prelude::*;
use vstd::string::*;

verus! {

/// An option's value is the word after its first mention.
pub proof fn law_a_value_follows_its_option(v: Seq<Seq<char>>, flag: Seq<char>)
    ensures
        match after_flag(v, flag) {
            Some(x) => exists|i: int| #![trigger v[i]]
                0 <= i < v.len() - 1 && v[i] == flag && v[i + 1] == x && forall|j: int| 0 <= j < i ==> #[trigger] v[j] != flag,
            None => forall|i: int| 0 <= i < v.len() - 1 ==> #[trigger] v[i] != flag,
        },
    decreases v.len(),
{
    if v.len() >= 2 {
        let rest = v.skip(1);
        if v[0] == flag {
            assert(v[0] == flag && v[1] == after_flag(v, flag)->0);
        } else {
            law_a_value_follows_its_option(rest, flag);
            match after_flag(rest, flag) {
                Some(x) => {
                    let i = choose|i: int| #![trigger rest[i]]
                        0 <= i < rest.len() - 1 && rest[i] == flag && rest[i + 1] == x && forall|j: int|
                            0 <= j < i ==> #[trigger] rest[j] != flag;
                    assert(v[i + 1] == flag && v[i + 2] == x);
                    assert forall|j: int| 0 <= j < i + 1 implies #[trigger] v[j] != flag by {
                        if j > 0 {
                            assert(rest[j - 1] == v[j]);
                        }
                    }
                },
                None => {
                    assert forall|i: int| 0 <= i < v.len() - 1 implies #[trigger] v[i] != flag by {
                        if i > 0 {
                            assert(rest[i - 1] == v[i]);
                        }
                    }
                },
            }
        }
    }
}

/// The plain words are those that are no options, in their order.
pub proof fn law_options_are_no_arguments(v: Seq<Seq<char>>, w: Seq<char>)
    ensures
        plain_args(v.push(w)) == (if starts_with(w, "--"@) {
            plain_args(v)
        } else {
            plain_args(v).push(w)
        }),
{
    assert(v.push(w).drop_last() =~= v);
}

/// Each wish is its own option's, and the images are looked for where they were said to
/// be, or where a build leaves them.
pub proof fn law_each_wish_is_its_options(v: Seq<Seq<char>>)
    ensures
        wishes_of(v).dry_run <==> v.contains("--dry-run"@),
        wishes_of(v).yes <==> v.contains("--yes"@),
        wishes_of(v).self_install <==> v.contains("--self-install"@),
        wishes_of(v).no_wait <==> v.contains("--no-wait"@),
        after_flag(v, "--images"@) matches Some(p) ==> images_of(v) == p,
        after_flag(v, "--images"@) is None ==> images_of(v) == "output/images"@,
{
}

/// A netboot is of the box, the file and the addresses that its options name, each from
/// its own option; what is not said has its usual value.
pub proof fn law_each_option_is_its_own(v: Seq<Seq<char>>, image_there: bool, facing: Option<Seq<u8>>)
    requires
        netboot_plan(v, image_there, facing) is Ok,
    ensures
        ({
            let p = netboot_plan(v, image_there, facing)->Ok_0;
            &&& after_flag(v, "--mac"@) is Some && loose_mac(after_flag(v, "--mac"@)->0) == Some(p.mac)
            &&& after_flag(v, "--image"@) == Some(p.image) && image_there
            &&& after_flag(v, "--client-ip"@) is Some && address(after_flag(v, "--client-ip"@)->0) == Some(p.client_ip)
            &&& after_flag(v, "--server-ip"@) matches Some(s) ==> address(s) == Some(p.server_ip)
            &&& after_flag(v, "--server-ip"@) is None ==> facing == Some(p.server_ip)
            &&& after_flag(v, "--netmask"@) matches Some(s) ==> address(s) == Some(p.netmask)
            &&& after_flag(v, "--netmask"@) is None ==> p.netmask == seq![255u8, 255u8, 255u8, 0u8]
            &&& after_flag(v, "--bootfile"@) matches Some(b) ==> p.bootfile == b
            &&& after_flag(v, "--bootfile"@) is None && after_flag(v, "--board"@) is Some ==> p.bootfile == bootfile_for(
                after_flag(v, "--board"@)->0,
            )
            &&& after_flag(v, "--bootfile"@) is None && after_flag(v, "--board"@) is None ==> p.bootfile == bootfile_for(
                "ioxv1"@,
            )
            &&& after_flag(v, "--minutes"@) is None ==> p.minutes == 10
        }),
{
}

/// The minutes are those that were said.
pub proof fn law_the_minutes_are_those_said(
    v: Seq<Seq<char>>,
    image_there: bool,
    facing: Option<Seq<u8>>,
    n: nat,
)
    requires
        netboot_plan(v, image_there, facing) is Ok,
        n <= u64::MAX,
        after_flag(v, "--minutes"@) == Some(dec(n)),
    ensures
        netboot_plan(v, image_there, facing)->Ok_0.minutes == n,
{
    lemma_print_parse(n, 10, u64::MAX as nat);
}

/// A netboot is refused exactly when an option it needs is not there or says nothing
/// that can be used.
pub proof fn law_a_netboot_is_refused_when_it_lacks_something(
    v: Seq<Seq<char>>,
    image_there: bool,
    facing: Option<Seq<u8>>,
)
    ensures
        netboot_plan(v, image_there, facing) is Ok <==> {
            &&& after_flag(v, "--mac"@) is Some && loose_mac(after_flag(v, "--mac"@)->0) is Some
            &&& after_flag(v, "--image"@) is Some && image_there
            &&& after_flag(v, "--client-ip"@) is Some && address(after_flag(v, "--client-ip"@)->0) is Some
            &&& if after_flag(v, "--server-ip"@) is Some {
                address(after_flag(v, "--server-ip"@)->0) is Some
            } else {
                facing is Some
            }
            &&& after_flag(v, "--netmask"@) is Some ==> address(after_flag(v, "--netmask"@)->0) is Some
        },
{
}

/// A container made on the command line is a header and the kernel behind it, whole:
/// the header given, or one made for that kernel.
pub proof fn law_a_container_is_a_header_and_the_kernel(
    src: Seq<char>,
    kernel: Seq<u8>,
    header: Option<Seq<u8>>,
)
    ensures
        wrapped(src, kernel, header) is Ok <==> bzimage(kernel) && kernel.len() <= 0x713000 && (header is Some
            ==> header->0.len() == 0x580),
        wrapped(src, kernel, header) matches Ok(c) ==> c.len() == 0x580 + kernel.len() && c.skip(0x580) == kernel && c.take(
            0x580,
        ) == (if header is Some {
            header->0
        } else {
            header_bytes(kernel.len())
        }),
{
    match wrapped(src, kernel, header) {
        Ok(c) => {
            let h = if header is Some {
                header->0
            } else {
                header_bytes(word(kernel.len()))
            };
            assert(c == h + kernel);
            assert(h.len() == 0x580);
            assert((h + kernel).skip(0x580) =~= kernel);
            assert((h + kernel).take(0x580) =~= h);
        },
        Err(_) => {},
    }
}

/// An event is shown with the mark of its kind.
pub proof fn law_an_event_is_shown_with_its_mark(s: Seq<char>)
    ensures
        shown(EventModel::Step(s)) == seq![SayModel::Out("  "@ + s)],
        shown(EventModel::Detail(s)) == seq![SayModel::Out("    "@ + s)],
        shown(EventModel::Warn(s)) == seq![SayModel::Out("  ! "@ + s)],
        shown(EventModel::Observed(s)) == seq![SayModel::Out("    . "@ + s)],
        shown(EventModel::Resolved(s)) == seq![SayModel::Out("  OK "@ + s)],
        shown(EventModel::Await { title: s, instruction: s })[0] == SayModel::Out("\n  ==> ACTION NEEDED: "@ + s),
{
    assert(shown(EventModel::Step(s)) =~= seq![SayModel::Out("  "@ + s)]);
    assert(shown(EventModel::Detail(s)) =~= seq![SayModel::Out("    "@ + s)]);
    assert(shown(EventModel::Warn(s)) =~= seq![SayModel::Out("  ! "@ + s)]);
    assert(shown(EventModel::Observed(s)) =~= seq![SayModel::Out("    . "@ + s)]);
    assert(shown(EventModel::Resolved(s)) =~= seq![SayModel::Out("  OK "@ + s)]);
}

/// A release is called good exactly when nothing is wrong with it, and else everything
/// that is wrong is said.
pub proof fn law_a_release_is_good_when_nothing_is_wrong(r: RelInfoModel, i: int)
    ensures
        verdict(r).1 <==> r.problems.len() == 0,
        0 <= i < r.problems.len() ==> verdict(r).0.len() == r.problems.len() && verdict(r).0[i] == SayModel::Out(
            "  ! "@ + r.problems[i],
        ),
{
}

/// The board named is the board installed, whatever the box says of itself; without a
/// name it is the box's own, when that is certain.
pub proof fn law_the_board_named_is_installed(id: IdentityModel, name: Seq<char>)
    ensures
        target_of(id, Some(name)).1 == lookup(name),
        target_of(id, None).1 == (if id.certain() {
            id.board
        } else {
            None
        }),
{
}

/// An install that was agreed to writes in the way that was wished for: all at once, or
/// its first stage. A dry run ends well and writes nothing.
pub proof fn law_an_install_writes_as_wished(w: Wishes, host: Seq<char>, images: Seq<char>, l: Seq<char>)
    ensures
        w.dry_run ==> install_turn(InstallAt::Ready, w, host, images, HeardModel::Nothing).2 == Todo::Exit(true),
        !w.dry_run && !w.yes ==> install_turn(InstallAt::Ready, w, host, images, HeardModel::Nothing).2 == Todo::ReadLine,
        !w.dry_run && w.yes ==> install_turn(InstallAt::Ready, w, host, images, HeardModel::Nothing).2 == (
        if w.self_install {
            Todo::SelfInstall
        } else {
            Todo::StageOne
        }),
        trim(l) == "y"@ || trim(l) == "yes"@ ==> install_turn(InstallAt::Asked, w, host, images, HeardModel::Line(l)).2
            == (if w.self_install {
            Todo::SelfInstall
        } else {
            Todo::StageOne
        }),
        trim(l) != "y"@ && trim(l) != "yes"@ ==> install_turn(
            InstallAt::Asked,
            w,
            host,
            images,
            HeardModel::Line(l),
        ).2 == Todo::Exit(false),
        trim(l) == "y"@ || trim(l) == "yes"@ ==> rootfs_turn(InstallAt::Asked, false, host, HeardModel::Line(l)).2
            == Todo::StageTwo,
        trim(l) != "y"@ && trim(l) != "yes"@ ==> rootfs_turn(InstallAt::Asked, false, host, HeardModel::Line(l)).2
            == Todo::Exit(false),
        rootfs_turn(InstallAt::Ready, true, host, HeardModel::Nothing).2 == Todo::StageTwo,
        rootfs_turn(InstallAt::Ready, false, host, HeardModel::Nothing).2 == Todo::ReadLine,
{
}

/// After the first stage the box is waited for, unless that was not wished; once it is
/// back the second stage follows; whatever failed ends the command as failed.
pub proof fn law_the_second_stage_follows_the_first(w: Wishes, host: Seq<char>, images: Seq<char>, why: Seq<char>)
    ensures
        install_turn(InstallAt::StageOne, w, host, images, HeardModel::Done(Ok(()))).2 == (if w.no_wait {
            Todo::Exit(true)
        } else {
            Todo::Wait { secs: 300 }
        }),
        install_turn(InstallAt::Waiting, w, host, images, HeardModel::Done(Ok(()))).2 == Todo::StageTwo,
        install_turn(InstallAt::StageTwo, w, host, images, HeardModel::Done(Ok(()))).2 == Todo::Exit(true),
        install_turn(InstallAt::SelfInstalling, w, host, images, HeardModel::Done(Ok(()))).2 == Todo::Exit(true),
        install_turn(InstallAt::StageOne, w, host, images, HeardModel::Done(Err(why))).2 == Todo::Exit(false),
        install_turn(InstallAt::Waiting, w, host, images, HeardModel::Done(Err(why))).2 == Todo::Exit(false),
        install_turn(InstallAt::StageTwo, w, host, images, HeardModel::Done(Err(why))).2 == Todo::Exit(false),
        install_turn(InstallAt::SelfInstalling, w, host, images, HeardModel::Done(Err(why))).2 == Todo::Exit(false),
{
}

/// A netboot has gone well when nothing failed and the box booted or took the lease.
pub proof fn law_when_a_netboot_went_well(served: Result<(), Seq<char>>, booted: bool, acked: bool, ignored: nat)
    ensures
        netboot_end(served, booted, acked, ignored).1 <==> served is Ok && (booted || acked),
{
}

/// A lease is taken when it was acknowledged, and every other machine's message is
/// counted once.
pub proof fn law_what_is_counted(t: BootTally, saw: u8, kind: u8)
    requires
        t.ignored < u64::MAX,
    ensures
        tallied(t, BootNews::Answered { saw, kind }).acked <==> t.acked || kind == 5,
        tallied(t, BootNews::Answered { saw, kind }).ignored == t.ignored,
        tallied(t, BootNews::Ignored).ignored == t.ignored + 1,
        tallied(t, BootNews::Ignored).acked == t.acked,
        tallied(t, BootNews::Silent { saw }) == t,
        tallied(t, BootNews::Listening) == t,
{
}

/// The header's file is the word behind its option; an option without one is an error.
pub proof fn law_a_header_follows_its_option(v: Seq<Seq<char>>, x: Seq<char>)
    requires
        forall|i: int| 0 <= i < v.len() ==> #[trigger] v[i] != "--header"@,
    ensures
        header_arg(v) == Ok::<Option<Seq<char>>, ()>(None),
        header_arg(v + seq!["--header"@, x]) == Ok::<Option<Seq<char>>, ()>(Some(x)),
        header_arg(v + seq!["--header"@]) is Err,
    decreases v.len(),
{
    let a = v + seq!["--header"@, x];
    let b = v + seq!["--header"@];
    if v.len() == 0 {
        assert(a[0] == "--header"@ && a[1] == x);
        assert(b[0] == "--header"@);
    } else {
        let rest = v.skip(1);
        assert forall|i: int| 0 <= i < rest.len() implies #[trigger] rest[i] != "--header"@ by {
            assert(rest[i] == v[i + 1]);
        }
        law_a_header_follows_its_option(rest, x);
        assert(a[0] == v[0] && b[0] == v[0]);
        assert(a.skip(1) =~= rest + seq!["--header"@, x]);
        assert(b.skip(1) =~= rest + seq!["--header"@]);
    }
}

/// An install goes on exactly when the method that applies is the one over the network.
pub proof fn law_an_install_goes_on_over_the_network(id: IdentityModel, b: BoardModel)
    ensures
        method_of(id, b).1 <==> chosen(order(), id, None) == Some(Method::Network),
{
}

/// A plan can be had of every board by its name, when a method applies to it.
pub proof fn law_a_plan_can_be_had(name: Seq<char>)
    ensures
        planned(Some(name)).1 <==> lookup(name) is Some && chosen(order(), stock(lookup(name)->0), None) is Some,
        !planned(None).1,
{
}

/// The version is the release file's when it has one, and else the board file's; of each
/// it is the first line with the key, without its quotes.
pub proof fn law_the_version_is_the_release_files(v: Seq<char>, rest: Seq<Seq<char>>, key: Seq<char>)
    requires
        bare(v),
        is_word(key),
    ensures
        after_key(seq![key + "\""@ + v + "\""@] + rest, key) == Some(v),
        after_key(seq![key + v] + rest, key) == Some(v),
        after_key(seq![], key) is None,
{
    reveal_strlit("\"");
    let a = key + "\""@ + v + "\""@;
    let b = key + v;
    lemma_trimmed(a);
    lemma_trimmed(b);
    let q = "\""@ + v + "\""@;
    assert(a =~= key + q);
    assert(a.subrange(0, key.len() as int) =~= key);
    assert(b.subrange(0, key.len() as int) =~= key);
    assert(a.skip(key.len() as int) =~= q);
    assert(b.skip(key.len() as int) =~= v);
    lemma_trimmed(q);
    lemma_trimmed(v);
    lemma_unquote(v);
    lemma_plain(v);
    assert((seq![a] + rest)[0] == a);
    assert((seq![b] + rest)[0] == b);
}

/// Where each of the two files is looked in, and for what.
pub proof fn law_the_version_is_looked_for(release: Seq<char>, board: Option<Seq<char>>)
    ensures
        after_key(lines(release), "version="@) matches Some(v) ==> version_in(Some(release), board) == (if v.len() > 0 {
            Some(v)
        } else {
            None
        }),
        board matches Some(t) ==> (after_key(lines(t), "OHC_VERSION="@) matches Some(v) ==> (v.len() > 0 ==> version_in(
            None,
            board,
        ) == Some(v))),
        version_in(None, None) is None,
{
}

/// What stands in front of, within and behind a text.
proof fn lemma_parts(a: Seq<char>, b: Seq<char>, c: Seq<char>)
    ensures
        starts_with(a + b + c, a),
        contains(a + b + c, b),
        ends_with(a + b + c, c),
{
    let s = a + b + c;
    assert(s.subrange(0, a.len() as int) =~= a);
    let i = a.len() as int;
    assert(s.subrange(i, i + b.len()) =~= b);
    assert(at(s, b, i));
    assert(s.subrange(s.len() - c.len(), s.len() as int) =~= c);
}

/// The line of a box begins with its address, has its hardware address in it, and ends
/// with how it was found.
pub proof fn law_a_line_names_the_box(f: SeenModel)
    ensures
        seen_line(f) matches SayModel::Out(t) && starts_with(t, "  "@ + f.ip) && contains(t, text_or_none(f.mac))
            && ends_with(t, joined(f.via, ","@)),
{
    let t = seen_line(f)->Out_0;
    let m = text_or_none(f.mac);
    let via = joined(f.via, ","@);
    let a = "  "@ + f.ip;
    let mid = t.subrange(a.len() as int, t.len() - via.len());
    assert(t =~= a + mid + via);
    lemma_parts(a, mid, via);
    let front = "  "@ + padded(f.ip, 16) + " "@;
    let back = t.skip((front.len() + m.len()) as int);
    assert(t =~= front + m + back);
    lemma_parts(front, m, back);
}

/// The line of a board begins with its name, has its description in it, and ends with
/// what it has.
pub proof fn law_a_line_names_the_board(b: BoardModel)
    ensures
        board_line(b) matches SayModel::Out(t) && starts_with(t, "  "@ + b.name) && contains(t, b.desc) && ends_with(
            t,
            features(b),
        ),
{
    let t = board_line(b)->Out_0;
    let f = features(b);
    let a = "  "@ + b.name;
    let mid = t.subrange(a.len() as int, t.len() - f.len());
    assert(t =~= a + mid + f);
    lemma_parts(a, mid, f);
    let front = "  "@ + padded(b.name, 12) + " "@;
    let back = t.skip((front.len() + b.desc.len()) as int);
    assert(t =~= front + b.desc + back);
    lemma_parts(front, b.desc, back);
}

/// A board's features are those it has and no others, or a dash.
pub proof fn law_the_features_are_those_it_has(b: BoardModel)
    ensures
        !b.has_switch && !b.has_wifi && !b.secure_boot ==> features(b) == "-"@,
        b.has_switch || b.has_wifi || b.secure_boot ==> exists|v: Seq<Seq<char>>| #[trigger]
            joined(v, ","@) == features(b) && (v.contains("switch"@) <==> b.has_switch) && (v.contains("wifi"@) <==> b.has_wifi)
                && (v.contains("secure-boot"@) <==> b.secure_boot),
{
    reveal_strlit("switch");
    reveal_strlit("wifi");
    reveal_strlit("secure-boot");
    assert("switch"@.len() == 6 && "wifi"@.len() == 4 && "secure-boot"@.len() == 11);
    let e = Seq::<Seq<char>>::empty();
    let v1 = feature(e, b.has_switch, "switch"@);
    let v2 = feature(v1, b.has_wifi, "wifi"@);
    let v3 = feature(v2, b.secure_boot, "secure-boot"@);
    lemma_feature(e, b.has_switch, "switch"@);
    lemma_feature(v1, b.has_wifi, "wifi"@);
    lemma_feature(v2, b.secure_boot, "secure-boot"@);
    if b.has_switch || b.has_wifi || b.secure_boot {
        assert(v3.len() > 0);
        assert(joined(v3, ","@) == features(b));
    }
}

proof fn lemma_feature(v: Seq<Seq<char>>, on: bool, name: Seq<char>)
    ensures
        forall|q: Seq<char>| #[trigger] feature(v, on, name).contains(q) <==> v.contains(q) || (on && q == name),
{
    assert forall|q: Seq<char>| #[trigger] feature(v, on, name).contains(q) <==> v.contains(q) || (on && q == name) by {
        let w = v.push(name);
        if v.contains(q) {
            let i = choose|i: int| 0 <= i < v.len() && v[i] == q;
            assert(w[i] == q);
        }
        assert(w[v.len() as int] == name);
    }
}

/// A plan is shown whole: every step, every write, and the way back last.
pub proof fn law_a_plan_is_shown_whole(p: PlanModel, i: int)
    ensures
        plan_lines(p).len() == p.steps.len() + p.writes.len() + 1,
        0 <= i < p.steps.len() ==> plan_lines(p)[i] == SayModel::Out("    - "@ + p.steps[i]),
        0 <= i < p.writes.len() ==> plan_lines(p)[p.steps.len() + i] == SayModel::Out("    ! "@ + p.writes[i]),
        plan_lines(p).last() == SayModel::Out("  recovery: "@ + p.reversible),
{
}

/// What one is told to run goes on where the install left off: the same box, the same
/// images.
pub proof fn law_the_command_to_go_on_names_the_box(host: Seq<char>, images: Seq<char>)
    ensures
        contains(resume_line(host, images), "rootfs "@ + host),
        ends_with(resume_line(host, images), "--images "@ + images),
{
    reveal_strlit("    ohc-flash rootfs ");
    reveal_strlit("rootfs ");
    reveal_strlit(" --images ");
    reveal_strlit("--images ");
    reveal_strlit("    ohc-flash ");
    reveal_strlit(" ");
    let t = resume_line(host, images);
    assert(t =~= "    ohc-flash "@ + ("rootfs "@ + host) + (" --images "@ + images));
    lemma_parts("    ohc-flash "@, "rootfs "@ + host, " --images "@ + images);
    assert(t =~= ("    ohc-flash rootfs "@ + host) + " "@ + ("--images "@ + images));
    lemma_parts("    ohc-flash rootfs "@ + host, " "@, "--images "@ + images);
}

} // verus!
