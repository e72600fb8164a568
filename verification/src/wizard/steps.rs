//! The screens.
use crate::engine::updates::{differs, differs_from_release, first_flasher, first_image, AssetModel};
use crate::flasher::board::{boards, models, opt_model, pairs, table, Board, BoardModel};
use crate::flasher::image::{headroom, BOOTLINUX_WINDOW};
use crate::flasher::method::{
    choose_method, chosen, order, passed_over, plan, plan_model, rejections, Method, PlanModel,
};
use crate::num::{dec, dec_string};
use crate::text::{cat2, cat3, cat4, cat5, opt, pad, padded, same, strings, text_or_none, to_chars, trim, trim_str};
use crate::wizard::page::{Action, ActionModel, Field, Item, ItemModel, Page, Tone};
use crate::wizard::state::{
    as_board, fmt_bytes, identity_for, log_model, running_text, running_words, size_text, units, Conn, ConnModel, Lvl,
    Phase, RelInfo, RelInfoModel, Step, Unit, UnitModel, Wizard, WizardModel,
};
use vstd::prelude::*;
use vstd::string::*;

verus! {

// ----------------------------------------------------------------------------- lists

/// One line of text for each of a list.
pub open spec fn lines_model(v: Seq<Seq<char>>, mono: bool, t: Tone, prefix: Seq<char>) -> Seq<ItemModel> {
    v.map_values(
        |s: Seq<char>|
            if mono {
                ItemModel::Mono(t, prefix + s)
            } else {
                ItemModel::Text(t, prefix + s)
            },
    )
}

fn put_lines(p: &mut Page, v: &Vec<String>, mono: bool, t: Tone, prefix: &str)
    ensures
        final(p)@ == old(p)@ + lines_model(strings(v@), mono, t, prefix@),
{
    let ghost start = p@;
    let ghost want = lines_model(strings(v@), mono, t, prefix@);
    let mut i: usize = 0;
    assert(start + want.take(0) =~= start);
    while i < v.len()
        invariant
            i <= v@.len(),
            want == lines_model(strings(v@), mono, t, prefix@),
            p@ == start + want.take(i as int),
        decreases v@.len() - i,
    {
        let s = cat2(prefix, v[i].as_str());
        assert(want[i as int] == if mono {
            ItemModel::Mono(t, s@)
        } else {
            ItemModel::Text(t, s@)
        });
        if mono {
            p.put(Item::Mono(t, s));
        } else {
            p.put(Item::Text(t, s));
        }
        assert(want.take(i + 1) =~= want.take(i as int).push(want[i as int]));
        assert(start + want.take(i as int).push(want[i as int]) =~= (start + want.take(i as int)).push(want[i as int]));
        i += 1;
    }
    assert(want.take(v@.len() as int) =~= want);
}

pub open spec fn rejection_lines(v: Seq<(Method, Seq<char>)>) -> Seq<ItemModel> {
    v.map_values(
        |r: (Method, Seq<char>)| ItemModel::Text(Tone::Weak, "not "@ + r.0.name_spec() + ": "@ + r.1),
    )
}

fn put_rejections(p: &mut Page, v: &Vec<(Method, String)>)
    ensures
        final(p)@ == old(p)@ + rejection_lines(rejections(v@)),
{
    let ghost start = p@;
    let ghost want = rejection_lines(rejections(v@));
    let mut i: usize = 0;
    assert(start + want.take(0) =~= start);
    while i < v.len()
        invariant
            i <= v@.len(),
            want == rejection_lines(rejections(v@)),
            p@ == start + want.take(i as int),
        decreases v@.len() - i,
    {
        let s = cat4("not ", v[i].0.name(), ": ", v[i].1.as_str());
        assert(want[i as int] == ItemModel::Text(Tone::Weak, s@));
        p.put(Item::Text(Tone::Weak, s));
        assert(want.take(i + 1) =~= want.take(i as int).push(want[i as int]));
        assert(start + want.take(i as int).push(want[i as int]) =~= (start + want.take(i as int)).push(want[i as int]));
        i += 1;
    }
    assert(want.take(v@.len() as int) =~= want);
}

pub open spec fn evidence_lines(v: Seq<(Seq<char>, Seq<char>)>) -> Seq<ItemModel> {
    v.map_values(
        |e: (Seq<char>, Seq<char>)| ItemModel::Mono(Tone::Plain, "  "@ + e.0 + " = "@ + trim(e.1)),
    )
}

fn put_evidence(p: &mut Page, v: &Vec<(String, String)>)
    ensures
        final(p)@ == old(p)@ + evidence_lines(pairs(v@)),
{
    let ghost start = p@;
    let ghost want = evidence_lines(pairs(v@));
    let mut i: usize = 0;
    assert(start + want.take(0) =~= start);
    while i < v.len()
        invariant
            i <= v@.len(),
            want == evidence_lines(pairs(v@)),
            p@ == start + want.take(i as int),
        decreases v@.len() - i,
    {
        let s = cat4("  ", v[i].0.as_str(), " = ", trim_str(v[i].1.as_str()).as_str());
        assert(want[i as int] == ItemModel::Mono(Tone::Plain, s@));
        p.put(Item::Mono(Tone::Plain, s));
        assert(want.take(i + 1) =~= want.take(i as int).push(want[i as int]));
        assert(start + want.take(i as int).push(want[i as int]) =~= (start + want.take(i as int)).push(want[i as int]));
        i += 1;
    }
    assert(want.take(v@.len() as int) =~= want);
}

// ------------------------------------------------------------------------------ find

/// How a found unit is listed.
pub open spec fn unit_label(u: UnitModel, details: bool) -> Seq<char> {
    let head = padded(u.ip, 16) + text_or_none(u.hostname) + "\n"@ + u.firmware();
    let head = match u.board {
        Some(b) => head + "  ·  "@ + b.desc,
        None => head,
    };
    if details {
        head + "\n"@ + text_or_none(u.mac)
    } else {
        head
    }
}

fn or_blank(o: &Option<String>) -> (r: String)
    ensures
        r@ == text_or_none(opt(*o)),
{
    match o {
        Some(s) => s.clone(),
        None => String::from_str(""),
    }
}

fn label_of(u: &Unit, details: bool) -> (r: String)
    ensures
        r@ == unit_label(u@, details),
{
    let mut s = pad(u.ip.as_str(), 16);
    s.append(or_blank(&u.hostname).as_str());
    s.append("\n");
    s.append(u.firmware().as_str());
    if let Some(b) = u.board {
        s.append("  ·  ");
        s.append(b.desc);
    }
    if details {
        s.append("\n");
        s.append(or_blank(&u.mac).as_str());
    }
    s
}

pub open spec fn unit_choices(v: Seq<UnitModel>, host: Seq<char>, details: bool) -> Seq<ItemModel> {
    v.map_values(
        |u: UnitModel| ItemModel::Choice(host == u.ip, unit_label(u, details), ActionModel::Pick(u.ip)),
    )
}

fn put_units(p: &mut Page, v: &Vec<Unit>, host: &str, details: bool)
    ensures
        final(p)@ == old(p)@ + unit_choices(units(v@), host@, details),
{
    let ghost start = p@;
    let ghost want = unit_choices(units(v@), host@, details);
    let mut i: usize = 0;
    assert(start + want.take(0) =~= start);
    while i < v.len()
        invariant
            i <= v@.len(),
            want == unit_choices(units(v@), host@, details),
            p@ == start + want.take(i as int),
        decreases v@.len() - i,
    {
        let u = &v[i];
        let c = Item::Choice(same(host, u.ip.as_str()), label_of(u, details), Action::Pick(u.ip.clone()));
        assert(want[i as int] == c@);
        p.put(c);
        assert(want.take(i + 1) =~= want.take(i as int).push(want[i as int]));
        assert(start + want.take(i as int).push(want[i as int]) =~= (start + want.take(i as int)).push(want[i as int]));
        i += 1;
    }
    assert(want.take(v@.len() as int) =~= want);
}

pub open spec fn find_page(w: WizardModel) -> Seq<ItemModel> {
    let p = seq![
        ItemModel::Heading(Tone::Plain, "Find your controller"@),
        ItemModel::Text(
            Tone::Plain,
            "Plug the controller into the same network as this computer and turn it on."@,
        ),
        ItemModel::Button("Scan the network"@, w.idle(), ActionModel::Scan),
    ];
    let p = if w.found.len() == 0 {
        if w.scanned && w.idle() {
            p.push(
                ItemModel::Text(
                    Tone::Warn,
                    "No controllers found. A freshly restored unit can take a minute to appear — scan again, or type its address below."@,
                ),
            )
        } else {
            p
        }
    } else {
        p.push(ItemModel::Text(Tone::Strong, "Click the controller to install:"@)) + unit_choices(
            w.found,
            w.host,
            w.details,
        )
    };
    let p = p.push(ItemModel::Line).push(ItemModel::Text(Tone::Plain, "Address:"@)).push(
        ItemModel::Input(Field::Host, "192.168.1.50"@, false),
    ).push(ItemModel::LineEnd);
    let p = p.push(ItemModel::Line).push(ItemModel::Text(Tone::Plain, "Password:"@)).push(
        ItemModel::Input(Field::Password, "leave blank for a factory controller"@, true),
    ).push(ItemModel::LineEnd);
    p.push(
        ItemModel::Text(
            Tone::Small,
            "Only needed if a dealer changed the controller's root password, or a factory unit no longer accepts the default one."@,
        ),
    )
}

/// Finding the controller.
pub fn step_find(w: &Wizard) -> (r: Page)
    ensures
        r@ == find_page(w@),
{
    let idle: bool = w.busy.is_none();
    let mut p = Page::new();
    p.heading("Find your controller");
    p.text(Tone::Plain, "Plug the controller into the same network as this computer and turn it on.");
    p.button("Scan the network", idle, Action::Scan);
    assert(p@ =~= seq![
        ItemModel::Heading(Tone::Plain, "Find your controller"@),
        ItemModel::Text(
            Tone::Plain,
            "Plug the controller into the same network as this computer and turn it on."@,
        ),
        ItemModel::Button("Scan the network"@, w@.idle(), ActionModel::Scan),
    ]);
    assert(w@.found.len() == w.found@.len());
    if w.found.len() == 0 {
        if w.scanned && idle {
            p.text(
                Tone::Warn,
                "No controllers found. A freshly restored unit can take a minute to appear — scan again, or type its address below.",
            );
        }
    } else {
        p.text(Tone::Strong, "Click the controller to install:");
        put_units(&mut p, &w.found, w.host.as_str(), w.details);
    }
    p.put(Item::Line);
    p.text(Tone::Plain, "Address:");
    p.input(Field::Host, "192.168.1.50", false);
    p.put(Item::LineEnd);
    p.put(Item::Line);
    p.text(Tone::Plain, "Password:");
    p.input(Field::Password, "leave blank for a factory controller", true);
    p.put(Item::LineEnd);
    p.text(
        Tone::Small,
        "Only needed if a dealer changed the controller's root password, or a factory unit no longer accepts the default one.",
    );
    p
}

// ----------------------------------------------------------------------------- check

pub open spec fn latest_tag(w: WizardModel) -> Option<Seq<char>> {
    match w.latest {
        Some(r) => Some(r.tag_name),
        None => None,
    }
}

/// What the controller is, row by row.
pub open spec fn identity_rows(p: Seq<ItemModel>, w: WizardModel, c: ConnModel) -> Seq<ItemModel> {
    let p = p.push(ItemModel::Row("Address"@, Tone::Plain, true, c.host));
    let p = match w.board() {
        Some(b) => p.push(ItemModel::Row("Model"@, Tone::Strong, false, b.desc)),
        None => p.push(ItemModel::Row("Model"@, Tone::Bad, false, "could not be identified"@)),
    };
    let p = p.push(ItemModel::Row("Running"@, Tone::Plain, false, running_words(c.id.running)));
    let p = match c.installed_version {
        Some(v) => p.push(ItemModel::Row("openHC version"@, Tone::Plain, true, v)),
        None => p,
    };
    match latest_tag(w) {
        Some(t) => p.push(ItemModel::Row("Latest release"@, Tone::Plain, true, t)),
        None => p,
    }
}

fn put_identity(p: &mut Page, w: &Wizard, c: &Conn)
    ensures
        final(p)@ == identity_rows(old(p)@, w@, c@),
{
    p.row("Address", Tone::Plain, true, c.host.as_str());
    match w.board() {
        Some(b) => p.row("Model", Tone::Strong, false, b.desc),
        None => p.row("Model", Tone::Bad, false, "could not be identified"),
    }
    p.row("Running", Tone::Plain, false, running_text(c.id.running));
    if let Some(v) = &c.installed_version {
        p.row("openHC version", Tone::Plain, true, v.as_str());
    }
    if let Some(r) = &w.latest {
        p.row("Latest release", Tone::Plain, true, r.tag_name.as_str());
    }
}

/// Whether this box is current, in plain terms.
pub open spec fn currency(p: Seq<ItemModel>, w: WizardModel, c: ConnModel) -> Seq<ItemModel> {
    match (c.installed_version, latest_tag(w)) {
        (Some(v), Some(t)) => if differs(v, t) {
            p.push(
                ItemModel::Text(
                    Tone::Warn,
                    "This controller is not on the latest openHC release ("@ + t
                        + "). Installing below updates it."@,
                ),
            )
        } else {
            p.push(ItemModel::Text(Tone::Good, "Running the latest openHC release."@))
        },
        _ => p,
    }
}

fn put_currency(p: &mut Page, w: &Wizard, c: &Conn)
    ensures
        final(p)@ == currency(old(p)@, w@, c@),
{
    if let Some(v) = &c.installed_version {
        if let Some(r) = &w.latest {
            if differs_from_release(v.as_str(), r.tag_name.as_str()) {
                let s = cat3(
                    "This controller is not on the latest openHC release (",
                    r.tag_name.as_str(),
                    "). Installing below updates it.",
                );
                p.put(Item::Text(Tone::Warn, s));
            } else {
                p.text(Tone::Good, "Running the latest openHC release.");
            }
        }
    }
}

/// The boards a user can choose from: the ones that are possible, or all of them;
/// none where the identification is certain and details are off.
pub open spec fn offered(w: WizardModel, c: ConnModel) -> Seq<BoardModel> {
    if w.details || !c.id.certain() {
        if c.id.candidates.len() > 1 {
            c.id.candidates
        } else {
            table()
        }
    } else {
        seq![]
    }
}

pub open spec fn is_named(o: Option<BoardModel>, name: Seq<char>) -> bool {
    match o {
        Some(b) => b.name == name,
        None => false,
    }
}

pub open spec fn board_choices(v: Seq<BoardModel>, current: Option<BoardModel>) -> Seq<ItemModel> {
    v.map_values(
        |b: BoardModel|
            ItemModel::Choice(
                is_named(current, b.name),
                b.name + "  —  "@ + b.desc,
                ActionModel::Force(b.name),
            ),
    )
}

fn put_boards(p: &mut Page, v: &Vec<&'static Board>, current: Option<&'static Board>)
    ensures
        final(p)@ == old(p)@ + board_choices(models(v@), opt_model(current)),
{
    let ghost start = p@;
    let ghost want = board_choices(models(v@), opt_model(current));
    let mut i: usize = 0;
    assert(start + want.take(0) =~= start);
    while i < v.len()
        invariant
            i <= v@.len(),
            want == board_choices(models(v@), opt_model(current)),
            p@ == start + want.take(i as int),
        decreases v@.len() - i,
    {
        let b = v[i];
        let on: bool = match current {
            Some(c) => same(c.name, b.name),
            None => false,
        };
        let c = Item::Choice(on, cat3(b.name, "  —  ", b.desc), Action::Force(String::from_str(b.name)));
        assert(want[i as int] == c@);
        p.put(c);
        assert(want.take(i + 1) =~= want.take(i as int).push(want[i as int]));
        assert(start + want.take(i as int).push(want[i as int]) =~= (start + want.take(i as int)).push(want[i as int]));
        i += 1;
    }
    assert(want.take(v@.len() as int) =~= want);
}

pub open spec fn board_menu(p: Seq<ItemModel>, w: WizardModel, c: ConnModel) -> Seq<ItemModel> {
    let v = offered(w, c);
    if v.len() == 0 {
        p
    } else {
        let p = p.push(ItemModel::Line).push(ItemModel::Text(Tone::Plain, "Model:"@)).push(
            ItemModel::Menu(
                match w.board() {
                    Some(b) => b.name,
                    None => "choose…"@,
                },
            ),
        );
        let p = (p + board_choices(v, w.board())).push(ItemModel::MenuEnd);
        let p = if w.forced is Some {
            p.push(ItemModel::Button("Reset"@, true, ActionModel::Unforce))
        } else {
            p
        };
        p.push(ItemModel::LineEnd)
    }
}

fn put_menu_of(p: &mut Page, w: &Wizard, v: &Vec<&'static Board>)
    requires
        v@.len() > 0,
    ensures
        final(p)@ == ({
            let p = old(p)@.push(ItemModel::Line).push(ItemModel::Text(Tone::Plain, "Model:"@)).push(
                ItemModel::Menu(
                    match w@.board() {
                        Some(b) => b.name,
                        None => "choose…"@,
                    },
                ),
            );
            let p = (p + board_choices(models(v@), w@.board())).push(ItemModel::MenuEnd);
            let p = if w@.forced is Some {
                p.push(ItemModel::Button("Reset"@, true, ActionModel::Unforce))
            } else {
                p
            };
            p.push(ItemModel::LineEnd)
        }),
{
    let board = w.board();
    p.put(Item::Line);
    p.text(Tone::Plain, "Model:");
    let current: &str = match board {
        Some(b) => b.name,
        None => "choose…",
    };
    p.put(Item::Menu(String::from_str(current)));
    put_boards(p, v, board);
    p.put(Item::MenuEnd);
    if w.forced.is_some() {
        p.button("Reset", true, Action::Unforce);
    }
    p.put(Item::LineEnd);
}

fn put_menu(p: &mut Page, w: &Wizard, c: &Conn)
    ensures
        final(p)@ == board_menu(old(p)@, w@, c@),
{
    if w.details || !c.id.certain() {
        assert(c@.id.candidates.len() == c.id.candidates@.len());
        if c.id.candidates.len() > 1 {
            put_menu_of(p, w, &c.id.candidates);
        } else {
            let all = boards();
            assert(models(all@).len() == all@.len());
            if all.len() > 0 {
                put_menu_of(p, w, &all);
            }
        }
    }
}

pub open spec fn detail_lines(
    p: Seq<ItemModel>,
    w: WizardModel,
    c: ConnModel,
    plan: PlanModel,
    rejected: Seq<(Method, Seq<char>)>,
) -> Seq<ItemModel> {
    let p = p.push(ItemModel::Rule).push(ItemModel::Text(Tone::Strong, "Details"@)).push(
        ItemModel::Text(Tone::Weak, "evidence"@),
    );
    let p = (p + evidence_lines(c.id.raw)).push(ItemModel::Text(Tone::Weak, "writes"@));
    let p = p + lines_model(plan.writes, true, Tone::Plain, "  "@);
    let p = p + rejection_lines(rejected);
    p.push(
        ItemModel::Check(
            w.self_install,
            "One-shot self-install (advanced)"@,
            "Reboots once and lets a tiny on-device installer write p1, instead of the two-stage flow. Faster, but a fault leaves a controller that is only recoverable over a serial console."@,
            ActionModel::ToggleSelfInstall,
        ),
    )
}

/// What the install will do, or why this window cannot do it.
pub open spec fn prospects(p: Seq<ItemModel>, w: WizardModel, c: ConnModel, b: BoardModel) -> Seq<ItemModel> {
    let id = as_board(b, c.id.running, seq![]);
    let rejected = passed_over(order(), id, None);
    match chosen(order(), id, None) {
        Some(m) => if m == Method::Network {
            let plan = plan_model(b, Method::Network);
            let p = p.push(ItemModel::Text(Tone::Strong, "What the install will do"@)) + lines_model(
                plan.steps,
                false,
                Tone::Plain,
                "• "@,
            );
            let p = p.push(ItemModel::Text(Tone::Strong, "If you change your mind"@)).push(
                ItemModel::Text(Tone::Plain, plan.reversible),
            );
            if w.details {
                detail_lines(p, w, c, plan, rejected)
            } else {
                p
            }
        } else {
            p.push(
                ItemModel::Text(
                    Tone::Bad,
                    "This controller installs with the "@ + m.name_spec()
                        + " method, which this app cannot drive yet. Use the ohc-flash command line tool."@,
                ),
            )
        },
        None => p.push(ItemModel::Text(Tone::Bad, "No install method applies to this controller."@))
            + rejection_lines(rejected),
    }
}

fn put_prospects(p: &mut Page, w: &Wizard, c: &Conn, b: &'static Board)
    ensures
        final(p)@ == prospects(old(p)@, w@, c@, b@),
{
    let id = identity_for(b, c.id.running);
    let (m, rejected) = choose_method(&id, None);
    match m {
        Some(m) => {
            if m == Method::Network {
                let plan = plan(b, Method::Network);
                p.text(Tone::Strong, "What the install will do");
                put_lines(p, &plan.steps, false, Tone::Plain, "• ");
                p.text(Tone::Strong, "If you change your mind");
                p.text(Tone::Plain, plan.reversible.as_str());
                if w.details {
                    p.put(Item::Rule);
                    p.text(Tone::Strong, "Details");
                    p.text(Tone::Weak, "evidence");
                    put_evidence(p, &c.id.raw);
                    p.text(Tone::Weak, "writes");
                    put_lines(p, &plan.writes, true, Tone::Plain, "  ");
                    put_rejections(p, &rejected);
                    p.check(
                        w.self_install,
                        "One-shot self-install (advanced)",
                        "Reboots once and lets a tiny on-device installer write p1, instead of the two-stage flow. Faster, but a fault leaves a controller that is only recoverable over a serial console.",
                        Action::ToggleSelfInstall,
                    );
                }
            } else {
                let s = cat3(
                    "This controller installs with the ",
                    m.name(),
                    " method, which this app cannot drive yet. Use the ohc-flash command line tool.",
                );
                p.put(Item::Text(Tone::Bad, s));
            }
        },
        None => {
            p.text(Tone::Bad, "No install method applies to this controller.");
            put_rejections(p, &rejected);
        },
    }
}

pub open spec fn check_page(w: WizardModel) -> Seq<ItemModel> {
    let p = seq![ItemModel::Heading(Tone::Plain, "What is this controller?"@)];
    match w.connect_error {
        Some(e) => p.push(ItemModel::Text(Tone::Bad, e)).push(ItemModel::Line).push(
            ItemModel::Text(Tone::Plain, "Password:"@),
        ).push(ItemModel::Input(Field::Password, ""@, true)).push(
            ItemModel::Button("Try again"@, w.idle(), ActionModel::Connect),
        ).push(ItemModel::LineEnd),
        None => match w.conn {
            None => if w.idle() {
                p.push(ItemModel::Button("Connect"@, true, ActionModel::Connect))
            } else {
                p
            },
            Some(c) => {
                let p = currency(identity_rows(p, w, c), w, c);
                // An uncertain identification is the one thing that must never
                // be papered over.
                let p = if !c.id.certain() && w.forced is None {
                    p.push(
                        ItemModel::Text(
                            Tone::Warn,
                            "This model could not be pinned down from the controller alone. Choose it below — check the label on the underside of the unit."@,
                        ),
                    )
                } else {
                    p
                };
                let p = board_menu(p, w, c);
                match w.board() {
                    Some(b) => prospects(p, w, c, b),
                    None => p,
                }
            },
        },
    }
}

/// Checking what the controller is.
pub fn step_check(w: &Wizard) -> (r: Page)
    ensures
        r@ == check_page(w@),
{
    let idle: bool = w.busy.is_none();
    let mut p = Page::new();
    p.heading("What is this controller?");
    assert(p@ =~= seq![ItemModel::Heading(Tone::Plain, "What is this controller?"@)]);
    if let Some(e) = &w.connect_error {
        p.text(Tone::Bad, e.as_str());
        p.put(Item::Line);
        p.text(Tone::Plain, "Password:");
        p.input(Field::Password, "", true);
        p.button("Try again", idle, Action::Connect);
        p.put(Item::LineEnd);
        return p;
    }
    match &w.conn {
        None => {
            if idle {
                p.button("Connect", true, Action::Connect);
            }
        },
        Some(c) => {
            put_identity(&mut p, w, c);
            put_currency(&mut p, w, c);
            if !c.id.certain() && w.forced.is_none() {
                p.text(
                    Tone::Warn,
                    "This model could not be pinned down from the controller alone. Choose it below — check the label on the underside of the unit.",
                );
            }
            put_menu(&mut p, w, c);
            if let Some(b) = w.board() {
                put_prospects(&mut p, w, c, b);
            }
        },
    }
    p
}

// ---------------------------------------------------------------------------- images

/// The published image for the board in hand.
pub open spec fn image_on_offer(w: WizardModel) -> Option<AssetModel> {
    match (w.board(), w.latest) {
        (Some(b), Some(r)) => first_image(r.assets, b.name),
        _ => None,
    }
}

pub open spec fn needs(p: Seq<ItemModel>, names: Seq<Seq<char>>, need: Seq<char>) -> Seq<ItemModel> {
    if names.contains(need) {
        p
    } else {
        p.push(ItemModel::Text(Tone::Bad, "✗ self-install needs "@ + need + ", not in this release"@))
    }
}

fn holds(v: &Vec<String>, s: &str) -> (r: bool)
    ensures
        r == strings(v@).contains(s@),
{
    crate::iod::api::holds(v, s)
}

fn put_need(p: &mut Page, names: &Vec<String>, need: &str)
    ensures
        final(p)@ == needs(old(p)@, strings(names@), need@),
{
    if !holds(names, need) {
        let s = cat3("✗ self-install needs ", need, ", not in this release");
        p.put(Item::Text(Tone::Bad, s));
    }
}

/// What is spare in the boot window, never less than nothing.
pub open spec fn spare(kernel_len: u64) -> nat {
    if kernel_len < BOOTLINUX_WINDOW {
        (BOOTLINUX_WINDOW - kernel_len) as nat
    } else {
        0
    }
}

/// What a release that was read comes to.
pub open spec fn release_lines(p: Seq<ItemModel>, w: WizardModel, r: RelInfoModel) -> Seq<ItemModel> {
    let p = if r.problems.len() == 0 {
        p.push(
            ItemModel::Text(
                Tone::Good,
                "✓ Ready — kernel "@ + size_text(r.kernel_len as nat) + " ("@ + size_text(spare(r.kernel_len))
                    + " spare), root filesystem present"@,
            ),
        )
    } else {
        p + lines_model(r.problems, false, Tone::Bad, "✗ "@)
    };
    let p = if w.self_install {
        needs(needs(p, r.names, "boot-init.cpio.gz"@), r.names, "rootfs.ext2.gz"@)
    } else {
        p
    };
    if w.details {
        p.push(ItemModel::Rule).push(ItemModel::Text(Tone::Strong, "Details"@)).push(
            ItemModel::Mono(Tone::Plain, r.source),
        ) + lines_model(r.names, true, Tone::Plain, "  "@)
    } else {
        p
    }
}

fn put_release(p: &mut Page, w: &Wizard, r: &RelInfo)
    ensures
        final(p)@ == release_lines(old(p)@, w@, r@),
{
    assert(r@.problems.len() == r.problems@.len());
    if r.problems.len() == 0 {
        let left: u64 = if r.kernel_len < BOOTLINUX_WINDOW {
            headroom(r.kernel_len) as u64
        } else {
            0
        };
        let s = cat5(
            "✓ Ready — kernel ",
            fmt_bytes(r.kernel_len).as_str(),
            " (",
            fmt_bytes(left).as_str(),
            " spare), root filesystem present",
        );
        p.put(Item::Text(Tone::Good, s));
    } else {
        put_lines(p, &r.problems, false, Tone::Bad, "✗ ");
    }
    if w.self_install {
        put_need(p, &r.names, "boot-init.cpio.gz");
        put_need(p, &r.names, "rootfs.ext2.gz");
    }
    if w.details {
        p.put(Item::Rule);
        p.text(Tone::Strong, "Details");
        p.mono(Tone::Plain, r.source.as_str());
        put_lines(p, &r.names, true, Tone::Plain, "  ");
    }
}

pub open spec fn images_page(w: WizardModel) -> Seq<ItemModel> {
    let p = seq![
        ItemModel::Heading(Tone::Plain, "Choose the openHC release"@),
        ItemModel::Text(
            Tone::Plain,
            "A release is the folder or .zip produced by a build. You can also drag one onto this window."@,
        ),
    ];
    let p = match image_on_offer(w) {
        Some(a) => p.push(ItemModel::Line).push(
            ItemModel::Button(
                "⤓ Download the latest openHC for this controller"@,
                w.idle(),
                ActionModel::Download,
            ),
        ).push(ItemModel::Text(Tone::Weak, a.name + " ("@ + size_text(a.size) + ")"@)).push(
            ItemModel::LineEnd,
        ).push(ItemModel::Text(Tone::Weak, "— or choose your own —"@)),
        None => p,
    };
    let p = p.push(ItemModel::Line).push(ItemModel::Input(Field::Images, "folder or .zip"@, false)).push(
        ItemModel::Button("Browse…"@, true, ActionModel::Browse),
    ).push(ItemModel::Button("Folder…"@, true, ActionModel::Folder)).push(ItemModel::LineEnd);
    match w.rel_error {
        Some(e) => p.push(ItemModel::Text(Tone::Bad, "✗ "@ + e)),
        None => match w.rel_info {
            None => if w.idle() && trim(w.images).len() > 0 {
                p.push(ItemModel::Button("Check this release"@, true, ActionModel::Load))
            } else {
                p
            },
            Some(r) => release_lines(p, w, r),
        },
    }
}

fn put_offer(p: &mut Page, w: &Wizard)
    ensures
        final(p)@ == match image_on_offer(w@) {
            Some(a) => old(p)@.push(ItemModel::Line).push(
                ItemModel::Button(
                    "⤓ Download the latest openHC for this controller"@,
                    w@.idle(),
                    ActionModel::Download,
                ),
            ).push(ItemModel::Text(Tone::Weak, a.name + " ("@ + size_text(a.size) + ")"@)).push(
                ItemModel::LineEnd,
            ).push(ItemModel::Text(Tone::Weak, "— or choose your own —"@)),
            None => old(p)@,
        },
{
    if let Some(b) = w.board() {
        if let Some(r) = &w.latest {
            if let Some(a) = r.image_asset(b.name) {
                p.put(Item::Line);
                p.button(
                    "⤓ Download the latest openHC for this controller",
                    w.busy.is_none(),
                    Action::Download,
                );
                let s = cat4(a.name.as_str(), " (", fmt_bytes(a.size).as_str(), ")");
                p.put(Item::Text(Tone::Weak, s));
                p.put(Item::LineEnd);
                p.text(Tone::Weak, "— or choose your own —");
            }
        }
    }
}

/// Choosing the release.
pub fn step_images(w: &Wizard) -> (r: Page)
    ensures
        r@ == images_page(w@),
{
    let idle: bool = w.busy.is_none();
    let mut p = Page::new();
    p.heading("Choose the openHC release");
    p.text(
        Tone::Plain,
        "A release is the folder or .zip produced by a build. You can also drag one onto this window.",
    );
    assert(p@ =~= seq![
        ItemModel::Heading(Tone::Plain, "Choose the openHC release"@),
        ItemModel::Text(
            Tone::Plain,
            "A release is the folder or .zip produced by a build. You can also drag one onto this window."@,
        ),
    ]);
    put_offer(&mut p, w);
    p.put(Item::Line);
    p.input(Field::Images, "folder or .zip", false);
    p.button("Browse…", true, Action::Browse);
    p.button("Folder…", true, Action::Folder);
    p.put(Item::LineEnd);
    if let Some(e) = &w.rel_error {
        let s = cat2("✗ ", e.as_str());
        p.put(Item::Text(Tone::Bad, s));
        return p;
    }
    match &w.rel_info {
        None => {
            let t = trim_str(w.images.as_str());
            if idle && to_chars(t.as_str()).len() > 0 {
                p.button("Check this release", true, Action::Load);
            }
        },
        Some(r) => put_release(&mut p, w, r),
    }
    p
}

// --------------------------------------------------------------------------- install

/// The last thing the engine said it was doing.
pub open spec fn last_step(log: Seq<(Lvl, Seq<char>)>) -> Option<Seq<char>>
    decreases log.len(),
{
    if log.len() == 0 {
        None
    } else if log.last().0 == Lvl::Step {
        Some(log.last().1)
    } else {
        last_step(log.drop_last())
    }
}

fn find_last_step(log: &Vec<(Lvl, String)>) -> (r: Option<String>)
    ensures
        opt(r) == last_step(log_model(log@)),
{
    let ghost all = log_model(log@);
    let mut i: usize = log.len();
    assert(all.take(all.len() as int) =~= all);
    while i > 0
        invariant
            i <= log@.len(),
            all == log_model(log@),
            last_step(all) == last_step(all.take(i as int)),
        decreases i,
    {
        assert(all.take(i as int).drop_last() =~= all.take(i - 1));
        assert(all.take(i as int).last() == (log@[i - 1].0, log@[i - 1].1@));
        if log[i - 1].0 == Lvl::Step {
            return Some(log[i - 1].1.clone());
        }
        i -= 1;
    }
    None
}

pub open spec fn working_label(phase: Phase) -> Seq<char> {
    match phase {
        Phase::Writing => "Writing openHC to the controller"@,
        Phase::Restarting => "The controller is restarting"@,
        _ => "Writing the system files"@,
    }
}

pub open spec fn install_page(w: WizardModel) -> Seq<ItemModel> {
    match w.board() {
        None => seq![ItemModel::Text(Tone::Plain, "Go back and identify the controller first."@)],
        Some(b) => match w.phase {
            None => seq![ItemModel::Heading(Tone::Plain, "Ready to install"@)].push(
                ItemModel::Row("Controller"@, Tone::Strong, false, b.desc),
            ).push(ItemModel::Row("Address"@, Tone::Plain, true, w.host)).push(
                ItemModel::Row("Release"@, Tone::Plain, true, w.images),
            ).push(
                ItemModel::Text(
                    Tone::Plain,
                    "This takes a few minutes and the controller restarts on its own. Leave it powered and on the network until this window says it is done."@,
                ),
            ).push(ItemModel::Text(Tone::Weak, plan_model(b, Method::Network).reversible)).push(
                ItemModel::Button("Install openHC"@, w.idle(), ActionModel::Install),
            ),
            Some(Phase::Done) => seq![ItemModel::Heading(Tone::Good, "Done"@)].push(
                ItemModel::Text(
                    Tone::Plain,
                    "The controller is restarting into openHC. Give it a minute."@,
                ),
            ).push(ItemModel::Button("Install another"@, true, ActionModel::Reset)),
            Some(Phase::Failed) => {
                let p = seq![ItemModel::Heading(Tone::Bad, "Install failed"@)];
                let p = match w.error {
                    Some(e) => p.push(ItemModel::Text(Tone::Bad, e)),
                    None => p,
                };
                let p = p.push(ItemModel::Line);
                let p = if w.stage1_done {
                    p.push(ItemModel::Button("Finish install"@, w.idle(), ActionModel::Finish))
                } else {
                    p
                };
                p.push(ItemModel::Button("Start over"@, w.idle(), ActionModel::Reset)).push(ItemModel::LineEnd)
            },
            Some(phase) => {
                let p = seq![ItemModel::Heading(Tone::Plain, "Installing"@)].push(
                    ItemModel::Text(Tone::Strong, working_label(phase)),
                ).push(
                    ItemModel::Progress(
                        if phase == Phase::Restarting {
                            w.wait
                        } else {
                            None
                        },
                    ),
                );
                let p = match last_step(w.log) {
                    Some(s) => p.push(ItemModel::Text(Tone::Weak, s)),
                    None => p,
                };
                p.push(ItemModel::Text(Tone::Warn, "Do not unplug the controller."@))
            },
        },
    }
}

fn working_page(w: &Wizard, phase: Phase) -> (r: Page)
    requires
        w@.board() is Some,
        w@.phase == Some(phase),
        phase != Phase::Done,
        phase != Phase::Failed,
    ensures
        r@ == install_page(w@),
{
    let mut p = Page::new();
    p.heading("Installing");
    assert(p@ =~= seq![ItemModel::Heading(Tone::Plain, "Installing"@)]);
    let label: &str = match phase {
        Phase::Writing => "Writing openHC to the controller",
        Phase::Restarting => "The controller is restarting",
        _ => "Writing the system files",
    };
    p.text(Tone::Strong, label);
    let wait = if phase == Phase::Restarting {
        w.wait
    } else {
        None
    };
    p.put(Item::Progress(wait));
    if let Some(s) = find_last_step(&w.log) {
        p.text(Tone::Weak, s.as_str());
    }
    p.text(Tone::Warn, "Do not unplug the controller.");
    p
}

/// The install itself: ready, working, done or failed.
pub fn step_install(w: &Wizard) -> (r: Page)
    ensures
        r@ == install_page(w@),
{
    let idle: bool = w.busy.is_none();
    let mut p = Page::new();
    let b = match w.board() {
        Some(b) => b,
        None => {
            p.text(Tone::Plain, "Go back and identify the controller first.");
            assert(p@ =~= seq![ItemModel::Text(Tone::Plain, "Go back and identify the controller first."@)]);
            return p;
        },
    };
    match w.phase {
        None => {
            p.heading("Ready to install");
            assert(p@ =~= seq![ItemModel::Heading(Tone::Plain, "Ready to install"@)]);
            p.row("Controller", Tone::Strong, false, b.desc);
            p.row("Address", Tone::Plain, true, w.host.as_str());
            p.row("Release", Tone::Plain, true, w.images.as_str());
            p.text(
                Tone::Plain,
                "This takes a few minutes and the controller restarts on its own. Leave it powered and on the network until this window says it is done.",
            );
            let plan = plan(b, Method::Network);
            p.text(Tone::Weak, plan.reversible.as_str());
            p.button("Install openHC", idle, Action::Install);
        },
        Some(Phase::Done) => {
            p.put(Item::Heading(Tone::Good, String::from_str("Done")));
            assert(p@ =~= seq![ItemModel::Heading(Tone::Good, "Done"@)]);
            p.text(Tone::Plain, "The controller is restarting into openHC. Give it a minute.");
            p.button("Install another", true, Action::Reset);
        },
        Some(Phase::Failed) => {
            p.put(Item::Heading(Tone::Bad, String::from_str("Install failed")));
            assert(p@ =~= seq![ItemModel::Heading(Tone::Bad, "Install failed"@)]);
            if let Some(e) = &w.error {
                p.text(Tone::Bad, e.as_str());
            }
            p.put(Item::Line);
            if w.stage1_done {
                p.button("Finish install", idle, Action::Finish);
            }
            p.button("Start over", idle, Action::Reset);
            p.put(Item::LineEnd);
        },
        Some(phase) => {
            return working_page(w, phase);
        },
    }
    p
}

// ---------------------------------------------------------------------------- chrome

pub open spec fn step_mark(p: Seq<ItemModel>, n: nat, s: Step, current: Step) -> Seq<ItemModel> {
    let p = if n > 1 {
        p.push(ItemModel::Text(Tone::Weak, "›"@))
    } else {
        p
    };
    p.push(
        ItemModel::Text(
            if s == current {
                Tone::Strong
            } else {
                Tone::Weak
            },
            dec(n) + ". "@ + s.title_spec(),
        ),
    )
}

pub open spec fn stepper_items(p: Seq<ItemModel>, current: Step) -> Seq<ItemModel> {
    let p = p.push(ItemModel::Line);
    let p = step_mark(p, 1, Step::Find, current);
    let p = step_mark(p, 2, Step::Check, current);
    let p = step_mark(p, 3, Step::Images, current);
    step_mark(p, 4, Step::Install, current).push(ItemModel::LineEnd)
}

fn put_step(p: &mut Page, n: u64, s: Step, current: Step)
    ensures
        final(p)@ == step_mark(old(p)@, n as nat, s, current),
{
    if n > 1 {
        p.text(Tone::Weak, "›");
    }
    let t = if s == current {
        Tone::Strong
    } else {
        Tone::Weak
    };
    let label = cat3(dec_string(n).as_str(), ". ", s.title());
    p.put(Item::Text(t, label));
}

/// Where in the wizard the user is.
pub fn stepper(p: &mut Page, current: Step)
    ensures
        final(p)@ == stepper_items(old(p)@, current),
{
    p.put(Item::Line);
    put_step(p, 1, Step::Find, current);
    put_step(p, 2, Step::Check, current);
    put_step(p, 3, Step::Images, current);
    put_step(p, 4, Step::Install, current);
    p.put(Item::LineEnd);
}

pub open spec fn nav_page(w: WizardModel) -> Seq<ItemModel> {
    let blocked = w.blocker();
    let p = seq![ItemModel::Line].push(
        ItemModel::Button("Back"@, w.step != Step::Find && w.idle(), ActionModel::Back),
    ).push(
        ItemModel::Button(
            "Next"@,
            w.step != Step::Install && blocked is None && w.idle(),
            ActionModel::Next,
        ),
    );
    let p = match blocked {
        Some(why) => if w.idle() {
            p.push(ItemModel::Text(Tone::Weak, why))
        } else {
            p
        },
        None => p,
    };
    let p = match w.busy {
        Some(what) => p.push(ItemModel::Spinner).push(ItemModel::Text(Tone::Weak, what)),
        None => p,
    };
    p.push(ItemModel::LineEnd)
}

/// Back and Next, and why Next is dead: a greyed-out button with no reason is
/// where a user gives up.
pub fn nav(w: &Wizard) -> (r: Page)
    ensures
        r@ == nav_page(w@),
{
    let idle: bool = w.busy.is_none();
    let blocked = w.blocker();
    let mut p = Page::new();
    p.put(Item::Line);
    assert(p@ =~= seq![ItemModel::Line]);
    p.button("Back", w.step != Step::Find && idle, Action::Back);
    p.button("Next", w.step != Step::Install && blocked.is_none() && idle, Action::Next);
    if let Some(why) = &blocked {
        if idle {
            p.text(Tone::Weak, why.as_str());
        }
    }
    if let Some(what) = &w.busy {
        p.put(Item::Spinner);
        p.text(Tone::Weak, what.as_str());
    }
    p.put(Item::LineEnd);
    p
}

pub open spec fn log_lines(log: Seq<(Lvl, Seq<char>)>, details: bool) -> Seq<ItemModel>
    decreases log.len(),
{
    if log.len() == 0 {
        seq![]
    } else {
        let before = log_lines(log.drop_last(), details);
        let (lvl, text) = log.last();
        match lvl {
            Lvl::Step => before.push(ItemModel::Mono(Tone::Plain, text)),
            Lvl::Detail => if details {
                before.push(ItemModel::Mono(Tone::Weak, text))
            } else {
                before
            },
            Lvl::Warn => before.push(ItemModel::Mono(Tone::Warn, text)),
        }
    }
}

pub open spec fn log_page(w: WizardModel) -> Seq<ItemModel> {
    let p = seq![ItemModel::Line].push(ItemModel::Text(Tone::Strong, "Log"@)).push(
        ItemModel::Button("Copy"@, true, ActionModel::CopyLog),
    ).push(ItemModel::Button("Clear"@, true, ActionModel::ClearLog)).push(ItemModel::LineEnd);
    let p = p + log_lines(w.log, w.details);
    if w.log.len() == 0 {
        p.push(ItemModel::Text(Tone::Weak, "nothing yet"@))
    } else {
        p
    }
}

/// The log. Detail lines are the debug half, noise for the wizard.
pub fn log_panel(w: &Wizard) -> (r: Page)
    ensures
        r@ == log_page(w@),
{
    let mut p = Page::new();
    p.put(Item::Line);
    assert(p@ =~= seq![ItemModel::Line]);
    p.text(Tone::Strong, "Log");
    p.button("Copy", true, Action::CopyLog);
    p.button("Clear", true, Action::ClearLog);
    p.put(Item::LineEnd);
    let ghost start = p@;
    let ghost all = log_model(w.log@);
    let mut i: usize = 0;
    assert(start + log_lines(all.take(0), w.details) =~= start);
    while i < w.log.len()
        invariant
            i <= w.log@.len(),
            all == log_model(w.log@),
            p@ == start + log_lines(all.take(i as int), w.details),
        decreases w.log@.len() - i,
    {
        assert(all.take(i + 1).drop_last() =~= all.take(i as int));
        let ghost was = log_lines(all.take(i as int), w.details);
        let lvl = w.log[i].0;
        let text = &w.log[i].1;
        assert(all.take(i + 1).last() == (lvl, text@));
        match lvl {
            Lvl::Step => {
                p.mono(Tone::Plain, text.as_str());
                assert((start + was).push(ItemModel::Mono(Tone::Plain, text@)) =~= start + was.push(
                    ItemModel::Mono(Tone::Plain, text@),
                ));
            },
            Lvl::Detail => {
                if w.details {
                    p.mono(Tone::Weak, text.as_str());
                    assert((start + was).push(ItemModel::Mono(Tone::Weak, text@)) =~= start + was.push(
                        ItemModel::Mono(Tone::Weak, text@),
                    ));
                }
            },
            Lvl::Warn => {
                p.mono(Tone::Warn, text.as_str());
                assert((start + was).push(ItemModel::Mono(Tone::Warn, text@)) =~= start + was.push(
                    ItemModel::Mono(Tone::Warn, text@),
                ));
            },
        }
        i += 1;
    }
    assert(all.take(all.len() as int) =~= all);
    assert(w@.log.len() == w.log@.len());
    if w.log.len() == 0 {
        p.text(Tone::Weak, "nothing yet");
    }
    p
}

/// A newer flasher among the published builds.
pub open spec fn newer_flasher(w: WizardModel, version: Seq<char>, os: Seq<char>) -> Option<Seq<char>> {
    match w.latest {
        Some(r) => if first_flasher(r.assets, os) is Some && differs(version, r.tag_name) {
            Some(r.tag_name)
        } else {
            None
        },
        None => None,
    }
}

pub open spec fn head_page(w: WizardModel, version: Seq<char>, os: Seq<char>) -> Seq<ItemModel> {
    let p = seq![ItemModel::Line].push(ItemModel::Heading(Tone::Plain, "openHC Flasher"@)).push(
        ItemModel::Check(
            w.details,
            "Details"@,
            "Show raw evidence, flash offsets and the full engine log"@,
            ActionModel::ToggleDetails,
        ),
    );
    let p = if w.details {
        p.push(ItemModel::Text(Tone::Small, "v"@ + version))
    } else {
        p
    };
    let p = p.push(ItemModel::LineEnd);
    let p = match newer_flasher(w, version, os) {
        Some(tag) => p.push(ItemModel::Line).push(
            ItemModel::Text(Tone::Warn, "Flasher update available: "@ + tag),
        ).push(ItemModel::Button("Update now"@, w.idle(), ActionModel::UpdateFlasher)).push(ItemModel::LineEnd),
        None => p,
    };
    let p = match w.notice {
        Some(n) => p.push(ItemModel::Text(Tone::Good, n)),
        None => p,
    };
    stepper_items(p, w.step)
}

fn head(w: &Wizard, version: &str, os: &str) -> (r: Page)
    ensures
        r@ == head_page(w@, version@, os@),
{
    let mut p = Page::new();
    p.put(Item::Line);
    assert(p@ =~= seq![ItemModel::Line]);
    p.heading("openHC Flasher");
    p.check(
        w.details,
        "Details",
        "Show raw evidence, flash offsets and the full engine log",
        Action::ToggleDetails,
    );
    if w.details {
        let v = cat2("v", version);
        p.put(Item::Text(Tone::Small, v));
    }
    p.put(Item::LineEnd);
    if let Some(r) = &w.latest {
        if r.flasher_asset(os).is_some() && differs_from_release(version, r.tag_name.as_str()) {
            p.put(Item::Line);
            let s = cat2("Flasher update available: ", r.tag_name.as_str());
            p.put(Item::Text(Tone::Warn, s));
            p.button("Update now", w.busy.is_none(), Action::UpdateFlasher);
            p.put(Item::LineEnd);
        }
    }
    if let Some(n) = &w.notice {
        p.text(Tone::Good, n.as_str());
    }
    stepper(&mut p, w.step);
    p
}

/// The whole window.
#[derive(Debug)]
pub struct Window {
    pub head: Page,
    pub nav: Page,
    pub log: Option<Page>,
    pub body: Page,
    /// Something is in flight: paint again soon, without waiting for input.
    pub repaint: bool,
}

pub open spec fn body_page(w: WizardModel) -> Seq<ItemModel> {
    match w.step {
        Step::Find => find_page(w),
        Step::Check => check_page(w),
        Step::Images => images_page(w),
        Step::Install => install_page(w),
    }
}

/// Lay the whole window out. The log is up during and after an install, and on
/// demand elsewhere.
pub fn render(w: &Wizard, version: &str, os: &str) -> (r: Window)
    ensures
        r.head@ == head_page(w@, version@, os@),
        r.nav@ == nav_page(w@),
        (w@.details || w@.phase is Some) == (r.log is Some),
        r.log is Some ==> r.log->0@ == log_page(w@),
        r.body@ == body_page(w@),
        r.repaint == (!w@.idle() || !w@.checked_latest),
{
    let log = if w.details || w.phase.is_some() {
        Some(log_panel(w))
    } else {
        None
    };
    let body = match w.step {
        Step::Find => step_find(w),
        Step::Check => step_check(w),
        Step::Images => step_images(w),
        Step::Install => step_install(w),
    };
    Window {
        head: head(w, version, os),
        nav: nav(w),
        log,
        body,
        repaint: w.busy.is_some() || !w.checked_latest,
    }
}

/// While something runs, no button of any screen that starts work can be pressed.
pub open spec fn dead(i: ItemModel) -> bool {
    match i {
        ItemModel::Button(_, on, a) => match a {
            ActionModel::Scan | ActionModel::Install | ActionModel::Finish | ActionModel::Download
            | ActionModel::Next | ActionModel::Back | ActionModel::UpdateFlasher => !on,
            _ => true,
        },
        _ => true,
    }
}

/// Nothing is installed twice: while the wizard is busy, the install screen's
/// buttons cannot start an install, and Next cannot be pressed.
pub proof fn law_a_busy_wizard_starts_nothing(w: WizardModel)
    requires
        !w.idle(),
    ensures
        forall|i: int| 0 <= i < install_page(w).len() ==> dead(#[trigger] install_page(w)[i]),
        forall|i: int| 0 <= i < nav_page(w).len() ==> dead(#[trigger] nav_page(w)[i]),
{
}

} // verus!
