//! What a board's name, its numbers and its state say about how it is installed.
use crate::flasher::board::{
    c4_identity, dmi_identity, ea_named, env_model, table, with_rev, with_type, BoardModel, Family, IdentityModel,
    Running,
};
use crate::flasher::method::{container_write, plan_model, script_write, Method};
use crate::text::{lower, starts_with, trim};
use vstd::prelude::*;
use vstd::string::*;

verus! {

/// A board is of the family its name begins with; those with the blown fuse are the
/// EA3s; those with the vendor's numbers have the number of their kind; and those with
/// Wi-Fi are the EA1s without a switch and the first EA3.
pub proof fn law_a_name_tells_the_board(b: BoardModel)
    requires
        table().contains(b),
    ensures
        b.family == Family::Ea <==> starts_with(b.name, "ea"@),
        b.family == Family::Ca <==> b.name == "ca1"@,
        b.family == Family::Iox <==> b.name == "ioxv1"@,
        b.family == Family::Hc <==> b.name == "hc800"@,
        b.secure_boot <==> starts_with(b.name, "ea3-"@),
        b.c4_type == (if starts_with(b.name, "ea1-"@) {
            Some(1u8)
        } else if starts_with(b.name, "ea3-"@) {
            Some(2u8)
        } else if b.name == "ca1"@ {
            Some(0u8)
        } else {
            None
        }),
        b.has_wifi <==> b.name == "ea1-v1"@ || b.name == "ea1-v2"@ || b.name == "ea3-v1"@,
        b.has_switch <==> b.name == "ea1-v2-poe"@ || b.name == "ea3-v1"@ || b.name == "ea3-v2"@,
        forall|r: u8| #[trigger]
            b.c4_revs.contains(r) <==> (b.name == "ea1-v1"@ && r == 5) || (b.name == "ea3-v2"@ && r == 9) || (b.name
                == "ca1"@ && r == 4),
{
    reveal_strlit("ea1-v1");
    reveal_strlit("ea1-v2");
    reveal_strlit("ea1-v2-poe");
    reveal_strlit("ea3-v1");
    reveal_strlit("ea3-v2");
    reveal_strlit("ca1");
    reveal_strlit("ioxv1");
    reveal_strlit("hc800");
    reveal_strlit("ea");
    reveal_strlit("ea1-");
    reveal_strlit("ea3-");
    assert("ea1-v1"@.len() == 6 && "ea1-v2"@.len() == 6 && "ea3-v1"@.len() == 6 && "ea3-v2"@.len() == 6
        && "ea1-v2-poe"@.len() == 10 && "ca1"@.len() == 3 && "ioxv1"@.len() == 5 && "hc800"@.len() == 5);
    assert("ea1-v1"@[2] == '1' && "ea1-v2"@[2] == '1' && "ea3-v1"@[2] == '3' && "ea3-v2"@[2] == '3');
    assert("ea1-v1"@[5] == '1' && "ea1-v2"@[5] == '2' && "ea3-v1"@[5] == '1' && "ea3-v2"@[5] == '2');
    assert("ioxv1"@[0] == 'i' && "hc800"@[0] == 'h' && "ca1"@[0] == 'c' && "ea1-v2-poe"@[2] == '1');
    lemma_first_agrees();
    lemma_first_differs();
    assert(seq![5u8][0] == 5u8 && seq![9u8][0] == 9u8 && seq![4u8][0] == 4u8);
    assert(seq![5u8].contains(5u8) && seq![9u8].contains(9u8) && seq![4u8].contains(4u8));
}

/// Names that begin alike.
proof fn lemma_first_agrees()
    ensures
        starts_with("ea1-v1"@, "ea"@) && starts_with("ea1-v1"@, "ea1-"@),
        starts_with("ea1-v2"@, "ea"@) && starts_with("ea1-v2"@, "ea1-"@),
        starts_with("ea1-v2-poe"@, "ea"@) && starts_with("ea1-v2-poe"@, "ea1-"@),
        starts_with("ea3-v1"@, "ea"@) && starts_with("ea3-v1"@, "ea3-"@),
        starts_with("ea3-v2"@, "ea"@) && starts_with("ea3-v2"@, "ea3-"@),
{
    reveal_strlit("ea1-v1");
    reveal_strlit("ea1-v2");
    reveal_strlit("ea1-v2-poe");
    reveal_strlit("ea3-v1");
    reveal_strlit("ea3-v2");
    reveal_strlit("ea");
    reveal_strlit("ea1-");
    reveal_strlit("ea3-");
    assert("ea1-v1"@.subrange(0, 2) =~= "ea"@ && "ea1-v1"@.subrange(0, 4) =~= "ea1-"@);
    assert("ea1-v2"@.subrange(0, 2) =~= "ea"@ && "ea1-v2"@.subrange(0, 4) =~= "ea1-"@);
    assert("ea1-v2-poe"@.subrange(0, 2) =~= "ea"@ && "ea1-v2-poe"@.subrange(0, 4) =~= "ea1-"@);
    assert("ea3-v1"@.subrange(0, 2) =~= "ea"@ && "ea3-v1"@.subrange(0, 4) =~= "ea3-"@);
    assert("ea3-v2"@.subrange(0, 2) =~= "ea"@ && "ea3-v2"@.subrange(0, 4) =~= "ea3-"@);
}

/// What a filter keeps was there before, is as it should be, and is all there is of it.
proof fn lemma_kept(v: Seq<BoardModel>, pred: spec_fn(BoardModel) -> bool, b: BoardModel)
    ensures
        v.filter(pred).contains(b) <==> v.contains(b) && pred(b),
    decreases v.len(),
{
    reveal(Seq::filter);
    if v.len() > 0 {
        let w = v.drop_last();
        lemma_kept(w, pred, b);
        assert(v =~= w.push(v.last()));
        assert(v.contains(b) <==> w.contains(b) || b == v.last()) by {
            if w.contains(b) {
                let i = choose|i: int| 0 <= i < w.len() && w[i] == b;
                assert(v[i] == b);
            }
            assert(v[v.len() - 1] == v.last());
        }
        let out = w.filter(pred);
        if pred(v.last()) {
            let more = out.push(v.last());
            assert(more.contains(b) <==> out.contains(b) || b == v.last()) by {
                if out.contains(b) {
                    let i = choose|i: int| 0 <= i < out.len() && out[i] == b;
                    assert(more[i] == b);
                }
                assert(more[more.len() - 1] == v.last());
            }
        }
    }
}

/// Names that begin differently.
proof fn lemma_first_differs()
    ensures
        !starts_with("ca1"@, "ea"@),
        !starts_with("ioxv1"@, "ea"@),
        !starts_with("hc800"@, "ea"@),
        !starts_with("ca1"@, "ea1-"@),
        !starts_with("ioxv1"@, "ea1-"@),
        !starts_with("hc800"@, "ea1-"@),
        !starts_with("ca1"@, "ea3-"@),
        !starts_with("ioxv1"@, "ea3-"@),
        !starts_with("hc800"@, "ea3-"@),
        !starts_with("ea1-v1"@, "ea3-"@),
        !starts_with("ea1-v2"@, "ea3-"@),
        !starts_with("ea1-v2-poe"@, "ea3-"@),
        !starts_with("ea3-v1"@, "ea1-"@),
        !starts_with("ea3-v2"@, "ea1-"@),
{
    reveal_strlit("ea1-v1");
    reveal_strlit("ea1-v2");
    reveal_strlit("ea1-v2-poe");
    reveal_strlit("ea3-v1");
    reveal_strlit("ea3-v2");
    reveal_strlit("ca1");
    reveal_strlit("ioxv1");
    reveal_strlit("hc800");
    reveal_strlit("ea");
    reveal_strlit("ea1-");
    reveal_strlit("ea3-");
    assert("ca1"@[0] != "ea"@[0] && "ioxv1"@[0] != "ea"@[0] && "hc800"@[0] != "ea"@[0]);
    assert("ca1"@[0] != "ea1-"@[0] && "ioxv1"@[0] != "ea1-"@[0] && "hc800"@[0] != "ea1-"@[0]);
    assert("ca1"@[0] != "ea3-"@[0] && "ioxv1"@[0] != "ea3-"@[0] && "hc800"@[0] != "ea3-"@[0]);
    assert("ea1-v1"@[2] != "ea3-"@[2] && "ea1-v2"@[2] != "ea3-"@[2] && "ea1-v2-poe"@[2] != "ea3-"@[2]);
    assert("ea3-v1"@[2] != "ea1-"@[2] && "ea3-v2"@[2] != "ea1-"@[2]);
}

/// A method applies to a known board exactly when the board is of its family and, but
/// for the serial one, a system runs there that can be logged into.
pub proof fn law_which_methods_apply(id: IdentityModel, m: Method)
    requires
        id.board is Some,
    ensures
        m.obstacle(id) is None <==> {
            let up = id.running == Running::Stock || id.running == Running::Openhc;
            match m {
                Method::Network => id.board->0.family == Family::Ea && up,
                Method::Serial => id.board->0.family == Family::Ea,
                Method::Uboot => id.board->0.family == Family::Ca && up,
                Method::Kexec => id.board->0.family == Family::Hc && up,
                Method::Grub => id.board->0.family == Family::Hc && up,
            }
        },
{
}

/// A plan is for the method it is asked for. Only the serial method needs a console and
/// the button. The script is written exactly where the fuse is blown, and the container
/// by the network method always.
pub proof fn law_a_plan_says_what_is_needed(b: BoardModel, m: Method)
    ensures
        plan_model(b, m).method == m,
        plan_model(b, m).needs_serial <==> m == Method::Serial,
        plan_model(b, m).needs_button <==> m == Method::Serial,
        m == Method::Network ==> plan_model(b, m).writes.contains(container_write()),
        m == Method::Network ==> plan_model(b, m).writes.len() == (if b.secure_boot {
            2nat
        } else {
            1nat
        }),
        m == Method::Network && b.secure_boot ==> plan_model(b, m).writes.contains(script_write()),
        plan_model(b, m).writes.len() > 0 && plan_model(b, m).steps.len() > 0,
{
    if m == Method::Network {
        assert(plan_model(b, m).writes[0] == container_write());
        if b.secure_boot {
            assert(plan_model(b, m).writes[1] == script_write());
        }
    }
}

/// A board told from the vendor's numbers has that type; the revision is one of its
/// own, or it is the only board of the type; and no other board has both.
pub proof fn law_the_numbers_tell_the_board(t: u8, rev: Option<u8>, other: BoardModel)
    requires
        c4_identity(None, Some(t), rev).board is Some,
    ensures
        ({
            let b = c4_identity(None, Some(t), rev).board->0;
            &&& table().contains(b)
            &&& b.c4_type == Some(t)
            &&& rev is Some && table().contains(other) && other.c4_type == Some(t) && other.c4_revs.contains(rev->0) ==> other
                == b
        }),
{
    let byt = |b: BoardModel| b.c4_type == Some(t);
    let byr = |b: BoardModel| rev is Some && b.c4_revs.contains(rev->0);
    let pool = with_type(table(), t);
    let exact = with_rev(pool, rev);
    let b = c4_identity(None, Some(t), rev).board->0;
    lemma_kept(table(), byt, b);
    lemma_kept(pool, byr, b);
    lemma_kept(table(), byt, other);
    lemma_kept(pool, byr, other);
    if exact.len() == 1 {
        assert(exact[0] == b);
    } else {
        assert(pool[0] == b);
    }
}

/// A board told from openHC's model name alone is an EA board whose name begins so.
pub proof fn law_the_model_tells_the_board(raw: Seq<(Seq<char>, Seq<char>)>, model: Seq<char>)
    requires
        env_model(raw, model).board is Some,
        crate::flasher::board::lookup(model) is None,
    ensures
        ({
            let b = env_model(raw, model).board->0;
            &&& table().contains(b)
            &&& b.family == Family::Ea
            &&& starts_with(b.name, "ea"@ + trim(model))
        }),
{
    let f = |b: BoardModel| b.family == Family::Ea && starts_with(b.name, "ea"@ + trim(model));
    let pool = ea_named(table(), "ea"@ + trim(model));
    assert(pool[0] == env_model(raw, model).board->0);
    lemma_kept(table(), f, pool[0]);
}

/// The firmware's own names make an HC-800 of it when both read so, in any case, and
/// of nothing else.
pub proof fn law_the_firmware_names_an_hc800(vendor: Seq<char>, product: Seq<char>, running: Running)
    ensures
        dmi_identity(Some(vendor), Some(product), running).board is Some <==> lower(trim(vendor)) == "lite-on tech."@
            && lower(trim(product)) == "hc800"@,
        dmi_identity(Some(vendor), Some(product), running).board matches Some(b) ==> b.name == "hc800"@,
        dmi_identity(None, Some(product), running).board is None,
        dmi_identity(Some(vendor), None, running).board is None,
        dmi_identity(Some(vendor), Some(product), running).running == running,
{
}

} // verus!
