use openhc::flasher::board::{
    boards, by_name, from_board_env, from_c4board, from_cefdk_banner, from_dmi, from_env_values, Family, Identity,
    Running,
};
use openhc::flasher::method::{choose_method, methods, plan, Method};
use openhc::flasher::{cefdk, hc800, image};

fn ident(name: &str, running: Running) -> Identity {
    let b = by_name(name).expect("board in the table");
    Identity { board: Some(b), candidates: vec![b], running, version: None, raw: vec![] }
}

#[test]
fn autoscript_is_nul_framed_and_padded() {
    let lines = cefdk::autoscript_for(0x980, 6_800_000, "console=ttyS0,115200 rw");
    assert_eq!(lines[0], "emmc rd 0x980 0x6000000 0x67c400");
    // The cache flush must survive: emmc rd moves memory without invalidating it.
    assert_eq!(lines[1], "cache flush");
    assert_eq!(lines[4], "bootlinux \"console=ttyS0,115200 rw\"");

    let blob = cefdk::build_autoscript(&lines).unwrap();
    assert_eq!(blob.len(), cefdk::MFH_SCRIPT_LEN);
    assert!(blob.starts_with(b"emmc rd 0x980 0x6000000 0x67c400\0"));
    assert_eq!(cefdk::parse_autoscript(&blob), lines);
}

#[test]
fn hc800_defaults_to_the_method_that_writes_nothing() {
    let (m, _) = choose_method(&ident("hc800", Running::Stock), None);
    assert_eq!(m, Some(Method::Kexec));
    assert!(Method::Kexec.writes_nothing());
    assert!(!Method::Grub.writes_nothing());
}

#[test]
fn the_hc800_methods_do_not_leak_onto_other_families() {
    for name in ["ea1-v1", "ea3-v2", "ca1", "ioxv1"] {
        let id = ident(name, Running::Stock);
        assert!(Method::Kexec.suitable(&id).is_err(), "kexec offered on {name}");
        assert!(Method::Grub.suitable(&id).is_err(), "grub offered on {name}");
    }
    let hc = ident("hc800", Running::Stock);
    assert!(Method::Network.suitable(&hc).is_err());
    assert!(Method::Uboot.suitable(&hc).is_err());
}

#[test]
fn both_hc800_methods_need_something_to_log_into() {
    let cefdk = ident("hc800", Running::Cefdk);
    assert!(Method::Kexec.suitable(&cefdk).is_err());
    assert!(Method::Grub.suitable(&cefdk).is_err());
    for r in [Running::Stock, Running::Openhc] {
        assert!(Method::Kexec.suitable(&ident("hc800", r)).is_ok());
        assert!(Method::Grub.suitable(&ident("hc800", r)).is_ok());
    }
}

#[test]
fn the_kexec_plan_promises_no_writes_and_the_grub_plan_names_every_one() {
    let b = by_name("hc800").unwrap();

    let k = plan(b, Method::Kexec);
    assert_eq!(k.writes.len(), 1);
    assert!(k.writes[0].starts_with("nothing"), "{:?}", k.writes);
    assert!(!k.needs_serial && !k.needs_button);

    let g = plan(b, Method::Grub);
    assert!(g.writes.iter().any(|w| w.contains(hc800::KERNEL_PART)));
    assert!(g.writes.iter().any(|w| w.contains(hc800::GRUB_PART)));
    assert!(
        !g.writes.iter().any(|w| w.contains(hc800::RESTORE_PART)),
        "the factory-restore partition must never appear in a write list"
    );
}

#[test]
fn boot_once_hands_the_default_back_before_it_boots() {
    let e = hc800::menu_entry(true);
    let sd = e.find("savedefault").expect("entry must savedefault");
    let bt = e.find("\nboot").expect("entry must end with boot");
    assert!(sd < bt, "savedefault must precede boot:\n{e}");
    assert!(e.contains(&format!("savedefault\t{}", hc800::ENTRY_VENDOR)));
    assert!(!e.contains(&format!("savedefault\t{}", hc800::ENTRY_OPENHC)));
}

#[test]
fn the_persistent_entry_does_not_save_anything() {
    let e = hc800::menu_entry(false);
    assert!(!e.contains("savedefault"), "persistent entry must not savedefault:\n{e}");
    assert!(e.trim_end().ends_with("boot"));
}

#[test]
fn both_modes_name_the_kernel_and_the_initramfs() {
    for once in [true, false] {
        let e = hc800::menu_entry(once);
        assert!(e.contains(hc800::KERNEL_FILE), "mode boot_once={once}");
        assert!(e.contains(hc800::INITRD_FILE), "mode boot_once={once}");
        assert!(e.contains(hc800::GRUB_KERNEL_ROOT));
    }
}

#[test]
fn the_default_file_leads_with_the_entry_number() {
    let f = hc800::default_file(hc800::ENTRY_OPENHC);
    assert_eq!(f.lines().next().unwrap(), hc800::ENTRY_OPENHC.to_string());
    assert!(f.len() > 32, "needs padding for savedefault to rewrite in place");
}

#[test]
fn dmi_identifies_the_hc800_and_nothing_else_does() {
    let id = from_dmi(Some("Lite-On Tech."), Some("HC800"), Running::Stock);
    assert_eq!(id.board.map(|b| b.name), Some("hc800"));
    assert!(id.certain());
    let sloppy = from_dmi(Some(" lite-on tech. "), Some("hc800\n"), Running::Stock);
    assert_eq!(sloppy.board.map(|b| b.name), Some("hc800"));
    let other = from_dmi(Some("Dell Inc."), Some("OptiPlex"), Running::Stock);
    assert!(other.board.is_none());
}

#[test]
fn ohc_model_carries_a_board_name_outside_the_ea_family() {
    let hc = from_board_env(|k| (k == "OHC_MODEL").then(|| "hc800".into()));
    assert_eq!(hc.board.map(|b| b.name), Some("hc800"));
    assert_eq!(hc.running, Running::Openhc);

    let ea = from_board_env(|k| (k == "OHC_MODEL").then(|| "3".into()));
    assert!(ea.candidates.iter().all(|b| b.family == Family::Ea));
    assert!(!ea.candidates.is_empty());
}

#[test]
fn autoscript_refuses_to_overflow_the_mfh_entry() {
    let huge = vec!["x".repeat(3000)];
    assert!(cefdk::build_autoscript(&huge).is_err());
}

#[test]
fn layout_is_self_consistent() {
    assert_eq!(cefdk::EMMC_KERNEL_OFF, cefdk::EMMC_CONTAINER_OFF + cefdk::EMMC_HEADER_LEN as u64);
    assert!(cefdk::EMMC_KERNEL_OFF < cefdk::P1_START);
    assert_eq!(cefdk::round_to_sector(1), 512);
    assert_eq!(cefdk::round_to_sector(512), 512);
    assert_eq!(cefdk::round_to_sector(513), 1024);
}

#[test]
fn stock_ids_resolve_to_the_right_board() {
    assert_eq!(from_c4board(None, Some(2), Some(9)).board.unwrap().name, "ea3-v2");
    assert_eq!(from_c4board(None, Some(1), Some(5)).board.unwrap().name, "ea1-v1");
    assert_eq!(from_c4board(None, Some(0), Some(4)).board.unwrap().name, "ca1");
}

#[test]
fn unknown_revision_stays_ambiguous_rather_than_guessing() {
    let id = from_c4board(None, Some(2), Some(99));
    assert!(!id.certain());
    assert!(id.candidates.len() > 1);
}

#[test]
fn openhc_and_cefdk_identify_too() {
    let id = from_board_env(|k| (k == "OHC_BOARD").then(|| "ea3-v2".into()));
    assert_eq!(id.board.unwrap().name, "ea3-v2");
    assert_eq!(id.running, Running::Openhc);

    let id = from_cefdk_banner("Board : Type 1, Rev 5   MAC : 00:0f:ff");
    assert_eq!(id.board.unwrap().name, "ea1-v1");
    assert_eq!(id.running, Running::Cefdk);
}

#[test]
fn secure_boot_drives_the_autoscript_choice() {
    assert!(by_name("ea3-v2").unwrap().needs_autoscript());
    assert!(!by_name("ea1-v1").unwrap().needs_autoscript());
}

#[test]
fn methods_refuse_boards_from_another_family() {
    let ea = from_c4board(None, Some(2), Some(9));
    let ca = from_c4board(None, Some(0), Some(4));

    assert!(Method::Network.suitable(&ea).is_ok());
    assert!(Method::Network.suitable(&ca).is_err());
    assert!(Method::Uboot.suitable(&ca).is_ok());
    assert!(Method::Uboot.suitable(&ea).is_err());

    assert_eq!(choose_method(&ea, None).0, Some(Method::Network));
    assert_eq!(choose_method(&ca, None).0, Some(Method::Uboot));
}

#[test]
fn container_generates_a_blob_free_header() {
    let kernel = vec![0u8; 0x400];
    let blob = image::container(&kernel, None).unwrap();
    assert_eq!(blob.len(), cefdk::EMMC_HEADER_LEN + kernel.len());
    assert_eq!(&blob[0x10..0x14], &0x8086u32.to_le_bytes());
    let header_sum: u32 = blob[..cefdk::EMMC_HEADER_LEN].iter().map(|&b| b as u32).sum();
    assert!(header_sum < 0x10000);
}

fn bzimage_head() -> Vec<u8> {
    let mut h = vec![0u8; 0x400];
    h[0x1fe] = 0x55;
    h[0x1ff] = 0xaa;
    h[0x202..0x206].copy_from_slice(b"HdrS");
    h
}

#[test]
fn size_guard_matches_the_bootlinux_window() {
    assert_eq!(image::BOOTLINUX_WINDOW, 0x813000 - 0x100000);
    let probs = image::ea_problems(None, 0, false, false);
    assert!(probs.iter().any(|p| p.contains("no bzImage")));
    let head = bzimage_head();
    let probs = image::ea_problems(Some(&head), image::BOOTLINUX_WINDOW + 1, true, true);
    assert!(probs.iter().any(|p| p.contains("bootlinux window")));
}

#[test]
fn a_good_ea_image_set_has_no_problems() {
    let head = bzimage_head();
    assert!(image::is_bzimage(&head));
    assert!(!image::is_bzimage(&head[..0x205]));
    assert!(image::ea_problems(Some(&head), 0x400, true, true).is_empty());
    assert_eq!(image::ea_problems(Some(&head), 0x400, false, true).len(), 1);
    assert_eq!(image::ea_problems(Some(b"not a kernel"), 12, true, false).len(), 1);
}

#[test]
fn a_good_hc_image_set_has_no_problems() {
    let head = bzimage_head();
    assert!(image::hc_problems(Some(&head), 0x400, true).is_empty());
    assert_eq!(image::hc_problems(Some(&head), 0x400, false).len(), 1);
    assert!(!image::hc_problems(None, 0, true).is_empty());
}

#[test]
fn headroom_is_what_the_window_has_left() {
    assert_eq!(image::headroom(0), image::BOOTLINUX_WINDOW as i64);
    assert_eq!(image::headroom(image::BOOTLINUX_WINDOW), 0);
    assert_eq!(image::headroom(image::BOOTLINUX_WINDOW + 3), -3);
}

#[test]
fn size_words_are_big_endian() {
    assert_eq!(image::size_word(0x0102_0304), [1, 2, 3, 4]);
}

#[test]
fn a_header_of_the_wrong_length_is_refused() {
    assert!(image::container(b"kernel", Some(&[0u8; 3])).is_err());
    let mine = vec![7u8; cefdk::EMMC_HEADER_LEN];
    let blob = image::container(b"kernel", Some(&mine)).unwrap();
    assert_eq!(blob.len(), cefdk::EMMC_HEADER_LEN + 6);
    assert_eq!(&blob[cefdk::EMMC_HEADER_LEN..], b"kernel");
}

#[test]
fn every_board_is_found_by_its_name() {
    let all = boards();
    assert_eq!(all.len(), 8);
    for b in all {
        assert_eq!(by_name(b.name).unwrap().name, b.name);
    }
    assert_eq!(by_name(" EA3-V2 ").unwrap().name, "ea3-v2");
    assert!(by_name("ea9").is_none());
}

#[test]
fn a_preferred_method_wins_when_it_suits() {
    let hc = ident("hc800", Running::Stock);
    assert_eq!(choose_method(&hc, Some(Method::Grub)).0, Some(Method::Grub));
    // One that does not suit is refused, with the reason kept: nothing else is
    // put in its place.
    let (m, why) = choose_method(&hc, Some(Method::Network));
    assert_eq!(m, None);
    assert_eq!(why.len(), 1);
    assert_eq!(why[0].0, Method::Network);
    assert!(methods().contains(&Method::Serial));
}

#[test]
fn a_plan_knows_what_the_hands_must_do() {
    let ea = by_name("ea3-v2").unwrap();
    let n = plan(ea, Method::Network);
    assert!(!n.needs_serial && !n.needs_button);
    let s = plan(ea, Method::Serial);
    assert!(s.needs_serial);
}

#[test]
fn an_identity_describes_itself() {
    assert_eq!(ident("ea3-v2", Running::Stock).certain(), true);
    let none = Identity::none(Running::Unknown);
    assert!(!none.certain());
    assert_ne!(none.describe(), ident("ea3-v2", Running::Stock).describe());
    assert!(from_env_values(None, None).board.is_none());
    assert_eq!(from_env_values(Some("ca1".into()), None).board.unwrap().name, "ca1");
}

#[test]
fn a_tftp_boot_reads_the_kernel_and_the_ramdisk() {
    let s = cefdk::ramboot_tftp_for("10.0.0.106", "10.0.0.200", "bzImage", "rootfs.cpio.gz", 0x2000, cefdk::RAMBOOT_CMDLINE);
    assert!(s.iter().any(|l| l == "tftp get 10.0.0.106 0x6000000 bzImage"));
    assert!(s.iter().any(|l| l == "tftp get 10.0.0.106 0x4000000 rootfs.cpio.gz"));
    assert!(s.iter().any(|l| l == "ord4 0x837568 = 0x2000"));
    assert!(s.last().unwrap().starts_with("bootlinux \""));
}
