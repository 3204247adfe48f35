use confuse::mount_options::{
    apply_csv_mount_options, apply_parsed_mount_option, apply_session_threading, configured_path_resolver,
    derive_volume_names, is_auto_probe_enabled, is_dokan_inexpressible_mount_option, parse_mount_options,
    parse_mount_options_from_args, parse_single_mount_option, reject_conflicting_mount_options,
    to_dokan_mount_options, validate_mount_options, validate_session_config, ConflictPair, OptionError,
    ParsedMountOption,
};
use confuse::types::{Config, MountOption, SessionACL};

fn args(items: &[&str]) -> Vec<String> {
    items.iter().map(|s| s.to_string()).collect()
}

fn config_with(options: Vec<MountOption>, acl: SessionACL, n_threads: Option<usize>) -> Config {
    Config { mount_options: options, acl, n_threads, clone_fd: false }
}

#[test]
fn basic_helpers_parse_single_mount_option_exhaustive_known_strings() {
    assert!(matches!(parse_single_mount_option("ro"), ParsedMountOption::Mount(MountOption::RO)));
    assert!(matches!(parse_single_mount_option("rw"), ParsedMountOption::Mount(MountOption::RW)));
    assert!(matches!(parse_single_mount_option("allow_other"), ParsedMountOption::Acl(SessionACL::All)));
    assert!(matches!(parse_single_mount_option("allow_root"), ParsedMountOption::Acl(SessionACL::RootAndOwner)));
    assert!(matches!(parse_single_mount_option("auto_unmount"), ParsedMountOption::Mount(MountOption::AutoUnmount)));
    assert!(matches!(
        parse_single_mount_option("default_permissions"),
        ParsedMountOption::Mount(MountOption::DefaultPermissions)
    ));
    assert!(matches!(parse_single_mount_option("dev"), ParsedMountOption::Mount(MountOption::Dev)));
    assert!(matches!(parse_single_mount_option("nodev"), ParsedMountOption::Mount(MountOption::NoDev)));
    assert!(matches!(parse_single_mount_option("suid"), ParsedMountOption::Mount(MountOption::Suid)));
    assert!(matches!(parse_single_mount_option("nosuid"), ParsedMountOption::Mount(MountOption::NoSuid)));
    assert!(matches!(parse_single_mount_option("exec"), ParsedMountOption::Mount(MountOption::Exec)));
    assert!(matches!(parse_single_mount_option("noexec"), ParsedMountOption::Mount(MountOption::NoExec)));
    assert!(matches!(parse_single_mount_option("atime"), ParsedMountOption::Mount(MountOption::Atime)));
    assert!(matches!(parse_single_mount_option("noatime"), ParsedMountOption::Mount(MountOption::NoAtime)));
    assert!(matches!(parse_single_mount_option("dirsync"), ParsedMountOption::Mount(MountOption::DirSync)));
    assert!(matches!(parse_single_mount_option("sync"), ParsedMountOption::Mount(MountOption::Sync)));
    assert!(matches!(parse_single_mount_option("async"), ParsedMountOption::Mount(MountOption::Async)));
    assert!(
        matches!(parse_single_mount_option("fsname=myfs"), ParsedMountOption::Mount(MountOption::FSName(ref v)) if v == "myfs")
    );
    assert!(
        matches!(parse_single_mount_option("subtype=mysub"), ParsedMountOption::Mount(MountOption::Subtype(ref v)) if v == "mysub")
    );
    assert!(
        matches!(parse_single_mount_option("unknown_opt"), ParsedMountOption::Mount(MountOption::CUSTOM(ref v)) if v == "unknown_opt")
    );
}

#[test]
fn maps_basic_supported_options() {
    let opts = vec![
        MountOption::RO,
        MountOption::CUSTOM("single_thread".to_string()),
        MountOption::CUSTOM("debug".to_string()),
    ];
    let mapped = to_dokan_mount_options(&opts).expect("mapping should succeed");
    assert!(mapped.single_thread);
    assert!(mapped.write_protect);
    assert!(mapped.debug);
}

#[test]
fn accepts_unknown_custom_option() {
    let result = to_dokan_mount_options(&vec![MountOption::CUSTOM("foo".to_string())]);
    assert!(result.is_ok());
}

#[test]
fn auto_probe_is_internal_custom_option_and_defaults_off() {
    assert!(!is_auto_probe_enabled(&vec![]));
    let parsed = parse_single_mount_option("auto_probe");
    assert!(matches!(parsed, ParsedMountOption::Mount(MountOption::CUSTOM(ref v)) if v == "auto_probe"));
    let opts = vec![MountOption::CUSTOM("auto_probe".to_string())];
    assert!(is_auto_probe_enabled(&opts));
    let mapped = to_dokan_mount_options(&opts).expect("auto_probe is accepted internally");
    assert!(!mapped.write_protect);
    assert!(!mapped.debug);
    assert!(!mapped.single_thread);
}

#[test]
fn parses_fuser_style_mount_option_strings() {
    let input = args(&["ro", "fsname=myfs", "subtype=mysub", "allow_other", "custom_x"]);
    let parsed = parse_mount_options(&input).expect("parse should succeed");
    assert_eq!(parsed.acl, SessionACL::All);
    assert!(matches!(parsed.mount_options[0], MountOption::RO));
    assert!(matches!(parsed.mount_options[1], MountOption::FSName(ref v) if v == "myfs"));
    assert!(matches!(parsed.mount_options[2], MountOption::Subtype(ref v) if v == "mysub"));
    assert!(matches!(parsed.mount_options[3], MountOption::CUSTOM(ref v) if v == "custom_x"));
}

#[test]
fn parses_fuser_style_dash_o_argument_shape() {
    let input = args(&["-o", "ro,fsname=myfs", "-odebug"]);
    let parsed = parse_mount_options_from_args(&input).expect("parse should succeed");
    assert!(matches!(parsed.mount_options[0], MountOption::RO));
    assert!(matches!(parsed.mount_options[1], MountOption::FSName(ref v) if v == "myfs"));
    assert!(matches!(parsed.mount_options[2], MountOption::CUSTOM(ref v) if v == "debug"));
}

#[test]
fn derive_volume_names_prefers_fsname_and_subtype() {
    let opts = vec![MountOption::FSName("volA".to_string()), MountOption::Subtype("typeB".to_string())];
    let (vol, fs) = derive_volume_names(&opts);
    assert_eq!(vol, "volA");
    assert_eq!(fs, "typeB");
}

#[test]
fn derive_volume_names_defaults() {
    let (vol, fs) = derive_volume_names(&vec![MountOption::RO]);
    assert_eq!(vol, "confuse");
    assert_eq!(fs, "FUSER");
}

#[test]
fn to_dokan_mount_options_accepts_common_fuser_options_on_windows() {
    let opts = vec![
        MountOption::AutoUnmount,
        MountOption::DefaultPermissions,
        MountOption::Dev,
        MountOption::Suid,
        MountOption::Exec,
        MountOption::Atime,
        MountOption::DirSync,
        MountOption::Sync,
        MountOption::FSName("x".to_string()),
        MountOption::Subtype("y".to_string()),
    ];
    assert!(to_dokan_mount_options(&opts).is_ok());
}

#[test]
fn windows_inexpressible_mount_options_are_explicit_and_noop_mapped() {
    let opts = [
        MountOption::AutoUnmount,
        MountOption::DefaultPermissions,
        MountOption::Dev,
        MountOption::NoDev,
        MountOption::Suid,
        MountOption::NoSuid,
        MountOption::Exec,
        MountOption::NoExec,
        MountOption::Atime,
        MountOption::NoAtime,
        MountOption::DirSync,
        MountOption::Sync,
        MountOption::Async,
    ];
    for opt in &opts {
        let mapped = to_dokan_mount_options(&vec![opt.clone()]).expect("mapping should succeed");
        assert!(!mapped.write_protect);
        assert!(!mapped.debug);
        assert!(!mapped.single_thread);
        assert!(is_dokan_inexpressible_mount_option(opt));
    }
    assert!(!is_dokan_inexpressible_mount_option(&MountOption::RO));
    assert!(!is_dokan_inexpressible_mount_option(&MountOption::CUSTOM("debug".to_string())));
}

#[test]
fn windows_representable_mount_options_map_deterministically() {
    let ro = to_dokan_mount_options(&vec![MountOption::RO]).expect("ro maps");
    assert!(ro.write_protect);
    let rw = to_dokan_mount_options(&vec![MountOption::RW]).expect("rw maps");
    assert!(!rw.write_protect);
    let debug = to_dokan_mount_options(&vec![MountOption::CUSTOM("debug".to_string())]).expect("debug maps");
    assert!(debug.debug);
    let st = to_dokan_mount_options(&vec![MountOption::CUSTOM("single_thread".to_string())])
        .expect("single_thread maps");
    assert!(st.single_thread);
}

#[test]
fn parse_mount_options_from_args_accepts_plain_tokens() {
    let parsed = parse_mount_options_from_args(&args(&["allow_other,default_permissions", "rw"]))
        .expect("parse should succeed");
    assert_eq!(parsed.acl, SessionACL::All);
    assert_eq!(parsed.mount_options[0], MountOption::DefaultPermissions);
    assert_eq!(parsed.mount_options[1], MountOption::RW);
}

#[test]
fn parse_mount_options_from_args_skips_empty_segments_and_trims() {
    let parsed = parse_mount_options_from_args(&args(&["-o", "ro, ,fsname=myfs,,allow_other"]))
        .expect("parse should succeed");
    assert_eq!(parsed.acl, SessionACL::All);
    assert_eq!(parsed.mount_options.len(), 2);
    assert_eq!(parsed.mount_options[0], MountOption::RO);
    assert!(matches!(parsed.mount_options[1], MountOption::FSName(ref v) if v == "myfs"));
}

#[test]
fn parse_mount_options_from_args_maps_allow_root_to_acl() {
    let parsed = parse_mount_options_from_args(&args(&["allow_root"])).expect("parse should succeed");
    assert_eq!(parsed.acl, SessionACL::RootAndOwner);
    assert!(parsed.mount_options.is_empty());
}

#[test]
fn parse_mount_options_from_args_rejects_conflicting_acl() {
    let err = parse_mount_options_from_args(&args(&["allow_other,allow_root"]))
        .expect_err("ACL conflict must be rejected");
    assert!(err.is_invalid_input());
    assert!(err.message().contains("allow_other and allow_root"));
}

#[test]
fn parse_mount_options_from_args_rejects_trailing_dash_o() {
    let err = parse_mount_options_from_args(&args(&["ro", "-o"])).expect_err("a lone -o needs a value");
    assert_eq!(err, OptionError::MissingOptionValue);
    assert!(err.is_invalid_input());
}

#[test]
fn parse_mount_options_keeps_trailing_dash_o_as_custom() {
    let parsed = parse_mount_options(&args(&["ro", "-o"])).expect("parse should succeed");
    assert_eq!(parsed.mount_options.len(), 2);
    assert!(matches!(parsed.mount_options[1], MountOption::CUSTOM(ref v) if v == "-o"));
}

#[test]
fn rejects_conflicting_read_only_and_read_write_options() {
    let err = match to_dokan_mount_options(&vec![MountOption::RO, MountOption::RW]) {
        Ok(_) => panic!("RO/RW conflict must be rejected"),
        Err(err) => err,
    };
    assert!(err.is_invalid_input());
    assert!(err.message().contains("ro and rw"));
}

#[test]
fn each_conflicting_pair_is_rejected() {
    let pairs = [
        (MountOption::Dev, MountOption::NoDev, ConflictPair::DevNoDev),
        (MountOption::Suid, MountOption::NoSuid, ConflictPair::SuidNoSuid),
        (MountOption::Exec, MountOption::NoExec, ConflictPair::ExecNoExec),
        (MountOption::Atime, MountOption::NoAtime, ConflictPair::AtimeNoAtime),
        (MountOption::Sync, MountOption::Async, ConflictPair::SyncAsync),
    ];
    for (a, b, pair) in pairs {
        assert_eq!(validate_mount_options(&vec![a.clone(), b.clone()]), Err(OptionError::Conflicting(pair)));
        assert_eq!(reject_conflicting_mount_options(&vec![a.clone()], pair), Ok(()));
    }
    assert_eq!(
        OptionError::Conflicting(ConflictPair::SyncAsync).message(),
        "mount options sync and async are mutually exclusive"
    );
}

#[test]
fn csv_options_apply_in_order() {
    let mut cfg = config_with(vec![], SessionACL::Owner, None);
    apply_csv_mount_options(&mut cfg, " ro , fsname=x ,allow_root").expect("applies");
    assert_eq!(cfg.mount_options, vec![MountOption::RO, MountOption::FSName("x".to_string())]);
    assert_eq!(cfg.acl, SessionACL::RootAndOwner);
    assert_eq!(
        apply_parsed_mount_option(&mut cfg, ParsedMountOption::Acl(SessionACL::All)),
        Err(OptionError::AclConflict)
    );
}

#[test]
fn session_config_validation() {
    let owner_auto = config_with(vec![MountOption::AutoUnmount], SessionACL::Owner, None);
    assert_eq!(validate_session_config(&owner_auto), Err(OptionError::AutoUnmountNeedsSharedAcl));
    let shared_auto = config_with(vec![MountOption::AutoUnmount], SessionACL::All, None);
    assert_eq!(validate_session_config(&shared_auto), Ok(()));
    let zero = config_with(vec![], SessionACL::All, Some(0));
    assert_eq!(validate_session_config(&zero), Err(OptionError::ZeroThreads));
    assert!(!OptionError::ZeroThreads.is_invalid_input());
    assert_eq!(validate_session_config(&config_with(vec![], SessionACL::Owner, Some(4))), Ok(()));
}

#[test]
fn session_threading_follows_thread_count() {
    let mut plan = to_dokan_mount_options(&vec![MountOption::CUSTOM("single_thread".to_string())]).expect("maps");
    apply_session_threading(&config_with(vec![], SessionACL::Owner, None), &mut plan);
    assert!(!plan.single_thread);
    apply_session_threading(&config_with(vec![], SessionACL::Owner, Some(1)), &mut plan);
    assert!(plan.single_thread);
}

#[test]
fn configured_resolver_honours_negative_ttl_options() {
    let off = configured_path_resolver(&config_with(vec![MountOption::CUSTOM("negative_ttl=off".to_string())], SessionACL::Owner, None));
    assert_eq!(off.negative_ttl_nanos(), None);
    let ms = configured_path_resolver(&config_with(vec![MountOption::CUSTOM("negative_ttl_ms=250".to_string())], SessionACL::Owner, None));
    assert_eq!(ms.negative_ttl_nanos(), Some(250_000_000));
    let default = configured_path_resolver(&config_with(vec![], SessionACL::Owner, None));
    assert_eq!(default.negative_ttl_nanos(), Some(1_000_000_000));
}

#[test]
fn session_new_accepts_acl_config_for_fuser_parity() {
    let config = Config { acl: SessionACL::All, ..Config::default() };
    assert!(validate_session_config(&config).is_ok());
}

#[test]
fn session_new_rejects_auto_unmount_without_shared_acl() {
    let mut config = Config::default();
    config.mount_options.push(MountOption::AutoUnmount);
    let err = match validate_session_config(&config) {
        Ok(_) => panic!("auto_unmount requires shared ACL"),
        Err(err) => err,
    };
    assert!(err.is_invalid_input());
}

#[test]
fn session_new_rejects_zero_thread_count() {
    let zero_threads = Config { n_threads: Some(0), ..Config::default() };
    assert!(validate_session_config(&zero_threads).is_err());
}

#[test]
fn session_new_accepts_multi_thread_config() {
    let config = Config { n_threads: Some(2), ..Config::default() };
    assert!(validate_session_config(&config).is_ok());
}

#[test]
fn session_threading_allows_concurrent_dokan_callbacks_by_default() {
    let mut default_options = to_dokan_mount_options(&vec![]).expect("maps");
    apply_session_threading(&Config::default(), &mut default_options);
    assert!(!default_options.single_thread);

    let mut explicit_options = to_dokan_mount_options(&vec![]).expect("maps");
    apply_session_threading(&Config { n_threads: Some(1), ..Config::default() }, &mut explicit_options);
    assert!(explicit_options.single_thread);

    let mut multi_thread_options = to_dokan_mount_options(&vec![]).expect("maps");
    apply_session_threading(&Config { n_threads: Some(2), ..Config::default() }, &mut multi_thread_options);
    assert!(!multi_thread_options.single_thread);
}

/// The name of every variant; the match is exhaustive, so a new variant must be listed here.
fn mount_option_variant_name(option: &MountOption) -> String {
    match option {
        MountOption::FSName(_) => "FSName",
        MountOption::Subtype(_) => "Subtype",
        MountOption::CUSTOM(_) => "CUSTOM",
        MountOption::AutoUnmount => "AutoUnmount",
        MountOption::DefaultPermissions => "DefaultPermissions",
        MountOption::Dev => "Dev",
        MountOption::NoDev => "NoDev",
        MountOption::Suid => "Suid",
        MountOption::NoSuid => "NoSuid",
        MountOption::RO => "RO",
        MountOption::RW => "RW",
        MountOption::Exec => "Exec",
        MountOption::NoExec => "NoExec",
        MountOption::Atime => "Atime",
        MountOption::NoAtime => "NoAtime",
        MountOption::DirSync => "DirSync",
        MountOption::Sync => "Sync",
        MountOption::Async => "Async",
    }
    .to_string()
}

#[test]
fn mount_option_enum_excludes_acl_variants() {
    let all = vec![
        MountOption::FSName("x".to_string()),
        MountOption::Subtype("x".to_string()),
        MountOption::CUSTOM("x".to_string()),
        MountOption::AutoUnmount,
        MountOption::DefaultPermissions,
        MountOption::Dev,
        MountOption::NoDev,
        MountOption::Suid,
        MountOption::NoSuid,
        MountOption::RO,
        MountOption::RW,
        MountOption::Exec,
        MountOption::NoExec,
        MountOption::Atime,
        MountOption::NoAtime,
        MountOption::DirSync,
        MountOption::Sync,
        MountOption::Async,
    ];
    let names: Vec<String> = all.iter().map(mount_option_variant_name).collect();
    let allow_other = format!("{}{}", "Allow", "Other");
    let allow_root = format!("{}{}", "Allow", "Root");
    assert!(!names.contains(&allow_other));
    assert!(!names.contains(&allow_root));
    assert!(matches!(parse_single_mount_option("allow_other"), ParsedMountOption::Acl(SessionACL::All)));
    assert!(matches!(parse_single_mount_option("allow_root"), ParsedMountOption::Acl(SessionACL::RootAndOwner)));
}
