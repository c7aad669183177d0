use ksud::ksucalls::OsError;
use ksud::profile::{
    app_profile_from_raw, as_i32, as_u32, cap_list_to_bits, caps_to_list, ensure_profile_key,
    raw_profile_from_app_profile, read_c_string, write_c_string, AppProfile, ProfileError,
    RawConfig, RawProfile, Uapi, FLAG_KSU_NO_NEW_PRIVS, KERNEL_SU_DOMAIN,
};

fn uapi() -> Uapi {
    Uapi {
        uapi_version: 2,
        late_load_flag: 4,
        app_profile_ver: 3,
        max_package_name: 16,
        max_groups: 4,
        key_len: 16,
        template_name_len: 8,
        selinux_domain_len: 12,
    }
}

fn root_profile() -> AppProfile {
    let mut p = AppProfile::default_for("com.app", 10001);
    p.allow_su = true;
    p.root_use_default = false;
    p.root_template = Some("tmpl".to_string());
    p.uid = 1000;
    p.gid = -7;
    p.groups = vec![3003, -1];
    p.capabilities = vec![63, 0, 5, 5];
    p.context = "u:r:x:s0".to_string();
    p.namespace = 2;
    p.flags = 9;
    p
}

fn raw(p: &AppProfile) -> RawProfile {
    raw_profile_from_app_profile(&uapi(), p).unwrap()
}

fn raw_error(p: &AppProfile) -> ProfileError {
    raw_profile_from_app_profile(&uapi(), p).unwrap_err()
}

#[test]
fn the_default_profile_is_fixed() {
    let p = AppProfile::default_for("com.app", 4294967295);
    assert_eq!(p.name, "com.app");
    assert_eq!(p.current_uid, -1);
    assert!(!p.allow_su && p.root_use_default && p.non_root_use_default && p.umount_modules);
    assert_eq!(p.root_template, None);
    assert_eq!((p.uid, p.gid, p.namespace), (0, 0, 0));
    assert!(p.groups.is_empty() && p.capabilities.is_empty());
    assert_eq!(p.context, "u:r:ksu:s0");
    assert_eq!(p.context, KERNEL_SU_DOMAIN);
    assert_eq!(p.rules, "");
    assert_eq!(p.flags, 1);
    assert_eq!(p.flags, FLAG_KSU_NO_NEW_PRIVS);
    assert!(!p.has_custom_profile());
}

#[test]
fn a_profile_is_custom_by_the_part_in_force() {
    let mut p = AppProfile::default_for("a", 1);
    p.root_use_default = false;
    assert!(!p.has_custom_profile());
    p.allow_su = true;
    assert!(p.has_custom_profile());
    p.root_use_default = true;
    p.non_root_use_default = false;
    assert!(!p.has_custom_profile());
    p.allow_su = false;
    assert!(p.has_custom_profile());
}

#[test]
fn signs_are_taken_as_by_a_cast() {
    for n in [0u32, 1, 0x7fff_ffff, 0x8000_0000, u32::MAX] {
        assert_eq!(as_i32(n), n as i32);
        assert_eq!(as_u32(n as i32), n);
    }
}

#[test]
fn keys_are_checked() {
    assert_eq!(ensure_profile_key(&uapi(), "a"), Ok(()));
    assert_eq!(ensure_profile_key(&uapi(), ""), Err(ProfileError::KeyEmpty));
    assert_eq!(ensure_profile_key(&uapi(), &"a".repeat(15)), Ok(()));
    assert_eq!(ensure_profile_key(&uapi(), &"a".repeat(16)), Err(ProfileError::KeyTooLong));
    assert_eq!(ensure_profile_key(&uapi(), &"ä".repeat(8)), Err(ProfileError::KeyTooLong));
    assert_eq!(ensure_profile_key(&uapi(), "a\0b"), Err(ProfileError::KeyHoldsNul));
}

#[test]
fn strings_are_put_into_arrays() {
    let mut array = [7u8; 6];
    assert_eq!(write_c_string(&mut array, "häß!"), Err(ProfileError::StringTooLong));
    assert_eq!(write_c_string(&mut array, "a\0b"), Err(ProfileError::StringHoldsNul));
    assert_eq!(array, [7; 6]);
    assert_eq!(write_c_string(&mut array, "äb"), Ok(()));
    assert_eq!(array, [0xc3, 0xa4, b'b', 0, 0, 0]);
    assert_eq!(read_c_string(&array), "äb");
    assert_eq!(write_c_string(&mut array, "abcde"), Ok(()));
    assert_eq!(read_c_string(&array), "abcde");
    assert_eq!(write_c_string(&mut array, ""), Ok(()));
    assert_eq!(array, [0; 6]);
    assert_eq!(write_c_string(&mut [], ""), Err(ProfileError::StringTooLong));
    assert_eq!(read_c_string(b"x\xff"), "x\u{fffd}");
}

#[test]
fn capabilities_are_bits() {
    assert!(caps_to_list(0).is_empty());
    assert_eq!(caps_to_list(0x8000_0000_0000_0021), [0, 5, 63]);
    assert_eq!(caps_to_list(u64::MAX), (0..64).collect::<Vec<i32>>());
    assert_eq!(cap_list_to_bits(&[]), Ok(0));
    assert_eq!(cap_list_to_bits(&[63, 0, 5, 5]), Ok(0x8000_0000_0000_0021));
    assert_eq!(cap_list_to_bits(&[1, 64, -1]), Err(ProfileError::InvalidCapability(64)));
    assert_eq!(cap_list_to_bits(&[1, -1, 64]), Err(ProfileError::InvalidCapability(-1)));
    for bits in [0, 1, 0x1234_5678_9abc_def0, u64::MAX] {
        assert_eq!(cap_list_to_bits(&caps_to_list(bits)), Ok(bits));
    }
}

#[test]
fn capabilities_are_0_to_63() {
    for cap in -2..67 {
        let expected = (0..64).contains(&cap);
        assert_eq!(cap_list_to_bits(&[63, cap, 0]).is_ok(), expected);
    }
}

#[test]
fn a_profile_with_root_has_its_block() {
    let block = raw(&root_profile());
    assert_eq!(block.version, 3);
    assert_eq!(&block.key[..8], b"com.app\0");
    assert_eq!(block.key.len(), 16);
    assert_eq!(block.curr_uid, 10001);
    match block.config {
        RawConfig::Root(c) => {
            assert!(!c.use_default);
            assert_eq!(c.template_name, b"tmpl\0\0\0\0");
            assert_eq!((c.uid, c.gid), (1000, -7));
            assert_eq!(c.groups_count, 2);
            assert_eq!(c.groups, [3003, -1, 0, 0]);
            assert_eq!(c.effective, 0x8000_0000_0000_0021);
            assert_eq!(c.permitted, c.effective);
            assert_eq!(c.selinux_domain, b"u:r:x:s0\0\0\0\0");
            assert_eq!((c.namespaces, c.flags), (2, 9));
        }
        RawConfig::NonRoot(_) => panic!("not a block for root"),
    }
}

#[test]
fn a_profile_with_root_reads_back() {
    let p = root_profile();
    let q = app_profile_from_raw(&uapi(), &raw(&p));
    assert_eq!(q.name, p.name);
    assert_eq!(q.current_uid, p.current_uid);
    assert!(q.allow_su && !q.root_use_default);
    assert_eq!(q.root_template, p.root_template);
    assert_eq!((q.uid, q.gid), (p.uid, p.gid));
    assert_eq!(q.groups, p.groups);
    assert_eq!(q.capabilities, [0, 5, 63]);
    assert_eq!(q.context, p.context);
    assert_eq!((q.namespace, q.flags), (p.namespace, p.flags));
    assert!(q.non_root_use_default && q.umount_modules);
}

#[test]
fn a_profile_without_root_reads_back() {
    let mut p = root_profile();
    p.allow_su = false;
    p.non_root_use_default = false;
    p.umount_modules = false;
    let block = raw(&p);
    assert!(matches!(
        &block.config,
        RawConfig::NonRoot(c) if !c.use_default && !c.umount_modules
    ));
    let q = app_profile_from_raw(&uapi(), &block);
    assert!(!q.allow_su && !q.non_root_use_default && !q.umount_modules);
    assert!(q.root_use_default && q.root_template.is_none() && q.groups.is_empty());
    assert_eq!(q.context, KERNEL_SU_DOMAIN);
    assert_eq!(q.flags, FLAG_KSU_NO_NEW_PRIVS);
}

#[test]
fn an_empty_template_reads_back_as_none() {
    let mut p = root_profile();
    p.root_template = Some(String::new());
    assert_eq!(app_profile_from_raw(&uapi(), &raw(&p)).root_template, None);
}

#[test]
fn groups_beyond_the_most_are_not_read() {
    let mut block = raw(&root_profile());
    if let RawConfig::Root(c) = &mut block.config {
        c.groups_count = 1000;
        c.groups = vec![1, 2, 3, 4];
    }
    assert_eq!(app_profile_from_raw(&uapi(), &block).groups, [1, 2, 3, 4]);
}

#[test]
fn a_profile_that_does_not_fit_is_refused() {
    let mut p = root_profile();
    p.name = String::new();
    assert_eq!(raw_error(&p), ProfileError::KeyEmpty);
    let mut p = root_profile();
    p.groups = vec![1; 5];
    assert_eq!(raw_error(&p), ProfileError::TooManyGroups);
    let mut p = root_profile();
    p.root_template = Some("12345678".to_string());
    assert_eq!(raw_error(&p), ProfileError::StringTooLong);
    let mut p = root_profile();
    p.capabilities = vec![64];
    assert_eq!(raw_error(&p), ProfileError::InvalidCapability(64));
    p.allow_su = false;
    assert!(raw_profile_from_app_profile(&uapi(), &p).is_ok());
    let mut p = root_profile();
    p.context = "a\0".to_string();
    assert_eq!(raw_error(&p), ProfileError::StringHoldsNul);
    let small = Uapi { key_len: 4, ..uapi() };
    assert_eq!(
        raw_profile_from_app_profile(&small, &root_profile()).unwrap_err(),
        ProfileError::StringTooLong
    );
}

#[test]
fn profile_errors_have_messages() {
    let expected = [
        (ProfileError::KeyEmpty, "profile key is empty"),
        (ProfileError::KeyTooLong, "profile key too long: com.app"),
        (ProfileError::KeyHoldsNul, "profile key contains nul byte"),
        (ProfileError::StringTooLong, "string too long"),
        (ProfileError::StringHoldsNul, "string contains nul byte"),
        (ProfileError::TooManyGroups, "too many groups"),
        (ProfileError::InvalidCapability(-3), "invalid capability: -3"),
        (ProfileError::UidTooLarge, "uid overflows i32"),
        (ProfileError::CallFailed(OsError { code: 1 }), "set app profile ioctl failed"),
    ];
    for (e, text) in expected {
        assert_eq!(e.message("com.app"), text);
    }
}
