use ksud::ksucalls::{
    check_kernel_safemode, fd_link_path, get_allow_list_count, get_app_profile, get_feature,
    get_info, get_su_request_fd, get_sulog_fd, get_version, get_wrapped_fd, grant_root,
    init_driver_fd, is_default_umount_modules, is_late_load, is_uapi_version_mismatch, ksuctl,
    mark_get, mark_refresh, mark_set, mark_unset, nuke_ext4_sysfs, report_boot_complete,
    report_event, report_module_mounted, report_post_fs_data, respond_su_request, scan_driver_fd,
    set_app_profile, set_app_profile_allow_su, set_default_umount_modules, set_feature,
    set_init_pgrp, set_ksu_no_new_privs, set_sepolicy, uid_should_umount, umount_list_add,
    umount_list_del, umount_list_wipe, Answer, AppProfile, BootEvent, Driver, FdEntry,
    GetAppProfileCmd, GetInfoCmd, InfoCall, InstallFd, KsuctlEvent, KsuctlStep, MarkOperation,
    NoNewPrivsError, OsError, PathCallError, ProfileError, Step, Uapi, UmountMode, NOBODY_UID,
    NON_ROOT_DEFAULT_PROFILE_KEY,
};
use ksud::profile::RawConfig;

fn uapi() -> Uapi {
    Uapi {
        uapi_version: 2,
        late_load_flag: 4,
        app_profile_ver: 3,
        max_package_name: 256,
        max_groups: 32,
        key_len: 256,
        template_name_len: 256,
        selinux_domain_len: 64,
    }
}

const BUSY: OsError = OsError { code: 16 };

fn call<C, T>(step: Step<C, T>) -> C {
    match step {
        Step::Call(cmd) => cmd,
        Step::Done(_) => panic!("done already"),
    }
}

fn done<C, T>(step: Step<C, T>) -> T {
    match step {
        Step::Call(_) => panic!("not done"),
        Step::Done(t) => t,
    }
}

fn ok<C>(cmd: C) -> Option<Answer<C>> {
    Some(Answer { ret: Ok(0), cmd })
}

fn gave<C>(n: i32, cmd: C) -> Option<Answer<C>> {
    Some(Answer { ret: Ok(n), cmd })
}

fn failed<C>(cmd: C) -> Option<Answer<C>> {
    Some(Answer { ret: Err(BUSY), cmd })
}

fn entry(name: &str, target: Option<&str>) -> FdEntry {
    FdEntry { name: name.to_string(), target: target.map(|t| t.to_string()) }
}

#[test]
fn the_driver_is_found_among_open_files() {
    assert_eq!(fd_link_path("12"), Some("/proc/self/fd/12".to_string()));
    assert_eq!(fd_link_path("+7"), Some("/proc/self/fd/7".to_string()));
    assert_eq!(fd_link_path("x"), None);
    let entries = [
        entry(".", Some("[ksu_driver]")),
        entry("3", None),
        entry("4", Some("/dev/null")),
        entry("5", Some("anon_inode:[ksu_driver]")),
        entry("6", Some("[ksu_driver]")),
    ];
    assert_eq!(scan_driver_fd(&entries), Some(5));
    assert_eq!(scan_driver_fd(&entries[..3]), None);
    assert_eq!(scan_driver_fd(&[]), None);
}

#[test]
fn the_driver_is_installed_where_it_is_not_open() {
    assert_eq!(done(init_driver_fd(Some(5), None)), Some(5));
    assert_eq!(call(init_driver_fd(None, None)), InstallFd { fd: -1 });
    assert_eq!(done(init_driver_fd(None, Some(8))), Some(8));
    assert_eq!(done(init_driver_fd(None, Some(-1))), None);
}

#[test]
fn the_driver_is_looked_for_once() {
    let mut driver = Driver::new();
    assert_eq!(ksuctl(&mut driver, KsuctlEvent::Start), KsuctlStep::FindDriver);
    assert_eq!(
        ksuctl(&mut driver, KsuctlEvent::DriverFd(Some(9))),
        KsuctlStep::Ioctl { fd: 9 }
    );
    assert_eq!(ksuctl(&mut driver, KsuctlEvent::Start), KsuctlStep::Ioctl { fd: 9 });
    assert_eq!(
        ksuctl(&mut driver, KsuctlEvent::DriverFd(Some(10))),
        KsuctlStep::Ioctl { fd: 9 }
    );
    let mut none = Driver::new();
    assert_eq!(ksuctl(&mut none, KsuctlEvent::DriverFd(None)), KsuctlStep::Ioctl { fd: -1 });
    assert_eq!(ksuctl(&mut none, KsuctlEvent::Start), KsuctlStep::Ioctl { fd: -1 });
    assert_eq!(
        ksuctl(&mut none, KsuctlEvent::Returned { ret: -1, errno: 16 }),
        KsuctlStep::Done(Err(BUSY))
    );
    assert_eq!(
        ksuctl(&mut none, KsuctlEvent::Returned { ret: 4, errno: 16 }),
        KsuctlStep::Done(Ok(4))
    );
}

const INFO: GetInfoCmd =
    GetInfoCmd { version: 0x8000_0001, flags: 6, features: 3, uapi_version: 2 };

#[test]
fn the_info_is_asked_for_once() {
    let mut driver = Driver::new();
    let first = call(get_info(&mut driver, None));
    let blank = GetInfoCmd { version: 0, flags: 0, features: 0, uapi_version: 0 };
    assert_eq!(first, InfoCall { legacy: false, cmd: blank });
    assert_eq!(done(get_info(&mut driver, ok(InfoCall { legacy: false, cmd: INFO }))), INFO);
    assert_eq!(done(get_info(&mut driver, None)), INFO);
    assert_eq!(done(get_version(&mut driver, None)), -2147483647);
    assert!(done(is_late_load(&uapi(), &mut driver, None)));
    assert!(!done(is_uapi_version_mismatch(&uapi(), &mut driver, None)));
    let other = Uapi { uapi_version: 3, late_load_flag: 8, ..uapi() };
    assert!(!done(is_late_load(&other, &mut driver, None)));
    assert!(done(is_uapi_version_mismatch(&other, &mut driver, None)));
}

#[test]
fn the_old_request_for_info_is_tried_second() {
    let mut driver = Driver::new();
    let half = GetInfoCmd { version: 1, flags: 0, features: 0, uapi_version: 0 };
    let second = call(get_info(&mut driver, failed(InfoCall { legacy: false, cmd: half })));
    assert_eq!(second, InfoCall { legacy: true, cmd: half });
    assert_eq!(driver.info, None);
    assert_eq!(done(get_info(&mut driver, failed(InfoCall { legacy: true, cmd: half }))), half);
    assert_eq!(driver.info, Some(half));
    let mut fresh = Driver::new();
    assert_eq!(
        call(get_version(&mut fresh, None)),
        call(is_late_load(&uapi(), &mut Driver::new(), None))
    );
    assert!(!call(is_uapi_version_mismatch(&uapi(), &mut fresh, None)).legacy);
}

#[test]
fn calls_without_a_block_give_what_came_back() {
    let cmd = call(grant_root(None));
    assert_eq!(done(grant_root(gave(5, cmd))), Ok(()));
    assert_eq!(done(grant_root(failed(cmd))), Err(BUSY));
    let cmd = call(set_init_pgrp(None));
    assert_eq!(done(set_init_pgrp(ok(cmd))), Ok(()));
    assert_eq!(done(set_init_pgrp(failed(cmd))), Err(BUSY));
    let cmd = call(set_ksu_no_new_privs(None));
    assert_eq!(done(set_ksu_no_new_privs(ok(cmd))), Ok(()));
    assert_eq!(done(set_ksu_no_new_privs(failed(cmd))), Err(NoNewPrivsError::Os(BUSY)));
    let odd = done(set_ksu_no_new_privs(gave(3, cmd))).unwrap_err();
    assert_eq!(odd, NoNewPrivsError::UnexpectedResult(3));
    assert_eq!(odd.message(), Some("unexpected result: 3".to_string()));
    assert_eq!(NoNewPrivsError::Os(BUSY).message(), None);
}

#[test]
fn reports_do_not_fail() {
    let cmd = call(report_post_fs_data(None));
    assert_eq!(cmd.event, BootEvent::PostFsData);
    done(report_post_fs_data(failed(cmd)));
    let cmd = call(report_boot_complete(None));
    assert_eq!(cmd.event, BootEvent::BootCompleted);
    done(report_boot_complete(ok(cmd)));
    let cmd = call(report_module_mounted(None));
    assert_eq!(cmd.event, BootEvent::ModuleMounted);
    done(report_module_mounted(ok(cmd)));
    assert_eq!(call(report_event(BootEvent::PostFsData, None)).event, BootEvent::PostFsData);
}

#[test]
fn questions_that_fail_count_as_they_left_the_block() {
    let mut cmd = call(check_kernel_safemode(None));
    assert_eq!(cmd.in_safe_mode, 0);
    assert!(!done(check_kernel_safemode(failed(cmd))));
    cmd.in_safe_mode = 2;
    assert!(done(check_kernel_safemode(failed(cmd))));
    let mut cmd = call(uid_should_umount(10, None));
    assert_eq!((cmd.uid, cmd.should_umount), (10, 0));
    assert!(!done(uid_should_umount(10, ok(cmd))));
    cmd.should_umount = 1;
    assert!(done(uid_should_umount(10, failed(cmd))));
    let mut cmd = call(get_allow_list_count(true, None));
    assert_eq!((cmd.count, cmd.allow), (0, 1));
    assert_eq!(cmd.uids, [0; 128]);
    assert_eq!(call(get_allow_list_count(false, None)).allow, 0);
    cmd.count = 12;
    assert_eq!(done(get_allow_list_count(true, failed(cmd))), 12);
}

#[test]
fn features_are_read_and_set() {
    let mut cmd = call(get_feature(4, None));
    assert_eq!((cmd.feature_id, cmd.value, cmd.supported), (4, 0, 0));
    cmd.value = 7;
    assert_eq!(done(get_feature(4, ok(cmd))), Ok((7, false)));
    cmd.supported = 1;
    assert_eq!(done(get_feature(4, ok(cmd))), Ok((7, true)));
    assert_eq!(done(get_feature(4, failed(cmd))), Err(BUSY));
    let cmd = call(set_feature(4, 9, None));
    assert_eq!((cmd.feature_id, cmd.value), (4, 9));
    assert_eq!(done(set_feature(4, 9, ok(cmd))), Ok(()));
    assert_eq!(done(set_feature(4, 9, failed(cmd))), Err(BUSY));
}

#[test]
fn descriptors_are_what_the_driver_returns() {
    let cmd = call(get_su_request_fd(None));
    assert_eq!(cmd.flags, 0);
    assert_eq!(done(get_su_request_fd(gave(11, cmd))), Ok(11));
    assert_eq!(done(get_su_request_fd(failed(cmd))), Err(BUSY));
    let cmd = call(get_sulog_fd(None));
    assert_eq!(cmd.flags, 0);
    assert_eq!(done(get_sulog_fd(gave(12, cmd))), Ok(12));
    let cmd = call(get_wrapped_fd(-1, None));
    assert_eq!((cmd.fd, cmd.flags), (u32::MAX, 0));
    assert_eq!(done(get_wrapped_fd(-1, gave(13, cmd))), Ok(13));
    assert_eq!(done(get_wrapped_fd(-1, failed(cmd))), Err(BUSY));
    let cmd = call(set_sepolicy(0xdead, 10, None));
    assert_eq!((cmd.data, cmd.data_len), (0xdead, 10));
    assert_eq!(done(set_sepolicy(0xdead, 10, gave(3, cmd))), Ok(3));
    assert_eq!(done(set_sepolicy(0xdead, 10, failed(cmd))), Err(BUSY));
}

#[test]
fn requests_for_root_are_answered() {
    let cmd = call(respond_su_request(77, true, None));
    assert_eq!((cmd.request_id, cmd.allow), (77, 1));
    assert_eq!(done(respond_su_request(77, true, ok(cmd))), Ok(()));
    assert_eq!(done(respond_su_request(77, true, failed(cmd))), Err(BUSY));
    assert_eq!(call(respond_su_request(77, false, None)).allow, 0);
}

#[test]
fn marks_are_managed() {
    let mut cmd = call(mark_get(5, None));
    assert_eq!((cmd.operation, cmd.pid, cmd.result), (MarkOperation::Get, 5, 0));
    cmd.result = 3;
    assert_eq!(done(mark_get(5, ok(cmd))), Ok(3));
    assert_eq!(done(mark_get(5, failed(cmd))), Err(BUSY));
    let cmd = call(mark_set(6, None));
    assert_eq!((cmd.operation, cmd.pid), (MarkOperation::Mark, 6));
    assert_eq!(done(mark_set(6, ok(cmd))), Ok(()));
    let cmd = call(mark_unset(7, None));
    assert_eq!((cmd.operation, cmd.pid), (MarkOperation::Unmark, 7));
    assert_eq!(done(mark_unset(7, failed(cmd))), Err(BUSY));
    let cmd = call(mark_refresh(None));
    assert_eq!((cmd.operation, cmd.pid), (MarkOperation::Refresh, 0));
    assert_eq!(done(mark_refresh(ok(cmd))), Ok(()));
}

#[test]
fn paths_are_handed_over_with_a_nul() {
    let cmd = call(nuke_ext4_sysfs("/data", None));
    assert_eq!(cmd.path, b"/data\0");
    assert_eq!(done(nuke_ext4_sysfs("/data", ok(cmd.clone()))), Ok(()));
    assert_eq!(done(nuke_ext4_sysfs("/data", failed(cmd))), Err(PathCallError::Os(BUSY)));
    assert_eq!(done(nuke_ext4_sysfs("/d\0\0", None)), Err(PathCallError::HoldsNul(2)));
    let cmd = call(umount_list_add("/ä", 3, None));
    assert_eq!(cmd.path.as_deref(), Some(&b"/\xc3\xa4\0"[..]));
    assert_eq!((cmd.flags, cmd.mode), (3, UmountMode::Add));
    assert_eq!(done(umount_list_add("/ä", 3, ok(cmd))), Ok(()));
    assert_eq!(done(umount_list_add("\0", 3, None)), Err(PathCallError::HoldsNul(0)));
    let cmd = call(umount_list_del("/x", None));
    assert_eq!((cmd.flags, cmd.mode), (0, UmountMode::Del));
    assert_eq!(done(umount_list_del("/x", failed(cmd))), Err(PathCallError::Os(BUSY)));
    let cmd = call(umount_list_wipe(None));
    assert_eq!((&cmd.path, cmd.flags, cmd.mode), (&None, 0, UmountMode::Wipe));
    assert_eq!(done(umount_list_wipe(failed(cmd))), Err(BUSY));
}

#[test]
fn a_profile_is_asked_for() {
    let cmd = call(get_app_profile(&uapi(), "com.app", 10001, None));
    assert_eq!(cmd.profile.version, 3);
    assert_eq!(&cmd.profile.key[..8], b"com.app\0");
    assert_eq!(cmd.profile.curr_uid, 10001);
    assert!(matches!(cmd.profile.config, RawConfig::NonRoot(_)));
    let (p, set) = done(get_app_profile(&uapi(), "com.app", 10001, failed(cmd))).unwrap();
    assert!(!set);
    assert_eq!(p.name, "com.app");
    assert!(p.umount_modules);
    let too_large = done(get_app_profile(&uapi(), "com.app", 0x8000_0000, None));
    assert_eq!(too_large.unwrap_err(), ProfileError::UidTooLarge);
    assert_eq!(
        done(get_app_profile(&uapi(), "", 1, None)).unwrap_err(),
        ProfileError::KeyEmpty
    );
}

#[test]
fn a_profile_is_set() {
    let mut p = AppProfile::default_for("com.app", 10001);
    let cmd = call(set_app_profile(&uapi(), &p, None));
    assert_eq!(done(set_app_profile(&uapi(), &p, ok(cmd))), Ok(()));
    let cmd = call(set_app_profile(&uapi(), &p, None));
    assert_eq!(
        done(set_app_profile(&uapi(), &p, failed(cmd))),
        Err(ProfileError::CallFailed(BUSY))
    );
    p.name = "\0".to_string();
    assert_eq!(done(set_app_profile(&uapi(), &p, None)), Err(ProfileError::KeyHoldsNul));
}

#[test]
fn what_is_let_to_become_root_reads_back_so() {
    for allow in [true, false] {
        let set = call(set_app_profile_allow_su(&uapi(), "com.app", 10001, allow, None));
        let reply = ok(GetAppProfileCmd { profile: set.profile });
        let (p, found) = done(get_app_profile(&uapi(), "com.app", 10001, reply)).unwrap();
        assert!(found);
        assert_eq!(p.allow_su, allow);
        assert_eq!(p.current_uid, 10001);
        assert!(!p.has_custom_profile());
        assert!(p.capabilities.is_empty() && p.groups.is_empty());
    }
}

#[test]
fn the_default_of_unmounting_reads_back() {
    assert_eq!((NON_ROOT_DEFAULT_PROFILE_KEY, NOBODY_UID), ("$", 9999));
    for umount in [true, false] {
        let set = call(set_default_umount_modules(&uapi(), umount, None));
        assert_eq!(&set.profile.key[..2], b"$\0");
        assert_eq!(set.profile.curr_uid, 9999);
        let reply = ok(GetAppProfileCmd { profile: set.profile });
        assert_eq!(done(is_default_umount_modules(&uapi(), reply)), Ok(umount));
    }
    let cmd = call(is_default_umount_modules(&uapi(), None));
    assert_eq!(done(is_default_umount_modules(&uapi(), failed(cmd))), Ok(true));
    let tiny = Uapi { max_package_name: 1, ..uapi() };
    assert_eq!(
        done(is_default_umount_modules(&tiny, None)),
        Err(ProfileError::KeyTooLong)
    );
}
