//! Calls to the kernel driver.
//!
//! A call is a function from what has come back so far to what is to be done
//! next: `Step::Call` asks for one `ioctl` on the driver with the given
//! argument block, and `Step::Done` gives the result. The caller starts with
//! `None`, performs each `ioctl` that is asked for, and hands its `Answer`
//! back.
pub use crate::profile::{
    AppProfile, ProfileError, RawProfile, Uapi, FLAG_KSU_NO_NEW_PRIVS, KERNEL_SU_DOMAIN,
};
use crate::profile::{NonRootConfig, RawConfig};
use crate::{number, profile, text};
use vstd::prelude::*;
use vstd::utf8::*;

verus! {

/// The key of the profile that holds what apps without root get.
pub const NON_ROOT_DEFAULT_PROFILE_KEY: &'static str = "$";

/// The user that stands for no app.
pub const NOBODY_UID: u32 = 9999;

/// An error of the operating system, by its number.
#[derive(Clone, Copy, Debug, PartialEq, Eq, Structural)]
pub struct OsError {
    pub code: i32,
}

/// What to do next about a call.
#[derive(Debug)]
pub enum Step<C, T> {
    /// Perform the `ioctl` of `C`, with this argument block.
    Call(C),
    /// The call is over.
    Done(T),
}

/// What came back of an `ioctl`.
#[derive(Debug)]
pub struct Answer<C> {
    /// What the `ioctl` returned.
    pub ret: Result<i32, OsError>,
    /// The argument block as the driver left it.
    pub cmd: C,
}

/// `step`, with the result that it gives put through `f`.
pub open spec fn then<C, T, U>(step: Step<C, T>, f: spec_fn(T) -> U) -> Step<C, U> {
    match step {
        Step::Call(cmd) => Step::Call(cmd),
        Step::Done(t) => Step::Done(f(t)),
    }
}

/// Success without a value, where the `ioctl` succeeded.
pub open spec fn unit_result(ret: Result<i32, OsError>) -> Result<(), OsError> {
    match ret {
        Ok(_) => Ok(()),
        Err(e) => Err(e),
    }
}

fn to_unit_result(ret: Result<i32, OsError>) -> (r: Result<(), OsError>)
    ensures
        r == unit_result(ret),
{
    match ret {
        Ok(_) => Ok(()),
        Err(e) => Err(e),
    }
}

/// What the driver says of itself.
#[derive(Clone, Copy, Debug, PartialEq, Eq, Structural)]
pub struct GetInfoCmd {
    pub version: u32,
    pub flags: u32,
    pub features: u32,
    pub uapi_version: u32,
}

/// A request for what the driver says of itself, in its present or in its old
/// form.
#[derive(Clone, Copy, Debug, PartialEq, Eq, Structural)]
pub struct InfoCall {
    pub legacy: bool,
    pub cmd: GetInfoCmd,
}

/// What is known of the driver: each thing is found out once and then kept.
#[derive(Debug)]
pub struct Driver {
    /// The file descriptor of the driver, or -1 where there is no driver.
    pub fd: Option<i32>,
    /// What the driver said of itself.
    pub info: Option<GetInfoCmd>,
}

impl Driver {
    /// A driver of which nothing is known.
    pub fn new() -> (r: Self)
        ensures
            r == (Driver { fd: None, info: None }),
    {
        Driver { fd: None, info: None }
    }
}

/// An open file descriptor of this process.
#[derive(Debug)]
pub struct FdEntry {
    /// The name of its entry under `/proc/self/fd`.
    pub name: String,
    /// What the entry links to, where that could be read.
    pub target: Option<String>,
}

/// The number of the file descriptor, where the entry is that of the driver.
pub open spec fn driver_fd_of(entry: FdEntry) -> Option<int> {
    match (number::signed_32(entry.name@), entry.target) {
        (Some(fd), Some(target)) => if text::find(target@, "[ksu_driver]"@) is Some {
            Some(fd)
        } else {
            None
        },
        _ => None,
    }
}

/// The first of the entries that is that of the driver.
pub open spec fn first_driver_fd(entries: Seq<FdEntry>) -> Option<int>
    decreases entries.len(),
{
    if entries.len() == 0 {
        None
    } else {
        match driver_fd_of(entries[0]) {
            Some(fd) => Some(fd),
            None => first_driver_fd(entries.drop_first()),
        }
    }
}

/// The link of the entry with this name under `/proc/self/fd`.
pub open spec fn fd_link(name: Seq<char>) -> Option<Seq<char>> {
    match number::signed_32(name) {
        Some(fd) => Some("/proc/self/fd/"@ + number::signed_decimal(fd)),
        None => None,
    }
}

/// The link to read for an entry under `/proc/self/fd`: there is one where the
/// name is a number.
pub fn fd_link_path(name: &str) -> (r: Option<String>)
    ensures
        profile::optional_text(r) == fd_link(name@),
{
    let cs = text::chars_of(name);
    match number::parse_i32(cs.as_slice()) {
        Some(fd) => {
            let mut path = "/proc/self/fd/".to_string();
            path.append(number::format_i32(fd).as_str());
            Some(path)
        },
        None => None,
    }
}

/// Looks for the driver among the open file descriptors.
pub fn scan_driver_fd(entries: &[FdEntry]) -> (r: Option<i32>)
    ensures
        match r {
            Some(fd) => first_driver_fd(entries@) == Some(fd as int),
            None => first_driver_fd(entries@) is None,
        },
{
    let marker = text::chars_of("[ksu_driver]");
    proof {
        reveal_strlit("[ksu_driver]");
        assert(entries@.skip(0) == entries@);
    }
    for i in 0..entries.len()
        invariant
            marker@ == "[ksu_driver]"@,
            marker@.len() > 0,
            first_driver_fd(entries@) == first_driver_fd(entries@.skip(i as int)),
    {
        let entry = &entries[i];
        assert(entries@.skip(i as int).drop_first() == entries@.skip(i + 1));
        let name = text::chars_of(entry.name.as_str());
        if let Some(fd) = number::parse_i32(name.as_slice()) {
            if let Some(target) = &entry.target {
                let cs = text::chars_of(target.as_str());
                if text::find_chars(cs.as_slice(), marker.as_slice()).is_some() {
                    return Some(fd);
                }
            }
        }
    }
    None
}

/// A request to install the driver's file descriptor into this process.
#[derive(Clone, Copy, Debug, PartialEq, Eq, Structural)]
pub struct InstallFd {
    /// Where the descriptor is put.
    pub fd: i32,
}

/// What to do next about finding the driver's file descriptor.
pub open spec fn init_step(scanned: Option<i32>, installed: Option<i32>) -> Step<
    InstallFd,
    Option<i32>,
> {
    match (scanned, installed) {
        (Some(fd), _) => Step::Done(Some(fd)),
        (None, None) => Step::Call(InstallFd { fd: -1i32 }),
        (None, Some(fd)) => Step::Done(
            if fd >= 0 {
                Some(fd)
            } else {
                None
            },
        ),
    }
}

/// Finds the driver's file descriptor: the one that is open, or else the one
/// that the kernel installs.
#[verifier::allow_in_spec]
pub fn init_driver_fd(scanned: Option<i32>, installed: Option<i32>) -> (step: Step<
    InstallFd,
    Option<i32>,
>)
    ensures
        step == init_step(scanned, installed),
    returns
        init_step(scanned, installed),
{
    if scanned.is_some() {
        return Step::Done(scanned);
    }
    match installed {
        None => Step::Call(InstallFd { fd: -1i32 }),
        Some(fd) => Step::Done(
            if fd >= 0 {
                Some(fd)
            } else {
                None
            },
        ),
    }
}

/// What has happened about an `ioctl`.
#[derive(Clone, Copy, Debug, PartialEq, Eq, Structural)]
pub enum KsuctlEvent {
    /// Nothing yet.
    Start,
    /// The driver was looked for.
    DriverFd(Option<i32>),
    /// The `ioctl` returned `ret`, with this number of the last error.
    Returned { ret: i32, errno: i32 },
}

/// What to do next about an `ioctl`.
#[derive(Clone, Copy, Debug, PartialEq, Eq)]
pub enum KsuctlStep {
    /// Look for the driver.
    FindDriver,
    /// Perform the `ioctl` on this file descriptor.
    Ioctl { fd: i32 },
    /// The `ioctl` is over.
    Done(Result<i32, OsError>),
}

/// What is known of the driver after what has happened about an `ioctl`.
pub open spec fn driver_after_event(driver: Driver, event: KsuctlEvent) -> Driver {
    match (driver.fd, event) {
        (None, KsuctlEvent::DriverFd(found)) => Driver {
            fd: Some(
                match found {
                    Some(fd) => fd,
                    None => -1i32,
                },
            ),
            ..driver
        },
        _ => driver,
    }
}

/// What to do next about an `ioctl`.
pub open spec fn ksuctl_step(driver: Driver, event: KsuctlEvent) -> KsuctlStep {
    match event {
        KsuctlEvent::Start => match driver.fd {
            Some(fd) => KsuctlStep::Ioctl { fd },
            None => KsuctlStep::FindDriver,
        },
        KsuctlEvent::DriverFd(_) => KsuctlStep::Ioctl {
            fd: driver_after_event(driver, event).fd->0,
        },
        KsuctlEvent::Returned { ret, errno } => KsuctlStep::Done(
            if ret < 0 {
                Err(OsError { code: errno })
            } else {
                Ok(ret)
            },
        ),
    }
}

/// Performs an `ioctl` on the driver, which is looked for once.
pub fn ksuctl(driver: &mut Driver, event: KsuctlEvent) -> (step: KsuctlStep)
    ensures
        step == ksuctl_step(*old(driver), event),
        *final(driver) == driver_after_event(*old(driver), event),
{
    match event {
        KsuctlEvent::Start => match driver.fd {
            Some(fd) => KsuctlStep::Ioctl { fd },
            None => KsuctlStep::FindDriver,
        },
        KsuctlEvent::DriverFd(found) => {
            let fd = match driver.fd {
                Some(fd) => fd,
                None => match found {
                    Some(fd) => fd,
                    None => -1,
                },
            };
            driver.fd = Some(fd);
            KsuctlStep::Ioctl { fd }
        },
        KsuctlEvent::Returned { ret, errno } => KsuctlStep::Done(
            if ret < 0 {
                Err(OsError { code: errno })
            } else {
                Ok(ret)
            },
        ),
    }
}

/// How what the driver says of itself is found out: what is known is not asked
/// for again, and where the present form of the request fails, the old one is
/// tried with what the first one left.
pub open spec fn info_step(known: Option<GetInfoCmd>, reply: Option<Answer<InfoCall>>) -> Step<
    InfoCall,
    GetInfoCmd,
> {
    match (known, reply) {
        (Some(info), _) => Step::Done(info),
        (None, None) => Step::Call(
            InfoCall {
                legacy: false,
                cmd: GetInfoCmd { version: 0, flags: 0, features: 0, uapi_version: 0 },
            },
        ),
        (None, Some(answer)) => if answer.ret is Err && !answer.cmd.legacy {
            Step::Call(InfoCall { legacy: true, cmd: answer.cmd.cmd })
        } else {
            Step::Done(answer.cmd.cmd)
        },
    }
}

/// What is known of the driver once a step about its info has been taken.
pub open spec fn driver_after_info(driver: Driver, reply: Option<Answer<InfoCall>>) -> Driver {
    Driver {
        fd: driver.fd,
        info: match info_step(driver.info, reply) {
            Step::Done(info) => Some(info),
            Step::Call(_) => driver.info,
        },
    }
}

/// What the driver says of itself.
pub fn get_info(driver: &mut Driver, reply: Option<Answer<InfoCall>>) -> (step: Step<
    InfoCall,
    GetInfoCmd,
>)
    ensures
        step == info_step(old(driver).info, reply),
        *final(driver) == driver_after_info(*old(driver), reply),
{
    if let Some(info) = driver.info {
        return Step::Done(info);
    }
    let answer = match reply {
        None => {
            return Step::Call(
                InfoCall {
                    legacy: false,
                    cmd: GetInfoCmd { version: 0, flags: 0, features: 0, uapi_version: 0 },
                },
            );
        },
        Some(answer) => answer,
    };
    if answer.ret.is_err() && !answer.cmd.legacy {
        return Step::Call(InfoCall { legacy: true, cmd: answer.cmd.cmd });
    }
    driver.info = Some(answer.cmd.cmd);
    Step::Done(answer.cmd.cmd)
}

/// The version that the driver says it has, as a number with a sign.
pub open spec fn version_of(info: GetInfoCmd) -> i32 {
    profile::wrapped_i32(info.version) as i32
}

/// Whether the driver says that it was loaded after the system had started.
pub open spec fn loaded_late(uapi: Uapi, info: GetInfoCmd) -> bool {
    info.flags & uapi.late_load_flag != 0
}

/// Whether the driver says that it speaks another version of the interface.
pub open spec fn speaks_another_version(uapi: Uapi, info: GetInfoCmd) -> bool {
    info.uapi_version != uapi.uapi_version
}

/// The version of the driver.
pub fn get_version(driver: &mut Driver, reply: Option<Answer<InfoCall>>) -> (step: Step<
    InfoCall,
    i32,
>)
    ensures
        step == then(
            info_step(old(driver).info, reply),
            |info: GetInfoCmd| version_of(info),
        ),
        *final(driver) == driver_after_info(*old(driver), reply),
{
    match get_info(driver, reply) {
        Step::Call(call) => Step::Call(call),
        Step::Done(info) => Step::Done(profile::as_i32(info.version)),
    }
}

/// Whether the driver was loaded after the system had started.
pub fn is_late_load(uapi: &Uapi, driver: &mut Driver, reply: Option<Answer<InfoCall>>) -> (step:
    Step<InfoCall, bool>)
    ensures
        step == then(
            info_step(old(driver).info, reply),
            |info: GetInfoCmd| loaded_late(*uapi, info),
        ),
        *final(driver) == driver_after_info(*old(driver), reply),
{
    match get_info(driver, reply) {
        Step::Call(call) => Step::Call(call),
        Step::Done(info) => Step::Done(info.flags & uapi.late_load_flag != 0),
    }
}

/// Whether the driver speaks another version of the interface.
pub fn is_uapi_version_mismatch(
    uapi: &Uapi,
    driver: &mut Driver,
    reply: Option<Answer<InfoCall>>,
) -> (step: Step<InfoCall, bool>)
    ensures
        step == then(
            info_step(old(driver).info, reply),
            |info: GetInfoCmd| speaks_another_version(*uapi, info),
        ),
        *final(driver) == driver_after_info(*old(driver), reply),
{
    match get_info(driver, reply) {
        Step::Call(call) => Step::Call(call),
        Step::Done(info) => Step::Done(info.uapi_version != uapi.uapi_version),
    }
}

/// What the driver said of itself is not asked for again, and does not change.
pub proof fn law_info_is_kept(
    driver: Driver,
    reply: Option<Answer<InfoCall>>,
    later: Option<Answer<InfoCall>>,
)
    requires
        info_step(driver.info, reply) is Done,
    ensures
        info_step(driver_after_info(driver, reply).info, later) == info_step(driver.info, reply),
        driver_after_info(driver_after_info(driver, reply), later) == driver_after_info(
            driver,
            reply,
        ),
{
}

/// A request for what the driver says of itself is repeated once at most: the
/// answer to the repeated one is taken as it is.
pub proof fn law_info_takes_two_calls(first: Answer<InfoCall>, second: Answer<InfoCall>)
    requires
        info_step(None, Some(first)) matches Step::Call(call) && call.legacy == second.cmd.legacy,
    ensures
        info_step(None, Some(second)) == Step::<InfoCall, GetInfoCmd>::Done(second.cmd.cmd),
{
}

/// A request for root.
#[derive(Clone, Copy, Debug, PartialEq, Eq, Structural)]
pub struct GrantRootCmd {}

/// What to do next about asking for root.
pub open spec fn grant_root_step(reply: Option<Answer<GrantRootCmd>>) -> Step<
    GrantRootCmd,
    Result<(), OsError>,
> {
    match reply {
        None => Step::Call(GrantRootCmd {  }),
        Some(answer) => Step::Done(unit_result(answer.ret)),
    }
}

/// Asks for root for this process.
#[verifier::allow_in_spec]
pub fn grant_root(reply: Option<Answer<GrantRootCmd>>) -> (step: Step<
    GrantRootCmd,
    Result<(), OsError>,
>)
    ensures
        step == grant_root_step(reply),
    returns
        grant_root_step(reply),
{
    match reply {
        None => Step::Call(GrantRootCmd {  }),
        Some(answer) => Step::Done(to_unit_result(answer.ret)),
    }
}

/// A stage of the start of the system.
#[derive(Clone, Copy, Debug, PartialEq, Eq, Structural)]
pub enum BootEvent {
    PostFsData,
    BootCompleted,
    ModuleMounted,
}

/// A report of a stage of the start of the system.
#[derive(Clone, Copy, Debug, PartialEq, Eq, Structural)]
pub struct ReportEventCmd {
    pub event: BootEvent,
}

/// A report is made once, and whether it succeeds makes no difference.
pub open spec fn report_step(event: BootEvent, reply: Option<Answer<ReportEventCmd>>) -> Step<
    ReportEventCmd,
    (),
> {
    match reply {
        None => Step::Call(ReportEventCmd { event }),
        Some(_) => Step::Done(()),
    }
}

/// Reports a stage of the start of the system.
#[verifier::allow_in_spec]
pub fn report_event(event: BootEvent, reply: Option<Answer<ReportEventCmd>>) -> (step: Step<
    ReportEventCmd,
    (),
>)
    ensures
        step == report_step(event, reply),
    returns
        report_step(event, reply),
{
    match reply {
        None => Step::Call(ReportEventCmd { event }),
        Some(_) => Step::Done(()),
    }
}

/// Reports that the data partition is mounted.
#[verifier::allow_in_spec]
pub fn report_post_fs_data(reply: Option<Answer<ReportEventCmd>>) -> (step: Step<
    ReportEventCmd,
    (),
>)
    ensures
        step == report_step(BootEvent::PostFsData, reply),
    returns
        report_step(BootEvent::PostFsData, reply),
{
    report_event(BootEvent::PostFsData, reply)
}

/// Reports that the system has started.
#[verifier::allow_in_spec]
pub fn report_boot_complete(reply: Option<Answer<ReportEventCmd>>) -> (step: Step<
    ReportEventCmd,
    (),
>)
    ensures
        step == report_step(BootEvent::BootCompleted, reply),
    returns
        report_step(BootEvent::BootCompleted, reply),
{
    report_event(BootEvent::BootCompleted, reply)
}

/// Reports that the modules are mounted.
#[verifier::allow_in_spec]
pub fn report_module_mounted(reply: Option<Answer<ReportEventCmd>>) -> (step: Step<
    ReportEventCmd,
    (),
>)
    ensures
        step == report_step(BootEvent::ModuleMounted, reply),
    returns
        report_step(BootEvent::ModuleMounted, reply),
{
    report_event(BootEvent::ModuleMounted, reply)
}

/// A question whether the kernel is in safe mode.
#[derive(Clone, Copy, Debug, PartialEq, Eq, Structural)]
pub struct CheckSafemodeCmd {
    pub in_safe_mode: u8,
}

/// What to do next about asking for safe mode.
pub open spec fn safemode_step(reply: Option<Answer<CheckSafemodeCmd>>) -> Step<
    CheckSafemodeCmd,
    bool,
> {
    match reply {
        None => Step::Call(CheckSafemodeCmd { in_safe_mode: 0 }),
        Some(answer) => Step::Done(answer.cmd.in_safe_mode != 0),
    }
}

/// Whether the kernel is in safe mode. A question that fails counts as it left
/// the block.
#[verifier::allow_in_spec]
pub fn check_kernel_safemode(reply: Option<Answer<CheckSafemodeCmd>>) -> (step: Step<
    CheckSafemodeCmd,
    bool,
>)
    ensures
        step == safemode_step(reply),
    returns
        safemode_step(reply),
{
    match reply {
        None => Step::Call(CheckSafemodeCmd { in_safe_mode: 0 }),
        Some(answer) => Step::Done(answer.cmd.in_safe_mode != 0),
    }
}

/// SELinux rules, by the address and the length of their bytes.
#[derive(Clone, Copy, Debug, PartialEq, Eq, Structural)]
pub struct SetSepolicyCmd {
    pub data_len: u64,
    pub data: u64,
}

/// What to do next about handing over SELinux rules.
pub open spec fn sepolicy_step(
    payload: u64,
    payload_len: u64,
    reply: Option<Answer<SetSepolicyCmd>>,
) -> Step<SetSepolicyCmd, Result<i32, OsError>> {
    match reply {
        None => Step::Call(SetSepolicyCmd { data_len: payload_len, data: payload }),
        Some(answer) => Step::Done(answer.ret),
    }
}

/// Hands the driver the SELinux rules at the address `payload`.
#[verifier::allow_in_spec]
pub fn set_sepolicy(
    payload: u64,
    payload_len: u64,
    reply: Option<Answer<SetSepolicyCmd>>,
) -> (step: Step<SetSepolicyCmd, Result<i32, OsError>>)
    ensures
        step == sepolicy_step(payload, payload_len, reply),
    returns
        sepolicy_step(payload, payload_len, reply),
{
    match reply {
        None => Step::Call(SetSepolicyCmd { data_len: payload_len, data: payload }),
        Some(answer) => Step::Done(answer.ret),
    }
}

/// A question for the value of a feature.
#[derive(Clone, Copy, Debug, PartialEq, Eq, Structural)]
pub struct GetFeatureCmd {
    pub feature_id: u32,
    pub value: u64,
    pub supported: u8,
}

/// What to do next about reading a feature.
pub open spec fn get_feature_step(feature_id: u32, reply: Option<Answer<GetFeatureCmd>>) -> Step<
    GetFeatureCmd,
    Result<(u64, bool), OsError>,
> {
    match reply {
        None => Step::Call(GetFeatureCmd { feature_id, value: 0, supported: 0 }),
        Some(answer) => Step::Done(
            match answer.ret {
                Ok(_) => Ok((answer.cmd.value, answer.cmd.supported != 0)),
                Err(e) => Err(e),
            },
        ),
    }
}

/// The value of a feature, and whether the kernel supports it.
#[verifier::allow_in_spec]
pub fn get_feature(feature_id: u32, reply: Option<Answer<GetFeatureCmd>>) -> (step: Step<
    GetFeatureCmd,
    Result<(u64, bool), OsError>,
>)
    ensures
        step == get_feature_step(feature_id, reply),
    returns
        get_feature_step(feature_id, reply),
{
    match reply {
        None => Step::Call(GetFeatureCmd { feature_id, value: 0, supported: 0 }),
        Some(answer) => Step::Done(
            match answer.ret {
                Ok(_) => Ok((answer.cmd.value, answer.cmd.supported != 0)),
                Err(e) => Err(e),
            },
        ),
    }
}

/// A new value for a feature.
#[derive(Clone, Copy, Debug, PartialEq, Eq, Structural)]
pub struct SetFeatureCmd {
    pub feature_id: u32,
    pub value: u64,
}

/// What to do next about setting a feature.
pub open spec fn set_feature_step(
    feature_id: u32,
    value: u64,
    reply: Option<Answer<SetFeatureCmd>>,
) -> Step<SetFeatureCmd, Result<(), OsError>> {
    match reply {
        None => Step::Call(SetFeatureCmd { feature_id, value }),
        Some(answer) => Step::Done(unit_result(answer.ret)),
    }
}

/// Sets the value of a feature.
#[verifier::allow_in_spec]
pub fn set_feature(
    feature_id: u32,
    value: u64,
    reply: Option<Answer<SetFeatureCmd>>,
) -> (step: Step<SetFeatureCmd, Result<(), OsError>>)
    ensures
        step == set_feature_step(feature_id, value, reply),
    returns
        set_feature_step(feature_id, value, reply),
{
    match reply {
        None => Step::Call(SetFeatureCmd { feature_id, value }),
        Some(answer) => Step::Done(to_unit_result(answer.ret)),
    }
}

/// A request for the file descriptor on which requests for root come in.
#[derive(Clone, Copy, Debug, PartialEq, Eq, Structural)]
pub struct GetSuRequestFdCmd {
    pub flags: u32,
}

/// What to do next about asking for the descriptor of requests for root.
pub open spec fn su_request_fd_step(reply: Option<Answer<GetSuRequestFdCmd>>) -> Step<
    GetSuRequestFdCmd,
    Result<i32, OsError>,
> {
    match reply {
        None => Step::Call(GetSuRequestFdCmd { flags: 0 }),
        Some(answer) => Step::Done(answer.ret),
    }
}

/// The file descriptor on which requests for root come in.
#[verifier::allow_in_spec]
pub fn get_su_request_fd(reply: Option<Answer<GetSuRequestFdCmd>>) -> (step: Step<
    GetSuRequestFdCmd,
    Result<i32, OsError>,
>)
    ensures
        step == su_request_fd_step(reply),
    returns
        su_request_fd_step(reply),
{
    match reply {
        None => Step::Call(GetSuRequestFdCmd { flags: 0 }),
        Some(answer) => Step::Done(answer.ret),
    }
}

/// The answer to a request for root.
#[derive(Clone, Copy, Debug, PartialEq, Eq, Structural)]
pub struct RespondSuRequestCmd {
    pub request_id: u64,
    pub allow: u8,
}

/// 1 for `true` and 0 for `false`.
pub open spec fn flag_byte(b: bool) -> u8 {
    if b {
        1
    } else {
        0
    }
}

fn to_flag_byte(b: bool) -> (r: u8)
    ensures
        r == flag_byte(b),
{
    if b {
        1
    } else {
        0
    }
}

/// What to do next about answering a request for root.
pub open spec fn respond_step(
    request_id: u64,
    allow: bool,
    reply: Option<Answer<RespondSuRequestCmd>>,
) -> Step<RespondSuRequestCmd, Result<(), OsError>> {
    match reply {
        None => Step::Call(RespondSuRequestCmd { request_id, allow: flag_byte(allow) }),
        Some(answer) => Step::Done(unit_result(answer.ret)),
    }
}

/// Answers a request for root.
#[verifier::allow_in_spec]
pub fn respond_su_request(
    request_id: u64,
    allow: bool,
    reply: Option<Answer<RespondSuRequestCmd>>,
) -> (step: Step<RespondSuRequestCmd, Result<(), OsError>>)
    ensures
        step == respond_step(request_id, allow, reply),
    returns
        respond_step(request_id, allow, reply),
{
    match reply {
        None => Step::Call(RespondSuRequestCmd { request_id, allow: to_flag_byte(allow) }),
        Some(answer) => Step::Done(to_unit_result(answer.ret)),
    }
}

/// A request for the profile of an app.
#[derive(Debug)]
pub struct GetAppProfileCmd {
    pub profile: RawProfile,
}

/// Why the profile of an app cannot be asked for.
pub open spec fn query_error(uapi: Uapi, key: Seq<char>, uid: u32) -> Option<ProfileError> {
    if profile::key_error(uapi, key) is Some {
        profile::key_error(uapi, key)
    } else if profile::c_string_error(key, uapi.key_len as nat) is Some {
        profile::c_string_error(key, uapi.key_len as nat)
    } else if uid > i32::MAX {
        Some(ProfileError::UidTooLarge)
    } else {
        None
    }
}

/// The block with which the profile of an app is asked for.
pub open spec fn query_block(uapi: Uapi, key: Seq<char>, uid: u32) -> profile::RawProfileView {
    profile::RawProfileView {
        version: uapi.app_profile_ver,
        key: profile::c_string(key, uapi.key_len as nat),
        curr_uid: uid as i32,
        config: profile::RawConfigView::NonRoot(
            NonRootConfig { use_default: false, umount_modules: false },
        ),
    }
}

/// The profile that came back, or the default one where there is none, and
/// whether there is one.
pub open spec fn queried_profile(
    uapi: Uapi,
    key: Seq<char>,
    uid: u32,
    answer: Answer<GetAppProfileCmd>,
) -> (profile::ProfileView, bool) {
    match answer.ret {
        Ok(_) => (profile::profile_of(uapi, answer.cmd.profile@), true),
        Err(_) => (profile::default_profile(key, uid), false),
    }
}

fn query_app_profile(uapi: &Uapi, key: &str, uid: u32) -> (r: Result<RawProfile, ProfileError>)
    ensures
        match query_error(*uapi, key@, uid) {
            Some(e) => r == Err::<RawProfile, ProfileError>(e),
            None => r matches Ok(raw) && raw@ == query_block(*uapi, key@, uid),
        },
{
    profile::ensure_profile_key(uapi, key)?;
    let mut array = vec![0u8; uapi.key_len];
    profile::write_c_string(array.as_mut_slice(), key)?;
    if uid > 2147483647 {
        return Err(ProfileError::UidTooLarge);
    }
    Ok(
        RawProfile {
            version: uapi.app_profile_ver,
            key: array,
            curr_uid: uid as i32,
            config: RawConfig::NonRoot(NonRootConfig { use_default: false, umount_modules: false }),
        },
    )
}

/// How the profile of an app is asked for: not at all where it cannot be, and
/// else by the block with its key.
pub open spec fn is_get_profile_step(
    uapi: Uapi,
    key: Seq<char>,
    uid: u32,
    reply: Option<Answer<GetAppProfileCmd>>,
    step: Step<GetAppProfileCmd, Result<(AppProfile, bool), ProfileError>>,
) -> bool {
    match (query_error(uapi, key, uid), reply) {
        (Some(e), _) => step == Step::<
            GetAppProfileCmd,
            Result<(AppProfile, bool), ProfileError>,
        >::Done(Err(e)),
        (None, None) => step matches Step::Call(cmd) && cmd.profile@ == query_block(uapi, key, uid),
        (None, Some(answer)) => step matches Step::Done(Ok(found)) && (found.0@, found.1)
            == queried_profile(uapi, key, uid, answer),
    }
}

/// The profile of an app, and whether one is set.
pub fn get_app_profile(
    uapi: &Uapi,
    key: &str,
    uid: u32,
    reply: Option<Answer<GetAppProfileCmd>>,
) -> (step: Step<GetAppProfileCmd, Result<(AppProfile, bool), ProfileError>>)
    ensures
        is_get_profile_step(*uapi, key@, uid, reply, step),
{
    let raw = match query_app_profile(uapi, key, uid) {
        Ok(raw) => raw,
        Err(e) => return Step::Done(Err(e)),
    };
    match reply {
        None => Step::Call(GetAppProfileCmd { profile: raw }),
        Some(answer) => match answer.ret {
            Ok(_) => Step::Done(
                Ok((profile::app_profile_from_raw(uapi, &answer.cmd.profile), true)),
            ),
            Err(_) => Step::Done(Ok((AppProfile::default_for(key, uid), false))),
        },
    }
}

/// A new profile of an app.
#[derive(Debug)]
pub struct SetAppProfileCmd {
    pub profile: RawProfile,
}

/// How a profile is handed to the driver: not at all where it cannot be, and
/// else as its block.
pub open spec fn is_set_profile_step(
    uapi: Uapi,
    p: profile::ProfileView,
    reply: Option<Answer<SetAppProfileCmd>>,
    step: Step<SetAppProfileCmd, Result<(), ProfileError>>,
) -> bool {
    match (profile::profile_error(uapi, p), reply) {
        (Some(e), _) => step == Step::<SetAppProfileCmd, Result<(), ProfileError>>::Done(Err(e)),
        (None, None) => step matches Step::Call(cmd) && cmd.profile@ == profile::raw_of(uapi, p),
        (None, Some(answer)) => step == Step::<SetAppProfileCmd, Result<(), ProfileError>>::Done(
            match answer.ret {
                Ok(_) => Ok(()),
                Err(e) => Err(ProfileError::CallFailed(e)),
            },
        ),
    }
}

/// Sets the profile of an app.
pub fn set_app_profile(
    uapi: &Uapi,
    profile: &AppProfile,
    reply: Option<Answer<SetAppProfileCmd>>,
) -> (step: Step<SetAppProfileCmd, Result<(), ProfileError>>)
    ensures
        is_set_profile_step(*uapi, profile@, reply, step),
{
    let raw = match profile::raw_profile_from_app_profile(uapi, profile) {
        Ok(raw) => raw,
        Err(e) => return Step::Done(Err(e)),
    };
    match reply {
        None => Step::Call(SetAppProfileCmd { profile: raw }),
        Some(answer) => match answer.ret {
            Ok(_) => Step::Done(Ok(())),
            Err(e) => Step::Done(Err(ProfileError::CallFailed(e))),
        },
    }
}

/// A question whether modules are to be unmounted for a user.
#[derive(Clone, Copy, Debug, PartialEq, Eq, Structural)]
pub struct UidShouldUmountCmd {
    pub uid: u32,
    pub should_umount: u8,
}

/// What to do next about asking whether to unmount for a user.
pub open spec fn should_umount_step(uid: u32, reply: Option<Answer<UidShouldUmountCmd>>) -> Step<
    UidShouldUmountCmd,
    bool,
> {
    match reply {
        None => Step::Call(UidShouldUmountCmd { uid, should_umount: 0 }),
        Some(answer) => Step::Done(answer.cmd.should_umount != 0),
    }
}

/// Whether modules are to be unmounted for the user `uid`. A question that
/// fails counts as it left the block.
#[verifier::allow_in_spec]
pub fn uid_should_umount(uid: u32, reply: Option<Answer<UidShouldUmountCmd>>) -> (step: Step<
    UidShouldUmountCmd,
    bool,
>)
    ensures
        step == should_umount_step(uid, reply),
    returns
        should_umount_step(uid, reply),
{
    match reply {
        None => Step::Call(UidShouldUmountCmd { uid, should_umount: 0 }),
        Some(answer) => Step::Done(answer.cmd.should_umount != 0),
    }
}

/// A question for the users that may, or may not, become root.
#[derive(Clone, Debug)]
pub struct GetAllowListCmd {
    pub uids: [u32; 128],
    pub count: u32,
    pub allow: u8,
}

/// How the number of users is asked for.
pub open spec fn is_allow_list_step(
    allow: bool,
    reply: Option<Answer<GetAllowListCmd>>,
    step: Step<GetAllowListCmd, u32>,
) -> bool {
    match reply {
        None => step matches Step::Call(cmd) && cmd.uids@ == Seq::new(128, |i: int| 0u32)
            && cmd.count == 0 && cmd.allow == flag_byte(allow),
        Some(answer) => step == Step::<GetAllowListCmd, u32>::Done(answer.cmd.count),
    }
}

/// How many users may become root, or may not. A question that fails counts as
/// it left the block.
pub fn get_allow_list_count(allow: bool, reply: Option<Answer<GetAllowListCmd>>) -> (step: Step<
    GetAllowListCmd,
    u32,
>)
    ensures
        is_allow_list_step(allow, reply, step),
{
    match reply {
        None => {
            let uids = [0u32;128];
            assert(uids@ =~= Seq::new(128, |i: int| 0u32));
            Step::Call(GetAllowListCmd { uids, count: 0, allow: to_flag_byte(allow) })
        },
        Some(answer) => Step::Done(answer.cmd.count),
    }
}

/// How it is asked whether modules are unmounted for apps of which nothing has
/// been set: by the profile that holds that.
pub open spec fn is_default_umount_step(
    uapi: Uapi,
    reply: Option<Answer<GetAppProfileCmd>>,
    step: Step<GetAppProfileCmd, Result<bool, ProfileError>>,
) -> bool {
    match (query_error(uapi, NON_ROOT_DEFAULT_PROFILE_KEY@, NOBODY_UID), reply) {
        (Some(e), _) => step == Step::<GetAppProfileCmd, Result<bool, ProfileError>>::Done(Err(e)),
        (None, None) => step matches Step::Call(cmd) && cmd.profile@ == query_block(
            uapi,
            NON_ROOT_DEFAULT_PROFILE_KEY@,
            NOBODY_UID,
        ),
        (None, Some(answer)) => step == Step::<GetAppProfileCmd, Result<bool, ProfileError>>::Done(
            Ok(
                queried_profile(
                    uapi,
                    NON_ROOT_DEFAULT_PROFILE_KEY@,
                    NOBODY_UID,
                    answer,
                ).0.umount_modules,
            ),
        ),
    }
}

/// Whether modules are unmounted for apps of which nothing has been set.
pub fn is_default_umount_modules(uapi: &Uapi, reply: Option<Answer<GetAppProfileCmd>>) -> (step:
    Step<GetAppProfileCmd, Result<bool, ProfileError>>)
    ensures
        is_default_umount_step(*uapi, reply, step),
{
    match get_app_profile(uapi, NON_ROOT_DEFAULT_PROFILE_KEY, NOBODY_UID, reply) {
        Step::Call(cmd) => Step::Call(cmd),
        Step::Done(Ok((profile, _))) => Step::Done(Ok(profile.umount_modules)),
        Step::Done(Err(e)) => Step::Done(Err(e)),
    }
}

/// The profile that says whether modules are unmounted for apps of which
/// nothing has been set.
pub open spec fn default_umount_profile(umount_modules: bool) -> profile::ProfileView {
    profile::ProfileView {
        umount_modules,
        ..profile::default_profile(NON_ROOT_DEFAULT_PROFILE_KEY@, NOBODY_UID)
    }
}

/// Sets whether modules are unmounted for apps of which nothing has been set.
pub fn set_default_umount_modules(
    uapi: &Uapi,
    umount_modules: bool,
    reply: Option<Answer<SetAppProfileCmd>>,
) -> (step: Step<SetAppProfileCmd, Result<(), ProfileError>>)
    ensures
        is_set_profile_step(*uapi, default_umount_profile(umount_modules), reply, step),
{
    let mut profile = AppProfile::default_for(NON_ROOT_DEFAULT_PROFILE_KEY, NOBODY_UID);
    profile.umount_modules = umount_modules;
    set_app_profile(uapi, &profile, reply)
}

/// The profile that says whether an app may become root, with all else as
/// nothing had been set.
pub open spec fn allow_su_profile(key: Seq<char>, uid: u32, allow: bool) -> profile::ProfileView {
    profile::ProfileView { allow_su: allow, ..profile::default_profile(key, uid) }
}

/// Sets whether an app may become root.
pub fn set_app_profile_allow_su(
    uapi: &Uapi,
    key: &str,
    uid: u32,
    allow: bool,
    reply: Option<Answer<SetAppProfileCmd>>,
) -> (step: Step<SetAppProfileCmd, Result<(), ProfileError>>)
    ensures
        is_set_profile_step(*uapi, allow_su_profile(key@, uid, allow), reply, step),
{
    let mut profile = AppProfile::default_for(key, uid);
    profile.allow_su = allow;
    profile.root_use_default = true;
    set_app_profile(uapi, &profile, reply)
}

/// What is set for apps of which nothing has been set is what is read of it,
/// where the driver gives back the block that it was handed.
pub proof fn law_default_umount_reads_back(
    uapi: Uapi,
    umount_modules: bool,
    answer: Answer<GetAppProfileCmd>,
)
    requires
        profile::profile_error(uapi, default_umount_profile(umount_modules)) is None,
        answer.ret is Ok,
        answer.cmd.profile@ == profile::raw_of(uapi, default_umount_profile(umount_modules)),
    ensures
        queried_profile(
            uapi,
            NON_ROOT_DEFAULT_PROFILE_KEY@,
            NOBODY_UID,
            answer,
        ).0.umount_modules == umount_modules,
{
    profile::law_profile_reads_back(uapi, default_umount_profile(umount_modules));
}

/// An app that is let to become root is one that is read as such, with all else
/// as nothing had been set, where the driver gives back the block that it was
/// handed.
pub proof fn law_allow_su_reads_back(
    uapi: Uapi,
    key: Seq<char>,
    uid: u32,
    allow: bool,
    answer: Answer<GetAppProfileCmd>,
)
    requires
        profile::profile_error(uapi, allow_su_profile(key, uid, allow)) is None,
        answer.ret is Ok,
        answer.cmd.profile@ == profile::raw_of(uapi, allow_su_profile(key, uid, allow)),
    ensures
        queried_profile(uapi, key, uid, answer) == (allow_su_profile(key, uid, allow), true),
{
    let caps = profile::caps_below(profile::bits_of(seq![]), 64);
    profile::law_profile_reads_back(uapi, allow_su_profile(key, uid, allow));
    profile::law_caps_list_is_faithful(profile::bits_of(seq![]));
    if caps.len() > 0 {
        assert(caps.contains(caps[0]));
        profile::law_bits_hold_the_caps(seq![], caps[0] as int);
    }
    assert(caps =~= Seq::<i32>::empty());
}

/// A request for a wrapper around a file descriptor.
#[derive(Clone, Copy, Debug, PartialEq, Eq, Structural)]
pub struct GetWrapperFdCmd {
    pub fd: u32,
    pub flags: u32,
}

/// What to do next about wrapping a file descriptor.
pub open spec fn wrapped_fd_step(fd: i32, reply: Option<Answer<GetWrapperFdCmd>>) -> Step<
    GetWrapperFdCmd,
    Result<i32, OsError>,
> {
    match reply {
        None => Step::Call(GetWrapperFdCmd { fd: profile::wrapped_u32(fd) as u32, flags: 0 }),
        Some(answer) => Step::Done(answer.ret),
    }
}

/// Wraps a file descriptor.
#[verifier::allow_in_spec]
pub fn get_wrapped_fd(fd: i32, reply: Option<Answer<GetWrapperFdCmd>>) -> (step: Step<
    GetWrapperFdCmd,
    Result<i32, OsError>,
>)
    ensures
        step == wrapped_fd_step(fd, reply),
    returns
        wrapped_fd_step(fd, reply),
{
    match reply {
        None => Step::Call(GetWrapperFdCmd { fd: profile::as_u32(fd), flags: 0 }),
        Some(answer) => Step::Done(answer.ret),
    }
}

/// A request for the file descriptor of the log of uses of root.
#[derive(Clone, Copy, Debug, PartialEq, Eq, Structural)]
pub struct GetSulogFdCmd {
    pub flags: u32,
}

/// What to do next about asking for the descriptor of the log.
pub open spec fn sulog_fd_step(reply: Option<Answer<GetSulogFdCmd>>) -> Step<
    GetSulogFdCmd,
    Result<i32, OsError>,
> {
    match reply {
        None => Step::Call(GetSulogFdCmd { flags: 0 }),
        Some(answer) => Step::Done(answer.ret),
    }
}

/// The file descriptor of the log of uses of root.
#[verifier::allow_in_spec]
pub fn get_sulog_fd(reply: Option<Answer<GetSulogFdCmd>>) -> (step: Step<
    GetSulogFdCmd,
    Result<i32, OsError>,
>)
    ensures
        step == sulog_fd_step(reply),
    returns
        sulog_fd_step(reply),
{
    match reply {
        None => Step::Call(GetSulogFdCmd { flags: 0 }),
        Some(answer) => Step::Done(answer.ret),
    }
}

/// What to do about the marks of processes.
#[derive(Clone, Copy, Debug, PartialEq, Eq, Structural)]
pub enum MarkOperation {
    Get,
    Mark,
    Unmark,
    Refresh,
}

/// A request about the mark of a process.
#[derive(Clone, Copy, Debug, PartialEq, Eq, Structural)]
pub struct ManageMarkCmd {
    pub operation: MarkOperation,
    pub pid: i32,
    pub result: u32,
}

/// What to do next about asking for a mark.
pub open spec fn mark_get_step(pid: i32, reply: Option<Answer<ManageMarkCmd>>) -> Step<
    ManageMarkCmd,
    Result<u32, OsError>,
> {
    match reply {
        None => Step::Call(ManageMarkCmd { operation: MarkOperation::Get, pid, result: 0 }),
        Some(answer) => Step::Done(
            match answer.ret {
                Ok(_) => Ok(answer.cmd.result),
                Err(e) => Err(e),
            },
        ),
    }
}

/// The mark of a process; for process 0, how many processes are marked.
#[verifier::allow_in_spec]
pub fn mark_get(pid: i32, reply: Option<Answer<ManageMarkCmd>>) -> (step: Step<
    ManageMarkCmd,
    Result<u32, OsError>,
>)
    ensures
        step == mark_get_step(pid, reply),
    returns
        mark_get_step(pid, reply),
{
    match reply {
        None => Step::Call(ManageMarkCmd { operation: MarkOperation::Get, pid, result: 0 }),
        Some(answer) => Step::Done(
            match answer.ret {
                Ok(_) => Ok(answer.cmd.result),
                Err(e) => Err(e),
            },
        ),
    }
}

/// A change of marks is asked for once.
pub open spec fn mark_step(
    operation: MarkOperation,
    pid: i32,
    reply: Option<Answer<ManageMarkCmd>>,
) -> Step<ManageMarkCmd, Result<(), OsError>> {
    match reply {
        None => Step::Call(ManageMarkCmd { operation, pid, result: 0 }),
        Some(answer) => Step::Done(unit_result(answer.ret)),
    }
}

fn change_mark(
    operation: MarkOperation,
    pid: i32,
    reply: Option<Answer<ManageMarkCmd>>,
) -> (step: Step<ManageMarkCmd, Result<(), OsError>>)
    ensures
        step == mark_step(operation, pid, reply),
{
    match reply {
        None => Step::Call(ManageMarkCmd { operation, pid, result: 0 }),
        Some(answer) => Step::Done(to_unit_result(answer.ret)),
    }
}

/// Marks a process; for process 0, all processes.
#[verifier::allow_in_spec]
pub fn mark_set(pid: i32, reply: Option<Answer<ManageMarkCmd>>) -> (step: Step<
    ManageMarkCmd,
    Result<(), OsError>,
>)
    ensures
        step == mark_step(MarkOperation::Mark, pid, reply),
    returns
        mark_step(MarkOperation::Mark, pid, reply),
{
    change_mark(MarkOperation::Mark, pid, reply)
}

/// Unmarks a process; for process 0, all processes.
#[verifier::allow_in_spec]
pub fn mark_unset(pid: i32, reply: Option<Answer<ManageMarkCmd>>) -> (step: Step<
    ManageMarkCmd,
    Result<(), OsError>,
>)
    ensures
        step == mark_step(MarkOperation::Unmark, pid, reply),
    returns
        mark_step(MarkOperation::Unmark, pid, reply),
{
    change_mark(MarkOperation::Unmark, pid, reply)
}

/// Refreshes the marks of all processes.
#[verifier::allow_in_spec]
pub fn mark_refresh(reply: Option<Answer<ManageMarkCmd>>) -> (step: Step<
    ManageMarkCmd,
    Result<(), OsError>,
>)
    ensures
        step == mark_step(MarkOperation::Refresh, 0, reply),
    returns
        mark_step(MarkOperation::Refresh, 0, reply),
{
    change_mark(MarkOperation::Refresh, 0, reply)
}

/// Why a call with a path failed.
#[derive(Clone, Copy, Debug, PartialEq, Eq, Structural)]
pub enum PathCallError {
    /// The path holds a 0 byte, the first one at this index.
    HoldsNul(usize),
    /// The driver refused the call.
    Os(OsError),
}

/// Success without a value, where the `ioctl` succeeded.
pub open spec fn path_result(ret: Result<i32, OsError>) -> Result<(), PathCallError> {
    match ret {
        Ok(_) => Ok(()),
        Err(e) => Err(PathCallError::Os(e)),
    }
}

fn to_path_result(ret: Result<i32, OsError>) -> (r: Result<(), PathCallError>)
    ensures
        r == path_result(ret),
{
    match ret {
        Ok(_) => Ok(()),
        Err(e) => Err(PathCallError::Os(e)),
    }
}

/// Where the first 0 byte of a path stands.
pub open spec fn nul_position(path: Seq<char>) -> Option<int> {
    text::find(encode_utf8(path), seq![0u8])
}

/// The bytes of a path with the 0 that ends them.
pub open spec fn c_path(path: Seq<char>) -> Seq<u8> {
    encode_utf8(path).push(0)
}

/// Makes the bytes of a path with the 0 that ends them.
fn path_bytes(path: &str) -> (r: Result<Vec<u8>, PathCallError>)
    ensures
        match nul_position(path@) {
            Some(i) => r matches Err(PathCallError::HoldsNul(k)) && k == i,
            None => r matches Ok(bytes) && bytes@ == c_path(path@),
        },
{
    let bytes = path.as_bytes();
    let n = bytes.len();
    let ghost pat = seq![0u8];
    for i in 0..n
        invariant
            n == bytes@.len(),
            bytes@ == encode_utf8(path@),
            pat == seq![0u8],
            text::find(bytes@, pat) == text::find_from(bytes@, pat, i as int),
    {
        if bytes[i] == 0 {
            assert(bytes@.subrange(i as int, i + 1) == pat);
            return Err(PathCallError::HoldsNul(i));
        }
        proof {
            if text::occurs_at(bytes@, pat, i as int) {
                assert(bytes@.subrange(i as int, i + 1)[0] == pat[0]);
            }
        }
    }
    let mut out = vstd::slice::slice_to_vec(bytes);
    out.push(0);
    Ok(out)
}

/// A request to take the entry of a file system out of `sysfs`.
#[derive(Clone, Debug)]
pub struct NukeExt4SysfsCmd {
    /// Where it is mounted, with the 0 that ends it.
    pub path: Vec<u8>,
}

/// How the entry of a file system is taken out of `sysfs`.
pub open spec fn is_nuke_step(
    mnt: Seq<char>,
    reply: Option<Answer<NukeExt4SysfsCmd>>,
    step: Step<NukeExt4SysfsCmd, Result<(), PathCallError>>,
) -> bool {
    match (nul_position(mnt), reply) {
        (Some(i), _) => step matches Step::Done(Err(PathCallError::HoldsNul(k))) && k == i,
        (None, None) => step matches Step::Call(cmd) && cmd.path@ == c_path(mnt),
        (None, Some(answer)) => step == Step::<NukeExt4SysfsCmd, Result<(), PathCallError>>::Done(
            path_result(answer.ret),
        ),
    }
}

/// Takes the entry of the file system that is mounted at `mnt` out of `sysfs`.
pub fn nuke_ext4_sysfs(mnt: &str, reply: Option<Answer<NukeExt4SysfsCmd>>) -> (step: Step<
    NukeExt4SysfsCmd,
    Result<(), PathCallError>,
>)
    ensures
        is_nuke_step(mnt@, reply, step),
{
    let path = match path_bytes(mnt) {
        Ok(path) => path,
        Err(e) => return Step::Done(Err(e)),
    };
    match reply {
        None => Step::Call(NukeExt4SysfsCmd { path }),
        Some(answer) => Step::Done(to_path_result(answer.ret)),
    }
}

/// What to do about the list of mount points to unmount.
#[derive(Clone, Copy, Debug, PartialEq, Eq, Structural)]
pub enum UmountMode {
    Wipe,
    Add,
    Del,
}

/// A request about the list of mount points to unmount.
#[derive(Clone, Debug)]
pub struct AddTryUmountCmd {
    /// The mount point, with the 0 that ends it.
    pub path: Option<Vec<u8>>,
    pub flags: u32,
    pub mode: UmountMode,
}

/// What to do next about emptying the list of mount points to unmount.
pub open spec fn umount_wipe_step(reply: Option<Answer<AddTryUmountCmd>>) -> Step<
    AddTryUmountCmd,
    Result<(), OsError>,
> {
    match reply {
        None => Step::Call(AddTryUmountCmd { path: None, flags: 0, mode: UmountMode::Wipe }),
        Some(answer) => Step::Done(unit_result(answer.ret)),
    }
}

/// Takes all mount points off the list of those to unmount.
#[verifier::allow_in_spec]
pub fn umount_list_wipe(reply: Option<Answer<AddTryUmountCmd>>) -> (step: Step<
    AddTryUmountCmd,
    Result<(), OsError>,
>)
    ensures
        step == umount_wipe_step(reply),
    returns
        umount_wipe_step(reply),
{
    match reply {
        None => Step::Call(AddTryUmountCmd { path: None, flags: 0, mode: UmountMode::Wipe }),
        Some(answer) => Step::Done(to_unit_result(answer.ret)),
    }
}

/// How a mount point is put on the list of those to unmount, or taken off it.
pub open spec fn is_umount_step(
    path: Seq<char>,
    flags: u32,
    mode: UmountMode,
    reply: Option<Answer<AddTryUmountCmd>>,
    step: Step<AddTryUmountCmd, Result<(), PathCallError>>,
) -> bool {
    match (nul_position(path), reply) {
        (Some(i), _) => step matches Step::Done(Err(PathCallError::HoldsNul(k))) && k == i,
        (None, None) => {
            &&& step matches Step::Call(cmd)
            &&& cmd.path matches Some(bytes)
            &&& bytes@ == c_path(path)
            &&& cmd.flags == flags
            &&& cmd.mode == mode
        },
        (None, Some(answer)) => step == Step::<AddTryUmountCmd, Result<(), PathCallError>>::Done(
            path_result(answer.ret),
        ),
    }
}

fn umount_list_change(
    path: &str,
    flags: u32,
    mode: UmountMode,
    reply: Option<Answer<AddTryUmountCmd>>,
) -> (step: Step<AddTryUmountCmd, Result<(), PathCallError>>)
    ensures
        is_umount_step(path@, flags, mode, reply, step),
{
    let bytes = match path_bytes(path) {
        Ok(bytes) => bytes,
        Err(e) => return Step::Done(Err(e)),
    };
    match reply {
        None => Step::Call(AddTryUmountCmd { path: Some(bytes), flags, mode }),
        Some(answer) => Step::Done(to_path_result(answer.ret)),
    }
}

/// Puts a mount point on the list of those to unmount.
pub fn umount_list_add(path: &str, flags: u32, reply: Option<Answer<AddTryUmountCmd>>) -> (step:
    Step<AddTryUmountCmd, Result<(), PathCallError>>)
    ensures
        is_umount_step(path@, flags, UmountMode::Add, reply, step),
{
    umount_list_change(path, flags, UmountMode::Add, reply)
}

/// Takes a mount point off the list of those to unmount.
pub fn umount_list_del(path: &str, reply: Option<Answer<AddTryUmountCmd>>) -> (step: Step<
    AddTryUmountCmd,
    Result<(), PathCallError>,
>)
    ensures
        is_umount_step(path@, 0, UmountMode::Del, reply, step),
{
    umount_list_change(path, 0, UmountMode::Del, reply)
}

/// A request to join the process group of `init`.
#[derive(Clone, Copy, Debug, PartialEq, Eq, Structural)]
pub struct SetInitPgrpCmd {}

/// What to do next about joining the process group of `init`.
pub open spec fn init_pgrp_step(reply: Option<Answer<SetInitPgrpCmd>>) -> Step<
    SetInitPgrpCmd,
    Result<(), OsError>,
> {
    match reply {
        None => Step::Call(SetInitPgrpCmd {  }),
        Some(answer) => Step::Done(unit_result(answer.ret)),
    }
}

/// Puts this process into the process group of `init`.
#[verifier::allow_in_spec]
pub fn set_init_pgrp(reply: Option<Answer<SetInitPgrpCmd>>) -> (step: Step<
    SetInitPgrpCmd,
    Result<(), OsError>,
>)
    ensures
        step == init_pgrp_step(reply),
    returns
        init_pgrp_step(reply),
{
    match reply {
        None => Step::Call(SetInitPgrpCmd {  }),
        Some(answer) => Step::Done(to_unit_result(answer.ret)),
    }
}

/// A request to be barred from root.
#[derive(Clone, Copy, Debug, PartialEq, Eq, Structural)]
pub struct DisableEscapeToRootCmd {}

/// Why this process was not barred from root.
#[derive(Clone, Copy, Debug, PartialEq, Eq, Structural)]
pub enum NoNewPrivsError {
    /// The driver refused the call.
    Os(OsError),
    /// The driver returned a number that it should not.
    UnexpectedResult(i32),
}

impl NoNewPrivsError {
    /// What the error says, where it is not an error of the operating system.
    pub open spec fn text(self) -> Option<Seq<char>> {
        match self {
            NoNewPrivsError::Os(_) => None,
            NoNewPrivsError::UnexpectedResult(n) => Some(
                "unexpected result: "@ + number::signed_decimal(n as int),
            ),
        }
    }

    /// What the error says, where it is not an error of the operating system.
    pub fn message(&self) -> (r: Option<String>)
        ensures
            profile::optional_text(r) == self.text(),
    {
        match self {
            NoNewPrivsError::Os(_) => None,
            NoNewPrivsError::UnexpectedResult(n) => {
                let mut r = "unexpected result: ".to_string();
                r.append(number::format_i32(*n).as_str());
                Some(r)
            },
        }
    }
}

/// What to do next about being barred from root.
pub open spec fn no_new_privs_step(reply: Option<Answer<DisableEscapeToRootCmd>>) -> Step<
    DisableEscapeToRootCmd,
    Result<(), NoNewPrivsError>,
> {
    match reply {
        None => Step::Call(DisableEscapeToRootCmd {  }),
        Some(answer) => Step::Done(
            match answer.ret {
                Err(e) => Err(NoNewPrivsError::Os(e)),
                Ok(0) => Ok(()),
                Ok(n) => Err(NoNewPrivsError::UnexpectedResult(n)),
            },
        ),
    }
}

/// Bars this process from root.
#[verifier::allow_in_spec]
pub fn set_ksu_no_new_privs(reply: Option<Answer<DisableEscapeToRootCmd>>) -> (step: Step<
    DisableEscapeToRootCmd,
    Result<(), NoNewPrivsError>,
>)
    ensures
        step == no_new_privs_step(reply),
    returns
        no_new_privs_step(reply),
{
    match reply {
        None => Step::Call(DisableEscapeToRootCmd {  }),
        Some(answer) => Step::Done(
            match answer.ret {
                Err(e) => Err(NoNewPrivsError::Os(e)),
                Ok(n) => if n == 0 {
                    Ok(())
                } else {
                    Err(NoNewPrivsError::UnexpectedResult(n))
                },
            },
        ),
    }
}

/// A call succeeds where the driver did, and fails with the error of the driver.
pub proof fn law_results_are_those_of_the_driver(n: i32, e: OsError)
    ensures
        unit_result(Ok(n)) is Ok,
        unit_result(Err(e)) == Err::<(), OsError>(e),
        path_result(Ok(n)) is Ok,
        path_result(Err(e)) == Err::<(), PathCallError>(PathCallError::Os(e)),
{
}

/// What is made of a result changes nothing about the calls that lead to it.
pub proof fn law_calls_do_not_depend_on_what_is_made_of_them<C, T, U>(
    cmd: C,
    t: T,
    f: spec_fn(T) -> U,
)
    ensures
        then(Step::<C, T>::Call(cmd), f) == Step::<C, U>::Call(cmd),
        then(Step::<C, T>::Done(t), f) == Step::<C, U>::Done(f(t)),
{
}

/// The link of an open file is found by its number, however that is written.
pub proof fn law_links_are_found_by_number(name: Seq<char>, fd: i32)
    ensures
        fd_link(number::signed_decimal(fd as int)) == Some(
            "/proc/self/fd/"@ + number::signed_decimal(fd as int),
        ),
        number::signed(name) == Some(fd as int) ==> fd_link(name) == fd_link(
            number::signed_decimal(fd as int),
        ),
        number::signed(name) is None ==> fd_link(name) is None,
{
    number::law_signed_decimal_reads_back(fd as int);
}

/// Whether an entry is that of the driver, as the file descriptor `fd`.
pub open spec fn is_driver(entry: FdEntry, fd: int) -> bool {
    &&& -2147483648 <= fd <= 2147483647
    &&& number::signed(entry.name@) == Some(fd)
    &&& entry.target matches Some(target) && text::find(target@, "[ksu_driver]"@) is Some
}

/// The driver is the first open file that has a number and links to it, and
/// where there is none, none is found.
pub proof fn law_driver_is_the_first_that_links_to_it(entries: Seq<FdEntry>, k: int)
    requires
        0 <= k < entries.len(),
    ensures
        match first_driver_fd(entries) {
            Some(fd) => exists|i: int|
                {
                    &&& 0 <= i < entries.len()
                    &&& is_driver(#[trigger] entries[i], fd)
                    &&& forall|j: int, other: int|
                        0 <= j < i ==> !#[trigger] is_driver(entries[j], other)
                },
            None => forall|fd: int| !#[trigger] is_driver(entries[k], fd),
        },
    decreases entries.len(),
{
    let rest = entries.drop_first();
    if driver_fd_of(entries[0]) is Some {
        assert(is_driver(entries[0], first_driver_fd(entries)->0));
    } else {
        assert(forall|fd: int| !is_driver(entries[0], fd));
        if rest.len() > 0 {
            if k > 0 {
                law_driver_is_the_first_that_links_to_it(rest, k - 1);
                assert(rest[k - 1] == entries[k]);
            } else {
                law_driver_is_the_first_that_links_to_it(rest, 0);
            }
            if let Some(fd) = first_driver_fd(rest) {
                let i = choose|i: int|
                    {
                        &&& 0 <= i < rest.len()
                        &&& is_driver(#[trigger] rest[i], fd)
                        &&& forall|j: int, other: int|
                            0 <= j < i ==> !#[trigger] is_driver(rest[j], other)
                    };
                assert(is_driver(entries[i + 1], fd));
                assert forall|j: int, other: int| 0 <= j < i + 1 implies !#[trigger] is_driver(
                    entries[j],
                    other,
                ) by {
                    if j > 0 {
                        assert(entries[j] == rest[j - 1]);
                        assert(!is_driver(rest[j - 1], other));
                    }
                }
            }
        }
    }
}

/// A driver that is open is taken as it is; otherwise one is asked for, once, and
/// taken where its descriptor is not negative.
pub proof fn law_driver_is_installed_where_it_is_not_open(
    fd: i32,
    installed: Option<i32>,
    given: i32,
)
    ensures
        init_driver_fd(Some(fd), installed) == Step::<InstallFd, Option<i32>>::Done(Some(fd)),
        init_driver_fd(None, None) matches Step::Call(cmd) && cmd.fd < 0,
        init_driver_fd(None, Some(given)) matches Step::Done(r) && {
            &&& r == Some(given) <==> given >= 0
            &&& r is None <==> given < 0
        },
{
}

/// The driver that was found first is the one that every `ioctl` goes to, and -1
/// where none was found; the answer is an error exactly where it is negative.
pub proof fn law_ioctls_go_to_the_driver_that_was_found(
    driver: Driver,
    found: Option<i32>,
    later: Option<i32>,
    ret: i32,
    errno: i32,
)
    ensures
        driver.fd is None ==> ksuctl_step(driver, KsuctlEvent::Start) == KsuctlStep::FindDriver,
        ({
            let known = driver_after_event(driver, KsuctlEvent::DriverFd(found));
            let fd = match driver.fd {
                Some(fd) => fd,
                None => match found {
                    Some(fd) => fd,
                    None => -1i32,
                },
            };
            &&& ksuctl_step(driver, KsuctlEvent::DriverFd(found)) == (KsuctlStep::Ioctl { fd })
            &&& ksuctl_step(known, KsuctlEvent::Start) == (KsuctlStep::Ioctl { fd })
            &&& ksuctl_step(known, KsuctlEvent::DriverFd(later)) == (KsuctlStep::Ioctl { fd })
            &&& driver_after_event(known, KsuctlEvent::DriverFd(later)) == known
            &&& known.info == driver.info
        }),
        driver_after_event(driver, KsuctlEvent::Start) == driver,
        driver_after_event(driver, KsuctlEvent::Returned { ret, errno }) == driver,
        ksuctl_step(driver, KsuctlEvent::Returned { ret, errno }) matches KsuctlStep::Done(r) && {
            &&& ret >= 0 ==> r == Ok::<i32, OsError>(ret)
            &&& ret < 0 ==> (r matches Err(e) && e.code == errno)
        },
{
}

/// The driver is first asked in the present form with an empty block. What it
/// writes there is what is known from then on; where it refuses, it is asked in
/// the old form with the block as it was left, and what that leaves is known.
pub proof fn law_info_is_what_the_driver_wrote(
    driver: Driver,
    cmd: GetInfoCmd,
    n: i32,
    e: OsError,
    ret: Result<i32, OsError>,
)
    requires
        driver.info is None,
    ensures
        info_step(None, None) matches Step::Call(call) && !call.legacy && call.cmd.version == 0
            && call.cmd.flags == 0 && call.cmd.features == 0 && call.cmd.uapi_version == 0,
        info_step(
            None,
            Some(Answer { ret: Ok(n), cmd: InfoCall { legacy: false, cmd } }),
        ) == Step::<InfoCall, GetInfoCmd>::Done(cmd),
        info_step(
            None,
            Some(Answer { ret: Err(e), cmd: InfoCall { legacy: false, cmd } }),
        ) == Step::<InfoCall, GetInfoCmd>::Call(InfoCall { legacy: true, cmd }),
        info_step(None, Some(Answer { ret, cmd: InfoCall { legacy: true, cmd } })) == Step::<
            InfoCall,
            GetInfoCmd,
        >::Done(cmd),
        driver_after_info(
            driver,
            Some(Answer { ret, cmd: InfoCall { legacy: true, cmd } }),
        ).info == Some(cmd),
        driver_after_info(
            driver,
            Some(Answer { ret: Ok(n), cmd: InfoCall { legacy: false, cmd } }),
        ).info == Some(cmd),
        driver_after_info(driver, None) == driver,
        forall|reply: Option<Answer<InfoCall>>| #[trigger]
            driver_after_info(driver, reply).fd == driver.fd,
{
}

/// What the driver says of itself is taken bit by bit: its version modulo 2 to
/// the 32, one flag for a late start, and the version of the interface as it is.
pub proof fn law_info_is_taken_bit_by_bit(uapi: Uapi, info: GetInfoCmd)
    ensures
        profile::wrapped_u32(version_of(info)) == info.version,
        loaded_late(uapi, info) <==> info.flags & uapi.late_load_flag != 0,
        speaks_another_version(uapi, info) <==> info.uapi_version != uapi.uapi_version,
{
}

/// A call without an argument is made once, and then its result is that of the
/// driver.
pub proof fn law_plain_calls_are_made_once(
    root: Answer<GrantRootCmd>,
    group: Answer<SetInitPgrpCmd>,
    report: Answer<ReportEventCmd>,
    event: BootEvent,
)
    ensures
        grant_root(None) is Call,
        grant_root(Some(root)) matches Step::Done(r) && match root.ret {
            Ok(_) => r is Ok,
            Err(e) => r == Err::<(), OsError>(e),
        },
        set_init_pgrp(None) is Call,
        set_init_pgrp(Some(group)) matches Step::Done(r) && match group.ret {
            Ok(_) => r is Ok,
            Err(e) => r == Err::<(), OsError>(e),
        },
        report_event(event, None) matches Step::Call(cmd) && cmd.event == event,
        report_event(event, Some(report)) is Done,
        report_post_fs_data(None) matches Step::Call(cmd) && cmd.event == BootEvent::PostFsData,
        report_boot_complete(None) matches Step::Call(cmd) && cmd.event
            == BootEvent::BootCompleted,
        report_module_mounted(None) matches Step::Call(cmd) && cmd.event
            == BootEvent::ModuleMounted,
        report_post_fs_data(Some(report)) is Done,
        report_boot_complete(Some(report)) is Done,
        report_module_mounted(Some(report)) is Done,
{
}

/// A process is barred from root where the driver returned 0; any other number is
/// an error that names it.
pub proof fn law_only_zero_bars_from_root(answer: Answer<DisableEscapeToRootCmd>, n: i32)
    ensures
        set_ksu_no_new_privs(None) is Call,
        set_ksu_no_new_privs(Some(answer)) matches Step::Done(r) && {
            &&& r is Ok <==> answer.ret == Ok::<i32, OsError>(0)
            &&& answer.ret matches Err(e) ==> r == Err::<(), NoNewPrivsError>(
                NoNewPrivsError::Os(e),
            )
            &&& answer.ret matches Ok(m) ==> (m != 0 ==> r == Err::<(), NoNewPrivsError>(
                NoNewPrivsError::UnexpectedResult(m),
            ))
        },
        NoNewPrivsError::UnexpectedResult(n).text() == Some(
            "unexpected result: "@ + number::signed_decimal(n as int),
        ),
{
}

/// The kernel is in safe mode where its block says so with anything but 0, and
/// modules are unmounted for a user likewise; the user is the one asked about.
/// Whether the question succeeded makes no difference.
pub proof fn law_questions_are_answered_by_the_block(
    mode: Answer<CheckSafemodeCmd>,
    uid: u32,
    umount: Answer<UidShouldUmountCmd>,
)
    ensures
        check_kernel_safemode(None) matches Step::Call(cmd) && cmd.in_safe_mode == 0,
        check_kernel_safemode(Some(mode)) == Step::<CheckSafemodeCmd, bool>::Done(
            mode.cmd.in_safe_mode != 0,
        ),
        uid_should_umount(uid, None) matches Step::Call(cmd) && cmd.uid == uid
            && cmd.should_umount == 0,
        uid_should_umount(uid, Some(umount)) == Step::<UidShouldUmountCmd, bool>::Done(
            umount.cmd.should_umount != 0,
        ),
{
}

/// The number of users is what the block counts, of those that may or of those
/// that may not become root, as was asked.
pub proof fn law_users_are_counted_by_the_block(
    allow: bool,
    answer: Answer<GetAllowListCmd>,
    step: Step<GetAllowListCmd, u32>,
)
    ensures
        is_allow_list_step(allow, None, step) ==> (step matches Step::Call(cmd) && (cmd.allow
            == if allow {
            1u8
        } else {
            0u8
        }) && cmd.count == 0 && forall|i: int| 0 <= i < 128 ==> #[trigger] cmd.uids@[i] == 0),
        is_allow_list_step(allow, Some(answer), step) ==> (step matches Step::Done(n) && n
            == answer.cmd.count),
{
}

/// The rules are handed over by their address and their length, and the result is
/// that of the driver.
pub proof fn law_rules_are_handed_over(payload: u64, len: u64, answer: Answer<SetSepolicyCmd>)
    ensures
        set_sepolicy(payload, len, None) matches Step::Call(cmd) && cmd.data == payload
            && cmd.data_len == len,
        set_sepolicy(payload, len, Some(answer)) == Step::<
            SetSepolicyCmd,
            Result<i32, OsError>,
        >::Done(answer.ret),
{
}

/// The value that a feature is set to is the one that is read of it, where the
/// driver gives back what it was handed; and it is supported where the driver
/// says so with anything but 0.
pub proof fn law_feature_reads_back(
    id: u32,
    value: u64,
    set: Answer<SetFeatureCmd>,
    got: Answer<GetFeatureCmd>,
)
    ensures
        set_feature(id, value, None) matches Step::Call(cmd) && cmd.feature_id == id
            && cmd.value == value,
        get_feature(id, None) matches Step::Call(cmd) && cmd.feature_id == id && cmd.value
            == 0 && cmd.supported == 0,
        set_feature(id, value, Some(set)) matches Step::Done(r) && match set.ret {
            Ok(_) => r is Ok,
            Err(e) => r == Err::<(), OsError>(e),
        },
        get_feature(id, Some(got)) matches Step::Done(r) && match got.ret {
            Ok(_) => r matches Ok((read, supported)) && read == got.cmd.value && (supported
                <==> got.cmd.supported != 0),
            Err(e) => r == Err::<(u64, bool), OsError>(e),
        },
{
}

/// A descriptor that is asked for is the one that the driver returns; a descriptor
/// that is wrapped is handed over with its 32 bits.
pub proof fn law_descriptors_are_those_of_the_driver(
    request: Answer<GetSuRequestFdCmd>,
    log: Answer<GetSulogFdCmd>,
    fd: i32,
    wrapper: Answer<GetWrapperFdCmd>,
)
    ensures
        get_su_request_fd(None) matches Step::Call(cmd) && cmd.flags == 0,
        get_su_request_fd(Some(request)) == Step::<
            GetSuRequestFdCmd,
            Result<i32, OsError>,
        >::Done(request.ret),
        get_sulog_fd(None) matches Step::Call(cmd) && cmd.flags == 0,
        get_sulog_fd(Some(log)) == Step::<GetSulogFdCmd, Result<i32, OsError>>::Done(log.ret),
        get_wrapped_fd(fd, None) matches Step::Call(cmd) && profile::wrapped_i32(cmd.fd) == fd
            && cmd.flags == 0,
        get_wrapped_fd(fd, Some(wrapper)) == Step::<GetWrapperFdCmd, Result<i32, OsError>>::Done(
            wrapper.ret,
        ),
{
}

/// A request for root is answered under its id, with 1 where it is allowed and 0
/// where it is denied.
pub proof fn law_requests_are_answered_under_their_id(
    request_id: u64,
    allow: bool,
    answer: Answer<RespondSuRequestCmd>,
)
    ensures
        respond_su_request(request_id, allow, None) matches Step::Call(cmd) && cmd.request_id
            == request_id && (allow ==> cmd.allow == 1) && (!allow ==> cmd.allow == 0),
        respond_su_request(request_id, allow, Some(answer)) matches Step::Done(r)
            && match answer.ret {
            Ok(_) => r is Ok,
            Err(e) => r == Err::<(), OsError>(e),
        },
{
}

/// Marks are asked for and changed by the process that was given, and a mark is
/// what the block holds.
pub proof fn law_marks_are_those_of_the_process(pid: i32, answer: Answer<ManageMarkCmd>)
    ensures
        mark_get(pid, None) matches Step::Call(cmd) && cmd.operation == MarkOperation::Get
            && cmd.pid == pid && cmd.result == 0,
        mark_get(pid, Some(answer)) matches Step::Done(r) && match answer.ret {
            Ok(_) => r == Ok::<u32, OsError>(answer.cmd.result),
            Err(e) => r == Err::<u32, OsError>(e),
        },
        mark_set(pid, None) matches Step::Call(cmd) && cmd.operation == MarkOperation::Mark
            && cmd.pid == pid && cmd.result == 0,
        mark_unset(pid, None) matches Step::Call(cmd) && cmd.operation == MarkOperation::Unmark
            && cmd.pid == pid && cmd.result == 0,
        mark_refresh(None) matches Step::Call(cmd) && cmd.operation == MarkOperation::Refresh
            && cmd.pid == 0 && cmd.result == 0,
        mark_set(pid, Some(answer)) matches Step::Done(r) && match answer.ret {
            Ok(_) => r is Ok,
            Err(e) => r == Err::<(), OsError>(e),
        },
        mark_unset(pid, Some(answer)) == mark_set(pid, Some(answer)),
        mark_refresh(Some(answer)) == mark_set(pid, Some(answer)),
{
}

/// A path is handed over with a 0 behind it exactly where it holds none, and is
/// otherwise refused with the place of the first.
pub proof fn law_paths_hold_no_nul(path: Seq<char>, i: int)
    ensures
        nul_position(path) is None <==> !encode_utf8(path).contains(0),
        nul_position(path) matches Some(k) ==> {
            &&& 0 <= k < encode_utf8(path).len()
            &&& encode_utf8(path)[k] == 0
            &&& 0 <= i < k ==> encode_utf8(path)[i] != 0
        },
        c_path(path).len() == encode_utf8(path).len() + 1,
        c_path(path).last() == 0,
        c_path(path).drop_last() == encode_utf8(path),
{
    let bytes = encode_utf8(path);
    let pat = seq![0u8];
    text::lemma_find_from(bytes, pat, 0);
    if let Some(k) = nul_position(path) {
        assert(bytes.subrange(k, k + 1)[0] == 0);
        assert(bytes[k] == 0);
        if 0 <= i < k && bytes[i] == 0 {
            assert(bytes.subrange(i, i + 1) =~= pat);
            assert(text::occurs_at(bytes, pat, i));
        }
    } else if bytes.contains(0) {
        let k = choose|k: int| 0 <= k < bytes.len() && bytes[k] == 0;
        assert(bytes.subrange(k, k + 1) =~= pat);
        assert(text::occurs_at(bytes, pat, k));
    }
    assert(c_path(path).drop_last() =~= bytes);
}

/// A mount point is put on the list, taken off it, or taken out of `sysfs` by its
/// own path, with the flags that were given; emptying the list needs no path.
pub proof fn law_mount_points_are_named_by_their_path(
    path: Seq<char>,
    flags: u32,
    mode: UmountMode,
    list: Step<AddTryUmountCmd, Result<(), PathCallError>>,
    nuke: Step<NukeExt4SysfsCmd, Result<(), PathCallError>>,
    wiped: Answer<AddTryUmountCmd>,
)
    requires
        !encode_utf8(path).contains(0),
    ensures
        is_umount_step(path, flags, mode, None, list) ==> (list matches Step::Call(cmd)
            && cmd.path is Some && cmd.path->0@ == encode_utf8(path).push(0) && cmd.flags == flags
            && cmd.mode == mode),
        is_umount_step(path, flags, mode, Some(wiped), list) ==> (list matches Step::Done(r)
            && match wiped.ret {
            Ok(_) => r is Ok,
            Err(e) => r == Err::<(), PathCallError>(PathCallError::Os(e)),
        }),
        is_nuke_step(path, None, nuke) ==> (nuke matches Step::Call(cmd) && cmd.path@
            == encode_utf8(path).push(0)),
        umount_list_wipe(None) matches Step::Call(cmd) && cmd.path is None && cmd.flags == 0
            && cmd.mode == UmountMode::Wipe,
        umount_list_wipe(Some(wiped)) matches Step::Done(r) && match wiped.ret {
            Ok(_) => r is Ok,
            Err(e) => r == Err::<(), OsError>(e),
        },
{
    law_paths_hold_no_nul(path, 0);
}

/// A path with a 0 in it leads to no call.
pub proof fn law_paths_with_nul_are_refused(
    path: Seq<char>,
    flags: u32,
    mode: UmountMode,
    reply: Option<Answer<AddTryUmountCmd>>,
    list: Step<AddTryUmountCmd, Result<(), PathCallError>>,
    nuke_reply: Option<Answer<NukeExt4SysfsCmd>>,
    nuke: Step<NukeExt4SysfsCmd, Result<(), PathCallError>>,
)
    requires
        encode_utf8(path).contains(0),
    ensures
        is_umount_step(path, flags, mode, reply, list) ==> (list matches Step::Done(Err(e)) && e
            is HoldsNul),
        is_nuke_step(path, nuke_reply, nuke) ==> (nuke matches Step::Done(Err(e)) && e
            is HoldsNul),
{
    law_paths_hold_no_nul(path, 0);
}

/// The entry of a file system is taken out of `sysfs` where the driver does it.
pub proof fn law_nuke_succeeds_where_the_driver_does(
    path: Seq<char>,
    answer: Answer<NukeExt4SysfsCmd>,
    step: Step<NukeExt4SysfsCmd, Result<(), PathCallError>>,
)
    requires
        !encode_utf8(path).contains(0),
        is_nuke_step(path, Some(answer), step),
    ensures
        step matches Step::Done(r) && match answer.ret {
            Ok(_) => r is Ok,
            Err(e) => r == Err::<(), PathCallError>(PathCallError::Os(e)),
        },
{
    law_paths_hold_no_nul(path, 0);
}

/// A profile is asked for by its key and its user, in a block of the version of
/// the interface that says nothing else; and not where the key cannot be one or
/// the user is too large a number.
pub proof fn law_profile_is_asked_for_by_key_and_user(uapi: Uapi, key: Seq<char>, uid: u32)
    ensures
        query_block(uapi, key, uid).version == uapi.app_profile_ver,
        query_block(uapi, key, uid).key == profile::c_string(key, uapi.key_len as nat),
        uid <= 2147483647 ==> query_block(uapi, key, uid).curr_uid == uid,
        query_block(uapi, key, uid).config matches profile::RawConfigView::NonRoot(c)
            && !c.use_default && !c.umount_modules,
        query_error(uapi, key, uid) is None <==> {
            &&& profile::key_error(uapi, key) is None
            &&& profile::c_string_error(key, uapi.key_len as nat) is None
            &&& uid <= 2147483647
        },
        profile::key_error(uapi, key) matches Some(e) ==> query_error(uapi, key, uid) == Some(e),
        profile::key_error(uapi, key) is None ==> (profile::c_string_error(
            key,
            uapi.key_len as nat,
        ) matches Some(e) ==> query_error(uapi, key, uid) == Some(e)),
        profile::key_error(uapi, key) is None && profile::c_string_error(
            key,
            uapi.key_len as nat,
        ) is None && uid > 2147483647 ==> query_error(uapi, key, uid) == Some(
            ProfileError::UidTooLarge,
        ),
{
}

/// Where the driver answers a query with an error, no profile is set: what is
/// given has the key and the user that were asked for, allows no root, and is
/// the default one in everything else. Where it answers with a block, the profile
/// in that block is given, and one is set.
pub proof fn law_app_without_a_profile_has_the_default_one(
    uapi: Uapi,
    key: Seq<char>,
    uid: u32,
    refused: Answer<GetAppProfileCmd>,
    given: Answer<GetAppProfileCmd>,
)
    requires
        refused.ret is Err,
        given.ret is Ok,
    ensures
        ({
            let (p, set) = queried_profile(uapi, key, uid, refused);
            &&& !set
            &&& p.name == key
            &&& profile::wrapped_u32(p.current_uid) == uid
            &&& !p.allow_su
            &&& p.root_use_default
            &&& p.root_template is None
            &&& p.uid == 0 && p.gid == 0 && p.namespace == 0 && p.flags == 1
            &&& p.groups.len() == 0 && p.capabilities.len() == 0 && p.rules.len() == 0
            &&& p.context == "u:r:ksu:s0"@
            &&& p.non_root_use_default
            &&& p.umount_modules
        }),
        ({
            let (p, set) = queried_profile(uapi, key, uid, given);
            &&& set
            &&& p == profile::profile_of(uapi, given.cmd.profile@)
            &&& p.allow_su <==> given.cmd.profile.config is Root
            &&& p.current_uid == given.cmd.profile.curr_uid
        }),
{
    profile::law_default_profile_allows_nothing(key, uid);
    profile::law_profile_has_the_name_and_user_of_its_block(uapi, given.cmd.profile@);
}

/// A query that cannot be made is refused without a call; any other is one call,
/// and then gives a profile and whether it is set.
pub proof fn law_query_is_one_call(
    uapi: Uapi,
    key: Seq<char>,
    uid: u32,
    answer: Answer<GetAppProfileCmd>,
    first: Step<GetAppProfileCmd, Result<(AppProfile, bool), ProfileError>>,
    last: Step<GetAppProfileCmd, Result<(AppProfile, bool), ProfileError>>,
)
    requires
        is_get_profile_step(uapi, key, uid, None, first),
        is_get_profile_step(uapi, key, uid, Some(answer), last),
    ensures
        query_error(uapi, key, uid) matches Some(e) ==> (first matches Step::Done(Err(f)) && f
            == e),
        query_error(uapi, key, uid) is None ==> {
            &&& first matches Step::Call(cmd) && cmd.profile.curr_uid == uid
                && cmd.profile.version == uapi.app_profile_ver && cmd.profile.key@
                == profile::c_string(key, uapi.key_len as nat)
            &&& last matches Step::Done(Ok((p, set))) && (set <==> answer.ret is Ok) && (
            answer.ret is Err ==> !p.allow_su && p.name@ == key && p.umount_modules)
        },
{
    if query_error(uapi, key, uid) is None && answer.ret is Err {
        profile::law_default_profile_allows_nothing(key, uid);
    }
}

/// A profile is set by one call with its block, and not at all where it cannot be
/// handed over; it is set where the driver took the block.
pub proof fn law_profile_is_set_by_one_call(
    uapi: Uapi,
    p: profile::ProfileView,
    answer: Answer<SetAppProfileCmd>,
    first: Step<SetAppProfileCmd, Result<(), ProfileError>>,
    last: Step<SetAppProfileCmd, Result<(), ProfileError>>,
)
    requires
        is_set_profile_step(uapi, p, None, first),
        is_set_profile_step(uapi, p, Some(answer), last),
    ensures
        profile::profile_error(uapi, p) matches Some(e) ==> (first matches Step::Done(Err(f)) && f
            == e),
        profile::profile_error(uapi, p) is None ==> {
            &&& first matches Step::Call(cmd) && {
                &&& cmd.profile.version == uapi.app_profile_ver
                &&& cmd.profile.curr_uid == p.current_uid
                &&& cmd.profile.config is Root <==> p.allow_su
                &&& profile::profile_of(uapi, cmd.profile@) == profile::kept_of(p)
            }
            &&& last matches Step::Done(r) && match answer.ret {
                Ok(_) => r is Ok,
                Err(e) => r == Err::<(), ProfileError>(ProfileError::CallFailed(e)),
            }
        },
{
    if profile::profile_error(uapi, p) is None {
        profile::law_profile_reads_back(uapi, p);
        profile::law_block_carries_version_key_and_user(uapi, p);
        assert(first->Call_0.profile@ == profile::raw_of(uapi, p));
        assert(first->Call_0.profile@.config is Root <==> first->Call_0.profile.config is Root);
    }
}

/// What is set for apps of which nothing has been set is kept under the key `$`
/// and the user 9999, and differs from the default in the one setting; an app
/// that is let to become root differs from the default in that alone.
pub proof fn law_special_profiles_differ_in_one_setting(
    umount_modules: bool,
    key: Seq<char>,
    uid: u32,
    allow: bool,
)
    ensures
        default_umount_profile(umount_modules).name == "$"@,
        default_umount_profile(umount_modules).current_uid == 9999,
        default_umount_profile(umount_modules).umount_modules == umount_modules,
        default_umount_profile(umount_modules) == (profile::ProfileView {
            umount_modules,
            ..profile::default_profile("$"@, 9999)
        }),
        allow_su_profile(key, uid, allow).name == key,
        allow_su_profile(key, uid, allow).allow_su == allow,
        allow_su_profile(key, uid, allow).root_use_default,
        profile::wrapped_u32(allow_su_profile(key, uid, allow).current_uid) == uid,
        allow_su_profile(key, uid, allow) == (profile::ProfileView {
            allow_su: allow,
            ..profile::default_profile(key, uid)
        }),
{
}

/// Whether modules are unmounted for apps of which nothing has been set is asked
/// of that profile, and is so where no profile is set.
pub proof fn law_unmounting_is_the_default(
    uapi: Uapi,
    answer: Answer<GetAppProfileCmd>,
    first: Step<GetAppProfileCmd, Result<bool, ProfileError>>,
    last: Step<GetAppProfileCmd, Result<bool, ProfileError>>,
)
    requires
        query_error(uapi, "$"@, 9999) is None,
        is_default_umount_step(uapi, None, first),
        is_default_umount_step(uapi, Some(answer), last),
    ensures
        first matches Step::Call(cmd) && cmd.profile.curr_uid == 9999 && cmd.profile.key@
            == profile::c_string("$"@, uapi.key_len as nat) && cmd.profile.version
            == uapi.app_profile_ver,
        last matches Step::Done(Ok(umount)) && match answer.ret {
            Err(_) => umount,
            Ok(_) => match answer.cmd.profile.config {
                RawConfig::NonRoot(c) => umount == c.umount_modules,
                RawConfig::Root(_) => umount,
            },
        },
{
}

} // verus!
