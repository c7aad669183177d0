//! App profiles, and the block in which the kernel takes them.
use crate::ksucalls::OsError;
use crate::{bytes, number};
use vstd::prelude::*;
use vstd::utf8::*;

verus! {

/// The numbers of the kernel's interface that its callers depend on.
#[derive(Clone, Copy, Debug, PartialEq, Eq, Structural)]
pub struct Uapi {
    /// The version of the interface.
    pub uapi_version: u32,
    /// The flag of the driver's info that says that it was loaded late.
    pub late_load_flag: u32,
    /// The version of the profile block.
    pub app_profile_ver: u32,
    /// A profile key is shorter than this.
    pub max_package_name: u32,
    /// The most groups a profile has, and the length of its group array.
    pub max_groups: u32,
    /// The length of the profile key's array.
    pub key_len: usize,
    /// The length of the template name's array.
    pub template_name_len: usize,
    /// The length of the SELinux domain's array.
    pub selinux_domain_len: usize,
}

/// Why a profile cannot be handed to the kernel.
#[derive(Clone, Copy, Debug, PartialEq, Eq, Structural)]
pub enum ProfileError {
    KeyEmpty,
    KeyTooLong,
    KeyHoldsNul,
    StringTooLong,
    StringHoldsNul,
    TooManyGroups,
    InvalidCapability(i32),
    UidTooLarge,
    /// The driver refused the call.
    CallFailed(OsError),
}

impl ProfileError {
    /// What the error says of the profile with the key `key`.
    pub open spec fn text(self, key: Seq<char>) -> Seq<char> {
        match self {
            ProfileError::KeyEmpty => "profile key is empty"@,
            ProfileError::KeyTooLong => "profile key too long: "@ + key,
            ProfileError::KeyHoldsNul => "profile key contains nul byte"@,
            ProfileError::StringTooLong => "string too long"@,
            ProfileError::StringHoldsNul => "string contains nul byte"@,
            ProfileError::TooManyGroups => "too many groups"@,
            ProfileError::InvalidCapability(cap) => "invalid capability: "@
                + number::signed_decimal(cap as int),
            ProfileError::UidTooLarge => "uid overflows i32"@,
            ProfileError::CallFailed(_) => "set app profile ioctl failed"@,
        }
    }

    /// What the error says of the profile with the key `key`.
    pub fn message(&self, key: &str) -> (r: String)
        ensures
            r@ == self.text(key@),
    {
        match self {
            ProfileError::KeyEmpty => "profile key is empty".to_string(),
            ProfileError::KeyTooLong => {
                let mut r = "profile key too long: ".to_string();
                r.append(key);
                r
            },
            ProfileError::KeyHoldsNul => "profile key contains nul byte".to_string(),
            ProfileError::StringTooLong => "string too long".to_string(),
            ProfileError::StringHoldsNul => "string contains nul byte".to_string(),
            ProfileError::TooManyGroups => "too many groups".to_string(),
            ProfileError::InvalidCapability(cap) => {
                let mut r = "invalid capability: ".to_string();
                r.append(number::format_i32(*cap).as_str());
                r
            },
            ProfileError::UidTooLarge => "uid overflows i32".to_string(),
            ProfileError::CallFailed(_) => "set app profile ioctl failed".to_string(),
        }
    }
}

/// The SELinux domain of processes with root.
pub const KERNEL_SU_DOMAIN: &'static str = "u:r:ksu:s0";

/// The flag of a profile that bars processes from further privileges.
pub const FLAG_KSU_NO_NEW_PRIVS: u64 = 1;

/// What an app may do.
#[derive(Debug, Clone)]
pub struct AppProfile {
    pub name: String,
    pub current_uid: i32,
    pub allow_su: bool,
    pub root_use_default: bool,
    pub root_template: Option<String>,
    pub uid: i32,
    pub gid: i32,
    pub groups: Vec<i32>,
    pub capabilities: Vec<i32>,
    pub context: String,
    pub namespace: i32,
    pub non_root_use_default: bool,
    pub umount_modules: bool,
    pub rules: String,
    pub flags: u64,
}

/// What an `AppProfile` holds.
pub struct ProfileView {
    pub name: Seq<char>,
    pub current_uid: i32,
    pub allow_su: bool,
    pub root_use_default: bool,
    pub root_template: Option<Seq<char>>,
    pub uid: i32,
    pub gid: i32,
    pub groups: Seq<i32>,
    pub capabilities: Seq<i32>,
    pub context: Seq<char>,
    pub namespace: i32,
    pub non_root_use_default: bool,
    pub umount_modules: bool,
    pub rules: Seq<char>,
    pub flags: u64,
}

/// The text of an optional string.
pub open spec fn optional_text(s: Option<String>) -> Option<Seq<char>> {
    match s {
        Some(s) => Some(s@),
        None => None,
    }
}

impl View for AppProfile {
    type V = ProfileView;

    open spec fn view(&self) -> ProfileView {
        ProfileView {
            name: self.name@,
            current_uid: self.current_uid,
            allow_su: self.allow_su,
            root_use_default: self.root_use_default,
            root_template: optional_text(self.root_template),
            uid: self.uid,
            gid: self.gid,
            groups: self.groups@,
            capabilities: self.capabilities@,
            context: self.context@,
            namespace: self.namespace,
            non_root_use_default: self.non_root_use_default,
            umount_modules: self.umount_modules,
            rules: self.rules@,
            flags: self.flags,
        }
    }
}

/// The 32 bits of `n` taken as a number with a sign.
pub open spec fn wrapped_i32(n: u32) -> int {
    if n <= i32::MAX {
        n as int
    } else {
        n - 0x1_0000_0000
    }
}

/// The 32 bits of `n` taken as a number without a sign.
pub open spec fn wrapped_u32(n: i32) -> int {
    if n >= 0 {
        n as int
    } else {
        n + 0x1_0000_0000
    }
}

/// Takes the 32 bits of `n` as a number with a sign.
#[verifier::allow_in_spec]
pub fn as_i32(n: u32) -> (r: i32)
    ensures
        r == wrapped_i32(n),
    returns
        wrapped_i32(n) as i32,
{
    assert(n <= 0x7fff_ffff ==> #[verifier::truncate] (n as i32) == n) by (bit_vector);
    assert(n > 0x7fff_ffff ==> #[verifier::truncate] (n as i32) == n - 0x1_0000_0000)
        by (bit_vector);
    #[verifier::truncate] (n as i32)
}

/// Takes the 32 bits of `n` as a number without a sign.
#[verifier::allow_in_spec]
pub fn as_u32(n: i32) -> (r: u32)
    ensures
        r == wrapped_u32(n),
    returns
        wrapped_u32(n) as u32,
{
    assert(n >= 0 ==> #[verifier::truncate] (n as u32) == n) by (bit_vector);
    assert(n < 0 ==> #[verifier::truncate] (n as u32) == n + 0x1_0000_0000) by (bit_vector);
    #[verifier::truncate] (n as u32)
}

/// The profile of an app of which nothing has been set.
pub open spec fn default_profile(name: Seq<char>, uid: u32) -> ProfileView {
    ProfileView {
        name,
        current_uid: wrapped_i32(uid) as i32,
        allow_su: false,
        root_use_default: true,
        root_template: None,
        uid: 0,
        gid: 0,
        groups: seq![],
        capabilities: seq![],
        context: KERNEL_SU_DOMAIN@,
        namespace: 0,
        non_root_use_default: true,
        umount_modules: true,
        rules: seq![],
        flags: FLAG_KSU_NO_NEW_PRIVS,
    }
}

/// Whether a profile says something other than the default one.
pub open spec fn is_custom(p: ProfileView) -> bool {
    if p.allow_su {
        !p.root_use_default
    } else {
        !p.non_root_use_default
    }
}

/// The profile of an app of which nothing has been set is not a custom one,
/// whether or not the app is then let to become root.
pub proof fn law_default_is_not_custom(name: Seq<char>, uid: u32, allow_su: bool)
    ensures
        !is_custom((ProfileView { allow_su, ..default_profile(name, uid) })),
{
}

impl AppProfile {
    /// The profile of an app of which nothing has been set.
    #[must_use]
    pub fn default_for(name: &str, uid: u32) -> (r: Self)
        ensures
            r@ == default_profile(name@, uid),
    {
        AppProfile {
            name: name.to_string(),
            current_uid: as_i32(uid),
            allow_su: false,
            root_use_default: true,
            root_template: None,
            uid: 0,
            gid: 0,
            groups: Vec::new(),
            capabilities: Vec::new(),
            context: KERNEL_SU_DOMAIN.to_string(),
            namespace: 0,
            non_root_use_default: true,
            umount_modules: true,
            rules: String::new(),
            flags: FLAG_KSU_NO_NEW_PRIVS,
        }
    }

    /// Whether the part of the profile that is in force differs from the
    /// default one.
    #[must_use]
    #[verifier::allow_in_spec]
    pub fn has_custom_profile(&self) -> (r: bool)
        ensures
            r == is_custom(self@),
        returns
            is_custom(self@),
    {
        if self.allow_su {
            !self.root_use_default
        } else {
            !self.non_root_use_default
        }
    }
}

/// Why text cannot stand in an array of `n` bytes that a 0 ends.
pub open spec fn c_string_error(text: Seq<char>, n: nat) -> Option<ProfileError> {
    if encode_utf8(text).len() >= n {
        Some(ProfileError::StringTooLong)
    } else if encode_utf8(text).contains(0) {
        Some(ProfileError::StringHoldsNul)
    } else {
        None
    }
}

/// Text in an array of `n` bytes, the rest of which is 0.
pub open spec fn c_string(text: Seq<char>, n: nat) -> Seq<u8> {
    let bytes = encode_utf8(text);
    Seq::new(
        n,
        |i: int|
            if i < bytes.len() {
                bytes[i]
            } else {
                0
            },
    )
}

/// Whether one of the bytes is 0.
fn holds_nul(bytes: &[u8]) -> (r: bool)
    ensures
        r == bytes@.contains(0),
{
    for i in 0..bytes.len()
        invariant
            forall|j: int| 0 <= j < i ==> bytes@[j] != 0,
    {
        if bytes[i] == 0 {
            return true;
        }
    }
    false
}

/// Puts text into an array that a 0 ends.
pub fn write_c_string(dst: &mut [u8], value: &str) -> (r: Result<(), ProfileError>)
    ensures
        final(dst)@.len() == old(dst)@.len(),
        match c_string_error(value@, old(dst)@.len()) {
            Some(e) => r == Err::<(), ProfileError>(e) && final(dst)@ == old(dst)@,
            None => r is Ok && final(dst)@ == c_string(value@, old(dst)@.len()),
        },
{
    let bytes = value.as_bytes();
    let n = dst.len();
    if bytes.len() >= n {
        return Err(ProfileError::StringTooLong);
    }
    if holds_nul(bytes) {
        return Err(ProfileError::StringHoldsNul);
    }
    let ghost before = dst@;
    for i in 0..n
        invariant
            n == before.len(),
            dst@.len() == n,
            bytes@ == encode_utf8(value@),
            forall|j: int| 0 <= j < i ==> dst@[j] == #[trigger] c_string(value@, n as nat)[j],
    {
        dst[i] =
        if i < bytes.len() {
            bytes[i]
        } else {
            0
        };
    }
    assert(dst@ =~= c_string(value@, n as nat));
    Ok(())
}

/// Takes the text out of an array that a 0 ends.
pub fn read_c_string(src: &[u8]) -> (r: String)
    ensures
        r@ == bytes::text_of(bytes::until_nul(src@)),
{
    bytes::string_from_nul(src)
}

/// What is put into an array is what is taken out of it.
pub proof fn law_c_string_reads_back(text: Seq<char>, n: nat)
    requires
        c_string_error(text, n) is None,
    ensures
        bytes::text_of(bytes::until_nul(c_string(text, n))) == text,
{
    let b = encode_utf8(text);
    let s = c_string(text, n);
    assert forall|j: int| 0 <= j < b.len() implies s[j] != 0 by {
        assert(!b.contains(0));
        assert(b.contains(b[j]));
    }
    bytes::lemma_until_nul(s, b.len() as int);
    assert(s.take(b.len() as int) =~= b);
    encode_utf8_valid_utf8(text);
    encode_utf8_decode_utf8(text);
}

/// Whether `bits` hold capability number `cap`.
pub open spec fn has_cap(bits: u64, cap: int) -> bool {
    bits & (1u64 << (cap as u64)) != 0
}

/// The capabilities below `n` that `bits` hold, in ascending order.
pub open spec fn caps_below(bits: u64, n: nat) -> Seq<i32>
    decreases n,
{
    if n == 0 {
        seq![]
    } else if has_cap(bits, n - 1) {
        caps_below(bits, (n - 1) as nat).push((n - 1) as i32)
    } else {
        caps_below(bits, (n - 1) as nat)
    }
}

/// Lists the capabilities that `bits` hold.
pub fn caps_to_list(bits: u64) -> (out: Vec<i32>)
    ensures
        out@ == caps_below(bits, 64),
{
    let mut out: Vec<i32> = Vec::new();
    for cap in 0..64u64
        invariant
            out@ == caps_below(bits, cap as nat),
    {
        if bits & (1u64 << cap) != 0 {
            out.push(cap as i32);
        }
    }
    out
}

/// The first of `caps` that is not the number of a capability.
pub open spec fn first_invalid_cap(caps: Seq<i32>) -> Option<i32>
    decreases caps.len(),
{
    if caps.len() == 0 {
        None
    } else {
        match first_invalid_cap(caps.drop_last()) {
            Some(cap) => Some(cap),
            None => if 0 <= caps.last() < 64 {
                None
            } else {
                Some(caps.last())
            },
        }
    }
}

/// There is an invalid capability exactly where one of `caps` is not from 0 to
/// 63, and the first of those is the one that is found.
pub proof fn law_capabilities_are_0_to_63(caps: Seq<i32>)
    ensures
        first_invalid_cap(caps) is None <==> forall|i: int|
            0 <= i < caps.len() ==> 0 <= #[trigger] caps[i] < 64,
        first_invalid_cap(caps) matches Some(cap) ==> exists|i: int|
            {
                &&& 0 <= i < caps.len()
                &&& #[trigger] caps[i] == cap
                &&& !(0 <= cap < 64)
                &&& forall|j: int| 0 <= j < i ==> 0 <= #[trigger] caps[j] < 64
            },
    decreases caps.len(),
{
    if caps.len() > 0 {
        let before = caps.drop_last();
        let n = caps.len() - 1;
        law_capabilities_are_0_to_63(before);
        assert(forall|i: int| 0 <= i < n ==> before[i] == #[trigger] caps[i]);
        if first_invalid_cap(before) is Some {
            let cap = first_invalid_cap(before)->0;
            let i = choose|i: int|
                {
                    &&& 0 <= i < before.len()
                    &&& #[trigger] before[i] == cap
                    &&& !(0 <= cap < 64)
                    &&& forall|j: int| 0 <= j < i ==> 0 <= #[trigger] before[j] < 64
                };
            assert(caps[i] == cap);
            assert forall|j: int| 0 <= j < i implies 0 <= #[trigger] caps[j] < 64 by {
                assert(before[j] == caps[j]);
            }
        } else {
            assert forall|j: int| 0 <= j < n implies 0 <= #[trigger] caps[j] < 64 by {
                assert(before[j] == caps[j]);
            }
            assert(caps[n] == caps.last());
        }
    }
}

/// The bits that hold the capabilities `caps`.
pub open spec fn bits_of(caps: Seq<i32>) -> u64
    decreases caps.len(),
{
    if caps.len() == 0 {
        0
    } else {
        bits_of(caps.drop_last()) | (1u64 << (caps.last() as u64))
    }
}

/// Collects capabilities into bits.
#[verifier::allow_in_spec]
pub fn cap_list_to_bits(caps: &[i32]) -> (r: Result<u64, ProfileError>)
    ensures
        match first_invalid_cap(caps@) {
            Some(cap) => r == Err::<u64, ProfileError>(ProfileError::InvalidCapability(cap)),
            None => r == Ok::<u64, ProfileError>(bits_of(caps@)),
        },
    returns
        match first_invalid_cap(caps@) {
            Some(cap) => Err(ProfileError::InvalidCapability(cap)),
            None => Ok(bits_of(caps@)),
        },
{
    let mut bits: u64 = 0;
    for i in 0..caps.len()
        invariant
            first_invalid_cap(caps@.take(i as int)) is None,
            bits == bits_of(caps@.take(i as int)),
    {
        let cap = caps[i];
        assert(caps@.take(i + 1).drop_last() == caps@.take(i as int));
        if !(0 <= cap && cap < 64) {
            proof {
                lemma_first_invalid_stays(caps@, i + 1);
            }
            return Err(ProfileError::InvalidCapability(cap));
        }
        bits = bits | (1u64 << (cap as u64));
    }
    assert(caps@.take(caps@.len() as int) == caps@);
    Ok(bits)
}

proof fn lemma_first_invalid_stays(caps: Seq<i32>, n: int)
    requires
        0 <= n <= caps.len(),
        first_invalid_cap(caps.take(n)) is Some,
    ensures
        first_invalid_cap(caps) == first_invalid_cap(caps.take(n)),
    decreases caps.len(),
{
    if n < caps.len() {
        assert(caps.drop_last().take(n) == caps.take(n));
        lemma_first_invalid_stays(caps.drop_last(), n);
    } else {
        assert(caps.take(n) == caps);
    }
}

/// The bits hold the capabilities that they were made of and no others.
pub proof fn law_bits_hold_the_caps(caps: Seq<i32>, cap: int)
    requires
        first_invalid_cap(caps) is None,
        0 <= cap < 64,
    ensures
        has_cap(bits_of(caps), cap) == caps.contains(cap as i32),
    decreases caps.len(),
{
    if caps.len() == 0 {
        let c = cap as u64;
        assert(0u64 & (1u64 << c) == 0) by (bit_vector);
    } else {
        let before = bits_of(caps.drop_last());
        let last = caps.last() as u64;
        let c = cap as u64;
        law_bits_hold_the_caps(caps.drop_last(), cap);
        assert((before | (1u64 << last)) & (1u64 << c) != 0 <==> (last == c || before & (1u64 << c)
            != 0)) by (bit_vector)
            requires
                last < 64,
                c < 64,
        ;
        if caps.drop_last().contains(cap as i32) {
            let k = choose|k: int| 0 <= k < caps.drop_last().len() && caps.drop_last()[k] == cap;
            assert(caps[k] == cap);
        }
        if caps.contains(cap as i32) && caps.last() != cap {
            let k = choose|k: int| 0 <= k < caps.len() && caps[k] == cap;
            assert(caps.drop_last()[k] == cap);
        }
        if caps.last() == cap {
            assert(caps[caps.len() - 1] == cap);
        }
    }
}

proof fn lemma_caps_below(bits: u64, n: nat)
    requires
        n <= 64,
    ensures
        first_invalid_cap(caps_below(bits, n)) is None,
        n < 64 ==> bits_of(caps_below(bits, n)) == bits & (((1u64 << (n as u64)) - 1) as u64),
        n == 64 ==> bits_of(caps_below(bits, n)) == bits,
    decreases n,
{
    if n == 0 {
        assert(bits & (((1u64 << 0u64) - 1) as u64) == 0) by (bit_vector);
    } else {
        let m = (n - 1) as u64;
        let before = caps_below(bits, m as nat);
        lemma_caps_below(bits, m as nat);
        let low = bits & (((1u64 << m) - 1) as u64);
        assert(bits & (1u64 << m) != 0 ==> {
            &&& m < 63 ==> low | (1u64 << m) == bits & (((1u64 << ((m + 1) as u64)) - 1) as u64)
            &&& m == 63 ==> low | (1u64 << m) == bits
        }) by (bit_vector)
            requires
                m < 64,
                low == bits & (((1u64 << m) - 1) as u64),
        ;
        assert(bits & (1u64 << m) == 0 ==> {
            &&& m < 63 ==> low == bits & (((1u64 << ((m + 1) as u64)) - 1) as u64)
            &&& m == 63 ==> low == bits
        }) by (bit_vector)
            requires
                m < 64,
                low == bits & (((1u64 << m) - 1) as u64),
        ;
        if has_cap(bits, n - 1) {
            assert(caps_below(bits, n).drop_last() == before);
        }
    }
}

proof fn lemma_caps_listed(bits: u64, n: nat)
    requires
        n <= 64,
    ensures
        forall|i: int, j: int|
            0 <= i < j < caps_below(bits, n).len() ==> caps_below(bits, n)[i] < caps_below(
                bits,
                n,
            )[j],
        forall|i: int|
            0 <= i < caps_below(bits, n).len() ==> 0 <= #[trigger] caps_below(bits, n)[i] < n,
        forall|c: i32|
            #[trigger] caps_below(bits, n).contains(c) <==> 0 <= c < n && has_cap(bits, c as int),
    decreases n,
{
    if n > 0 {
        let before = caps_below(bits, (n - 1) as nat);
        let now = caps_below(bits, n);
        lemma_caps_listed(bits, (n - 1) as nat);
        if has_cap(bits, n - 1) {
            assert forall|c: i32| #[trigger] now.contains(c) <==> 0 <= c < n && has_cap(
                bits,
                c as int,
            ) by {
                if now.contains(c) {
                    let k = choose|k: int| 0 <= k < now.len() && now[k] == c;
                    if k < before.len() {
                        assert(before[k] == c);
                        assert(before.contains(c));
                    }
                }
                if 0 <= c < n && has_cap(bits, c as int) {
                    if c == n - 1 {
                        assert(now[now.len() - 1] == c);
                    } else {
                        assert(before.contains(c));
                        let k = choose|k: int| 0 <= k < before.len() && before[k] == c;
                        assert(now[k] == c);
                    }
                }
            }
        }
    }
}

/// The list made of bits names the capabilities that they hold, each once and
/// in ascending order, and gives the same bits again.
pub proof fn law_caps_list_is_faithful(bits: u64)
    ensures
        first_invalid_cap(caps_below(bits, 64)) is None,
        bits_of(caps_below(bits, 64)) == bits,
        forall|i: int, j: int|
            0 <= i < j < caps_below(bits, 64).len() ==> caps_below(bits, 64)[i] < caps_below(
                bits,
                64,
            )[j],
        forall|cap: i32|
            #[trigger] caps_below(bits, 64).contains(cap) <==> 0 <= cap < 64 && has_cap(
                bits,
                cap as int,
            ),
{
    lemma_caps_below(bits, 64);
    lemma_caps_listed(bits, 64);
}

/// The part of the profile block for an app that may become root.
#[derive(Debug, Clone)]
pub struct RootConfig {
    pub use_default: bool,
    pub template_name: Vec<u8>,
    pub uid: i32,
    pub gid: i32,
    pub groups_count: u32,
    pub groups: Vec<i32>,
    pub effective: u64,
    pub permitted: u64,
    pub selinux_domain: Vec<u8>,
    pub namespaces: i32,
    pub flags: u64,
}

/// The part of the profile block for an app that may not become root.
#[derive(Debug, Clone, Copy)]
pub struct NonRootConfig {
    pub use_default: bool,
    pub umount_modules: bool,
}

/// The two forms of the profile block; the first one is for apps that may
/// become root.
#[derive(Debug, Clone)]
pub enum RawConfig {
    Root(RootConfig),
    NonRoot(NonRootConfig),
}

/// The block in which the kernel takes and gives a profile.
#[derive(Debug, Clone)]
pub struct RawProfile {
    pub version: u32,
    pub key: Vec<u8>,
    pub curr_uid: i32,
    pub config: RawConfig,
}

/// What a `RootConfig` holds.
pub struct RootConfigView {
    pub use_default: bool,
    pub template_name: Seq<u8>,
    pub uid: i32,
    pub gid: i32,
    pub groups_count: u32,
    pub groups: Seq<i32>,
    pub effective: u64,
    pub permitted: u64,
    pub selinux_domain: Seq<u8>,
    pub namespaces: i32,
    pub flags: u64,
}

/// What a `RawConfig` holds.
pub enum RawConfigView {
    Root(RootConfigView),
    NonRoot(NonRootConfig),
}

/// What a `RawProfile` holds.
pub struct RawProfileView {
    pub version: u32,
    pub key: Seq<u8>,
    pub curr_uid: i32,
    pub config: RawConfigView,
}

impl View for RootConfig {
    type V = RootConfigView;

    open spec fn view(&self) -> RootConfigView {
        RootConfigView {
            use_default: self.use_default,
            template_name: self.template_name@,
            uid: self.uid,
            gid: self.gid,
            groups_count: self.groups_count,
            groups: self.groups@,
            effective: self.effective,
            permitted: self.permitted,
            selinux_domain: self.selinux_domain@,
            namespaces: self.namespaces,
            flags: self.flags,
        }
    }
}

impl View for RawConfig {
    type V = RawConfigView;

    open spec fn view(&self) -> RawConfigView {
        match *self {
            RawConfig::Root(config) => RawConfigView::Root(config@),
            RawConfig::NonRoot(config) => RawConfigView::NonRoot(config),
        }
    }
}

impl View for RawProfile {
    type V = RawProfileView;

    open spec fn view(&self) -> RawProfileView {
        RawProfileView {
            version: self.version,
            key: self.key@,
            curr_uid: self.curr_uid,
            config: self.config@,
        }
    }
}

/// Why `key` cannot be the key of a profile.
pub open spec fn key_error(uapi: Uapi, key: Seq<char>) -> Option<ProfileError> {
    if key.len() == 0 {
        Some(ProfileError::KeyEmpty)
    } else if encode_utf8(key).len() >= uapi.max_package_name {
        Some(ProfileError::KeyTooLong)
    } else if encode_utf8(key).contains(0) {
        Some(ProfileError::KeyHoldsNul)
    } else {
        None
    }
}

/// Checks the key of a profile.
#[verifier::allow_in_spec]
pub fn ensure_profile_key(uapi: &Uapi, key: &str) -> (r: Result<(), ProfileError>)
    ensures
        match key_error(*uapi, key@) {
            Some(e) => r == Err::<(), ProfileError>(e),
            None => r is Ok,
        },
    returns
        match key_error(*uapi, key@) {
            Some(e) => Err(e),
            None => Ok(()),
        },
{
    if key.is_empty() {
        return Err(ProfileError::KeyEmpty);
    }
    let bytes = key.as_bytes();
    if bytes.len() >= uapi.max_package_name as usize {
        return Err(ProfileError::KeyTooLong);
    }
    if holds_nul(bytes) {
        return Err(ProfileError::KeyHoldsNul);
    }
    Ok(())
}

/// Why the root part of a profile cannot be handed to the kernel.
pub open spec fn root_error(uapi: Uapi, p: ProfileView) -> Option<ProfileError> {
    let template_error = match p.root_template {
        Some(template) => c_string_error(template, uapi.template_name_len as nat),
        None => None,
    };
    if p.groups.len() > uapi.max_groups {
        Some(ProfileError::TooManyGroups)
    } else if template_error is Some {
        template_error
    } else if first_invalid_cap(p.capabilities) is Some {
        Some(ProfileError::InvalidCapability(first_invalid_cap(p.capabilities)->0))
    } else {
        c_string_error(p.context, uapi.selinux_domain_len as nat)
    }
}

/// Why a profile cannot be handed to the kernel.
pub open spec fn profile_error(uapi: Uapi, p: ProfileView) -> Option<ProfileError> {
    if key_error(uapi, p.name) is Some {
        key_error(uapi, p.name)
    } else if c_string_error(p.name, uapi.key_len as nat) is Some {
        c_string_error(p.name, uapi.key_len as nat)
    } else if p.allow_su {
        root_error(uapi, p)
    } else {
        None
    }
}

/// `n` bytes of 0.
pub open spec fn zeros(n: nat) -> Seq<u8> {
    Seq::new(n, |i: int| 0u8)
}

/// The root part of the block for a profile.
pub open spec fn root_config_of(uapi: Uapi, p: ProfileView) -> RootConfigView {
    RootConfigView {
        use_default: p.root_use_default,
        template_name: match p.root_template {
            Some(template) => c_string(template, uapi.template_name_len as nat),
            None => zeros(uapi.template_name_len as nat),
        },
        uid: p.uid,
        gid: p.gid,
        groups_count: p.groups.len() as u32,
        groups: Seq::new(
            uapi.max_groups as nat,
            |i: int|
                if i < p.groups.len() {
                    p.groups[i]
                } else {
                    0
                },
        ),
        effective: bits_of(p.capabilities),
        permitted: bits_of(p.capabilities),
        selinux_domain: c_string(p.context, uapi.selinux_domain_len as nat),
        namespaces: p.namespace,
        flags: p.flags,
    }
}

/// The block for a profile.
pub open spec fn raw_of(uapi: Uapi, p: ProfileView) -> RawProfileView {
    RawProfileView {
        version: uapi.app_profile_ver,
        key: c_string(p.name, uapi.key_len as nat),
        curr_uid: p.current_uid,
        config: if p.allow_su {
            RawConfigView::Root(root_config_of(uapi, p))
        } else {
            RawConfigView::NonRoot(
                NonRootConfig {
                    use_default: p.non_root_use_default,
                    umount_modules: p.umount_modules,
                },
            )
        },
    }
}

/// Makes the root part of the block for a profile.
fn root_config_from_app_profile(uapi: &Uapi, profile: &AppProfile) -> (r: Result<
    RootConfig,
    ProfileError,
>)
    ensures
        match root_error(*uapi, profile@) {
            Some(e) => r == Err::<RootConfig, ProfileError>(e),
            None => r matches Ok(config) && config@ == root_config_of(*uapi, profile@),
        },
{
    if profile.groups.len() > uapi.max_groups as usize {
        return Err(ProfileError::TooManyGroups);
    }
    let mut template_name = vec![0u8; uapi.template_name_len];
    assert(template_name@ =~= zeros(uapi.template_name_len as nat));
    if let Some(template) = &profile.root_template {
        write_c_string(template_name.as_mut_slice(), template.as_str())?;
    }
    let mut groups = vec![0i32; uapi.max_groups as usize];
    for i in 0..profile.groups.len()
        invariant
            profile.groups@.len() <= uapi.max_groups,
            groups@.len() == uapi.max_groups,
            forall|j: int| 0 <= j < i ==> groups@[j] == profile.groups@[j],
            forall|j: int| i <= j < groups@.len() ==> groups@[j] == 0,
    {
        groups[i] = profile.groups[i];
    }
    let effective = cap_list_to_bits(profile.capabilities.as_slice())?;
    let mut selinux_domain = vec![0u8; uapi.selinux_domain_len];
    write_c_string(selinux_domain.as_mut_slice(), profile.context.as_str())?;
    let config = RootConfig {
        use_default: profile.root_use_default,
        template_name,
        uid: profile.uid,
        gid: profile.gid,
        groups_count: profile.groups.len() as u32,
        groups,
        effective,
        permitted: effective,
        selinux_domain,
        namespaces: profile.namespace,
        flags: profile.flags,
    };
    assert(config@.groups =~= root_config_of(*uapi, profile@).groups);
    Ok(config)
}

/// Makes the block for a profile.
pub fn raw_profile_from_app_profile(uapi: &Uapi, profile: &AppProfile) -> (r: Result<
    RawProfile,
    ProfileError,
>)
    ensures
        match profile_error(*uapi, profile@) {
            Some(e) => r == Err::<RawProfile, ProfileError>(e),
            None => r matches Ok(raw) && raw@ == raw_of(*uapi, profile@),
        },
{
    ensure_profile_key(uapi, profile.name.as_str())?;
    let mut key = vec![0u8; uapi.key_len];
    write_c_string(key.as_mut_slice(), profile.name.as_str())?;
    let config = if profile.allow_su {
        RawConfig::Root(root_config_from_app_profile(uapi, profile)?)
    } else {
        RawConfig::NonRoot(
            NonRootConfig {
                use_default: profile.non_root_use_default,
                umount_modules: profile.umount_modules,
            },
        )
    };
    Ok(
        RawProfile {
            version: uapi.app_profile_ver,
            key,
            curr_uid: profile.current_uid,
            config,
        },
    )
}

/// The text in an array that a 0 ends.
pub open spec fn c_text(array: Seq<u8>) -> Seq<char> {
    bytes::text_of(bytes::until_nul(array))
}

/// The groups that the root part of a block names.
pub open spec fn groups_of(uapi: Uapi, config: RootConfigView) -> Seq<i32> {
    let most = if config.groups.len() <= uapi.max_groups {
        config.groups.len() as int
    } else {
        uapi.max_groups as int
    };
    if config.groups_count <= most {
        config.groups.take(config.groups_count as int)
    } else {
        config.groups.take(most)
    }
}

/// The profile in a block.
pub open spec fn profile_of(uapi: Uapi, raw: RawProfileView) -> ProfileView {
    let base = default_profile(c_text(raw.key), wrapped_u32(raw.curr_uid) as u32);
    match raw.config {
        RawConfigView::Root(config) => ProfileView {
            allow_su: true,
            root_use_default: config.use_default,
            root_template: if c_text(config.template_name).len() == 0 {
                None
            } else {
                Some(c_text(config.template_name))
            },
            uid: config.uid,
            gid: config.gid,
            groups: groups_of(uapi, config),
            capabilities: caps_below(config.effective, 64),
            context: c_text(config.selinux_domain),
            namespace: config.namespaces,
            flags: config.flags,
            ..base
        },
        RawConfigView::NonRoot(config) => ProfileView {
            non_root_use_default: config.use_default,
            umount_modules: config.umount_modules,
            ..base
        },
    }
}

/// Takes the profile out of a block.
pub fn app_profile_from_raw(uapi: &Uapi, raw: &RawProfile) -> (r: AppProfile)
    ensures
        r@ == profile_of(*uapi, raw@),
{
    let name = read_c_string(raw.key.as_slice());
    let mut profile = AppProfile::default_for(name.as_str(), as_u32(raw.curr_uid));
    match &raw.config {
        RawConfig::Root(config) => {
            let mut group_count = config.groups_count as usize;
            if group_count > uapi.max_groups as usize {
                group_count = uapi.max_groups as usize;
            }
            if group_count > config.groups.len() {
                group_count = config.groups.len();
            }
            let template = read_c_string(config.template_name.as_slice());
            profile.allow_su = true;
            profile.root_use_default = config.use_default;
            profile.root_template =
            if template.as_str().is_empty() {
                None
            } else {
                Some(template)
            };
            profile.uid = config.uid;
            profile.gid = config.gid;
            profile.groups =
            vstd::slice::slice_to_vec(
                vstd::slice::slice_subrange(config.groups.as_slice(), 0, group_count),
            );
            assert(profile.groups@ =~= groups_of(*uapi, config@));
            profile.capabilities = caps_to_list(config.effective);
            profile.context = read_c_string(config.selinux_domain.as_slice());
            profile.namespace = config.namespaces;
            profile.flags = config.flags;
        },
        RawConfig::NonRoot(config) => {
            profile.non_root_use_default = config.use_default;
            profile.umount_modules = config.umount_modules;
        },
    }
    profile
}

/// What the kernel's block keeps of a profile: the part that is in force, with
/// its capabilities in ascending order and each once, and no template where
/// its name is empty. The rest is as nothing had been set.
pub open spec fn kept_of(p: ProfileView) -> ProfileView {
    let base = ProfileView {
        current_uid: p.current_uid,
        ..default_profile(p.name, 0)
    };
    if p.allow_su {
        ProfileView {
            allow_su: true,
            root_use_default: p.root_use_default,
            root_template: if p.root_template == Some(Seq::<char>::empty()) {
                None
            } else {
                p.root_template
            },
            uid: p.uid,
            gid: p.gid,
            groups: p.groups,
            capabilities: caps_below(bits_of(p.capabilities), 64),
            context: p.context,
            namespace: p.namespace,
            flags: p.flags,
            ..base
        }
    } else {
        ProfileView {
            non_root_use_default: p.non_root_use_default,
            umount_modules: p.umount_modules,
            ..base
        }
    }
}

/// The block made of a profile gives back what it keeps of the profile.
pub proof fn law_profile_reads_back(uapi: Uapi, p: ProfileView)
    requires
        profile_error(uapi, p) is None,
    ensures
        profile_of(uapi, raw_of(uapi, p)) == kept_of(p),
{
    law_c_string_reads_back(p.name, uapi.key_len as nat);
    if p.allow_su {
        let config = root_config_of(uapi, p);
        law_c_string_reads_back(p.context, uapi.selinux_domain_len as nat);
        match p.root_template {
            Some(template) => {
                law_c_string_reads_back(template, uapi.template_name_len as nat);
                if template.len() == 0 {
                    assert(template == Seq::<char>::empty());
                }
            },
            None => {
                let none = zeros(uapi.template_name_len as nat);
                bytes::lemma_until_nul(none, 0);
                assert(none.take(0) == Seq::<u8>::empty());
                assert(c_text(none) == Seq::<char>::empty());
            },
        }
        assert(groups_of(uapi, config) =~= p.groups);
    }
}

/// The profile of an app of which nothing has been set: no root, and everything
/// else by default, with the name and the user that were given.
pub proof fn law_default_profile_allows_nothing(name: Seq<char>, uid: u32)
    ensures
        default_profile(name, uid).name == name,
        wrapped_u32(default_profile(name, uid).current_uid) == uid,
        !default_profile(name, uid).allow_su,
        default_profile(name, uid).root_use_default,
        default_profile(name, uid).root_template is None,
        default_profile(name, uid).uid == 0,
        default_profile(name, uid).gid == 0,
        default_profile(name, uid).groups.len() == 0,
        default_profile(name, uid).capabilities.len() == 0,
        default_profile(name, uid).context == "u:r:ksu:s0"@,
        default_profile(name, uid).namespace == 0,
        default_profile(name, uid).non_root_use_default,
        default_profile(name, uid).umount_modules,
        default_profile(name, uid).rules.len() == 0,
        default_profile(name, uid).flags == 1,
{
}

/// Taking 32 bits with or without a sign changes a number by a multiple of 2 to
/// the 32 at most, and is undone by the other.
pub proof fn law_signs_are_undone(n: u32, m: i32)
    ensures
        -2147483648 <= wrapped_i32(n) <= 2147483647,
        wrapped_i32(n) == n || wrapped_i32(n) == n - 4294967296,
        0 <= wrapped_u32(m) <= 4294967295,
        wrapped_u32(m) == m || wrapped_u32(m) == m + 4294967296,
        wrapped_u32(wrapped_i32(n) as i32) == n,
        wrapped_i32(wrapped_u32(m) as u32) == m,
        as_u32(as_i32(n)) == n,
        as_i32(as_u32(m)) == m,
        as_i32(n) == n || as_i32(n) == n - 4294967296,
{
}

/// Whether a profile is custom depends on the one setting that is in force.
pub proof fn law_custom_is_the_part_in_force(p: ProfileView, profile: AppProfile)
    ensures
        profile.allow_su ==> profile.has_custom_profile() == !profile.root_use_default,
        !profile.allow_su ==> profile.has_custom_profile() == !profile.non_root_use_default,
        p.allow_su ==> is_custom(p) == !p.root_use_default,
        !p.allow_su ==> is_custom(p) == !p.non_root_use_default,
{
}

/// Text stands in an array with 0 behind it, exactly where it is shorter than the
/// array and holds no 0; too long text is refused before text with a 0.
pub proof fn law_text_needs_room_for_a_nul(s: Seq<char>, n: nat, i: int)
    ensures
        c_string_error(s, n) is None <==> encode_utf8(s).len() < n && !encode_utf8(s).contains(0),
        c_string_error(s, n) == Some(ProfileError::StringTooLong) <==> encode_utf8(s).len() >= n,
        c_string_error(s, n) == Some(ProfileError::StringHoldsNul) <==> encode_utf8(s).len() < n
            && encode_utf8(s).contains(0),
        c_string(s, n).len() == n,
        0 <= i < n && i < encode_utf8(s).len() ==> c_string(s, n)[i] == encode_utf8(s)[i],
        encode_utf8(s).len() <= i < n ==> c_string(s, n)[i] == 0,
{
}

/// A capability is held where its bit is set.
pub proof fn law_capability_is_its_bit(bits: u64, cap: u64)
    requires
        cap < 64,
    ensures
        has_cap(bits, cap as int) <==> (bits >> cap) & 1 == 1,
{
    assert(bits & (1u64 << cap) != 0 <==> (bits >> cap) & 1 == 1) by (bit_vector)
        requires
            cap < 64,
    ;
}

/// A key is refused where it is empty, where its bytes are not fewer than the
/// limit, or where one of them is 0, in that order.
pub proof fn law_keys_are_short_and_without_nul(uapi: Uapi, key: Seq<char>)
    ensures
        key_error(uapi, key) is None <==> key.len() > 0 && encode_utf8(key).len()
            < uapi.max_package_name && !encode_utf8(key).contains(0),
        key_error(uapi, key) == Some(ProfileError::KeyEmpty) <==> key.len() == 0,
        key_error(uapi, key) == Some(ProfileError::KeyTooLong) <==> key.len() > 0 && encode_utf8(
            key,
        ).len() >= uapi.max_package_name,
        key_error(uapi, key) is Some ==> (key_error(uapi, key)->0 == ProfileError::KeyEmpty
            || key_error(uapi, key)->0 == ProfileError::KeyTooLong || key_error(uapi, key)->0
            == ProfileError::KeyHoldsNul),
{
}

/// A profile can be handed to the kernel exactly where its key is one and fits,
/// and, if it allows root, its groups, its template, its capabilities and its
/// domain do too.
pub proof fn law_what_can_be_handed_over(uapi: Uapi, p: ProfileView)
    ensures
        profile_error(uapi, p) is None <==> {
            &&& key_error(uapi, p.name) is None
            &&& c_string_error(p.name, uapi.key_len as nat) is None
            &&& p.allow_su ==> {
                &&& p.groups.len() <= uapi.max_groups
                &&& p.root_template matches Some(template) ==> c_string_error(
                    template,
                    uapi.template_name_len as nat,
                ) is None
                &&& first_invalid_cap(p.capabilities) is None
                &&& c_string_error(p.context, uapi.selinux_domain_len as nat) is None
            }
        },
{
}

/// The first thing that is wrong with a profile is the one that is said: the key,
/// its length in the block, the groups, the template, a capability, the domain.
pub proof fn law_first_fault_is_said(uapi: Uapi, p: ProfileView)
    ensures
        key_error(uapi, p.name) matches Some(e) ==> profile_error(uapi, p) == Some(e),
        key_error(uapi, p.name) is None ==> {
            &&& c_string_error(p.name, uapi.key_len as nat) matches Some(e) ==> profile_error(
                uapi,
                p,
            ) == Some(e)
            &&& c_string_error(p.name, uapi.key_len as nat) is None && p.allow_su ==> {
                &&& p.groups.len() > uapi.max_groups <==> profile_error(uapi, p) == Some(
                    ProfileError::TooManyGroups,
                )
                &&& p.groups.len() <= uapi.max_groups ==> {
                    &&& p.root_template matches Some(template) ==> (c_string_error(
                        template,
                        uapi.template_name_len as nat,
                    ) matches Some(e) ==> profile_error(uapi, p) == Some(e))
                    &&& (p.root_template matches Some(template) ==> c_string_error(
                        template,
                        uapi.template_name_len as nat,
                    ) is None) ==> match first_invalid_cap(p.capabilities) {
                        Some(cap) => profile_error(uapi, p) == Some(
                            ProfileError::InvalidCapability(cap),
                        ),
                        None => profile_error(uapi, p) == c_string_error(
                            p.context,
                            uapi.selinux_domain_len as nat,
                        ),
                    }
                }
            }
        },
{
}

/// Every block made of a profile carries the version of the interface, the key
/// and the user, and says whether root is allowed.
pub proof fn law_block_carries_version_key_and_user(uapi: Uapi, p: ProfileView)
    ensures
        raw_of(uapi, p).version == uapi.app_profile_ver,
        raw_of(uapi, p).key == c_string(p.name, uapi.key_len as nat),
        raw_of(uapi, p).curr_uid == p.current_uid,
        raw_of(uapi, p).config is Root <==> p.allow_su,
{
}

/// The root part of a block holds each setting of the profile in its place: the
/// groups with their number and 0 behind them, and the capabilities both as the
/// effective and as the permitted ones.
pub proof fn law_root_block_holds_the_settings(uapi: Uapi, p: ProfileView, i: int)
    requires
        p.allow_su,
        p.groups.len() <= uapi.max_groups,
    ensures
        raw_of(uapi, p).config matches RawConfigView::Root(c) && {
            &&& c.use_default == p.root_use_default
            &&& p.root_template matches Some(template) ==> c.template_name == c_string(
                template,
                uapi.template_name_len as nat,
            )
            &&& p.root_template is None ==> c.template_name == c_string(
                Seq::empty(),
                uapi.template_name_len as nat,
            )
            &&& c.uid == p.uid
            &&& c.gid == p.gid
            &&& c.groups_count == p.groups.len()
            &&& c.groups.len() == uapi.max_groups
            &&& 0 <= i < p.groups.len() ==> c.groups[i] == p.groups[i]
            &&& p.groups.len() <= i < uapi.max_groups ==> c.groups[i] == 0
            &&& c.effective == bits_of(p.capabilities)
            &&& c.permitted == c.effective
            &&& c.selinux_domain == c_string(p.context, uapi.selinux_domain_len as nat)
            &&& c.namespaces == p.namespace
            &&& c.flags == p.flags
        },
{
    assert(c_string(Seq::empty(), uapi.template_name_len as nat) =~= zeros(
        uapi.template_name_len as nat,
    ));
}

/// The other part of a block holds the two settings for an app without root.
pub proof fn law_block_without_root_holds_the_settings(uapi: Uapi, p: ProfileView)
    requires
        !p.allow_su,
    ensures
        raw_of(uapi, p).config matches RawConfigView::NonRoot(c) && c.use_default
            == p.non_root_use_default && c.umount_modules == p.umount_modules,
{
}

/// The profile in a block has the name and the user of the block, and root if the
/// block has a root part.
pub proof fn law_profile_has_the_name_and_user_of_its_block(uapi: Uapi, raw: RawProfileView)
    ensures
        profile_of(uapi, raw).name == bytes::text_of(bytes::until_nul(raw.key)),
        profile_of(uapi, raw).current_uid == raw.curr_uid,
        profile_of(uapi, raw).allow_su <==> raw.config is Root,
        profile_of(uapi, raw).rules.len() == 0,
{
    law_signs_are_undone(0, raw.curr_uid);
    law_default_profile_allows_nothing(
        c_text(raw.key),
        wrapped_u32(raw.curr_uid) as u32,
    );
}

/// The profile in a block with a root part has the settings of that part, as many
/// groups as the block counts and has room for, and the capabilities that are
/// effective; the settings without root are the default ones.
pub proof fn law_root_profile_has_the_settings(uapi: Uapi, raw: RawProfileView, i: int)
    requires
        raw.config matches RawConfigView::Root(c) && c.groups.len() == uapi.max_groups,
    ensures
        raw.config matches RawConfigView::Root(c) && {
            let p = profile_of(uapi, raw);
            let template = bytes::text_of(bytes::until_nul(c.template_name));
            &&& p.root_use_default == c.use_default
            &&& template.len() == 0 <==> p.root_template is None
            &&& template.len() > 0 ==> p.root_template == Some(template)
            &&& p.uid == c.uid
            &&& p.gid == c.gid
            &&& p.groups.len() == if c.groups_count <= uapi.max_groups {
                c.groups_count
            } else {
                uapi.max_groups
            }
            &&& 0 <= i < p.groups.len() ==> p.groups[i] == c.groups[i]
            &&& p.capabilities == caps_below(c.effective, 64)
            &&& p.context == bytes::text_of(bytes::until_nul(c.selinux_domain))
            &&& p.namespace == c.namespaces
            &&& p.flags == c.flags
            &&& p.non_root_use_default
            &&& p.umount_modules
        },
{
}

/// The profile in a block without a root part has the two settings of that part,
/// and the default ones of root.
pub proof fn law_profile_without_root_has_the_settings(uapi: Uapi, raw: RawProfileView)
    requires
        raw.config is NonRoot,
    ensures
        raw.config matches RawConfigView::NonRoot(c) && {
            let p = profile_of(uapi, raw);
            &&& p.non_root_use_default == c.use_default
            &&& p.umount_modules == c.umount_modules
            &&& p.root_use_default
            &&& p.root_template is None
            &&& p.uid == 0 && p.gid == 0 && p.namespace == 0 && p.flags == 1
            &&& p.groups.len() == 0 && p.capabilities.len() == 0
            &&& p.context == "u:r:ksu:s0"@
        },
{
}

/// An error about a key or a capability names it.
pub proof fn law_errors_name_what_is_wrong(key: Seq<char>, cap: i32)
    ensures
        ProfileError::KeyTooLong.text(key) == "profile key too long: "@ + key,
        ProfileError::InvalidCapability(cap).text(key) == "invalid capability: "@
            + number::signed_decimal(cap as int),
{
}

/// The text of an optional string is that of the string, where there is one.
pub proof fn law_optional_text_is_that_of_the_string(s: String)
    ensures
        optional_text(Some(s)) == Some(s@),
        optional_text(None) is None,
{
}

/// Capabilities are taken where each is from 0 to 63, and then the bits that are
/// set are theirs; and a key is taken where it is not empty, short enough and
/// without a 0.
pub proof fn law_capabilities_and_keys_are_taken(
    caps: &[i32],
    cap: u64,
    uapi: &Uapi,
    key: &str,
)
    requires
        cap < 64,
    ensures
        cap_list_to_bits(caps) is Ok <==> forall|i: int|
            0 <= i < caps@.len() ==> 0 <= #[trigger] caps@[i] < 64,
        cap_list_to_bits(caps) matches Ok(bits) ==> ((bits >> cap) & 1 == 1 <==> caps@.contains(
            cap as i32,
        )),
        ensure_profile_key(uapi, key) is Ok <==> key@.len() > 0 && encode_utf8(key@).len()
            < uapi.max_package_name && !encode_utf8(key@).contains(0),
{
    law_capabilities_are_0_to_63(caps@);
    if first_invalid_cap(caps@) is None {
        law_bits_hold_the_caps(caps@, cap as int);
        law_capability_is_its_bit(bits_of(caps@), cap);
    }
}

} // verus!
