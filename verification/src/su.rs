//! Requests for root: how they come in from the driver, and those that wait
//! for a decision.
use crate::json::Json;
use crate::ksucalls::OsError;
use crate::{bytes, json, number, text};
use serde_json::Value;
use std::collections::HashMap;
use vstd::prelude::*;

verus! {

broadcast use vstd::std_specs::hash::group_hash_axioms;

/// The length of the header of a record.
pub const EVENT_HEADER_SIZE: usize = 24;

/// The type of the record that stands for records that were lost.
pub const DROPPED_RECORD_TYPE: u16 = 0xffff;

/// The texts of a list of strings.
pub open spec fn texts(v: Seq<String>) -> Seq<Seq<char>> {
    v.map_values(|s: String| s@)
}

fn clone_strings(v: &Vec<String>) -> (out: Vec<String>)
    ensures
        texts(out@) == texts(v@),
{
    let mut out: Vec<String> = Vec::new();
    for i in 0..v.len()
        invariant
            out@ == v@.take(i as int),
    {
        out.push(v[i].clone());
    }
    assert(v@.take(v@.len() as int) == v@);
    out
}

/// A request for root.
#[derive(Debug)]
pub struct SuRequest {
    pub request_id: u64,
    pub deadline_ms: u64,
    pub uid: u32,
    pub euid: u32,
    pub pid: u32,
    pub tgid: u32,
    pub ppid: u32,
    pub comm: String,
    pub path: String,
    pub argv: String,
    pub packages: Vec<String>,
}

/// What a request for root holds.
pub struct SuRequestView {
    pub request_id: u64,
    pub deadline_ms: u64,
    pub uid: u32,
    pub euid: u32,
    pub pid: u32,
    pub tgid: u32,
    pub ppid: u32,
    pub comm: Seq<char>,
    pub path: Seq<char>,
    pub argv: Seq<char>,
    pub packages: Seq<Seq<char>>,
}

impl View for SuRequest {
    type V = SuRequestView;

    open spec fn view(&self) -> SuRequestView {
        SuRequestView {
            request_id: self.request_id,
            deadline_ms: self.deadline_ms,
            uid: self.uid,
            euid: self.euid,
            pid: self.pid,
            tgid: self.tgid,
            ppid: self.ppid,
            comm: self.comm@,
            path: self.path@,
            argv: self.argv@,
            packages: texts(self.packages@),
        }
    }
}

impl Clone for SuRequest {
    fn clone(&self) -> (r: Self)
        ensures
            r@ == self@,
    {
        SuRequest {
            request_id: self.request_id,
            deadline_ms: self.deadline_ms,
            uid: self.uid,
            euid: self.euid,
            pid: self.pid,
            tgid: self.tgid,
            ppid: self.ppid,
            comm: self.comm.clone(),
            path: self.path.clone(),
            argv: self.argv.clone(),
            packages: clone_strings(&self.packages),
        }
    }
}

/// The user and the package that a line of the package list names.
pub open spec fn package_entry(line: Seq<char>) -> Option<(u32, Seq<char>)> {
    let w = text::words(line);
    if w.len() < 2 {
        None
    } else {
        match number::unsigned_up_to(w[1], u32::MAX as nat) {
            Some(uid) => Some((uid as u32, w[0])),
            None => None,
        }
    }
}

/// The packages that the lines name for the user `uid`, in the order of the
/// lines.
pub open spec fn packages_named(lines: Seq<Seq<char>>, uid: u32) -> Seq<Seq<char>>
    decreases lines.len(),
{
    if lines.len() == 0 {
        seq![]
    } else {
        let before = packages_named(lines.drop_last(), uid);
        match package_entry(lines.last()) {
            Some((u, package)) => if u == uid {
                before.push(package)
            } else {
                before
            },
            None => before,
        }
    }
}

/// The packages of the user `uid` in an index.
pub open spec fn packages_for(index: Map<u32, Vec<String>>, uid: u32) -> Seq<Seq<char>> {
    if index.contains_key(uid) {
        texts(index[uid]@)
    } else {
        seq![]
    }
}

/// The lines of the package list.
pub open spec fn package_lines(content: Option<Seq<char>>) -> Seq<Seq<char>> {
    match content {
        Some(content) => text::split_on(content, seq!['\n']),
        None => seq![],
    }
}

/// Whether `index` lists the packages that the text of the package list names, and
/// no user without any.
pub open spec fn is_index(index: Map<u32, Vec<String>>, content: Option<Seq<char>>) -> bool {
    &&& forall|uid: u32| #[trigger]
        packages_for(index, uid) == packages_named(package_lines(content), uid)
    &&& forall|uid: u32| #[trigger]
        index.contains_key(uid) ==> packages_for(index, uid).len() > 0
}

fn read_package_entry(line: &[char]) -> (r: Option<(u32, String)>)
    ensures
        match r {
            Some((uid, package)) => package_entry(line@) == Some((uid, package@)),
            None => package_entry(line@) is None,
        },
{
    let (package, rest) = match text::next_word(line) {
        Some(found) => found,
        None => return None,
    };
    let (uid, _rest) = match text::next_word(rest) {
        Some(found) => found,
        None => return None,
    };
    match number::parse_unsigned(uid, 4294967295) {
        Some(n) => Some((n as u32, text::string_of(package))),
        None => None,
    }
}

/// Lists the packages of each user from the text of the package list, if it
/// could be read.
pub fn package_index(content: Option<&str>) -> (by_uid: HashMap<u32, Vec<String>>)
    ensures
        is_index(
            by_uid@,
            match content {
                Some(content) => Some(content@),
                None => None,
            },
        ),
{
    let mut by_uid: HashMap<u32, Vec<String>> = HashMap::new();
    let content = match content {
        Some(content) => text::chars_of(content),
        None => return by_uid,
    };
    let newline = ['\n'];
    assert(newline@ =~= seq!['\n']);
    let lines = text::split_chars(content.as_slice(), &newline);
    let ghost all = text::slices(lines@);
    assert(all.take(0) =~= Seq::<Seq<char>>::empty());
    for i in 0..lines.len()
        invariant
            all == text::slices(lines@),
            forall|uid: u32| #[trigger]
                packages_for(by_uid@, uid) == packages_named(all.take(i as int), uid),
            forall|uid: u32| #[trigger]
                by_uid@.contains_key(uid) ==> packages_for(by_uid@, uid).len() > 0,
    {
        let line = lines[i];
        assert(all.take(i + 1).drop_last() == all.take(i as int));
        assert(all.take(i + 1).last() == line@);
        if let Some((uid, package)) = read_package_entry(line) {
            let ghost before = by_uid@;
            let mut list = match by_uid.remove(&uid) {
                Some(list) => list,
                None => Vec::new(),
            };
            let ghost list_before = list@;
            assert(texts(list_before) =~= packages_for(before, uid));
            list.push(package);
            assert(texts(list@) =~= texts(list_before).push(package@));
            by_uid.insert(uid, list);
            assert forall|u: u32| #[trigger] packages_for(by_uid@, u) == packages_named(
                all.take(i + 1),
                u,
            ) by {
                assert(packages_for(before, u) == packages_named(all.take(i as int), u));
            }
            assert forall|u: u32| #[trigger] by_uid@.contains_key(u) implies packages_for(
                by_uid@,
                u,
            ).len() > 0 by {
                if u != uid {
                    assert(before.contains_key(u));
                }
            }
        } else {
            assert forall|u: u32| #[trigger] packages_for(by_uid@, u) == packages_named(
                all.take(i + 1),
                u,
            ) by {
                assert(packages_for(by_uid@, u) == packages_named(all.take(i as int), u));
            }
        }
    }
    assert(all.take(all.len() as int) == all);
    by_uid
}

/// The header of a record.
#[derive(Clone, Copy, Debug, PartialEq, Eq, Structural)]
pub struct EventHeader {
    pub record_type: u16,
    pub payload_len: u32,
}

/// The header of the record that `bytes` start with.
pub open spec fn event_header(bytes: Seq<u8>) -> Option<EventHeader> {
    match (bytes::le_number_at(bytes, 0, 2), bytes::le_number_at(bytes, 4, 4)) {
        (Some(record_type), Some(payload_len)) => Some(
            EventHeader { record_type: record_type as u16, payload_len: payload_len as u32 },
        ),
        _ => None,
    }
}

/// Reads the header of a record.
#[verifier::allow_in_spec]
pub fn parse_event_header(bytes: &[u8]) -> (r: Option<EventHeader>)
    ensures
        r == event_header(bytes@),
    returns
        event_header(bytes@),
{
    let record_type = bytes::read_u16_le(bytes, 0)?;
    let payload_len = bytes::read_u32_le(bytes, 4)?;
    Some(EventHeader { record_type, payload_len })
}

/// The text in the bytes from `from` to `to`, which a 0 ends.
pub open spec fn text_at(payload: Seq<u8>, from: int, to: int) -> Seq<char> {
    bytes::text_of(bytes::until_nul(payload.subrange(from, to)))
}

/// The number in the `n` bytes from `off` on.
pub open spec fn number_at(payload: Seq<u8>, off: int, n: int) -> nat {
    bytes::le_number(payload.subrange(off, off + n))
}

/// The request for root in the payload of a record.
pub open spec fn su_request(payload: Seq<u8>, index: Map<u32, Vec<String>>) -> Option<
    SuRequestView,
> {
    if payload.len() < 444 {
        None
    } else {
        Some(
            SuRequestView {
                request_id: number_at(payload, 8, 8) as u64,
                deadline_ms: number_at(payload, 16, 8) as u64,
                uid: number_at(payload, 24, 4) as u32,
                euid: number_at(payload, 28, 4) as u32,
                pid: number_at(payload, 32, 4) as u32,
                tgid: number_at(payload, 36, 4) as u32,
                ppid: number_at(payload, 40, 4) as u32,
                comm: text_at(payload, 44, 60),
                path: text_at(payload, 60, 188),
                argv: text_at(payload, 188, 444),
                packages: packages_for(index, number_at(payload, 24, 4) as u32),
            },
        )
    }
}

/// Reads a request for root.
pub fn parse_su_request(payload: &[u8], packages: &HashMap<u32, Vec<String>>) -> (r: Option<
    SuRequest,
>)
    ensures
        match r {
            Some(request) => su_request(payload@, packages@) == Some(request@),
            None => su_request(payload@, packages@) is None,
        },
{
    let request_id = bytes::read_u64_le(payload, 8)?;
    let deadline_ms = bytes::read_u64_le(payload, 16)?;
    let uid = bytes::read_u32_le(payload, 24)?;
    let euid = bytes::read_u32_le(payload, 28)?;
    let pid = bytes::read_u32_le(payload, 32)?;
    let tgid = bytes::read_u32_le(payload, 36)?;
    let ppid = bytes::read_u32_le(payload, 40)?;
    if payload.len() < 444 {
        return None;
    }
    let comm = bytes::string_from_nul(vstd::slice::slice_subrange(payload, 44, 60));
    let path = bytes::string_from_nul(vstd::slice::slice_subrange(payload, 60, 188));
    let argv = bytes::string_from_nul(vstd::slice::slice_subrange(payload, 188, 444));
    let own = match packages.get(&uid) {
        Some(list) => clone_strings(list),
        None => Vec::new(),
    };
    assert(texts(own@) =~= packages_for(packages@, uid));
    Some(
        SuRequest {
            request_id,
            deadline_ms,
            uid,
            euid,
            pid,
            tgid,
            ppid,
            comm,
            path,
            argv,
            packages: own,
        },
    )
}

/// The payloads of the records that stand whole, one after another, at the
/// front of `buf`, without the records that stand for lost ones.
pub open spec fn payloads(buf: Seq<u8>) -> Seq<Seq<u8>>
    decreases buf.len(),
{
    match event_header(buf) {
        Some(header) => {
            let frame_len = EVENT_HEADER_SIZE + header.payload_len;
            if frame_len > buf.len() {
                seq![]
            } else {
                let rest = payloads(buf.skip(frame_len));
                if header.record_type == DROPPED_RECORD_TYPE {
                    rest
                } else {
                    seq![buf.subrange(EVENT_HEADER_SIZE as int, frame_len)] + rest
                }
            }
        },
        None => seq![],
    }
}

/// What a list of byte slices holds.
pub open spec fn byte_slices(v: Seq<&[u8]>) -> Seq<Seq<u8>> {
    v.map_values(|x: &[u8]| x@)
}

/// Finds the payloads of the records in what was read.
pub fn split_records<'a>(buf: &'a [u8]) -> (out: Vec<&'a [u8]>)
    ensures
        byte_slices(out@) == payloads(buf@),
{
    let mut out: Vec<&'a [u8]> = Vec::new();
    let mut rest = buf;
    assert(byte_slices(out@) + payloads(rest@) =~= payloads(buf@));
    while rest.len() >= EVENT_HEADER_SIZE
        invariant
            byte_slices(out@) + payloads(rest@) == payloads(buf@),
        decreases rest@.len(),
    {
        let header = match parse_event_header(rest) {
            Some(header) => header,
            None => return out,
        };
        let n = rest.len();
        if header.payload_len as u64 > (n - EVENT_HEADER_SIZE) as u64 {
            assert(byte_slices(out@) + Seq::<Seq<u8>>::empty() =~= byte_slices(out@));
            return out;
        }
        let frame_len = EVENT_HEADER_SIZE + header.payload_len as usize;
        let ghost before = byte_slices(out@);
        let next = vstd::slice::slice_subrange(rest, frame_len, n);
        assert(next@ =~= rest@.skip(frame_len as int));
        if header.record_type != DROPPED_RECORD_TYPE {
            let payload = vstd::slice::slice_subrange(rest, EVENT_HEADER_SIZE, frame_len);
            out.push(payload);
            assert(byte_slices(out@) =~= before.push(payload@));
            assert(before + (seq![payload@] + payloads(next@)) =~= before.push(payload@) + payloads(
                next@,
            ));
        }
        rest = next;
    }
    assert(byte_slices(out@) + Seq::<Seq<u8>>::empty() =~= byte_slices(out@));
    out
}

/// A record that stands whole in front of other bytes is read as it is, or
/// passed over where it stands for lost ones, and the other bytes are read as if
/// it did not stand there.
pub proof fn law_records_in_turn(header: Seq<u8>, payload: Seq<u8>, rest: Seq<u8>)
    requires
        header.len() == EVENT_HEADER_SIZE,
        event_header(header)->0.payload_len == payload.len(),
    ensures
        payloads(header + payload + rest) == if event_header(header)->0.record_type
            == DROPPED_RECORD_TYPE {
            payloads(rest)
        } else {
            seq![payload] + payloads(rest)
        },
{
    let buf = header + payload + rest;
    assert(buf.subrange(0, 2) =~= header.subrange(0, 2));
    assert(buf.subrange(4, 8) =~= header.subrange(4, 8));
    assert(event_header(buf) == event_header(header));
    let frame_len = EVENT_HEADER_SIZE + payload.len();
    assert(buf.skip(frame_len) =~= rest);
    assert(buf.subrange(EVENT_HEADER_SIZE as int, frame_len) =~= payload);
}

/// A record of which the end is missing is not read.
pub proof fn law_part_of_a_record(buf: Seq<u8>)
    requires
        buf.len() < EVENT_HEADER_SIZE || buf.len() < EVENT_HEADER_SIZE + event_header(
            buf,
        )->0.payload_len,
    ensures
        payloads(buf) == Seq::<Seq<u8>>::empty(),
{
}

/// What came of the file from which the requests for root are read.
pub enum SuFdEvent<'a> {
    /// It was opened, or not.
    Opened(Result<i32, OsError>),
    /// A read failed, by an interruption or otherwise.
    ReadFailed { interrupted: bool },
    /// These bytes were read.
    Read(&'a [u8]),
}

/// Why the requests for root are no longer read.
#[derive(Clone, Copy, Debug, PartialEq, Eq, Structural)]
pub enum SuFdEnd {
    NotOpened,
    ReadFailed,
    Closed,
}

/// What to do next about the file from which the requests for root are read.
pub enum SuFdStep<'a> {
    /// Read on.
    Read,
    /// Record the requests in these payloads in turn, then read on.
    Record(Vec<&'a [u8]>),
    /// Read no more.
    Stop(SuFdEnd),
}

/// What came of the file.
pub enum SuFdEventView {
    Opened(Result<i32, OsError>),
    ReadFailed { interrupted: bool },
    Read(Seq<u8>),
}

impl<'a> View for SuFdEvent<'a> {
    type V = SuFdEventView;

    open spec fn view(&self) -> SuFdEventView {
        match *self {
            SuFdEvent::Opened(r) => SuFdEventView::Opened(r),
            SuFdEvent::ReadFailed { interrupted } => SuFdEventView::ReadFailed { interrupted },
            SuFdEvent::Read(buf) => SuFdEventView::Read(buf@),
        }
    }
}

/// What is to be done next about the file.
pub enum SuFdStepView {
    Read,
    Record(Seq<Seq<u8>>),
    Stop(SuFdEnd),
}

impl<'a> View for SuFdStep<'a> {
    type V = SuFdStepView;

    open spec fn view(&self) -> SuFdStepView {
        match *self {
            SuFdStep::Read => SuFdStepView::Read,
            SuFdStep::Record(found) => SuFdStepView::Record(byte_slices(found@)),
            SuFdStep::Stop(end) => SuFdStepView::Stop(end),
        }
    }
}

/// What to do next about the file from which the requests for root are read.
pub open spec fn reader_step(event: SuFdEventView) -> SuFdStepView {
    match event {
        SuFdEventView::Opened(Ok(_)) => SuFdStepView::Read,
        SuFdEventView::Opened(Err(_)) => SuFdStepView::Stop(SuFdEnd::NotOpened),
        SuFdEventView::ReadFailed { interrupted } => if interrupted {
            SuFdStepView::Read
        } else {
            SuFdStepView::Stop(SuFdEnd::ReadFailed)
        },
        SuFdEventView::Read(buf) => if buf.len() == 0 {
            SuFdStepView::Stop(SuFdEnd::Closed)
        } else {
            SuFdStepView::Record(payloads(buf))
        },
    }
}

/// Decides what to do next about the file from which the requests for root are
/// read.
pub fn su_request_reader<'a>(event: SuFdEvent<'a>) -> (step: SuFdStep<'a>)
    ensures
        step@ == reader_step(event@),
{
    match event {
        SuFdEvent::Opened(Ok(_)) => SuFdStep::Read,
        SuFdEvent::Opened(Err(_)) => SuFdStep::Stop(SuFdEnd::NotOpened),
        SuFdEvent::ReadFailed { interrupted } => if interrupted {
            SuFdStep::Read
        } else {
            SuFdStep::Stop(SuFdEnd::ReadFailed)
        },
        SuFdEvent::Read(buf) => if buf.len() == 0 {
            SuFdStep::Stop(SuFdEnd::Closed)
        } else {
            SuFdStep::Record(split_records(buf))
        },
    }
}

/// The requests for root that wait for a decision, by their ids.
pub struct WebState {
    pending: HashMap<u64, SuRequest>,
}

impl View for WebState {
    type V = Map<u64, SuRequestView>;

    closed spec fn view(&self) -> Map<u64, SuRequestView> {
        self.pending@.map_values(|r: SuRequest| r@)
    }
}

/// Whether each request stands under its own id.
pub open spec fn under_own_ids(pending: Map<u64, SuRequestView>) -> bool {
    forall|id: u64| #[trigger] pending.contains_key(id) ==> pending[id].request_id == id
}

/// The requests that wait after the payload of a record has come in.
pub open spec fn pending_after(
    pending: Map<u64, SuRequestView>,
    payload: Seq<u8>,
    packages: Map<u32, Vec<String>>,
) -> Map<u64, SuRequestView> {
    match su_request(payload, packages) {
        Some(request) => pending.insert(request.request_id, request),
        None => pending,
    }
}

/// The requests that wait after the payloads of records have come in one after
/// another, each with the packages as they were then.
pub open spec fn pending_after_all(
    pending: Map<u64, SuRequestView>,
    payloads: Seq<Seq<u8>>,
    packages: Seq<Map<u32, Vec<String>>>,
) -> Map<u64, SuRequestView>
    decreases payloads.len(),
{
    if payloads.len() == 0 {
        pending
    } else {
        pending_after(
            pending_after_all(pending, payloads.drop_last(), packages),
            payloads.last(),
            packages[payloads.len() - 1],
        )
    }
}

/// The last of the requests in the payloads that has the id `id`.
pub open spec fn last_request(
    payloads: Seq<Seq<u8>>,
    packages: Seq<Map<u32, Vec<String>>>,
    id: u64,
) -> Option<SuRequestView>
    decreases payloads.len(),
{
    if payloads.len() == 0 {
        None
    } else {
        let last = su_request(payloads.last(), packages[payloads.len() - 1]);
        if last matches Some(request) && request.request_id == id {
            last
        } else {
            last_request(payloads.drop_last(), packages, id)
        }
    }
}

impl WebState {
    #[verifier::type_invariant]
    spec fn inv(self) -> bool {
        under_own_ids(self@)
    }

    /// No requests.
    pub fn new() -> (r: Self)
        ensures
            r@ == Map::<u64, SuRequestView>::empty(),
    {
        let pending: HashMap<u64, SuRequest> = HashMap::new();
        assert(pending@.map_values(|r: SuRequest| r@) =~= Map::<u64, SuRequestView>::empty());
        WebState { pending }
    }

    /// Records the request for root in the payload of a record. It takes the
    /// place of one with the same id.
    pub fn record(&mut self, payload: &[u8], packages: &HashMap<u32, Vec<String>>)
        ensures
            final(self)@ == pending_after(old(self)@, payload@, packages@),
            under_own_ids(final(self)@),
    {
        proof {
            use_type_invariant(&*self);
        }
        if let Some(request) = parse_su_request(payload, packages) {
            let ghost before = self@;
            let ghost added = request@;
            let mut pending: HashMap<u64, SuRequest> = HashMap::new();
            assert(pending@.map_values(|r: SuRequest| r@) =~= Map::<u64, SuRequestView>::empty());
            std::mem::swap(&mut pending, &mut self.pending);
            pending.insert(request.request_id, request);
            assert(pending@.map_values(|r: SuRequest| r@) =~= before.insert(
                added.request_id,
                added,
            ));
            self.pending = pending;
        }
    }

    /// The request with the id `request_id`.
    pub fn get(&self, request_id: u64) -> (r: Option<SuRequest>)
        ensures
            match r {
                Some(request) => {
                    &&& self@.contains_key(request_id)
                    &&& self@[request_id] == request@
                    &&& request.request_id == request_id
                },
                None => !self@.contains_key(request_id),
            },
    {
        proof {
            use_type_invariant(self);
        }
        match self.pending.get(&request_id) {
            Some(request) => {
                assert(self@.contains_key(request_id));
                Some(request.clone())
            },
            None => None,
        }
    }

    /// Drops the request with the id `request_id`.
    pub fn remove(&mut self, request_id: u64)
        ensures
            final(self)@ == old(self)@.remove(request_id),
            under_own_ids(final(self)@),
    {
        proof {
            use_type_invariant(&*self);
        }
        let ghost before = self@;
        let mut pending: HashMap<u64, SuRequest> = HashMap::new();
        assert(pending@.map_values(|r: SuRequest| r@) =~= Map::<u64, SuRequestView>::empty());
        std::mem::swap(&mut pending, &mut self.pending);
        pending.remove(&request_id);
        assert(pending@.map_values(|r: SuRequest| r@) =~= before.remove(request_id));
        self.pending = pending;
    }
}

impl Default for WebState {
    fn default() -> (r: Self)
        ensures
            r@ == Map::<u64, SuRequestView>::empty(),
    {
        WebState::new()
    }
}

/// A list of texts as a JSON array.
pub open spec fn strings_json(v: Seq<Seq<char>>) -> Json {
    Json::Array(v.map_values(|s: Seq<char>| Json::Str(s)))
}

/// A request for root as a JSON object.
pub open spec fn request_json(r: SuRequestView) -> Json {
    json::object_of(
        seq![
            ("request_id"@, Json::Unsigned(r.request_id)),
            ("deadline_ms"@, Json::Unsigned(r.deadline_ms)),
            ("uid"@, Json::Unsigned(r.uid as u64)),
            ("euid"@, Json::Unsigned(r.euid as u64)),
            ("pid"@, Json::Unsigned(r.pid as u64)),
            ("tgid"@, Json::Unsigned(r.tgid as u64)),
            ("ppid"@, Json::Unsigned(r.ppid as u64)),
            ("comm"@, Json::Str(r.comm)),
            ("path"@, Json::Str(r.path)),
            ("argv"@, Json::Str(r.argv)),
            ("packages"@, strings_json(r.packages)),
        ],
    )
}

fn strings_to_json(v: &Vec<String>) -> (r: Value)
    ensures
        json::json(r) == strings_json(texts(v@)),
{
    let mut items: Vec<Value> = Vec::new();
    for i in 0..v.len()
        invariant
            items@.len() == i,
            forall|j: int| 0 <= j < i ==> json::json(#[trigger] items@[j]) == Json::Str(v@[j]@),
    {
        items.push(json::json_string(v[i].as_str()));
    }
    assert(json::jsons(items@) =~= texts(v@).map_values(|s: Seq<char>| Json::Str(s)));
    json::json_array(items)
}

/// Writes a request for root as a JSON object.
pub fn request_to_json(request: &SuRequest) -> (r: Value)
    ensures
        json::json(r) == request_json(request@),
{
    let fields = vec![
        ("request_id".to_string(), json::json_number(request.request_id)),
        ("deadline_ms".to_string(), json::json_number(request.deadline_ms)),
        ("uid".to_string(), json::json_number(request.uid as u64)),
        ("euid".to_string(), json::json_number(request.euid as u64)),
        ("pid".to_string(), json::json_number(request.pid as u64)),
        ("tgid".to_string(), json::json_number(request.tgid as u64)),
        ("ppid".to_string(), json::json_number(request.ppid as u64)),
        ("comm".to_string(), json::json_string(request.comm.as_str())),
        ("path".to_string(), json::json_string(request.path.as_str())),
        ("argv".to_string(), json::json_string(request.argv.as_str())),
        ("packages".to_string(), strings_to_json(&request.packages)),
    ];
    assert(json::field_views(fields@) =~= seq![
        ("request_id"@, Json::Unsigned(request.request_id)),
        ("deadline_ms"@, Json::Unsigned(request.deadline_ms)),
        ("uid"@, Json::Unsigned(request.uid as u64)),
        ("euid"@, Json::Unsigned(request.euid as u64)),
        ("pid"@, Json::Unsigned(request.pid as u64)),
        ("tgid"@, Json::Unsigned(request.tgid as u64)),
        ("ppid"@, Json::Unsigned(request.ppid as u64)),
        ("comm"@, Json::Str(request.comm@)),
        ("path"@, Json::Str(request.path@)),
        ("argv"@, Json::Str(request.argv@)),
        ("packages"@, strings_json(texts(request.packages@))),
    ]);
    proof {
        reveal_strlit("request_id");
        reveal_strlit("deadline_ms");
        reveal_strlit("uid");
        reveal_strlit("euid");
        reveal_strlit("pid");
        reveal_strlit("tgid");
        reveal_strlit("ppid");
        reveal_strlit("comm");
        reveal_strlit("path");
        reveal_strlit("argv");
        reveal_strlit("packages");
        let views = json::field_views(fields@);
        assert(views[0].0.len() == 10 && views[1].0.len() == 11 && views[2].0.len() == 3
            && views[3].0.len() == 4 && views[4].0.len() == 3 && views[5].0.len() == 4
            && views[6].0.len() == 4 && views[7].0.len() == 4 && views[8].0.len() == 4
            && views[9].0.len() == 4 && views[10].0.len() == 8 && views[2].0[0] == 'u'
            && views[4].0[0] == 'p' && views[3].0[0] == 'e' && views[5].0[0] == 't'
            && views[6].0[0] == 'p' && views[7].0[0] == 'c' && views[8].0[0] == 'p'
            && views[9].0[0] == 'a' && views[6].0[1] == 'p' && views[8].0[1] == 'a');
    }
    json::json_object(fields)
}

/// The requests with the given ids, as a JSON object.
pub open spec fn requests_json(pending: Map<u64, SuRequestView>, ids: Seq<u64>) -> Json {
    json::object_of(
        seq![
            (
                "requests"@,
                Json::Array(ids.map_values(|id: u64| request_json(pending[id]))),
            ),
        ],
    )
}

/// Whether `value` lists the requests that wait, each once.
pub open spec fn is_listing(pending: Map<u64, SuRequestView>, value: Json) -> bool {
    exists|ids: Seq<u64>|
        {
            &&& ids.no_duplicates()
            &&& ids.to_set() == pending.dom()
            &&& value == #[trigger] requests_json(pending, ids)
        }
}

/// Lists the requests for root that wait for a decision, each once, in no
/// particular order.
pub fn handle_su_requests(state: &WebState) -> (r: Value)
    ensures
        is_listing(state@, json::json(r)),
        under_own_ids(state@),
{
    proof {
        use_type_invariant(state);
    }
    let mut items: Vec<Value> = Vec::new();
    let ghost mut ids: Seq<u64> = Seq::empty();
    let ghost pending = state@;
    for id in it: state.pending.keys()
        invariant
            pending == state@,
            it.seq().unref().to_set() == state.pending@.dom(),
            it.seq().no_duplicates(),
            it.index() == it.seq().len() ==> ids.to_set() == state.pending@.dom(),
            ids == it.seq().unref().take(it.index() as int),
            ids.no_duplicates(),
            json::jsons(items@) == ids.map_values(|id: u64| request_json(pending[id])),
    {
        let ghost before = items@;
        assert(it.seq().unref()[it.index() as int] == *id);
        assert(it.seq().unref().to_set().contains(*id));
        match state.pending.get(id) {
            Some(request) => items.push(request_to_json(request)),
            None => {},
        }
        proof {
            assert(json::jsons(before).push(json::json(items@.last())) =~= json::jsons(items@));
            ids = ids.push(*id);
            assert(json::jsons(items@) =~= ids.map_values(|id: u64| request_json(pending[id])));
            assert(ids =~= it.seq().unref().take(it.index() + 1));
            assert(it.index() + 1 == it.seq().len() ==> ids =~= it.seq().unref());
            assert forall|i: int, j: int| 0 <= i < j < ids.len() implies ids[i] != ids[j] by {
                assert(it.seq()[i] != it.seq()[j]);
            }
        }
    }
    let requests = json::json_array(items);
    let fields = vec![("requests".to_string(), requests)];
    let r = json::json_object(fields);
    proof {
        assert(ids.to_set() =~= state@.dom());
        assert(json::field_views(fields@) =~= seq![("requests"@, json::json(requests))]);
        assert(json::json(r) == requests_json(state@, ids));
    }
    r
}

/// After all the payloads of what was read, there waits under an id the last
/// request with that id that they hold, and where they hold none, what waited
/// under it before.
pub proof fn law_last_request_of_a_read_waits(
    pending: Map<u64, SuRequestView>,
    buf: Seq<u8>,
    packages: Seq<Map<u32, Vec<String>>>,
    id: u64,
)
    ensures
        ({
            let after = pending_after_all(pending, payloads(buf), packages);
            match last_request(payloads(buf), packages, id) {
                Some(request) => after.contains_key(id) && after[id] == request,
                None => {
                    &&& after.contains_key(id) <==> pending.contains_key(id)
                    &&& after[id] == pending[id]
                },
            }
        }),
        under_own_ids(pending) ==> under_own_ids(
            pending_after_all(pending, payloads(buf), packages),
        ),
{
    lemma_last_request_waits(pending, payloads(buf), packages, id);
    if under_own_ids(pending) {
        lemma_all_under_own_ids(pending, payloads(buf), packages);
    }
}

proof fn lemma_last_request_waits(
    pending: Map<u64, SuRequestView>,
    found: Seq<Seq<u8>>,
    packages: Seq<Map<u32, Vec<String>>>,
    id: u64,
)
    ensures
        match last_request(found, packages, id) {
            Some(request) => pending_after_all(pending, found, packages).contains_key(id)
                && pending_after_all(pending, found, packages)[id] == request,
            None => {
                &&& pending_after_all(pending, found, packages).contains_key(id)
                    <==> pending.contains_key(id)
                &&& pending_after_all(pending, found, packages)[id] == pending[id]
            },
        },
    decreases found.len(),
{
    if found.len() > 0 {
        lemma_last_request_waits(pending, found.drop_last(), packages, id);
    }
}

proof fn lemma_all_under_own_ids(
    pending: Map<u64, SuRequestView>,
    found: Seq<Seq<u8>>,
    packages: Seq<Map<u32, Vec<String>>>,
)
    requires
        under_own_ids(pending),
    ensures
        under_own_ids(pending_after_all(pending, found, packages)),
    decreases found.len(),
{
    if found.len() > 0 {
        lemma_all_under_own_ids(pending, found.drop_last(), packages);
    }
}

/// A request for root that has come in waits under its own id, and those with
/// other ids wait as before.
pub proof fn law_recorded_request_waits(
    pending: Map<u64, SuRequestView>,
    payload: Seq<u8>,
    packages: Map<u32, Vec<String>>,
    other: u64,
)
    requires
        payload.len() >= 444,
    ensures
        ({
            let id = number_at(payload, 8, 8) as u64;
            let after = pending_after(pending, payload, packages);
            &&& after.contains_key(id)
            &&& Some(after[id]) == su_request(payload, packages)
            &&& after[id].request_id == id
            &&& other != id ==> (after.contains_key(other) <==> pending.contains_key(other))
            &&& other != id ==> after[other] == pending[other]
        }),
{
}

/// Reading ends only where the file could not be opened, a read failed without
/// an interruption, or nothing was read; and whatever was read is recorded.
pub proof fn law_reader_stops_only_at_an_end(event: SuFdEventView)
    ensures
        reader_step(event) is Stop <==> {
            ||| event matches SuFdEventView::Opened(r) && r is Err
            ||| event == (SuFdEventView::ReadFailed { interrupted: false })
            ||| event == SuFdEventView::Read(Seq::empty())
        },
        reader_step(event) matches SuFdStepView::Stop(end) ==> {
            &&& end == SuFdEnd::NotOpened <==> event is Opened
            &&& end == SuFdEnd::ReadFailed <==> event is ReadFailed
            &&& end == SuFdEnd::Closed <==> event is Read
        },
        reader_step(event) is Record <==> (event matches SuFdEventView::Read(buf) && buf.len() > 0),
        event matches SuFdEventView::Read(buf) ==> (buf.len() > 0 ==> reader_step(event)
            == SuFdStepView::Record(payloads(buf))),
{
    if let SuFdEventView::Read(buf) = event {
        if buf.len() == 0 {
            assert(buf =~= Seq::empty());
        }
    }
}

/// The texts of a list are those of its strings, in their order.
pub proof fn law_texts_are_those_of_the_strings(v: Seq<String>, i: int)
    requires
        0 <= i < v.len(),
    ensures
        texts(v).len() == v.len(),
        texts(v)[i] == v[i]@,
{
}

/// A line that names a package and a user, and whatever follows, adds that
/// package behind those of the user, and nothing to any other user.
pub proof fn law_package_line_adds_its_package(
    lines: Seq<Seq<char>>,
    package: Seq<char>,
    uid: u32,
    rest: Seq<char>,
    other: u32,
)
    requires
        package.len() > 0,
        forall|i: int| 0 <= i < package.len() ==> !text::white_space(#[trigger] package[i]),
        other != uid,
    ensures
        ({
            let line = package + seq![' '] + number::decimal(uid as nat) + seq![' '] + rest;
            let short = package + seq![' '] + number::decimal(uid as nat);
            &&& packages_named(lines.push(line), uid) == packages_named(lines, uid).push(package)
            &&& packages_named(lines.push(line), other) == packages_named(lines, other)
            &&& packages_named(lines.push(short), uid) == packages_named(lines, uid).push(package)
            &&& packages_named(lines.push(short), other) == packages_named(lines, other)
        }),
{
    let digits = number::decimal(uid as nat);
    let line = package + seq![' '] + digits + seq![' '] + rest;
    let short = package + seq![' '] + digits;
    number::lemma_decimal_digits(uid as nat);
    number::law_decimal_reads_back(uid as nat);
    assert forall|i: int| 0 <= i < digits.len() implies !text::white_space(
        #[trigger] digits[i],
    ) by {
        assert(number::is_digit(digits[i]));
    }
    assert(line =~= package + seq![' '] + (digits + seq![' '] + rest));
    text::lemma_words_of(package, digits + seq![' '] + rest);
    text::lemma_words_of(package, digits);
    text::lemma_words_of(digits, rest);
    assert(text::words(line)[0] == package && text::words(line)[1] == digits);
    assert(text::words(short)[0] == package && text::words(short)[1] == digits);
    assert(lines.push(line).drop_last() =~= lines);
    assert(lines.push(short).drop_last() =~= lines);
}

/// A line with fewer than two words, or whose second word is not the number of a
/// user, adds nothing; and no lines name no packages.
pub proof fn law_other_lines_add_nothing(lines: Seq<Seq<char>>, line: Seq<char>, uid: u32)
    requires
        text::words(line).len() < 2 || (number::unsigned(text::words(line)[1]) matches Some(n)
            ==> n > 4294967295),
    ensures
        packages_named(lines.push(line), uid) == packages_named(lines, uid),
        packages_named(Seq::empty(), uid) == Seq::<Seq<char>>::empty(),
{
    assert(lines.push(line).drop_last() =~= lines);
}

/// The lines of the package list are those between its line ends, and there are
/// none where it could not be read.
pub proof fn law_package_lines_join_back(content: Seq<char>, i: int)
    ensures
        text::joined(package_lines(Some(content)), seq!['\n']) == content,
        0 <= i < package_lines(Some(content)).len() ==> !package_lines(Some(content))[i].contains(
            '\n',
        ),
        package_lines(None) == Seq::<Seq<char>>::empty(),
{
    let pat = seq!['\n'];
    text::law_split_parts_join_back(content, pat);
    let parts = text::split_on(content, pat);
    if 0 <= i < parts.len() && parts[i].contains('\n') {
        let k = choose|k: int| 0 <= k < parts[i].len() && parts[i][k] == '\n';
        assert(parts[i].subrange(k, k + pat.len()) =~= pat);
    }
}

/// The packages of a user in an index are those that stand there, and none where
/// nothing stands there.
pub proof fn law_packages_are_those_in_the_index(index: Map<u32, Vec<String>>, uid: u32, i: int)
    ensures
        !index.contains_key(uid) ==> packages_for(index, uid).len() == 0,
        index.contains_key(uid) ==> packages_for(index, uid).len() == index[uid]@.len(),
        index.contains_key(uid) && 0 <= i < index[uid]@.len() ==> packages_for(index, uid)[i]
            == index[uid]@[i]@,
{
}

/// The header of a record is read as it was written: the type in its first two
/// bytes, and the length of the payload in four bytes after two others.
pub proof fn law_record_header_reads_back(
    record_type: u16,
    between: Seq<u8>,
    payload_len: u32,
    rest: Seq<u8>,
)
    requires
        between.len() == 2,
    ensures
        event_header(
            bytes::le_bytes(record_type as nat, 2) + between + bytes::le_bytes(
                payload_len as nat,
                4,
            ) + rest,
        ) == Some(EventHeader { record_type, payload_len }),
        event_header(rest) is Some <==> rest.len() >= 8,
        forall|bytes: &[u8]| #[trigger] parse_event_header(bytes) == event_header(bytes@),
{
    let a = bytes::le_bytes(record_type as nat, 2);
    let b = bytes::le_bytes(payload_len as nat, 4);
    let none = Seq::<u8>::empty();
    let all = a + between + b + rest;
    bytes::law_bits_fit_into_bytes(record_type, payload_len, 0);
    bytes::law_number_reads_back(none, record_type as nat, 2, between + b + rest);
    bytes::law_number_reads_back(a + between, payload_len as nat, 4, rest);
    assert(all =~= none + a + (between + b + rest));
}

/// A record is 24 bytes of header and its payload. It is read as that payload,
/// or passed over where its type is 0xffff, and the bytes behind it are read as
/// if it did not stand there.
pub proof fn law_record_reads_back(
    record_type: u16,
    between: Seq<u8>,
    more: Seq<u8>,
    payload: Seq<u8>,
    rest: Seq<u8>,
)
    requires
        between.len() == 2,
        more.len() == 16,
        payload.len() <= 4294967295,
    ensures
        payloads(
            bytes::le_bytes(record_type as nat, 2) + between + bytes::le_bytes(payload.len(), 4)
                + more + payload + rest,
        ) == if record_type == 0xffff {
            payloads(rest)
        } else {
            seq![payload] + payloads(rest)
        },
        payloads(
            (bytes::le_bytes(record_type as nat, 2) + between + bytes::le_bytes(payload.len(), 4)
                + more + payload).drop_last(),
        ) == Seq::<Seq<u8>>::empty(),
{
    let header = bytes::le_bytes(record_type as nat, 2) + between + bytes::le_bytes(
        payload.len(),
        4,
    ) + more;
    bytes::law_bits_fit_into_bytes(record_type, payload.len() as u32, 0);
    bytes::law_number_reads_back(Seq::empty(), record_type as nat, 2, Seq::empty());
    bytes::law_number_reads_back(Seq::empty(), payload.len(), 4, Seq::empty());
    law_record_header_reads_back(record_type, between, payload.len() as u32, more);
    law_records_in_turn(header, payload, rest);
    let cut = (header + payload).drop_last();
    if cut.len() >= 24 {
        law_record_header_reads_back(
            record_type,
            between,
            payload.len() as u32,
            (more + payload).drop_last(),
        );
        assert(cut =~= bytes::le_bytes(record_type as nat, 2) + between + bytes::le_bytes(
            payload.len(),
            4,
        ) + (more + payload).drop_last());
    }
    law_part_of_a_record(cut);
}

/// The bytes in which the driver writes a request for root: 8 of no concern
/// here, the numbers, and the texts, each in its place.
pub open spec fn payload_of(front: Seq<u8>, r: SuRequestView, end: Seq<u8>) -> Seq<u8> {
    front + bytes::le_bytes(r.request_id as nat, 8) + bytes::le_bytes(r.deadline_ms as nat, 8)
        + bytes::le_bytes(r.uid as nat, 4) + bytes::le_bytes(r.euid as nat, 4) + bytes::le_bytes(
        r.pid as nat,
        4,
    ) + bytes::le_bytes(r.tgid as nat, 4) + bytes::le_bytes(r.ppid as nat, 4) + bytes::padded(
        r.comm,
        16,
    ) + bytes::padded(r.path, 128) + bytes::padded(r.argv, 256) + end
}

/// Whether a text can stand in a place of `n` bytes.
pub open spec fn has_place(s: Seq<char>, n: nat) -> bool {
    vstd::utf8::encode_utf8(s).len() <= n && !vstd::utf8::encode_utf8(s).contains(0)
}

/// A request for root that is written is read as what it was written from, with
/// the packages of its user; one of which a byte is missing is not read.
#[verifier::spinoff_prover]
#[verifier::rlimit(40)]
pub proof fn law_request_for_root_reads_back(
    front: Seq<u8>,
    r: SuRequestView,
    end: Seq<u8>,
    index: Map<u32, Vec<String>>,
)
    requires
        front.len() == 8,
        has_place(r.comm, 16),
        has_place(r.path, 128),
        has_place(r.argv, 256),
    ensures
        su_request(payload_of(front, r, end), index) == Some(
            SuRequestView { packages: packages_for(index, r.uid), ..r },
        ),
        su_request(payload_of(front, r, Seq::empty()).drop_last(), index) is None,
{
    let b1 = bytes::le_bytes(r.request_id as nat, 8);
    let b2 = bytes::le_bytes(r.deadline_ms as nat, 8);
    let b3 = bytes::le_bytes(r.uid as nat, 4);
    let b4 = bytes::le_bytes(r.euid as nat, 4);
    let b5 = bytes::le_bytes(r.pid as nat, 4);
    let b6 = bytes::le_bytes(r.tgid as nat, 4);
    let b7 = bytes::le_bytes(r.ppid as nat, 4);
    let t1 = bytes::padded(r.comm, 16);
    let t2 = bytes::padded(r.path, 128);
    let t3 = bytes::padded(r.argv, 256);
    let none = Seq::<u8>::empty();
    bytes::law_bits_fit_into_bytes(0, r.uid, r.request_id);
    bytes::law_bits_fit_into_bytes(0, r.euid, r.deadline_ms);
    bytes::law_bits_fit_into_bytes(0, r.pid, 0);
    bytes::law_bits_fit_into_bytes(0, r.tgid, 0);
    bytes::law_bits_fit_into_bytes(0, r.ppid, 0);
    bytes::law_number_reads_back(none, r.request_id as nat, 8, none);
    bytes::law_number_reads_back(none, r.deadline_ms as nat, 8, none);
    bytes::law_number_reads_back(none, r.uid as nat, 4, none);
    bytes::law_number_reads_back(none, r.euid as nat, 4, none);
    bytes::law_number_reads_back(none, r.pid as nat, 4, none);
    bytes::law_number_reads_back(none, r.tgid as nat, 4, none);
    bytes::law_number_reads_back(none, r.ppid as nat, 4, none);
    bytes::law_padded_text_reads_back(r.comm, 16);
    bytes::law_padded_text_reads_back(r.path, 128);
    bytes::law_padded_text_reads_back(r.argv, 256);
    let p = payload_of(front, r, end);
    assert(p.subrange(8, 16) =~= b1);
    assert(p.subrange(16, 24) =~= b2);
    assert(p.subrange(24, 28) =~= b3);
    assert(p.subrange(28, 32) =~= b4);
    assert(p.subrange(32, 36) =~= b5);
    assert(p.subrange(36, 40) =~= b6);
    assert(p.subrange(40, 44) =~= b7);
    assert(p.subrange(44, 60) =~= t1);
    assert(p.subrange(60, 188) =~= t2);
    assert(p.subrange(188, 444) =~= t3);
}

/// A request for root is written as an object with each of its fields, under
/// their names, and no others.
pub proof fn law_request_json_has_its_fields(r: SuRequestView, name: Seq<char>, i: int)
    ensures
        json::field(request_json(r), "request_id"@) == Some(Json::Unsigned(r.request_id)),
        json::field(request_json(r), "deadline_ms"@) == Some(Json::Unsigned(r.deadline_ms)),
        json::field(request_json(r), "uid"@) == Some(Json::Unsigned(r.uid as u64)),
        json::field(request_json(r), "euid"@) == Some(Json::Unsigned(r.euid as u64)),
        json::field(request_json(r), "pid"@) == Some(Json::Unsigned(r.pid as u64)),
        json::field(request_json(r), "tgid"@) == Some(Json::Unsigned(r.tgid as u64)),
        json::field(request_json(r), "ppid"@) == Some(Json::Unsigned(r.ppid as u64)),
        json::field(request_json(r), "comm"@) == Some(Json::Str(r.comm)),
        json::field(request_json(r), "path"@) == Some(Json::Str(r.path)),
        json::field(request_json(r), "argv"@) == Some(Json::Str(r.argv)),
        json::field(request_json(r), "packages"@) matches Some(Json::Array(listed))
            && listed.len() == r.packages.len() && (0 <= i < r.packages.len() ==> listed[i]
            == Json::Str(r.packages[i])),
        json::field(request_json(r), name) is Some ==> (name == "request_id"@ || name
            == "deadline_ms"@ || name == "uid"@ || name == "euid"@ || name == "pid"@ || name
            == "tgid"@ || name == "ppid"@ || name == "comm"@ || name == "path"@ || name
            == "argv"@ || name == "packages"@),
{
    reveal_strlit("request_id");
    reveal_strlit("deadline_ms");
    reveal_strlit("uid");
    reveal_strlit("euid");
    reveal_strlit("pid");
    reveal_strlit("tgid");
    reveal_strlit("ppid");
    reveal_strlit("comm");
    reveal_strlit("path");
    reveal_strlit("argv");
    reveal_strlit("packages");
    let f = seq![
        ("request_id"@, Json::Unsigned(r.request_id)),
        ("deadline_ms"@, Json::Unsigned(r.deadline_ms)),
        ("uid"@, Json::Unsigned(r.uid as u64)),
        ("euid"@, Json::Unsigned(r.euid as u64)),
        ("pid"@, Json::Unsigned(r.pid as u64)),
        ("tgid"@, Json::Unsigned(r.tgid as u64)),
        ("ppid"@, Json::Unsigned(r.ppid as u64)),
        ("comm"@, Json::Str(r.comm)),
        ("path"@, Json::Str(r.path)),
        ("argv"@, Json::Str(r.argv)),
        ("packages"@, strings_json(r.packages)),
    ];
    assert(f[0].0.len() == 10 && f[1].0.len() == 11 && f[2].0.len() == 3 && f[3].0.len() == 4
        && f[4].0.len() == 3 && f[5].0.len() == 4 && f[6].0.len() == 4 && f[7].0.len() == 4
        && f[8].0.len() == 4 && f[9].0.len() == 4 && f[10].0.len() == 8);
    assert(f[2].0[0] == 'u' && f[4].0[0] == 'p' && f[3].0[0] == 'e' && f[5].0[0] == 't'
        && f[6].0[0] == 'p' && f[7].0[0] == 'c' && f[8].0[0] == 'p' && f[9].0[0] == 'a'
        && f[6].0[1] == 'p' && f[8].0[1] == 'a');
    assert(request_json(r) == json::object_of(f));
    json::law_object_has_its_fields(f, name);
}

/// The list of requests holds one object for each id, in the order of the ids.
pub proof fn law_requests_are_listed_by_id(
    pending: Map<u64, SuRequestView>,
    ids: Seq<u64>,
    i: int,
    name: Seq<char>,
)
    ensures
        json::field(requests_json(pending, ids), "requests"@) matches Some(Json::Array(listed))
            && listed.len() == ids.len() && (0 <= i < ids.len() ==> listed[i] == request_json(
            pending[ids[i]],
        )),
        json::field(requests_json(pending, ids), name) is Some ==> name == "requests"@,
{
    let f = seq![
        ("requests"@, Json::Array(ids.map_values(|id: u64| request_json(pending[id])))),
    ];
    assert(requests_json(pending, ids) == json::object_of(f));
    json::law_object_has_its_fields(f, name);
    assert(f[0].0 == "requests"@);
}

/// Each request that waits is in the list once, and nothing else is.
pub proof fn law_each_waiting_request_is_listed_once(
    pending: Map<u64, SuRequestView>,
    value: Json,
    id: u64,
)
    requires
        is_listing(pending, value),
    ensures
        json::field(value, "requests"@) matches Some(Json::Array(listed)) && {
            &&& listed.len() == pending.dom().len()
            &&& pending.contains_key(id) ==> listed.contains(request_json(pending[id]))
            &&& forall|i: int|
                0 <= i < listed.len() ==> exists|k: u64| #[trigger]
                    pending.contains_key(k) && #[trigger] listed[i] == request_json(pending[k])
        },
{
    let ids = choose|ids: Seq<u64>|
        {
            &&& ids.no_duplicates()
            &&& ids.to_set() == pending.dom()
            &&& value == #[trigger] requests_json(pending, ids)
        };
    law_requests_are_listed_by_id(pending, ids, 0, Seq::empty());
    let listed = json::field(value, "requests"@)->0->Array_0;
    ids.unique_seq_to_set();
    assert forall|i: int| 0 <= i < listed.len() implies exists|k: u64| #[trigger]
        pending.contains_key(k) && #[trigger] listed[i] == request_json(pending[k]) by {
        law_requests_are_listed_by_id(pending, ids, i, Seq::empty());
        assert(ids.to_set().contains(ids[i]));
        assert(pending.contains_key(ids[i]));
    }
    if pending.contains_key(id) {
        assert(ids.to_set().contains(id));
        let i = choose|i: int| 0 <= i < ids.len() && ids[i] == id;
        law_requests_are_listed_by_id(pending, ids, i, Seq::empty());
        assert(listed[i] == request_json(pending[id]));
    }
}

/// A request for root that comes in is what waits under its id from then on, and
/// a payload that is too short for one changes nothing.
pub proof fn law_written_request_waits(
    pending: Map<u64, SuRequestView>,
    front: Seq<u8>,
    r: SuRequestView,
    end: Seq<u8>,
    index: Map<u32, Vec<String>>,
    short: Seq<u8>,
)
    requires
        front.len() == 8,
        has_place(r.comm, 16),
        has_place(r.path, 128),
        has_place(r.argv, 256),
        short.len() < 444,
    ensures
        pending_after(pending, payload_of(front, r, end), index) == pending.insert(
            r.request_id,
            SuRequestView { packages: packages_for(index, r.uid), ..r },
        ),
        pending_after(pending, short, index) == pending,
{
    law_request_for_root_reads_back(front, r, end, index);
}

/// A line adds the package in its first word to the user whose number is its
/// second word, behind what the lines before it named, and nothing to others.
pub proof fn law_second_word_is_the_user(
    lines: Seq<Seq<char>>,
    line: Seq<char>,
    uid: u32,
    other: u32,
)
    requires
        text::words(line).len() >= 2,
        number::unsigned(text::words(line)[1]) == Some(uid as nat),
        other != uid,
    ensures
        packages_named(lines.push(line), uid) == packages_named(lines, uid).push(
            text::words(line)[0],
        ),
        packages_named(lines.push(line), other) == packages_named(lines, other),
{
    assert(lines.push(line).drop_last() =~= lines);
}

/// With a line more in the package list, the index has the package of that line
/// behind those that the user had without it, and every other user has the same
/// packages.
pub proof fn law_index_grows_by_the_line(
    content: Seq<char>,
    line: Seq<char>,
    before: Map<u32, Vec<String>>,
    after: Map<u32, Vec<String>>,
    uid: u32,
    other: u32,
)
    requires
        is_index(before, Some(content)),
        is_index(after, Some(content + seq!['\n'] + line)),
        !line.contains('\n'),
        text::words(line).len() >= 2,
        number::unsigned(text::words(line)[1]) == Some(uid as nat),
        other != uid,
    ensures
        packages_for(after, uid) == packages_for(before, uid).push(text::words(line)[0]),
        packages_for(after, other) == packages_for(before, other),
        after.contains_key(uid),
        after.contains_key(other) <==> before.contains_key(other) && before[other]@.len() > 0,
{
    let pat = seq!['\n'];
    text::law_split_parts_come_in_turn(content, '\n', line);
    text::lemma_find_from(line, pat, 0);
    if text::find(line, pat) is Some {
        let k = text::find(line, pat)->0;
        assert(line.subrange(k, k + 1)[0] == '\n');
        assert(line[k] == '\n');
    }
    assert(text::split_on(line, pat) == seq![line]);
    let lines = text::split_on(content, pat);
    assert(lines + seq![line] =~= lines.push(line));
    law_second_word_is_the_user(lines, line, uid, other);
    assert(packages_for(after, uid) == packages_named(lines.push(line), uid));
    assert(packages_for(before, uid) == packages_named(lines, uid));
    assert(packages_for(after, other) == packages_named(lines.push(line), other));
    assert(packages_for(before, other) == packages_named(lines, other));
    if before.contains_key(other) {
        assert(packages_for(before, other).len() > 0);
    }
    if after.contains_key(other) {
        assert(packages_for(after, other).len() > 0);
    }
}

/// Where the package list could not be read, no user has packages.
pub proof fn law_unread_list_has_no_packages(index: Map<u32, Vec<String>>, uid: u32)
    requires
        is_index(index, None),
    ensures
        !index.contains_key(uid),
        packages_for(index, uid).len() == 0,
{
    assert(packages_for(index, uid) == packages_named(Seq::empty(), uid));
}

/// Slices of bytes hold what they hold, in their order.
pub proof fn law_byte_slices_keep_their_order(v: Seq<&[u8]>, i: int)
    requires
        0 <= i < v.len(),
    ensures
        byte_slices(v).len() == v.len(),
        byte_slices(v)[i] == v[i]@,
{
}

} // verus!
