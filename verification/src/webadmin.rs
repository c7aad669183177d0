//! The web admin as a daemon: its token, its files, and how it is started,
//! stopped and looked at.
use crate::{bytes, number, text};
use vstd::prelude::*;

verus! {

/// Where the web admin listens.
pub const LISTEN_ADDR: &'static str = "127.0.0.1:9700";

/// The file that holds the token.
pub const TOKEN_PATH: &'static str = "/data/adb/ksu/webadmin.token";

/// The file that is there if the web admin is to be started at boot.
pub const AUTOSTART_PATH: &'static str = "/data/adb/ksu/webadmin.autostart";

/// The file that holds the process id of the web admin.
pub const PID_PATH: &'static str = "/data/adb/ksu/webadmin.pid";

/// How many bytes are read at a time from the file of the requests for root.
pub const READ_BUF_SIZE: usize = 8192;

/// A text as the one line of a file.
pub open spec fn line_of(s: Seq<char>) -> Seq<char> {
    s.push('\n')
}

/// Makes a token of random bytes.
pub fn generate_token(random: &[u8; 32]) -> (token: String)
    ensures
        token@ == bytes::hex(random@),
        token@.len() == 64,
{
    bytes::to_hex(random)
}

/// What came of the search for the token.
pub enum TokenEvent<'a> {
    /// The token file was looked for; its text, if it is there.
    Looked(Option<&'a str>),
    /// These random bytes were drawn.
    Drawn([u8; 32]),
}

/// What to do next about the token.
pub enum TokenStep {
    /// This is the token.
    Use(String),
    /// Draw random bytes.
    Draw,
    /// Create the token file with this text; then this is the token.
    Create { token: String, content: String },
}

/// What came of the search for the token.
pub enum TokenEventView {
    Looked(Option<Seq<char>>),
    Drawn(Seq<u8>),
}

impl<'a> View for TokenEvent<'a> {
    type V = TokenEventView;

    open spec fn view(&self) -> TokenEventView {
        match *self {
            TokenEvent::Looked(Some(content)) => TokenEventView::Looked(Some(content@)),
            TokenEvent::Looked(None) => TokenEventView::Looked(None),
            TokenEvent::Drawn(random) => TokenEventView::Drawn(random@),
        }
    }
}

/// What is to be done next about the token.
pub enum TokenStepView {
    Use(Seq<char>),
    Draw,
    Create { token: Seq<char>, content: Seq<char> },
}

impl View for TokenStep {
    type V = TokenStepView;

    open spec fn view(&self) -> TokenStepView {
        match *self {
            TokenStep::Use(token) => TokenStepView::Use(token@),
            TokenStep::Draw => TokenStepView::Draw,
            TokenStep::Create { token, content } => TokenStepView::Create {
                token: token@,
                content: content@,
            },
        }
    }
}

/// What to do next about the token, after what came of the search for it.
pub open spec fn token_step(event: TokenEventView) -> TokenStepView {
    match event {
        TokenEventView::Looked(Some(content)) => TokenStepView::Use(text::trim(content)),
        TokenEventView::Looked(None) => TokenStepView::Draw,
        TokenEventView::Drawn(random) => TokenStepView::Create {
            token: bytes::hex(random),
            content: line_of(bytes::hex(random)),
        },
    }
}

/// Finds the token: what the token file holds, where it is there, and a new one
/// otherwise, which the file is then to hold.
pub fn read_or_create_token<'a>(event: TokenEvent<'a>) -> (step: TokenStep)
    ensures
        step@ == token_step(event@),
{
    match event {
        TokenEvent::Looked(Some(content)) => TokenStep::Use(text::trim_str(content)),
        TokenEvent::Looked(None) => TokenStep::Draw,
        TokenEvent::Drawn(random) => {
            let token = generate_token(&random);
            let mut content = token.clone();
            content.push('\n');
            TokenStep::Create { token, content }
        },
    }
}

proof fn lemma_trim_line(s: Seq<char>)
    requires
        s.len() > 0,
        !text::white_space(s[0]),
        !text::white_space(s.last()),
    ensures
        text::trim(line_of(s)) == s,
{
    assert(line_of(s).drop_last() =~= s);
    reveal_with_fuel(text::trim_end, 2);
}

/// The token that a new token file holds reads back as the one that was made,
/// and different random bytes make different tokens.
pub proof fn law_token_reads_back(random: [u8; 32], other: [u8; 32])
    ensures
        text::trim(line_of(bytes::hex(random@))) == bytes::hex(random@),
        bytes::hex(random@) == bytes::hex(other@) ==> random@ == other@,
{
    bytes::law_hex_is_faithful(random@, other@);
    let token = bytes::hex(random@);
    assert(token.len() == 64);
    assert(token[0] >= '0' && token[63] >= '0');
    lemma_trim_line(token);
}

/// What to do about the file that says whether to start at boot.
#[derive(Clone, Copy, Debug)]
pub enum AutostartStep {
    /// Write this text to it.
    Write(&'static str),
    /// Remove it, if it is there.
    Remove,
}

/// What to write to the file that says whether to start at boot, or that it is to
/// be removed, and what to say then.
pub open spec fn autostart(enabled: bool) -> (Option<Seq<char>>, Seq<char>) {
    if enabled {
        (Some("1\n"@), "webadmin autostart enabled"@)
    } else {
        (None, "webadmin autostart disabled"@)
    }
}

impl View for AutostartStep {
    type V = Option<Seq<char>>;

    open spec fn view(&self) -> Option<Seq<char>> {
        match *self {
            AutostartStep::Write(content) => Some(content@),
            AutostartStep::Remove => None,
        }
    }
}

/// Decides what to do about the file that says whether to start at boot, and
/// what to say when that is done.
pub fn set_autostart(enabled: bool) -> (r: (AutostartStep, &'static str))
    ensures
        (r.0@, r.1@) == autostart(enabled),
{
    if enabled {
        (AutostartStep::Write("1\n"), "webadmin autostart enabled")
    } else {
        (AutostartStep::Remove, "webadmin autostart disabled")
    }
}

/// What came of the start at boot.
pub enum BootEvent {
    /// The file that says whether to start at boot was looked for; whether it
    /// is there.
    Looked(bool),
    /// The web admin was started, or could not be, for this reason.
    Spawned(Result<(), String>),
}

/// What to do next about the start at boot.
pub enum BootStep {
    /// Start the web admin.
    Spawn,
    /// Warn with this text.
    Warn(String),
    /// Nothing more.
    Done,
}

/// What came of the start at boot.
pub enum BootEventView {
    Looked(bool),
    Spawned(Option<Seq<char>>),
}

impl View for BootEvent {
    type V = BootEventView;

    open spec fn view(&self) -> BootEventView {
        match *self {
            BootEvent::Looked(there) => BootEventView::Looked(there),
            BootEvent::Spawned(Ok(_)) => BootEventView::Spawned(None),
            BootEvent::Spawned(Err(reason)) => BootEventView::Spawned(Some(reason@)),
        }
    }
}

/// What is to be done next about the start at boot.
pub enum BootStepView {
    Spawn,
    Warn(Seq<char>),
    Done,
}

impl View for BootStep {
    type V = BootStepView;

    open spec fn view(&self) -> BootStepView {
        match *self {
            BootStep::Spawn => BootStepView::Spawn,
            BootStep::Warn(warning) => BootStepView::Warn(warning@),
            BootStep::Done => BootStepView::Done,
        }
    }
}

/// What to do next about the start at boot, after what came of it.
pub open spec fn boot_step(event: BootEventView) -> BootStepView {
    match event {
        BootEventView::Looked(there) => if there {
            BootStepView::Spawn
        } else {
            BootStepView::Done
        },
        BootEventView::Spawned(None) => BootStepView::Done,
        BootEventView::Spawned(Some(reason)) => BootStepView::Warn(
            "failed to autostart webadmin: "@ + reason,
        ),
    }
}

/// Starts the web admin at boot if it is to be. That it could not be started is
/// no more than a warning.
pub fn maybe_spawn_autostart(event: BootEvent) -> (step: BootStep)
    ensures
        step@ == boot_step(event@),
{
    match event {
        BootEvent::Looked(there) => if there {
            BootStep::Spawn
        } else {
            BootStep::Done
        },
        BootEvent::Spawned(Ok(_)) => BootStep::Done,
        BootEvent::Spawned(Err(reason)) => {
            let mut warning = "failed to autostart webadmin: ".to_string();
            warning.append(reason.as_str());
            BootStep::Warn(warning)
        },
    }
}

/// What came of starting the web admin.
#[derive(Clone, Copy, Debug, PartialEq, Eq, Structural)]
pub enum SpawnEvent {
    /// It was looked for; whether it is running.
    Looked { running: bool },
    /// The process was split; whether this one is the daemon.
    Split { daemon: bool },
}

/// What to do next about starting the web admin.
pub enum SpawnStep {
    /// Split off a daemon.
    Split,
    /// Become the server, by running this program anew with these arguments.
    Exec([&'static str; 2]),
    /// Say this, and be done.
    Say(String),
}

/// What is to be done next about starting the web admin.
pub enum SpawnStepView {
    Split,
    Exec(Seq<Seq<char>>),
    Say(Seq<char>),
}

impl View for SpawnStep {
    type V = SpawnStepView;

    open spec fn view(&self) -> SpawnStepView {
        match *self {
            SpawnStep::Split => SpawnStepView::Split,
            SpawnStep::Exec(args) => SpawnStepView::Exec(
                args@.map_values(|arg: &'static str| arg@),
            ),
            SpawnStep::Say(said) => SpawnStepView::Say(said@),
        }
    }
}

/// What to do next about starting the web admin, after what came of it.
pub open spec fn spawn_step(event: SpawnEvent) -> SpawnStepView {
    match event {
        SpawnEvent::Looked { running } => if running {
            SpawnStepView::Say("webadmin already running at http://"@ + LISTEN_ADDR@)
        } else {
            SpawnStepView::Split
        },
        SpawnEvent::Split { daemon } => if daemon {
            SpawnStepView::Exec(seq!["web"@, "serve"@])
        } else {
            SpawnStepView::Say("webadmin starting at http://"@ + LISTEN_ADDR@)
        },
    }
}

/// Starts the web admin unless it is running.
pub fn spawn(event: SpawnEvent) -> (step: SpawnStep)
    ensures
        step@ == spawn_step(event),
{
    match event {
        SpawnEvent::Looked { running } => if running {
            let mut said = "webadmin already running at http://".to_string();
            said.append(LISTEN_ADDR);
            SpawnStep::Say(said)
        } else {
            SpawnStep::Split
        },
        SpawnEvent::Split { daemon } => if daemon {
            let args = ["web", "serve"];
            assert(args@.map_values(|arg: &'static str| arg@) =~= seq!["web"@, "serve"@]);
            SpawnStep::Exec(args)
        } else {
            let mut said = "webadmin starting at http://".to_string();
            said.append(LISTEN_ADDR);
            SpawnStep::Say(said)
        },
    }
}

/// Why the web admin could not be stopped.
#[derive(Debug)]
pub enum StopError {
    /// The file that holds its process id could not be read.
    NoPidFile,
    /// The file holds no process id.
    InvalidPid,
    /// The process could not be stopped, for this reason.
    NotStopped(String),
}

impl StopError {
    /// What the error says.
    pub open spec fn text(self) -> Seq<char> {
        match self {
            StopError::NoPidFile => "webadmin pid file not found"@,
            StopError::InvalidPid => "invalid webadmin pid"@,
            StopError::NotStopped(reason) => "failed to stop webadmin: "@ + reason@,
        }
    }

    /// What the error says.
    pub fn message(&self) -> (r: String)
        ensures
            r@ == self.text(),
    {
        match self {
            StopError::NoPidFile => "webadmin pid file not found".to_string(),
            StopError::InvalidPid => "invalid webadmin pid".to_string(),
            StopError::NotStopped(reason) => {
                let mut r = "failed to stop webadmin: ".to_string();
                r.append(reason.as_str());
                r
            },
        }
    }
}

/// What came of stopping the web admin.
pub enum StopEvent<'a> {
    /// The file that holds its process id was read, or could not be.
    Read(Option<&'a str>),
    /// The process was told to stop, or could not be, for this reason.
    Told(Result<(), String>),
}

/// What to do next about stopping the web admin.
pub enum StopStep {
    /// Tell this process to stop.
    Tell(i32),
    /// Give up.
    Fail(StopError),
    /// Remove the file that holds the process id, if that can be, and say this.
    Say(&'static str),
}

/// What came of stopping the web admin.
pub enum StopEventView {
    Read(Option<Seq<char>>),
    Told(Option<Seq<char>>),
}

impl<'a> View for StopEvent<'a> {
    type V = StopEventView;

    open spec fn view(&self) -> StopEventView {
        match *self {
            StopEvent::Read(Some(content)) => StopEventView::Read(Some(content@)),
            StopEvent::Read(None) => StopEventView::Read(None),
            StopEvent::Told(Ok(_)) => StopEventView::Told(None),
            StopEvent::Told(Err(reason)) => StopEventView::Told(Some(reason@)),
        }
    }
}

/// What is to be done next about stopping the web admin; a failure by what it
/// says.
pub enum StopStepView {
    Tell(int),
    Fail(Seq<char>),
    Say(Seq<char>),
}

impl View for StopStep {
    type V = StopStepView;

    open spec fn view(&self) -> StopStepView {
        match *self {
            StopStep::Tell(pid) => StopStepView::Tell(pid as int),
            StopStep::Fail(e) => StopStepView::Fail(e.text()),
            StopStep::Say(said) => StopStepView::Say(said@),
        }
    }
}

/// What to do next about stopping the web admin, after what came of it.
pub open spec fn stop_step(event: StopEventView) -> StopStepView {
    match event {
        StopEventView::Read(None) => StopStepView::Fail("webadmin pid file not found"@),
        StopEventView::Read(Some(content)) => match number::signed_32(text::trim(content)) {
            Some(pid) => StopStepView::Tell(pid),
            None => StopStepView::Fail("invalid webadmin pid"@),
        },
        StopEventView::Told(None) => StopStepView::Say("webadmin stopped"@),
        StopEventView::Told(Some(reason)) => StopStepView::Fail(
            "failed to stop webadmin: "@ + reason,
        ),
    }
}

/// Stops the web admin.
pub fn stop<'a>(event: StopEvent<'a>) -> (step: StopStep)
    ensures
        match event {
            StopEvent::Read(None) => step == StopStep::Fail(StopError::NoPidFile),
            StopEvent::Read(Some(content)) => match number::signed_32(text::trim(content@)) {
                Some(pid) => step == StopStep::Tell(pid as i32),
                None => step == StopStep::Fail(StopError::InvalidPid),
            },
            StopEvent::Told(Ok(_)) => step matches StopStep::Say(said) && said@
                == "webadmin stopped"@,
            StopEvent::Told(Err(reason)) => step == StopStep::Fail(StopError::NotStopped(reason)),
        },
        step@ == stop_step(event@),
{
    match event {
        StopEvent::Read(None) => StopStep::Fail(StopError::NoPidFile),
        StopEvent::Read(Some(content)) => {
            let content = text::chars_of(content);
            match number::parse_i32(text::trim_chars(content.as_slice())) {
                Some(pid) => StopStep::Tell(pid),
                None => StopStep::Fail(StopError::InvalidPid),
            }
        },
        StopEvent::Told(Ok(_)) => StopStep::Say("webadmin stopped"),
        StopEvent::Told(Err(reason)) => StopStep::Fail(StopError::NotStopped(reason)),
    }
}

/// The text of the file that holds the process id of the server.
pub open spec fn pid_text(pid: u32) -> Seq<char> {
    line_of(number::decimal(pid as nat))
}

/// Writes the text of the file that holds the process id of the server.
pub fn pid_file(pid: u32) -> (content: String)
    ensures
        content@ == pid_text(pid),
{
    let mut content = number::format_u64(pid as u64);
    content.push('\n');
    content
}

/// What is stopped is the process whose id the server wrote.
pub proof fn law_pid_reads_back(pid: u32)
    requires
        pid <= i32::MAX,
    ensures
        stop_step(StopEventView::Read(Some(pid_text(pid)))) == StopStepView::Tell(pid as int),
        number::signed_32(text::trim(line_of(number::decimal(pid as nat)))) == Some(pid as int),
{
    let digits = number::decimal(pid as nat);
    number::lemma_decimal_digits(pid as nat);
    number::law_decimal_reads_back(pid as nat);
    assert(number::is_digit(digits[0]) && number::is_digit(digits.last()));
    lemma_trim_line(digits);
}

/// How a truth value is written.
pub open spec fn truth(b: bool) -> Seq<char> {
    if b {
        "true"@
    } else {
        "false"@
    }
}

fn truth_str(b: bool) -> (r: &'static str)
    ensures
        r@ == truth(b),
{
    if b {
        "true"
    } else {
        "false"
    }
}

/// How the web admin stands, in four lines.
pub open spec fn status_text(listening: bool, token_exists: bool, autostart: bool) -> Seq<char> {
    line_of("listen: "@ + LISTEN_ADDR@) + line_of("running: "@ + truth(listening)) + line_of(
        "token: "@ + truth(token_exists),
    ) + line_of("autostart: "@ + truth(autostart))
}

/// Says how the web admin stands, in four lines.
pub fn status(listening: bool, token_exists: bool, autostart: bool) -> (r: String)
    ensures
        r@ == status_text(listening, token_exists, autostart),
{
    let mut r = "listen: ".to_string();
    r.append(LISTEN_ADDR);
    r.push('\n');
    assert(r@ =~= line_of("listen: "@ + LISTEN_ADDR@));
    let ghost before = r@;
    r.append("running: ");
    r.append(truth_str(listening));
    r.push('\n');
    assert(r@ =~= before + line_of("running: "@ + truth(listening)));
    let ghost before = r@;
    r.append("token: ");
    r.append(truth_str(token_exists));
    r.push('\n');
    assert(r@ =~= before + line_of("token: "@ + truth(token_exists)));
    let ghost before = r@;
    r.append("autostart: ");
    r.append(truth_str(autostart));
    r.push('\n');
    assert(r@ =~= before + line_of("autostart: "@ + truth(autostart)));
    r
}

/// A stored token is used as it is, without the white space around it; where none
/// is stored, one is made of random bytes, two digits for each, and stored on a
/// line of its own; and what is stored is found again.
pub proof fn law_stored_token_is_found_again(
    front: Seq<char>,
    token: Seq<char>,
    end: Seq<char>,
    random: Seq<u8>,
    k: int,
)
    requires
        forall|i: int| 0 <= i < front.len() ==> text::white_space(#[trigger] front[i]),
        forall|i: int| 0 <= i < end.len() ==> text::white_space(#[trigger] end[i]),
        token.len() > 0,
        !text::white_space(token[0]),
        !text::white_space(token.last()),
        0 <= k < random.len(),
    ensures
        token_step(TokenEventView::Looked(Some(front + token + end))) == TokenStepView::Use(token),
        token_step(TokenEventView::Looked(None)) == TokenStepView::Draw,
        token_step(TokenEventView::Drawn(random)) matches TokenStepView::Create {
            token: made,
            content,
        } && {
            &&& made.len() == 2 * random.len()
            &&& random[k] == 16 * bytes::hex_value(made[2 * k]) + bytes::hex_value(made[2 * k + 1])
            &&& content == made + seq!['\n']
            &&& token_step(TokenEventView::Looked(Some(content))) == TokenStepView::Use(made)
        },
{
    text::law_trim_takes_white_space_off_both_ends(front, token, end);
    bytes::law_hex_reads_back(random, k);
    bytes::law_hex_is_faithful(random, random);
    let made = bytes::hex(random);
    assert(line_of(made) =~= made + seq!['\n']);
    assert(made[0] >= '0' && made[made.len() - 1] >= '0');
    lemma_trim_line(made);
}

/// The web admin is started at boot exactly where the file for it is there, and
/// the file is written where that is asked for and removed where it is not. A
/// failure to start is a warning with its reason.
pub proof fn law_autostart_follows_the_file(there: bool, reason: Seq<char>)
    ensures
        autostart(there).0 is Some <==> there,
        autostart(true) == (Some("1\n"@), "webadmin autostart enabled"@),
        autostart(false).1 == "webadmin autostart disabled"@,
        boot_step(BootEventView::Looked(there)) == BootStepView::Spawn <==> there,
        boot_step(BootEventView::Looked(there)) == BootStepView::Done <==> !there,
        boot_step(BootEventView::Spawned(None)) == BootStepView::Done,
        boot_step(BootEventView::Spawned(Some(reason))) matches BootStepView::Warn(w) && w
            == "failed to autostart webadmin: "@ + reason,
{
}

/// A server that runs is not started again, and it is the daemon that becomes the
/// server, while the other process says where it will be.
pub proof fn law_server_is_started_once(event: SpawnEvent)
    ensures
        spawn_step(event) == SpawnStepView::Split <==> event == (SpawnEvent::Looked {
            running: false,
        }),
        spawn_step(event) is Exec <==> event == (SpawnEvent::Split { daemon: true }),
        spawn_step(event) matches SpawnStepView::Exec(args) ==> args.len() == 2 && args[0]
            == "web"@ && args[1] == "serve"@,
        spawn_step(SpawnEvent::Looked { running: true }) == SpawnStepView::Say(
            "webadmin already running at http://"@ + "127.0.0.1:9700"@,
        ),
        spawn_step(SpawnEvent::Split { daemon: false }) == SpawnStepView::Say(
            "webadmin starting at http://"@ + "127.0.0.1:9700"@,
        ),
{
}

/// Only a process whose id the file holds, in 32 bits with or without white space
/// around it, is told to stop; and each way to fail is said in its own words.
pub proof fn law_only_the_process_in_the_file_is_stopped(
    front: Seq<char>,
    digits: Seq<char>,
    end: Seq<char>,
    reason: Seq<char>,
)
    requires
        forall|i: int| 0 <= i < front.len() ==> text::white_space(#[trigger] front[i]),
        forall|i: int| 0 <= i < end.len() ==> text::white_space(#[trigger] end[i]),
        digits.len() > 0 ==> !text::white_space(digits[0]) && !text::white_space(digits.last()),
    ensures
        match number::signed(digits) {
            Some(pid) => if -2147483648 <= pid <= 2147483647 {
                stop_step(StopEventView::Read(Some(front + digits + end))) == StopStepView::Tell(
                    pid,
                )
            } else {
                stop_step(StopEventView::Read(Some(front + digits + end))) == StopStepView::Fail(
                    "invalid webadmin pid"@,
                )
            },
            None => stop_step(StopEventView::Read(Some(front + digits + end)))
                == StopStepView::Fail("invalid webadmin pid"@),
        },
        stop_step(StopEventView::Read(None)) == StopStepView::Fail("webadmin pid file not found"@),
        stop_step(StopEventView::Told(None)) == StopStepView::Say("webadmin stopped"@),
        stop_step(StopEventView::Told(Some(reason))) == StopStepView::Fail(
            "failed to stop webadmin: "@ + reason,
        ),
{
    text::law_trim_takes_white_space_off_both_ends(front, digits, end);
}

/// The status is four lines, each with its own answer.
pub proof fn law_status_answers_each_question(listening: bool, token: bool, start: bool)
    ensures
        truth(true) == "true"@,
        truth(false) == "false"@,
        status_text(listening, token, start) == "listen: "@ + "127.0.0.1:9700"@ + seq!['\n']
            + "running: "@ + truth(listening) + seq!['\n'] + "token: "@ + truth(token)
            + seq!['\n'] + "autostart: "@ + truth(start) + seq!['\n'],
{
    assert(status_text(listening, token, start) =~= "listen: "@ + "127.0.0.1:9700"@ + seq!['\n']
        + "running: "@ + truth(listening) + seq!['\n'] + "token: "@ + truth(token) + seq!['\n']
        + "autostart: "@ + truth(start) + seq!['\n']);
}

} // verus!
