use ksud::webadmin::{
    generate_token, maybe_spawn_autostart, pid_file, read_or_create_token, set_autostart, spawn,
    status, stop, AutostartStep, BootEvent, BootStep, SpawnEvent, SpawnStep, StopError, StopEvent,
    StopStep, TokenEvent, TokenStep, AUTOSTART_PATH, LISTEN_ADDR, PID_PATH, READ_BUF_SIZE,
    TOKEN_PATH,
};

#[test]
fn places_are_fixed() {
    assert_eq!(LISTEN_ADDR, "127.0.0.1:9700");
    assert_eq!(TOKEN_PATH, "/data/adb/ksu/webadmin.token");
    assert_eq!(AUTOSTART_PATH, "/data/adb/ksu/webadmin.autostart");
    assert_eq!(PID_PATH, "/data/adb/ksu/webadmin.pid");
    assert_eq!(READ_BUF_SIZE, 8192);
}

#[test]
fn a_new_token_reads_back() {
    assert!(matches!(read_or_create_token(TokenEvent::Looked(None)), TokenStep::Draw));
    let mut random = [0xa5u8; 32];
    random[0] = 0x0f;
    let (token, content) = match read_or_create_token(TokenEvent::Drawn(random)) {
        TokenStep::Create { token, content } => (token, content),
        _ => panic!("no token"),
    };
    assert_eq!(token, format!("0f{}", "a5".repeat(31)));
    assert_eq!(token, generate_token(&random));
    assert_eq!(content, format!("{}\n", token));
    match read_or_create_token(TokenEvent::Looked(Some(&content))) {
        TokenStep::Use(read) => assert_eq!(read, token),
        _ => panic!("no token"),
    }
}

#[test]
fn a_stored_token_is_trimmed() {
    match read_or_create_token(TokenEvent::Looked(Some(" \tmy token\r\n"))) {
        TokenStep::Use(read) => assert_eq!(read, "my token"),
        _ => panic!("no token"),
    }
}

#[test]
fn autostart_is_a_file() {
    let (step, said) = set_autostart(true);
    assert!(matches!(step, AutostartStep::Write("1\n")));
    assert_eq!(said, "webadmin autostart enabled");
    let (step, said) = set_autostart(false);
    assert!(matches!(step, AutostartStep::Remove));
    assert_eq!(said, "webadmin autostart disabled");
}

#[test]
fn autostart_warns_where_it_fails() {
    assert!(matches!(maybe_spawn_autostart(BootEvent::Looked(true)), BootStep::Spawn));
    assert!(matches!(maybe_spawn_autostart(BootEvent::Looked(false)), BootStep::Done));
    assert!(matches!(maybe_spawn_autostart(BootEvent::Spawned(Ok(()))), BootStep::Done));
    match maybe_spawn_autostart(BootEvent::Spawned(Err("no fork".to_string()))) {
        BootStep::Warn(text) => assert_eq!(text, "failed to autostart webadmin: no fork"),
        _ => panic!("no warning"),
    }
}

#[test]
fn the_server_is_started_unless_it_runs() {
    match spawn(SpawnEvent::Looked { running: true }) {
        SpawnStep::Say(text) => {
            assert_eq!(text, "webadmin already running at http://127.0.0.1:9700");
        }
        _ => panic!("started again"),
    }
    assert!(matches!(spawn(SpawnEvent::Looked { running: false }), SpawnStep::Split));
    assert!(matches!(
        spawn(SpawnEvent::Split { daemon: true }),
        SpawnStep::Exec(["web", "serve"])
    ));
    match spawn(SpawnEvent::Split { daemon: false }) {
        SpawnStep::Say(text) => assert_eq!(text, "webadmin starting at http://127.0.0.1:9700"),
        _ => panic!("nothing said"),
    }
}

#[test]
fn the_process_that_wrote_its_id_is_stopped() {
    for pid in [1u32, 4321, 2147483647] {
        let content = pid_file(pid);
        assert_eq!(content, format!("{}\n", pid));
        match stop(StopEvent::Read(Some(&content))) {
            StopStep::Tell(told) => assert_eq!(told as u32, pid),
            _ => panic!("nothing told"),
        }
    }
    assert!(matches!(
        stop(StopEvent::Read(Some("2147483648\n"))),
        StopStep::Fail(StopError::InvalidPid)
    ));
    assert!(matches!(stop(StopEvent::Read(Some(" -5 "))), StopStep::Tell(-5)));
    assert!(matches!(stop(StopEvent::Told(Ok(()))), StopStep::Say("webadmin stopped")));
}

#[test]
fn stopping_can_fail() {
    let fail = |event| match stop(event) {
        StopStep::Fail(e) => e.message(),
        _ => panic!("no error"),
    };
    assert_eq!(fail(StopEvent::Read(None)), "webadmin pid file not found");
    assert_eq!(fail(StopEvent::Read(Some("x"))), "invalid webadmin pid");
    assert_eq!(fail(StopEvent::Read(Some(""))), "invalid webadmin pid");
    assert_eq!(
        fail(StopEvent::Told(Err("No such process".to_string()))),
        "failed to stop webadmin: No such process"
    );
}

#[test]
fn the_status_has_four_lines() {
    assert_eq!(
        status(true, false, true),
        "listen: 127.0.0.1:9700\nrunning: true\ntoken: false\nautostart: true\n"
    );
}
