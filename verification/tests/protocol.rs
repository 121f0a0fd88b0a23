//! The wire protocol: commands and events encode canonically and decode
//! back unchanged, and raw messages route along the documented chain.

use velox::cmd::{decode_cmd, encode_cmd, Cmd, FsApi, Notify, Process, WindowProxy};
use velox::events::{encode_event, parse_event, Event, NetworkEvent, ResourceEvent, VeloxEvents, WindowEvents};
use velox::handler::{call_func, dispatch, route_message, ExecClass, NativeOp, Routed};
use velox::VeloxError;

fn round_trip(c: Cmd) {
    let wire = encode_cmd(&c);
    let back = decode_cmd(wire.as_str()).expect("a canonical encoding must decode");
    assert_eq!(back, c);
}

#[test]
fn command_round_trip_every_family() {
    round_trip(Cmd::FileSystem(FsApi::ReadDir {
        path: "/tmp".to_string(),
        success_callback: "ok".to_string(),
        error_callback: "err".to_string(),
    }));
    round_trip(Cmd::FileSystem(FsApi::ReadTextFile {
        path: "notes.txt".to_string(),
        success_callback: "a".to_string(),
        error_callback: "b".to_string(),
    }));
    round_trip(Cmd::FileSystem(FsApi::CopyFile {
        from: "a".to_string(),
        to: "b".to_string(),
        success_callback: "s".to_string(),
        error_callback: "e".to_string(),
    }));
    round_trip(Cmd::FileSystem(FsApi::RenameFile {
        from: "x".to_string(),
        to: "y".to_string(),
        success_callback: "s".to_string(),
        error_callback: "e".to_string(),
    }));
    round_trip(Cmd::FileSystem(FsApi::OpenDialog {
        multiple: true,
        filter: Some(vec!["png".to_string(), "jpg".to_string()]),
        success_callback: "s".to_string(),
        error_callback: "e".to_string(),
    }));
    round_trip(Cmd::FileSystem(FsApi::OpenDialog {
        multiple: false,
        filter: None,
        success_callback: "s".to_string(),
        error_callback: "e".to_string(),
    }));
    round_trip(Cmd::FileSystem(FsApi::OpenFile {
        path: "p".to_string(),
        format: Some(vec![]),
    }));
    round_trip(Cmd::FileSystem(FsApi::CreateDir {
        path: "/tmp/x".to_string(),
        success_callback: "ok1".to_string(),
        error_callback: "err1".to_string(),
    }));
    round_trip(Cmd::FileSystem(FsApi::CreateFile {
        path: "f".to_string(),
        success_callback: "s".to_string(),
        error_callback: "e".to_string(),
    }));
    round_trip(Cmd::FileSystem(FsApi::RemoveDir {
        path: "d".to_string(),
        success_callback: "s".to_string(),
        error_callback: "e".to_string(),
    }));
    round_trip(Cmd::FileSystem(FsApi::RemoveFile {
        path: "f".to_string(),
        success_callback: "s".to_string(),
        error_callback: "e".to_string(),
    }));
    round_trip(Cmd::FileSystem(FsApi::OpenMultipleFile {
        path: "p".to_string(),
        format: None,
    }));
    round_trip(Cmd::FileSystem(FsApi::OpenDir { path: "p".to_string() }));
    round_trip(Cmd::FileSystem(FsApi::SelectFolder {
        success_callback: "s".to_string(),
        error_callback: "e".to_string(),
    }));
    round_trip(Cmd::FileSystem(FsApi::SaveFile {
        path: "out.bin".to_string(),
        content: vec![0, 1, 127, 255],
        mode: "w".to_string(),
        success_callback: "s".to_string(),
        error_callback: "e".to_string(),
    }));
    round_trip(Cmd::Notification(Notify::ShowNotification {
        summary: "Hi".to_string(),
        body: "There".to_string(),
        timeout: 1000,
        success_callback: "nok".to_string(),
        error_callback: "nerr".to_string(),
    }));
    round_trip(Cmd::Notification(Notify::ShowNotification {
        summary: "s".to_string(),
        body: "b".to_string(),
        timeout: -7,
        success_callback: "s".to_string(),
        error_callback: "e".to_string(),
    }));
    round_trip(Cmd::SubProcess(Process::Exec {
        cmd: "ls -l".to_string(),
        cwd: "/".to_string(),
        stream_output: true,
        success_callback: "s".to_string(),
        error_callback: "e".to_string(),
    }));
    round_trip(Cmd::Window(WindowProxy::SetTitle {
        title: "velox".to_string(),
        success_callback: "s".to_string(),
        error_callback: "e".to_string(),
    }));
    round_trip(Cmd::Window(WindowProxy::SetFullscreen {
        fullscreen: true,
        success_callback: "s".to_string(),
        error_callback: "e".to_string(),
    }));
}

#[test]
fn command_round_trip_with_escapes() {
    round_trip(Cmd::FileSystem(FsApi::CreateFile {
        path: "a \"quoted\" name\\with\nnewline\tand\rcontrol\u{1}chars".to_string(),
        success_callback: "cb\u{8}\u{c}".to_string(),
        error_callback: "non-ascii é λ 世界".to_string(),
    }));
}

#[test]
fn command_wire_shape_matches_the_documented_encoding() {
    let c = Cmd::FileSystem(FsApi::CreateDir {
        path: "/tmp/x".to_string(),
        success_callback: "ok1".to_string(),
        error_callback: "err1".to_string(),
    });
    assert_eq!(
        encode_cmd(&c),
        "{\"fileSystem\":{\"createDir\":{\"path\":\"/tmp/x\",\"successCallback\":\"ok1\",\"errorCallback\":\"err1\"}}}"
    );
    let decoded = decode_cmd(
        "{\"fileSystem\":{\"readDir\":{\"path\":\"/home\",\"successCallback\":\"cb1\",\"errorCallback\":\"cb2\"}}}",
    )
    .expect("the documented shape decodes");
    assert_eq!(
        decoded,
        Cmd::FileSystem(FsApi::ReadDir {
            path: "/home".to_string(),
            success_callback: "cb1".to_string(),
            error_callback: "cb2".to_string(),
        })
    );
}

#[test]
fn malformed_commands_are_decode_errors() {
    for bad in [
        "",
        "hello",
        "{\"fileSystem\":{}}",
        "{\"fileSystem\":{\"readDir\":{\"path\":\"/\",\"successCallback\":\"a\"}}}",
        "{\"veloxEvent\":\"loaded\"}",
        "{\"fileSystem\":{\"readDir\":{\"path\":\"/\",\"successCallback\":\"a\",\"errorCallback\":\"b\"}}} ",
    ] {
        match decode_cmd(bad) {
            Err(VeloxError::DecodeError { .. }) => {}
            other => panic!("expected a decode error, got {:?}", other),
        }
    }
}

#[test]
fn event_round_trip_every_family() {
    let events = vec![
        Event::VeloxEvent(VeloxEvents::Initialised),
        Event::VeloxEvent(VeloxEvents::Loaded),
        Event::ResourceEvent(ResourceEvent::Error),
        Event::ResourceEvent(ResourceEvent::Abort),
        Event::ResourceEvent(ResourceEvent::Load),
        Event::ResourceEvent(ResourceEvent::Beforeunload),
        Event::ResourceEvent(ResourceEvent::Unload),
        Event::NetworkEvent(NetworkEvent::Online),
        Event::NetworkEvent(NetworkEvent::Offline),
        Event::WindowEvent(WindowEvents::AddWindow {
            window_title: "Demo".to_string(),
            content: "http://localhost:1234".to_string(),
            identifier: "splash_window".to_string(),
        }),
        Event::WindowEvent(WindowEvents::CloseWindow("splash_window".to_string())),
        Event::WindowEvent(WindowEvents::ShowWindow("main_window".to_string())),
        Event::WindowEvent(WindowEvents::HideWindow("w".to_string())),
        Event::WindowEvent(WindowEvents::SetTitle {
            title: "t".to_string(),
            identifier: "main_window".to_string(),
        }),
        Event::WindowEvent(WindowEvents::SetFullscreen { identifier: "main_window".to_string() }),
        Event::WindowEvent(WindowEvents::Maximize { flag: true, identifier: "w".to_string() }),
        Event::WindowEvent(WindowEvents::Minimize { flag: false, identifier: "w".to_string() }),
    ];
    for e in events {
        let wire = encode_event(&e);
        let back = parse_event(wire.as_str()).expect("a canonical event encoding parses");
        assert_eq!(back, e);
    }
}

#[test]
fn event_wire_shape_matches_the_documented_encoding() {
    let e = Event::WindowEvent(WindowEvents::AddWindow {
        window_title: "Demo".to_string(),
        content: "data:text/html,<p>hi</p>".to_string(),
        identifier: "splash_window".to_string(),
    });
    assert_eq!(
        encode_event(&e),
        "{\"windowEvent\":{\"addWindow\":{\"identifier\":\"splash_window\",\"windowTitle\":\"Demo\",\"content\":\"data:text/html,<p>hi</p>\"}}}"
    );
    assert_eq!(
        encode_event(&Event::VeloxEvent(VeloxEvents::Loaded)),
        "{\"veloxEvent\":\"loaded\"}"
    );
}

#[test]
fn routing_prefers_commands_then_events_then_fallback() {
    let cmd_wire = encode_cmd(&Cmd::FileSystem(FsApi::OpenDir { path: "p".to_string() }));
    match route_message(cmd_wire.as_str()) {
        Routed::Command(Cmd::FileSystem(FsApi::OpenDir { path })) => assert_eq!(path, "p"),
        other => panic!("a command string must route as a command, got {:?}", other),
    }

    let event_wire = encode_event(&Event::VeloxEvent(VeloxEvents::Loaded));
    match route_message(event_wire.as_str()) {
        Routed::Notification(Event::VeloxEvent(VeloxEvents::Loaded)) => {}
        other => panic!("an event string must route as an event, got {:?}", other),
    }

    match route_message("{\"unknownOp\":{\"params\":[]}}") {
        Routed::Fallback => {}
        other => panic!("an unknown string must fall through, got {:?}", other),
    }
}

#[test]
fn dispatch_classes_slow_work_for_the_worker() {
    let fs = dispatch(&Cmd::FileSystem(FsApi::ReadDir {
        path: "/".to_string(),
        success_callback: "s".to_string(),
        error_callback: "e".to_string(),
    }));
    assert_eq!(fs.exec_class, ExecClass::Worker);
    match fs.op {
        NativeOp::ReadDir { path } => assert_eq!(path, "/"),
        other => panic!("wrong operation {:?}", other),
    }
    assert_eq!(fs.success_callback, "s");
    assert_eq!(fs.error_callback, "e");

    let notify = dispatch(&Cmd::Notification(Notify::ShowNotification {
        summary: "Hi".to_string(),
        body: "There".to_string(),
        timeout: 1000,
        success_callback: "nok".to_string(),
        error_callback: "nerr".to_string(),
    }));
    assert_eq!(notify.exec_class, ExecClass::Worker);

    let sub = dispatch(&Cmd::SubProcess(Process::Exec {
        cmd: "ls".to_string(),
        cwd: ".".to_string(),
        stream_output: false,
        success_callback: "s".to_string(),
        error_callback: "e".to_string(),
    }));
    assert_eq!(sub.exec_class, ExecClass::Worker);

    let win = dispatch(&Cmd::Window(WindowProxy::SetTitle {
        title: "t".to_string(),
        success_callback: "s".to_string(),
        error_callback: "e".to_string(),
    }));
    assert_eq!(win.exec_class, ExecClass::Inline);
    match win.op {
        NativeOp::EmitEvent { event } => assert_eq!(
            event,
            Event::WindowEvent(WindowEvents::SetTitle {
                title: "t".to_string(),
                identifier: "main_window".to_string(),
            })
        ),
        other => panic!("wrong operation {:?}", other),
    }
}

#[test]
fn named_calls_resolve_against_the_operation_table() {
    let op = call_func("read_dir", &vec!["\"/tmp\"".to_string()]).unwrap();
    assert_eq!(op, NativeOp::ReadDir { path: "/tmp".to_string() });

    let op = call_func(
        "show_notification",
        &vec!["\"Hi\"".to_string(), "\"There\"".to_string(), "1000".to_string()],
    )
    .unwrap();
    assert_eq!(
        op,
        NativeOp::ShowNotification {
            summary: "Hi".to_string(),
            body: "There".to_string(),
            timeout: 1000,
        }
    );

    let op = call_func(
        "save_file",
        &vec!["\"out\"".to_string(), "[1,2,255]".to_string(), "\"w\"".to_string()],
    )
    .unwrap();
    assert_eq!(
        op,
        NativeOp::SaveFile {
            path: "out".to_string(),
            content: vec![1, 2, 255],
            mode: "w".to_string(),
        }
    );

    let op = call_func("add_window", &vec!["\"docs\"".to_string(), "\"http://x\"".to_string()])
        .unwrap();
    assert_eq!(
        op,
        NativeOp::EmitEvent {
            event: velox::events::Event::WindowEvent(velox::events::WindowEvents::AddWindow {
                window_title: "docs".to_string(),
                content: "http://x".to_string(),
                identifier: "docs".to_string(),
            }),
        }
    );

    match call_func("frobnicate", &vec![]) {
        Err(VeloxError::CommandError { .. }) => {}
        other => panic!("an unknown operation name must be a command error, got {:?}", other),
    }
    match call_func("read_dir", &vec!["not json".to_string()]) {
        Err(VeloxError::DecodeError { .. }) => {}
        other => panic!("unfit parameters must be a decode error, got {:?}", other),
    }
}
