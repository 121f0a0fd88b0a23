//! The running shell: registry transitions, the splash rendezvous, the
//! callback bridge, the configuration, and the asset server's decisions.

use velox::api::fs::crud::{open_file, OpenMode};
use velox::api::fs::file_system::{open_dialog, read_file, save_dialog, save_file, select_folder, FilePath, SavePlan};
use velox::api::subprocess::{exec_output, shell_invocation, ws_url};
use velox::app::{Application, AppBuilder, LoopControl, NativeAction};
use velox::cmd::decode_cmd;
use velox::config::{encode_config, parse_config, VeloxConfig};
use velox::events::{Event, VeloxEvents, WindowEvents};
use velox::handler::{dispatch, NativeOp};
use velox::helper::{execute_cmd, format_callback, json_string};
use velox::server::{get_mime_type, handle_req, serve_assets, Route};
use velox::splashscreen::{show_splashscreen, SplashScreen};
use velox::utils::{is_dev, ContentType};
use velox::window::WebviewWindow;
use velox::VeloxError;

fn window(identifier: &str, window_id: u64) -> WebviewWindow {
    WebviewWindow {
        identifier: identifier.to_string(),
        window_id,
        visible: false,
        fullscreen: false,
        maximized: false,
        minimized: false,
        title: String::new(),
    }
}

#[test]
fn test_env() {
    // check if function is_dev returns true on dev env
    assert!(is_dev());
    assert!(is_dev());
}

#[test]
fn adding_a_window_with_a_live_identifier_is_rejected() {
    let mut app = Application::new();
    app.add_window(window("main_window", 1)).expect("first add succeeds");
    app.add_window(window("splash_window", 2)).expect("distinct identifier succeeds");
    match app.add_window(window("main_window", 3)) {
        Err(VeloxError::CommandError { .. }) => {}
        other => panic!("a duplicate identifier must be rejected, got {:?}", other),
    }
    assert_eq!(app.webviews.len(), 2);
    assert_eq!(app.webviews[0].window_id, 1);
}

#[test]
fn splash_rendezvous_fires_exactly_once() {
    let mut splash = SplashScreen::new();
    assert_eq!(splash.step(&Event::VeloxEvent(VeloxEvents::Initialised)), None);
    let (close, show) = splash
        .step(&Event::VeloxEvent(VeloxEvents::Loaded))
        .expect("the first loaded signal completes the rendezvous");
    assert_eq!(close, Event::WindowEvent(WindowEvents::CloseWindow("splash_window".to_string())));
    assert_eq!(show, Event::WindowEvent(WindowEvents::ShowWindow("main_window".to_string())));
    assert_eq!(splash.step(&Event::VeloxEvent(VeloxEvents::Loaded)), None);
    assert_eq!(splash.step(&Event::VeloxEvent(VeloxEvents::Loaded)), None);
}

#[test]
fn splash_open_event_targets_the_splash_window() {
    let e = show_splashscreen("Demo", "data:text/html,<p>loading</p>");
    assert_eq!(
        e,
        Event::WindowEvent(WindowEvents::AddWindow {
            window_title: "Demo".to_string(),
            content: "data:text/html,<p>loading</p>".to_string(),
            identifier: "splash_window".to_string(),
        })
    );
}

#[test]
fn closing_the_main_window_terminates_the_loop() {
    let mut app = Application::new();
    app.add_window(window("main_window", 1)).unwrap();
    app.add_window(window("aux", 2)).unwrap();
    app.add_window(window("logs", 3)).unwrap();
    app.handle_event(&Event::WindowEvent(WindowEvents::CloseWindow("main_window".to_string())));
    assert_eq!(app.control, LoopControl::Exit);
}

#[test]
fn closing_another_window_keeps_the_loop_running() {
    let mut app = Application::new();
    app.add_window(window("main_window", 1)).unwrap();
    app.add_window(window("aux", 2)).unwrap();
    let action = app.handle_event(&Event::WindowEvent(WindowEvents::CloseWindow("aux".to_string())));
    assert_eq!(app.control, LoopControl::Wait);
    assert_eq!(action, Some(NativeAction::CloseNative { window_id: 2 }));
    assert_eq!(app.webviews.len(), 1);
}

#[test]
fn os_close_of_the_main_window_terminates_the_loop() {
    let mut app = Application::new();
    app.add_window(window("main_window", 7)).unwrap();
    app.add_window(window("aux", 8)).unwrap();

    // A non-main close removes that window's entry and keeps looping.
    app.handle_close_requested(8);
    assert_eq!(app.control, LoopControl::Wait);
    assert_eq!(app.webviews.len(), 1);
    assert_eq!(app.webviews[0].identifier, "main_window");

    // An id no window carries changes nothing.
    app.handle_close_requested(99);
    assert_eq!(app.control, LoopControl::Wait);
    assert_eq!(app.webviews.len(), 1);

    app.handle_close_requested(7);
    assert_eq!(app.control, LoopControl::Exit);
    assert_eq!(app.webviews.len(), 1);
}

#[test]
fn window_events_drive_the_registry_model() {
    let mut app = Application::new();
    app.add_window(window("main_window", 1)).unwrap();
    let shown = app.handle_event(&Event::WindowEvent(WindowEvents::ShowWindow("main_window".to_string())));
    assert_eq!(shown, Some(NativeAction::ShowNative { window_id: 1 }));
    assert!(app.webviews[0].visible);

    let retitled = app.handle_event(&Event::WindowEvent(WindowEvents::SetTitle {
        title: "hello".to_string(),
        identifier: "main_window".to_string(),
    }));
    assert_eq!(
        retitled,
        Some(NativeAction::SetTitleNative { window_id: 1, title: "hello".to_string() })
    );
    assert_eq!(app.webviews[0].title, "hello");

    let missing = app.handle_event(&Event::WindowEvent(WindowEvents::ShowWindow("ghost".to_string())));
    assert_eq!(missing, None);
    assert_eq!(app.webviews.len(), 1);
    assert_eq!(app.webviews[0].title, "hello");
    assert_eq!(app.control, LoopControl::Wait);

    let added = app.handle_event(&Event::WindowEvent(WindowEvents::AddWindow {
        window_title: "Demo".to_string(),
        content: "http://localhost:1234".to_string(),
        identifier: "second".to_string(),
    }));
    assert_eq!(
        added,
        Some(NativeAction::CreateWindow {
            identifier: "second".to_string(),
            title: "Demo".to_string(),
            content: "http://localhost:1234".to_string(),
        })
    );
}

#[test]
fn config_and_create_dir_failure_reach_the_error_callback() {
    let config = parse_config(
        "{\"name\":\"Demo\",\"debug\":true,\"devServerUrl\":\"http://localhost:1234\",\"description\":\"demo app\",\"permissions\":[],\"packageManager\":\"npm\",\"buildDir\":\"dist\"}",
    )
    .expect("a canonical configuration parses");
    assert_eq!(config.name, "Demo");
    assert!(config.debug);
    assert_eq!(config.dev_server_url, "http://localhost:1234");

    let cmd = decode_cmd(
        "{\"fileSystem\":{\"createDir\":{\"path\":\"/tmp/x\",\"successCallback\":\"ok1\",\"errorCallback\":\"err1\"}}}",
    )
    .expect("the create-dir command decodes");
    let plan = dispatch(&cmd);
    match &plan.op {
        NativeOp::CreateDir { path } => assert_eq!(path, "/tmp/x"),
        other => panic!("wrong operation {:?}", other),
    }

    // The runner found /tmp/x already present and reports the OS message.
    let outcome: Result<String, VeloxError> =
        Err(VeloxError::IoError { detail: "File exists (os error 17)".to_string() });
    let js = execute_cmd(&outcome, plan.success_callback.as_str(), plan.error_callback.as_str());
    assert_eq!(
        js,
        "if (window[\"err1\"]) { window[\"err1\"]({\"error\":\"File exists (os error 17)\"}) } else { console.warn(\"[Velox] Couldn't find callback id: err1\") }"
    );
}

#[test]
fn notification_success_reaches_the_success_callback() {
    let cmd = decode_cmd(
        "{\"notification\":{\"showNotification\":{\"summary\":\"Hi\",\"body\":\"There\",\"timeout\":1000,\"successCallback\":\"nok\",\"errorCallback\":\"nerr\"}}}",
    )
    .expect("the notification command decodes");
    let plan = dispatch(&cmd);
    match &plan.op {
        NativeOp::ShowNotification { summary, body, timeout } => {
            assert_eq!(summary, "Hi");
            assert_eq!(body, "There");
            assert_eq!(*timeout, 1000);
        }
        other => panic!("wrong operation {:?}", other),
    }
    let outcome: Result<String, VeloxError> = Ok(json_string("success"));
    let js = execute_cmd(&outcome, plan.success_callback.as_str(), plan.error_callback.as_str());
    assert_eq!(
        js,
        "if (window[\"nok\"]) { window[\"nok\"]({\"result\":\"success\"}) } else { console.warn(\"[Velox] Couldn't find callback id: nok\") }"
    );
}

#[test]
fn format_callback_frames_the_invocation_defensively() {
    assert_eq!(
        format_callback("cb", "{\"result\":1}"),
        "if (window[\"cb\"]) { window[\"cb\"]({\"result\":1}) } else { console.warn(\"[Velox] Couldn't find callback id: cb\") }"
    );
}

#[test]
fn malformed_configuration_is_fatal() {
    match parse_config("{\"name\":\"Demo\"}") {
        Err(VeloxError::ConfigError { .. }) => {}
        other => panic!("expected a configuration error, got {:?}", other),
    }
    match AppBuilder::from_config("not json at all") {
        Err(VeloxError::ConfigError { .. }) => {}
        other => panic!("expected a configuration error, got {:?}", other),
    }
}

#[test]
fn builder_carries_the_configuration_forward() {
    let builder = AppBuilder::from_config(
        "{\"name\":\"Demo\",\"debug\":false,\"devServerUrl\":\"http://localhost:1234\",\"description\":\"d\",\"permissions\":[\"fs\"],\"packageManager\":\"npm\",\"buildDir\":\"dist\"}",
    )
    .unwrap();
    let app = builder
        .load(ContentType::Url("http://localhost:1234".to_string()))
        .show_splashscreen("<p>loading</p>".to_string())
        .invoke_handler()
        .build();
    assert_eq!(app.name, "Demo");
    assert!(!app.debug);
    assert!(app.has_invoke_handler);
    assert_eq!(app.content, Some(ContentType::Url("http://localhost:1234".to_string())));
    assert_eq!(app.splashscreen, Some("data:text/html,<p>loading</p>".to_string()));
    assert_eq!(
        ContentType::File("index.html".to_string()).get_content(),
        "index.html"
    );
}

#[test]
fn content_classification_flows_into_file_results() {
    let text = read_file("notes.txt".to_string(), b"Hello".to_vec(), 5, false, true);
    assert!(text.metadata.is_text);
    assert!(!text.metadata.is_binary);
    assert_eq!(text.bytes, b"Hello".to_vec());

    let binary = read_file(
        "img.jpg".to_string(),
        vec![0xFF, 0xE0, 0x00, 0x10, 0x4A, 0x46, 0x49, 0x46, 0x00],
        9,
        false,
        true,
    );
    assert!(binary.metadata.is_binary);
    assert!(!binary.metadata.is_text);
}

#[test]
fn dismissed_choosers_are_normal_outcomes() {
    match open_dialog(None) {
        Err(VeloxError::DialogError { detail }) => {
            assert_eq!(detail, "User did not selected any file.")
        }
        other => panic!("expected a dialog error, got {:?}", other),
    }
    match open_dialog(Some(FilePath::Single("/a".to_string()))) {
        Ok(FilePath::Single(p)) => assert_eq!(p, "/a"),
        other => panic!("expected the chosen path, got {:?}", other),
    }
    match select_folder(None) {
        Err(VeloxError::DialogError { .. }) => {}
        other => panic!("expected a dialog error, got {:?}", other),
    }
    match save_dialog(None) {
        Err(VeloxError::DialogError { detail }) => {
            assert_eq!(detail, "User did not save the file.")
        }
        other => panic!("expected a dialog error, got {:?}", other),
    }
    match save_dialog(Some("/tmp/out".to_string())) {
        Ok(p) => assert_eq!(p, "/tmp/out"),
        other => panic!("expected the chosen path, got {:?}", other),
    }
}

#[test]
fn save_and_open_modes_are_validated() {
    assert_eq!(save_file(true, "w"), Ok(SavePlan::WriteExisting { append: false }));
    assert_eq!(save_file(true, "a"), Ok(SavePlan::WriteExisting { append: true }));
    assert_eq!(save_file(false, "w"), Ok(SavePlan::AskUser));
    match save_file(true, "x") {
        Err(VeloxError::IoError { detail }) => assert_eq!(detail, "Invalid mode."),
        other => panic!("expected an invalid-mode error, got {:?}", other),
    }
    assert_eq!(open_file("r"), Ok(OpenMode::Read));
    assert_eq!(open_file("rw"), Ok(OpenMode::ReadWrite));
    match open_file("z") {
        Err(VeloxError::IoError { .. }) => {}
        other => panic!("expected an invalid-mode error, got {:?}", other),
    }
}

#[test]
fn subprocess_outcomes_pick_their_callback() {
    assert_eq!(
        exec_output(true, "listing\n".to_string(), String::new()),
        Ok("listing\n".to_string())
    );
    match exec_output(false, String::new(), "no such file".to_string()) {
        Err(VeloxError::SubProcessError { detail }) => assert_eq!(detail, "no such file"),
        other => panic!("expected a subprocess error, got {:?}", other),
    }
    let (program, args) = shell_invocation(false, "ls -l");
    assert_eq!(program, "sh");
    assert_eq!(args, vec!["-c".to_string(), "ls -l".to_string()]);
    assert_eq!(ws_url(8080), "ws://127.0.0.1:8080");
}

#[test]
fn asset_routes_and_content_types() {
    assert_eq!(handle_req("/"), Route::Home);
    assert_eq!(handle_req("/app.css"), Route::Asset("app.css".to_string()));
    assert_eq!(get_mime_type("a/b/index.html"), "text/html");
    assert_eq!(get_mime_type("notes.txt"), "text/plain");
    assert_eq!(get_mime_type("archive.tar.gz"), "application/octet-stream");
    assert_eq!(get_mime_type("no_extension"), "application/octet-stream");
    let served = serve_assets("logo.png", Some(vec![1, 2, 3]));
    assert_eq!(served.status, 200);
    assert_eq!(served.content_type, "image/png");
    assert_eq!(served.allow_origin, "*");
    let missing = serve_assets("gone.js", None);
    assert_eq!(missing.status, 404);
}

#[test]
fn any_member_order_reaches_the_parser_through_the_canonical_writer() {
    // The runner reads a document in any member order, then normalizes it
    // through the canonical writer; the strict parser accepts that form.
    let settings = VeloxConfig {
        name: "Demo".to_string(),
        description: "demo app".to_string(),
        debug: true,
        permissions: vec!["fs".to_string(), "shell".to_string()],
        dev_server_url: "http://localhost:1234".to_string(),
        package_manager: "npm".to_string(),
        build_dir: "dist".to_string(),
    };
    let canonical = encode_config(&settings);
    assert_eq!(
        canonical,
        "{\"name\":\"Demo\",\"debug\":true,\"devServerUrl\":\"http://localhost:1234\",\"description\":\"demo app\",\"permissions\":[\"fs\",\"shell\"],\"packageManager\":\"npm\",\"buildDir\":\"dist\"}"
    );
    let parsed = parse_config(&canonical).expect("the canonical writer's output parses");
    assert_eq!(parsed, settings);
}
