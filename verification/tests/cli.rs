use libroxo::cli::mcp::{
    build_arguments, build_outcome, negotiate_protocol_version, not_started_here_message,
    port_from_argument, read_frame, reply_for, serve_start_arguments, sourcemap_arguments,
    sourcemap_outcome, McpCommand, McpMethod, McpTool, Reply, RpcError, SpawnedSessions, ToolRoute,
    LATEST_PROTOCOL_VERSION,
};
use libroxo::cli::serve::{serve_allowed_hosts, serve_port, start_message_lines};
use libroxo::AutoConnectPolicy;
use libroxo::cli::sessions::{pad_right, session_row, table_header, truncate};
use libroxo::cli::status::{
    client_line, clients_label, connection_label, format_duration, place_label, StatusCommand,
};
use libroxo::text::{ascii_lowercase, is_blank, is_white_space, text_eq, trim};
use libroxo::{SessionBeacon, SessionId};
use libroxo::cli::wait::{WaitCommand, WaitCondition, WaitStep};

#[test]
fn short_names_are_left_alone() {
    assert_eq!(truncate("MyGame", 24), "MyGame");
}

#[test]
fn long_names_are_shortened_to_the_column_width() {
    let truncated = truncate("AVeryLongProjectNameIndeed", 10);

    assert_eq!(truncated.chars().count(), 10);
    assert!(truncated.ends_with('…'));
}

#[test]
fn truncation_edges() {
    assert_eq!(truncate("abc", 3), "abc");
    assert_eq!(truncate("abcd", 3), "ab…");
    assert_eq!(truncate("abcd", 1), "…");
    assert_eq!(truncate("abcd", 0), "…");
    assert_eq!(truncate("", 0), "");
}

#[test]
fn columns_are_padded_to_width() {
    assert_eq!(pad_right("PORT", 7), "PORT   ");
    assert_eq!(pad_right("34872", 7), "34872  ");
    assert_eq!(pad_right("toolongvalue", 7), "toolongvalue");
    assert_eq!(pad_right("", 2), "  ");
}

#[test]
fn durations_scale_with_magnitude() {
    assert_eq!(format_duration(9), "9s");
    assert_eq!(format_duration(75), "1m 15s");
    assert_eq!(format_duration(3700), "1h 1m");
}

#[test]
fn duration_edges() {
    assert_eq!(format_duration(0), "0s");
    assert_eq!(format_duration(60), "1m 0s");
    assert_eq!(format_duration(3600), "1h 0m");
    assert_eq!(format_duration(90061), "25h 1m");
}

#[test]
fn places_and_connections_are_described() {
    assert_eq!(place_label(Some(0)), "unpublished place");
    assert_eq!(place_label(Some(123)), "place 123");
    assert_eq!(place_label(None), "unknown place");
    assert_eq!(connection_label(true, &Some("servePlaceIds".to_owned())), "auto-connected via servePlaceIds");
    assert_eq!(connection_label(true, &None), "auto-connected");
    assert_eq!(connection_label(false, &Some("gameId".to_owned())), "connected manually");
    assert_eq!(clients_label(1), "1 client");
    assert_eq!(clients_label(0), "0 clients");
    assert_eq!(clients_label(2), "2 clients");
}

#[test]
fn requiring_studio_fails_only_without_it() {
    let command = StatusCommand { port: None, project: None, json: false, require_studio: true };
    assert!(command.studio_requirement_failed(false));
    assert!(!command.studio_requirement_failed(true));
    let relaxed = StatusCommand { port: None, project: None, json: false, require_studio: false };
    assert!(!relaxed.studio_requirement_failed(false));
    assert_eq!(
        StatusCommand::missing_studio_message("Game"),
        "No Studio client is connected to 'Game'. Open the place in Studio, or run `roxo wait --for studio` to block until it connects."
    );
}

#[test]
fn conditions_parse_from_command_line_values() {
    assert_eq!("studio".parse(), Ok(WaitCondition::Studio));
    assert_eq!("Server".parse(), Ok(WaitCondition::Server));
    assert!("forever".parse::<WaitCondition>().is_err());
}

#[test]
fn condition_errors_name_the_value() {
    assert_eq!("CLIENT".parse(), Ok(WaitCondition::Studio));
    assert_eq!(
        "Forever".parse::<WaitCondition>(),
        Err("Invalid wait condition 'forever'. Valid values are: server, studio".to_owned())
    );
}

fn wait_for(condition: WaitCondition) -> WaitCommand {
    WaitCommand { condition, port: None, project: None, timeout: 60, json: false }
}

#[test]
fn waiting_decides_each_poll() {
    let studio = wait_for(WaitCondition::Studio);
    assert_eq!(studio.step(Some(true), false), WaitStep::Ready);
    assert_eq!(studio.step(Some(true), true), WaitStep::Ready);
    assert_eq!(studio.step(Some(false), false), WaitStep::Retry);
    assert_eq!(studio.step(Some(false), true), WaitStep::GiveUp);
    assert_eq!(studio.step(None, false), WaitStep::Retry);
    assert_eq!(studio.step(None, true), WaitStep::GiveUp);

    let server = wait_for(WaitCondition::Server);
    assert_eq!(server.step(Some(false), false), WaitStep::Ready);
    assert_eq!(server.step(None, true), WaitStep::GiveUp);
}

#[test]
fn waiting_reports_in_words() {
    let studio = wait_for(WaitCondition::Studio);
    assert_eq!(studio.ready_message("Game", "/p", 1), "Studio connected to 'Game' (1 client)");
    assert_eq!(studio.ready_message("Game", "/p", 2), "Studio connected to 'Game' (2 clients)");
    let server = wait_for(WaitCondition::Server);
    assert_eq!(server.ready_message("Game", "/p/default.project.json", 0), "Server ready: 'Game' on /p/default.project.json");
    assert_eq!(
        server.timeout_message(Some("refused")),
        "Timed out after 60s waiting for a Roxo serve session.\nLast attempt: refused"
    );
    assert_eq!(
        studio.timeout_message(None),
        "Timed out after 60s waiting for Studio to connect.\nCheck that the place is open in Studio, that the Roxo plugin is installed, and that auto-connect is not set to 'off' for this project."
    );
}

#[test]
fn read_only_servers_hide_mutating_tools() {
    let names = |read_only: bool| -> Vec<String> {
        McpCommand { read_only }
            .tools()
            .iter()
            .map(|tool| tool.name().to_owned())
            .collect()
    };

    let read_only = names(true);
    assert!(read_only.contains(&"roxo_status".to_owned()));
    assert!(!read_only.contains(&"roxo_serve_start".to_owned()));

    assert!(names(false).contains(&"roxo_serve_start".to_owned()));
}

#[test]
fn initialize_echoes_a_supported_protocol_version() {
    assert_eq!(negotiate_protocol_version(Some("2024-11-05")), "2024-11-05");

    // An unknown revision falls back to the newest one we implement.
    assert_eq!(negotiate_protocol_version(Some("1999-01-01")), LATEST_PROTOCOL_VERSION);
    assert_eq!(negotiate_protocol_version(None), "2025-06-18");
}

#[test]
fn notifications_produce_no_result() {
    let method = McpMethod::route("notifications/initialized").unwrap();

    assert_eq!(method, McpMethod::Notification);
    assert_eq!(McpMethod::route("notifications/cancelled").unwrap(), McpMethod::Notification);
    assert_eq!(McpMethod::route("ping").unwrap(), McpMethod::Ping);

    // A frame without an id is a notification and is never answered.
    let frame = match read_frame(r#"{"jsonrpc":"2.0","method":"notifications/initialized"}"#) {
        Some(Ok(frame)) => frame,
        _ => panic!("a well-formed notification did not parse"),
    };
    assert_eq!(frame.id, None);
    assert_eq!(frame.method_name(), "notifications/initialized");
    assert!(matches!(reply_for(&frame, Ok(false)), Reply::Silence));
}

#[test]
fn unknown_methods_are_reported_as_method_not_found() {
    let error = McpMethod::route("does/not/exist").unwrap_err();

    assert_eq!(error.code, -32601);
    assert_eq!(error.message, "Method not found: does/not/exist");
}

#[test]
fn stopping_a_session_this_server_did_not_start_is_refused() {
    let mut spawned = SpawnedSessions::new();
    let message = spawned.release(34872).unwrap_err();
    assert_eq!(message, not_started_here_message(34872));

    assert!(message.contains("started by this MCP server"));
    assert!(message.starts_with("No serve session on port 34872 "));
}

#[test]
fn tool_calls_are_routed_by_name() {
    let full = McpCommand { read_only: false };
    assert!(matches!(full.route_tool("roxo_build"), Ok(ToolRoute::Run(McpTool::Build))));
    let unknown = full.route_tool("roxo_fly").unwrap_err();
    assert_eq!(unknown.code, -32602);
    assert_eq!(unknown.message, "Unknown tool 'roxo_fly'");

    let observer = McpCommand { read_only: true };
    assert!(matches!(observer.route_tool("roxo_status"), Ok(ToolRoute::Run(McpTool::Status))));
    match observer.route_tool("roxo_serve_start") {
        Ok(ToolRoute::Unavailable(message)) => assert_eq!(
            message,
            "'roxo_serve_start' is unavailable because this Roxo MCP server was started with --read-only."
        ),
        _ => panic!("a read-only server ran a mutating tool"),
    }
    // A read-only server refuses unknown names the same way.
    assert!(matches!(observer.route_tool("roxo_fly"), Ok(ToolRoute::Unavailable(_))));

    for tool in full.tools() {
        assert_eq!(McpTool::from_name(tool.name()), Some(tool));
    }
    assert_eq!(McpTool::ServeStop.is_read_only(), false);
    assert_eq!(McpTool::WaitForStudio.is_read_only(), true);
}

#[test]
fn ports_keep_their_low_sixteen_bits() {
    assert_eq!(port_from_argument(34872), 34872);
    assert_eq!(port_from_argument(65536 + 5), 5);
    let error = RpcError::invalid_params("Missing tool name".to_owned());
    assert_eq!(error.code, -32602);
}

#[test]
fn serve_flags_override_the_project() {
    assert_eq!(serve_port(Some(8000), Some(9000)), 8000);
    assert_eq!(serve_port(None, Some(9000)), 9000);
    assert_eq!(serve_port(None, None), 34872);

    let project = vec!["studio.lan".to_owned()];
    assert_eq!(serve_allowed_hosts(Vec::new(), project.clone()), project);
    assert_eq!(
        serve_allowed_hosts(vec!["mypc.lan".to_owned()], project),
        vec!["mypc.lan".to_owned()]
    );
}

#[test]
fn blank_lines_are_skipped_and_garbage_is_a_parse_error() {
    assert!(read_frame("").is_none());
    assert!(read_frame("  \t ").is_none());

    match read_frame("{not json") {
        Some(Err(error)) => {
            assert_eq!(error.code, -32700);
            assert!(error.message.starts_with("Parse error: "));
            assert!(error.message.len() > "Parse error: ".len());
        }
        _ => panic!("a malformed frame was not reported"),
    }
}

#[test]
fn requests_with_an_id_are_always_answered() {
    let frame = match read_frame(r#"{"jsonrpc":"2.0","id":7,"method":"ping"}"#) {
        Some(Ok(frame)) => frame,
        _ => panic!("a well-formed request did not parse"),
    };
    assert!(frame.id.is_some());
    assert_eq!(frame.method_name(), "ping");
    assert_eq!(frame.id.as_deref(), Some("7"));
    assert!(matches!(reply_for(&frame, Ok(true)), Reply::Answer(id) if id == "7"));
    assert!(matches!(reply_for(&frame, Ok(false)), Reply::EmptyAnswer(id) if id == "7"));
    match reply_for(&frame, Err(RpcError::method_not_found("nope"))) {
        Reply::Failure(id, error) => {
            assert_eq!(id, "7");
            assert_eq!(error.code, -32601);
        }
        _ => panic!("an error was not reported"),
    }

    // A method that is not a string reads as no method at all.
    let frame = match read_frame(r#"{"id":null,"method":5}"#) {
        Some(Ok(frame)) => frame,
        _ => panic!("a well-formed request did not parse"),
    };
    assert_eq!(frame.id.as_deref(), Some("null"));
    assert_eq!(frame.method_name(), "");
    assert!(matches!(reply_for(&frame, Ok(false)), Reply::EmptyAnswer(id) if id == "null"));
}

#[test]
fn the_read_only_tool_list_is_answered_against_the_request_id() {
    let frame = match read_frame(r#"{"jsonrpc":"2.0","id":1,"method":"tools/list"}"#) {
        Some(Ok(frame)) => frame,
        _ => panic!("a well-formed request did not parse"),
    };
    assert_eq!(McpMethod::route(frame.method_name()).unwrap(), McpMethod::ListTools);
    let names: Vec<&str> = McpCommand { read_only: true }.tools().into_iter().map(McpTool::name).collect();
    assert_eq!(names, vec!["roxo_sessions", "roxo_status", "roxo_wait_for_studio"]);
    assert!(matches!(reply_for(&frame, Ok(true)), Reply::Answer(id) if id == "1"));
}

#[test]
fn tool_calls_carry_their_name_and_arguments() {
    let line = r#"{"jsonrpc":"2.0","id":"a","method":"tools/call","params":{"name":"roxo_serve_start","arguments":{"project":"game","port":8000,"autoConnect":"matching","timeoutSeconds":5,"output":"out.rbxl","includeScriptPaths":false}}}"#;
    let frame = match read_frame(line) {
        Some(Ok(frame)) => frame,
        _ => panic!("a well-formed request did not parse"),
    };
    assert_eq!(frame.id.as_deref(), Some("\"a\""));
    assert_eq!(frame.tool_name.as_deref(), Some("roxo_serve_start"));
    assert_eq!(frame.protocol_version, None);
    assert_eq!(frame.arguments.project.as_deref(), Some("game"));
    assert_eq!(frame.arguments.port, Some(8000));
    assert_eq!(frame.arguments.auto_connect.as_deref(), Some("matching"));
    assert_eq!(frame.arguments.timeout_seconds, Some(5));
    assert_eq!(frame.arguments.output.as_deref(), Some("out.rbxl"));
    assert_eq!(frame.arguments.include_script_paths, Some(false));

    // Members of the wrong type read as absent.
    let frame = match read_frame(r#"{"id":2,"method":"initialize","params":{"protocolVersion":"2025-03-26","arguments":{"port":"8000"}}}"#) {
        Some(Ok(frame)) => frame,
        _ => panic!("a well-formed request did not parse"),
    };
    assert_eq!(frame.protocol_version.as_deref(), Some("2025-03-26"));
    assert_eq!(frame.arguments.port, None);
    assert_eq!(frame.tool_name, None);
}

#[test]
fn the_start_message_warns_about_reachable_addresses() {
    let local = start_message_lines("127.0.0.1", true, 34872, AutoConnectPolicy::Matching);
    assert_eq!(
        local,
        vec![
            "Roxo server listening:",
            "  Address: localhost",
            "  Port:    34872",
            "  Connect: automatic for places this project matches",
            "",
            "Visit http://localhost:34872/ in your browser for more information.",
        ]
    );

    let open = start_message_lines("0.0.0.0", false, 8000, AutoConnectPolicy::Off);
    assert_eq!(open.len(), 11);
    assert_eq!(open[1], "  Address: 0.0.0.0");
    assert_eq!(
        open[5],
        "WARNING: This server is bound to 0.0.0.0, which is reachable from the network."
    );
    assert_eq!(
        open[6],
        "The serve API is unauthenticated, so anyone who can reach 0.0.0.0:8000 can read"
    );
    assert_eq!(open[10], "Visit http://0.0.0.0:8000/ in your browser for more information.");
}

#[test]
fn only_recorded_sessions_can_be_released() {
    let mut spawned = SpawnedSessions::new();
    spawned.record(34872);
    spawned.record(34873);
    spawned.record(34873);
    assert!(spawned.release(34872).is_ok());
    assert!(spawned.release(34872).is_err());
    assert!(spawned.release(34873).is_ok());
    assert!(spawned.release(34873).is_err());
}

#[test]
fn a_call_without_a_tool_name_is_invalid() {
    let full = McpCommand { read_only: false };
    let error = full.route_call(None).unwrap_err();
    assert_eq!(error.code, -32602);
    assert_eq!(error.message, "Missing tool name");
    assert!(matches!(full.route_call(Some("roxo_status")), Ok(ToolRoute::Run(McpTool::Status))));
}

#[test]
fn spawned_commands_carry_the_requested_options() {
    assert_eq!(
        serve_start_arguments("game", Some(8000), Some("matching")),
        vec!["serve", "game", "--port", "8000", "--auto-connect", "matching"]
    );
    assert_eq!(serve_start_arguments("game", None, None), vec!["serve", "game"]);
    assert_eq!(
        build_arguments("game", "out.rbxl"),
        vec!["build", "game", "--output", "out.rbxl"]
    );
    assert_eq!(
        sourcemap_arguments("game", None),
        vec!["sourcemap", "game", "--include-non-scripts"]
    );
    assert_eq!(sourcemap_arguments("game", Some(false)), vec!["sourcemap", "game"]);
}

#[test]
fn failed_builds_report_their_error_output() {
    assert!(build_outcome(true, "warning").is_ok());
    assert_eq!(
        build_outcome(false, "\n  error: no project\n").unwrap_err(),
        "Build failed:\nerror: no project"
    );
    assert_eq!(
        sourcemap_outcome(false, b"", " boom ").unwrap_err(),
        "Sourcemap generation failed:\nboom"
    );
    let map = sourcemap_outcome(true, br#"{"name":"Game"}"#, "").unwrap();
    assert_eq!(map["name"], "Game");
    assert!(sourcemap_outcome(true, b"not json", "").is_err());
}

#[test]
fn white_space_is_trimmed_from_both_ends() {
    assert_eq!(trim("  a b \n"), "a b");
    assert_eq!(trim(""), "");
    assert_eq!(trim(" \t"), "");
    assert!(is_blank(" \r\n"));
    assert!(!is_blank(" x "));
}

#[test]
fn session_rows_line_up_under_the_header() {
    let header = table_header();
    assert_eq!(
        header,
        format!("{:<7} {:<24} {:<12} PATH", "PORT", "PROJECT", "CONNECT")
    );

    let session = SessionBeacon {
        session_id: SessionId::from_uuid(uuid::Uuid::nil()),
        pid: 1,
        address: "127.0.0.1".to_owned(),
        port: 34872,
        project_name: "AVeryLongProjectNameThatOverflows".to_owned(),
        project_id: "roxo-1".to_owned(),
        project_path: "/home/dev/game".to_owned(),
        place_id: None,
        game_id: None,
        serve_place_ids: None,
        auto_connect: "matching".to_owned(),
        server_version: "0.1.0".to_owned(),
        started_at: 0,
    };
    let (port, name, rest) = session_row(&session);
    assert_eq!(port, "34872   ");
    assert_eq!(name.chars().count(), 25);
    assert!(name.ends_with("… "));
    assert_eq!(rest, "matching     /home/dev/game");
}

#[test]
fn client_lines_show_subscription_place_and_connection() {
    assert_eq!(
        client_line(true, "Roxo 1.0", Some(0), true, &Some("place id".to_owned())),
        "  * Roxo 1.0 - unpublished place, auto-connected via place id"
    );
    assert_eq!(
        client_line(false, "unknown", None, false, &None),
        "  - unknown - unknown place, connected manually"
    );
}

#[test]
fn white_space_is_what_std_calls_white_space() {
    for c in (0u32..=0x10FFFF).filter_map(char::from_u32) {
        assert_eq!(is_white_space(c), c.is_whitespace(), "{:?}", c);
    }
}

#[test]
fn ascii_case_and_comparison_follow_std() {
    assert_eq!(ascii_lowercase("MaTcHiNg Ünï"), "MaTcHiNg Ünï".to_ascii_lowercase());
    assert_eq!(ascii_lowercase(""), "");
    assert!(text_eq("roxo_status", "roxo_status"));
    assert!(!text_eq("roxo_status", "roxo_statu"));
    assert!(!text_eq("ab", "ba"));
}
