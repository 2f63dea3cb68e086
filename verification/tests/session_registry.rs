use libroxo::session_registry::{
    beacon_file_name, is_beacon_file_name, order_by_port, path_starts_with, pick_session,
    PathStyle, ResolveError,
};
use libroxo::{SessionBeacon, SessionId};

fn beacon(port: u16, name: &str, path: &str) -> SessionBeacon {
    SessionBeacon {
        session_id: SessionId::from_uuid(uuid::Uuid::nil()),
        pid: 1,
        address: "127.0.0.1".to_owned(),
        port,
        project_name: name.to_owned(),
        project_id: "roxo-abc".to_owned(),
        project_path: path.to_owned(),
        place_id: None,
        game_id: None,
        serve_place_ids: None,
        auto_connect: "matching".to_owned(),
        server_version: "7.7.0".to_owned(),
        started_at: 0,
    }
}

#[test]
fn base_url_uses_the_advertised_address() {
    let beacon = SessionBeacon {
        session_id: SessionId::from_uuid(uuid::Uuid::nil()),
        pid: 1,
        address: "127.0.0.1".to_owned(),
        port: 34872,
        project_name: "Test".to_owned(),
        project_id: "roxo-abc".to_owned(),
        project_path: "/tmp/default.project.json".to_owned(),
        place_id: None,
        game_id: None,
        serve_place_ids: None,
        auto_connect: "matching".to_owned(),
        server_version: "7.7.0".to_owned(),
        started_at: 0,
    };

    assert_eq!(beacon.base_url(), "http://127.0.0.1:34872");
}

#[test]
fn status_url_extends_the_base_url() {
    let b = beacon(7, "Game", "/p");
    assert_eq!(b.status_url(), "http://127.0.0.1:7/api/roxo/status");
}

#[test]
fn beacons_are_named_after_their_port() {
    assert_eq!(beacon_file_name(34872), "34872.json");
    assert_eq!(beacon_file_name(0), "0.json");
    assert_eq!(beacon(80, "x", "/x").file_name(), "80.json");
    assert!(is_beacon_file_name(&beacon_file_name(34872)));
}

#[test]
fn only_json_files_are_beacons() {
    assert!(is_beacon_file_name("34872.json"));
    assert!(is_beacon_file_name("a.json"));
    assert!(!is_beacon_file_name(".json"));
    assert!(!is_beacon_file_name("34872.json.tmp"));
    assert!(!is_beacon_file_name("34872.JSON"));
    assert!(!is_beacon_file_name("json"));
    assert!(!is_beacon_file_name(""));
}

#[test]
fn sessions_are_ordered_by_port() {
    let ordered = order_by_port(vec![
        beacon(34874, "c", "/c"),
        beacon(34872, "a", "/a"),
        beacon(34873, "b", "/b"),
    ]);
    let ports: Vec<_> = ordered.iter().map(|b| b.port).collect();
    assert_eq!(ports, vec![34872, 34873, 34874]);
    let names: Vec<_> = ordered.iter().map(|b| b.project_name.clone()).collect();
    assert_eq!(names, vec!["a", "b", "c"]);
    assert!(order_by_port(Vec::new()).is_empty());
}

#[test]
fn paths_are_compared_by_component() {
    assert!(path_starts_with("/tmp/a/default.project.json", "/tmp/a", PathStyle::Unix));
    assert!(path_starts_with("/tmp/a/default.project.json", "/tmp/a/", PathStyle::Unix));
    assert!(path_starts_with("/tmp/a/default.project.json", "/tmp//a/./", PathStyle::Unix));
    assert!(path_starts_with("/tmp/a", "/tmp/a", PathStyle::Unix));
    assert!(path_starts_with("/tmp/a", "/", PathStyle::Unix));
    assert!(path_starts_with("/tmp/a", "", PathStyle::Unix));
    assert!(!path_starts_with("/tmp/ab/default.project.json", "/tmp/a", PathStyle::Unix));
    assert!(!path_starts_with("/tmp/a", "/tmp/a/b", PathStyle::Unix));
    assert!(!path_starts_with("tmp/a", "/tmp", PathStyle::Unix));
    assert!(path_starts_with("./a/b", "./a", PathStyle::Unix));
    assert!(!path_starts_with("a/b", "./a", PathStyle::Unix));
    assert!(path_starts_with("a/./b", "a/b", PathStyle::Unix));
}

#[test]
fn a_single_match_is_picked() {
    let sessions = vec![beacon(34872, "A", "/work/a/default.project.json"), beacon(34873, "B", "/work/b/default.project.json")];
    let picked = pick_session(sessions, Some(34873), None, PathStyle::Unix).unwrap();
    assert_eq!(picked.project_name, "B");

    let sessions = vec![beacon(34872, "A", "/work/a/default.project.json"), beacon(34873, "B", "/work/b/default.project.json")];
    let picked = pick_session(sessions, None, Some("/work/a"), PathStyle::Unix).unwrap();
    assert_eq!(picked.port, 34872);
}

#[test]
fn no_match_is_reported() {
    let sessions = vec![beacon(34872, "A", "/work/a/default.project.json")];
    match pick_session(sessions, Some(1), None, PathStyle::Unix) {
        Err(error) => {
            assert!(matches!(error, ResolveError::NotFound));
            assert_eq!(
                error.message(),
                "No running Roxo serve session was found. Start one with `roxo serve`, or pass --port to name a session on a specific port."
            );
        }
        Ok(_) => panic!("a session was picked that does not match"),
    }
    assert!(matches!(pick_session(Vec::new(), None, None, PathStyle::Unix), Err(ResolveError::NotFound)));
}

#[test]
fn an_ambiguous_filter_is_refused_rather_than_guessed() {
    let sessions = vec![
        beacon(34872, "A", "/work/a/default.project.json"),
        beacon(34873, "B", "/work/b/default.project.json"),
    ];
    match pick_session(sessions, None, Some("/work"), PathStyle::Unix) {
        Err(error) => {
            assert_eq!(
                error.message(),
                "Multiple Roxo serve sessions are running. Use --port to pick one:\n  port 34872 - A\n  port 34873 - B"
            );
        }
        Ok(_) => panic!("an ambiguous filter picked a session"),
    }
}

#[test]
fn windows_paths_are_compared_by_component() {
    let w = PathStyle::Windows;
    assert!(path_starts_with("a\\b\\c", "a\\b", w));
    assert!(path_starts_with("C:\\work\\a\\default.project.json", "c:/work/a", w));
    assert!(path_starts_with("C:\\work\\a", "C:\\work\\a\\", w));
    assert!(!path_starts_with("C:\\work\\ab", "C:\\work\\a", w));
    assert!(!path_starts_with("D:\\work\\a", "C:\\work", w));
    assert!(!path_starts_with("C:work", "C:\\work", w));
    assert!(path_starts_with("C:work\\a", "C:work", w));
    // The same text under Unix rules is one component.
    assert!(!path_starts_with("a\\b\\c", "a\\b", PathStyle::Unix));
}

#[test]
fn windows_projects_are_picked() {
    let sessions = vec![beacon(34872, "A", "a\\b\\c")];
    let picked = pick_session(sessions, None, Some("a\\b"), PathStyle::Windows).unwrap();
    assert_eq!(picked.project_name, "A");
}
