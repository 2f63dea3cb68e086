use libroxo::auto_connect::AutoConnectPolicy;
use libroxo::cli::serve::auto_connect_description;
use libroxo::derive_project_id;

#[test]
fn policy_parses_from_command_line_values() {
    assert_eq!("off".parse(), Ok(AutoConnectPolicy::Off));
    assert_eq!("Matching".parse(), Ok(AutoConnectPolicy::Matching));
    assert_eq!("always".parse(), Ok(AutoConnectPolicy::Always));
    assert!("sometimes".parse::<AutoConnectPolicy>().is_err());
}

#[test]
fn derived_project_ids_differ_between_paths() {
    let a = derive_project_id("/tmp/a/default.project.json");
    let b = derive_project_id("/tmp/b/default.project.json");

    assert_ne!(a, b);
    assert!(a.starts_with("roxo-"));
}

#[test]
fn derived_project_ids_are_stable() {
    let path = "/tmp/a/default.project.json";

    assert_eq!(derive_project_id(path), derive_project_id(path));
}

#[test]
fn derived_project_id_is_the_hash_prefix() {
    // BLAKE3 of the empty input starts af1349b9f5f9a1a6.
    assert_eq!(derive_project_id(""), "roxo-af1349b9f5f9a1a6");
    assert_eq!(derive_project_id("/tmp/a/default.project.json").len(), 21);
}

#[test]
fn project_values_accept_booleans_and_names() {
    assert_eq!(AutoConnectPolicy::from_project_bool(true), AutoConnectPolicy::Matching);
    assert_eq!(AutoConnectPolicy::from_project_bool(false), AutoConnectPolicy::Off);
    assert_eq!(AutoConnectPolicy::from_project_name("off"), Ok(AutoConnectPolicy::Off));
    assert_eq!(
        AutoConnectPolicy::from_project_name("MATCHING"),
        Ok(AutoConnectPolicy::Matching)
    );
    assert_eq!(AutoConnectPolicy::from_project_name("always"), Ok(AutoConnectPolicy::Always));
    assert_eq!(AutoConnectPolicy::from_project_name("never"), Ok(AutoConnectPolicy::Off));
    assert_eq!(AutoConnectPolicy::from_project_name("Match"), Ok(AutoConnectPolicy::Matching));
}

#[test]
fn project_values_reject_unknown_names() {
    assert_eq!(
        AutoConnectPolicy::from_project_name("Sometimes"),
        Err("invalid autoConnect value 'sometimes'. Valid values are 'off', 'matching', 'always', true, or false".to_owned())
    );
    // Booleans are JSON booleans in a project file, not names.
    assert!(AutoConnectPolicy::from_project_name("true").is_err());
}

#[test]
fn command_line_values_accept_spelled_booleans_and_report_the_rest() {
    assert_eq!("TRUE".parse(), Ok(AutoConnectPolicy::Matching));
    assert_eq!("false".parse(), Ok(AutoConnectPolicy::Off));
    assert_eq!("Never".parse(), Ok(AutoConnectPolicy::Off));
    assert_eq!(
        "SomeTimes".parse::<AutoConnectPolicy>(),
        Err("Invalid auto-connect policy 'sometimes'. Valid values are: off, matching, always".to_owned())
    );
}

#[test]
fn policy_names_read_back() {
    for policy in [AutoConnectPolicy::Off, AutoConnectPolicy::Matching, AutoConnectPolicy::Always] {
        assert_eq!(policy.as_str().parse(), Ok(policy));
        assert_eq!(AutoConnectPolicy::from_project_name(policy.as_str()), Ok(policy));
    }
    assert_eq!(AutoConnectPolicy::Matching.as_str(), "matching");
    assert_eq!(AutoConnectPolicy::default(), AutoConnectPolicy::Matching);
}

#[test]
fn start_message_describes_each_policy() {
    assert_eq!(auto_connect_description(AutoConnectPolicy::Off), "manual (press Connect in Studio)");
    assert_eq!(
        auto_connect_description(AutoConnectPolicy::Matching),
        "automatic for places this project matches"
    );
    assert_eq!(auto_connect_description(AutoConnectPolicy::Always), "automatic from any place");
}
