use admiral::bootstrap::plan;
use admiral::config::{ConfigError, Entry, FieldValue, Lookup, Section};
use admiral::line::LineState;
use admiral::locate::{config_candidates, get_config_file, if_readable, join};
use admiral::notice::{describe, launch_failure, missing_notice};
use admiral::runner::{step, Event, Phase, Policy};

fn static_entry(name: &str, command: &str) -> Entry {
    Entry {
        name: name.to_string(),
        lookup: Lookup::Found(Section {
            path: Some(FieldValue::Text(command.to_string())),
            is_static: Some(FieldValue::Boolean(true)),
            reload: None,
            shell: None,
        }),
    }
}

fn absent(name: &str) -> Entry {
    Entry { name: name.to_string(), lookup: Lookup::Absent }
}

#[test]
fn positions_follow_the_order_list() {
    let entries = vec![
        static_entry("clock", "date"),
        static_entry("battery", "acpi"),
        static_entry("load", "uptime"),
    ];
    let plan = plan(&entries, &Some("/bin/sh".to_string())).unwrap();
    assert!(plan.missing.is_empty());
    let names: Vec<&str> = plan.items.iter().map(|i| i.name.as_str()).collect();
    assert_eq!(names, vec!["clock", "battery", "load"]);
    let positions: Vec<usize> = plan.items.iter().map(|i| i.position).collect();
    assert_eq!(positions, vec![0, 1, 2]);
    assert_eq!(plan.items[1].command, "acpi");
    assert_eq!(plan.items[1].shell, "/bin/sh");
    assert_eq!(plan.items[1].policy, Policy::Static);
}

#[test]
fn three_static_items_end_to_end() {
    let entries = vec![
        static_entry("clock", "date"),
        static_entry("battery", "acpi"),
        static_entry("load", "uptime"),
    ];
    let plan = plan(&entries, &Some("/bin/sh".to_string())).unwrap();
    let outputs = ["12:00\n", "87%\n", "0.42\n"];
    let mut updates = Vec::new();
    for item in plan.items.iter().rev() {
        let started = step(item.policy, item.position, Phase::Idle, Event::Started);
        let done = step(
            item.policy,
            item.position,
            started.phase,
            Event::Output(outputs[item.position].to_string()),
        );
        assert_eq!(done.phase, Phase::Done);
        updates.push(done.update.unwrap());
    }
    assert_eq!(updates.len(), 3);
    let mut state = LineState::new(plan.items.len());
    assert_eq!(state.absorb(&updates), Some("12:0087%0.42".to_string()));
    assert_eq!(state.absorb(&vec![]), None);
}

#[test]
fn name_without_section_is_skipped() {
    let entries = vec![
        static_entry("clock", "date"),
        absent("ghost"),
        static_entry("load", "uptime"),
    ];
    let plan = plan(&entries, &Some("/bin/sh".to_string())).unwrap();
    assert_eq!(plan.missing, vec!["ghost"]);
    assert_eq!(missing_notice(&plan.missing[0]), "No ghost found");
    let names: Vec<&str> = plan.items.iter().map(|i| i.name.as_str()).collect();
    assert_eq!(names, vec!["clock", "load"]);
    let positions: Vec<usize> = plan.items.iter().map(|i| i.position).collect();
    assert_eq!(positions, vec![0, 1]);
    let mut state = LineState::new(plan.items.len());
    assert_eq!(state.len(), 2);
    let load = step(Policy::Static, plan.items[1].position, Phase::Working, Event::Output("0.42\n".to_string()));
    let clock = step(Policy::Static, plan.items[0].position, Phase::Working, Event::Output("12:00\n".to_string()));
    let lines = state.apply_all(&vec![load.update.unwrap(), clock.update.unwrap()]);
    assert_eq!(lines, vec!["0.42", "12:000.42"]);
}

#[test]
fn empty_order_list_gives_empty_plan() {
    let plan = plan(&vec![], &None).unwrap();
    assert!(plan.items.is_empty());
    assert!(plan.missing.is_empty());
}

#[test]
fn only_absent_names_give_no_items() {
    let plan = plan(&vec![absent("a"), absent("b")], &None).unwrap();
    assert!(plan.items.is_empty());
    assert_eq!(plan.missing, vec!["a", "b"]);
}

#[test]
fn first_item_that_cannot_run_fails_the_plan() {
    let broken = Entry {
        name: "broken".to_string(),
        lookup: Lookup::Found(Section { path: None, is_static: None, reload: None, shell: None }),
    };
    let worse = Entry { name: "worse".to_string(), lookup: Lookup::Invalid };
    let entries = vec![static_entry("clock", "date"), absent("ghost"), broken, worse];
    let err = plan(&entries, &Some("/bin/sh".to_string())).unwrap_err();
    assert_eq!(err.name, "broken");
    assert_eq!(err.error, ConfigError::MissingPath);
}

#[test]
fn entry_that_is_no_section_fails_the_plan() {
    let entries = vec![Entry { name: "odd".to_string(), lookup: Lookup::Invalid }];
    let err = plan(&entries, &Some("/bin/sh".to_string())).unwrap_err();
    assert_eq!(err.name, "odd");
    assert_eq!(err.error, ConfigError::MissingSection);
}

#[test]
fn missing_shell_fails_the_plan() {
    let err = plan(&vec![static_entry("clock", "date")], &None).unwrap_err();
    assert_eq!(err.name, "clock");
    assert_eq!(err.error, ConfigError::MissingShell);
}

#[test]
fn diagnostics_name_the_item() {
    assert_eq!(
        describe(ConfigError::MissingSection, "clock"),
        "Failed to find valid section for clock"
    );
    assert_eq!(
        describe(ConfigError::DeprecatedPathList, "clock"),
        "Invalid path found for clock: arrays are deprecated - use a string instead"
    );
    assert_eq!(describe(ConfigError::InvalidPath, "clock"), "Invalid path found for clock");
    assert_eq!(describe(ConfigError::MissingPath, "clock"), "No path found for clock");
    assert_eq!(describe(ConfigError::InvalidReload, "clock"), "Invalid reload found for clock");
    assert_eq!(describe(ConfigError::InvalidShell, "clock"), "Invalid shell found for clock");
    assert_eq!(
        describe(ConfigError::MissingShell, "clock"),
        "Could not find your system's shell. Make sure the $SHELL variable is set."
    );
    assert_eq!(launch_failure("date +%s"), "Failed to run date +%s");
    assert_eq!(missing_notice(""), "No  found");
}

#[test]
fn readable_path_is_kept() {
    assert_eq!(if_readable("/etc/a.toml".to_string(), true), Some("/etc/a.toml".to_string()));
    assert_eq!(if_readable("/etc/a.toml".to_string(), false), None);
}

#[test]
fn configuration_directory_wins_over_home() {
    let xdg = Some("/x/admiral.d/admiral.toml".to_string());
    let home = Some("/h/.config/admiral.d/admiral.toml".to_string());
    assert_eq!(get_config_file(xdg.clone(), true, home.clone(), true), xdg);
    assert_eq!(get_config_file(xdg.clone(), false, home.clone(), true), home);
    assert_eq!(get_config_file(xdg.clone(), true, home.clone(), false), xdg);
    assert_eq!(get_config_file(xdg.clone(), false, home.clone(), false), None);
    assert_eq!(get_config_file(None, true, home.clone(), true), home);
    assert_eq!(get_config_file(xdg, true, None, true), Some("/x/admiral.d/admiral.toml".to_string()));
    assert_eq!(get_config_file(None, true, None, true), None);
}

#[test]
fn invalid_reload_fails_the_plan() {
    let entry = Entry {
        name: "load".to_string(),
        lookup: Lookup::Found(Section {
            path: Some(FieldValue::Text("uptime".to_string())),
            is_static: None,
            reload: Some(FieldValue::Text("soon".to_string())),
            shell: Some(FieldValue::Text("/bin/sh".to_string())),
        }),
    };
    let err = plan(&vec![static_entry("clock", "date"), entry], &Some("/bin/sh".to_string()))
        .unwrap_err();
    assert_eq!(err.name, "load");
    assert_eq!(err.error, ConfigError::InvalidReload);
}

#[test]
fn parts_are_joined_with_one_slash() {
    assert_eq!(join("/home/u".to_string(), ".config"), "/home/u/.config");
    assert_eq!(join("/home/u/".to_string(), ".config"), "/home/u/.config");
    assert_eq!(join("/".to_string(), "etc"), "/etc");
    assert_eq!(join(String::new(), "admiral.d"), "admiral.d");
    assert_eq!(join("rel".to_string(), "x"), "rel/x");
}

#[test]
fn candidates_lie_under_the_named_directories() {
    let (xdg, home) =
        config_candidates(Some("/home/u/.cfg".to_string()), Some("/home/u".to_string()));
    assert_eq!(xdg, Some("/home/u/.cfg/admiral.d/admiral.toml".to_string()));
    assert_eq!(home, Some("/home/u/.config/admiral.d/admiral.toml".to_string()));
    let (xdg, home) = config_candidates(None, Some("/home/u/".to_string()));
    assert_eq!(xdg, None);
    assert_eq!(home, Some("/home/u/.config/admiral.d/admiral.toml".to_string()));
    let (xdg, home) = config_candidates(Some(String::new()), None);
    assert_eq!(xdg, Some("admiral.d/admiral.toml".to_string()));
    assert_eq!(home, None);
    assert_eq!(config_candidates(None, None), (None, None));
}
