use floatview::config::AppConfig;
use floatview::store::{first_save_step, load_config, next_save_step, SaveNext, SaveStep};
use floatview::validator::{addresses_settled, sanitize_config};

fn run(outcomes: &[bool]) -> (Vec<SaveStep>, bool) {
    let mut step = first_save_step();
    let mut done = Vec::new();
    let mut i = 0;
    loop {
        done.push(step);
        match next_save_step(step, outcomes[i]) {
            SaveNext::Do(next) => step = next,
            SaveNext::Finished { saved } => return (done, saved),
        }
        i += 1;
    }
}

#[test]
fn save_renames_the_temporary_file_over_the_target() {
    assert_eq!(run(&[true, true]), (vec![SaveStep::WriteTemp, SaveStep::Rename], true));
}

#[test]
fn save_stops_when_the_temporary_file_cannot_be_written() {
    assert_eq!(run(&[false]), (vec![SaveStep::WriteTemp], false));
}

#[test]
fn save_removes_the_target_and_renames_once_more() {
    for removed in [true, false] {
        assert_eq!(
            run(&[true, false, removed, true]),
            (
                vec![
                    SaveStep::WriteTemp,
                    SaveStep::Rename,
                    SaveStep::RemoveTarget,
                    SaveStep::RenameAgain
                ],
                true
            )
        );
    }
}

#[test]
fn save_cleans_up_after_the_second_failure() {
    for removed in [true, false] {
        for cleaned in [true, false] {
            assert_eq!(
                run(&[true, false, removed, false, cleaned]),
                (
                    vec![
                        SaveStep::WriteTemp,
                        SaveStep::Rename,
                        SaveStep::RemoveTarget,
                        SaveStep::RenameAgain,
                        SaveStep::RemoveTemp
                    ],
                    false
                )
            );
        }
    }
}

#[test]
fn load_falls_back_to_sanitized_defaults() {
    let loaded = load_config(None);
    assert_eq!(loaded, sanitize_config(AppConfig::default()));
    assert_eq!(loaded.home_url, "https://www.google.com/");
    assert_eq!(loaded.recent_urls, Some(Vec::new()));
    assert_eq!(loaded.window.opacity, 1000);
    assert!(loaded.first_run);
}

#[test]
fn load_sanitizes_what_was_read() {
    let mut read = AppConfig::default();
    read.window.height = 3;
    read.last_url = Some("nonsense://".to_string());
    let loaded = load_config(Some(read));
    assert_eq!(loaded.window.height, 200);
    assert_eq!(loaded.last_url, None);
}

#[test]
fn load_returns_a_stored_record_unchanged() {
    let mut config = AppConfig::default();
    config.window.opacity = 640;
    config.home_url = "start.example/page".to_string();
    config.last_url = Some("http://example.com/".to_string());
    config.recent_urls = Some(vec!["example.com".to_string(), "example.net".to_string()]);
    let stored = sanitize_config(config);
    assert!(addresses_settled(&stored));
    assert_eq!(load_config(Some(stored.clone())), stored);
}
