use ddc::config::get_config_file_candidates;
use ddc::logging::LoggingLevel;
use ddc::path::EntryPath;

#[test]
fn config_file_candidates_in_their_order() {
    let candidates = get_config_file_candidates(&EntryPath::from_str("/home/me"));
    assert_eq!(
        candidates,
        vec![
            EntryPath::from_str("/home/me/.config/ddc.toml"),
            EntryPath::from_str("/home/me/.ddc.toml"),
            EntryPath::from_str("ddc.toml"),
        ]
    );
}

#[test]
fn config_file_candidates_of_a_relative_home() {
    let candidates = get_config_file_candidates(&EntryPath::from_str(""));
    assert_eq!(
        candidates,
        vec![
            EntryPath::from_str(".config/ddc.toml"),
            EntryPath::from_str(".ddc.toml"),
            EntryPath::from_str("ddc.toml"),
        ]
    );
}

#[test]
fn logging_level_by_the_number_of_requests() {
    assert_eq!(LoggingLevel::from(0), LoggingLevel::Silent);
    assert_eq!(LoggingLevel::from(1), LoggingLevel::Verbose);
    assert_eq!(LoggingLevel::from(2), LoggingLevel::Traces);
    assert_eq!(LoggingLevel::from(3), LoggingLevel::Traces);
    assert_eq!(LoggingLevel::from(255), LoggingLevel::Traces);
    assert_eq!(LoggingLevel::default(), LoggingLevel::Silent);
}
