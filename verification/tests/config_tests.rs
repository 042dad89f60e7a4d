//! Dates, time ranges, email addresses and configuration parsing.

use training_manager::config::{ConfigError, ConfigFile, TimeRange};
use training_manager::date::Date;
use chrono::Datelike;
use training_manager::types::{is_valid_email, Email, GroupName};

#[test]
fn test_date_now() {
    let now = Date::now();
    let today = chrono::Local::now().date_naive();
    assert_eq!(
        (now.year, now.month, now.day),
        (today.year() as u32, today.month(), today.day())
    );
}

#[test]
fn test_date_from_ymd() {
    let date = Date::from_ymd(2023, 5, 15);
    assert_eq!((date.year, date.month, date.day), (2023, 5, 15));
}

#[test]
fn test_date_from_str_valid() {
    let date = Date::from_str("2023-05-15").unwrap();
    assert_eq!(date, Date::from_ymd(2023, 5, 15));
}

#[test]
fn test_date_from_str_invalid() {
    assert!(Date::from_str("invalid-date").is_err());
}

#[test]
fn test_date_ordering() {
    let date1 = Date::from_str("2023-05-15").unwrap();
    let date2 = Date::from_str("2023-05-16").unwrap();
    assert!(date1 < date2);
}

#[test]
fn test_date_rejects_invalid_calendar_days() {
    assert!(Date::from_str("2024-02-29").is_ok());
    assert!(Date::from_str("2023-02-29").is_err());
    assert!(Date::from_str("2023-13-01").is_err());
    assert!(Date::from_str("2023-04-31").is_err());
    assert!(Date::from_str("2023-00-10").is_err());
    assert!(Date::from_str("2023-01-00").is_err());
    assert!(Date::from_str("2023-1-1").is_err());
}

#[test]
fn test_time_range_contains() {
    let range = TimeRange {
        from: Date::from_ymd(2023, 1, 1),
        to: Date::from_ymd(2023, 12, 31),
    };
    assert!(range.contains(&Date::from_ymd(2023, 6, 15)));
    assert!(!range.contains(&Date::from_ymd(2022, 12, 31)));
    assert!(!range.contains(&Date::from_ymd(2024, 1, 1)));
}

#[test]
fn test_time_range_inclusive_endpoints() {
    let range = TimeRange {
        from: Date::from_ymd(2023, 1, 1),
        to: Date::from_ymd(2023, 12, 31),
    };
    assert!(range.contains(&Date::from_ymd(2023, 1, 1)));
    assert!(range.contains(&Date::from_ymd(2023, 12, 31)));
    assert!(!range.contains(&Date::from_ymd(2022, 12, 31)));
    assert!(!range.contains(&Date::from_ymd(2024, 1, 1)));
}

#[test]
fn test_time_range_inverted_is_empty() {
    let range = TimeRange {
        from: Date::from_ymd(2023, 12, 31),
        to: Date::from_ymd(2023, 1, 1),
    };
    assert!(!range.contains(&Date::from_ymd(2023, 6, 15)));
    assert!(!range.contains(&Date::from_ymd(2023, 1, 1)));
    assert!(!range.contains(&Date::from_ymd(2023, 12, 31)));
}

#[test]
fn test_email_parsing() {
    assert!(Email::from_str("a@b.com").is_ok());
    assert!(Email::from_str("not-an-email").is_err());
    assert!(Email::from_str("a@b@c").is_err());
}

#[test]
fn test_email_validation_counts_separators() {
    assert!(is_valid_email("user1@email.com"));
    assert!(is_valid_email("@"));
    assert!(!is_valid_email(""));
    assert!(!is_valid_email("no-separator"));
    assert!(!is_valid_email("two@@separators"));
    let parsed = Email::from_str("a@b.com").unwrap();
    assert_eq!(parsed.as_str(), "a@b.com");
}

#[test]
fn test_parse_config() {
    let config_str = r#"
        [groups]
        team_a = ["alice@example.com", "bob@example.com"]
        team_b = ["charlie@example.com"]

        [schedule]
        team_a = [
            { from = "2023-01-01", to = "2023-06-30" },
            { from = "2023-07-01", to = "2023-12-31" }
        ]
        team_b = [
            { from = "2023-01-01", to = "2023-12-31" }
        ]
        "#;

    let config = ConfigFile::from_str(config_str).unwrap();
    assert_eq!(config.groups.len(), 2);
    assert_eq!(config.schedule.len(), 2);
    let team_a_members = &config
        .groups
        .iter()
        .find(|p| p.0 == GroupName::new("team_a"))
        .unwrap()
        .1;
    assert_eq!(team_a_members.len(), 2);
    let team_b_members = &config
        .groups
        .iter()
        .find(|p| p.0 == GroupName::new("team_b"))
        .unwrap()
        .1;
    assert_eq!(team_b_members.len(), 1);
    let team_a_windows = &config
        .schedule
        .iter()
        .find(|p| p.0 == GroupName::new("team_a"))
        .unwrap()
        .1;
    assert_eq!(team_a_windows.len(), 2);
    let team_b_windows = &config
        .schedule
        .iter()
        .find(|p| p.0 == GroupName::new("team_b"))
        .unwrap()
        .1;
    assert_eq!(team_b_windows.len(), 1);
}

#[test]
fn test_parse_invalid_config() {
    let invalid_config = r#"
        [groups]
        team_a = ["invalid_email"]

        [schedule]
        team_a = [
            { from = "invalid_date", to = "2023-12-31" }
        ]
        "#;

    assert!(ConfigFile::from_str(invalid_config).is_err());
}

#[test]
fn test_parse_config_window_values() {
    let config_str = r#"
        [groups]
        team_a = ["alice@example.com"]

        [schedule]
        team_a = [
            { from = "2023-01-01", to = "2023-06-30" }
        ]
        "#;
    let config = ConfigFile::from_str(config_str).unwrap();
    let windows = &config.schedule[0].1;
    assert_eq!(
        windows[0],
        TimeRange {
            from: Date::from_ymd(2023, 1, 1),
            to: Date::from_ymd(2023, 6, 30),
        }
    );
}

#[test]
fn test_parse_config_error_variants() {
    assert!(matches!(
        ConfigFile::from_str("not [valid toml"),
        Err(ConfigError::Toml(_))
    ));
    assert_eq!(
        ConfigFile::from_str("[schedule]").unwrap_err(),
        ConfigError::GroupsNotFound
    );
    assert_eq!(
        ConfigFile::from_str("groups = 3\n[schedule]").unwrap_err(),
        ConfigError::GroupsNotFound
    );
    assert_eq!(
        ConfigFile::from_str("[groups]").unwrap_err(),
        ConfigError::ScheduleNotFound
    );
    assert_eq!(
        ConfigFile::from_str("[groups]\nteam = 3\n[schedule]").unwrap_err(),
        ConfigError::EmailsNotArray
    );
    assert_eq!(
        ConfigFile::from_str("[groups]\nteam = [3]\n[schedule]").unwrap_err(),
        ConfigError::EmailNotString
    );
    assert_eq!(
        ConfigFile::from_str("[groups]\nteam = [\"bad\"]\n[schedule]").unwrap_err(),
        ConfigError::InvalidEmail
    );
    assert_eq!(
        ConfigFile::from_str("[groups]\n[schedule]\nteam = 3").unwrap_err(),
        ConfigError::SchedulesNotArray
    );
    assert_eq!(
        ConfigFile::from_str("[groups]\n[schedule]\nteam = [3]").unwrap_err(),
        ConfigError::ScheduleItemNotTable
    );
    assert_eq!(
        ConfigFile::from_str("[groups]\n[schedule]\nteam = [{ to = \"2023-01-01\" }]")
            .unwrap_err(),
        ConfigError::FromNotFound
    );
    assert_eq!(
        ConfigFile::from_str("[groups]\n[schedule]\nteam = [{ from = \"2023-01-01\" }]")
            .unwrap_err(),
        ConfigError::ToNotFound
    );
    assert_eq!(
        ConfigFile::from_str(
            "[groups]\n[schedule]\nteam = [{ from = \"bad\", to = \"2023-01-01\" }]"
        )
        .unwrap_err(),
        ConfigError::InvalidDate
    );
}
