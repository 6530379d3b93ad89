use dotflow::config::{default_path, config_file_path, BootstrapError};
use dotflow::parse::{load_config, ParseError};

#[test]
fn default_path_appends_config() {
    assert_eq!(default_path("/home/alice"), "/home/alice/.config");
}

#[test]
fn config_file_path_appends_dotflow_toml() {
    assert_eq!(config_file_path("/home/alice"), "/home/alice/.dotflow.toml");
}

#[test]
fn empty_file_loads_default() {
    let c = load_config("/home/alice", "").unwrap();
    assert_eq!(c.path, "/home/alice/.config");
}

#[test]
fn section_without_path_loads_default() {
    let c = load_config("/home/alice", "[config]").unwrap();
    assert_eq!(c.path, "/home/alice/.config");
}

#[test]
fn path_value_is_kept() {
    let c = load_config("/home/alice", "[config]\npath = \"/opt/dotfiles\"").unwrap();
    assert_eq!(c.path, "/opt/dotfiles");
}

#[test]
fn round_trip_of_a_plain_string() {
    let text = "[config]\npath = \"/opt/dot files/x-1\"";
    let c = load_config("/home/alice", text).unwrap();
    assert_eq!(c.path, "/opt/dot files/x-1");
}

#[test]
fn invalid_text_is_a_syntax_error() {
    let r = load_config("/home/alice", "not valid = [toml");
    assert_eq!(r, Err(ParseError::Syntax));
}

#[test]
fn bare_value_for_path_is_rejected() {
    let r = load_config("/home/alice", "[config]\npath = abc");
    assert_eq!(r, Err(ParseError::BadValue));
}

#[test]
fn unterminated_quote_for_path_is_rejected() {
    let r = load_config("/home/alice", "[config]\npath = \"oops");
    assert_eq!(r, Err(ParseError::BadValue));
}

#[test]
fn bare_value_for_unknown_key_is_tolerated() {
    let text = "[config]\ncount = 3\npath = \"/p\"";
    let c = load_config("/home/alice", text).unwrap();
    assert_eq!(c.path, "/p");
}

#[test]
fn strange_value_in_other_section_is_tolerated() {
    let text = "[config]\npath = \"/p\"\n[other]\nbad = [stuff";
    let c = load_config("/home/alice", text).unwrap();
    assert_eq!(c.path, "/p");
}

#[test]
fn assignment_without_value_is_rejected() {
    let r = load_config("/home/alice", "[config]\nx =");
    assert_eq!(r, Err(ParseError::Syntax));
}

#[test]
fn content_without_section_is_rejected() {
    let r = load_config("/home/alice", "path = \"/opt/dotfiles\"");
    assert_eq!(r, Err(ParseError::MissingSection));
}

#[test]
fn other_section_alone_is_rejected() {
    let r = load_config("/home/alice", "[other]\npath = \"/opt/dotfiles\"");
    assert_eq!(r, Err(ParseError::MissingSection));
}

#[test]
fn comment_only_file_loads_default() {
    let c = load_config("/home/alice", "# nothing here\n\n   \n").unwrap();
    assert_eq!(c.path, "/home/alice/.config");
}

#[test]
fn unknown_sections_and_keys_are_ignored() {
    let text = "[other]\nname = \"z\"\n[config]\nextra = \"1\"\npath = \"/p\"\n";
    let c = load_config("/home/alice", text).unwrap();
    assert_eq!(c.path, "/p");
}

#[test]
fn later_section_ends_config() {
    let text = "[config]\n[other]\npath = \"/x\"";
    let c = load_config("/home/alice", text).unwrap();
    assert_eq!(c.path, "/home/alice/.config");
}

#[test]
fn last_path_assignment_wins() {
    let text = "[config]\npath = \"/first\"\npath = \"/second\"";
    let c = load_config("/home/alice", text).unwrap();
    assert_eq!(c.path, "/second");
}

#[test]
fn crlf_endings_are_accepted() {
    let text = "[config]\r\npath = \"/p\"\r\n";
    let c = load_config("/home/alice", text).unwrap();
    assert_eq!(c.path, "/p");
}

#[test]
fn spacing_around_tokens_is_ignored() {
    let text = "  [config]  \n\tpath\t=   \"/p\"  ";
    let c = load_config("/home/alice", text).unwrap();
    assert_eq!(c.path, "/p");
}

#[test]
fn empty_quoted_path_synthesizes_default() {
    let c = load_config("/home/alice", "[config]\npath = \"\"").unwrap();
    assert_eq!(c.path, "/home/alice/.config");
    assert!(!c.path.is_empty());
}

#[test]
fn loading_twice_gives_the_same_configuration() {
    let text = "[config]\npath = \"/opt/dotfiles\"";
    let a = load_config("/home/alice", text).unwrap();
    let b = load_config("/home/alice", text).unwrap();
    assert_eq!(a, b);
}

#[test]
fn no_home_message() {
    let e = BootstrapError::NoHome;
    assert_eq!(e.message(), "Could not get home path");
    assert_eq!(e.exit_code(), 1);
}

#[test]
fn unreadable_message_names_the_file() {
    let e = BootstrapError::Unreadable { file: "/home/alice/.dotflow.toml".to_string() };
    let m = e.message();
    assert_eq!(m, "Could not read file `/home/alice/.dotflow.toml`");
    assert!(m.contains("/home/alice/.dotflow.toml"));
    assert_eq!(e.exit_code(), 1);
}

#[test]
fn malformed_message_names_the_file() {
    let e = BootstrapError::Malformed { file: "/home/alice/.dotflow.toml".to_string() };
    let m = e.message();
    assert_eq!(m, "Unable to load data from `/home/alice/.dotflow.toml`");
    assert!(m.contains("/home/alice/.dotflow.toml"));
    assert_eq!(e.exit_code(), 1);
}
