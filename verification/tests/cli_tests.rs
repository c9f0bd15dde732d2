use umbra_relay::cli::{parse_args, Command};

fn args(v: &[&str]) -> Vec<String> {
    v.iter().map(|s| s.to_string()).collect()
}

fn path_of(c: Command) -> String {
    match c {
        Command::Run { config_path } => config_path,
        Command::GenConfig => panic!("expected a run"),
    }
}

#[test]
fn gen_config_anywhere() {
    assert!(matches!(parse_args(&args(&["umbra-relay", "--gen-config"])), Command::GenConfig));
    assert!(matches!(
        parse_args(&args(&["umbra-relay", "relay.toml", "--gen-config"])),
        Command::GenConfig
    ));
}

#[test]
fn default_config_path_when_none_given() {
    assert_eq!(path_of(parse_args(&args(&["umbra-relay"]))), "umbra-relay.toml");
    assert_eq!(path_of(parse_args(&args(&[]))), "umbra-relay.toml");
    assert_eq!(path_of(parse_args(&args(&["umbra-relay", "--verbose"]))), "umbra-relay.toml");
}

#[test]
fn first_non_option_is_the_path() {
    assert_eq!(path_of(parse_args(&args(&["umbra-relay", "a.toml", "b.toml"]))), "a.toml");
    assert_eq!(path_of(parse_args(&args(&["umbra-relay", "--x", "b.toml"]))), "b.toml");
    assert_eq!(path_of(parse_args(&args(&["umbra-relay", "-x"]))), "-x");
    // The program's own name is never taken as the path.
    assert_eq!(path_of(parse_args(&args(&["relay.toml"]))), "umbra-relay.toml");
}
