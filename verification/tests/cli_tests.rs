use rns_proxy::cli::{Cli, Commands, DEFAULT_SOCKS_PORT};

#[test]
fn log_level_follows_debug_flag() {
    let cli = Cli { debug: true, command: Commands::Server };
    assert_eq!(cli.log_level(), "debug");
    let cli = Cli {
        debug: false,
        command: Commands::Client { server: "00".to_string(), port: DEFAULT_SOCKS_PORT },
    };
    assert_eq!(cli.log_level(), "info");
    assert_eq!(DEFAULT_SOCKS_PORT, 1080);
}
