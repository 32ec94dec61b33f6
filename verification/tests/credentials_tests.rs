use dark_binding::credentials::{credentials_from_captures, parse_credentials, Credentials};
use dark_binding::error::ClientError;
use dark_binding::number::parse_u32;

fn command_line() -> String {
    String::from(
        "CommandLine\n\"C:/Riot Games/League of Legends/LeagueClientUx.exe\" \
         \"--riotclient-auth-token=xyz\" \"--riotclient-app-port=50000\" \
         \"--remoting-auth-token=abc123\" \"--app-port=55555\" \
         \"--install-directory=C:\\Riot Games\\League of Legends\" \
         \"--app-name=LeagueClient\" \"--app-pid=1234\" \"--region=EUW\"\n",
    )
}

#[test]
fn test_something() {
    let (credentials, install_dir) = parse_credentials(command_line()).unwrap();
    assert_eq!(credentials.pid, 1234);
    assert_eq!(credentials.port, "55555");
    assert_eq!(credentials.token, "abc123");
    assert_eq!(install_dir, "C:\\Riot Games\\League of Legends");
}

#[test]
fn parse_credentials_reads_every_field() {
    let (credentials, install_dir) = parse_credentials(command_line()).unwrap();
    assert_eq!(
        credentials,
        Credentials { pid: 1234, port: "55555".to_string(), token: "abc123".to_string() }
    );
    assert_eq!(install_dir, "C:\\Riot Games\\League of Legends");
}

#[test]
fn parse_credentials_without_pid() {
    let line = command_line().replace("--app-pid=1234", "--app-id=1234");
    assert_eq!(parse_credentials(line), Err(ClientError::MissingAppPid));
}

#[test]
fn parse_credentials_pid_too_large() {
    let line = command_line().replace("--app-pid=1234", "--app-pid=99999999999");
    assert_eq!(parse_credentials(line), Err(ClientError::InvalidAppPid));
}

#[test]
fn parse_credentials_without_port() {
    let line = command_line().replace("--app-port=55555", "--app-porting");
    assert_eq!(parse_credentials(line), Err(ClientError::MissingAppPort));
}

#[test]
fn parse_credentials_without_token() {
    let line = command_line().replace("--remoting-auth-token=abc123", "--remoting");
    assert_eq!(parse_credentials(line), Err(ClientError::MissingAuthToken));
}

#[test]
fn parse_credentials_without_install_directory() {
    let line = command_line().replace("--install-directory=", "--install-dir=");
    assert_eq!(parse_credentials(line), Err(ClientError::MissingInstallDirectory));
}

#[test]
fn parse_credentials_empty_line() {
    assert_eq!(parse_credentials(String::new()), Err(ClientError::MissingAppPid));
}

#[test]
fn parse_credentials_token_up_to_last_quote() {
    let line = command_line().replace("abc123", "ab\"c");
    let (credentials, _) = parse_credentials(line).unwrap();
    assert_eq!(credentials.token, "ab\"c");
}

fn some(s: &str) -> Option<Option<String>> {
    Some(Some(s.to_string()))
}

#[test]
fn captures_checked_in_order() {
    assert_eq!(
        credentials_from_captures(None, None, None, None),
        Err(ClientError::MissingAppPid)
    );
    assert_eq!(
        credentials_from_captures(Some(None), None, None, None),
        Err(ClientError::UnreadableAppPid)
    );
    assert_eq!(
        credentials_from_captures(some("x1"), None, None, None),
        Err(ClientError::InvalidAppPid)
    );
    assert_eq!(
        credentials_from_captures(some("1"), Some(None), None, None),
        Err(ClientError::UnreadableAppPort)
    );
    assert_eq!(
        credentials_from_captures(some("1"), some("2"), Some(None), None),
        Err(ClientError::UnreadableAuthToken)
    );
    assert_eq!(
        credentials_from_captures(some("1"), some("2"), some("t"), Some(None)),
        Err(ClientError::UnreadableInstallDirectory)
    );
    assert_eq!(
        credentials_from_captures(some("+7"), some("2"), some("t"), some("d")),
        Ok((Credentials { pid: 7, port: "2".to_string(), token: "t".to_string() }, "d".to_string()))
    );
}

#[test]
fn parse_u32_like_std() {
    assert_eq!(parse_u32("1234"), Some(1234));
    assert_eq!(parse_u32("+7"), Some(7));
    assert_eq!(parse_u32("007"), Some(7));
    assert_eq!(parse_u32("4294967295"), Some(4294967295));
    assert_eq!(parse_u32("4294967296"), None);
    assert_eq!(parse_u32("99999999999999999999"), None);
    assert_eq!(parse_u32(""), None);
    assert_eq!(parse_u32("+"), None);
    assert_eq!(parse_u32("-1"), None);
    assert_eq!(parse_u32("12a"), None);
    assert_eq!(parse_u32("١٢"), None);
    for s in ["0", "42", "+42", "4294967295", "4294967296", "", "+", "1 2", "٣"] {
        assert_eq!(parse_u32(s), s.parse::<u32>().ok(), "{}", s);
    }
}
