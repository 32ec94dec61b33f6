use vstd::prelude::*;
use crate::error::ClientError;
use crate::number::{parse_u32, spec_parse_u32};
use regex::Error as RegexError;

verus! {

/// What the library needs to talk to a running client.
#[derive(Debug, PartialEq, Eq)]
pub struct Credentials {
    /// The process id of the client.
    pub pid: u32,
    /// The port of the client's local API.
    pub port: String,
    /// The password of the client's local API.
    pub token: String,
}

/// The credentials as plain values.
pub struct CredentialsView {
    pub pid: u32,
    pub port: Seq<char>,
    pub token: Seq<char>,
}

impl View for Credentials {
    type V = CredentialsView;

    open spec fn view(&self) -> CredentialsView {
        CredentialsView { pid: self.pid, port: self.port@, token: self.token@ }
    }
}

impl Clone for Credentials {
    fn clone(&self) -> (r: Self)
        ensures
            r == *self,
    {
        Credentials { pid: self.pid, port: self.port.clone(), token: self.token.clone() }
    }
}

/// Finds the client's process id in its command line.
pub const PID_PATTERN: &'static str = "--app-pid=(\\d+)\"";

/// Finds the port of the client's local API in its command line.
pub const PORT_PATTERN: &'static str = "--app-port=(\\d+)";

/// Finds the password of the client's local API in its command line.
pub const AUTH_PATTERN: &'static str = "--remoting-auth-token=(\\S+)\"";

/// Finds the client's install directory in its command line.
pub const INSTALL_DIR_PATTERN: &'static str = "--install-directory=([^\"]+)\"";

/// A regex error, only passed on.
#[verifier::external_type_specification]
#[verifier::external_body]
pub struct ExRegexError(RegexError);

/// Whether `regex::Regex::new` accepts `pattern`.
pub uninterp spec fn regex_compiles(pattern: Seq<char>) -> bool;

/// What `regex::Regex::captures` finds for the compiled `pattern` in
/// `haystack`: `None` when the pattern does not match; otherwise the text of
/// the first capture group of the leftmost-first match, or `None` when that
/// group did not take part in the match.
pub uninterp spec fn regex_first_group(pattern: Seq<char>, haystack: Seq<char>) -> Option<
    Option<Seq<char>>,
>;

/// A nested optional string as plain values.
pub open spec fn capture_view(c: Option<Option<String>>) -> Option<Option<Seq<char>>> {
    match c {
        None => None,
        Some(None) => Some(None),
        Some(Some(s)) => Some(Some(s@)),
    }
}

/// Compiles `pattern` and reads its first capture group in `haystack`.
///
/// Trusted: calls `regex::Regex::new`, then `Regex::captures` and
/// `Captures::get(1)`. The contract claims only that compilation succeeds
/// exactly when `regex_compiles` holds of the pattern and that the capture
/// is `regex_first_group` of the pattern and the haystack; neither name is
/// given a meaning here.
#[verifier::external_body]
fn capture_first_group(pattern: &str, haystack: &str) -> (r: Result<
    Option<Option<String>>,
    RegexError,
>)
    ensures
        match r {
            Ok(c) => regex_compiles(pattern@) && capture_view(c) == regex_first_group(
                pattern@,
                haystack@,
            ),
            Err(_) => !regex_compiles(pattern@),
        },
{
    match regex::Regex::new(pattern) {
        Err(e) => Err(e),
        Ok(re) => match re.captures(haystack) {
            None => Ok(None),
            Some(caps) => match caps.get(1) {
                None => Ok(Some(None)),
                Some(m) => Ok(Some(Some(m.as_str().to_string()))),
            },
        },
    }
}

/// The credentials and install directory that four captures of the
/// client's command line give, or the first problem met, checked in the
/// order process id, port, password, install directory.
pub open spec fn spec_credentials_from_captures(
    pid: Option<Option<Seq<char>>>,
    port: Option<Option<Seq<char>>>,
    token: Option<Option<Seq<char>>>,
    install_dir: Option<Option<Seq<char>>>,
) -> Result<(CredentialsView, Seq<char>), ClientError> {
    match pid {
        None => Err(ClientError::MissingAppPid),
        Some(None) => Err(ClientError::UnreadableAppPid),
        Some(Some(p)) => match spec_parse_u32(p) {
            None => Err(ClientError::InvalidAppPid),
            Some(pid) => match port {
                None => Err(ClientError::MissingAppPort),
                Some(None) => Err(ClientError::UnreadableAppPort),
                Some(Some(port)) => match token {
                    None => Err(ClientError::MissingAuthToken),
                    Some(None) => Err(ClientError::UnreadableAuthToken),
                    Some(Some(token)) => match install_dir {
                        None => Err(ClientError::MissingInstallDirectory),
                        Some(None) => Err(ClientError::UnreadableInstallDirectory),
                        Some(Some(dir)) => Ok(
                            (CredentialsView { pid, port, token }, dir),
                        ),
                    },
                },
            },
        },
    }
}

/// Credentials are taken whole from the captures: building them succeeds
/// exactly when all four captures are there and the process id reads as a
/// number, and then the process id is that number and the port, the token
/// and the install directory are exactly their captures.
pub proof fn lemma_credentials_from_captures(
    pid: Option<Option<Seq<char>>>,
    port: Option<Option<Seq<char>>>,
    token: Option<Option<Seq<char>>>,
    install_dir: Option<Option<Seq<char>>>,
)
    ensures
        spec_credentials_from_captures(pid, port, token, install_dir) is Ok <==> {
            &&& pid matches Some(Some(p)) && spec_parse_u32(p) is Some
            &&& port matches Some(Some(_))
            &&& token matches Some(Some(_))
            &&& install_dir matches Some(Some(_))
        },
        spec_credentials_from_captures(pid, port, token, install_dir) matches Ok((c, d)) ==> {
            &&& pid matches Some(Some(p)) && spec_parse_u32(p) == Some(c.pid)
            &&& port == Some(Some(c.port))
            &&& token == Some(Some(c.token))
            &&& install_dir == Some(Some(d))
        },
{
}

/// Which problem building credentials reports: the captures are checked in
/// the order process id, port, password, install directory, and the first
/// one that is missing (not matched), unreadable (matched without its
/// group) or, for the process id, not a number decides the error.
pub proof fn lemma_credentials_errors(
    pid: Option<Option<Seq<char>>>,
    port: Option<Option<Seq<char>>>,
    token: Option<Option<Seq<char>>>,
    install_dir: Option<Option<Seq<char>>>,
)
    ensures
        ({
            let r = spec_credentials_from_captures(pid, port, token, install_dir);
            let pid_ok = pid matches Some(Some(p)) && spec_parse_u32(p) is Some;
            &&& pid is None ==> r == Err::<(CredentialsView, Seq<char>), ClientError>(ClientError::MissingAppPid)
            &&& pid == Some(None::<Seq<char>>) ==> r == Err::<(CredentialsView, Seq<char>), ClientError>(ClientError::UnreadableAppPid)
            &&& (pid matches Some(Some(p)) && spec_parse_u32(p) is None) ==> r == Err::<(CredentialsView, Seq<char>), ClientError>(ClientError::InvalidAppPid)
            &&& pid_ok && port is None ==> r == Err::<(CredentialsView, Seq<char>), ClientError>(ClientError::MissingAppPort)
            &&& pid_ok && port == Some(None::<Seq<char>>) ==> r == Err::<(CredentialsView, Seq<char>), ClientError>(ClientError::UnreadableAppPort)
            &&& pid_ok && port is Some && port != Some(None::<Seq<char>>) && token is None ==> r == Err::<(CredentialsView, Seq<char>), ClientError>(ClientError::MissingAuthToken)
            &&& pid_ok && port is Some && port != Some(None::<Seq<char>>) && token == Some(None::<Seq<char>>) ==> r == Err::<(CredentialsView, Seq<char>), ClientError>(ClientError::UnreadableAuthToken)
            &&& pid_ok && port is Some && port != Some(None::<Seq<char>>) && token is Some && token != Some(None::<Seq<char>>) && install_dir is None ==> r == Err::<(CredentialsView, Seq<char>), ClientError>(ClientError::MissingInstallDirectory)
            &&& pid_ok && port is Some && port != Some(None::<Seq<char>>) && token is Some && token != Some(None::<Seq<char>>) && install_dir == Some(None::<Seq<char>>) ==> r == Err::<(CredentialsView, Seq<char>), ClientError>(ClientError::UnreadableInstallDirectory)
        }),
{
}

/// A credentials result as plain values.
pub open spec fn credentials_result_view(r: Result<(Credentials, String), ClientError>) -> Result<
    (CredentialsView, Seq<char>),
    ClientError,
> {
    match r {
        Ok((c, d)) => Ok((c@, d@)),
        Err(e) => Err(e),
    }
}

/// Builds the credentials and install directory from the four captures of
/// the client's command line.
pub fn credentials_from_captures(
    pid: Option<Option<String>>,
    port: Option<Option<String>>,
    token: Option<Option<String>>,
    install_dir: Option<Option<String>>,
) -> (r: Result<(Credentials, String), ClientError>)
    ensures
        credentials_result_view(r) == spec_credentials_from_captures(
            capture_view(pid),
            capture_view(port),
            capture_view(token),
            capture_view(install_dir),
        ),
{
    let pid_text = match pid {
        None => return Err(ClientError::MissingAppPid),
        Some(None) => return Err(ClientError::UnreadableAppPid),
        Some(Some(p)) => p,
    };
    let pid = match parse_u32(pid_text.as_str()) {
        None => return Err(ClientError::InvalidAppPid),
        Some(v) => v,
    };
    let port = match port {
        None => return Err(ClientError::MissingAppPort),
        Some(None) => return Err(ClientError::UnreadableAppPort),
        Some(Some(p)) => p,
    };
    let token = match token {
        None => return Err(ClientError::MissingAuthToken),
        Some(None) => return Err(ClientError::UnreadableAuthToken),
        Some(Some(t)) => t,
    };
    let install_dir = match install_dir {
        None => return Err(ClientError::MissingInstallDirectory),
        Some(None) => return Err(ClientError::UnreadableInstallDirectory),
        Some(Some(d)) => d,
    };
    Ok((Credentials { pid, port, token }, install_dir))
}

/// All four patterns are accepted by the regex engine.
pub open spec fn patterns_compile() -> bool {
    &&& regex_compiles(PID_PATTERN@)
    &&& regex_compiles(PORT_PATTERN@)
    &&& regex_compiles(AUTH_PATTERN@)
    &&& regex_compiles(INSTALL_DIR_PATTERN@)
}

/// What `parse_credentials` gives for the command line `s`.
pub open spec fn spec_parse_credentials(s: Seq<char>) -> Result<
    (CredentialsView, Seq<char>),
    ClientError,
> {
    if !patterns_compile() {
        Err(ClientError::InvalidPattern)
    } else {
        spec_credentials_from_captures(
            regex_first_group(PID_PATTERN@, s),
            regex_first_group(PORT_PATTERN@, s),
            regex_first_group(AUTH_PATTERN@, s),
            regex_first_group(INSTALL_DIR_PATTERN@, s),
        )
    }
}

/// With the four patterns accepted by the regex engine, reading the
/// credentials fails exactly when one of the four arguments is not found
/// (or its value not captured), or the process id is not a `u32`.
pub proof fn lemma_parse_credentials_fails(s: Seq<char>)
    requires
        patterns_compile(),
    ensures
        spec_parse_credentials(s) is Err <==> !({
            &&& regex_first_group(PID_PATTERN@, s) matches Some(Some(p))
            &&& spec_parse_u32(p) is Some
            &&& regex_first_group(PORT_PATTERN@, s) matches Some(Some(_))
            &&& regex_first_group(AUTH_PATTERN@, s) matches Some(Some(_))
            &&& regex_first_group(INSTALL_DIR_PATTERN@, s) matches Some(Some(_))
        }),
{
}

/// Reads the client's credentials and install directory from the command
/// line of the client process.
pub fn parse_credentials(str_to_match: String) -> (r: Result<(Credentials, String), ClientError>)
    ensures
        credentials_result_view(r) == spec_parse_credentials(str_to_match@),
{
    let s = str_to_match.as_str();
    let pid = capture_first_group(PID_PATTERN, s);
    let port = capture_first_group(PORT_PATTERN, s);
    let token = capture_first_group(AUTH_PATTERN, s);
    let install_dir = capture_first_group(INSTALL_DIR_PATTERN, s);
    match (pid, port, token, install_dir) {
        (Ok(pid), Ok(port), Ok(token), Ok(install_dir)) => credentials_from_captures(
            pid,
            port,
            token,
            install_dir,
        ),
        _ => Err(ClientError::InvalidPattern),
    }
}

} // verus!
