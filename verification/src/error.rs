use vstd::prelude::*;

verus! {

/// Everything that can go wrong in the library's own logic.
#[derive(Debug, Clone, Copy, PartialEq, Eq, Structural)]
pub enum ClientError {
    /// The client's command line holds no `--app-pid=<digits>"` argument.
    MissingAppPid,
    /// The `--app-pid` argument matched but its value could not be read.
    UnreadableAppPid,
    /// The `--app-pid` value is not a decimal number that fits in a `u32`.
    InvalidAppPid,
    /// The client's command line holds no `--app-port=<digits>` argument.
    MissingAppPort,
    /// The `--app-port` argument matched but its value could not be read.
    UnreadableAppPort,
    /// The client's command line holds no `--remoting-auth-token=...` argument.
    MissingAuthToken,
    /// The `--remoting-auth-token` argument matched but its value could not be read.
    UnreadableAuthToken,
    /// The client's command line holds no `--install-directory=...` argument.
    MissingInstallDirectory,
    /// The `--install-directory` argument matched but its value could not be read.
    UnreadableInstallDirectory,
    /// A pattern used to read the command line was rejected by the regex engine.
    InvalidPattern,
    /// The address built for an endpoint is not a valid URL.
    UrlParse,
    /// A JSON value that should hold an identifier is neither a string, a
    /// number nor a boolean.
    UnexpectedValue,
    /// The client was asked to stop.
    ForceShutdown,
}

} // verus!
