//! The settings of the process.
use vstd::prelude::*;

verus! {

/// How much the process logs.
#[derive(Debug, Clone, Copy, PartialEq, Eq, Structural)]
pub enum LogLevel {
    Trace,
    Debug,
    Info,
    Warn,
    Error,
}

pub const DEFAULT_IMAP_PORT: u16 = 993;

pub const DEFAULT_IMAP_TIMEOUT: u64 = 10;

pub const DEFAULT_IMAP_CHECK_INTERVAL: u64 = 1000;

pub const DEFAULT_HTTP_SERVER_PORT: u16 = 8080;

#[derive(Debug, Clone, PartialEq)]
pub struct Configuration {
    /// Host name or domain of the IMAP server with the DMARC reports inbox.
    pub imap_host: String,
    /// User name of the IMAP inbox with the DMARC reports.
    pub imap_user: String,
    /// Password of the IMAP inbox with the DMARC reports.
    pub imap_password: String,
    /// TLS encrypted port of the IMAP server.
    pub imap_port: u16,
    /// TCP connection timeout for the IMAP server, in seconds.
    pub imap_timeout: u64,
    /// Interval between checks for new reports in the inbox, in seconds.
    pub imap_check_interval: u64,
    /// Port of the embedded HTTP server for the web UI.
    pub http_server_port: u16,
    /// Address that the embedded HTTP server binds to.
    pub http_server_binding: String,
    /// User name for the HTTP server's basic auth login.
    pub http_server_user: String,
    /// Password for the HTTP server's basic auth login; empty disables it.
    pub http_server_password: String,
    /// How much the process logs.
    pub log_level: LogLevel,
}

impl Configuration {
    /// A configuration with the given credentials and every other setting at
    /// its default.
    pub fn new(
        imap_host: String,
        imap_user: String,
        imap_password: String,
        http_server_password: String,
    ) -> (r: Configuration)
        ensures
            r.imap_host@ == imap_host@,
            r.imap_user@ == imap_user@,
            r.imap_password@ == imap_password@,
            r.http_server_password@ == http_server_password@,
            r.imap_port == DEFAULT_IMAP_PORT,
            r.imap_timeout == DEFAULT_IMAP_TIMEOUT,
            r.imap_check_interval == DEFAULT_IMAP_CHECK_INTERVAL,
            r.http_server_port == DEFAULT_HTTP_SERVER_PORT,
            r.http_server_binding@ == "0.0.0.0"@,
            r.http_server_user@ == "dmarc"@,
            r.log_level == LogLevel::Info,
    {
        Configuration {
            imap_host,
            imap_user,
            imap_password,
            imap_port: DEFAULT_IMAP_PORT,
            imap_timeout: DEFAULT_IMAP_TIMEOUT,
            imap_check_interval: DEFAULT_IMAP_CHECK_INTERVAL,
            http_server_port: DEFAULT_HTTP_SERVER_PORT,
            http_server_binding: String::from_str("0.0.0.0"),
            http_server_user: String::from_str("dmarc"),
            http_server_password,
            log_level: LogLevel::Info,
        }
    }
}

} // verus!
