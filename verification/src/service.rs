//! Best-effort mapping from a well-known port number to a service name.

use vstd::prelude::*;

verus! {

/// The service name the scanner guesses for a port, as a sequence of
/// characters. Ports outside the fixed table map to "Unknown".
pub open spec fn spec_service_name(port: u16) -> Seq<char> {
    if port == 21 {
        "FTP"@
    } else if port == 22 {
        "SSH"@
    } else if port == 23 {
        "Telnet"@
    } else if port == 25 {
        "SMTP"@
    } else if port == 53 {
        "DNS"@
    } else if port == 80 {
        "HTTP"@
    } else if port == 110 {
        "POP3"@
    } else if port == 135 {
        "RPC"@
    } else if port == 139 {
        "NetBIOS"@
    } else if port == 143 {
        "IMAP"@
    } else if port == 443 {
        "HTTPS"@
    } else if port == 445 {
        "SMB"@
    } else if port == 1433 {
        "MSSQL"@
    } else if port == 3306 {
        "MySQL"@
    } else if port == 3389 {
        "RDP"@
    } else if port == 5432 {
        "PostgreSQL"@
    } else if port == 6379 {
        "Redis"@
    } else if port == 8080 {
        "HTTP-Alt"@
    } else {
        "Unknown"@
    }
}

/// Looks a port up in the fixed table of common services.
pub fn get_common_service_name(port: u16) -> (r: &'static str)
    ensures
        r@ == spec_service_name(port),
{
    match port {
        21 => "FTP",
        22 => "SSH",
        23 => "Telnet",
        25 => "SMTP",
        53 => "DNS",
        80 => "HTTP",
        110 => "POP3",
        135 => "RPC",
        139 => "NetBIOS",
        143 => "IMAP",
        443 => "HTTPS",
        445 => "SMB",
        1433 => "MSSQL",
        3306 => "MySQL",
        3389 => "RDP",
        5432 => "PostgreSQL",
        6379 => "Redis",
        8080 => "HTTP-Alt",
        _ => "Unknown",
    }
}

} // verus!
