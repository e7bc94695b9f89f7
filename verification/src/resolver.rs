//! Address resolution: pick the machine's LAN-facing address and format the
//! connection URL `http://<host>:<port>` that a companion device dials.
//!
//! Looking the address up is the host system's business and can fail for any
//! reason (no interface, permissions, virtualization quirks); resolution
//! never fails the caller — it falls back to the loopback address.

use vstd::prelude::*;

verus! {

/// The decimal digit character for `d` in `0..=9`.
pub open spec fn spec_digit_char(d: int) -> char {
    if d == 0 {
        '0'
    } else if d == 1 {
        '1'
    } else if d == 2 {
        '2'
    } else if d == 3 {
        '3'
    } else if d == 4 {
        '4'
    } else if d == 5 {
        '5'
    } else if d == 6 {
        '6'
    } else if d == 7 {
        '7'
    } else if d == 8 {
        '8'
    } else {
        '9'
    }
}

/// The decimal rendering of a non-negative integer, without leading zeros
/// (a lone zero renders as "0").
pub open spec fn spec_decimal(n: int) -> Seq<char>
    decreases n,
{
    if n < 10 {
        seq![spec_digit_char(n)]
    } else {
        spec_decimal(n / 10).push(spec_digit_char(n % 10))
    }
}

/// The connection URL text for a host and port: `http://<host>:<port>`,
/// no trailing slash.
pub open spec fn spec_url_text(host: Seq<char>, port: u16) -> Seq<char> {
    "http://"@ + host + ":"@ + spec_decimal(port as int)
}

/// The host that resolution settles on: the LAN address when one was found,
/// the loopback address otherwise.
pub open spec fn spec_chosen_host(lan: Option<Seq<char>>) -> Seq<char> {
    match lan {
        Some(h) => h,
        None => "127.0.0.1"@,
    }
}

/// The view of an optional host string.
pub open spec fn spec_opt_view(o: Option<String>) -> Option<Seq<char>> {
    match o {
        Some(s) => Some(s@),
        None => None,
    }
}

/// One decimal digit as a string.
fn digit_str(d: u16) -> (s: String)
    requires
        d < 10,
    ensures
        s@ == seq![spec_digit_char(d as int)],
{
    match d {
        0 => {
            let s: String = "0".to_owned();
            proof {
                reveal_strlit("0");
                assert(s@ =~= seq![spec_digit_char(0)]);
            }
            s
        },
        1 => {
            let s: String = "1".to_owned();
            proof {
                reveal_strlit("1");
                assert(s@ =~= seq![spec_digit_char(1)]);
            }
            s
        },
        2 => {
            let s: String = "2".to_owned();
            proof {
                reveal_strlit("2");
                assert(s@ =~= seq![spec_digit_char(2)]);
            }
            s
        },
        3 => {
            let s: String = "3".to_owned();
            proof {
                reveal_strlit("3");
                assert(s@ =~= seq![spec_digit_char(3)]);
            }
            s
        },
        4 => {
            let s: String = "4".to_owned();
            proof {
                reveal_strlit("4");
                assert(s@ =~= seq![spec_digit_char(4)]);
            }
            s
        },
        5 => {
            let s: String = "5".to_owned();
            proof {
                reveal_strlit("5");
                assert(s@ =~= seq![spec_digit_char(5)]);
            }
            s
        },
        6 => {
            let s: String = "6".to_owned();
            proof {
                reveal_strlit("6");
                assert(s@ =~= seq![spec_digit_char(6)]);
            }
            s
        },
        7 => {
            let s: String = "7".to_owned();
            proof {
                reveal_strlit("7");
                assert(s@ =~= seq![spec_digit_char(7)]);
            }
            s
        },
        8 => {
            let s: String = "8".to_owned();
            proof {
                reveal_strlit("8");
                assert(s@ =~= seq![spec_digit_char(8)]);
            }
            s
        },
        _ => {
            let s: String = "9".to_owned();
            proof {
                reveal_strlit("9");
                assert(s@ =~= seq![spec_digit_char(9)]);
            }
            s
        },
    }
}

/// The decimal rendering of a port number.
pub fn port_decimal(port: u16) -> (s: String)
    ensures
        s@ == spec_decimal(port as int),
    decreases port,
{
    if port < 10 {
        digit_str(port)
    } else {
        let mut s = port_decimal(port / 10);
        let last = digit_str(port % 10);
        s.append(last.as_str());
        proof {
            assert(s@ =~= spec_decimal((port / 10) as int).push(spec_digit_char((port % 10) as int)));
        }
        s
    }
}

/// Format the connection URL `http://<host>:<port>` for a given host.
pub fn connection_url(host: &str, port: u16) -> (s: String)
    ensures
        s@ == spec_url_text(host@, port),
{
    let mut s: String = "http://".to_owned();
    s.append(host);
    s.append(":");
    let digits = port_decimal(port);
    s.append(digits.as_str());
    proof {
        assert(s@ =~= spec_url_text(host@, port));
    }
    s
}

/// Resolution from an already looked-up LAN host: uses the host when one was
/// found and falls back to loopback otherwise, so the caller always gets a
/// URL. The fallback URL is exactly `http://127.0.0.1:<port>`.
pub fn resolve_with(lan_host: Option<String>, port: u16) -> (s: String)
    ensures
        s@ == spec_url_text(spec_chosen_host(spec_opt_view(lan_host)), port),
        lan_host is None ==> s@ == spec_url_text("127.0.0.1"@, port),
        s@.len() > 0,
{
    let url = match lan_host {
        Some(h) => connection_url(h.as_str(), port),
        None => connection_url("127.0.0.1", port),
    };
    proof {
        reveal_strlit("http://");
        assert(url@.len() >= "http://"@.len());
    }
    url
}

/// Relies on `local_ip_address::local_ip`: it reports the machine's first
/// non-loopback local IP address, and an error when none can be found. The
/// outcome depends on the host's network configuration, so nothing is
/// promised of it; callers must cope with every outcome.
#[verifier::external_body]
fn lan_host() -> (r: Option<String>) {
    match local_ip_address::local_ip() {
        Ok(ip) => Some(ip.to_string()),
        Err(_) => None,
    }
}

/// Resolve the connection URL for a port: the first LAN address the host
/// reports, or the loopback address when none exists. Never fails the
/// caller; the result is always `http://<host>:<port>` for some host.
pub fn resolve(port: u16) -> (s: String)
    ensures
        s@.len() > 0,
        exists|h: Seq<char>| s@ == #[trigger] spec_url_text(h, port),
{
    let found = lan_host();
    let url = resolve_with(found, port);
    proof {
        assert(url@ == spec_url_text(spec_chosen_host(spec_opt_view(found)), port));
    }
    url
}

} // verus!
