use vstd::prelude::*;

verus! {

#[verifier::external_type_specification]
#[verifier::external_body]
pub struct ExUrl(url::Url);

/// Relies on url::Url::parse: purely syntactic parsing of an absolute
/// URL string; `Some` exactly when the crate accepts the string.
#[verifier::external_body]
fn parse_url(s: &str) -> (r: Option<url::Url>) {
    url::Url::parse(s).ok()
}

/// Relies on url::Url::scheme: the ASCII scheme of the URL, as bytes.
#[verifier::external_body]
fn url_scheme_bytes(u: &url::Url) -> (r: Vec<u8>) {
    u.scheme().as_bytes().to_vec()
}

/// Relies on url::Url::port: the port written in the URL, if any.
#[verifier::external_body]
fn url_port(u: &url::Url) -> (r: Option<u16>) {
    u.port()
}

/// The default port the WebSocket connector assumes for a scheme: 80 for
/// plain `ws`, 443 for `wss` over TLS, none for any other scheme.
pub open spec fn spec_default_port(scheme: Seq<u8>) -> Option<u16> {
    if scheme == seq![119u8, 115u8] {
        Some(80u16)
    } else if scheme == seq![119u8, 115u8, 115u8] {
        Some(443u16)
    } else {
        None
    }
}

/// Maps a scheme (as bytes) to the connector's default port.
pub fn default_port_for_scheme(scheme: &Vec<u8>) -> (r: Option<u16>)
    ensures
        r == spec_default_port(scheme@),
{
    if scheme.len() == 2 && scheme[0] == 119 && scheme[1] == 115 {
        proof {
            assert(scheme@ =~= seq![119u8, 115u8]);
        }
        Some(80)
    } else if scheme.len() == 3 && scheme[0] == 119 && scheme[1] == 115 && scheme[2] == 115 {
        proof {
            assert(scheme@ =~= seq![119u8, 115u8, 115u8]);
        }
        Some(443)
    } else {
        proof {
            assert(scheme@ != seq![119u8, 115u8]);
            assert(scheme@ != seq![119u8, 115u8, 115u8]);
        }
        None
    }
}

/// The port a WebSocket URL connects to: the port written in the URL if
/// any, else the scheme's default through `default_port_for_scheme`.
/// `None` when the string is no URL or its scheme has no default. What
/// the parse returns is the url crate's to say; the scheme-to-port rule
/// above is the part proved.
pub fn ws_url_port(s: &str) -> (r: Option<u16>) {
    match parse_url(s) {
        None => None,
        Some(u) => {
            match url_port(&u) {
                Some(p) => Some(p),
                None => {
                    let scheme = url_scheme_bytes(&u);
                    default_port_for_scheme(&scheme)
                },
            }
        },
    }
}

} // verus!
