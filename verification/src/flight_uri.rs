//! Flight URIs.

use vstd::prelude::*;

use crate::error::ErrorChain;
use crate::text::{has_prefix, starts_with, strip_prefix, trim, trim_of};

verus! {

/// The text behind a prefix.
pub open spec fn behind(value: Seq<char>, prefix: Seq<char>) -> Seq<char> {
    value.skip(prefix.len() as int)
}

/// The HTTP URI of a Flight URI, or why it has none.
pub open spec fn tonic_uri_of(uri: Seq<char>) -> Result<Seq<char>, Seq<Seq<char>>> {
    let value = trim_of(uri);
    if value.len() == 0 {
        Err(seq!["Flight URI must not be empty"@])
    } else if has_prefix(value, "grpc+tcp://"@) {
        Ok("http://"@ + behind(value, "grpc+tcp://"@))
    } else if has_prefix(value, "grpc+tls://"@) {
        Ok("https://"@ + behind(value, "grpc+tls://"@))
    } else if has_prefix(value, "http://"@) || has_prefix(value, "https://"@) {
        Ok(value)
    } else {
        Err(
            seq![
                "unsupported Flight URI scheme in "@ + value
                    + "; use grpc+tcp://, grpc+tls://, http://, or https://"@,
            ],
        )
    }
}

/// The HTTP URI of a Flight URI.
pub fn tonic_uri(uri: &str) -> (r: Result<String, ErrorChain>)
    ensures
        match tonic_uri_of(uri@) {
            Ok(text) => r matches Ok(value) && value@ == text,
            Err(messages) => r matches Err(error) && error@ == messages,
        },
{
    let value = trim(uri);
    if value.as_str().is_empty() {
        return Err(ErrorChain::new("Flight URI must not be empty".to_owned()));
    }
    if let Some(rest) = strip_prefix(value.as_str(), "grpc+tcp://") {
        let mut plain = "http://".to_owned();
        plain.append(rest.as_str());
        return Ok(plain);
    }
    if let Some(rest) = strip_prefix(value.as_str(), "grpc+tls://") {
        let mut secure = "https://".to_owned();
        secure.append(rest.as_str());
        return Ok(secure);
    }
    if starts_with(value.as_str(), "http://") || starts_with(value.as_str(), "https://") {
        return Ok(value);
    }
    let mut message = "unsupported Flight URI scheme in ".to_owned();
    message.append(value.as_str());
    message.append("; use grpc+tcp://, grpc+tls://, http://, or https://");
    Err(ErrorChain::new(message))
}

/// A Flight URI over plain TCP becomes an HTTP one, and one over TLS an HTTPS one, with the same
/// address behind the scheme; HTTP URIs stay as they are, but for the white space around them. No
/// other URI is accepted, and the result is always an HTTP or an HTTPS one.
pub proof fn law_uri_schemes(uri: Seq<char>)
    ensures
        ({
            let value = trim_of(uri);
            &&& has_prefix(value, "grpc+tcp://"@) ==> tonic_uri_of(uri) == Ok::<
                Seq<char>,
                Seq<Seq<char>>,
            >("http://"@ + value.skip(11))
            &&& has_prefix(value, "grpc+tls://"@) ==> tonic_uri_of(uri) == Ok::<
                Seq<char>,
                Seq<Seq<char>>,
            >("https://"@ + value.skip(11))
            &&& has_prefix(value, "http://"@) || has_prefix(value, "https://"@) ==> tonic_uri_of(
                uri,
            ) == Ok::<Seq<char>, Seq<Seq<char>>>(value)
            &&& tonic_uri_of(uri) is Ok <==> {
                ||| has_prefix(value, "grpc+tcp://"@)
                ||| has_prefix(value, "grpc+tls://"@)
                ||| has_prefix(value, "http://"@)
                ||| has_prefix(value, "https://"@)
            }
        }),
        tonic_uri_of(uri) matches Ok(http) ==> has_prefix(http, "http://"@) || has_prefix(
            http,
            "https://"@,
        ),
{
    reveal_strlit("grpc+tcp://");
    reveal_strlit("grpc+tls://");
    reveal_strlit("http://");
    reveal_strlit("https://");
    let value = trim_of(uri);
    let tcp = "grpc+tcp://"@;
    let tls = "grpc+tls://"@;
    if has_prefix(value, tcp) {
        assert(value.take(11)[6] == tcp[6]);
        assert(value.take(11)[0] == tcp[0]);
        let http = "http://"@ + value.skip(11);
        assert(http.take(7) == "http://"@);
        if has_prefix(value, tls) {
            assert(value.take(11)[7] == tls[7]);
            assert(value.take(11)[7] == tcp[7]);
        }
    }
    if has_prefix(value, tls) {
        let https = "https://"@ + value.skip(11);
        assert(https.take(8) == "https://"@);
    }
    if has_prefix(value, "http://"@) {
        assert(value[0] == value.take(7)[0]);
        if has_prefix(value, tcp) {
            assert(value[0] == value.take(11)[0]);
        }
        if has_prefix(value, tls) {
            assert(value[0] == value.take(11)[0]);
        }
    }
    if has_prefix(value, "https://"@) {
        assert(value[0] == value.take(8)[0]);
        if has_prefix(value, tcp) {
            assert(value[0] == value.take(11)[0]);
        }
        if has_prefix(value, tls) {
            assert(value[0] == value.take(11)[0]);
        }
    }
}

}
