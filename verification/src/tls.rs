use crate::text::texts;
use vstd::prelude::*;

verus! {

/// The application protocol that the daemon speaks: `hq-24`.
pub const ALPN: [u8; 5] = [104, 113, 45, 50, 52];

/// How many streams a client may open that carry data in one direction only.
pub const UNI_STREAMS: u64 = 0;

/// The forms in which a certificate and a key can be given.
#[derive(Clone, Copy, PartialEq, Eq, Structural)]
pub enum Format {
    /// One certificate and a key, in bytes as they are.
    Der,
    /// A chain of certificates and a key, in text.
    Pem,
}

#[verifier::external_type_specification]
#[verifier::external_body]
pub struct ExGeneratedCertificate(rcgen::Certificate);

#[verifier::external_type_specification]
#[verifier::external_body]
pub struct ExCertificate(quinn::Certificate);

#[verifier::external_type_specification]
#[verifier::external_body]
pub struct ExCertificateChain(quinn::CertificateChain);

#[verifier::external_type_specification]
#[verifier::external_body]
pub struct ExPrivateKey(quinn::PrivateKey);

#[verifier::external_type_specification]
#[verifier::external_body]
pub struct ExServerConfigBuilder(quinn::ServerConfigBuilder);

#[verifier::external_type_specification]
#[verifier::external_body]
pub struct ExEndpointBuilder(quinn::EndpointBuilder);

// Certificates.

/// `rcgen::generate_simple_self_signed` makes a new random key and a certificate for it, valid for
/// the given names. It fails where the system gives no random numbers, and panics where the system
/// gives some for the key and none right after: no argument rules this out. The key is another one
/// each time, so nothing is claimed of the result.
#[verifier::external_body]
fn self_signed(names: Vec<String>) -> (r: Result<rcgen::Certificate, String>) {
    rcgen::generate_simple_self_signed(names).map_err(|e| e.to_string())
}

/// Whether `certificate` is one that making a self-signed certificate gave.
spec fn made(certificate: rcgen::Certificate) -> bool {
    exists|names: Vec<String>| #[trigger] call_ensures(self_signed, (names,), Ok(certificate))
}

/// `rcgen::Certificate::serialize_private_key_der` gives the private key of the certificate in
/// PKCS #8. The key is random, so nothing is claimed of its bytes.
#[verifier::external_body]
fn private_key_der(certificate: &rcgen::Certificate) -> (key: Vec<u8>)
    requires
        made(*certificate),
{
    certificate.serialize_private_key_der()
}

/// `rcgen::Certificate::serialize_der` signs the certificate with its own key and gives it in DER.
/// The signature is random, and making it can fail, so nothing is claimed of the result. On a
/// certificate with a malformed extension it would panic; a self-signed one as it is made has no
/// extensions of that kind.
#[verifier::external_body]
fn certificate_der(certificate: &rcgen::Certificate) -> (r: Result<Vec<u8>, String>)
    requires
        made(*certificate),
{
    certificate.serialize_der().map_err(|e| e.to_string())
}

/// Whether `cert` and `key` are the certificate and the private key of one generated certificate
/// for `localhost`.
pub closed spec fn generated(cert: Seq<u8>, key: Seq<u8>) -> bool {
    exists|names: Vec<String>, certificate: rcgen::Certificate, c: Vec<u8>, k: Vec<u8>|
        {
            &&& names@.len() == 1
            &&& names@[0]@ == "localhost"@
            &&& #[trigger] call_ensures(self_signed, (names,), Ok(certificate))
            &&& #[trigger] call_ensures(certificate_der, (&certificate,), Ok(c))
            &&& #[trigger] call_ensures(private_key_der, (&certificate,), k)
            &&& c@ == cert
            &&& k@ == key
        }
}

/// Whether `reason` is the message with which making a certificate for `localhost`, or signing it,
/// can fail.
pub closed spec fn generation_failed(reason: Seq<char>) -> bool {
    ||| exists|names: Vec<String>, e: String|
        {
            &&& names@.len() == 1
            &&& names@[0]@ == "localhost"@
            &&& #[trigger] call_ensures(self_signed, (names,), Err(e))
            &&& e@ == reason
        }
    ||| exists|names: Vec<String>, certificate: rcgen::Certificate, e: String|
        {
            &&& names@.len() == 1
            &&& names@[0]@ == "localhost"@
            &&& #[trigger] call_ensures(self_signed, (names,), Ok(certificate))
            &&& #[trigger] call_ensures(certificate_der, (&certificate,), Err(e))
            &&& e@ == reason
        }
}

/// A new certificate for `localhost` and its private key, both in DER.
pub fn generate_certificate() -> (r: Result<(Vec<u8>, Vec<u8>), String>)
    ensures
        match r {
            Ok((cert, key)) => generated(cert@, key@),
            Err(reason) => generation_failed(reason@),
        },
{
    let mut names: Vec<String> = Vec::new();
    names.push("localhost".to_string());
    let ghost asked = names;
    let certificate = match self_signed(names) {
        Ok(certificate) => certificate,
        Err(reason) => {
            assert(call_ensures(self_signed, (asked,), Err(reason)));
            return Err(reason);
        },
    };
    assert(call_ensures(self_signed, (asked,), Ok(certificate)));
    let key = private_key_der(&certificate);
    let cert = match certificate_der(&certificate) {
        Ok(cert) => cert,
        Err(reason) => {
            assert(call_ensures(certificate_der, (&certificate,), Err(reason)));
            return Err(reason);
        },
    };
    assert(call_ensures(certificate_der, (&certificate,), Ok(cert)));
    assert(call_ensures(private_key_der, (&certificate,), key));
    Ok((cert, key))
}

/// Whether `cert` and `key` are the certificate and the private key of one self-signed certificate
/// that was asked for with exactly these names.
pub closed spec fn issued_for(names: Seq<Seq<char>>, cert: Seq<u8>, key: Seq<u8>) -> bool {
    exists|asked: Vec<String>, certificate: rcgen::Certificate, c: Vec<u8>, k: Vec<u8>|
        {
            &&& texts(asked@) == names
            &&& #[trigger] call_ensures(self_signed, (asked,), Ok(certificate))
            &&& #[trigger] call_ensures(certificate_der, (&certificate,), Ok(c))
            &&& #[trigger] call_ensures(private_key_der, (&certificate,), k)
            &&& c@ == cert
            &&& k@ == key
        }
}

/// Whether `reason` is the message with which making a certificate for exactly these names, or
/// signing it, can fail.
pub closed spec fn not_issued_for(names: Seq<Seq<char>>, reason: Seq<char>) -> bool {
    ||| exists|asked: Vec<String>, e: String|
        {
            &&& texts(asked@) == names
            &&& #[trigger] call_ensures(self_signed, (asked,), Err(e))
            &&& e@ == reason
        }
    ||| exists|asked: Vec<String>, certificate: rcgen::Certificate, e: String|
        {
            &&& texts(asked@) == names
            &&& #[trigger] call_ensures(self_signed, (asked,), Ok(certificate))
            &&& #[trigger] call_ensures(certificate_der, (&certificate,), Err(e))
            &&& e@ == reason
        }
}

/// A certificate is made for the name `localhost` and for no other; the key is that of the same
/// certificate. Where none is made, it was one for this name that could not be made or signed.
pub proof fn law_certificate_for_localhost(r: Result<(Vec<u8>, Vec<u8>), String>)
    requires
        call_ensures(generate_certificate, (), r),
    ensures
        match r {
            Ok((cert, key)) => issued_for(
                seq![seq!['l', 'o', 'c', 'a', 'l', 'h', 'o', 's', 't']],
                cert@,
                key@,
            ),
            Err(reason) => not_issued_for(
                seq![seq!['l', 'o', 'c', 'a', 'l', 'h', 'o', 's', 't']],
                reason@,
            ),
        },
{
    match r {
        Ok((cert, key)) => law_generated_for_localhost(cert@, key@, seq![]),
        Err(reason) => law_generated_for_localhost(seq![], seq![], reason@),
    }
}

/// What is made for the daemon is made for the name `localhost` and for no other.
pub proof fn law_generated_for_localhost(cert: Seq<u8>, key: Seq<u8>, reason: Seq<char>)
    ensures
        generated(cert, key) ==> issued_for(
            seq![seq!['l', 'o', 'c', 'a', 'l', 'h', 'o', 's', 't']],
            cert,
            key,
        ),
        generation_failed(reason) ==> not_issued_for(
            seq![seq!['l', 'o', 'c', 'a', 'l', 'h', 'o', 's', 't']],
            reason,
        ),
{
    reveal_strlit("localhost");
    assert("localhost"@ =~= seq!['l', 'o', 'c', 'a', 'l', 'h', 'o', 's', 't']);
    let name = seq!['l', 'o', 'c', 'a', 'l', 'h', 'o', 's', 't'];
    assert forall|names: Vec<String>|
        names@.len() == 1 && (#[trigger] names@[0])@ == "localhost"@ implies texts(names@)
        == seq![name] by {
        assert(texts(names@) =~= seq![name]);
    }
}

/// To be issued for names is for calls that were made: one certificate was asked for with these
/// names, and the bytes are what it gave for itself and for its key.
proof fn law_issued_by_calls(names: Seq<Seq<char>>, cert: Seq<u8>, key: Seq<u8>)
    requires
        issued_for(names, cert, key),
    ensures
        exists|asked: Vec<String>, certificate: rcgen::Certificate, c: Vec<u8>, k: Vec<u8>|
            {
                &&& asked@.len() == names.len()
                &&& forall|i: int| 0 <= i < names.len() ==> asked@[i]@ == #[trigger] names[i]
                &&& #[trigger] call_ensures(self_signed, (asked,), Ok(certificate))
                &&& #[trigger] call_ensures(certificate_der, (&certificate,), Ok(c))
                &&& #[trigger] call_ensures(private_key_der, (&certificate,), k)
                &&& c@ == cert
                &&& k@ == key
            },
{
}

// Reading certificates and keys.

/// `quinn::PrivateKey::from_der` takes any bytes for a key, keeps them as they are and does not
/// fail. The key is opaque: what it holds is not claimed.
#[verifier::external_body]
fn der_private_key(der: &[u8]) -> (r: Result<quinn::PrivateKey, String>)
    ensures
        r is Ok,
{
    quinn::PrivateKey::from_der(der).map_err(|e| e.to_string())
}

/// The message with which `quinn::PrivateKey::from_pem` reports that it finds no well-formed private
/// key in `pem`; none, if it finds one.
pub uninterp spec fn pem_key_error(pem: Seq<u8>) -> Option<Seq<char>>;

/// `quinn::PrivateKey::from_pem` takes the first key in PKCS #8 out of the text, or else the first
/// one in PKCS #1. Whether it succeeds, and what it reports, depends on the bytes alone. The key is
/// opaque: what it holds is not claimed.
#[verifier::external_body]
fn pem_private_key(pem: &[u8]) -> (r: Result<quinn::PrivateKey, String>)
    ensures
        match r {
            Ok(_) => pem_key_error(pem@) is None,
            Err(reason) => pem_key_error(pem@) == Some(reason@),
        },
{
    quinn::PrivateKey::from_pem(pem).map_err(|e| e.to_string())
}

/// `quinn::Certificate::from_der` takes any bytes for a certificate, keeps them as they are and does
/// not fail. The certificate is opaque: what it holds is not claimed.
#[verifier::external_body]
fn der_certificate(der: &[u8]) -> (r: Result<quinn::Certificate, String>)
    ensures
        r is Ok,
{
    quinn::Certificate::from_der(der).map_err(|e| e.to_string())
}

/// `quinn::CertificateChain::from_certs` makes a chain of the certificates given, here one. The
/// chain is opaque: what it holds is not claimed.
#[verifier::external_body]
fn chain_of(certificate: quinn::Certificate) -> (chain: quinn::CertificateChain) {
    quinn::CertificateChain::from_certs(vec![certificate])
}

/// Whether `quinn::CertificateChain::from_pem` finds a certificate in `pem` that is not well formed.
pub uninterp spec fn malformed_chain(pem: Seq<u8>) -> bool;

/// `quinn::CertificateChain::from_pem` takes all certificates out of the text. Whether it succeeds
/// depends on the bytes alone, and it has one message for all failures. The chain is opaque: what it
/// holds is not claimed.
#[verifier::external_body]
fn pem_chain(pem: &[u8]) -> (r: Result<quinn::CertificateChain, String>)
    ensures
        match r {
            Ok(_) => !malformed_chain(pem@),
            Err(reason) => malformed_chain(pem@) && reason@ == "malformed certificate chain"@,
        },
{
    quinn::CertificateChain::from_pem(pem).map_err(|e| e.to_string())
}

/// Whether `key` is read from `bytes`.
pub closed spec fn key_of(key: quinn::PrivateKey, bytes: Seq<u8>, format: Format) -> bool {
    match format {
        Format::Der => exists|b: &[u8]|
            b@ == bytes && #[trigger] call_ensures(der_private_key, (b,), Ok(key)),
        Format::Pem => exists|b: &[u8]|
            b@ == bytes && #[trigger] call_ensures(pem_private_key, (b,), Ok(key)),
    }
}

/// Whether `chain` is read from `bytes`.
pub closed spec fn chain_from(
    chain: quinn::CertificateChain,
    bytes: Seq<u8>,
    format: Format,
) -> bool {
    match format {
        Format::Der => exists|b: &[u8], certificate: quinn::Certificate|
            {
                &&& b@ == bytes
                &&& #[trigger] call_ensures(der_certificate, (b,), Ok(certificate))
                &&& #[trigger] call_ensures(chain_of, (certificate,), chain)
            },
        Format::Pem => exists|b: &[u8]|
            b@ == bytes && #[trigger] call_ensures(pem_chain, (b,), Ok(chain)),
    }
}

/// The error, if there is one, with which a certificate and a key are refused because they cannot be
/// read: that of the key comes first.
pub open spec fn reading_error(cert: Seq<u8>, key: Seq<u8>, format: Format) -> Option<Seq<char>> {
    match format {
        Format::Der => None,
        Format::Pem => if pem_key_error(key) is Some {
            pem_key_error(key)
        } else if malformed_chain(cert) {
            Some("malformed certificate chain"@)
        } else {
            None
        },
    }
}

/// The certificates and the key that the bytes hold.
fn read_credentials(cert: &[u8], key: &[u8], format: Format) -> (r: Result<
    (quinn::CertificateChain, quinn::PrivateKey),
    String,
>)
    ensures
        match r {
            Ok((chain, private_key)) => {
                &&& reading_error(cert@, key@, format) is None
                &&& chain_from(chain, cert@, format)
                &&& key_of(private_key, key@, format)
            },
            Err(reason) => reading_error(cert@, key@, format) == Some(reason@),
        },
{
    match format {
        Format::Der => {
            let private_key = der_private_key(key).unwrap();
            let certificate = der_certificate(cert).unwrap();
            let chain = chain_of(certificate);
            assert(call_ensures(der_private_key, (key,), Ok(private_key)));
            assert(call_ensures(der_certificate, (cert,), Ok(certificate)));
            assert(call_ensures(chain_of, (certificate,), chain));
            Ok((chain, private_key))
        },
        Format::Pem => {
            let private_key = match pem_private_key(key) {
                Ok(private_key) => private_key,
                Err(reason) => return Err(reason),
            };
            let chain = match pem_chain(cert) {
                Ok(chain) => chain,
                Err(reason) => return Err(reason),
            };
            assert(call_ensures(pem_private_key, (key,), Ok(private_key)));
            assert(call_ensures(pem_chain, (cert,), Ok(chain)));
            Ok((chain, private_key))
        },
    }
}

// The endpoint.

/// `quinn::ServerConfigBuilder::new` starts from a configuration that has, apart from the number
/// of streams given here, the defaults of quinn. A random key is among them, which takes random
/// numbers of the system for granted, so nothing is claimed of the result.
#[verifier::external_body]
fn server_config(uni_streams: u64) -> (builder: quinn::ServerConfigBuilder) {
    let transport = quinn::TransportConfig {
        stream_window_uni: uni_streams,
        ..Default::default()
    };
    quinn::ServerConfigBuilder::new(
        quinn::ServerConfig { transport: std::sync::Arc::new(transport), ..Default::default() },
    )
}

/// `quinn::ServerConfigBuilder::protocols` sets the application protocols that are accepted, here
/// one. The builder is opaque: nothing is claimed of it.
#[verifier::external_body]
fn with_protocol(builder: quinn::ServerConfigBuilder, protocol: &[u8]) -> (r:
    quinn::ServerConfigBuilder) {
    let mut builder = builder;
    builder.protocols(&[protocol]);
    builder
}

/// `quinn::ServerConfigBuilder::enable_keylog` has the keys of connections logged to the file that
/// the environment variable `SSLKEYLOGFILE` names; it opens that file. The builder is opaque: nothing
/// is claimed of it.
#[verifier::external_body]
fn with_keylog(builder: quinn::ServerConfigBuilder) -> (r: quinn::ServerConfigBuilder) {
    let mut builder = builder;
    builder.enable_keylog();
    builder
}

/// `quinn::ServerConfigBuilder::use_stateless_retry` sets whether clients must prove that they can
/// receive packets before a connection is accepted. The builder is opaque: nothing is claimed of it.
#[verifier::external_body]
fn with_stateless_retry(builder: quinn::ServerConfigBuilder, enabled: bool) -> (r:
    quinn::ServerConfigBuilder) {
    let mut builder = builder;
    builder.use_stateless_retry(enabled);
    builder
}

/// `quinn::ServerConfigBuilder::certificate` sets the certificates that are shown to clients, and
/// the key. It fails where the key is not one that a server can use, and also where the system gives
/// no random numbers for an ECDSA key, with always the same message. The builder and the key are
/// opaque, so when it succeeds is not claimed.
#[verifier::external_body]
fn with_certificate(
    builder: quinn::ServerConfigBuilder,
    chain: quinn::CertificateChain,
    key: quinn::PrivateKey,
) -> (r: Result<quinn::ServerConfigBuilder, String>)
    ensures
        r matches Err(reason) ==> reason@ == unusable_key_text(),
{
    let mut builder = builder;
    builder.certificate(chain, key).map_err(|e| e.to_string())?;
    Ok(builder)
}

/// `quinn::EndpointBuilder::listen` makes the endpoint accept connections under the given
/// configuration. A random key is in it, which takes random numbers of the system for granted, so
/// nothing is claimed of the result.
#[verifier::external_body]
fn listening(builder: quinn::ServerConfigBuilder) -> (endpoint: quinn::EndpointBuilder) {
    let mut endpoint = quinn::Endpoint::builder();
    endpoint.listen(builder.build());
    endpoint
}

/// The message of the error about a private key that cannot be used.
pub open spec fn unusable_key_text() -> Seq<char> {
    "unexpected error: General(\"invalid private key\")"@
}

/// Whether `builder` is a configuration under which a client may open `uni_streams` streams that
/// carry data in one direction only, and `protocol` is the only application protocol, with the
/// logging of keys enabled exactly where `keylog` says so, and with stateless retries as
/// `stateless_retry` says. It has no certificate yet.
pub closed spec fn prepared(
    builder: quinn::ServerConfigBuilder,
    uni_streams: u64,
    protocol: Seq<u8>,
    keylog: bool,
    stateless_retry: bool,
) -> bool {
    exists|
        plain: quinn::ServerConfigBuilder,
        name: &[u8],
        with_alpn: quinn::ServerConfigBuilder,
        logging: quinn::ServerConfigBuilder,
    |
        {
            &&& name@ == protocol
            &&& #[trigger] call_ensures(server_config, (uni_streams,), plain)
            &&& #[trigger] call_ensures(with_protocol, (plain, name), with_alpn)
            &&& if keylog {
                call_ensures(with_keylog, (with_alpn,), logging)
            } else {
                logging == with_alpn
            }
            &&& #[trigger] call_ensures(with_stateless_retry, (logging, stateless_retry), builder)
        }
}

/// Whether `endpoint` is set up with this certificate and key, and with these options.
pub closed spec fn set_up(
    endpoint: quinn::EndpointBuilder,
    cert: Seq<u8>,
    key: Seq<u8>,
    format: Format,
    keylog: bool,
    stateless_retry: bool,
) -> bool {
    exists|
        builder: quinn::ServerConfigBuilder,
        chain: quinn::CertificateChain,
        private_key: quinn::PrivateKey,
        complete: quinn::ServerConfigBuilder,
    |
        {
            &&& prepared(builder, UNI_STREAMS, ALPN@, keylog, stateless_retry)
            &&& chain_from(chain, cert, format)
            &&& key_of(private_key, key, format)
            &&& #[trigger] call_ensures(
                with_certificate,
                (builder, chain, private_key),
                Ok(complete),
            )
            &&& #[trigger] call_ensures(listening, (complete,), endpoint)
        }
}

/// Whether `endpoint` listens under a configuration that lets a client open `uni_streams` streams
/// that carry data in one direction only, and that has `protocol` for its only application protocol.
pub closed spec fn admits(
    endpoint: quinn::EndpointBuilder,
    uni_streams: u64,
    protocol: Seq<u8>,
) -> bool {
    exists|
        builder: quinn::ServerConfigBuilder,
        keylog: bool,
        stateless_retry: bool,
        chain: quinn::CertificateChain,
        private_key: quinn::PrivateKey,
        complete: quinn::ServerConfigBuilder,
    |
        {
            &&& #[trigger] prepared(builder, uni_streams, protocol, keylog, stateless_retry)
            &&& #[trigger] call_ensures(
                with_certificate,
                (builder, chain, private_key),
                Ok(complete),
            )
            &&& #[trigger] call_ensures(listening, (complete,), endpoint)
        }
}

/// Every endpoint that is set up, with whatever credentials and options, lets clients open no stream
/// that carries data in one direction only, and speaks the protocol of the daemon and no other. So
/// every stream that a client opens can be answered on.
pub proof fn law_streams_and_protocol(
    endpoint: quinn::EndpointBuilder,
    cert: Seq<u8>,
    key: Seq<u8>,
    format: Format,
    keylog: bool,
    stateless_retry: bool,
)
    requires
        set_up(endpoint, cert, key, format, keylog, stateless_retry),
    ensures
        admits(endpoint, UNI_STREAMS, ALPN@),
        UNI_STREAMS == 0,
        ALPN@ == seq![104u8, 113, 45, 50, 52],
{
    assert(ALPN@ =~= seq![104u8, 113, 45, 50, 52]);
}

/// Whether setting up an endpoint with this certificate and key, and with these options, can fail
/// though they can be read.
pub closed spec fn set_up_failed(
    cert: Seq<u8>,
    key: Seq<u8>,
    format: Format,
    keylog: bool,
    stateless_retry: bool,
) -> bool {
    exists|
        builder: quinn::ServerConfigBuilder,
        chain: quinn::CertificateChain,
        private_key: quinn::PrivateKey,
        e: String,
    |
        {
            &&& prepared(builder, UNI_STREAMS, ALPN@, keylog, stateless_retry)
            &&& chain_from(chain, cert, format)
            &&& key_of(private_key, key, format)
            &&& #[trigger] call_ensures(with_certificate, (builder, chain, private_key), Err(e))
        }
}

/// A configuration without a certificate.
fn prepare(keylog: bool, stateless_retry: bool) -> (builder: quinn::ServerConfigBuilder)
    ensures
        prepared(builder, UNI_STREAMS, ALPN@, keylog, stateless_retry),
{
    let plain = server_config(UNI_STREAMS);
    let alpn: [u8; 5] = ALPN;
    let protocol = alpn.as_slice();
    let with_alpn = with_protocol(plain, protocol);
    let logging = if keylog {
        with_keylog(with_alpn)
    } else {
        with_alpn
    };
    let builder = with_stateless_retry(logging, stateless_retry);
    assert(call_ensures(server_config, (UNI_STREAMS,), plain));
    assert(call_ensures(with_protocol, (plain, protocol), with_alpn));
    assert(keylog ==> call_ensures(with_keylog, (with_alpn,), logging));
    assert(call_ensures(with_stateless_retry, (logging, stateless_retry), builder));
    builder
}

/// An endpoint for a server with this certificate and key, and with these options. It is bound to no
/// address yet.
pub fn configure(
    cert: &[u8],
    key: &[u8],
    format: Format,
    keylog: bool,
    stateless_retry: bool,
) -> (r: Result<quinn::EndpointBuilder, String>)
    ensures
        match r {
            Ok(endpoint) => {
                &&& reading_error(cert@, key@, format) is None
                &&& set_up(endpoint, cert@, key@, format, keylog, stateless_retry)
            },
            Err(reason) => match reading_error(cert@, key@, format) {
                Some(error) => reason@ == error,
                None => {
                    &&& reason@ == unusable_key_text()
                    &&& set_up_failed(cert@, key@, format, keylog, stateless_retry)
                },
            },
        },
{
    let builder = prepare(keylog, stateless_retry);
    let (chain, private_key) = match read_credentials(cert, key, format) {
        Ok(credentials) => credentials,
        Err(reason) => return Err(reason),
    };
    match with_certificate(builder, chain, private_key) {
        Err(reason) => {
            assert(call_ensures(with_certificate, (builder, chain, private_key), Err(reason)));
            Err(reason)
        },
        Ok(complete) => {
            let endpoint = listening(complete);
            assert(call_ensures(with_certificate, (builder, chain, private_key), Ok(complete)));
            assert(call_ensures(listening, (complete,), endpoint));
            Ok(endpoint)
        },
    }
}

/// An endpoint is refused for one of four reasons, and where credentials can be read only for one. In
/// PEM the key is looked at first: the error is that of the key, or else that the chain is malformed.
/// In DER nothing is malformed.
pub proof fn law_configuration_refused(
    cert: &[u8],
    key: &[u8],
    format: Format,
    keylog: bool,
    stateless_retry: bool,
    r: Result<quinn::EndpointBuilder, String>,
)
    requires
        call_ensures(configure, (cert, key, format, keylog, stateless_retry), r),
    ensures
        r matches Ok(endpoint) ==> {
            &&& set_up(endpoint, cert@, key@, format, keylog, stateless_retry)
            &&& format == Format::Der || (pem_key_error(key@) is None && !malformed_chain(cert@))
        },
        r matches Err(reason) ==> {
            if format == Format::Pem && pem_key_error(key@) is Some {
                pem_key_error(key@) == Some(reason@)
            } else if format == Format::Pem && malformed_chain(cert@) {
                reason@ == "malformed certificate chain"@
            } else {
                &&& reason@ == "unexpected error: General(\"invalid private key\")"@
                &&& set_up_failed(cert@, key@, format, keylog, stateless_retry)
            }
        },
{
}

/// A key is read from its own bytes and a chain from its own, each in the given format.
proof fn law_read_by_calls(
    key: quinn::PrivateKey,
    chain: quinn::CertificateChain,
    bytes: Seq<u8>,
    format: Format,
)
    ensures
        key_of(key, bytes, format) && format == Format::Der ==> exists|b: &[u8]|
            b@ == bytes && #[trigger] call_ensures(der_private_key, (b,), Ok(key)),
        key_of(key, bytes, format) && format == Format::Pem ==> exists|b: &[u8]|
            b@ == bytes && #[trigger] call_ensures(pem_private_key, (b,), Ok(key)),
        chain_from(chain, bytes, format) && format == Format::Der ==> exists|
            b: &[u8],
            certificate: quinn::Certificate,
        |
            {
                &&& b@ == bytes
                &&& #[trigger] call_ensures(der_certificate, (b,), Ok(certificate))
                &&& #[trigger] call_ensures(chain_of, (certificate,), chain)
            },
        chain_from(chain, bytes, format) && format == Format::Pem ==> exists|b: &[u8]|
            b@ == bytes && #[trigger] call_ensures(pem_chain, (b,), Ok(chain)),
{
}

/// A configuration is prepared by calls that were made: it starts without streams in one direction,
/// gets the protocol of the daemon, then the logging of keys if and only if `keylog` says so, and
/// then stateless retries as `stateless_retry` says.
proof fn law_prepared_by_calls(
    builder: quinn::ServerConfigBuilder,
    keylog: bool,
    stateless_retry: bool,
)
    requires
        prepared(builder, UNI_STREAMS, ALPN@, keylog, stateless_retry),
    ensures
        exists|
            plain: quinn::ServerConfigBuilder,
            name: &[u8],
            with_alpn: quinn::ServerConfigBuilder,
            logging: quinn::ServerConfigBuilder,
        |
            {
                &&& name@ == seq![104u8, 113, 45, 50, 52]
                &&& #[trigger] call_ensures(server_config, (0u64,), plain)
                &&& #[trigger] call_ensures(with_protocol, (plain, name), with_alpn)
                &&& keylog ==> call_ensures(with_keylog, (with_alpn,), logging)
                &&& !keylog ==> logging == with_alpn
                &&& #[trigger] call_ensures(
                    with_stateless_retry,
                    (logging, stateless_retry),
                    builder,
                )
            },
{
    assert(ALPN@ =~= seq![104u8, 113, 45, 50, 52]);
}

/// An endpoint is set up by calls that were made: a configuration is prepared with the options, gets
/// the chain that was read from the bytes of the certificate and the key that was read from the
/// bytes of the key, and is then listened under.
proof fn law_set_up_by_calls(
    endpoint: quinn::EndpointBuilder,
    cert: Seq<u8>,
    key: Seq<u8>,
    format: Format,
    keylog: bool,
    stateless_retry: bool,
)
    ensures
        set_up(endpoint, cert, key, format, keylog, stateless_retry) ==> exists|
            builder: quinn::ServerConfigBuilder,
            chain: quinn::CertificateChain,
            private_key: quinn::PrivateKey,
            complete: quinn::ServerConfigBuilder,
        |
            {
                &&& prepared(builder, UNI_STREAMS, ALPN@, keylog, stateless_retry)
                &&& chain_from(chain, cert, format)
                &&& key_of(private_key, key, format)
                &&& #[trigger] call_ensures(
                    with_certificate,
                    (builder, chain, private_key),
                    Ok(complete),
                )
                &&& #[trigger] call_ensures(listening, (complete,), endpoint)
            },
        set_up_failed(cert, key, format, keylog, stateless_retry) ==> exists|
            builder: quinn::ServerConfigBuilder,
            chain: quinn::CertificateChain,
            private_key: quinn::PrivateKey,
            e: String,
        |
            {
                &&& prepared(builder, UNI_STREAMS, ALPN@, keylog, stateless_retry)
                &&& chain_from(chain, cert, format)
                &&& key_of(private_key, key, format)
                &&& #[trigger] call_ensures(with_certificate, (builder, chain, private_key), Err(e))
            },
{
}

} // verus!
