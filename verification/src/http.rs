//! Server lifecycle: the TLS credential model, building an acceptor from a
//! credential, and the state machine that owns the live listener across
//! start, credential rotation, and shutdown.
//!
//! Binding a socket and stopping a running listener are outside work: the
//! caller performs them and reports their outcome back, so the state here
//! models which credential the live listener presents.

use vstd::prelude::*;
use vstd::utf8::encode_utf8;

verus! {

/// A TLS credential as supplied by the provisioning collaborator: a
/// leaf-first certificate chain and one private key, both PEM text.
pub struct TLSPayload {
    pub certificate: String,
    pub private_key: String,
}

/// How many certificates a PEM byte sequence parses into, or `None` when it
/// does not parse. Parsing is a pure function of the input; its definition
/// is supplied by the `openssl` crate and left abstract.
pub uninterp spec fn pem_cert_count(pem: Seq<u8>) -> Option<nat>;

/// Whether a PEM byte sequence parses as an RSA private key. Parsing is a
/// pure function of the input; its definition is supplied by the `openssl`
/// crate and left abstract.
pub uninterp spec fn rsa_pem_ok(pem: Seq<u8>) -> bool;

#[verifier::external_type_specification]
#[verifier::external_body]
pub struct ExSslAcceptorBuilder(openssl::ssl::SslAcceptorBuilder);

#[verifier::external_type_specification]
#[verifier::external_body]
pub struct ExErrorStack(openssl::error::ErrorStack);

#[verifier::external_type_specification]
#[verifier::external_body]
pub struct ExX509(openssl::x509::X509);

#[verifier::external_type_specification]
#[verifier::external_body]
pub struct ExPrivate(openssl::pkey::Private);

#[verifier::external_type_specification]
#[verifier::external_body]
#[verifier::reject_recursive_types(T)]
pub struct ExPKey<T>(openssl::pkey::PKey<T>);

#[verifier::external_type_specification]
#[verifier::external_body]
pub struct ExSslVersion(openssl::ssl::SslVersion);

/// Relies on `openssl::ssl::SslAcceptor::mozilla_intermediate` over
/// `SslMethod::tls`: a fresh acceptor builder with that profile.
#[verifier::external_body]
fn acceptor_builder() -> Result<openssl::ssl::SslAcceptorBuilder, openssl::error::ErrorStack> {
    openssl::ssl::SslAcceptor::mozilla_intermediate(openssl::ssl::SslMethod::tls())
}

/// Relies on `openssl::x509::X509::stack_from_pem`: a deterministic parse;
/// a returned stack means the text is a PEM certificate stack, one value
/// per certificate.
#[verifier::external_body]
fn x509_stack_from_pem(pem: &[u8]) -> (r: Result<
    Vec<openssl::x509::X509>,
    openssl::error::ErrorStack,
>)
    ensures
        r matches Ok(v) ==> pem_cert_count(pem@) == Some(v@.len() as nat),
{
    openssl::x509::X509::stack_from_pem(pem)
}

/// Relies on `openssl::rsa::Rsa::private_key_from_pem` (a deterministic
/// parse) and `openssl::pkey::PKey::from_rsa` (a wrapping conversion): a
/// returned key means the PEM parsed as an RSA private key.
#[verifier::external_body]
fn load_private_key(pem: &[u8]) -> (r: Result<
    openssl::pkey::PKey<openssl::pkey::Private>,
    openssl::error::ErrorStack,
>)
    ensures
        r matches Ok(_) ==> rsa_pem_ok(pem@),
{
    openssl::pkey::PKey::from_rsa(openssl::rsa::Rsa::private_key_from_pem(pem)?)
}

/// Relies on `SslContextBuilder::set_certificate`: installs the leaf
/// certificate on the builder.
#[verifier::external_body]
fn acceptor_set_certificate(
    b: &mut openssl::ssl::SslAcceptorBuilder,
    cert: &openssl::x509::X509,
) -> Result<(), openssl::error::ErrorStack> {
    b.set_certificate(cert.as_ref())
}

/// Relies on `SslContextBuilder::add_extra_chain_cert` (and `X509`'s
/// `Clone`): appends one chain certificate to the builder.
#[verifier::external_body]
fn acceptor_add_chain_cert(
    b: &mut openssl::ssl::SslAcceptorBuilder,
    cert: &openssl::x509::X509,
) -> Result<(), openssl::error::ErrorStack> {
    b.add_extra_chain_cert(cert.clone())
}

/// Relies on `SslContextBuilder::set_private_key`: installs the private key
/// on the builder.
#[verifier::external_body]
fn acceptor_set_private_key(
    b: &mut openssl::ssl::SslAcceptorBuilder,
    key: &openssl::pkey::PKey<openssl::pkey::Private>,
) -> Result<(), openssl::error::ErrorStack> {
    b.set_private_key(key.as_ref())
}

/// Relies on `SslContextBuilder::set_min_proto_version`: sets the lowest
/// protocol version the listener will accept.
#[verifier::external_body]
fn acceptor_set_min_proto(
    b: &mut openssl::ssl::SslAcceptorBuilder,
    v: openssl::ssl::SslVersion,
) -> Result<(), openssl::error::ErrorStack> {
    b.set_min_proto_version(Some(v))
}

/// Relies on `openssl::error::ErrorStack::get`: takes the thread's current
/// error stack; used to refuse a credential whose text holds no
/// certificate at all.
#[verifier::external_body]
fn empty_error_stack() -> openssl::error::ErrorStack {
    openssl::error::ErrorStack::get()
}

/// Relies on the constant `SslVersion::TLS1`.
#[verifier::external_body]
fn tls_version_1() -> openssl::ssl::SslVersion {
    openssl::ssl::SslVersion::TLS1
}

/// Relies on the constant `SslVersion::TLS1_2`.
#[verifier::external_body]
fn tls_version_1_2() -> openssl::ssl::SslVersion {
    openssl::ssl::SslVersion::TLS1_2
}

/// An error binding the listener to its address.
#[derive(Debug)]
pub struct PortBindError {
    pub message: String,
}

/// The addressable failures of building or rebuilding the server: the
/// credential was refused, or the address could not be bound.
#[derive(Debug)]
pub enum Error {
    Acceptor(openssl::error::ErrorStack),
    Port(PortBindError),
}

/// Owner of the live TLS listener. `active_spec` is the credential the
/// running listener presents; `None` means no listener runs.
pub struct HttpServerLifecycle {
    enforce_secure_tls: bool,
    active: Option<TLSPayload>,
}

impl HttpServerLifecycle {
    /// The credential of the running listener, as certificate and key text.
    pub closed spec fn active_spec(&self) -> Option<(Seq<char>, Seq<char>)> {
        match self.active {
            Some(p) => Some((p.certificate@, p.private_key@)),
            None => None,
        }
    }

    /// Whether only secure protocol versions are accepted.
    pub closed spec fn secure_spec(&self) -> bool {
        self.enforce_secure_tls
    }

    /// Whether a listener is running.
    pub fn is_running(&self) -> (r: bool)
        ensures
            r == (self.active_spec() is Some),
    {
        match &self.active {
            Some(_) => true,
            None => false,
        }
    }

    /// The certificate text the running listener presents, if one runs.
    pub fn active_certificate(&self) -> (r: Option<&str>)
        ensures
            match r {
                Some(c) => self.active_spec() matches Some(p) && c@ == p.0,
                None => self.active_spec() is None,
            },
    {
        match &self.active {
            Some(p) => Some(p.certificate.as_str()),
            None => None,
        }
    }

    /// Builds a TLS acceptor from a credential: the leaf certificate first,
    /// then the rest of the chain, then the private key, with the minimum
    /// protocol version gated by the strictness flag. A credential whose
    /// text holds no certificate, does not parse, or whose key does not
    /// parse is refused; the builder's own steps may also refuse — their
    /// outcome is what the caller's state transition consumes.
    pub fn cert_payload_to_acceptor(cert: &TLSPayload, secure_tls: bool) -> (r: Result<
        openssl::ssl::SslAcceptorBuilder,
        openssl::error::ErrorStack,
    >)
        ensures
            r matches Ok(_) ==> pem_cert_count(encode_utf8(cert.certificate@)) is Some
                && pem_cert_count(encode_utf8(cert.certificate@)) != Some(0 as nat)
                && rsa_pem_ok(encode_utf8(cert.private_key@)),
            pem_cert_count(encode_utf8(cert.certificate@)) is None ==> r matches Err(_),
            pem_cert_count(encode_utf8(cert.certificate@)) == Some(0 as nat) ==> r matches
                Err(_),
            !rsa_pem_ok(encode_utf8(cert.private_key@)) ==> r matches Err(_),
    {
        let mut builder = match acceptor_builder() {
            Ok(b) => b,
            Err(e) => {
                return Err(e);
            },
        };
        let full_chain = match x509_stack_from_pem(cert.certificate.as_str().as_bytes()) {
            Ok(v) => v,
            Err(e) => {
                return Err(e);
            },
        };
        let n = full_chain.len();
        if n == 0 {
            // no certificate at all: refuse the credential rather than
            // build a listener that presents nothing
            return Err(empty_error_stack());
        }
        match acceptor_set_certificate(&mut builder, &full_chain[0]) {
            Ok(_) => (),
            Err(e) => {
                return Err(e);
            },
        }
        let mut i: usize = 1;
        while i < n
            invariant
                i >= 1,
                n == full_chain@.len(),
                pem_cert_count(encode_utf8(cert.certificate@)) == Some(full_chain@.len() as nat),
            decreases n - i,
        {
            match acceptor_add_chain_cert(&mut builder, &full_chain[i]) {
                Ok(_) => (),
                Err(e) => {
                    return Err(e);
                },
            }
            i = i + 1;
        }
        let key = match load_private_key(cert.private_key.as_str().as_bytes()) {
            Ok(k) => k,
            Err(e) => {
                return Err(e);
            },
        };
        match acceptor_set_private_key(&mut builder, &key) {
            Ok(_) => (),
            Err(e) => {
                return Err(e);
            },
        }
        let version = if secure_tls {
            tls_version_1_2()
        } else {
            tls_version_1()
        };
        match acceptor_set_min_proto(&mut builder, version) {
            Ok(_) => (),
            Err(e) => {
                return Err(e);
            },
        }
        Ok(builder)
    }

    /// Decides server construction from the outcome of building the
    /// acceptor: an accepted credential always yields a running manager —
    /// success is owed — and a refused one always the credential error,
    /// never the bind error.
    pub fn from_acceptor_outcome(
        cert: &TLSPayload,
        enforce_secure_tls: bool,
        built: Result<openssl::ssl::SslAcceptorBuilder, openssl::error::ErrorStack>,
    ) -> (r: Result<(Self, openssl::ssl::SslAcceptorBuilder), Error>)
        ensures
            built is Ok <==> r matches Ok(_),
            match r {
                Ok(p) => p.0.active_spec() == Some((cert.certificate@, cert.private_key@))
                    && p.0.secure_spec() == enforce_secure_tls,
                Err(e) => e matches Error::Acceptor(_),
            },
    {
        match built {
            Ok(b) => Ok(
                (
                    HttpServerLifecycle {
                        enforce_secure_tls,
                        active: Some(
                            TLSPayload {
                                certificate: cert.certificate.clone(),
                                private_key: cert.private_key.clone(),
                            },
                        ),
                    },
                    b,
                ),
            ),
            Err(e) => Err(Error::Acceptor(e)),
        }
    }

    /// Prepares the first listener: builds the acceptor from the credential
    /// and records it as the one the listener will present. The caller
    /// binds the acceptor to the address and reports a failed bind through
    /// `bind_failed`.
    pub fn new(cert: &TLSPayload, enforce_secure_tls: bool) -> (r: Result<
        (Self, openssl::ssl::SslAcceptorBuilder),
        Error,
    >)
        ensures
            match r {
                Ok(p) => p.0.active_spec() == Some((cert.certificate@, cert.private_key@))
                    && p.0.secure_spec() == enforce_secure_tls && pem_cert_count(
                    encode_utf8(cert.certificate@),
                ) is Some && rsa_pem_ok(encode_utf8(cert.private_key@)),
                Err(e) => e matches Error::Acceptor(_),
            },
            pem_cert_count(encode_utf8(cert.certificate@)) is None ==> r matches Err(_),
            pem_cert_count(encode_utf8(cert.certificate@)) == Some(0 as nat) ==> r matches
                Err(_),
            !rsa_pem_ok(encode_utf8(cert.private_key@)) ==> r matches Err(_),
    {
        let built = Self::cert_payload_to_acceptor(cert, enforce_secure_tls);
        Self::from_acceptor_outcome(cert, enforce_secure_tls, built)
    }

    /// Decides a rotation from the outcome of building the new acceptor: a
    /// built acceptor is always accepted and recorded — success is owed —
    /// and a refused credential always ends with the credential error and
    /// no listener running.
    pub fn apply_rotation(
        &mut self,
        cert: &TLSPayload,
        built: Result<openssl::ssl::SslAcceptorBuilder, openssl::error::ErrorStack>,
    ) -> (r: Result<openssl::ssl::SslAcceptorBuilder, Error>)
        ensures
            final(self).secure_spec() == old(self).secure_spec(),
            built is Ok <==> r matches Ok(_),
            match r {
                Ok(_) => final(self).active_spec() == Some(
                    (cert.certificate@, cert.private_key@),
                ),
                Err(e) => e matches Error::Acceptor(_) && final(self).active_spec() is None,
            },
    {
        match built {
            Ok(b) => {
                self.active = Some(
                    TLSPayload {
                        certificate: cert.certificate.clone(),
                        private_key: cert.private_key.clone(),
                    },
                );
                Ok(b)
            },
            Err(e) => {
                self.active = None;
                Err(Error::Acceptor(e))
            },
        }
    }

    /// Rotation: the running listener is stopped first — forcefully, never
    /// waiting out keep-alive connections — and only then is a new acceptor
    /// built from the new credential. On success the listener to bind next
    /// presents exactly the new credential, never the prior one; on a
    /// refused credential no listener is left running, an accepted
    /// availability gap that is not silently retried.
    pub fn respawn_with_new_cert(&mut self, cert: &TLSPayload) -> (r: Result<
        openssl::ssl::SslAcceptorBuilder,
        Error,
    >)
        ensures
            final(self).secure_spec() == old(self).secure_spec(),
            match r {
                Ok(_) => final(self).active_spec() == Some(
                    (cert.certificate@, cert.private_key@),
                ) && pem_cert_count(encode_utf8(cert.certificate@)) is Some && rsa_pem_ok(
                    encode_utf8(cert.private_key@),
                ),
                Err(e) => e matches Error::Acceptor(_) && final(self).active_spec() is None,
            },
            pem_cert_count(encode_utf8(cert.certificate@)) is None ==> r matches Err(_),
            pem_cert_count(encode_utf8(cert.certificate@)) == Some(0 as nat) ==> r matches
                Err(_),
            !rsa_pem_ok(encode_utf8(cert.private_key@)) ==> r matches Err(_),
    {
        self.active = None;
        let built = Self::cert_payload_to_acceptor(cert, self.enforce_secure_tls);
        self.apply_rotation(cert, built)
    }

    /// The caller could not bind the prepared listener: no listener runs,
    /// and the bind failure is surfaced as a `Port` error.
    pub fn bind_failed(&mut self, message: String) -> (e: Error)
        ensures
            final(self).active_spec() is None,
            final(self).secure_spec() == old(self).secure_spec(),
            e matches Error::Port(_),
    {
        self.active = None;
        Error::Port(PortBindError { message })
    }

    /// Deliberate shutdown. When `graceful`, the caller's runtime waits —
    /// bounded — for in-flight requests before releasing the socket; when
    /// not, it stops at once. Either way no listener remains.
    pub fn shutdown(&mut self, graceful: bool)
        ensures
            final(self).active_spec() is None,
            final(self).secure_spec() == old(self).secure_spec(),
    {
        let _wait_for_inflight = graceful;
        self.active = None;
    }
}

} // verus!
