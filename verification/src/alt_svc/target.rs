//! The HTTP/3 alternative that one request uses.

use vstd::prelude::*;
use crate::alt_svc::store::{location_authority, own_location, AltSvcLocation, AltSvcSelection};
use crate::endpoint::Endpoint;
use crate::error::{Http3ConnectorErrorKind, RequestError, RequestErrorKind};
use crate::timeout::TimeoutPhase;

verus! {

/// Where an alternative came from.
#[derive(Debug)]
pub enum AlternativeSource {
    /// A stored advertisement, named on the wire by `Alt-Used`.
    AltSvc { alt_used: String, generation: u64 },
    /// An HTTPS DNS record for the origin's own location.
    HttpsRecord,
}

/// An HTTP/3 alternative selected for one negotiated request.
#[derive(Debug)]
pub struct AlternativeTarget {
    pub location: AltSvcLocation,
    pub source: AlternativeSource,
    pub broken: bool,
    pub origin_quic_recently_broken: bool,
}

impl AlternativeTarget {
    /// The stored alternative that a request selected.
    pub fn new(selection: &AltSvcSelection) -> (r: Self)
        ensures
            r.location@ == selection@.location,
            r.source matches AlternativeSource::AltSvc { alt_used, generation } && alt_used@
                == location_authority(selection@.location) && generation == selection@.generation,
            r.broken == selection@.broken,
            r.origin_quic_recently_broken == selection@.origin_quic_recently_broken,
    {
        AlternativeTarget {
            location: selection.location.clone(),
            source: AlternativeSource::AltSvc {
                alt_used: selection.location.authority(),
                generation: selection.generation,
            },
            broken: selection.broken,
            origin_quic_recently_broken: selection.origin_quic_recently_broken,
        }
    }

    /// The origin's own location, as an HTTPS record advertising `h3` names
    /// it.
    pub fn https_record(
        origin: &Endpoint,
        broken: bool,
        origin_quic_recently_broken: bool,
    ) -> (r: Self)
        ensures
            r.location@ == own_location(origin),
            r.source is HttpsRecord,
            r.broken == broken,
            r.origin_quic_recently_broken == origin_quic_recently_broken,
    {
        AlternativeTarget {
            location: AltSvcLocation::origin(origin),
            source: AlternativeSource::HttpsRecord,
            broken,
            origin_quic_recently_broken,
        }
    }

    /// Returns the canonical `Alt-Used` authority with an explicit port, for
    /// a stored alternative only.
    ///
    /// An HTTPS record leads to the origin's own location, so no `Alt-Used`
    /// is sent.
    pub fn alt_used(&self) -> (r: Option<&String>)
        ensures
            match self.source {
                AlternativeSource::AltSvc { alt_used, .. } => r matches Some(text) && text@
                    == alt_used@,
                AlternativeSource::HttpsRecord => r is None,
            },
    {
        match &self.source {
            AlternativeSource::AltSvc { alt_used, .. } => Some(alt_used),
            AlternativeSource::HttpsRecord => None,
        }
    }

    /// Returns the store generation of a stored alternative.
    pub fn generation(&self) -> (r: Option<u64>)
        ensures
            r == (match self.source {
                AlternativeSource::AltSvc { generation, .. } => Some(generation),
                AlternativeSource::HttpsRecord => None,
            }),
    {
        match &self.source {
            AlternativeSource::AltSvc { generation, .. } => Some(*generation),
            AlternativeSource::HttpsRecord => None,
        }
    }

    /// Returns this alternative with early data disallowed, after QUIC to
    /// the origin failed a handshake that had sent early data.
    pub fn without_early_data(self) -> (r: Self)
        ensures
            r == (AlternativeTarget { origin_quic_recently_broken: true, ..self }),
    {
        AlternativeTarget { origin_quic_recently_broken: true, ..self }
    }

    /// Returns whether a raced setup to this alternative may offer early
    /// (0-RTT) data: not when QUIC to the origin's own host and port failed
    /// and was not confirmed since.
    pub fn allows_early_data(&self) -> (r: bool)
        ensures
            r == !self.origin_quic_recently_broken,
    {
        !self.origin_quic_recently_broken
    }
}

/// Whether a failed attempt on an alternative invalidates the advertisement
/// it used: the alternative could not be reached or did not answer as HTTP/3.
pub open spec fn invalidates(error: RequestError) -> bool {
    match error.kind {
        RequestErrorKind::Resolve => true,
        RequestErrorKind::Connect => true,
        RequestErrorKind::Tls => true,
        RequestErrorKind::Timeout => error.phase == Some(TimeoutPhase::Connect) || error.phase
            == Some(TimeoutPhase::ResponseHead),
        RequestErrorKind::Http3 => error.http3 matches Some(kind) && (kind
            == Http3ConnectorErrorKind::Endpoint || kind == Http3ConnectorErrorKind::Connect || kind
            == Http3ConnectorErrorKind::Connection || kind == Http3ConnectorErrorKind::Handshake
            || kind == Http3ConnectorErrorKind::Protocol),
        _ => false,
    }
}

/// Returns whether a failed alternative-service attempt invalidates the
/// advertisement it used.
pub fn invalidates_alternative(error: &RequestError) -> (r: bool)
    ensures
        r == invalidates(*error),
{
    match error.kind {
        RequestErrorKind::Resolve | RequestErrorKind::Connect | RequestErrorKind::Tls => true,
        RequestErrorKind::Timeout => match error.phase {
            Some(TimeoutPhase::Connect) | Some(TimeoutPhase::ResponseHead) => true,
            _ => false,
        },
        RequestErrorKind::Http3 => match error.http3 {
            Some(Http3ConnectorErrorKind::Endpoint)
            | Some(Http3ConnectorErrorKind::Connect)
            | Some(Http3ConnectorErrorKind::Connection)
            | Some(Http3ConnectorErrorKind::Handshake)
            | Some(Http3ConnectorErrorKind::Protocol) => true,
            _ => false,
        },
        _ => false,
    }
}

} // verus!
