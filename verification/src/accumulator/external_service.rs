//! Settings of an accumulator run by an outside service, reached over HTTP,
//! and the request body a commit sends it.

use vstd::prelude::*;

use crate::types::Record;

verus! {

/// How records are encoded for the service.
#[derive(Clone, Copy, Debug, PartialEq, Eq, Structural)]
pub enum WireProtocol {
    Protobuf,
}

/// Where the service listens and what headers every request carries.
#[derive(Debug)]
pub struct HttpTransportConfig {
    pub base_url: String,
    pub headers: Vec<(String, String)>,
    pub endpoint: String,
}

/// How the service is reached.
#[derive(Debug)]
pub enum TransportConfig {
    HttpConfig(HttpTransportConfig),
}

/// The settings of an outside accumulator service.
#[derive(Debug)]
pub struct ExternalServiceConfig {
    pub transport: TransportConfig,
    pub wire_protocol: WireProtocol,
}

/// The connection to make to the service, as plain values: the endpoint to
/// post to and the headers to send.
#[derive(Debug)]
pub enum Transport {
    Http { endpoint: String, headers: Vec<(String, String)> },
}

/// Header pairs as plain values.
pub open spec fn headers_view(h: Seq<(String, String)>) -> Seq<(Seq<char>, Seq<char>)> {
    h.map_values(|p: (String, String)| (p.0@, p.1@))
}

/// Copies of header pairs.
fn copy_headers(h: &Vec<(String, String)>) -> (r: Vec<(String, String)>)
    ensures
        headers_view(r@) == headers_view(h@),
{
    let mut out: Vec<(String, String)> = Vec::new();
    let mut i: usize = 0;
    while i < h.len()
        invariant
            i <= h@.len(),
            headers_view(out@) == headers_view(h@).subrange(0, i as int),
        decreases h@.len() - i,
    {
        let ghost before = headers_view(out@);
        let p = (h[i].0.clone(), h[i].1.clone());
        let ghost pv = (p.0@, p.1@);
        out.push(p);
        assert(headers_view(out@) =~= before.push(pv));
        i += 1;
        assert(headers_view(out@) =~= headers_view(h@).subrange(0, i as int));
    }
    assert(headers_view(h@).subrange(0, i as int) =~= headers_view(h@));
    out
}

/// The concatenation of the values of `records`, in order.
pub open spec fn values_concat(records: Seq<Record>) -> Seq<u8>
    decreases records.len(),
{
    if records.len() == 0 {
        seq![]
    } else {
        values_concat(records.drop_last()) + records.last().value@
    }
}

/// An accumulator run by an outside service.
pub struct ExternalServiceAccumulator {
    pub transport: Transport,
    pub wire_protocol: WireProtocol,
    pub config: ExternalServiceConfig,
}

impl ExternalServiceAccumulator {
    /// An accumulator for the service `config` describes: requests go to the
    /// configured endpoint with the configured headers.
    pub fn new(config: ExternalServiceConfig) -> (r: Self)
        ensures
            r.wire_protocol == config.wire_protocol,
            r.config == config,
            (match (r.transport, config.transport) {
                (Transport::Http { endpoint, headers }, TransportConfig::HttpConfig(c)) => endpoint@
                    == c.endpoint@ && headers_view(headers@) == headers_view(c.headers@),
            }),
    {
        let transport = match &config.transport {
            TransportConfig::HttpConfig(http_config) => Transport::Http {
                endpoint: http_config.endpoint.clone(),
                headers: copy_headers(&http_config.headers),
            },
        };
        ExternalServiceAccumulator { transport, wire_protocol: config.wire_protocol, config }
    }

    /// The body a commit posts: the values of `records`, concatenated in order.
    pub fn payload(records: &[Record]) -> (r: Vec<u8>)
        ensures
            r@ == values_concat(records@),
    {
        let mut out: Vec<u8> = Vec::new();
        let mut i: usize = 0;
        while i < records.len()
            invariant
                i <= records@.len(),
                out@ == values_concat(records@.subrange(0, i as int)),
            decreases records@.len() - i,
        {
            let v = &records[i].value;
            let ghost before = out@;
            let mut j: usize = 0;
            while j < v.len()
                invariant
                    j <= v@.len(),
                    out@ == before + v@.subrange(0, j as int),
                decreases v@.len() - j,
            {
                out.push(v[j]);
                j += 1;
                assert(out@ =~= before + v@.subrange(0, j as int));
            }
            assert(v@.subrange(0, j as int) =~= v@);
            i += 1;
            assert(records@.subrange(0, i as int).drop_last() =~= records@.subrange(0, i - 1));
        }
        assert(records@.subrange(0, i as int) =~= records@);
        out
    }
}

/// The settings of the accumulators: those of an outside service, if one is used.
#[derive(Debug)]
pub struct AccumulatorConfig {
    pub external: Option<ExternalServiceConfig>,
}

} // verus!
