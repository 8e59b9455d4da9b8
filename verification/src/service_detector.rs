//! Best-effort service identification for one open port: fingerprint match
//! first, then interpretation of the captured banner for well-known ports,
//! then a static port table, with the winning label cached per
//! (address, port). Connecting and reading the banner are the caller's
//! work; everything from the captured bytes onward is decided here.

use vstd::prelude::*;

use std::collections::HashMap;

use crate::service_fingerprints::{
    spec_first_match, FingerprintView, ServiceFingerprint, ServiceFingerprintDB,
    spec_default_fingerprints,
};
use crate::text::{contains_seq, contains_str, matches_at, starts_with_str};

verus! {

/// How long an identification probe may take, in milliseconds.
pub const DETECT_TIMEOUT_MS: u64 = 5000;

/// How many identification probes may run at once (independent of the
/// scanner's own limiter).
pub const DETECT_CONCURRENCY: usize = 100;

/// Addresses are carried as numeric identifiers below this bound, so that a
/// cache key combining address and port fits in 64 bits. An IPv4 address's
/// 32-bit value is well inside it.
pub const ADDR_ID_BOUND: u64 = 0x1000000000000;

/// The cache key for a pair: the address identifier shifted past the port.
pub open spec fn spec_cache_key(addr: u64, port: u16) -> u64 {
    (addr * 0x10000 + port) as u64
}

/// Ports probed with an HTTP request during identification.
pub open spec fn spec_is_http_port(port: u16) -> bool {
    port == 80 || port == 443 || port == 8000 || port == 8080
}

/// What a captured banner reveals on a well-known port: an HTTP status line
/// anywhere in the response for the HTTP family, or the protocol's greeting
/// at the start of the banner for the others.
pub open spec fn spec_banner_service(port: u16, resp: Seq<char>) -> Option<Seq<char>> {
    if spec_is_http_port(port) && contains_seq(resp, "HTTP/"@) {
        Some("HTTP"@)
    } else if port == 22 && matches_at(resp, "SSH-"@, 0) {
        Some("SSH"@)
    } else if (port == 25 || port == 587) && matches_at(resp, "220"@, 0) {
        Some("SMTP"@)
    } else if port == 110 && matches_at(resp, "+OK"@, 0) {
        Some("POP3"@)
    } else if port == 143 && matches_at(resp, "* OK"@, 0) {
        Some("IMAP"@)
    } else {
        None
    }
}

/// The static port-to-name fallback table.
pub open spec fn spec_port_service(port: u16) -> Option<Seq<char>> {
    if port == 80 || port == 443 || port == 8080 {
        Some("HTTP"@)
    } else if port == 21 {
        Some("FTP"@)
    } else if port == 22 {
        Some("SSH"@)
    } else if port == 23 {
        Some("Telnet"@)
    } else if port == 25 || port == 587 {
        Some("SMTP"@)
    } else if port == 53 {
        Some("DNS"@)
    } else if port == 110 {
        Some("POP3"@)
    } else if port == 143 {
        Some("IMAP"@)
    } else if port == 445 {
        Some("SMB"@)
    } else if port == 3306 {
        Some("MySQL"@)
    } else if port == 3389 {
        Some("RDP"@)
    } else if port == 5432 {
        Some("PostgreSQL"@)
    } else if port == 6379 {
        Some("Redis"@)
    } else if port == 27017 {
        Some("MongoDB"@)
    } else {
        None
    }
}

/// The label a matched fingerprint yields: its name, with the protocol as a
/// suffix when the match is strong (weight above 0.8).
pub open spec fn spec_fp_label(fp: FingerprintView) -> Seq<char> {
    if fp.weight > 80 {
        fp.name + "/"@ + fp.protocol
    } else {
        fp.name
    }
}

/// The whole per-port pipeline over a captured response (`None` when the
/// identification probe got nothing): fingerprints first, then banner
/// interpretation, then the port table; the first tier to answer wins.
pub open spec fn spec_resolve(
    db: Seq<FingerprintView>,
    port: u16,
    resp: Option<Seq<char>>,
) -> Option<Seq<char>> {
    let tier1 = match resp {
        Some(r) => match spec_first_match(db, port, r) {
            Some(fp) => Some(spec_fp_label(fp)),
            None => None,
        },
        None => None,
    };
    match tier1 {
        Some(l) => Some(l),
        None => {
            let tier2 = match resp {
                Some(r) => spec_banner_service(port, r),
                None => None,
            };
            match tier2 {
                Some(l) => Some(l),
                None => spec_port_service(port),
            }
        }
    }
}

/// The view of an optional owned label.
pub open spec fn opt_label_view(r: Option<String>) -> Option<Seq<char>> {
    match r {
        Some(s) => Some(s@),
        None => None,
    }
}

/// The view of an optional captured response.
pub open spec fn opt_resp_view(r: Option<&str>) -> Option<Seq<char>> {
    match r {
        Some(s) => Some(s@),
        None => None,
    }
}

/// What a captured banner reveals on a well-known port (tier two of the
/// pipeline).
pub fn banner_service(port: u16, resp: &str) -> (r: Option<String>)
    ensures
        opt_label_view(r) == spec_banner_service(port, resp@),
{
    if (port == 80 || port == 443 || port == 8000 || port == 8080) && contains_str(resp, "HTTP/") {
        Some(String::from_str("HTTP"))
    } else if port == 22 && starts_with_str(resp, "SSH-") {
        Some(String::from_str("SSH"))
    } else if (port == 25 || port == 587) && starts_with_str(resp, "220") {
        Some(String::from_str("SMTP"))
    } else if port == 110 && starts_with_str(resp, "+OK") {
        Some(String::from_str("POP3"))
    } else if port == 143 && starts_with_str(resp, "* OK") {
        Some(String::from_str("IMAP"))
    } else {
        None
    }
}

/// The static port-to-name fallback (tier three of the pipeline).
pub fn default_service_name(port: u16) -> (r: Option<String>)
    ensures
        opt_label_view(r) == spec_port_service(port),
{
    if port == 80 || port == 443 || port == 8080 {
        Some(String::from_str("HTTP"))
    } else if port == 21 {
        Some(String::from_str("FTP"))
    } else if port == 22 {
        Some(String::from_str("SSH"))
    } else if port == 23 {
        Some(String::from_str("Telnet"))
    } else if port == 25 || port == 587 {
        Some(String::from_str("SMTP"))
    } else if port == 53 {
        Some(String::from_str("DNS"))
    } else if port == 110 {
        Some(String::from_str("POP3"))
    } else if port == 143 {
        Some(String::from_str("IMAP"))
    } else if port == 445 {
        Some(String::from_str("SMB"))
    } else if port == 3306 {
        Some(String::from_str("MySQL"))
    } else if port == 3389 {
        Some(String::from_str("RDP"))
    } else if port == 5432 {
        Some(String::from_str("PostgreSQL"))
    } else if port == 6379 {
        Some(String::from_str("Redis"))
    } else if port == 27017 {
        Some(String::from_str("MongoDB"))
    } else {
        None
    }
}

/// The label a matched fingerprint yields (tier one of the pipeline).
pub fn fp_label(fp: &ServiceFingerprint) -> (r: String)
    ensures
        r@ == spec_fp_label(fp@),
{
    if fp.weight > 80 {
        fp.name.clone().concat("/").concat(fp.protocol.as_str())
    } else {
        fp.name.clone()
    }
}

/// Orchestrates per-port identification over a fingerprint table and caches
/// each pair's resolved label. Shared (behind the caller's lock) by the
/// concurrent identification tasks of a scan.
pub struct ServiceDetector {
    db: ServiceFingerprintDB,
    cache: HashMap<u64, String>,
}

impl ServiceDetector {
    /// The fingerprint table the detector consults.
    pub closed spec fn spec_db(&self) -> Seq<FingerprintView> {
        self.db@
    }

    /// The cache as a map from combined key to resolved label.
    pub closed spec fn spec_cache(&self) -> Map<u64, Seq<char>> {
        Map::new(
            |k: u64| self.cache@.contains_key(k),
            |k: u64| self.cache@[k]@,
        )
    }

    /// The label cached for a pair, if any.
    pub open spec fn cached_label(&self, addr: u64, port: u16) -> Option<Seq<char>> {
        if self.spec_cache().contains_key(spec_cache_key(addr, port)) {
            Some(self.spec_cache()[spec_cache_key(addr, port)])
        } else {
            None
        }
    }

    /// The fingerprint table's invariant holds.
    pub closed spec fn wf(&self) -> bool {
        self.db.wf()
    }

    /// A detector over the built-in default fingerprints, with an empty
    /// cache.
    pub fn new() -> (r: Self)
        ensures
            r.wf(),
            r.spec_db() =~= spec_default_fingerprints(),
            r.spec_cache() =~= Map::<u64, Seq<char>>::empty(),
    {
        let r = ServiceDetector { db: ServiceFingerprintDB::new(), cache: HashMap::new() };
        proof {
            assert(r.spec_cache() =~= Map::<u64, Seq<char>>::empty());
        }
        r
    }

    /// A detector over a caller-supplied fingerprint table.
    pub fn with_db(db: ServiceFingerprintDB) -> (r: Self)
        requires
            db.wf(),
        ensures
            r.wf(),
            r.spec_db() == db@,
            r.spec_cache() =~= Map::<u64, Seq<char>>::empty(),
    {
        let r = ServiceDetector { db, cache: HashMap::new() };
        proof {
            assert(r.spec_cache() =~= Map::<u64, Seq<char>>::empty());
        }
        r
    }

    /// The label already resolved for this pair, if there is one. A caller
    /// that gets `Some` here needs no identification probe at all.
    pub fn cached(&self, addr: u64, port: u16) -> (r: Option<String>)
        requires
            addr < ADDR_ID_BOUND,
        ensures
            opt_label_view(r) == self.cached_label(addr, port),
    {
        let key: u64 = addr * 0x10000 + (port as u64);
        match self.cache.get(&key) {
            Some(s) => Some(s.clone()),
            None => None,
        }
    }

    /// Resolve a pair from a captured identification response (`None` when
    /// the probe could not connect or read). A pair resolved earlier is
    /// answered from the cache — the same label every time, whatever
    /// `response` holds now; otherwise the pipeline of `spec_resolve` runs
    /// and a winning label is cached before it is returned. A pair that no
    /// tier can name stays uncached and yields `None`.
    pub fn detect_from_response(
        &mut self,
        addr: u64,
        port: u16,
        response: Option<&str>,
    ) -> (r: Option<String>)
        requires
            old(self).wf(),
            addr < ADDR_ID_BOUND,
        ensures
            final(self).wf(),
            final(self).spec_db() == old(self).spec_db(),
            old(self).cached_label(addr, port) is Some ==> {
                &&& opt_label_view(r) == old(self).cached_label(addr, port)
                &&& final(self).spec_cache() == old(self).spec_cache()
            },
            old(self).cached_label(addr, port) is None ==> opt_label_view(r) == spec_resolve(
                old(self).spec_db(),
                port,
                opt_resp_view(response),
            ),
            old(self).cached_label(addr, port) is None && r is Some ==> final(self).spec_cache()
                =~= old(self).spec_cache().insert(
                spec_cache_key(addr, port),
                opt_label_view(r)->Some_0,
            ),
            r is None ==> final(self).spec_cache() == old(self).spec_cache(),
    {
        let key: u64 = addr * 0x10000 + (port as u64);
        let cached = match self.cache.get(&key) {
            Some(s) => Some(s.clone()),
            None => None,
        };
        if let Some(l) = cached {
            return Some(l);
        }
        let tier1 = match response {
            Some(resp) => match self.db.match_response(port, resp) {
                Some(fp) => Some(fp_label(&fp)),
                None => None,
            },
            None => None,
        };
        let tier12 = match tier1 {
            Some(l) => Some(l),
            None => match response {
                Some(resp) => banner_service(port, resp),
                None => None,
            },
        };
        let label = match tier12 {
            Some(l) => Some(l),
            None => default_service_name(port),
        };
        match label {
            Some(l) => {
                self.cache.insert(key, l.clone());
                proof {
                    assert(self.spec_cache() =~= old(self).spec_cache().insert(key, l@));
                }
                Some(l)
            }
            None => {
                proof {
                    assert(self.spec_cache() =~= old(self).spec_cache());
                }
                None
            }
        }
    }
}

} // verus!
