//! The service-fingerprint table: named patterns registered per port, tried
//! in registration order against a captured response, first match wins.
//! Patterns are compiled once when a fingerprint is added and reused for
//! every lookup.

use vstd::prelude::*;

use crate::pattern::{pattern_compiles, regex_match, CompiledPattern};

verus! {

/// A named (pattern, protocol, confidence weight) record used to recognize
/// a service from its network response.
pub struct ServiceFingerprint {
    pub name: String,
    pub protocol: String,
    pub port: u16,
    pub banner_pattern: Option<String>,
    pub response_pattern: Option<String>,
    /// Confidence weight in hundredths: 0 to 100 stands for 0.0 to 1.0.
    pub weight: u32,
    pub description: Option<String>,
    pub version_pattern: Option<String>,
    pub vendor: Option<String>,
    /// Common Platform Enumeration name.
    pub cpe: Option<String>,
}

/// The mathematical content of a fingerprint: every text field as a
/// character sequence.
pub struct FingerprintView {
    pub name: Seq<char>,
    pub protocol: Seq<char>,
    pub port: u16,
    pub banner_pattern: Option<Seq<char>>,
    pub response_pattern: Option<Seq<char>>,
    pub weight: u32,
    pub description: Option<Seq<char>>,
    pub version_pattern: Option<Seq<char>>,
    pub vendor: Option<Seq<char>>,
    pub cpe: Option<Seq<char>>,
}

/// The view of an optional string.
pub open spec fn opt_view(o: Option<String>) -> Option<Seq<char>> {
    match o {
        Some(s) => Some(s@),
        None => None,
    }
}

impl View for ServiceFingerprint {
    type V = FingerprintView;

    open spec fn view(&self) -> FingerprintView {
        FingerprintView {
            name: self.name@,
            protocol: self.protocol@,
            port: self.port,
            banner_pattern: opt_view(self.banner_pattern),
            response_pattern: opt_view(self.response_pattern),
            weight: self.weight,
            description: opt_view(self.description),
            version_pattern: opt_view(self.version_pattern),
            vendor: opt_view(self.vendor),
            cpe: opt_view(self.cpe),
        }
    }
}

fn clone_opt_string(o: &Option<String>) -> (r: Option<String>)
    ensures
        opt_view(r) == opt_view(*o),
{
    match o {
        Some(s) => Some(s.clone()),
        None => None,
    }
}

impl ServiceFingerprint {
    /// A copy with the same contents.
    pub fn duplicate(&self) -> (r: Self)
        ensures
            r@ == self@,
    {
        ServiceFingerprint {
            name: self.name.clone(),
            protocol: self.protocol.clone(),
            port: self.port,
            banner_pattern: clone_opt_string(&self.banner_pattern),
            response_pattern: clone_opt_string(&self.response_pattern),
            weight: self.weight,
            description: clone_opt_string(&self.description),
            version_pattern: clone_opt_string(&self.version_pattern),
            vendor: clone_opt_string(&self.vendor),
            cpe: clone_opt_string(&self.cpe),
        }
    }
}

/// An external source of fingerprint definitions, handed in already parsed.
pub struct FingerprintConfig {
    pub fingerprints: Vec<ServiceFingerprint>,
}

/// A fingerprint together with its patterns compiled once at registration.
struct FingerprintEntry {
    fp: ServiceFingerprint,
    banner: Option<CompiledPattern>,
    response: Option<CompiledPattern>,
}

/// The compiled field is exactly the compilation of the source pattern:
/// absent when the source is absent or does not compile, and compiled from
/// the same text otherwise.
spec fn compiled_ok(c: Option<CompiledPattern>, src: Option<Seq<char>>) -> bool {
    match src {
        None => c is None,
        Some(p) => if pattern_compiles(p) {
            c matches Some(cp) && cp.spec_pattern() == p
        } else {
            c is None
        },
    }
}

spec fn entry_wf(e: FingerprintEntry) -> bool {
    &&& compiled_ok(e.banner, opt_view(e.fp.banner_pattern))
    &&& compiled_ok(e.response, opt_view(e.fp.response_pattern))
    &&& e.fp.weight <= 100
}

/// An optional pattern matches a response when it is present, compiles, and
/// its regular expression matches somewhere in the response.
pub open spec fn pat_matches(p: Option<Seq<char>>, resp: Seq<char>) -> bool {
    match p {
        Some(pat) => pattern_compiles(pat) && regex_match(pat, resp),
        None => false,
    }
}

/// A fingerprint matches a response when its banner pattern or its response
/// pattern does.
pub open spec fn fp_matches(fp: FingerprintView, resp: Seq<char>) -> bool {
    pat_matches(fp.banner_pattern, resp) || pat_matches(fp.response_pattern, resp)
}

/// The first fingerprint registered under `port` that matches `resp`, in
/// registration order.
pub open spec fn spec_first_match(
    fps: Seq<FingerprintView>,
    port: u16,
    resp: Seq<char>,
) -> Option<FingerprintView>
    decreases fps.len(),
{
    if fps.len() == 0 {
        None
    } else if fps[0].port == port && fp_matches(fps[0], resp) {
        Some(fps[0])
    } else {
        spec_first_match(fps.drop_first(), port, resp)
    }
}

/// The fingerprints registered under `port`, in registration order.
pub open spec fn spec_fps_at_port(fps: Seq<FingerprintView>, port: u16) -> Seq<FingerprintView>
    decreases fps.len(),
{
    if fps.len() == 0 {
        Seq::empty()
    } else {
        let rest = spec_fps_at_port(fps.drop_last(), port);
        if fps.last().port == port {
            rest.push(fps.last())
        } else {
            rest
        }
    }
}

/// The views of a sequence of fingerprints.
pub open spec fn fps_view(fps: Seq<ServiceFingerprint>) -> Seq<FingerprintView> {
    Seq::new(fps.len(), |i: int| fps[i]@)
}

/// The view of an optional fingerprint.
pub open spec fn opt_fp_view(r: Option<ServiceFingerprint>) -> Option<FingerprintView> {
    match r {
        Some(fp) => Some(fp@),
        None => None,
    }
}

/// The built-in fingerprint set used when no external source is given:
/// HTTP on 80, MySQL on 3306, and SSH on 22.
pub open spec fn spec_default_fingerprints() -> Seq<FingerprintView> {
    seq![
        FingerprintView {
            name: "HTTP"@,
            protocol: "TCP"@,
            port: 80,
            banner_pattern: Some("HTTP/\\d\\.\\d"@),
            response_pattern: Some("Server: (.*)"@),
            weight: 100,
            description: Some("Hypertext Transfer Protocol"@),
            version_pattern: Some("HTTP/(\\d\\.\\d)"@),
            vendor: None,
            cpe: Some("cpe:/a:http:http_server"@),
        },
        FingerprintView {
            name: "MySQL"@,
            protocol: "TCP"@,
            port: 3306,
            banner_pattern: Some("mysql_native_password"@),
            response_pattern: Some("(\\d+\\.\\d+\\.\\d+)-MySQL"@),
            weight: 90,
            description: Some("MySQL Database Server"@),
            version_pattern: Some("(\\d+\\.\\d+\\.\\d+)-MySQL"@),
            vendor: Some("Oracle"@),
            cpe: Some("cpe:/a:mysql:mysql"@),
        },
        FingerprintView {
            name: "SSH"@,
            protocol: "TCP"@,
            port: 22,
            banner_pattern: Some("SSH-\\d\\.\\d"@),
            response_pattern: None,
            weight: 95,
            description: Some("Secure Shell"@),
            version_pattern: Some("SSH-(\\d\\.\\d)"@),
            vendor: None,
            cpe: Some("cpe:/a:openssh:openssh"@),
        },
    ]
}

/// An in-memory table of service fingerprints with precompiled patterns.
/// Loaded once at construction (from a built-in default set or an external
/// configuration) and read-only thereafter.
pub struct ServiceFingerprintDB {
    entries: Vec<FingerprintEntry>,
}

impl View for ServiceFingerprintDB {
    type V = Seq<FingerprintView>;

    closed spec fn view(&self) -> Seq<FingerprintView> {
        Seq::new(self.entries@.len(), |i: int| self.entries@[i].fp@)
    }
}

impl ServiceFingerprintDB {
    /// Every entry's compiled patterns mirror its source patterns, and every
    /// weight is within scale.
    pub closed spec fn wf(&self) -> bool {
        forall|i: int| 0 <= i < self.entries@.len() ==> entry_wf(#[trigger] self.entries@[i])
    }

    fn empty() -> (r: Self)
        ensures
            r.wf(),
            r@ =~= Seq::<FingerprintView>::empty(),
    {
        ServiceFingerprintDB { entries: Vec::new() }
    }

    /// The database with the built-in default fingerprints.
    pub fn new() -> (r: Self)
        ensures
            r.wf(),
            r@ =~= spec_default_fingerprints(),
    {
        let mut db = Self::empty();
        db.add_fingerprint(
            ServiceFingerprint {
                name: String::from_str("HTTP"),
                protocol: String::from_str("TCP"),
                port: 80,
                banner_pattern: Some(String::from_str("HTTP/\\d\\.\\d")),
                response_pattern: Some(String::from_str("Server: (.*)")),
                weight: 100,
                description: Some(String::from_str("Hypertext Transfer Protocol")),
                version_pattern: Some(String::from_str("HTTP/(\\d\\.\\d)")),
                vendor: None,
                cpe: Some(String::from_str("cpe:/a:http:http_server")),
            },
        );
        db.add_fingerprint(
            ServiceFingerprint {
                name: String::from_str("MySQL"),
                protocol: String::from_str("TCP"),
                port: 3306,
                banner_pattern: Some(String::from_str("mysql_native_password")),
                response_pattern: Some(String::from_str("(\\d+\\.\\d+\\.\\d+)-MySQL")),
                weight: 90,
                description: Some(String::from_str("MySQL Database Server")),
                version_pattern: Some(String::from_str("(\\d+\\.\\d+\\.\\d+)-MySQL")),
                vendor: Some(String::from_str("Oracle")),
                cpe: Some(String::from_str("cpe:/a:mysql:mysql")),
            },
        );
        db.add_fingerprint(
            ServiceFingerprint {
                name: String::from_str("SSH"),
                protocol: String::from_str("TCP"),
                port: 22,
                banner_pattern: Some(String::from_str("SSH-\\d\\.\\d")),
                response_pattern: None,
                weight: 95,
                description: Some(String::from_str("Secure Shell")),
                version_pattern: Some(String::from_str("SSH-(\\d\\.\\d)")),
                vendor: None,
                cpe: Some(String::from_str("cpe:/a:openssh:openssh")),
            },
        );
        proof {
            assert(db@ =~= spec_default_fingerprints());
        }
        db
    }

    /// The database built from an external configuration source instead of
    /// the defaults, keeping the source's order.
    pub fn from_config(config: FingerprintConfig) -> (r: Self)
        requires
            forall|i: int|
                0 <= i < config.fingerprints@.len() ==> (#[trigger] config.fingerprints@[i]).weight
                    <= 100,
        ensures
            r.wf(),
            r@ =~= fps_view(config.fingerprints@),
    {
        let mut db = Self::empty();
        let mut fps = config.fingerprints;
        let ghost all = fps@;
        let mut i: usize = 0;
        let n = fps.len();
        while i < n
            invariant
                i <= n,
                n == all.len(),
                fps@ =~= all.skip(i as int),
                forall|k: int| 0 <= k < all.len() ==> (#[trigger] all[k]).weight <= 100,
                db.wf(),
                db@ =~= fps_view(all.take(i as int)),
            decreases n - i,
        {
            let fp = fps.remove(0);
            proof {
                assert(fp == all[i as int]);
                assert(fps@ =~= all.skip(i as int + 1));
            }
            db.add_fingerprint(fp);
            proof {
                assert(db@ =~= fps_view(all.take(i as int + 1)));
            }
            i += 1;
        }
        proof {
            assert(all.take(n as int) =~= all);
        }
        db
    }

    /// Register one fingerprint, compiling its patterns once; it is tried
    /// after everything registered before it.
    pub fn add_fingerprint(&mut self, fp: ServiceFingerprint)
        requires
            old(self).wf(),
            fp.weight <= 100,
        ensures
            final(self).wf(),
            final(self)@ =~= old(self)@.push(fp@),
    {
        let banner = compile_opt(&fp.banner_pattern);
        let response = compile_opt(&fp.response_pattern);
        let ghost fpv = fp@;
        self.entries.push(FingerprintEntry { fp, banner, response });
        proof {
            assert(self@ =~= old(self)@.push(fpv));
            assert forall|i: int| 0 <= i < self.entries@.len() implies entry_wf(
                #[trigger] self.entries@[i],
            ) by {
                if i < self.entries@.len() - 1 {
                    assert(self.entries@[i] == old(self).entries@[i]);
                    assert(entry_wf(old(self).entries@[i]));
                }
            }
        }
    }

    /// The first fingerprint registered under `port` whose banner pattern or
    /// response pattern matches the captured response text.
    pub fn match_response(&self, port: u16, response: &str) -> (r: Option<ServiceFingerprint>)
        requires
            self.wf(),
        ensures
            opt_fp_view(r) == spec_first_match(self@, port, response@),
    {
        let n = self.entries.len();
        proof {
            assert(self@.skip(0) =~= self@);
        }
        let mut i: usize = 0;
        while i < n
            invariant
                i <= n,
                n == self.entries@.len(),
                self.wf(),
                self@.len() == n,
                spec_first_match(self@, port, response@) == spec_first_match(
                    self@.skip(i as int),
                    port,
                    response@,
                ),
            decreases n - i,
        {
            let e = &self.entries[i];
            proof {
                assert(self@.skip(i as int)[0] == self@[i as int]);
                assert(self@[i as int] == self.entries@[i as int].fp@);
                assert(entry_wf(self.entries@[i as int]));
            }
            if e.fp.port == port {
                let banner_hit = match &e.banner {
                    Some(cp) => cp.is_match(response),
                    None => false,
                };
                let hit = if banner_hit {
                    true
                } else {
                    match &e.response {
                        Some(cp) => cp.is_match(response),
                        None => false,
                    }
                };
                if hit {
                    proof {
                        assert(fp_matches(self@[i as int], response@));
                    }
                    return Some(e.fp.duplicate());
                }
                proof {
                    assert(!fp_matches(self@[i as int], response@));
                }
            }
            proof {
                assert(self@.skip(i as int).drop_first() =~= self@.skip(i as int + 1));
            }
            i += 1;
        }
        proof {
            assert(self@.skip(n as int) =~= Seq::<FingerprintView>::empty());
        }
        None
    }

    /// The fingerprints registered under `port`, in registration order.
    pub fn get_fingerprints_by_port(&self, port: u16) -> (r: Vec<ServiceFingerprint>)
        ensures
            fps_view(r@) =~= spec_fps_at_port(self@, port),
    {
        let n = self.entries.len();
        let mut out: Vec<ServiceFingerprint> = Vec::new();
        proof {
            assert(fps_view(out@) =~= spec_fps_at_port(self@.take(0), port));
        }
        let mut i: usize = 0;
        while i < n
            invariant
                i <= n,
                n == self.entries@.len(),
                self@.len() == n,
                fps_view(out@) =~= spec_fps_at_port(self@.take(i as int), port),
            decreases n - i,
        {
            proof {
                assert(self@.take(i as int + 1).drop_last() =~= self@.take(i as int));
                assert(self@.take(i as int + 1).last() == self@[i as int]);
                assert(self@[i as int] == self.entries@[i as int].fp@);
            }
            let e = &self.entries[i];
            if e.fp.port == port {
                out.push(e.fp.duplicate());
            }
            proof {
                assert(fps_view(out@) =~= spec_fps_at_port(self@.take(i as int + 1), port));
            }
            i += 1;
        }
        proof {
            assert(self@.take(n as int) =~= self@);
        }
        out
    }

    /// Every registered fingerprint, in registration order.
    pub fn get_all_fingerprints(&self) -> (r: Vec<ServiceFingerprint>)
        ensures
            fps_view(r@) =~= self@,
    {
        let n = self.entries.len();
        let mut out: Vec<ServiceFingerprint> = Vec::new();
        let mut i: usize = 0;
        while i < n
            invariant
                i <= n,
                n == self.entries@.len(),
                self@.len() == n,
                out@.len() == i,
                forall|k: int| 0 <= k < i ==> fps_view(out@)[k] == self@[k],
            decreases n - i,
        {
            proof {
                assert(self@[i as int] == self.entries@[i as int].fp@);
            }
            let e = &self.entries[i];
            out.push(e.fp.duplicate());
            i += 1;
        }
        proof {
            assert(fps_view(out@) =~= self@);
        }
        out
    }
}

fn compile_opt(o: &Option<String>) -> (r: Option<CompiledPattern>)
    ensures
        compiled_ok(r, opt_view(*o)),
{
    match o {
        Some(p) => CompiledPattern::compile(p.as_str()),
        None => None,
    }
}

} // verus!
