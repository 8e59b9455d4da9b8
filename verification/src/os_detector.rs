//! Operating-system estimation from three independent heuristics: HTTP
//! response headers, sampled TCP time-to-live values, and the presence of
//! telltale services. Each heuristic is a pure classifier over what the
//! caller's probes observed, and a max-confidence merge combines them.

use vstd::prelude::*;

use crate::text::{
    contains_seq, contains_str, contains_string, extract_version_str, header_value,
    opt_string_view, seq_contains_string, spec_digits, spec_header_value, spec_version_of,
    u64_to_string,
};

verus! {

/// A best-guess operating-system estimate: a family name, an optional
/// version, a confidence score, and the evidence that produced it.
pub struct OSInfo {
    pub name: String,
    pub version: Option<String>,
    /// Confidence in hundredths: 0 to 100 stands for 0.0 to 1.0.
    pub confidence: u32,
    pub features: Vec<String>,
}

/// The mathematical content of an estimate.
#[verifier::ext_equal]
pub struct OSInfoView {
    pub name: Seq<char>,
    pub version: Option<Seq<char>>,
    pub confidence: u32,
    pub features: Seq<Seq<char>>,
}

impl View for OSInfo {
    type V = OSInfoView;

    open spec fn view(&self) -> OSInfoView {
        OSInfoView {
            name: self.name@,
            version: opt_string_view(self.version),
            confidence: self.confidence,
            features: self.features.deep_view(),
        }
    }
}

/// The estimate meaning "no evidence": unknown name, zero confidence.
pub open spec fn spec_unknown_os() -> OSInfoView {
    OSInfoView { name: "Unknown"@, version: None, confidence: 0, features: Seq::empty() }
}

/// An estimate with no evidence at all, the valid outcome for a target that
/// answers nothing.
pub fn unknown_os() -> (r: OSInfo)
    ensures
        r@ =~= spec_unknown_os(),
{
    let r = OSInfo {
        name: String::from_str("Unknown"),
        version: None,
        confidence: 0,
        features: Vec::new(),
    };
    r
}

impl OSInfo {
    /// A copy with the same contents.
    pub fn duplicate(&self) -> (r: Self)
        ensures
            r@ =~= self@,
    {
        let mut features: Vec<String> = Vec::new();
        let n = self.features.len();
        let mut i: usize = 0;
        while i < n
            invariant
                i <= n,
                n == self.features@.len(),
                features@.len() == i,
                forall|k: int| 0 <= k < i ==> (#[trigger] features@[k])@ == self.features@[k]@,
            decreases n - i,
        {
            features.push(self.features[i].clone());
            i += 1;
        }
        proof {
            assert forall|k: int| 0 <= k < n implies features.deep_view()[k] == self
                .features
                .deep_view()[k] by {
                assert(features.deep_view()[k] == features@[k]@);
                assert(self.features.deep_view()[k] == self.features@[k]@);
            }
        }
        let r = OSInfo {
            name: self.name.clone(),
            version: match &self.version {
                Some(v) => Some(v.clone()),
                None => None,
            },
            confidence: self.confidence,
            features,
        };
        proof {
            assert(r.features.deep_view() =~= self.features.deep_view());
        }
        r
    }
}

/// What a `Server:` header value says about the host: the family and the
/// base confidence (in hundredths) the token is given.
pub open spec fn spec_server_class(s: Seq<char>) -> (Seq<char>, u32) {
    if contains_seq(s, "Apache"@) {
        ("Linux/Unix"@, 80)
    } else if contains_seq(s, "Microsoft-IIS"@) {
        ("Windows"@, 90)
    } else if contains_seq(s, "nginx"@) {
        ("Linux/Unix"@, 85)
    } else {
        ("Unknown"@, 0)
    }
}

/// The extra confidence an `X-Powered-By:` header value contributes.
pub open spec fn spec_powered_bonus(p: Seq<char>) -> u32 {
    if contains_seq(p, "PHP"@) {
        5
    } else if contains_seq(p, "ASP.NET"@) {
        10
    } else {
        0
    }
}

/// Confidence never leaves the scale: anything above 1.0 is reported as 1.0.
pub open spec fn spec_cap_confidence(c: int) -> u32 {
    if c > 100 {
        100
    } else {
        c as u32
    }
}

/// The HTTP heuristic over the two header values it reads. The server token
/// fixes the family and base confidence; an extractable version in a
/// recognized token adds a tenth; a powered-by hint adds its bonus. The
/// heuristic answers only when some confidence was gathered.
pub open spec fn spec_classify_headers(
    server: Option<Seq<char>>,
    powered: Option<Seq<char>>,
) -> Option<OSInfoView> {
    let feats0: Seq<Seq<char>> = match server {
        Some(s) => seq!["Server: "@ + s],
        None => Seq::empty(),
    };
    let feats = match powered {
        Some(p) => feats0.push("Powered by: "@ + p),
        None => feats0,
    };
    let (name, base) = match server {
        Some(s) => spec_server_class(s),
        None => ("Unknown"@, 0 as u32),
    };
    let version = match server {
        Some(s) => if base > 0 {
            spec_version_of(s)
        } else {
            None
        },
        None => None,
    };
    let vbonus: u32 = if version is Some {
        10
    } else {
        0
    };
    let pbonus: u32 = match powered {
        Some(p) => spec_powered_bonus(p),
        None => 0,
    };
    let conf = spec_cap_confidence(base + vbonus + pbonus);
    if conf > 0 {
        Some(OSInfoView { name, version, confidence: conf, features: feats })
    } else {
        None
    }
}

/// The HTTP heuristic over a whole captured response.
pub open spec fn spec_analyze_http(resp: Seq<char>) -> Option<OSInfoView> {
    spec_classify_headers(
        spec_header_value(resp, "Server: "@),
        spec_header_value(resp, "X-Powered-By: "@),
    )
}

/// Analyze a captured HTTP response: read the `Server:` and `X-Powered-By:`
/// header values and classify them. `None` when they give no evidence.
pub fn analyze_http_headers(resp: &str) -> (r: Option<OSInfo>)
    ensures
        opt_os_view(r) == spec_analyze_http(resp@),
{
    let server = header_value(resp, "Server: ");
    let powered = header_value(resp, "X-Powered-By: ");

    let mut features: Vec<String> = Vec::new();
    let mut name = String::from_str("Unknown");
    let mut base: u32 = 0;
    let mut version: Option<String> = None;

    match &server {
        Some(s) => {
            features.push(String::from_str("Server: ").concat(s.as_str()));
            if contains_str(s.as_str(), "Apache") {
                name = String::from_str("Linux/Unix");
                base = 80;
            } else if contains_str(s.as_str(), "Microsoft-IIS") {
                name = String::from_str("Windows");
                base = 90;
            } else if contains_str(s.as_str(), "nginx") {
                name = String::from_str("Linux/Unix");
                base = 85;
            }
            if base > 0 {
                version = extract_version_str(s.as_str());
            }
        }
        None => {}
    }
    let vbonus: u32 = match &version {
        Some(_) => 10,
        None => 0,
    };
    let pbonus: u32 = match &powered {
        Some(p) => {
            features.push(String::from_str("Powered by: ").concat(p.as_str()));
            if contains_str(p.as_str(), "PHP") {
                5
            } else if contains_str(p.as_str(), "ASP.NET") {
                10
            } else {
                0
            }
        }
        None => 0,
    };
    let sum = base + vbonus + pbonus;
    let conf = if sum > 100 {
        100
    } else {
        sum
    };
    if conf > 0 {
        let r = OSInfo { name, version, confidence: conf, features };
        proof {
            assert(r.features.deep_view() =~= spec_classify_headers(
                opt_string_view(server),
                opt_string_view(powered),
            )->Some_0.features);
            assert(r@ =~= spec_classify_headers(
                opt_string_view(server),
                opt_string_view(powered),
            )->Some_0);
        }
        Some(r)
    } else {
        None
    }
}

/// The view of an optional estimate.
pub open spec fn opt_os_view(r: Option<OSInfo>) -> Option<OSInfoView> {
    match r {
        Some(info) => Some(info@),
        None => None,
    }
}

/// One answered TTL probe: the port that answered and the connection's
/// time-to-live.
#[derive(Clone, Copy, Debug)]
pub struct TtlObservation {
    pub port: u16,
    pub ttl: u32,
}

/// What a canonical TTL value says about the host.
pub open spec fn spec_ttl_class(ttl: u32) -> Option<(Seq<char>, u32)> {
    if ttl == 64 {
        Some(("Linux/Unix"@, 70))
    } else if ttl == 128 {
        Some(("Windows"@, 70))
    } else if ttl == 255 {
        Some(("Solaris/AIX"@, 70))
    } else {
        None
    }
}

/// The evidence line for one TTL observation.
pub open spec fn spec_ttl_feature(o: TtlObservation) -> Seq<char> {
    "TTL: "@ + spec_digits(o.ttl as nat) + " (port "@ + spec_digits(o.port as nat) + ")"@
}

/// The TCP heuristic folded over the answered probes in order: every answer
/// contributes an evidence line, and the last canonical TTL seen fixes the
/// family at its fixed confidence.
pub open spec fn spec_ttl_fold(obs: Seq<TtlObservation>) -> OSInfoView
    decreases obs.len(),
{
    if obs.len() == 0 {
        spec_unknown_os()
    } else {
        let prev = spec_ttl_fold(obs.drop_last());
        let o = obs.last();
        let feats = prev.features.push(spec_ttl_feature(o));
        match spec_ttl_class(o.ttl) {
            Some((n, c)) => OSInfoView { name: n, version: None, confidence: c, features: feats },
            None => OSInfoView {
                name: prev.name,
                version: prev.version,
                confidence: prev.confidence,
                features: feats,
            },
        }
    }
}

/// The TCP heuristic: classify the TTLs of the connections that answered,
/// in the order the ports were tried.
pub fn classify_ttl_observations(obs: &Vec<TtlObservation>) -> (r: OSInfo)
    ensures
        r@ =~= spec_ttl_fold(obs@),
{
    let mut name = String::from_str("Unknown");
    let mut confidence: u32 = 0;
    let mut features: Vec<String> = Vec::new();
    let n = obs.len();
    let mut i: usize = 0;
    proof {
        assert(obs@.take(0) =~= Seq::<TtlObservation>::empty());
    }
    while i < n
        invariant
            i <= n,
            n == obs@.len(),
            name@ == spec_ttl_fold(obs@.take(i as int)).name,
            spec_ttl_fold(obs@.take(i as int)).version is None,
            confidence == spec_ttl_fold(obs@.take(i as int)).confidence,
            features.deep_view() =~= spec_ttl_fold(obs@.take(i as int)).features,
        decreases n - i,
    {
        let o = obs[i];
        proof {
            assert(obs@.take(i as int + 1).drop_last() =~= obs@.take(i as int));
            assert(obs@.take(i as int + 1).last() == obs@[i as int]);
        }
        let line = String::from_str("TTL: ").concat(u64_to_string(o.ttl as u64).as_str()).concat(
            " (port ",
        ).concat(u64_to_string(o.port as u64).as_str()).concat(")");
        features.push(line);
        if o.ttl == 64 {
            name = String::from_str("Linux/Unix");
            confidence = 70;
        } else if o.ttl == 128 {
            name = String::from_str("Windows");
            confidence = 70;
        } else if o.ttl == 255 {
            name = String::from_str("Solaris/AIX");
            confidence = 70;
        }
        proof {
            assert(features.deep_view() =~= spec_ttl_fold(obs@.take(i as int + 1)).features);
        }
        i += 1;
    }
    proof {
        assert(obs@.take(n as int) =~= obs@);
    }
    let r = OSInfo { name, version: None, confidence, features };
    proof {
        assert(r@ =~= spec_ttl_fold(obs@));
    }
    r
}

/// The service-presence heuristic: SSH answering speaks for Linux/Unix, SMB
/// or RDP answering speaks for Windows, with the later-probed service
/// deciding when several answer. Evidence lines appear in probe order
/// (SSH on 22, SMB on 445, RDP on 3389).
pub open spec fn spec_service_presence(ssh: bool, smb: bool, rdp: bool) -> OSInfoView {
    let feats0: Seq<Seq<char>> = if ssh {
        seq!["Service: SSH (port 22)"@]
    } else {
        Seq::empty()
    };
    let feats1 = if smb {
        feats0.push("Service: SMB (port 445)"@)
    } else {
        feats0
    };
    let feats = if rdp {
        feats1.push("Service: RDP (port 3389)"@)
    } else {
        feats1
    };
    let (name, conf): (Seq<char>, u32) = if smb || rdp {
        ("Windows"@, 90)
    } else if ssh {
        ("Linux/Unix"@, 80)
    } else {
        ("Unknown"@, 0)
    };
    OSInfoView { name, version: None, confidence: conf, features: feats }
}

/// Classify which of the telltale services answered a connection attempt.
pub fn classify_service_presence(ssh: bool, smb: bool, rdp: bool) -> (r: OSInfo)
    ensures
        r@ =~= spec_service_presence(ssh, smb, rdp),
{
    let mut features: Vec<String> = Vec::new();
    if ssh {
        features.push(String::from_str("Service: SSH (port 22)"));
    }
    if smb {
        features.push(String::from_str("Service: SMB (port 445)"));
    }
    if rdp {
        features.push(String::from_str("Service: RDP (port 3389)"));
    }
    let (name, confidence): (String, u32) = if smb || rdp {
        (String::from_str("Windows"), 90)
    } else if ssh {
        (String::from_str("Linux/Unix"), 80)
    } else {
        (String::from_str("Unknown"), 0)
    };
    let r = OSInfo { name, version: None, confidence, features };
    proof {
        assert(r.features.deep_view() =~= spec_service_presence(ssh, smb, rdp).features);
        assert(r@ =~= spec_service_presence(ssh, smb, rdp));
    }
    r
}

/// `fs` appended to `acc`, in order, skipping what `acc` (as extended so
/// far) already holds: the evidence union.
pub open spec fn spec_add_features(acc: Seq<Seq<char>>, fs: Seq<Seq<char>>) -> Seq<Seq<char>>
    decreases fs.len(),
{
    if fs.len() == 0 {
        acc
    } else {
        let acc2 = spec_add_features(acc, fs.drop_last());
        if seq_contains_string(acc2, fs.last()) {
            acc2
        } else {
            acc2.push(fs.last())
        }
    }
}

/// The merge of several heuristic estimates, folded in order: the strictly
/// highest confidence fixes name, version and confidence (the earliest of
/// equals wins, and zero-confidence results never displace the unknown
/// default), while the evidence lines of every estimate are united without
/// duplicates.
pub open spec fn spec_merge(infos: Seq<OSInfoView>) -> OSInfoView
    decreases infos.len(),
{
    if infos.len() == 0 {
        spec_unknown_os()
    } else {
        let prev = spec_merge(infos.drop_last());
        let cur = infos.last();
        let feats = spec_add_features(prev.features, cur.features);
        if cur.confidence > prev.confidence {
            OSInfoView {
                name: cur.name,
                version: cur.version,
                confidence: cur.confidence,
                features: feats,
            }
        } else {
            OSInfoView {
                name: prev.name,
                version: prev.version,
                confidence: prev.confidence,
                features: feats,
            }
        }
    }
}

/// The views of a sequence of estimates.
pub open spec fn os_infos_view(infos: Seq<OSInfo>) -> Seq<OSInfoView> {
    Seq::new(infos.len(), |i: int| infos[i]@)
}

/// Merge heuristic estimates into one answer: the single highest-confidence
/// (name, version, confidence) triple wins, and the evidence of all of them
/// is united, deduplicated, in order.
pub fn merge_os_infos(infos: &Vec<OSInfo>) -> (r: OSInfo)
    ensures
        r@ =~= spec_merge(os_infos_view(infos@)),
{
    let mut name = String::from_str("Unknown");
    let mut version: Option<String> = None;
    let mut confidence: u32 = 0;
    let mut features: Vec<String> = Vec::new();
    let n = infos.len();
    let mut i: usize = 0;
    proof {
        assert(os_infos_view(infos@).take(0) =~= Seq::<OSInfoView>::empty());
        assert(spec_merge(os_infos_view(infos@).take(0)) =~= spec_unknown_os());
    }
    while i < n
        invariant
            i <= n,
            n == infos@.len(),
            name@ == spec_merge(os_infos_view(infos@).take(i as int)).name,
            opt_string_view(version) == spec_merge(os_infos_view(infos@).take(i as int)).version,
            confidence == spec_merge(os_infos_view(infos@).take(i as int)).confidence,
            features.deep_view() =~= spec_merge(os_infos_view(infos@).take(i as int)).features,
        decreases n - i,
    {
        let cur = &infos[i];
        proof {
            assert(os_infos_view(infos@).take(i as int + 1).drop_last() =~= os_infos_view(
                infos@,
            ).take(i as int));
            assert(os_infos_view(infos@).take(i as int + 1).last() == infos@[i as int]@);
        }
        let ghost pre_feats = features.deep_view();
        let m = cur.features.len();
        let mut j: usize = 0;
        proof {
            assert(cur.features.deep_view().take(0) =~= Seq::<Seq<char>>::empty());
            assert(spec_add_features(pre_feats, cur.features.deep_view().take(0)) == pre_feats);
        }
        while j < m
            invariant
                j <= m,
                m == cur.features@.len(),
                features.deep_view() =~= spec_add_features(
                    pre_feats,
                    cur.features.deep_view().take(j as int),
                ),
            decreases m - j,
        {
            proof {
                assert(cur.features.deep_view().take(j as int + 1).drop_last() =~= cur
                    .features
                    .deep_view()
                    .take(j as int));
                assert(cur.features.deep_view().take(j as int + 1).last() == cur
                    .features
                    .deep_view()[j as int]);
                assert(cur.features.deep_view()[j as int] == cur.features@[j as int]@);
            }
            let f = &cur.features[j];
            if !contains_string(&features, f) {
                features.push(f.clone());
            }
            proof {
                assert(features.deep_view() =~= spec_add_features(
                    pre_feats,
                    cur.features.deep_view().take(j as int + 1),
                ));
            }
            j += 1;
        }
        proof {
            assert(cur.features.deep_view().take(m as int) =~= cur.features.deep_view());
        }
        if cur.confidence > confidence {
            name = cur.name.clone();
            version = match &cur.version {
                Some(v) => Some(v.clone()),
                None => None,
            };
            confidence = cur.confidence;
        }
        i += 1;
    }
    proof {
        assert(os_infos_view(infos@).take(n as int) =~= os_infos_view(infos@));
    }
    let r = OSInfo { name, version, confidence, features };
    proof {
        assert(r@ =~= spec_merge(os_infos_view(infos@)));
    }
    r
}

/// Law: the merged confidence is the highest confidence among the inputs
/// (zero when there are none), and every input's evidence lines all appear
/// in the merged evidence.
pub proof fn lemma_merge_takes_max(infos: Seq<OSInfoView>)
    ensures
        forall|i: int| 0 <= i < infos.len() ==> (#[trigger] infos[i]).confidence <= spec_merge(
            infos,
        ).confidence,
        infos.len() == 0 ==> spec_merge(infos).confidence == 0,
        exists|i: int|
            0 <= i < infos.len() && (#[trigger] infos[i]).confidence == spec_merge(
                infos,
            ).confidence || spec_merge(infos).confidence == 0,
        forall|i: int, j: int|
            0 <= i < infos.len() && 0 <= j < infos[i].features.len() ==> seq_contains_string(
                spec_merge(infos).features,
                #[trigger] infos[i].features[j],
            ),
    decreases infos.len(),
{
    if infos.len() > 0 {
        lemma_merge_takes_max(infos.drop_last());
        let prev = spec_merge(infos.drop_last());
        let cur = infos.last();
        lemma_add_features_keeps(prev.features, cur.features);
        assert forall|i: int, j: int|
            0 <= i < infos.len() && 0 <= j < infos[i].features.len() implies seq_contains_string(
            spec_merge(infos).features,
            #[trigger] infos[i].features[j],
        ) by {
            if i < infos.len() - 1 {
                assert(infos.drop_last()[i] == infos[i]);
                assert(seq_contains_string(prev.features, infos[i].features[j]));
                lemma_add_features_monotone(prev.features, cur.features, infos[i].features[j]);
            }
        }
        assert forall|i: int| 0 <= i < infos.len() implies (#[trigger] infos[i]).confidence
            <= spec_merge(infos).confidence by {
            if i < infos.len() - 1 {
                assert(infos.drop_last()[i] == infos[i]);
            }
        }
        if spec_merge(infos).confidence != 0 {
            if cur.confidence > prev.confidence {
                assert(infos[infos.len() - 1].confidence == spec_merge(infos).confidence);
            } else {
                let w = choose|i: int|
                    0 <= i < infos.drop_last().len() && (#[trigger] infos.drop_last()[i]).confidence
                        == prev.confidence || prev.confidence == 0;
                if prev.confidence != 0 {
                    let w2 = choose|i: int|
                        0 <= i < infos.drop_last().len() && (#[trigger] infos.drop_last()[
                        i]).confidence == prev.confidence;
                    assert(infos[w2] == infos.drop_last()[w2]);
                    assert(infos[w2].confidence == spec_merge(infos).confidence);
                }
            }
        }
    }
}

/// Everything already present stays present as more evidence is united.
proof fn lemma_add_features_monotone(acc: Seq<Seq<char>>, fs: Seq<Seq<char>>, f: Seq<char>)
    requires
        seq_contains_string(acc, f),
    ensures
        seq_contains_string(spec_add_features(acc, fs), f),
    decreases fs.len(),
{
    if fs.len() > 0 {
        lemma_add_features_monotone(acc, fs.drop_last(), f);
        let acc2 = spec_add_features(acc, fs.drop_last());
        let w = choose|i: int| 0 <= i < acc2.len() && acc2[i] == f;
        if !seq_contains_string(acc2, fs.last()) {
            assert(acc2.push(fs.last())[w] == f);
        }
    }
}

/// Every united line ends up present.
proof fn lemma_add_features_keeps(acc: Seq<Seq<char>>, fs: Seq<Seq<char>>)
    ensures
        forall|j: int|
            0 <= j < fs.len() ==> seq_contains_string(spec_add_features(acc, fs), #[trigger] fs[j]),
    decreases fs.len(),
{
    if fs.len() > 0 {
        lemma_add_features_keeps(acc, fs.drop_last());
        let acc2 = spec_add_features(acc, fs.drop_last());
        assert forall|j: int| 0 <= j < fs.len() implies seq_contains_string(
            spec_add_features(acc, fs),
            #[trigger] fs[j],
        ) by {
            if j < fs.len() - 1 {
                assert(fs.drop_last()[j] == fs[j]);
                assert(seq_contains_string(acc2, fs[j]));
                if !seq_contains_string(acc2, fs.last()) {
                    let w = choose|i: int| 0 <= i < acc2.len() && acc2[i] == fs[j];
                    assert(acc2.push(fs.last())[w] == fs[j]);
                }
            } else {
                if seq_contains_string(acc2, fs.last()) {
                } else {
                    let r = acc2.push(fs.last());
                    assert(r[r.len() - 1] == fs.last());
                }
            }
        }
    }
}

} // verus!
