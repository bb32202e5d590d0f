//! Which peers are compatible with the master, and what is said of them.

use dashmap::DashMap;
use vstd::prelude::*;

use crate::error::FsError;
use crate::text::{append_u64, same_text, text_after_prefix};

verus! {

#[derive(Clone, Copy, Debug, PartialEq, Eq, Structural)]
pub enum CompatibilityMode {
    /// Incompatible peers are allowed and warned about.
    Diagnose,
    /// Incompatible peers are refused.
    Enforce,
}

/// How a peer relates to the master's compatibility contract.
#[allow(inconsistent_fields)]
#[derive(Debug, PartialEq, Eq)]
pub enum CompatibilityVerdict {
    Compatible,
    /// The peer did not say what it is.
    MissingInfo,
    /// The peer's version is blocked.
    Blocked(String),
    ProtocolMismatch { peer: u32, min: u32, max: u32 },
    VersionTooOld { peer: String, min: String },
    /// The peer's version cannot be compared.
    VersionUnknown { peer: String },
}

#[allow(inconsistent_fields)]
#[verifier::ext_equal]
pub enum VerdictView {
    Compatible,
    MissingInfo,
    Blocked { version: Seq<char> },
    ProtocolMismatch { peer: u32, min: u32, max: u32 },
    VersionTooOld { peer: Seq<char>, min: Seq<char> },
    VersionUnknown { peer: Seq<char> },
}

impl View for CompatibilityVerdict {
    type V = VerdictView;

    open spec fn view(&self) -> VerdictView {
        match self {
            CompatibilityVerdict::Compatible => VerdictView::Compatible,
            CompatibilityVerdict::MissingInfo => VerdictView::MissingInfo,
            CompatibilityVerdict::Blocked(v) => VerdictView::Blocked { version: v@ },
            CompatibilityVerdict::ProtocolMismatch { peer, min, max } =>
                VerdictView::ProtocolMismatch { peer: *peer, min: *min, max: *max },
            CompatibilityVerdict::VersionTooOld { peer, min } => VerdictView::VersionTooOld {
                peer: peer@,
                min: min@,
            },
            CompatibilityVerdict::VersionUnknown { peer } => VerdictView::VersionUnknown {
                peer: peer@,
            },
        }
    }
}

impl VerdictView {
    /// The name of the verdict's kind.
    pub open spec fn label(self) -> Seq<char> {
        match self {
            VerdictView::Compatible => "compatible"@,
            VerdictView::MissingInfo => "missing_info"@,
            VerdictView::Blocked { .. } => "blocked"@,
            VerdictView::ProtocolMismatch { .. } => "protocol_mismatch"@,
            VerdictView::VersionTooOld { .. } => "version_too_old"@,
            VerdictView::VersionUnknown { .. } => "version_unknown"@,
        }
    }

    /// The verdict in words.
    pub open spec fn description(self) -> Seq<char> {
        match self {
            VerdictView::Compatible => "compatible"@,
            VerdictView::MissingInfo => "component info is missing"@,
            VerdictView::Blocked { version } => "version "@ + version + " is blocked"@,
            VerdictView::ProtocolMismatch { peer, min, max } => "protocol version "@
                + crate::text::decimal(peer as nat) + " is outside "@ + crate::text::decimal(
                min as nat,
            ) + ".."@ + crate::text::decimal(max as nat),
            VerdictView::VersionTooOld { peer, min } => "version "@ + peer + " is older than "@
                + min,
            VerdictView::VersionUnknown { peer } => "version "@ + peer + " cannot be compared"@,
        }
    }

    /// The peer is refused.
    pub open spec fn rejected(self, mode: CompatibilityMode) -> bool {
        mode == CompatibilityMode::Enforce && !(self is Compatible)
    }
}

impl Clone for CompatibilityVerdict {
    fn clone(&self) -> (r: Self)
        ensures
            r@ == self@,
    {
        match self {
            CompatibilityVerdict::Compatible => CompatibilityVerdict::Compatible,
            CompatibilityVerdict::MissingInfo => CompatibilityVerdict::MissingInfo,
            CompatibilityVerdict::Blocked(v) => CompatibilityVerdict::Blocked(v.clone()),
            CompatibilityVerdict::ProtocolMismatch { peer, min, max } =>
                CompatibilityVerdict::ProtocolMismatch { peer: *peer, min: *min, max: *max },
            CompatibilityVerdict::VersionTooOld { peer, min } =>
                CompatibilityVerdict::VersionTooOld { peer: peer.clone(), min: min.clone() },
            CompatibilityVerdict::VersionUnknown { peer } => CompatibilityVerdict::VersionUnknown {
                peer: peer.clone(),
            },
        }
    }
}

impl CompatibilityVerdict {
    pub fn is_compatible(&self) -> (r: bool)
        ensures
            r == (self@ is Compatible),
    {
        match self {
            CompatibilityVerdict::Compatible => true,
            _ => false,
        }
    }

    /// Whether a peer with this verdict is refused.
    pub fn rejects(&self, mode: CompatibilityMode) -> (r: bool)
        ensures
            r == self@.rejected(mode),
    {
        match mode {
            CompatibilityMode::Diagnose => false,
            CompatibilityMode::Enforce => !self.is_compatible(),
        }
    }

    /// The verdict in words.
    pub fn describe(&self) -> (r: String)
        ensures
            r@ == self@.description(),
    {
        let mut r: String = String::new();
        match self {
            CompatibilityVerdict::Compatible => r.append("compatible"),
            CompatibilityVerdict::MissingInfo => r.append("component info is missing"),
            CompatibilityVerdict::Blocked(v) => {
                r.append("version ");
                r.append(v.as_str());
                r.append(" is blocked");
            },
            CompatibilityVerdict::ProtocolMismatch { peer, min, max } => {
                r.append("protocol version ");
                append_u64(&mut r, *peer as u64);
                r.append(" is outside ");
                append_u64(&mut r, *min as u64);
                r.append("..");
                append_u64(&mut r, *max as u64);
            },
            CompatibilityVerdict::VersionTooOld { peer, min } => {
                r.append("version ");
                r.append(peer.as_str());
                r.append(" is older than ");
                r.append(min.as_str());
            },
            CompatibilityVerdict::VersionUnknown { peer } => {
                r.append("version ");
                r.append(peer.as_str());
                r.append(" cannot be compared");
            },
        }
        assert(r@ =~= self@.description());
        r
    }

    /// Whether two verdicts say the same.
    pub fn same_verdict(&self, other: &CompatibilityVerdict) -> (r: bool)
        ensures
            r == (self@ == other@),
    {
        match (self, other) {
            (CompatibilityVerdict::Compatible, CompatibilityVerdict::Compatible) => true,
            (CompatibilityVerdict::MissingInfo, CompatibilityVerdict::MissingInfo) => true,
            (CompatibilityVerdict::Blocked(a), CompatibilityVerdict::Blocked(b)) => same_text(
                a.as_str(),
                b.as_str(),
            ),
            (
                CompatibilityVerdict::ProtocolMismatch { peer: a, min: b, max: c },
                CompatibilityVerdict::ProtocolMismatch { peer: x, min: y, max: z },
            ) => *a == *x && *b == *y && *c == *z,
            (
                CompatibilityVerdict::VersionTooOld { peer: a, min: b },
                CompatibilityVerdict::VersionTooOld { peer: x, min: y },
            ) => same_text(a.as_str(), x.as_str()) && same_text(b.as_str(), y.as_str()),
            (
                CompatibilityVerdict::VersionUnknown { peer: a },
                CompatibilityVerdict::VersionUnknown { peer: x },
            ) => same_text(a.as_str(), x.as_str()),
            _ => false,
        }
    }
}

/// When peers are checked, and with what consequence.
#[derive(Clone, Copy, Debug, PartialEq, Eq, Structural)]
pub struct CompatibilityPolicy {
    pub mode: CompatibilityMode,
    /// Version bounds or blocked versions are configured.
    pub has_bounds: bool,
}

impl CompatibilityPolicy {
    /// A peer is only checked where something can follow from it: in enforce
    /// mode, with configured bounds, or where the peer says what it is.
    pub fn should_evaluate(&self, has_component_info: bool) -> (r: bool)
        ensures
            r == (self.mode == CompatibilityMode::Enforce || self.has_bounds
                || has_component_info),
    {
        match self.mode {
            CompatibilityMode::Enforce => true,
            CompatibilityMode::Diagnose => self.has_bounds || has_component_info,
        }
    }
}

/// The map type of the `dashmap` crate.
#[verifier::external_type_specification]
#[verifier::external_body]
#[verifier::reject_recursive_types(K)]
#[verifier::reject_recursive_types(V)]
#[verifier::reject_recursive_types(S)]
pub struct ExDashMap<K, V, S>(dashmap::DashMap<K, V, S>);

/// The entries of a map of verdicts.
pub uninterp spec fn verdicts_in(m: DashMap<String, CompatibilityVerdict>) -> Map<
    Seq<char>,
    VerdictView,
>;

/// Wraps `DashMap::new`: the map has no entries.
#[verifier::external_body]
pub(crate) fn verdicts_new() -> (r: DashMap<String, CompatibilityVerdict>)
    ensures
        verdicts_in(r).dom() == Set::<Seq<char>>::empty(),
{
    DashMap::new()
}

/// Wraps `DashMap::get`: a copy of the value under the key, if there is one.
#[verifier::external_body]
pub(crate) fn verdicts_get(m: &DashMap<String, CompatibilityVerdict>, key: &str) -> (r: Option<
    CompatibilityVerdict,
>)
    ensures
        r is Some == verdicts_in(*m).contains_key(key@),
        r matches Some(v) ==> v@ == verdicts_in(*m)[key@],
{
    match m.get(key) {
        Some(entry) => Some(entry.value().clone()),
        None => None,
    }
}

/// Wraps `DashMap::insert`: the value stands under the key, in place of any
/// other; the other entries are as before.
#[verifier::external_body]
pub(crate) fn verdicts_insert(
    m: &mut DashMap<String, CompatibilityVerdict>,
    key: String,
    value: CompatibilityVerdict,
)
    ensures
        verdicts_in(*final(m)) == verdicts_in(*old(m)).insert(key@, value@),
{
    m.insert(key, value);
}

/// Wraps `DashMap::remove`: nothing stands under the key; the other entries
/// are as before.
#[verifier::external_body]
pub(crate) fn verdicts_remove(m: &mut DashMap<String, CompatibilityVerdict>, key: &str)
    ensures
        verdicts_in(*final(m)) == verdicts_in(*old(m)).remove(key@),
{
    m.remove(key);
}

/// A change of a gauge that tells whether a peer has a verdict.
pub struct GaugeUpdate {
    /// The gauge of workers, rather than that of clients.
    pub is_worker: bool,
    pub peer: String,
    pub label: String,
    pub active: i64,
}

/// What the check of a peer leads to.
pub struct CompatibilityCheck {
    /// The new values of the peer's gauges.
    pub gauges: Vec<GaugeUpdate>,
    /// A warning to be logged.
    pub warning: Option<String>,
    /// The label to count a refusal under.
    pub rejected_label: Option<String>,
    pub result: Result<(), FsError>,
}

/// The names of all kinds of verdicts.
pub open spec fn labels() -> Seq<Seq<char>> {
    seq![
        "compatible"@,
        "missing_info"@,
        "blocked"@,
        "protocol_mismatch"@,
        "version_too_old"@,
        "version_unknown"@,
    ]
}

/// The gauges of a peer: that of the verdict is set, the others are cleared.
pub open spec fn gauges_show(
    g: Seq<GaugeUpdate>,
    is_worker: bool,
    peer: Seq<char>,
    label: Seq<char>,
) -> bool {
    g.len() == labels().len() && forall|i: int|
        0 <= i < g.len() ==> (#[trigger] g[i]).is_worker == is_worker && g[i].peer@ == peer
            && g[i].label@ == labels()[i] && g[i].active == (if labels()[i] == label {
            1i64
        } else {
            0i64
        })
}

/// The key of a worker's warnings begins so.
pub open spec fn worker_prefix() -> Seq<char> {
    "worker:"@
}

/// The peer that a key of warnings stands for.
pub open spec fn peer_of(key: Seq<char>) -> Seq<char> {
    if crate::text::begins_with(key, worker_prefix()) {
        key.skip(worker_prefix().len() as int)
    } else {
        key
    }
}

/// A verdict that was not warned about last.
pub open spec fn is_news(warned: Map<Seq<char>, VerdictView>, key: Seq<char>, v: VerdictView) -> bool {
    !(warned.contains_key(key) && warned[key] == v)
}

/// The peers last warned about, after a check.
pub open spec fn warned_after(
    warned: Map<Seq<char>, VerdictView>,
    key: Seq<char>,
    v: VerdictView,
    mode: CompatibilityMode,
) -> Map<Seq<char>, VerdictView> {
    if v.rejected(mode) {
        warned
    } else if v is Compatible {
        warned.remove(key)
    } else {
        warned.insert(key, v)
    }
}

/// What is recorded with the check of a peer: its gauges, a warning where the
/// verdict is tolerated and news, and a count where the peer is refused.
pub open spec fn is_record_of(
    c: CompatibilityCheck,
    peer: Seq<char>,
    key: Seq<char>,
    warned: Map<Seq<char>, VerdictView>,
    mode: CompatibilityMode,
    v: VerdictView,
) -> bool {
    &&& gauges_show(
        c.gauges@,
        crate::text::begins_with(key, worker_prefix()),
        peer_of(key),
        v.label(),
    )
    &&& crate::model::text_of(c.warning) == (if !v.rejected(mode) && !(v is Compatible) && is_news(
        warned,
        key,
        v,
    ) {
        Some(peer + " compatibility: "@ + v.description())
    } else {
        None
    })
    &&& crate::model::text_of(c.rejected_label) == (if v.rejected(mode) {
        Some(v.label())
    } else {
        None
    })
}

/// Whether the last warning and the verdict differ.
fn differs(last: &Option<CompatibilityVerdict>, verdict: &CompatibilityVerdict) -> (r: bool)
    ensures
        r == (match last {
            Some(l) => l@ != verdict@,
            None => true,
        }),
{
    match last {
        Some(l) => !l.same_verdict(verdict),
        None => true,
    }
}

/// The name of the verdict's kind.
pub fn verdict_label(verdict: &CompatibilityVerdict) -> (r: &'static str)
    ensures
        r@ == verdict@.label(),
{
    match verdict {
        CompatibilityVerdict::Compatible => "compatible",
        CompatibilityVerdict::MissingInfo => "missing_info",
        CompatibilityVerdict::Blocked(_) => "blocked",
        CompatibilityVerdict::ProtocolMismatch { .. } => "protocol_mismatch",
        CompatibilityVerdict::VersionTooOld { .. } => "version_too_old",
        CompatibilityVerdict::VersionUnknown { .. } => "version_unknown",
    }
}

fn all_labels() -> (r: Vec<String>)
    ensures
        crate::model::texts_of(r@) == labels(),
{
    let mut r: Vec<String> = Vec::new();
    r.push("compatible".to_owned());
    r.push("missing_info".to_owned());
    r.push("blocked".to_owned());
    r.push("protocol_mismatch".to_owned());
    r.push("version_too_old".to_owned());
    r.push("version_unknown".to_owned());
    assert(crate::model::texts_of(r@) =~= labels());
    r
}

fn gauge_updates(is_worker: bool, peer: &str, label: &str) -> (r: Vec<GaugeUpdate>)
    ensures
        gauges_show(r@, is_worker, peer@, label@),
{
    let names: Vec<String> = all_labels();
    let mut r: Vec<GaugeUpdate> = Vec::new();
    let mut i: usize = 0;
    assert(names@.len() == crate::model::texts_of(names@).len());
    while i < names.len()
        invariant
            i <= names.len(),
            names@.len() == labels().len(),
            crate::model::texts_of(names@) == labels(),
            r@.len() == i,
            forall|j: int|
                0 <= j < i ==> (#[trigger] r@[j]).is_worker == is_worker && r@[j].peer@ == peer@
                    && r@[j].label@ == labels()[j] && r@[j].active == (if labels()[j] == label@ {
                    1i64
                } else {
                    0i64
                }),
        decreases names.len() - i,
    {
        assert(crate::model::texts_of(names@)[i as int] == names@[i as int]@);
        let active: i64 = if same_text(names[i].as_str(), label) {
            1
        } else {
            0
        };
        r.push(GaugeUpdate { is_worker, peer: peer.to_owned(), label: names[i].clone(), active });
        i += 1;
    }
    r
}

/// Weighs a verdict against the mode. In diagnose mode the peer is allowed,
/// and warned about when its verdict is news; in enforce mode a peer that is
/// not compatible is refused.
pub fn check_peer_compatibility(
    peer: &str,
    dedup_key: &str,
    warned: &mut DashMap<String, CompatibilityVerdict>,
    mode: CompatibilityMode,
    verdict: CompatibilityVerdict,
) -> (r: CompatibilityCheck)
    ensures
        is_record_of(r, peer@, dedup_key@, verdicts_in(*old(warned)), mode, verdict@),
        verdicts_in(*final(warned)) == warned_after(
            verdicts_in(*old(warned)),
            dedup_key@,
            verdict@,
            mode,
        ),
        match r.result {
            Ok(_) => !verdict@.rejected(mode),
            Err(e) => verdict@.rejected(mode) && (e matches FsError::PeerRejected {
                peer: p,
                detail,
            } && p@ == peer@ && detail@ == verdict@.description()),
        },
{
    let label: &'static str = verdict_label(&verdict);
    let gauges: Vec<GaugeUpdate> = match text_after_prefix(dedup_key, "worker:") {
        Some(worker_id) => gauge_updates(true, worker_id.as_str(), label),
        None => gauge_updates(false, dedup_key, label),
    };
    if verdict.rejects(mode) {
        return CompatibilityCheck {
            gauges,
            warning: None,
            rejected_label: Some(label.to_owned()),
            result: Err(
                FsError::PeerRejected { peer: peer.to_owned(), detail: verdict.describe() },
            ),
        };
    }
    let mut warning: Option<String> = None;
    if verdict.is_compatible() {
        // A later incompatibility of the peer is news again.
        verdicts_remove(warned, dedup_key);
    } else {
        let last: Option<CompatibilityVerdict> = verdicts_get(warned, dedup_key);
        if differs(&last, &verdict) {
            let mut text: String = peer.to_owned();
            text.append(" compatibility: ");
            text.append(verdict.describe().as_str());
            warning = Some(text);
            verdicts_insert(warned, dedup_key.to_owned(), verdict);
        } else {
            assert(verdicts_in(*warned) =~= verdicts_in(*warned).insert(dedup_key@, verdict@));
        }
    }
    CompatibilityCheck { gauges, warning, rejected_label: None, result: Ok(()) }
}

/// Exactly one gauge of a peer is set: that of its verdict.
pub proof fn one_gauge_is_set(
    g: Seq<GaugeUpdate>,
    is_worker: bool,
    peer: Seq<char>,
    v: VerdictView,
)
    requires
        gauges_show(g, is_worker, peer, v.label()),
    ensures
        exists|i: int|
            0 <= i < g.len() && (#[trigger] g[i]).active == 1 && g[i].label@ == v.label()
                && forall|j: int| 0 <= j < g.len() && j != i ==> (#[trigger] g[j]).active == 0,
{
    reveal_strlit("compatible");
    reveal_strlit("missing_info");
    reveal_strlit("blocked");
    reveal_strlit("protocol_mismatch");
    reveal_strlit("version_too_old");
    reveal_strlit("version_unknown");
    let i: int = match v {
        VerdictView::Compatible => 0,
        VerdictView::MissingInfo => 1,
        VerdictView::Blocked { .. } => 2,
        VerdictView::ProtocolMismatch { .. } => 3,
        VerdictView::VersionTooOld { .. } => 4,
        VerdictView::VersionUnknown { .. } => 5,
    };
    assert("compatible"@.len() == 10);
    assert("missing_info"@.len() == 12);
    assert("blocked"@.len() == 7);
    assert("protocol_mismatch"@.len() == 17);
    assert("version_too_old"@.len() == 15 && "version_too_old"@[8] == 't');
    assert("version_unknown"@.len() == 15 && "version_unknown"@[8] == 'u');
    assert(labels()[i] == v.label());
    assert(g[i].active == 1);
    assert forall|j: int| 0 <= j < g.len() && j != i implies (#[trigger] g[j]).active == 0 by {
        assert(j == 0 || j == 1 || j == 2 || j == 3 || j == 4 || j == 5);
        assert(labels()[j] != v.label());
    }
}

/// In diagnose mode no peer is refused.
pub proof fn diagnose_never_rejects(v: VerdictView)
    ensures
        !v.rejected(CompatibilityMode::Diagnose),
{
}

/// A verdict that was warned about is not news until it changes or the peer
/// has been compatible in between.
pub proof fn repeated_warning_is_suppressed(
    warned: Map<Seq<char>, VerdictView>,
    key: Seq<char>,
    v: VerdictView,
    mode: CompatibilityMode,
)
    requires
        !v.rejected(mode),
        !(v is Compatible),
    ensures
        !is_news(warned_after(warned, key, v, mode), key, v),
        forall|w: VerdictView|
            w != v ==> #[trigger] is_news(warned_after(warned, key, v, mode), key, w),
        is_news(
            warned_after(warned_after(warned, key, v, mode), key, VerdictView::Compatible, mode),
            key,
            v,
        ),
{
}

/// What is known of one peer does not depend on another.
pub proof fn peers_are_tracked_apart(
    warned: Map<Seq<char>, VerdictView>,
    key: Seq<char>,
    other: Seq<char>,
    v: VerdictView,
    w: VerdictView,
    mode: CompatibilityMode,
)
    requires
        key != other,
    ensures
        is_news(warned_after(warned, key, v, mode), other, w) == is_news(warned, other, w),
{
}

} // verus!
