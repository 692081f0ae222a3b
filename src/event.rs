use vstd::prelude::*;

verus! {

/// A protocol version triple, as reported by an upstream node.
#[derive(Clone, Copy, Debug, PartialEq, Eq, Structural)]
pub struct ApiVersion {
    pub major: u32,
    pub minor: u32,
    pub patch: u32,
}

impl ApiVersion {
    pub fn new(major: u32, minor: u32, patch: u32) -> (r: ApiVersion)
        ensures
            r == (ApiVersion { major, minor, patch }),
    {
        ApiVersion { major, minor, patch }
    }
}

/// The payload of an event. Hashes, keys and signatures are held in the hex
/// form in which they travel; bodies are held as their JSON text.
#[derive(Debug)]
pub enum SseData {
    ApiVersion(ApiVersion),
    BlockAdded { block_hash: String, block: String },
    DeployAccepted { deploy_hash: String, deploy: String },
    DeployProcessed {
        deploy_hash: String,
        account: String,
        timestamp: u64,
        ttl: u64,
        dependencies: Vec<String>,
        block_hash: String,
        execution_result: String,
    },
    DeployExpired { deploy_hash: String },
    Fault { era_id: u64, public_key: String, timestamp: u64 },
    FinalitySignature { block_hash: String, signature: String },
    Step { era_id: u64, execution_effect: String },
    Shutdown,
}

/// Two payloads are alike when every field holds the same value; the
/// dependency lists are compared by their contents.
pub open spec fn equivalent(a: SseData, b: SseData) -> bool {
    match (a, b) {
        (
            SseData::DeployProcessed {
                deploy_hash: h1,
                account: a1,
                timestamp: t1,
                ttl: l1,
                dependencies: d1,
                block_hash: b1,
                execution_result: x1,
            },
            SseData::DeployProcessed {
                deploy_hash: h2,
                account: a2,
                timestamp: t2,
                ttl: l2,
                dependencies: d2,
                block_hash: b2,
                execution_result: x2,
            },
        ) => h1 == h2 && a1 == a2 && t1 == t2 && l1 == l2 && d1@ == d2@ && b1 == b2 && x1 == x2,
        (SseData::DeployProcessed { .. }, _) => false,
        _ => a == b,
    }
}

fn copy_strings(v: &Vec<String>) -> (r: Vec<String>)
    ensures
        r@ == v@,
{
    let mut r: Vec<String> = Vec::new();
    let mut i: usize = 0;
    while i < v.len()
        invariant
            0 <= i <= v.len(),
            r@ == v@.take(i as int),
        decreases v.len() - i,
    {
        r.push(v[i].clone());
        proof {
            assert(v@.take(i + 1) =~= v@.take(i as int).push(v@[i as int]));
        }
        i += 1;
    }
    proof {
        assert(v@.take(i as int) =~= v@);
    }
    r
}

impl SseData {
    /// A copy of this payload.
    pub fn duplicate(&self) -> (r: SseData)
        ensures
            equivalent(r, *self),
    {
        match self {
            SseData::ApiVersion(v) => SseData::ApiVersion(*v),
            SseData::BlockAdded { block_hash, block } => SseData::BlockAdded {
                block_hash: block_hash.clone(),
                block: block.clone(),
            },
            SseData::DeployAccepted { deploy_hash, deploy } => SseData::DeployAccepted {
                deploy_hash: deploy_hash.clone(),
                deploy: deploy.clone(),
            },
            SseData::DeployProcessed {
                deploy_hash,
                account,
                timestamp,
                ttl,
                dependencies,
                block_hash,
                execution_result,
            } => SseData::DeployProcessed {
                deploy_hash: deploy_hash.clone(),
                account: account.clone(),
                timestamp: *timestamp,
                ttl: *ttl,
                dependencies: copy_strings(dependencies),
                block_hash: block_hash.clone(),
                execution_result: execution_result.clone(),
            },
            SseData::DeployExpired { deploy_hash } => SseData::DeployExpired {
                deploy_hash: deploy_hash.clone(),
            },
            SseData::Fault { era_id, public_key, timestamp } => SseData::Fault {
                era_id: *era_id,
                public_key: public_key.clone(),
                timestamp: *timestamp,
            },
            SseData::FinalitySignature { block_hash, signature } => SseData::FinalitySignature {
                block_hash: block_hash.clone(),
                signature: signature.clone(),
            },
            SseData::Step { era_id, execution_effect } => SseData::Step {
                era_id: *era_id,
                execution_effect: execution_effect.clone(),
            },
            SseData::Shutdown => SseData::Shutdown,
        }
    }
}

/// An inbound event: its payload, the arrival ID the upstream gave it (none
/// for the API-version handshake), and the URL of the upstream it came from.
#[derive(Debug)]
pub struct SseEvent {
    pub id: Option<String>,
    pub data: SseData,
    pub source: String,
}

impl SseEvent {
    pub fn new(id: Option<String>, data: SseData, source: String) -> (r: SseEvent)
        ensures
            r == (SseEvent { id, data, source }),
    {
        SseEvent { id, data, source }
    }
}

/// The table a persisted event goes to.
#[derive(Clone, Copy, Debug, PartialEq, Eq, Structural)]
pub enum KeyKind {
    BlockAdded,
    DeployAccepted,
    DeployProcessed,
    DeployExpired,
    Fault,
    FinalitySignature,
    Step,
}

/// The uniqueness key of a persisted event. Which fields take part depends on
/// `kind`: a block or deploy hash in `primary`; an era in `era`; a public key
/// (Fault) or a signature (FinalitySignature) in `secondary`. The fields that
/// do not take part are zero or empty.
#[derive(Debug)]
pub struct EventKey {
    pub kind: KeyKind,
    pub era: u64,
    pub primary: String,
    pub secondary: String,
    pub source: String,
}

/// The mathematical form of a uniqueness key:
/// (kind, era, primary, secondary, source).
pub type KeyView = (KeyKind, u64, Seq<char>, Seq<char>, Seq<char>);

impl View for EventKey {
    type V = KeyView;

    open spec fn view(&self) -> KeyView {
        (self.kind, self.era, self.primary@, self.secondary@, self.source@)
    }
}

/// The uniqueness key of an event, or none for the handshake and shutdown
/// events, which are not persisted.
pub open spec fn key_of(e: SseEvent) -> Option<KeyView> {
    let src = e.source@;
    let none = Seq::<char>::empty();
    match e.data {
        SseData::BlockAdded { block_hash, .. } => Some(
            (KeyKind::BlockAdded, 0u64, block_hash@, none, src),
        ),
        SseData::DeployAccepted { deploy_hash, .. } => Some(
            (KeyKind::DeployAccepted, 0u64, deploy_hash@, none, src),
        ),
        SseData::DeployProcessed { deploy_hash, .. } => Some(
            (KeyKind::DeployProcessed, 0u64, deploy_hash@, none, src),
        ),
        SseData::DeployExpired { deploy_hash } => Some(
            (KeyKind::DeployExpired, 0u64, deploy_hash@, none, src),
        ),
        SseData::Fault { era_id, public_key, .. } => Some(
            (KeyKind::Fault, era_id, none, public_key@, src),
        ),
        SseData::FinalitySignature { block_hash, signature } => Some(
            (KeyKind::FinalitySignature, 0u64, block_hash@, signature@, src),
        ),
        SseData::Step { era_id, .. } => Some((KeyKind::Step, era_id, none, none, src)),
        SseData::ApiVersion(_) => None,
        SseData::Shutdown => None,
    }
}

impl EventKey {
    fn build(kind: KeyKind, era: u64, primary: &String, secondary: &String, source: &String) -> (r:
        EventKey)
        ensures
            r@ == (kind, era, primary@, secondary@, source@),
    {
        EventKey {
            kind,
            era,
            primary: primary.clone(),
            secondary: secondary.clone(),
            source: source.clone(),
        }
    }

    /// Whether two keys are the same key.
    pub fn same(&self, other: &EventKey) -> (r: bool)
        ensures
            r == (self@ == other@),
    {
        self.kind == other.kind && self.era == other.era && self.primary == other.primary
            && self.secondary == other.secondary && self.source == other.source
    }
}

/// The uniqueness key of an event, if it is one that is persisted.
pub fn event_key(e: &SseEvent) -> (r: Option<EventKey>)
    ensures
        r is None <==> key_of(*e) is None,
        r is Some ==> key_of(*e) == Some(r->Some_0@),
{
    let none = String::new();
    match &e.data {
        SseData::BlockAdded { block_hash, .. } => Some(
            EventKey::build(KeyKind::BlockAdded, 0, block_hash, &none, &e.source),
        ),
        SseData::DeployAccepted { deploy_hash, .. } => Some(
            EventKey::build(KeyKind::DeployAccepted, 0, deploy_hash, &none, &e.source),
        ),
        SseData::DeployProcessed { deploy_hash, .. } => Some(
            EventKey::build(KeyKind::DeployProcessed, 0, deploy_hash, &none, &e.source),
        ),
        SseData::DeployExpired { deploy_hash } => Some(
            EventKey::build(KeyKind::DeployExpired, 0, deploy_hash, &none, &e.source),
        ),
        SseData::Fault { era_id, public_key, .. } => Some(
            EventKey::build(KeyKind::Fault, *era_id, &none, public_key, &e.source),
        ),
        SseData::FinalitySignature { block_hash, signature } => Some(
            EventKey::build(KeyKind::FinalitySignature, 0, block_hash, signature, &e.source),
        ),
        SseData::Step { era_id, .. } => Some(
            EventKey::build(KeyKind::Step, *era_id, &none, &none, &e.source),
        ),
        SseData::ApiVersion(_) => None,
        SseData::Shutdown => None,
    }
}

} // verus!
