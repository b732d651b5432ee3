//! The tunnel orchestrator.
//!
//! A tunnel mirrors every locally-visible publish-subscribe service onto
//! the overlay.  It keeps one outbound and one inbound stream per
//! discovered identifier plus one announcer serving the service's static
//! details, and exposes the two calls of the driver loop: `discover`,
//! which reconciles a tracker snapshot into the stream registry and says
//! which endpoints the driver has to open, and `propagate`, which turns
//! one poll cycle's ready samples into the messages to forward.
//!
//! Streams and announcers live until the tunnel value itself is released:
//! an identifier the tracker stops reporting is deliberately left in
//! place, so a service that reappears needs no re-registration, and
//! nothing is torn down mid-flight.

use vstd::prelude::*;

use crate::announce::encode;
use crate::announce::spec_encode;
use crate::data_stream::spec_inbound_deliveries;
use crate::data_stream::spec_outbound_messages;
use crate::data_stream::DataStream;
use crate::data_stream::Direction;
use crate::data_stream::OverlayMessage;
use crate::data_stream::OverlayMessageModel;
use crate::data_stream::StreamModel;
use crate::keys::spec_publish_subscribe;
use crate::keys::spec_service_details;
use crate::service::DetailsModel;
use crate::service::MessagingPattern;
use crate::service::ServiceId;
use crate::service::StaticDetails;
use crate::text::str_eq;

verus! {

/// How many overlay messages an inbound stream's bounded queue may hold
/// between two poll cycles.
pub const INBOUND_QUEUE_DEPTH: usize = 10;

/// Mathematical image of an [`Announcer`].
#[verifier::ext_equal]
pub struct AnnouncerModel {
    pub key: Seq<char>,
    pub reply: Seq<char>,
}

/// The per-service responder: it owns the announcement text of one
/// service's immutable details and replies with it to every query at the
/// service's detail key.
pub struct Announcer {
    details_key: String,
    announcement: String,
}

impl View for Announcer {
    type V = AnnouncerModel;

    closed spec fn view(&self) -> AnnouncerModel {
        AnnouncerModel { key: self.details_key@, reply: self.announcement@ }
    }
}

impl DeepView for Announcer {
    type V = AnnouncerModel;

    open spec fn deep_view(&self) -> AnnouncerModel {
        self@
    }
}

impl Announcer {
    /// A responder for the given details, registered at the service's
    /// detail key and replying with the announcement text of the details.
    pub fn new(details: &StaticDetails) -> (r: Announcer)
        ensures
            r@ == (AnnouncerModel {
                key: spec_service_details(details@.id),
                reply: spec_encode(details@),
            }),
    {
        Announcer {
            details_key: crate::keys::service_details(&details.service_id),
            announcement: encode(details),
        }
    }

    /// The key this responder is registered at.
    pub fn key(&self) -> (r: &String)
        ensures
            r@ == self@.key,
    {
        &self.details_key
    }

    /// The reply served to each query: the announcement text.
    pub fn reply(&self) -> (r: &String)
        ensures
            r@ == self@.reply,
    {
        &self.announcement
    }
}

/// Mathematical image of a [`ServiceSetup`].
#[verifier::ext_equal]
pub struct SetupModel {
    pub details: DetailsModel,
    pub data_key: Seq<char>,
    pub details_key: Seq<char>,
    pub announcement: Seq<char>,
    pub inbound_depth: usize,
    pub inbound_remote_only: bool,
}

/// Everything the driver must do for one newly discovered service: open
/// or create the local service matching the captured details and give it
/// one local subscriber and one local publisher; declare an overlay
/// publisher and an overlay subscriber at `data_key`, the subscriber with
/// the stated bounded queue depth and restricted to remotely-originated
/// messages; and register a query responder at `details_key` replying
/// with `announcement`.
pub struct ServiceSetup {
    pub details: StaticDetails,
    pub data_key: String,
    pub details_key: String,
    pub announcement: String,
    pub inbound_depth: usize,
    pub inbound_remote_only: bool,
}

impl View for ServiceSetup {
    type V = SetupModel;

    open spec fn view(&self) -> SetupModel {
        SetupModel {
            details: self.details@,
            data_key: self.data_key@,
            details_key: self.details_key@,
            announcement: self.announcement@,
            inbound_depth: self.inbound_depth,
            inbound_remote_only: self.inbound_remote_only,
        }
    }
}

impl DeepView for ServiceSetup {
    type V = SetupModel;

    open spec fn deep_view(&self) -> SetupModel {
        self@
    }
}

/// The setup a discovery of the given details entails.
pub open spec fn spec_setup_of(d: DetailsModel) -> SetupModel {
    SetupModel {
        details: d,
        data_key: spec_publish_subscribe(d.id),
        details_key: spec_service_details(d.id),
        announcement: spec_encode(d),
        inbound_depth: INBOUND_QUEUE_DEPTH,
        inbound_remote_only: true,
    }
}

/// Mathematical image of a [`Tunnel`].
#[verifier::ext_equal]
pub struct TunnelModel {
    pub host: u64,
    pub outbound: Seq<StreamModel>,
    pub inbound: Seq<StreamModel>,
    pub announcers: Seq<AnnouncerModel>,
}

impl TunnelModel {
    /// The standing shape of a tunnel: streams come in pairs, one
    /// outbound and one inbound per identifier, every identifier appears
    /// at most once, every stream forwards at its identifier's own data
    /// key, and every identifier has its announcer at its detail key.
    pub open spec fn wf(self) -> bool {
        &&& self.inbound.len() == self.outbound.len()
        &&& self.announcers.len() == self.outbound.len()
        &&& forall|i: int|
            0 <= i < self.outbound.len() ==> (#[trigger] self.outbound[i]).direction
                == Direction::Outbound
        &&& forall|i: int| 0 <= i < self.outbound.len() ==> (#[trigger] self.outbound[i]).wf()
        &&& forall|i: int|
            0 <= i < self.inbound.len() ==> (#[trigger] self.inbound[i]).direction
                == Direction::Inbound
        &&& forall|i: int|
            0 <= i < self.inbound.len() ==> (#[trigger] self.inbound[i]).id == self.outbound[i].id
                && self.inbound[i].key == self.outbound[i].key
        &&& forall|i: int, j: int|
            0 <= i < j < self.outbound.len() ==> (#[trigger] self.outbound[i]).id != (
            #[trigger] self.outbound[j]).id
        &&& forall|i: int|
            0 <= i < self.announcers.len() ==> (#[trigger] self.announcers[i]).key
                == spec_service_details(self.outbound[i].id)
    }
}

/// Whether the tunnel already has a stream pair for the identifier.
pub open spec fn spec_tunnel_contains(t: TunnelModel, id: Seq<char>) -> bool {
    exists|i: int| 0 <= i < t.outbound.len() && (#[trigger] t.outbound[i]).id == id
}

/// Whether the inbound map has a stream for the identifier.
pub open spec fn spec_inbound_contains(t: TunnelModel, id: Seq<char>) -> bool {
    exists|i: int| 0 <= i < t.inbound.len() && (#[trigger] t.inbound[i]).id == id
}

/// The tunnel after one service is taken in: an outbound and an inbound
/// stream at the service's data key, and its announcer.
pub open spec fn spec_register(t: TunnelModel, d: DetailsModel) -> TunnelModel {
    TunnelModel {
        host: t.host,
        outbound: t.outbound.push(
            StreamModel {
                direction: Direction::Outbound,
                id: d.id,
                key: spec_publish_subscribe(d.id),
            },
        ),
        inbound: t.inbound.push(
            StreamModel {
                direction: Direction::Inbound,
                id: d.id,
                key: spec_publish_subscribe(d.id),
            },
        ),
        announcers: t.announcers.push(
            AnnouncerModel { key: spec_service_details(d.id), reply: spec_encode(d) },
        ),
    }
}

/// Discovery reconciliation over a tracker snapshot: walk the added
/// details in order; take in each publish-subscribe service that has no
/// stream pair yet; skip every other entry.  Yields the reconciled tunnel
/// and the setups for exactly the services taken in, in order.
pub open spec fn spec_discover(t: TunnelModel, added: Seq<DetailsModel>) -> (TunnelModel, Seq<
    SetupModel,
>)
    decreases added.len(),
{
    if added.len() == 0 {
        (t, Seq::empty())
    } else {
        let r = spec_discover(t, added.drop_last());
        let d = added.last();
        if d.pattern == MessagingPattern::PublishSubscribe && !spec_tunnel_contains(r.0, d.id) {
            (spec_register(r.0, d), r.1.push(spec_setup_of(d)))
        } else {
            r
        }
    }
}

/// The reply the tunnel's announcers give to a query at a key: the
/// announcement of the first announcer registered at that key.
pub open spec fn spec_respond(announcers: Seq<AnnouncerModel>, key: Seq<char>) -> Option<
    Seq<char>,
>
    decreases announcers.len(),
{
    if announcers.len() == 0 {
        None
    } else if announcers.first().key == key {
        Some(announcers.first().reply)
    } else {
        spec_respond(announcers.drop_first(), key)
    }
}

/// Mathematical image of a [`StreamBatch`].
#[verifier::ext_equal]
pub struct BatchModel {
    pub id: Seq<char>,
    pub local: Seq<Seq<u8>>,
    pub overlay: Seq<OverlayMessageModel>,
}

/// One poll cycle's ready messages for one service, as collected by the
/// driver: the samples drained from the local subscriber and the messages
/// drained from the overlay subscriber.
pub struct StreamBatch {
    pub service_id: ServiceId,
    pub local_samples: Vec<Vec<u8>>,
    pub overlay_samples: Vec<OverlayMessage>,
}

impl View for StreamBatch {
    type V = BatchModel;

    open spec fn view(&self) -> BatchModel {
        BatchModel {
            id: self.service_id@,
            local: self.local_samples.deep_view(),
            overlay: self.overlay_samples.deep_view(),
        }
    }
}

impl DeepView for StreamBatch {
    type V = BatchModel;

    open spec fn deep_view(&self) -> BatchModel {
        self@
    }
}

/// Mathematical image of a [`ForwardingActions`].
#[verifier::ext_equal]
pub struct ActionModel {
    pub id: Seq<char>,
    pub publishes: Seq<OverlayMessageModel>,
    pub deliveries: Seq<Seq<u8>>,
}

/// What the driver must forward for one service after one poll cycle:
/// `publishes` go out at the service's data key on the overlay, in order;
/// `deliveries` go into the local transport through the service's local
/// publisher, in order, each loaned at exactly its byte length.
pub struct ForwardingActions {
    pub service_id: ServiceId,
    pub publishes: Vec<OverlayMessage>,
    pub deliveries: Vec<Vec<u8>>,
}

impl View for ForwardingActions {
    type V = ActionModel;

    open spec fn view(&self) -> ActionModel {
        ActionModel {
            id: self.service_id@,
            publishes: self.publishes.deep_view(),
            deliveries: self.deliveries.deep_view(),
        }
    }
}

impl DeepView for ForwardingActions {
    type V = ActionModel;

    open spec fn deep_view(&self) -> ActionModel {
        self@
    }
}

/// Data propagation over one poll cycle: every batch whose identifier has
/// a registered stream pair contributes one action set, in batch order;
/// its outbound leg stamps this host's identity on every local sample and
/// its inbound leg keeps exactly the remotely-originated messages.
pub open spec fn spec_propagate(t: TunnelModel, batches: Seq<BatchModel>) -> Seq<ActionModel>
    decreases batches.len(),
{
    if batches.len() == 0 {
        Seq::empty()
    } else {
        let rest = spec_propagate(t, batches.drop_last());
        let b = batches.last();
        if spec_tunnel_contains(t, b.id) {
            rest.push(
                ActionModel {
                    id: b.id,
                    publishes: spec_outbound_messages(t.host, b.local),
                    deliveries: spec_inbound_deliveries(t.host, b.overlay),
                },
            )
        } else {
            rest
        }
    }
}

/// Registration never removes a mapping, and maps the registered
/// identifier.
proof fn lemma_register_contains(t: TunnelModel, d: DetailsModel, id: Seq<char>)
    ensures
        spec_tunnel_contains(t, id) ==> spec_tunnel_contains(spec_register(t, d), id),
        spec_tunnel_contains(spec_register(t, d), d.id),
{
    let r = spec_register(t, d);
    if spec_tunnel_contains(t, id) {
        let i = choose|i: int| 0 <= i < t.outbound.len() && (#[trigger] t.outbound[i]).id == id;
        assert(r.outbound[i].id == id);
    }
    assert(r.outbound[t.outbound.len() as int].id == d.id);
}

/// Discovery never removes a mapping.
pub proof fn lemma_discover_monotonic(t: TunnelModel, added: Seq<DetailsModel>, id: Seq<char>)
    requires
        spec_tunnel_contains(t, id),
    ensures
        spec_tunnel_contains(spec_discover(t, added).0, id),
    decreases added.len(),
{
    if added.len() != 0 {
        lemma_discover_monotonic(t, added.drop_last(), id);
        let r = spec_discover(t, added.drop_last());
        lemma_register_contains(r.0, added.last(), id);
    }
}

/// After one discovery pass, every added publish-subscribe identifier is
/// mapped.
pub proof fn lemma_discover_contains_added(t: TunnelModel, added: Seq<DetailsModel>, i: int)
    requires
        0 <= i < added.len(),
        added[i].pattern == MessagingPattern::PublishSubscribe,
    ensures
        spec_tunnel_contains(spec_discover(t, added).0, added[i].id),
    decreases added.len(),
{
    let r = spec_discover(t, added.drop_last());
    let d = added.last();
    if i == added.len() - 1 {
        if !spec_tunnel_contains(r.0, d.id) {
            lemma_register_contains(r.0, d, d.id);
        } else {
            lemma_register_contains(r.0, d, d.id);
        }
    } else {
        assert(added.drop_last()[i] == added[i]);
        lemma_discover_contains_added(t, added.drop_last(), i);
        lemma_register_contains(r.0, d, added[i].id);
    }
}

/// Discovery is idempotent: a second pass over the same snapshot changes
/// nothing and asks the driver for nothing.
pub proof fn lemma_discover_idempotent(t: TunnelModel, added: Seq<DetailsModel>)
    ensures
        spec_discover(spec_discover(t, added).0, added) == (
            spec_discover(t, added).0,
            Seq::<SetupModel>::empty(),
        ),
{
    let once = spec_discover(t, added).0;
    lemma_discover_idempotent_step(t, added, added);
}

/// A second discovery pass over any part of an already reconciled
/// snapshot is a no-op.
proof fn lemma_discover_idempotent_step(
    t: TunnelModel,
    added: Seq<DetailsModel>,
    part: Seq<DetailsModel>,
)
    requires
        forall|i: int|
            0 <= i < part.len() ==> exists|j: int|
                0 <= j < added.len() && added[j] == #[trigger] part[i],
    ensures
        spec_discover(spec_discover(t, added).0, part) == (
            spec_discover(t, added).0,
            Seq::<SetupModel>::empty(),
        ),
    decreases part.len(),
{
    let once = spec_discover(t, added).0;
    if part.len() == 0 {
        assert(spec_discover(once, part).1 =~= Seq::<SetupModel>::empty());
    } else {
        assert forall|i: int| 0 <= i < part.drop_last().len() implies exists|j: int|
            0 <= j < added.len() && added[j] == #[trigger] part.drop_last()[i] by {
            assert(part.drop_last()[i] == part[i]);
        }
        lemma_discover_idempotent_step(t, added, part.drop_last());
        let d = part.last();
        if d.pattern == MessagingPattern::PublishSubscribe {
            let j = choose|j: int| 0 <= j < added.len() && added[j] == d;
            lemma_discover_contains_added(t, added, j);
            assert(spec_tunnel_contains(once, d.id));
        }
    }
}

/// After one discovery pass over a well-formed tunnel, every added
/// publish-subscribe identifier has exactly one outbound and exactly one
/// inbound stream.
pub proof fn lemma_discovered_service_is_paired(
    t: TunnelModel,
    added: Seq<DetailsModel>,
    i: int,
)
    requires
        t.wf(),
        forall|j: int| 0 <= j < added.len() ==> (#[trigger] added[j]).wf(),
        0 <= i < added.len(),
        added[i].pattern == MessagingPattern::PublishSubscribe,
    ensures
        spec_tunnel_contains(spec_discover(t, added).0, added[i].id),
        spec_inbound_contains(spec_discover(t, added).0, added[i].id),
        forall|a: int, b: int|
            0 <= a < spec_discover(t, added).0.outbound.len() && 0 <= b < spec_discover(
                t,
                added,
            ).0.outbound.len() && (#[trigger] spec_discover(t, added).0.outbound[a]).id == (
            #[trigger] spec_discover(t, added).0.outbound[b]).id ==> a == b,
{
    lemma_discover_contains_added(t, added, i);
    lemma_discover_wf(t, added);
    lemma_stream_pairing(spec_discover(t, added).0);
}

/// Discovery is deterministic in the service configuration: two tunnels
/// holding the same stream registry — whatever their overlay identities —
/// derive identical identifiers, keys, announcements and setups from the
/// same snapshot.
pub proof fn lemma_discover_deterministic(
    a: TunnelModel,
    b: TunnelModel,
    added: Seq<DetailsModel>,
)
    requires
        a.outbound == b.outbound,
    ensures
        spec_discover(a, added).1 == spec_discover(b, added).1,
        spec_discover(a, added).0.outbound == spec_discover(b, added).0.outbound,
    decreases added.len(),
{
    if added.len() != 0 {
        lemma_discover_deterministic(a, b, added.drop_last());
        let ra = spec_discover(a, added.drop_last());
        let rb = spec_discover(b, added.drop_last());
        let d = added.last();
        assert(spec_tunnel_contains(ra.0, d.id) == spec_tunnel_contains(rb.0, d.id)) by {
            if spec_tunnel_contains(ra.0, d.id) {
                let i = choose|i: int|
                    0 <= i < ra.0.outbound.len() && (#[trigger] ra.0.outbound[i]).id == d.id;
                assert(rb.0.outbound[i].id == d.id);
            }
            if spec_tunnel_contains(rb.0, d.id) {
                let i = choose|i: int|
                    0 <= i < rb.0.outbound.len() && (#[trigger] rb.0.outbound[i]).id == d.id;
                assert(ra.0.outbound[i].id == d.id);
            }
        }
    }
}

/// In a well-formed tunnel an identifier has an outbound stream exactly
/// when it has an inbound stream, and never more than one of either.
pub proof fn lemma_stream_pairing(t: TunnelModel)
    requires
        t.wf(),
    ensures
        forall|id: Seq<char>| spec_tunnel_contains(t, id) <==> spec_inbound_contains(t, id),
        forall|i: int, j: int|
            0 <= i < t.outbound.len() && 0 <= j < t.outbound.len() && (
            #[trigger] t.outbound[i]).id == (#[trigger] t.outbound[j]).id ==> i == j,
        forall|i: int, j: int|
            0 <= i < t.inbound.len() && 0 <= j < t.inbound.len() && (#[trigger] t.inbound[i]).id
                == (#[trigger] t.inbound[j]).id ==> i == j,
{
    assert forall|id: Seq<char>| spec_tunnel_contains(t, id) <==> spec_inbound_contains(
        t,
        id,
    ) by {
        if spec_tunnel_contains(t, id) {
            let i = choose|i: int|
                0 <= i < t.outbound.len() && (#[trigger] t.outbound[i]).id == id;
            assert(t.inbound[i].id == id);
        }
        if spec_inbound_contains(t, id) {
            let i = choose|i: int| 0 <= i < t.inbound.len() && (#[trigger] t.inbound[i]).id == id;
            assert(t.outbound[i].id == id);
        }
    }
    assert forall|i: int, j: int|
        0 <= i < t.inbound.len() && 0 <= j < t.inbound.len() && (#[trigger] t.inbound[i]).id == (
        #[trigger] t.inbound[j]).id implies i == j by {
        assert(t.inbound[i].id == t.outbound[i].id);
        assert(t.inbound[j].id == t.outbound[j].id);
    }
}

/// When all earlier announcers hold other keys, a query at an announcer's
/// key is answered with that announcer's reply.
proof fn lemma_respond_unique(announcers: Seq<AnnouncerModel>, j: int)
    requires
        0 <= j < announcers.len(),
        forall|i: int| 0 <= i < j ==> (#[trigger] announcers[i]).key != announcers[j].key,
    ensures
        spec_respond(announcers, announcers[j].key) == Some(announcers[j].reply),
    decreases j,
{
    if j == 0 {
        assert(announcers.first() == announcers[0]);
    } else {
        assert(announcers.first() == announcers[0]);
        let rest = announcers.drop_first();
        assert(rest[j - 1] == announcers[j]);
        assert forall|i: int| 0 <= i < j - 1 implies (#[trigger] rest[i]).key != rest[j - 1].key by {
            assert(rest[i] == announcers[i + 1]);
        }
        lemma_respond_unique(rest, j - 1);
    }
}

/// In a well-formed tunnel each announcer answers the queries at its own
/// key: announcer keys never collide, because identifiers are unique and
/// distinct identifiers derive distinct detail keys.
pub proof fn lemma_respond_in_wf(t: TunnelModel, i: int)
    requires
        t.wf(),
        0 <= i < t.announcers.len(),
    ensures
        spec_respond(t.announcers, t.announcers[i].key) == Some(t.announcers[i].reply),
{
    assert forall|a: int| 0 <= a < i implies (#[trigger] t.announcers[a]).key
        != t.announcers[i].key by {
        if t.announcers[a].key == t.announcers[i].key {
            crate::keys::lemma_service_details_injective(t.outbound[a].id, t.outbound[i].id);
        }
    }
    lemma_respond_unique(t.announcers, i);
}

/// Discovery keeps a tunnel well-formed.
pub proof fn lemma_discover_wf(t: TunnelModel, added: Seq<DetailsModel>)
    requires
        t.wf(),
        forall|i: int| 0 <= i < added.len() ==> (#[trigger] added[i]).wf(),
    ensures
        spec_discover(t, added).0.wf(),
    decreases added.len(),
{
    if added.len() != 0 {
        assert forall|i: int| 0 <= i < added.drop_last().len() implies (
        #[trigger] added.drop_last()[i]).wf() by {
            assert(added.drop_last()[i] == added[i]);
        }
        lemma_discover_wf(t, added.drop_last());
        let r = spec_discover(t, added.drop_last());
        let d = added.last();
        assert(d == added[added.len() - 1]);
        if d.pattern == MessagingPattern::PublishSubscribe && !spec_tunnel_contains(r.0, d.id) {
            lemma_register_wf(r.0, d);
        }
    }
}

/// Every setup discovery returns has its announcer in the reconciled
/// tunnel: same key, same reply.
proof fn lemma_discover_announcer_exists(t: TunnelModel, added: Seq<DetailsModel>, k: int)
    requires
        0 <= k < spec_discover(t, added).1.len(),
    ensures
        exists|i: int|
            0 <= i < spec_discover(t, added).0.announcers.len() && (#[trigger] spec_discover(
                t,
                added,
            ).0.announcers[i]).key == spec_discover(t, added).1[k].details_key && spec_discover(
                t,
                added,
            ).0.announcers[i].reply == spec_discover(t, added).1[k].announcement,
    decreases added.len(),
{
    let full = spec_discover(t, added);
    let r = spec_discover(t, added.drop_last());
    let d = added.last();
    if d.pattern == MessagingPattern::PublishSubscribe && !spec_tunnel_contains(r.0, d.id) {
        if k < r.1.len() {
            lemma_discover_announcer_exists(t, added.drop_last(), k);
            let i = choose|i: int|
                0 <= i < r.0.announcers.len() && (#[trigger] r.0.announcers[i]).key
                    == r.1[k].details_key && r.0.announcers[i].reply == r.1[k].announcement;
            assert(full.0.announcers[i] == r.0.announcers[i]);
            assert(full.1[k] == r.1[k]);
        } else {
            let i = r.0.announcers.len() as int;
            assert(full.0.announcers[i].key == spec_service_details(d.id));
            assert(full.1[k] == spec_setup_of(d));
        }
    } else {
        lemma_discover_announcer_exists(t, added.drop_last(), k);
    }
}

/// Announcement service: after discovery, a query at the detail key of
/// any setup the call returned is answered with exactly that setup's
/// announcement text.
pub proof fn lemma_announcement_served(t: TunnelModel, added: Seq<DetailsModel>, k: int)
    requires
        t.wf(),
        forall|i: int| 0 <= i < added.len() ==> (#[trigger] added[i]).wf(),
        0 <= k < spec_discover(t, added).1.len(),
    ensures
        spec_respond(spec_discover(t, added).0.announcers, spec_discover(t, added).1[k].details_key)
            == Some(spec_discover(t, added).1[k].announcement),
{
    let t1 = spec_discover(t, added).0;
    let setup = spec_discover(t, added).1[k];
    lemma_discover_wf(t, added);
    lemma_discover_announcer_exists(t, added, k);
    let i = choose|i: int|
        0 <= i < t1.announcers.len() && (#[trigger] t1.announcers[i]).key == setup.details_key
            && t1.announcers[i].reply == setup.announcement;
    lemma_respond_in_wf(t1, i);
}

/// Announcement correctness: the announcement in a service's setup is the
/// exact encoding of the captured details, served at that service's own
/// detail key, and parsing it yields the captured details again.
pub proof fn lemma_setup_announcement(d: DetailsModel)
    requires
        d.wf(),
    ensures
        spec_setup_of(d).announcement == spec_encode(d),
        spec_setup_of(d).details_key == spec_service_details(d.id),
        crate::announce::spec_decode(spec_setup_of(d).announcement) == Some(d),
{
    crate::announce::lemma_decode_encode(d);
}

/// Taking in a service that is not yet mapped keeps the tunnel
/// well-formed.
proof fn lemma_register_wf(t: TunnelModel, d: DetailsModel)
    requires
        t.wf(),
        d.wf(),
        !spec_tunnel_contains(t, d.id),
    ensures
        spec_register(t, d).wf(),
{
    let r = spec_register(t, d);
    let n = t.outbound.len() as int;
    assert forall|i: int| 0 <= i < r.outbound.len() implies (#[trigger] r.outbound[i]).direction
        == Direction::Outbound && r.outbound[i].wf() by {
        if i < n {
            assert(r.outbound[i] == t.outbound[i]);
        }
    }
    assert forall|i: int| 0 <= i < r.inbound.len() implies (#[trigger] r.inbound[i]).direction
        == Direction::Inbound && r.inbound[i].id == r.outbound[i].id && r.inbound[i].key
        == r.outbound[i].key by {
        if i < n {
            assert(r.inbound[i] == t.inbound[i]);
            assert(r.outbound[i] == t.outbound[i]);
        }
    }
    assert forall|i: int, j: int| 0 <= i < j < r.outbound.len() implies (
    #[trigger] r.outbound[i]).id != (#[trigger] r.outbound[j]).id by {
        if j < n {
            assert(r.outbound[i] == t.outbound[i]);
            assert(r.outbound[j] == t.outbound[j]);
        } else {
            assert(r.outbound[i] == t.outbound[i]);
            assert(r.outbound[j].id == d.id);
            if t.outbound[i].id == d.id {
                assert(spec_tunnel_contains(t, d.id));
            }
        }
    }
    assert forall|i: int| 0 <= i < r.announcers.len() implies (#[trigger] r.announcers[i]).key
        == spec_service_details(r.outbound[i].id) by {
        if i < n {
            assert(r.announcers[i] == t.announcers[i]);
            assert(r.outbound[i] == t.outbound[i]);
        }
    }
}

/// The tunnel: the owner of the stream registry and the announcers of one
/// overlay session, identified on the overlay by `host`.
pub struct Tunnel {
    host: u64,
    outbound_streams: Vec<DataStream>,
    inbound_streams: Vec<DataStream>,
    announcers: Vec<Announcer>,
}

impl View for Tunnel {
    type V = TunnelModel;

    closed spec fn view(&self) -> TunnelModel {
        TunnelModel {
            host: self.host,
            outbound: self.outbound_streams.deep_view(),
            inbound: self.inbound_streams.deep_view(),
            announcers: self.announcers.deep_view(),
        }
    }
}

impl Tunnel {
    /// A fresh tunnel with no streams, identified on the overlay by
    /// `host`.  The driver opens the overlay session and the local node
    /// and hands in the session's identity.
    pub fn new(host: u64) -> (r: Tunnel)
        ensures
            r@ == (TunnelModel {
                host,
                outbound: Seq::<StreamModel>::empty(),
                inbound: Seq::<StreamModel>::empty(),
                announcers: Seq::<AnnouncerModel>::empty(),
            }),
            r@.wf(),
    {
        let r = Tunnel {
            host,
            outbound_streams: Vec::new(),
            inbound_streams: Vec::new(),
            announcers: Vec::new(),
        };
        proof {
            assert(r@.outbound =~= Seq::<StreamModel>::empty());
            assert(r@.inbound =~= Seq::<StreamModel>::empty());
            assert(r@.announcers =~= Seq::<AnnouncerModel>::empty());
            assert(r@ =~= (TunnelModel {
                host,
                outbound: Seq::<StreamModel>::empty(),
                inbound: Seq::<StreamModel>::empty(),
                announcers: Seq::<AnnouncerModel>::empty(),
            }));
        }
        r
    }

    /// A lifecycle marker: the tunnel is up.  It acquires nothing; all
    /// resources are bound to the tunnel value itself.
    pub fn initialize(&mut self)
        ensures
            final(self)@ == old(self)@,
    {
    }

    /// A lifecycle marker: the tunnel is going down.  It releases
    /// nothing; all resources are released with the tunnel value itself.
    pub fn shutdown(&mut self)
        ensures
            final(self)@ == old(self)@,
    {
    }

    /// The overlay identity of this tunnel's session.
    pub fn host(&self) -> (r: u64)
        ensures
            r == self@.host,
    {
        self.host
    }

    /// Whether a stream pair for the identifier is already registered.
    pub fn contains_id(&self, id: &ServiceId) -> (r: bool)
        ensures
            r == spec_tunnel_contains(self@, id@),
    {
        let n = self.outbound_streams.len();
        let mut i: usize = 0;
        while i < n
            invariant
                n == self@.outbound.len(),
                i <= n,
                forall|j: int| 0 <= j < i ==> (#[trigger] self@.outbound[j]).id != id@,
            decreases n - i,
        {
            if self.outbound_streams[i].service_id().matches(id) {
                proof {
                    assert(self@.outbound[i as int].id == id@);
                }
                return true;
            }
            i += 1;
        }
        false
    }

    /// The position of the identifier's stream pair, if it has one.
    fn stream_index(&self, id: &ServiceId) -> (r: Option<usize>)
        ensures
            match r {
                Some(i) => i < self@.outbound.len() && self@.outbound[i as int].id == id@
                    && spec_tunnel_contains(self@, id@),
                None => !spec_tunnel_contains(self@, id@),
            },
    {
        let n = self.outbound_streams.len();
        let mut i: usize = 0;
        while i < n
            invariant
                n == self@.outbound.len(),
                i <= n,
                forall|j: int| 0 <= j < i ==> (#[trigger] self@.outbound[j]).id != id@,
            decreases n - i,
        {
            if self.outbound_streams[i].service_id().matches(id) {
                return Some(i);
            }
            i += 1;
        }
        None
    }

    /// The identifiers of all registered stream pairs, in registration
    /// order.
    pub fn stream_ids(&self) -> (r: Vec<String>)
        ensures
            r.deep_view().len() == self@.outbound.len(),
            forall|i: int|
                0 <= i < self@.outbound.len() ==> r.deep_view()[i] == (
                #[trigger] self@.outbound[i]).id,
    {
        let mut r: Vec<String> = Vec::new();
        let n = self.outbound_streams.len();
        let mut i: usize = 0;
        while i < n
            invariant
                n == self@.outbound.len(),
                i <= n,
                r.deep_view().len() == i,
                forall|j: int| 0 <= j < i ==> r.deep_view()[j] == (#[trigger] self@.outbound[j]).id,
            decreases n - i,
        {
            let id = String::from_str(self.outbound_streams[i].service_id().as_str());
            let ghost idv = id@;
            let ghost prior = r.deep_view();
            let ghost priorv = r@;
            r.push(id);
            proof {
                assert(r.deep_view() =~= prior.push(idv)) by {
                    assert(r@ == priorv.push(r@.last()));
                    assert(r@.last().deep_view() =~= idv);
                }
            }
            i += 1;
        }
        r
    }

    /// Discovery reconciliation.  The driver synchronizes its tracker
    /// against the current configuration and hands in the details of the
    /// added services; the tunnel takes in every publish-subscribe
    /// service that has no stream pair yet — re-observing an
    /// already-mapped identifier is a no-op — and returns one setup per
    /// service taken in, for the driver to open the actual endpoints.
    pub fn discover(&mut self, added: &Vec<StaticDetails>) -> (setups: Vec<ServiceSetup>)
        requires
            old(self)@.wf(),
            forall|i: int|
                0 <= i < added.deep_view().len() ==> (#[trigger] added.deep_view()[i]).wf(),
        ensures
            final(self)@ == spec_discover(old(self)@, added.deep_view()).0,
            setups.deep_view() == spec_discover(old(self)@, added.deep_view()).1,
            final(self)@.wf(),
    {
        let mut setups: Vec<ServiceSetup> = Vec::new();
        let n = added.len();
        let mut k: usize = 0;
        proof {
            assert(added.deep_view().take(0) =~= Seq::<DetailsModel>::empty());
            assert(setups.deep_view() =~= Seq::<SetupModel>::empty());
        }
        while k < n
            invariant
                old(self)@.wf(),
                n == added.deep_view().len(),
                k <= n,
                forall|i: int|
                    0 <= i < added.deep_view().len() ==> (#[trigger] added.deep_view()[i]).wf(),
                self@ == spec_discover(old(self)@, added.deep_view().take(k as int)).0,
                setups.deep_view() == spec_discover(old(self)@, added.deep_view().take(k as int)).1,
                self@.wf(),
            decreases n - k,
        {
            let d = &added[k];
            proof {
                let pre = added.deep_view().take(k as int);
                let cur = added.deep_view().take(k as int + 1);
                assert(cur.drop_last() =~= pre);
                assert(cur.last() == added.deep_view()[k as int]);
                assert(added.deep_view()[k as int] == d@);
            }
            let ghost t1 = self@;
            let ghost s1 = setups.deep_view();
            if d.pattern == MessagingPattern::PublishSubscribe && !self.contains_id(
                &d.service_id,
            ) {
                let key = crate::keys::publish_subscribe(&d.service_id);
                let details_key = crate::keys::service_details(&d.service_id);
                let announcement = encode(d);
                let outbound = DataStream::new_outbound(d.service_id.clone(), key.clone());
                let ghost om = outbound@;
                let ghost prior_out = self.outbound_streams.deep_view();
                let ghost priorv_out = self.outbound_streams@;
                self.outbound_streams.push(outbound);
                proof {
                    assert(self.outbound_streams.deep_view() =~= prior_out.push(om)) by {
                        assert(self.outbound_streams@ == priorv_out.push(
                            self.outbound_streams@.last(),
                        ));
                    }
                }
                let inbound = DataStream::new_inbound(d.service_id.clone(), key.clone());
                let ghost im = inbound@;
                let ghost prior_in = self.inbound_streams.deep_view();
                let ghost priorv_in = self.inbound_streams@;
                self.inbound_streams.push(inbound);
                proof {
                    assert(self.inbound_streams.deep_view() =~= prior_in.push(im)) by {
                        assert(self.inbound_streams@ == priorv_in.push(
                            self.inbound_streams@.last(),
                        ));
                    }
                }
                let announcer = Announcer::new(d);
                let ghost am = announcer@;
                let ghost prior_ann = self.announcers.deep_view();
                let ghost priorv_ann = self.announcers@;
                self.announcers.push(announcer);
                proof {
                    assert(self.announcers.deep_view() =~= prior_ann.push(am)) by {
                        assert(self.announcers@ == priorv_ann.push(self.announcers@.last()));
                    }
                }
                let setup = ServiceSetup {
                    details: d.clone(),
                    data_key: key,
                    details_key,
                    announcement,
                    inbound_depth: INBOUND_QUEUE_DEPTH,
                    inbound_remote_only: true,
                };
                let ghost sm = setup@;
                let ghost prior_set = setups.deep_view();
                let ghost priorv_set = setups@;
                setups.push(setup);
                proof {
                    assert(setups.deep_view() =~= prior_set.push(sm)) by {
                        assert(setups@ == priorv_set.push(setups@.last()));
                    }
                    assert(self@ =~= spec_register(t1, d@));
                    assert(sm =~= spec_setup_of(d@));
                    lemma_register_wf(t1, d@);
                    let cur = added.deep_view().take(k as int + 1);
                    assert(self@ == spec_discover(old(self)@, cur).0);
                    assert(setups.deep_view() == spec_discover(old(self)@, cur).1);
                }
            } else {
                proof {
                    let cur = added.deep_view().take(k as int + 1);
                    assert(self@ == spec_discover(old(self)@, cur).0);
                    assert(setups.deep_view() == spec_discover(old(self)@, cur).1);
                }
            }
            k += 1;
        }
        proof {
            assert(added.deep_view().take(n as int) =~= added.deep_view());
        }
        setups
    }

    /// Data propagation over one poll cycle.  The driver drains every
    /// endpoint without blocking and hands in one batch per service; the
    /// tunnel answers, for every batch whose identifier has a registered
    /// stream pair, with the overlay messages to publish and the local
    /// payloads to deliver, in order, bytes unchanged.
    pub fn propagate(&self, batches: &Vec<StreamBatch>) -> (actions: Vec<ForwardingActions>)
        requires
            self@.wf(),
        ensures
            actions.deep_view() == spec_propagate(self@, batches.deep_view()),
    {
        let mut actions: Vec<ForwardingActions> = Vec::new();
        let n = batches.len();
        let mut k: usize = 0;
        proof {
            assert(batches.deep_view().take(0) =~= Seq::<BatchModel>::empty());
            assert(actions.deep_view() =~= Seq::<ActionModel>::empty());
        }
        while k < n
            invariant
                self@.wf(),
                n == batches.deep_view().len(),
                k <= n,
                actions.deep_view() == spec_propagate(self@, batches.deep_view().take(k as int)),
            decreases n - k,
        {
            let b = &batches[k];
            proof {
                let pre = batches.deep_view().take(k as int);
                let cur = batches.deep_view().take(k as int + 1);
                assert(cur.drop_last() =~= pre);
                assert(cur.last() == batches.deep_view()[k as int]);
                assert(batches.deep_view()[k as int] == b@);
            }
            match self.stream_index(&b.service_id) {
                None => {
                    proof {
                        let cur = batches.deep_view().take(k as int + 1);
                        assert(actions.deep_view() == spec_propagate(self@, cur));
                    }
                },
                Some(ix) => {
                    let outbound = &self.outbound_streams[ix];
                    let inbound = &self.inbound_streams[ix];
                    proof {
                        assert(outbound@ == self@.outbound[ix as int]);
                        assert(inbound@ == self@.inbound[ix as int]);
                        assert(outbound@.direction == Direction::Outbound);
                        assert(inbound@.direction == Direction::Inbound);
                    }
                    let out_part = outbound.propagate(
                        self.host,
                        &b.local_samples,
                        &b.overlay_samples,
                    );
                    let in_part = inbound.propagate(
                        self.host,
                        &b.local_samples,
                        &b.overlay_samples,
                    );
                    let action = ForwardingActions {
                        service_id: b.service_id.clone(),
                        publishes: out_part.publishes,
                        deliveries: in_part.deliveries,
                    };
                    let ghost amod = action@;
                    let ghost prior = actions.deep_view();
                    let ghost priorv = actions@;
                    actions.push(action);
                    proof {
                        assert(actions.deep_view() =~= prior.push(amod)) by {
                            assert(actions@ == priorv.push(actions@.last()));
                        }
                        let cur = batches.deep_view().take(k as int + 1);
                        assert(amod =~= (ActionModel {
                            id: b@.id,
                            publishes: spec_outbound_messages(self@.host, b@.local),
                            deliveries: spec_inbound_deliveries(self@.host, b@.overlay),
                        }));
                        assert(actions.deep_view() == spec_propagate(self@, cur));
                    }
                },
            }
            k += 1;
        }
        proof {
            assert(batches.deep_view().take(n as int) =~= batches.deep_view());
        }
        actions
    }

    /// Serves an overlay query: the announcement of the first announcer
    /// registered at the queried key, if any.
    pub fn respond(&self, key: &str) -> (r: Option<&String>)
        ensures
            match r {
                Some(a) => spec_respond(self@.announcers, key@) == Some(a@),
                None => spec_respond(self@.announcers, key@) is None,
            },
    {
        let n = self.announcers.len();
        let mut i: usize = 0;
        proof {
            assert(self@.announcers.skip(0) =~= self@.announcers);
        }
        while i < n
            invariant
                n == self@.announcers.len(),
                i <= n,
                spec_respond(self@.announcers, key@) == spec_respond(
                    self@.announcers.skip(i as int),
                    key@,
                ),
            decreases n - i,
        {
            proof {
                assert(self@.announcers.skip(i as int).first() == self@.announcers[i as int]);
            }
            if str_eq(self.announcers[i].key().as_str(), key) {
                return Some(self.announcers[i].reply());
            }
            proof {
                assert(self@.announcers.skip(i as int).drop_first() =~= self@.announcers.skip(
                    i as int + 1,
                ));
            }
            i += 1;
        }
        proof {
            assert(self@.announcers.skip(n as int).len() == 0);
        }
        None
    }
}

} // verus!
