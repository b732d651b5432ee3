//! Per-service, single-direction forwarding units.
//!
//! An outbound stream carries payloads from the local transport onto the
//! overlay; an inbound stream carries overlay messages back into the local
//! transport.  The driver owns the actual endpoints and hands every ready
//! sample in; the stream decides what crosses the boundary: bytes are
//! copied exactly, per-stream order is preserved, outbound messages carry
//! the forwarding host as their origin, and an inbound stream accepts only
//! remotely-originated messages, so nothing a host forwards can loop back
//! into its own local transport.

use vstd::prelude::*;

use crate::service::valid_id_seq;
use crate::service::ServiceId;
use crate::keys::spec_publish_subscribe;

verus! {

/// A message as it travels on the overlay: the raw payload bytes plus the
/// identity of the session that put it there.
#[derive(Debug)]
pub struct OverlayMessage {
    pub origin: u64,
    pub payload: Vec<u8>,
}

/// Mathematical image of an [`OverlayMessage`].
#[verifier::ext_equal]
pub struct OverlayMessageModel {
    pub origin: u64,
    pub payload: Seq<u8>,
}

impl View for OverlayMessage {
    type V = OverlayMessageModel;

    open spec fn view(&self) -> OverlayMessageModel {
        OverlayMessageModel { origin: self.origin, payload: self.payload@ }
    }
}

impl DeepView for OverlayMessage {
    type V = OverlayMessageModel;

    open spec fn deep_view(&self) -> OverlayMessageModel {
        self@
    }
}

impl Clone for OverlayMessage {
    fn clone(&self) -> (r: Self)
        ensures
            r@ == self@,
    {
        OverlayMessage { origin: self.origin, payload: copy_bytes(&self.payload) }
    }
}

/// The direction of a data stream.
#[derive(Clone, Copy, PartialEq, Eq, Structural, Debug)]
pub enum Direction {
    Outbound,
    Inbound,
}

/// Mathematical image of a [`DataStream`].
#[verifier::ext_equal]
pub struct StreamModel {
    pub direction: Direction,
    pub id: Seq<char>,
    pub key: Seq<char>,
}

/// One forwarding unit of a single service.  An outbound stream stands for
/// a local subscriber paired with an overlay publisher; an inbound stream
/// stands for an overlay subscriber paired with a local publisher.
pub enum DataStream {
    Outbound { service_id: ServiceId, key: String },
    Inbound { service_id: ServiceId, key: String },
}

impl View for DataStream {
    type V = StreamModel;

    open spec fn view(&self) -> StreamModel {
        match self {
            DataStream::Outbound { service_id, key } => StreamModel {
                direction: Direction::Outbound,
                id: service_id@,
                key: key@,
            },
            DataStream::Inbound { service_id, key } => StreamModel {
                direction: Direction::Inbound,
                id: service_id@,
                key: key@,
            },
        }
    }
}

impl DeepView for DataStream {
    type V = StreamModel;

    open spec fn deep_view(&self) -> StreamModel {
        self@
    }
}

impl StreamModel {
    /// A stream is tied to a well-formed identifier and forwards at that
    /// identifier's own data key.
    pub open spec fn wf(self) -> bool {
        &&& valid_id_seq(self.id)
        &&& self.key == spec_publish_subscribe(self.id)
    }
}

/// What one stream hands back to the driver for one poll cycle.
pub struct StreamOutput {
    pub publishes: Vec<OverlayMessage>,
    pub deliveries: Vec<Vec<u8>>,
}

/// Mathematical image of a [`StreamOutput`].
#[verifier::ext_equal]
pub struct OutputModel {
    pub publishes: Seq<OverlayMessageModel>,
    pub deliveries: Seq<Seq<u8>>,
}

impl View for StreamOutput {
    type V = OutputModel;

    open spec fn view(&self) -> OutputModel {
        OutputModel { publishes: self.publishes.deep_view(), deliveries: self.deliveries.deep_view() }
    }
}

/// The overlay messages an outbound stream emits for the local samples it
/// drained, in order, byte for byte, stamped with the forwarding host.
pub open spec fn spec_outbound_messages(host: u64, samples: Seq<Seq<u8>>) -> Seq<
    OverlayMessageModel,
>
    decreases samples.len(),
{
    if samples.len() == 0 {
        Seq::empty()
    } else {
        spec_outbound_messages(host, samples.drop_last()).push(
            OverlayMessageModel { origin: host, payload: samples.last() },
        )
    }
}

/// The payloads an inbound stream delivers into the local transport for
/// the overlay messages it drained: the remotely-originated ones, in
/// order, byte for byte.
pub open spec fn spec_inbound_deliveries(host: u64, messages: Seq<OverlayMessageModel>) -> Seq<
    Seq<u8>,
>
    decreases messages.len(),
{
    if messages.len() == 0 {
        Seq::empty()
    } else {
        let rest = spec_inbound_deliveries(host, messages.drop_last());
        if messages.last().origin != host {
            rest.push(messages.last().payload)
        } else {
            rest
        }
    }
}

/// Copies a payload byte for byte.  This is the one place where message
/// data actually crosses the transport boundary.
pub fn copy_bytes(src: &Vec<u8>) -> (r: Vec<u8>)
    ensures
        r@ == src@,
{
    let mut r: Vec<u8> = Vec::new();
    let n = src.len();
    let mut i: usize = 0;
    while i < n
        invariant
            n == src@.len(),
            i <= n,
            r@ =~= src@.take(i as int),
        decreases n - i,
    {
        r.push(src[i]);
        i += 1;
    }
    proof {
        assert(src@.take(n as int) =~= src@);
    }
    r
}

impl DataStream {
    /// An outbound stream for the given service, forwarding at the given
    /// overlay key.
    pub fn new_outbound(service_id: ServiceId, key: String) -> (r: DataStream)
        ensures
            r@ == (StreamModel { direction: Direction::Outbound, id: service_id@, key: key@ }),
    {
        DataStream::Outbound { service_id, key }
    }

    /// An inbound stream for the given service, receiving at the given
    /// overlay key.
    pub fn new_inbound(service_id: ServiceId, key: String) -> (r: DataStream)
        ensures
            r@ == (StreamModel { direction: Direction::Inbound, id: service_id@, key: key@ }),
    {
        DataStream::Inbound { service_id, key }
    }

    /// The identifier of the service this stream forwards.
    pub fn service_id(&self) -> (r: &ServiceId)
        ensures
            r@ == self@.id,
    {
        match self {
            DataStream::Outbound { service_id, .. } => service_id,
            DataStream::Inbound { service_id, .. } => service_id,
        }
    }

    /// The overlay key this stream forwards at.
    pub fn key(&self) -> (r: &String)
        ensures
            r@ == self@.key,
    {
        match self {
            DataStream::Outbound { key, .. } => key,
            DataStream::Inbound { key, .. } => key,
        }
    }

    /// Drains one poll cycle's ready messages across the transport
    /// boundary.  An outbound stream turns every local sample into an
    /// overlay message stamped with this host's identity; an inbound
    /// stream turns every remotely-originated overlay message into a local
    /// delivery sized exactly to its byte length.  Order within the stream
    /// is preserved and payload bytes are copied unchanged.
    pub fn propagate(&self, host: u64, local_ready: &Vec<Vec<u8>>, overlay_ready: &Vec<
        OverlayMessage,
    >) -> (r: StreamOutput)
        ensures
            self@.direction == Direction::Outbound ==> r@ == (OutputModel {
                publishes: spec_outbound_messages(host, local_ready.deep_view()),
                deliveries: Seq::<Seq<u8>>::empty(),
            }),
            self@.direction == Direction::Inbound ==> r@ == (OutputModel {
                publishes: Seq::<OverlayMessageModel>::empty(),
                deliveries: spec_inbound_deliveries(host, overlay_ready.deep_view()),
            }),
    {
        let mut publishes: Vec<OverlayMessage> = Vec::new();
        let mut deliveries: Vec<Vec<u8>> = Vec::new();
        match self {
            DataStream::Outbound { .. } => {
                let n = local_ready.len();
                let mut i: usize = 0;
                while i < n
                    invariant
                        n == local_ready@.len(),
                        i <= n,
                        publishes.deep_view() =~= spec_outbound_messages(
                            host,
                            local_ready.deep_view().take(i as int),
                        ),
                    decreases n - i,
                {
                    let bytes = copy_bytes(&local_ready[i]);
                    let ghost b = bytes@;
                    let ghost prior = publishes.deep_view();
                    let ghost priorv = publishes@;
                    publishes.push(OverlayMessage { origin: host, payload: bytes });
                    proof {
                        let m = OverlayMessageModel { origin: host, payload: b };
                        assert(publishes.deep_view() =~= prior.push(m)) by {
                            assert(publishes@ == priorv.push(publishes@.last()));
                            assert(publishes@.last()@ == m);
                        }
                        let pre = local_ready.deep_view().take(i as int);
                        let cur = local_ready.deep_view().take(i as int + 1);
                        assert(cur.drop_last() =~= pre);
                        assert(cur.last() == local_ready.deep_view()[i as int]);
                        assert(b == local_ready.deep_view()[i as int]);
                        assert(spec_outbound_messages(host, cur) == spec_outbound_messages(
                            host,
                            pre,
                        ).push(m));
                        assert(publishes.deep_view() =~= spec_outbound_messages(host, cur));
                    }
                    i += 1;
                }
                proof {
                    assert(local_ready.deep_view().take(n as int) =~= local_ready.deep_view());
                }
            },
            DataStream::Inbound { .. } => {
                let n = overlay_ready.len();
                let mut i: usize = 0;
                while i < n
                    invariant
                        n == overlay_ready@.len(),
                        i <= n,
                        deliveries.deep_view() =~= spec_inbound_deliveries(
                            host,
                            overlay_ready.deep_view().take(i as int),
                        ),
                    decreases n - i,
                {
                    let message = &overlay_ready[i];
                    proof {
                        let pre = overlay_ready.deep_view().take(i as int);
                        let cur = overlay_ready.deep_view().take(i as int + 1);
                        assert(cur.drop_last() =~= pre);
                        assert(cur.last() == overlay_ready.deep_view()[i as int]);
                        assert(cur.last() == message@);
                    }
                    let ghost prior = deliveries.deep_view();
                    let ghost priorv = deliveries@;
                    if message.origin != host {
                        let bytes = copy_bytes(&message.payload);
                        let ghost b = bytes@;
                        deliveries.push(bytes);
                        proof {
                            assert(deliveries.deep_view() =~= prior.push(b)) by {
                                assert(deliveries@ == priorv.push(deliveries@.last()));
                                assert(deliveries@.last().deep_view() =~= b);
                            }
                            assert(b == message@.payload);
                        }
                    }
                    proof {
                        let pre = overlay_ready.deep_view().take(i as int);
                        let cur = overlay_ready.deep_view().take(i as int + 1);
                        if message@.origin != host {
                            assert(spec_inbound_deliveries(host, cur) == spec_inbound_deliveries(
                                host,
                                pre,
                            ).push(message@.payload));
                        } else {
                            assert(spec_inbound_deliveries(host, cur) == spec_inbound_deliveries(
                                host,
                                pre,
                            ));
                        }
                        assert(deliveries.deep_view() =~= spec_inbound_deliveries(host, cur));
                    }
                    i += 1;
                }
                proof {
                    assert(overlay_ready.deep_view().take(n as int) =~= overlay_ready.deep_view());
                }
            },
        }
        StreamOutput { publishes, deliveries }
    }
}

/// Bytes forwarded out by one host come back unchanged and in order on
/// every other host: publishing a sequence of payloads through an outbound
/// stream and draining the resulting overlay messages through another
/// host's inbound stream delivers exactly the original payloads.
pub proof fn lemma_round_trip(a: u64, b: u64, samples: Seq<Seq<u8>>)
    requires
        a != b,
    ensures
        spec_inbound_deliveries(b, spec_outbound_messages(a, samples)) == samples,
    decreases samples.len(),
{
    if samples.len() == 0 {
        assert(spec_inbound_deliveries(b, spec_outbound_messages(a, samples)) =~= samples);
    } else {
        lemma_round_trip(a, b, samples.drop_last());
        let msgs = spec_outbound_messages(a, samples);
        assert(msgs.drop_last() =~= spec_outbound_messages(a, samples.drop_last()));
        assert(spec_inbound_deliveries(b, msgs) =~= samples);
    }
}

/// No loop-back: the messages a host forwards onto the overlay are never
/// delivered back into that same host's local transport.
pub proof fn lemma_no_loop_back(a: u64, samples: Seq<Seq<u8>>)
    ensures
        spec_inbound_deliveries(a, spec_outbound_messages(a, samples)) == Seq::<Seq<u8>>::empty(),
    decreases samples.len(),
{
    if samples.len() == 0 {
        assert(spec_inbound_deliveries(a, spec_outbound_messages(a, samples)) =~= Seq::<
            Seq<u8>,
        >::empty());
    } else {
        lemma_no_loop_back(a, samples.drop_last());
        let msgs = spec_outbound_messages(a, samples);
        assert(msgs.drop_last() =~= spec_outbound_messages(a, samples.drop_last()));
        assert(msgs.last().origin == a);
    }
}

} // verus!
