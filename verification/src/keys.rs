//! Derivation of overlay key expressions from service identifiers.
//!
//! All keys live under one fixed namespace root.  Every service has one key
//! at which its static details are announced and one key per messaging
//! pattern for its data plane.  Distinct identifiers never derive the same
//! key, and the detail, data and event key spaces never overlap; both facts
//! are proved below.

use vstd::prelude::*;

use crate::service::id_char;
use crate::service::valid_id_seq;
use crate::service::ServiceId;

verus! {

/// The key under which the details of every service are found, with the
/// identifier position left as a wildcard.  Browsing tools subscribe here.
pub open spec fn spec_discovery() -> Seq<char> {
    "iox2/services/*"@
}

/// The key at which the static details of the given service are announced.
pub open spec fn spec_service_details(id: Seq<char>) -> Seq<char> {
    "iox2/services/"@ + id
}

/// The key at which publish-subscribe payloads of the given service travel.
pub open spec fn spec_publish_subscribe(id: Seq<char>) -> Seq<char> {
    "iox2/services/"@ + id + "/publish_subscribe"@
}

/// The key at which events of the given service travel.
pub open spec fn spec_event(id: Seq<char>) -> Seq<char> {
    "iox2/services/"@ + id + "/event"@
}

/// The overlay key for discovering available service details.
pub fn discovery() -> (r: String)
    ensures
        r@ == spec_discovery(),
{
    String::from_str("iox2/services/*")
}

/// The overlay key at which the details of the given service are announced.
pub fn service_details(service_id: &ServiceId) -> (r: String)
    ensures
        r@ == spec_service_details(service_id@),
{
    String::from_str("iox2/services/").concat(service_id.as_str())
}

/// The overlay key at which payloads of the given service are forwarded.
pub fn publish_subscribe(service_id: &ServiceId) -> (r: String)
    ensures
        r@ == spec_publish_subscribe(service_id@),
{
    let r = String::from_str("iox2/services/").concat(service_id.as_str()).concat(
        "/publish_subscribe",
    );
    proof {
        assert(r@ =~= spec_publish_subscribe(service_id@));
    }
    r
}

/// The overlay key at which events of the given service are forwarded.
pub fn event(service_id: &ServiceId) -> (r: String)
    ensures
        r@ == spec_event(service_id@),
{
    let r = String::from_str("iox2/services/").concat(service_id.as_str()).concat("/event");
    proof {
        assert(r@ =~= spec_event(service_id@));
    }
    r
}

/// Distinct identifiers derive distinct detail keys.
pub proof fn lemma_service_details_injective(a: Seq<char>, b: Seq<char>)
    requires
        spec_service_details(a) == spec_service_details(b),
    ensures
        a == b,
{
    let p = "iox2/services/"@;
    assert((p + a).len() == (p + b).len());
    assert forall|i: int| 0 <= i < a.len() implies a[i] == b[i] by {
        assert((p + a)[p.len() + i as int] == a[i]);
        assert((p + b)[p.len() + i as int] == b[i]);
    }
    assert(a =~= b);
}

/// Distinct identifiers derive distinct data keys.
pub proof fn lemma_publish_subscribe_injective(a: Seq<char>, b: Seq<char>)
    requires
        spec_publish_subscribe(a) == spec_publish_subscribe(b),
    ensures
        a == b,
{
    let p = "iox2/services/"@;
    let s = "/publish_subscribe"@;
    assert((p + a + s).len() == (p + b + s).len());
    assert forall|i: int| 0 <= i < a.len() implies a[i] == b[i] by {
        assert((p + a + s)[p.len() + i as int] == a[i]);
        assert((p + b + s)[p.len() + i as int] == b[i]);
    }
    assert(a =~= b);
}

/// Distinct identifiers derive distinct event keys.
pub proof fn lemma_event_injective(a: Seq<char>, b: Seq<char>)
    requires
        spec_event(a) == spec_event(b),
    ensures
        a == b,
{
    let p = "iox2/services/"@;
    let s = "/event"@;
    assert((p + a + s).len() == (p + b + s).len());
    assert forall|i: int| 0 <= i < a.len() implies a[i] == b[i] by {
        assert((p + a + s)[p.len() + i as int] == a[i]);
        assert((p + b + s)[p.len() + i as int] == b[i]);
    }
    assert(a =~= b);
}

/// A detail key never equals a data key, whatever the two identifiers.
pub proof fn lemma_details_key_not_data_key(a: Seq<char>, b: Seq<char>)
    requires
        valid_id_seq(a),
        valid_id_seq(b),
    ensures
        spec_service_details(a) != spec_publish_subscribe(b),
{
    reveal_strlit("iox2/services/");
    reveal_strlit("/publish_subscribe");
    let p = "iox2/services/"@;
    let s = "/publish_subscribe"@;
    if spec_service_details(a) == spec_publish_subscribe(b) {
        assert((p + a).len() == p.len() + a.len());
        assert((p + b + s).len() == p.len() + b.len() + s.len());
        assert(a.len() == b.len() + s.len());
        assert((p + a)[p.len() + b.len() as int] == a[b.len() as int]);
        assert((p + b + s)[p.len() + b.len() as int] == s[0]);
        assert(s[0] == '/');
        assert(id_char(a[b.len() as int]));
    }
}

/// A detail key never equals an event key, whatever the two identifiers.
pub proof fn lemma_details_key_not_event_key(a: Seq<char>, b: Seq<char>)
    requires
        valid_id_seq(a),
        valid_id_seq(b),
    ensures
        spec_service_details(a) != spec_event(b),
{
    reveal_strlit("iox2/services/");
    reveal_strlit("/event");
    let p = "iox2/services/"@;
    let s = "/event"@;
    if spec_service_details(a) == spec_event(b) {
        assert((p + a).len() == p.len() + a.len());
        assert((p + b + s).len() == p.len() + b.len() + s.len());
        assert(a.len() == b.len() + s.len());
        assert((p + a)[p.len() + b.len() as int] == a[b.len() as int]);
        assert((p + b + s)[p.len() + b.len() as int] == s[0]);
        assert(s[0] == '/');
        assert(id_char(a[b.len() as int]));
    }
}

/// A data key never equals an event key, whatever the two identifiers.
pub proof fn lemma_data_key_not_event_key(a: Seq<char>, b: Seq<char>)
    ensures
        spec_publish_subscribe(a) != spec_event(b),
{
    reveal_strlit("/publish_subscribe");
    reveal_strlit("/event");
    let p = "iox2/services/"@;
    let s1 = "/publish_subscribe"@;
    let s2 = "/event"@;
    if spec_publish_subscribe(a) == spec_event(b) {
        let l = (p + a + s1).len();
        assert((p + a + s1)[l - 1] == s1[s1.len() - 1]);
        assert((p + b + s2)[l - 1] == s2[s2.len() - 1]);
        assert(s1[s1.len() - 1] == 'e');
        assert(s2[s2.len() - 1] == 't');
    }
}

/// The discovery key never equals the detail key of a service.
pub proof fn lemma_discovery_key_not_details_key(a: Seq<char>)
    requires
        valid_id_seq(a),
    ensures
        spec_discovery() != spec_service_details(a),
{
    reveal_strlit("iox2/services/*");
    reveal_strlit("iox2/services/");
    let p = "iox2/services/"@;
    let w = "iox2/services/*"@;
    if spec_discovery() == spec_service_details(a) {
        assert(w.len() == 15);
        assert(p.len() == 14);
        assert((p + a).len() == p.len() + a.len());
        assert(a.len() == 1);
        assert((p + a)[p.len() as int] == a[0]);
        assert(w[w.len() - 1] == '*');
        assert(id_char(a[0]));
    }
}

} // verus!
