use iox2_zenoh_tunnel::announce::decode;
use iox2_zenoh_tunnel::announce::encode;
use iox2_zenoh_tunnel::keys;
use iox2_zenoh_tunnel::lifetime::LifetimeTracker;
use iox2_zenoh_tunnel::service::check_id;
use iox2_zenoh_tunnel::service::check_text;
use iox2_zenoh_tunnel::service::MessagingPattern;
use iox2_zenoh_tunnel::service::ServiceId;
use iox2_zenoh_tunnel::service::StaticDetails;
use iox2_zenoh_tunnel::service::TypeDetail;
use iox2_zenoh_tunnel::service::TypeVariant;
use iox2_zenoh_tunnel::text::parse_dec;
use iox2_zenoh_tunnel::text::dec_of;

fn sample_details() -> StaticDetails {
    StaticDetails {
        service_id: ServiceId::new(String::from("svc_codec")).unwrap(),
        name: String::from("My Service 1"),
        pattern: MessagingPattern::PublishSubscribe,
        payload: TypeDetail {
            variant: TypeVariant::FixedSize,
            name: String::from("MyType"),
            size: 16,
            alignment: 8,
        },
        user_header: TypeDetail {
            variant: TypeVariant::Dynamic,
            name: String::from("Header<T>"),
            size: 0,
            alignment: 1,
        },
    }
}

#[test]
fn keys_have_exact_shapes() {
    let id = ServiceId::new(String::from("abc123")).unwrap();
    assert_eq!(keys::discovery(), "iox2/services/*");
    assert_eq!(keys::service_details(&id), "iox2/services/abc123");
    assert_eq!(keys::publish_subscribe(&id), "iox2/services/abc123/publish_subscribe");
    assert_eq!(keys::event(&id), "iox2/services/abc123/event");
}

#[test]
fn keys_of_distinct_ids_differ() {
    let a = ServiceId::new(String::from("aaa")).unwrap();
    let b = ServiceId::new(String::from("bbb")).unwrap();
    assert_ne!(keys::service_details(&a), keys::service_details(&b));
    assert_ne!(keys::publish_subscribe(&a), keys::publish_subscribe(&b));
    assert_ne!(keys::event(&a), keys::event(&b));
    assert_ne!(keys::service_details(&a), keys::publish_subscribe(&a));
    assert_ne!(keys::service_details(&a), keys::event(&a));
    assert_ne!(keys::publish_subscribe(&a), keys::event(&a));
    assert_ne!(keys::discovery(), keys::service_details(&a));
}

#[test]
fn encoding_has_exact_text() {
    let text = encode(&sample_details());
    let expected = "iox2-service\n\
                    id: svc_codec\n\
                    name: My Service 1\n\
                    pattern: publish_subscribe\n\
                    payload-variant: fixed\n\
                    payload-size: 16\n\
                    payload-alignment: 8\n\
                    payload-type: MyType\n\
                    header-variant: dynamic\n\
                    header-size: 0\n\
                    header-alignment: 1\n\
                    header-type: Header<T>\n";
    assert_eq!(text, expected);
}

#[test]
fn encoding_round_trips() {
    let details = sample_details();
    let text = encode(&details);
    let decoded = decode(text.as_str()).unwrap();
    assert!(decoded.service_id.matches(&details.service_id));
    assert_eq!(decoded.name, details.name);
    assert!(matches!(decoded.pattern, MessagingPattern::PublishSubscribe));
    assert!(matches!(decoded.payload.variant, TypeVariant::FixedSize));
    assert_eq!(decoded.payload.name, details.payload.name);
    assert_eq!(decoded.payload.size, details.payload.size);
    assert_eq!(decoded.payload.alignment, details.payload.alignment);
    assert!(matches!(decoded.user_header.variant, TypeVariant::Dynamic));
    assert_eq!(decoded.user_header.name, details.user_header.name);
    assert_eq!(decoded.user_header.size, details.user_header.size);
    assert_eq!(decoded.user_header.alignment, details.user_header.alignment);
}

#[test]
fn event_pattern_round_trips() {
    let mut details = sample_details();
    details.pattern = MessagingPattern::Event;
    let decoded = decode(encode(&details).as_str()).unwrap();
    assert!(matches!(decoded.pattern, MessagingPattern::Event));

    details.pattern = MessagingPattern::RequestResponse;
    let decoded = decode(encode(&details).as_str()).unwrap();
    assert!(matches!(decoded.pattern, MessagingPattern::RequestResponse));
}

#[test]
fn decode_rejects_mangled_announcements() {
    let good = encode(&sample_details());
    assert!(decode(good.as_str()).is_some());

    // Not the announcement header.
    assert!(decode("iox2-servicex\nid: a\n").is_none());
    // Empty input.
    assert!(decode("").is_none());
    // Truncated.
    let truncated = &good[0..good.len() - 1];
    assert!(decode(truncated).is_none());
    // Trailing garbage.
    let mut padded = good.clone();
    padded.push('x');
    assert!(decode(padded.as_str()).is_none());
    // Unknown pattern token.
    let bad_pattern = good.replace("pattern: publish_subscribe", "pattern: broadcast");
    assert!(decode(bad_pattern.as_str()).is_none());
    // Unknown variant token.
    let bad_variant = good.replace("payload-variant: fixed", "payload-variant: loose");
    assert!(decode(bad_variant.as_str()).is_none());
    // A size that is not canonical decimal.
    let bad_size = good.replace("payload-size: 16", "payload-size: 016");
    assert!(decode(bad_size.as_str()).is_none());
    let huge_size = good.replace("payload-size: 16", "payload-size: 99999999999999999999999999");
    assert!(decode(huge_size.as_str()).is_none());
    // An identifier with a key separator in it.
    let bad_id = good.replace("id: svc_codec", "id: svc/codec");
    assert!(decode(bad_id.as_str()).is_none());
    // An empty name.
    let bad_name = good.replace("name: My Service 1", "name: ");
    assert!(decode(bad_name.as_str()).is_none());
}

#[test]
fn decimal_codec_is_canonical() {
    assert_eq!(dec_of(0), "0");
    assert_eq!(dec_of(9), "9");
    assert_eq!(dec_of(10), "10");
    assert_eq!(dec_of(65536), "65536");
    assert_eq!(parse_dec("0"), Some(0));
    assert_eq!(parse_dec("40960"), Some(40960));
    assert_eq!(parse_dec(""), None);
    assert_eq!(parse_dec("007"), None);
    assert_eq!(parse_dec("12a"), None);
    assert_eq!(parse_dec("-4"), None);
    assert_eq!(parse_dec("99999999999999999999999999"), None);
    let max = usize::MAX;
    assert_eq!(parse_dec(format!("{}", max).as_str()), Some(max));
}

#[test]
fn service_id_accepts_only_key_safe_tokens() {
    assert!(ServiceId::new(String::from("abcDEF_123-4")).is_some());
    assert!(ServiceId::new(String::from("")).is_none());
    assert!(ServiceId::new(String::from("has/slash")).is_none());
    assert!(ServiceId::new(String::from("has*star")).is_none());
    assert!(ServiceId::new(String::from("has space")).is_none());
    assert!(ServiceId::new(String::from("line\nbreak")).is_none());

    let id = ServiceId::new(String::from("token")).unwrap();
    assert_eq!(id.as_str(), "token");
    assert!(id.matches(&id.clone()));
    assert!(!id.matches(&ServiceId::new(String::from("other")).unwrap()));
    assert!(id.is_well_formed());
}

#[test]
fn text_checks_cover_the_printable_range() {
    assert!(check_text("A name with spaces 123 <>()"));
    assert!(!check_text(""));
    assert!(!check_text("line\nbreak"));
    assert!(!check_text("tab\there"));
    assert!(check_id("plain-token"));
    assert!(!check_id("a b"));
}

#[test]
fn lifetime_tracker_counts_living_instances() {
    let mut tracker = LifetimeTracker::new();
    assert_eq!(tracker.number_of_living_instances(), 0);
    tracker.track_creation();
    tracker.track_creation();
    tracker.track_creation();
    assert_eq!(tracker.number_of_living_instances(), 3);
    tracker.track_drop();
    assert_eq!(tracker.number_of_living_instances(), 2);
    tracker.start_tracking();
    assert_eq!(tracker.number_of_living_instances(), 0);
}
