//! The announcement wire format: a service's static details rendered as a
//! self-describing, line-oriented text block, and the parser reading such a
//! block back.  A responder registered at the service's detail key replies
//! with exactly this text to every query, so a remote host can reconstruct
//! the full description.  Decoding accepts precisely the well-formed
//! encodings and is the inverse of encoding, which is proved below.

use vstd::prelude::*;

use crate::service::valid_id_seq;
use crate::service::valid_text_seq;
use crate::service::check_text;
use crate::service::DetailsModel;
use crate::service::MessagingPattern;
use crate::service::ServiceId;
use crate::service::StaticDetails;
use crate::service::TypeDetail;
use crate::service::TypeDetailModel;
use crate::service::TypeVariant;
use crate::text::canonical_dec;
use crate::text::dec_of;
use crate::text::dec_str;
use crate::text::no_newline;
use crate::text::parse_dec;
use crate::text::parse_line;
use crate::text::spec_parse_line;
use crate::text::str_eq;
use crate::text::val_of;

verus! {

/// One line of the announcement: a fixed prefix, a value, a line break.
pub open spec fn spec_line(prefix: Seq<char>, v: Seq<char>) -> Seq<char> {
    prefix + v + seq!['\n']
}

/// The token naming a messaging pattern.
pub open spec fn spec_pattern_token(p: MessagingPattern) -> Seq<char> {
    match p {
        MessagingPattern::PublishSubscribe => "publish_subscribe"@,
        MessagingPattern::Event => "event"@,
        MessagingPattern::RequestResponse => "request_response"@,
    }
}

/// The token naming a type variant.
pub open spec fn spec_variant_token(v: TypeVariant) -> Seq<char> {
    match v {
        TypeVariant::FixedSize => "fixed"@,
        TypeVariant::Dynamic => "dynamic"@,
    }
}

/// The four lines describing one message type.
pub open spec fn spec_type_block(
    t: TypeDetailModel,
    pv: Seq<char>,
    ps: Seq<char>,
    pa: Seq<char>,
    pt: Seq<char>,
) -> Seq<char> {
    spec_line(pv, spec_variant_token(t.variant)) + spec_line(ps, dec_str(t.size as nat))
        + spec_line(pa, dec_str(t.alignment as nat)) + spec_line(pt, t.name)
}

/// The complete announcement text of a service description.
pub open spec fn spec_encode(m: DetailsModel) -> Seq<char> {
    spec_line("iox2-service"@, Seq::<char>::empty()) + spec_line("id: "@, m.id) + spec_line(
        "name: "@,
        m.name,
    ) + spec_line("pattern: "@, spec_pattern_token(m.pattern)) + spec_type_block(
        m.payload,
        "payload-variant: "@,
        "payload-size: "@,
        "payload-alignment: "@,
        "payload-type: "@,
    ) + spec_type_block(
        m.user_header,
        "header-variant: "@,
        "header-size: "@,
        "header-alignment: "@,
        "header-type: "@,
    )
}

/// The pattern a token names, if any.
pub open spec fn spec_token_pattern(v: Seq<char>) -> Option<MessagingPattern> {
    if v == "publish_subscribe"@ {
        Some(MessagingPattern::PublishSubscribe)
    } else if v == "event"@ {
        Some(MessagingPattern::Event)
    } else if v == "request_response"@ {
        Some(MessagingPattern::RequestResponse)
    } else {
        None
    }
}

/// The variant a token names, if any.
pub open spec fn spec_token_variant(v: Seq<char>) -> Option<TypeVariant> {
    if v == "fixed"@ {
        Some(TypeVariant::FixedSize)
    } else if v == "dynamic"@ {
        Some(TypeVariant::Dynamic)
    } else {
        None
    }
}

/// The number a canonical decimal value line stands for, if it fits.
pub open spec fn spec_dec_value(v: Seq<char>) -> Option<usize> {
    if canonical_dec(v) && val_of(v) <= usize::MAX {
        Some(val_of(v) as usize)
    } else {
        None
    }
}

/// Reads the four lines describing one message type.
pub open spec fn spec_decode_type(
    s: Seq<char>,
    from: int,
    pv: Seq<char>,
    ps: Seq<char>,
    pa: Seq<char>,
    pt: Seq<char>,
) -> Option<(TypeDetailModel, int)> {
    match spec_parse_line(s, from, pv) {
        None => None,
        Some((v1, q1)) => match spec_token_variant(v1) {
            None => None,
            Some(variant) => match spec_parse_line(s, q1, ps) {
                None => None,
                Some((v2, q2)) => match spec_dec_value(v2) {
                    None => None,
                    Some(size) => match spec_parse_line(s, q2, pa) {
                        None => None,
                        Some((v3, q3)) => match spec_dec_value(v3) {
                            None => None,
                            Some(alignment) => match spec_parse_line(s, q3, pt) {
                                None => None,
                                Some((v4, q4)) => if valid_text_seq(v4) {
                                    Some(
                                        (
                                            TypeDetailModel {
                                                variant,
                                                name: v4,
                                                size,
                                                alignment,
                                            },
                                            q4,
                                        ),
                                    )
                                } else {
                                    None
                                },
                            },
                        },
                    },
                },
            },
        },
    }
}

/// Reads a complete announcement.  Yields a description exactly when the
/// text is the encoding of a well-formed description, with nothing after.
pub open spec fn spec_decode(s: Seq<char>) -> Option<DetailsModel> {
    match spec_parse_line(s, 0, "iox2-service"@) {
        None => None,
        Some((v0, p1)) => if v0.len() != 0 {
            None
        } else {
            match spec_parse_line(s, p1, "id: "@) {
                None => None,
                Some((vid, p2)) => if !valid_id_seq(vid) {
                    None
                } else {
                    match spec_parse_line(s, p2, "name: "@) {
                        None => None,
                        Some((vname, p3)) => if !valid_text_seq(vname) {
                            None
                        } else {
                            match spec_parse_line(s, p3, "pattern: "@) {
                                None => None,
                                Some((vpat, p4)) => match spec_token_pattern(vpat) {
                                    None => None,
                                    Some(pattern) => match spec_decode_type(
                                        s,
                                        p4,
                                        "payload-variant: "@,
                                        "payload-size: "@,
                                        "payload-alignment: "@,
                                        "payload-type: "@,
                                    ) {
                                        None => None,
                                        Some((payload, p8)) => match spec_decode_type(
                                            s,
                                            p8,
                                            "header-variant: "@,
                                            "header-size: "@,
                                            "header-alignment: "@,
                                            "header-type: "@,
                                        ) {
                                            None => None,
                                            Some((user_header, p12)) => if p12 == s.len() {
                                                Some(
                                                    DetailsModel {
                                                        id: vid,
                                                        name: vname,
                                                        pattern,
                                                        payload,
                                                        user_header,
                                                    },
                                                )
                                            } else {
                                                None
                                            },
                                        },
                                    },
                                },
                            }
                        },
                    }
                },
            }
        },
    }
}

proof fn lemma_text_value_no_newline(v: Seq<char>)
    requires
        valid_text_seq(v),
    ensures
        no_newline(v),
{
    assert forall|i: int| 0 <= i < v.len() implies #[trigger] v[i] != '\n' by {
        assert(crate::service::text_char(v[i]));
    }
}

proof fn lemma_id_value_no_newline(v: Seq<char>)
    requires
        valid_id_seq(v),
    ensures
        no_newline(v),
{
    assert forall|i: int| 0 <= i < v.len() implies #[trigger] v[i] != '\n' by {
        assert(crate::service::id_char(v[i]));
    }
}

proof fn lemma_digits_no_newline(v: Seq<char>)
    requires
        crate::text::all_digits(v),
    ensures
        no_newline(v),
{
    assert forall|i: int| 0 <= i < v.len() implies #[trigger] v[i] != '\n' by {
        assert(crate::text::is_digit(v[i]));
    }
}

/// A pattern token reads back as the pattern it names, and holds no line
/// break.
proof fn lemma_pattern_token(p: MessagingPattern)
    ensures
        no_newline(spec_pattern_token(p)),
        spec_token_pattern(spec_pattern_token(p)) == Some(p),
{
    reveal_strlit("publish_subscribe");
    reveal_strlit("event");
    reveal_strlit("request_response");
    assert("publish_subscribe"@.len() == 17);
    assert("event"@.len() == 5);
    assert("request_response"@.len() == 16);
    let t = spec_pattern_token(p);
    assert forall|i: int| 0 <= i < t.len() implies #[trigger] t[i] != '\n' by {}
}

/// A token accepted as a pattern is that pattern's own token.
proof fn lemma_token_pattern_sound(v: Seq<char>, p: MessagingPattern)
    requires
        spec_token_pattern(v) == Some(p),
    ensures
        v == spec_pattern_token(p),
{
    if v == "publish_subscribe"@ {
    } else if v == "event"@ {
    } else if v == "request_response"@ {
    } else {
        assert(false);
    }
}

/// A variant token reads back as the variant it names, and holds no line
/// break.
proof fn lemma_variant_token(v: TypeVariant)
    ensures
        no_newline(spec_variant_token(v)),
        spec_token_variant(spec_variant_token(v)) == Some(v),
{
    reveal_strlit("fixed");
    reveal_strlit("dynamic");
    assert("fixed"@.len() == 5);
    assert("dynamic"@.len() == 7);
    let t = spec_variant_token(v);
    assert forall|i: int| 0 <= i < t.len() implies #[trigger] t[i] != '\n' by {}
}

/// A token accepted as a variant is that variant's own token.
proof fn lemma_token_variant_sound(v: Seq<char>, t: TypeVariant)
    requires
        spec_token_variant(v) == Some(t),
    ensures
        v == spec_variant_token(t),
{
    if v == "fixed"@ {
    } else if v == "dynamic"@ {
    } else {
        assert(false);
    }
}

/// What a successfully read type block says: the described type is
/// well-formed and the scanned segment is exactly its encoding.
proof fn lemma_decode_type_sound(
    s: Seq<char>,
    from: int,
    pv: Seq<char>,
    ps: Seq<char>,
    pa: Seq<char>,
    pt: Seq<char>,
    t: TypeDetailModel,
    next: int,
)
    requires
        0 <= from <= s.len(),
        spec_decode_type(s, from, pv, ps, pa, pt) == Some::<(TypeDetailModel, int)>((t, next)),
    ensures
        t.wf(),
        from <= next <= s.len(),
        s.subrange(from, next) == spec_type_block(t, pv, ps, pa, pt),
{
    let v1 = spec_parse_line(s, from, pv)->Some_0.0;
    let q1 = spec_parse_line(s, from, pv)->Some_0.1;
    assert(spec_parse_line(s, from, pv) == Some::<(Seq<char>, int)>((v1, q1)));
    crate::text::lemma_parse_line_segment(s, from, pv, v1, q1);
    let v2 = spec_parse_line(s, q1, ps)->Some_0.0;
    let q2 = spec_parse_line(s, q1, ps)->Some_0.1;
    assert(spec_parse_line(s, q1, ps) == Some::<(Seq<char>, int)>((v2, q2)));
    crate::text::lemma_parse_line_segment(s, q1, ps, v2, q2);
    let v3 = spec_parse_line(s, q2, pa)->Some_0.0;
    let q3 = spec_parse_line(s, q2, pa)->Some_0.1;
    assert(spec_parse_line(s, q2, pa) == Some::<(Seq<char>, int)>((v3, q3)));
    crate::text::lemma_parse_line_segment(s, q2, pa, v3, q3);
    let v4 = spec_parse_line(s, q3, pt)->Some_0.0;
    let q4 = spec_parse_line(s, q3, pt)->Some_0.1;
    assert(spec_parse_line(s, q3, pt) == Some::<(Seq<char>, int)>((v4, q4)));
    crate::text::lemma_parse_line_segment(s, q3, pt, v4, q4);
    assert(next == q4);
    lemma_token_variant_sound(v1, t.variant);
    assert(canonical_dec(v2) && val_of(v2) == t.size as nat);
    crate::text::lemma_canonical_unique(v2);
    assert(v2 == dec_str(t.size as nat));
    assert(canonical_dec(v3) && val_of(v3) == t.alignment as nat);
    crate::text::lemma_canonical_unique(v3);
    assert(v3 == dec_str(t.alignment as nat));
    assert(v4 == t.name);
    assert(s.subrange(from, q2) =~= s.subrange(from, q1) + s.subrange(q1, q2));
    assert(s.subrange(from, q3) =~= s.subrange(from, q2) + s.subrange(q2, q3));
    assert(s.subrange(from, q4) =~= s.subrange(from, q3) + s.subrange(q3, q4));
    assert(s.subrange(from, next) == spec_type_block(t, pv, ps, pa, pt));
}

/// A well-formed type block placed at `from` reads back as the type it
/// encodes.
proof fn lemma_decode_type_of_block(
    s: Seq<char>,
    from: int,
    pv: Seq<char>,
    ps: Seq<char>,
    pa: Seq<char>,
    pt: Seq<char>,
    t: TypeDetailModel,
)
    requires
        t.wf(),
        no_newline(pv),
        no_newline(ps),
        no_newline(pa),
        no_newline(pt),
        0 <= from,
        from + spec_type_block(t, pv, ps, pa, pt).len() <= s.len(),
        s.subrange(from, from + spec_type_block(t, pv, ps, pa, pt).len() as int)
            == spec_type_block(t, pv, ps, pa, pt),
    ensures
        spec_decode_type(s, from, pv, ps, pa, pt) == Some::<(TypeDetailModel, int)>(
            (t, from + spec_type_block(t, pv, ps, pa, pt).len() as int),
        ),
{
    let b = spec_type_block(t, pv, ps, pa, pt);
    let l1 = spec_line(pv, spec_variant_token(t.variant));
    let l2 = spec_line(ps, dec_str(t.size as nat));
    let l3 = spec_line(pa, dec_str(t.alignment as nat));
    let l4 = spec_line(pt, t.name);
    let o1 = from + l1.len() as int;
    let o2 = o1 + l2.len() as int;
    let o3 = o2 + l3.len() as int;
    let o4 = o3 + l4.len() as int;
    assert forall|k: int| 0 <= k < b.len() implies s[from + k] == b[k] by {
        assert(s.subrange(from, from + b.len() as int)[k] == s[from + k]);
    }
    lemma_variant_token(t.variant);
    crate::text::lemma_dec_str_canonical(t.size as nat);
    crate::text::lemma_dec_str_canonical(t.alignment as nat);
    lemma_digits_no_newline(dec_str(t.size as nat));
    lemma_digits_no_newline(dec_str(t.alignment as nat));
    lemma_text_value_no_newline(t.name);
    assert(s.subrange(from, o1) =~= l1) by {
        assert forall|j: int| 0 <= j < l1.len() implies s.subrange(from, o1)[j] == l1[j] by {
            assert(s[from + j] == b[j]);
        }
    }
    assert(s.subrange(o1, o2) =~= l2) by {
        assert forall|j: int| 0 <= j < l2.len() implies s.subrange(o1, o2)[j] == l2[j] by {
            assert(s[o1 + j] == b[l1.len() + j]);
        }
    }
    assert(s.subrange(o2, o3) =~= l3) by {
        assert forall|j: int| 0 <= j < l3.len() implies s.subrange(o2, o3)[j] == l3[j] by {
            assert(s[o2 + j] == b[l1.len() + l2.len() + j]);
        }
    }
    assert(s.subrange(o3, o4) =~= l4) by {
        assert forall|j: int| 0 <= j < l4.len() implies s.subrange(o3, o4)[j] == l4[j] by {
            assert(s[o3 + j] == b[l1.len() + l2.len() + l3.len() + j]);
        }
    }
    crate::text::lemma_parse_line_of_concat(s, from, pv, spec_variant_token(t.variant));
    crate::text::lemma_parse_line_of_concat(s, o1, ps, dec_str(t.size as nat));
    crate::text::lemma_parse_line_of_concat(s, o2, pa, dec_str(t.alignment as nat));
    crate::text::lemma_parse_line_of_concat(s, o3, pt, t.name);
    assert(spec_dec_value(dec_str(t.size as nat)) == Some(t.size));
    assert(spec_dec_value(dec_str(t.alignment as nat)) == Some(t.alignment));
    let d = spec_decode_type(s, from, pv, ps, pa, pt)->Some_0.0;
    assert(d =~= t);
}

/// Soundness of the parser: whatever it accepts is the announcement text
/// of a well-formed description, re-encoding to the very same text.
pub proof fn lemma_decode_sound(s: Seq<char>, m: DetailsModel)
    requires
        spec_decode(s) == Some(m),
    ensures
        m.wf(),
        spec_encode(m) == s,
{
    let h = "iox2-service"@;
    let v0 = spec_parse_line(s, 0, h)->Some_0.0;
    let p1 = spec_parse_line(s, 0, h)->Some_0.1;
    assert(spec_parse_line(s, 0, h) == Some::<(Seq<char>, int)>((v0, p1)));
    crate::text::lemma_parse_line_segment(s, 0, h, v0, p1);
    assert(v0.len() == 0);
    assert(v0 =~= Seq::<char>::empty());
    let vid = spec_parse_line(s, p1, "id: "@)->Some_0.0;
    let p2 = spec_parse_line(s, p1, "id: "@)->Some_0.1;
    assert(spec_parse_line(s, p1, "id: "@) == Some::<(Seq<char>, int)>((vid, p2)));
    crate::text::lemma_parse_line_segment(s, p1, "id: "@, vid, p2);
    let vname = spec_parse_line(s, p2, "name: "@)->Some_0.0;
    let p3 = spec_parse_line(s, p2, "name: "@)->Some_0.1;
    assert(spec_parse_line(s, p2, "name: "@) == Some::<(Seq<char>, int)>((vname, p3)));
    crate::text::lemma_parse_line_segment(s, p2, "name: "@, vname, p3);
    let vpat = spec_parse_line(s, p3, "pattern: "@)->Some_0.0;
    let p4 = spec_parse_line(s, p3, "pattern: "@)->Some_0.1;
    assert(spec_parse_line(s, p3, "pattern: "@) == Some::<(Seq<char>, int)>((vpat, p4)));
    crate::text::lemma_parse_line_segment(s, p3, "pattern: "@, vpat, p4);
    lemma_token_pattern_sound(vpat, m.pattern);
    let pp = spec_decode_type(
        s,
        p4,
        "payload-variant: "@,
        "payload-size: "@,
        "payload-alignment: "@,
        "payload-type: "@,
    );
    let p8 = pp->Some_0.1;
    assert(pp == Some::<(TypeDetailModel, int)>((m.payload, p8)));
    lemma_decode_type_sound(
        s,
        p4,
        "payload-variant: "@,
        "payload-size: "@,
        "payload-alignment: "@,
        "payload-type: "@,
        m.payload,
        p8,
    );
    let hh = spec_decode_type(
        s,
        p8,
        "header-variant: "@,
        "header-size: "@,
        "header-alignment: "@,
        "header-type: "@,
    );
    let p12 = hh->Some_0.1;
    assert(hh == Some::<(TypeDetailModel, int)>((m.user_header, p12)));
    lemma_decode_type_sound(
        s,
        p8,
        "header-variant: "@,
        "header-size: "@,
        "header-alignment: "@,
        "header-type: "@,
        m.user_header,
        p12,
    );
    assert(p12 == s.len());
    assert(s.subrange(0, p2) =~= s.subrange(0, p1) + s.subrange(p1, p2));
    assert(s.subrange(0, p3) =~= s.subrange(0, p2) + s.subrange(p2, p3));
    assert(s.subrange(0, p4) =~= s.subrange(0, p3) + s.subrange(p3, p4));
    assert(s.subrange(0, p8) =~= s.subrange(0, p4) + s.subrange(p4, p8));
    assert(s.subrange(0, p12) =~= s.subrange(0, p8) + s.subrange(p8, p12));
    assert(s.subrange(0, p12) =~= s);
    assert(spec_encode(m) == s);
}

/// Completeness of the parser: the announcement text of a well-formed
/// description reads back as exactly that description.
pub proof fn lemma_decode_encode(m: DetailsModel)
    requires
        m.wf(),
    ensures
        spec_decode(spec_encode(m)) == Some(m),
{
    let s = spec_encode(m);
    let h = "iox2-service"@;
    let l1 = spec_line(h, Seq::<char>::empty());
    let l2 = spec_line("id: "@, m.id);
    let l3 = spec_line("name: "@, m.name);
    let l4 = spec_line("pattern: "@, spec_pattern_token(m.pattern));
    let b1 = spec_type_block(
        m.payload,
        "payload-variant: "@,
        "payload-size: "@,
        "payload-alignment: "@,
        "payload-type: "@,
    );
    let b2 = spec_type_block(
        m.user_header,
        "header-variant: "@,
        "header-size: "@,
        "header-alignment: "@,
        "header-type: "@,
    );
    let p1 = l1.len() as int;
    let p2 = p1 + l2.len() as int;
    let p3 = p2 + l3.len() as int;
    let p4 = p3 + l4.len() as int;
    let p8 = p4 + b1.len() as int;
    let p12 = p8 + b2.len() as int;
    assert(s.len() == p12);
    proof_prefixes_no_newline();
    lemma_pattern_token(m.pattern);
    lemma_id_value_no_newline(m.id);
    lemma_text_value_no_newline(m.name);
    assert(s.subrange(0, p1) =~= l1);
    assert(s.subrange(p1, p2) =~= l2);
    assert(s.subrange(p2, p3) =~= l3);
    assert(s.subrange(p3, p4) =~= l4);
    assert(s.subrange(p4, p8) =~= b1);
    assert(s.subrange(p8, p12) =~= b2);
    crate::text::lemma_parse_line_of_concat(s, 0, h, Seq::<char>::empty());
    crate::text::lemma_parse_line_of_concat(s, p1, "id: "@, m.id);
    crate::text::lemma_parse_line_of_concat(s, p2, "name: "@, m.name);
    crate::text::lemma_parse_line_of_concat(s, p3, "pattern: "@, spec_pattern_token(m.pattern));
    lemma_decode_type_of_block(
        s,
        p4,
        "payload-variant: "@,
        "payload-size: "@,
        "payload-alignment: "@,
        "payload-type: "@,
        m.payload,
    );
    lemma_decode_type_of_block(
        s,
        p8,
        "header-variant: "@,
        "header-size: "@,
        "header-alignment: "@,
        "header-type: "@,
        m.user_header,
    );
    let d = spec_decode(s)->Some_0;
    assert(d =~= m);
}

/// The fixed line prefixes of the announcement hold no line break.
proof fn proof_prefixes_no_newline()
    ensures
        no_newline("iox2-service"@),
        no_newline("id: "@),
        no_newline("name: "@),
        no_newline("pattern: "@),
        no_newline("payload-variant: "@),
        no_newline("payload-size: "@),
        no_newline("payload-alignment: "@),
        no_newline("payload-type: "@),
        no_newline("header-variant: "@),
        no_newline("header-size: "@),
        no_newline("header-alignment: "@),
        no_newline("header-type: "@),
{
    reveal_strlit("iox2-service");
    reveal_strlit("id: ");
    reveal_strlit("name: ");
    reveal_strlit("pattern: ");
    reveal_strlit("payload-variant: ");
    reveal_strlit("payload-size: ");
    reveal_strlit("payload-alignment: ");
    reveal_strlit("payload-type: ");
    reveal_strlit("header-variant: ");
    reveal_strlit("header-size: ");
    reveal_strlit("header-alignment: ");
    reveal_strlit("header-type: ");
    assert("iox2-service"@.len() == 12);
    assert("id: "@.len() == 4);
    assert("name: "@.len() == 6);
    assert("pattern: "@.len() == 9);
    assert("payload-variant: "@.len() == 17);
    assert("payload-size: "@.len() == 14);
    assert("payload-alignment: "@.len() == 19);
    assert("payload-type: "@.len() == 14);
    assert("header-variant: "@.len() == 16);
    assert("header-size: "@.len() == 13);
    assert("header-alignment: "@.len() == 18);
    assert("header-type: "@.len() == 13);
}

/// The token of a messaging pattern.
fn pattern_text(p: MessagingPattern) -> (r: &'static str)
    ensures
        r@ == spec_pattern_token(p),
{
    match p {
        MessagingPattern::PublishSubscribe => "publish_subscribe",
        MessagingPattern::Event => "event",
        MessagingPattern::RequestResponse => "request_response",
    }
}

/// The token of a type variant.
fn variant_text(v: TypeVariant) -> (r: &'static str)
    ensures
        r@ == spec_variant_token(v),
{
    match v {
        TypeVariant::FixedSize => "fixed",
        TypeVariant::Dynamic => "dynamic",
    }
}

/// The pattern a token names.
fn token_pattern(v: &str) -> (r: Option<MessagingPattern>)
    ensures
        r == spec_token_pattern(v@),
{
    if str_eq(v, "publish_subscribe") {
        Some(MessagingPattern::PublishSubscribe)
    } else if str_eq(v, "event") {
        Some(MessagingPattern::Event)
    } else if str_eq(v, "request_response") {
        Some(MessagingPattern::RequestResponse)
    } else {
        None
    }
}

/// The variant a token names.
fn token_variant(v: &str) -> (r: Option<TypeVariant>)
    ensures
        r == spec_token_variant(v@),
{
    if str_eq(v, "fixed") {
        Some(TypeVariant::FixedSize)
    } else if str_eq(v, "dynamic") {
        Some(TypeVariant::Dynamic)
    } else {
        None
    }
}

/// Appends one announcement line to the text under construction.
fn push_line(r: &mut String, prefix: &str, v: &str)
    ensures
        final(r)@ == old(r)@ + spec_line(prefix@, v@),
{
    r.append(prefix);
    r.append(v);
    r.append("\n");
    proof {
        reveal_strlit("\n");
        assert("\n"@ =~= seq!['\n']);
        assert(final(r)@ =~= old(r)@ + spec_line(prefix@, v@));
    }
}

/// Renders the announcement text of a service description.
pub fn encode(details: &StaticDetails) -> (r: String)
    ensures
        r@ == spec_encode(details@),
{
    let mut r = String::new();
    push_line(&mut r, "iox2-service", "");
    proof {
        reveal_strlit("");
        assert(""@ =~= Seq::<char>::empty());
        assert(r@ =~= spec_line("iox2-service"@, Seq::<char>::empty()));
    }
    push_line(&mut r, "id: ", details.service_id.as_str());
    push_line(&mut r, "name: ", details.name.as_str());
    push_line(&mut r, "pattern: ", pattern_text(details.pattern));
    push_line(&mut r, "payload-variant: ", variant_text(details.payload.variant));
    let payload_size = dec_of(details.payload.size);
    push_line(&mut r, "payload-size: ", payload_size.as_str());
    let payload_alignment = dec_of(details.payload.alignment);
    push_line(&mut r, "payload-alignment: ", payload_alignment.as_str());
    push_line(&mut r, "payload-type: ", details.payload.name.as_str());
    push_line(&mut r, "header-variant: ", variant_text(details.user_header.variant));
    let header_size = dec_of(details.user_header.size);
    push_line(&mut r, "header-size: ", header_size.as_str());
    let header_alignment = dec_of(details.user_header.alignment);
    push_line(&mut r, "header-alignment: ", header_alignment.as_str());
    push_line(&mut r, "header-type: ", details.user_header.name.as_str());
    proof {
        assert(r@ =~= spec_encode(details@));
    }
    r
}

/// Reads the four lines describing one message type.
fn decode_type(s: &str, from: usize, pv: &str, ps: &str, pa: &str, pt: &str) -> (r: Option<
    (TypeDetail, usize),
>)
    requires
        from <= s@.len(),
    ensures
        match r {
            Some((t, next)) => {
                &&& spec_decode_type(s@, from as int, pv@, ps@, pa@, pt@) == Some::<
                    (TypeDetailModel, int),
                >((t@, next as int))
                &&& next <= s@.len()
            },
            None => spec_decode_type(s@, from as int, pv@, ps@, pa@, pt@) is None,
        },
{
    let (v1, q1) = match parse_line(s, from, pv) {
        None => {
            return None;
        },
        Some(x) => x,
    };
    let variant = match token_variant(v1.as_str()) {
        None => {
            return None;
        },
        Some(x) => x,
    };
    let (v2, q2) = match parse_line(s, q1, ps) {
        None => {
            return None;
        },
        Some(x) => x,
    };
    let size = match parse_dec(v2.as_str()) {
        None => {
            return None;
        },
        Some(x) => x,
    };
    let (v3, q3) = match parse_line(s, q2, pa) {
        None => {
            return None;
        },
        Some(x) => x,
    };
    let alignment = match parse_dec(v3.as_str()) {
        None => {
            return None;
        },
        Some(x) => x,
    };
    let (v4, q4) = match parse_line(s, q3, pt) {
        None => {
            return None;
        },
        Some(x) => x,
    };
    if !check_text(v4.as_str()) {
        return None;
    }
    Some((TypeDetail { variant, name: v4, size, alignment }, q4))
}

/// Reads a complete announcement back into a service description.
///
/// Succeeds exactly on the announcement texts of well-formed descriptions;
/// the result then re-encodes to the input, and decoding an encoded
/// description returns that description (both proved below).
pub fn decode(s: &str) -> (r: Option<StaticDetails>)
    ensures
        match r {
            Some(d) => spec_decode(s@) == Some(d@),
            None => spec_decode(s@) is None,
        },
{
    let (v0, p1) = match parse_line(s, 0, "iox2-service") {
        None => {
            return None;
        },
        Some(x) => x,
    };
    if v0.as_str().unicode_len() != 0 {
        return None;
    }
    let (vid, p2) = match parse_line(s, p1, "id: ") {
        None => {
            return None;
        },
        Some(x) => x,
    };
    let service_id = match ServiceId::new(vid) {
        None => {
            return None;
        },
        Some(x) => x,
    };
    let (vname, p3) = match parse_line(s, p2, "name: ") {
        None => {
            return None;
        },
        Some(x) => x,
    };
    if !check_text(vname.as_str()) {
        return None;
    }
    let (vpat, p4) = match parse_line(s, p3, "pattern: ") {
        None => {
            return None;
        },
        Some(x) => x,
    };
    let pattern = match token_pattern(vpat.as_str()) {
        None => {
            return None;
        },
        Some(x) => x,
    };
    let (payload, p8) = match decode_type(
        s,
        p4,
        "payload-variant: ",
        "payload-size: ",
        "payload-alignment: ",
        "payload-type: ",
    ) {
        None => {
            return None;
        },
        Some(x) => x,
    };
    let (user_header, p12) = match decode_type(
        s,
        p8,
        "header-variant: ",
        "header-size: ",
        "header-alignment: ",
        "header-type: ",
    ) {
        None => {
            return None;
        },
        Some(x) => x,
    };
    if p12 != s.unicode_len() {
        return None;
    }
    Some(StaticDetails { service_id, name: vname, pattern, payload, user_header })
}

} // verus!
