//! The static description of a publish-subscribe service: its identifier,
//! its name, its messaging pattern and the type descriptors of its payload
//! and user header.  A description is captured once at discovery time and
//! treated as frozen for the lifetime of the streams built from it.

use vstd::prelude::*;

verus! {

/// Characters allowed in a service identifier: printable ASCII with no
/// space, no `'/'` and no `'*'`, so that identifiers embed into overlay
/// keys without colliding with the key separator or the wildcard.
pub open spec fn id_char(c: char) -> bool {
    33 <= c as int <= 126 && c != '/' && c != '*'
}

/// A well-formed identifier token: non-empty, identifier characters only.
pub open spec fn valid_id_seq(s: Seq<char>) -> bool {
    &&& 0 < s.len()
    &&& forall|i: int| 0 <= i < s.len() ==> id_char(#[trigger] s[i])
}

/// Characters allowed in names carried by a service description: printable
/// ASCII including space.  In particular no line break, so names embed into
/// the line-oriented announcement encoding unescaped.
pub open spec fn text_char(c: char) -> bool {
    32 <= c as int <= 126
}

/// A well-formed name: non-empty, text characters only.
pub open spec fn valid_text_seq(s: Seq<char>) -> bool {
    &&& 0 < s.len()
    &&& forall|i: int| 0 <= i < s.len() ==> text_char(#[trigger] s[i])
}

/// Whether a string is a well-formed name.
pub fn check_text(s: &str) -> (r: bool)
    ensures
        r == valid_text_seq(s@),
{
    let n = s.unicode_len();
    if n == 0 {
        return false;
    }
    let mut i: usize = 0;
    while i < n
        invariant
            n == s@.len(),
            i <= n,
            forall|j: int| 0 <= j < i ==> text_char(#[trigger] s@[j]),
        decreases n - i,
    {
        let c = s.get_char(i);
        let u = c as u32;
        if u < 32 || u > 126 {
            return false;
        }
        i += 1;
    }
    true
}

/// An opaque token uniquely naming one publish-subscribe service across the
/// shared namespace.  It is the key of every per-service map.
#[derive(Debug)]
pub struct ServiceId {
    value: String,
}

impl View for ServiceId {
    type V = Seq<char>;

    closed spec fn view(&self) -> Seq<char> {
        self.value@
    }
}

/// Whether a string is a well-formed identifier token.
pub fn check_id(s: &str) -> (r: bool)
    ensures
        r == valid_id_seq(s@),
{
    let n = s.unicode_len();
    if n == 0 {
        return false;
    }
    let mut i: usize = 0;
    while i < n
        invariant
            n == s@.len(),
            i <= n,
            forall|j: int| 0 <= j < i ==> id_char(#[trigger] s@[j]),
        decreases n - i,
    {
        let c = s.get_char(i);
        let u = c as u32;
        if u < 33 || u > 126 || c == '/' || c == '*' {
            return false;
        }
        i += 1;
    }
    true
}

impl ServiceId {
    /// Accepts exactly the well-formed identifier tokens.
    pub fn new(value: String) -> (r: Option<ServiceId>)
        ensures
            match r {
                Some(id) => id@ == value@ && valid_id_seq(value@),
                None => !valid_id_seq(value@),
            },
    {
        if check_id(value.as_str()) {
            Some(ServiceId { value })
        } else {
            None
        }
    }

    /// Whether this identifier is a well-formed token.
    pub fn is_well_formed(&self) -> (r: bool)
        ensures
            r == self.wf(),
    {
        check_id(self.value.as_str())
    }

    /// The identifier as a string slice.
    pub fn as_str(&self) -> (r: &str)
        ensures
            r@ == self@,
    {
        self.value.as_str()
    }

    /// Whether two identifiers name the same service.
    pub fn matches(&self, other: &ServiceId) -> (r: bool)
        ensures
            r == (self@ == other@),
    {
        self.value == other.value
    }

    pub open spec fn wf(&self) -> bool {
        valid_id_seq(self@)
    }
}

impl Clone for ServiceId {
    fn clone(&self) -> (r: Self)
        ensures
            r@ == self@,
    {
        ServiceId { value: self.value.clone() }
    }
}

/// The messaging pattern a service was created with.  The tunnel bridges
/// only publish-subscribe services; descriptions with any other pattern are
/// skipped during discovery.
#[derive(Clone, Copy, PartialEq, Eq, Structural, Debug)]
pub enum MessagingPattern {
    PublishSubscribe,
    Event,
    RequestResponse,
}

/// Whether a payload type has a fixed size or is a dynamically sized slice.
#[derive(Clone, Copy, PartialEq, Eq, Structural, Debug)]
pub enum TypeVariant {
    FixedSize,
    Dynamic,
}

/// Mathematical image of a [`TypeDetail`].
#[verifier::ext_equal]
pub struct TypeDetailModel {
    pub variant: TypeVariant,
    pub name: Seq<char>,
    pub size: usize,
    pub alignment: usize,
}

impl TypeDetailModel {
    pub open spec fn wf(self) -> bool {
        valid_text_seq(self.name)
    }
}

/// Descriptor of one message type: its variant, name, size and alignment.
/// Two hosts agree to bridge a service only when these match, so they are
/// captured verbatim in the announcement.
#[derive(Debug)]
pub struct TypeDetail {
    pub variant: TypeVariant,
    pub name: String,
    pub size: usize,
    pub alignment: usize,
}

impl View for TypeDetail {
    type V = TypeDetailModel;

    open spec fn view(&self) -> TypeDetailModel {
        TypeDetailModel {
            variant: self.variant,
            name: self.name@,
            size: self.size,
            alignment: self.alignment,
        }
    }
}

impl TypeDetail {
    pub open spec fn wf(&self) -> bool {
        self@.wf()
    }

    /// Whether this descriptor is well-formed.
    pub fn is_well_formed(&self) -> (r: bool)
        ensures
            r == self.wf(),
    {
        check_text(self.name.as_str())
    }
}

impl Clone for TypeDetail {
    fn clone(&self) -> (r: Self)
        ensures
            r@ == self@,
    {
        TypeDetail {
            variant: self.variant,
            name: self.name.clone(),
            size: self.size,
            alignment: self.alignment,
        }
    }
}

/// Mathematical image of a [`StaticDetails`].
#[verifier::ext_equal]
pub struct DetailsModel {
    pub id: Seq<char>,
    pub name: Seq<char>,
    pub pattern: MessagingPattern,
    pub payload: TypeDetailModel,
    pub user_header: TypeDetailModel,
}

impl DetailsModel {
    pub open spec fn wf(self) -> bool {
        &&& valid_id_seq(self.id)
        &&& valid_text_seq(self.name)
        &&& self.payload.wf()
        &&& self.user_header.wf()
    }
}

/// The immutable snapshot of a service's static configuration, captured at
/// discovery time: identifier, name, messaging pattern, and the payload and
/// user-header type descriptors.
#[derive(Debug)]
pub struct StaticDetails {
    pub service_id: ServiceId,
    pub name: String,
    pub pattern: MessagingPattern,
    pub payload: TypeDetail,
    pub user_header: TypeDetail,
}

impl View for StaticDetails {
    type V = DetailsModel;

    open spec fn view(&self) -> DetailsModel {
        DetailsModel {
            id: self.service_id@,
            name: self.name@,
            pattern: self.pattern,
            payload: self.payload@,
            user_header: self.user_header@,
        }
    }
}

impl DeepView for StaticDetails {
    type V = DetailsModel;

    open spec fn deep_view(&self) -> DetailsModel {
        self@
    }
}

impl StaticDetails {
    pub open spec fn wf(&self) -> bool {
        self@.wf()
    }

    /// Whether this description is well-formed.
    pub fn is_well_formed(&self) -> (r: bool)
        ensures
            r == self.wf(),
    {
        self.service_id.is_well_formed() && check_text(self.name.as_str())
            && self.payload.is_well_formed() && self.user_header.is_well_formed()
    }
}

impl Clone for StaticDetails {
    fn clone(&self) -> (r: Self)
        ensures
            r@ == self@,
    {
        StaticDetails {
            service_id: self.service_id.clone(),
            name: self.name.clone(),
            pattern: self.pattern,
            payload: self.payload.clone(),
            user_header: self.user_header.clone(),
        }
    }
}

} // verus!
