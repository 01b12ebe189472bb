//! Roles that a declaration plays at the language boundary, read from the
//! derive markers attached to it.

use vstd::prelude::*;
use crate::text::is_word;

verus! {

/// How a declaration crosses the language boundary.
#[derive(Clone, Copy, Debug, PartialEq, Eq, Structural)]
pub enum SignalRole {
    /// Plain data, used inside other signals.
    Piece,
    /// Sent from Dart to Rust.
    InboundRequest,
    /// Sent from Dart to Rust, with a binary payload.
    InboundRequestWithPayload,
    /// Sent from Rust to Dart.
    OutboundEvent,
    /// Sent from Rust to Dart, with a binary payload.
    OutboundEventWithPayload,
}

/// A set of roles, one flag per role.
#[derive(Clone, Copy, Debug, PartialEq, Eq, Structural)]
pub struct RoleSet {
    pub piece: bool,
    pub inbound: bool,
    pub inbound_with_payload: bool,
    pub outbound: bool,
    pub outbound_with_payload: bool,
}

/// An attribute attached to a declaration: its path as written (`derive`)
/// and the last path segment of each item of its list (`Debug`, `DartSignal`).
pub struct Attribute {
    pub path: String,
    pub items: Vec<String>,
}

impl RoleSet {
    pub open spec fn has(self, r: SignalRole) -> bool {
        match r {
            SignalRole::Piece => self.piece,
            SignalRole::InboundRequest => self.inbound,
            SignalRole::InboundRequestWithPayload => self.inbound_with_payload,
            SignalRole::OutboundEvent => self.outbound,
            SignalRole::OutboundEventWithPayload => self.outbound_with_payload,
        }
    }

    /// The number of roles in the set.
    pub open spec fn size(self) -> nat {
        (if self.piece { 1nat } else { 0nat }) + (if self.inbound { 1nat } else { 0nat }) + (
        if self.inbound_with_payload {
            1nat
        } else {
            0nat
        }) + (if self.outbound { 1nat } else { 0nat }) + (if self.outbound_with_payload {
            1nat
        } else {
            0nat
        })
    }

    pub open spec fn spec_is_empty(&self) -> bool {
        !self.piece && !self.inbound && !self.inbound_with_payload && !self.outbound
            && !self.outbound_with_payload
    }

    pub open spec fn spec_is_inbound(&self) -> bool {
        self.inbound || self.inbound_with_payload
    }

    pub open spec fn spec_is_outbound(&self) -> bool {
        self.outbound || self.outbound_with_payload
    }

    /// The set with no role.
    pub fn empty() -> (r: RoleSet)
        ensures
            r.spec_is_empty(),
    {
        RoleSet {
            piece: false,
            inbound: false,
            inbound_with_payload: false,
            outbound: false,
            outbound_with_payload: false,
        }
    }

    /// Whether the set holds `role`.
    pub fn contains(&self, role: SignalRole) -> (r: bool)
        ensures
            r == self.has(role),
    {
        match role {
            SignalRole::Piece => self.piece,
            SignalRole::InboundRequest => self.inbound,
            SignalRole::InboundRequestWithPayload => self.inbound_with_payload,
            SignalRole::OutboundEvent => self.outbound,
            SignalRole::OutboundEventWithPayload => self.outbound_with_payload,
        }
    }

    /// Adds `role` to the set; adding it twice changes nothing.
    pub fn insert(&mut self, role: SignalRole)
        ensures
            forall|x: SignalRole| #[trigger] final(self).has(x) == (old(self).has(x) || x == role),
    {
        match role {
            SignalRole::Piece => self.piece = true,
            SignalRole::InboundRequest => self.inbound = true,
            SignalRole::InboundRequestWithPayload => self.inbound_with_payload = true,
            SignalRole::OutboundEvent => self.outbound = true,
            SignalRole::OutboundEventWithPayload => self.outbound_with_payload = true,
        }
    }

    #[verifier::when_used_as_spec(spec_is_empty)]
    pub fn is_empty(&self) -> (r: bool)
        ensures
            r == self.spec_is_empty(),
    {
        !self.piece && !self.inbound && !self.inbound_with_payload && !self.outbound
            && !self.outbound_with_payload
    }

    /// Whether Dart sends this declaration to Rust.
    #[verifier::when_used_as_spec(spec_is_inbound)]
    pub fn is_inbound(&self) -> (r: bool)
        ensures
            r == self.spec_is_inbound(),
    {
        self.inbound || self.inbound_with_payload
    }

    /// Whether Rust sends this declaration to Dart.
    #[verifier::when_used_as_spec(spec_is_outbound)]
    pub fn is_outbound(&self) -> (r: bool)
        ensures
            r == self.spec_is_outbound(),
    {
        self.outbound || self.outbound_with_payload
    }
}

/// The role that a derive marker names, if it names one.
pub open spec fn marker_role(name: Seq<char>) -> Option<SignalRole> {
    if name == "SignalPiece"@ {
        Some(SignalRole::Piece)
    } else if name == "DartSignal"@ {
        Some(SignalRole::InboundRequest)
    } else if name == "DartSignalBinary"@ {
        Some(SignalRole::InboundRequestWithPayload)
    } else if name == "RustSignal"@ {
        Some(SignalRole::OutboundEvent)
    } else if name == "RustSignalBinary"@ {
        Some(SignalRole::OutboundEventWithPayload)
    } else {
        None
    }
}

/// Whether some `derive` attribute among `attrs` lists a marker for `role`.
pub open spec fn marked(attrs: Seq<Attribute>, role: SignalRole) -> bool {
    exists|i: int, j: int|
        0 <= i < attrs.len() && attrs[i].path@ == "derive"@ && 0 <= j < attrs[i].items@.len()
            && marker_role(#[trigger] attrs[i].items[j]@) == Some(role)
}

/// The role set of a declaration with the attributes `attrs`.
pub open spec fn roles_of(attrs: Seq<Attribute>) -> RoleSet {
    RoleSet {
        piece: marked(attrs, SignalRole::Piece),
        inbound: marked(attrs, SignalRole::InboundRequest),
        inbound_with_payload: marked(attrs, SignalRole::InboundRequestWithPayload),
        outbound: marked(attrs, SignalRole::OutboundEvent),
        outbound_with_payload: marked(attrs, SignalRole::OutboundEventWithPayload),
    }
}

fn marker_of(name: &String) -> (r: Option<SignalRole>)
    ensures
        r == marker_role(name@),
{
    if is_word(name, "SignalPiece") {
        Some(SignalRole::Piece)
    } else if is_word(name, "DartSignal") {
        Some(SignalRole::InboundRequest)
    } else if is_word(name, "DartSignalBinary") {
        Some(SignalRole::InboundRequestWithPayload)
    } else if is_word(name, "RustSignal") {
        Some(SignalRole::OutboundEvent)
    } else if is_word(name, "RustSignalBinary") {
        Some(SignalRole::OutboundEventWithPayload)
    } else {
        None
    }
}

/// Reads the role set from a declaration's attributes. Only the items of
/// `derive` attributes count; names that are not markers are passed over,
/// and a marker listed twice counts once.
pub fn extract_signal_attribute(attrs: &Vec<Attribute>) -> (r: RoleSet)
    ensures
        r == roles_of(attrs@),
{
    let mut roles = RoleSet::empty();
    let mut i: usize = 0;
    while i < attrs.len()
        invariant
            0 <= i <= attrs.len(),
            forall|x: SignalRole| #[trigger] roles.has(x) == marked(attrs@.subrange(0, i as int), x),
        decreases attrs.len() - i,
    {
        let attr = &attrs[i];
        let is_derive = is_word(&attr.path, "derive");
        let mut j: usize = 0;
        while j < attr.items.len()
            invariant
                0 <= i < attrs.len(),
                *attr == attrs[i as int],
                0 <= j <= attr.items.len(),
                forall|x: SignalRole| #[trigger]
                    roles.has(x) == (marked(attrs@.subrange(0, i as int), x) || (is_derive
                        && exists|k: int|
                        0 <= k < j && marker_role(#[trigger] attr.items[k]@) == Some(x))),
            decreases attr.items.len() - j,
        {
            if is_derive {
                match marker_of(&attr.items[j]) {
                    Some(role) => roles.insert(role),
                    None => {},
                }
            }
            proof {
                assert forall|x: SignalRole| #[trigger]
                    roles.has(x) == (marked(attrs@.subrange(0, i as int), x) || (is_derive
                        && exists|k: int|
                        0 <= k < j + 1 && marker_role(#[trigger] attr.items[k]@) == Some(x))) by {
                    if is_derive && marker_role(attr.items[j as int]@) == Some(x) {
                        assert(0 <= j < j + 1);
                    }
                }
            }
            j += 1;
        }
        proof {
            let pre = attrs@.subrange(0, i as int);
            let next = attrs@.subrange(0, i + 1);
            assert forall|x: SignalRole| #[trigger] roles.has(x) == marked(next, x) by {
                if marked(next, x) {
                    let (a, b) = choose|a: int, b: int|
                        0 <= a < next.len() && next[a].path@ == "derive"@ && 0 <= b
                            < next[a].items@.len() && marker_role(#[trigger] next[a].items[b]@)
                            == Some(x);
                    if a < i {
                        assert(pre[a] == next[a]);
                        assert(marked(pre, x));
                    } else {
                        assert(marker_role(attr.items[b]@) == Some(x));
                    }
                }
                if marked(pre, x) {
                    let (a, b) = choose|a: int, b: int|
                        0 <= a < pre.len() && pre[a].path@ == "derive"@ && 0 <= b
                            < pre[a].items@.len() && marker_role(#[trigger] pre[a].items[b]@)
                            == Some(x);
                    assert(next[a] == pre[a]);
                    assert(marked(next, x));
                }
                if is_derive && exists|k: int|
                    0 <= k < attr.items.len() && marker_role(#[trigger] attr.items[k]@) == Some(
                        x,
                    ) {
                    let k = choose|k: int|
                        0 <= k < attr.items.len() && marker_role(#[trigger] attr.items[k]@)
                            == Some(x);
                    assert(next[i as int] == *attr);
                    assert(marker_role(next[i as int].items[k]@) == Some(x));
                    assert(marked(next, x));
                }
            }
        }
        i += 1;
    }
    proof {
        assert(attrs@.subrange(0, attrs@.len() as int) =~= attrs@);
        assert(roles.has(SignalRole::Piece) == marked(attrs@, SignalRole::Piece));
        assert(roles.has(SignalRole::InboundRequest) == marked(attrs@, SignalRole::InboundRequest));
        assert(roles.has(SignalRole::InboundRequestWithPayload) == marked(
            attrs@,
            SignalRole::InboundRequestWithPayload,
        ));
        assert(roles.has(SignalRole::OutboundEvent) == marked(attrs@, SignalRole::OutboundEvent));
        assert(roles.has(SignalRole::OutboundEventWithPayload) == marked(
            attrs@,
            SignalRole::OutboundEventWithPayload,
        ));
    }
    roles
}

} // verus!
