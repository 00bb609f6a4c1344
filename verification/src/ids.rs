//! Identifiers: peers, messages, requests, addresses.

use crate::bytes::{bytes32_eq, clone_text, text_eq};
use crate::digest::{sha256, sha256_digest};
use crate::table::TableKey;
use vstd::prelude::*;

verus! {

/// The identity of a peer: 32 opaque bytes derived from its long-term public
/// key. Peers are told apart by these bytes and by nothing else.
#[derive(Clone, Copy, Debug, PartialEq, Eq, Hash)]
pub struct PeerId(pub [u8; 32]);

impl PeerId {
    /// The identity that belongs to `public_key`: its SHA-256 digest.
    pub open spec fn spec_derive(public_key: Seq<u8>) -> PeerId {
        PeerId(choose|a: [u8; 32]| a@ == sha256(public_key))
    }

    /// Derives the identity of the peer whose long-term public key is
    /// `public_key`.
    pub fn derive(public_key: &Vec<u8>) -> (id: PeerId)
        ensures
            id == Self::spec_derive(public_key@),
            id.0@ == sha256(public_key@),
    {
        let digest: [u8; 32] = sha256_digest(public_key.as_slice());
        proof {
            let chosen = choose|a: [u8; 32]| a@ == sha256(public_key@);
            assert(chosen@ == digest@);
            assert(chosen =~= digest);
        }
        PeerId(digest)
    }

    /// Whether both identifiers hold the same bytes.
    pub fn same(&self, other: &PeerId) -> (r: bool)
        ensures
            r == (*self == *other),
    {
        bytes32_eq(&self.0, &other.0)
    }
}

impl TableKey for PeerId {
    fn key_eq(&self, other: &Self) -> (r: bool) {
        self.same(other)
    }
}

/// The identity of a gossip message: the SHA-256 digest of its payload.
/// The sender plays no part, so one payload has one id whoever relays it.
#[derive(Clone, Copy, Debug, PartialEq, Eq, Hash)]
pub struct MessageId(pub [u8; 32]);

impl MessageId {
    /// The id of `payload`.
    pub open spec fn spec_of(payload: Seq<u8>) -> MessageId {
        MessageId(choose|a: [u8; 32]| a@ == sha256(payload))
    }

    /// Computes the id of `payload`.
    pub fn of(payload: &Vec<u8>) -> (id: MessageId)
        ensures
            id == Self::spec_of(payload@),
            id.0@ == sha256(payload@),
    {
        let digest: [u8; 32] = sha256_digest(payload.as_slice());
        proof {
            let chosen = choose|a: [u8; 32]| a@ == sha256(payload@);
            assert(chosen@ == digest@);
            assert(chosen =~= digest);
        }
        MessageId(digest)
    }

    /// Whether both ids hold the same bytes.
    pub fn same(&self, other: &MessageId) -> (r: bool)
        ensures
            r == (*self == *other),
    {
        bytes32_eq(&self.0, &other.0)
    }
}

impl TableKey for MessageId {
    fn key_eq(&self, other: &Self) -> (r: bool) {
        self.same(other)
    }
}

/// A layered network address: where to reach a node, and optionally which
/// peer is expected to answer there. The location is opaque text.
#[derive(Debug, PartialEq, Eq, Hash)]
pub struct Multiaddr {
    pub location: String,
    pub peer: Option<PeerId>,
}

/// What a [`Multiaddr`] stands for.
pub struct MultiaddrView {
    pub location: Seq<char>,
    pub peer: Option<PeerId>,
}

impl View for Multiaddr {
    type V = MultiaddrView;

    open spec fn view(&self) -> MultiaddrView {
        MultiaddrView { location: self.location@, peer: self.peer }
    }
}

impl Multiaddr {
    /// The address of `peer` at `location`.
    pub fn new(location: String, peer: Option<PeerId>) -> (a: Multiaddr)
        ensures
            a@ == (MultiaddrView { location: location@, peer }),
    {
        Multiaddr { location, peer }
    }

    /// Whether both addresses name the same location and the same peer.
    pub fn same(&self, other: &Multiaddr) -> (r: bool)
        ensures
            r == (self@ == other@),
    {
        let peers_agree = match (&self.peer, &other.peer) {
            (Some(a), Some(b)) => a.same(b),
            (None, None) => true,
            _ => false,
        };
        peers_agree && text_eq(&self.location, &other.location)
    }

    /// A copy of this address.
    pub fn duplicate(&self) -> (a: Multiaddr)
        ensures
            a@ == self@,
    {
        Multiaddr { location: clone_text(&self.location), peer: self.peer }
    }
}

} // verus!
