//! Lazy file transfers: what each side offers the other.

use vstd::prelude::*;

use crate::clipframe::{Offer, KIND_TAR};
use crate::files::{batch_signature, Node};
use crate::signature::offer_id;

verus! {

/// What the local side currently offers to the other machine.
pub struct LocalOffer {
    pub id: u32,
    pub paths: Vec<String>,
}

/// What the local side currently offers.
#[verifier::ext_equal]
pub struct LocalOfferView {
    pub id: u32,
    pub paths: Seq<Seq<char>>,
}

impl View for LocalOffer {
    type V = LocalOfferView;

    open spec fn view(&self) -> LocalOfferView {
        LocalOfferView { id: self.id, paths: crate::uri::texts(self.paths@) }
    }
}

/// An offer that may be there.
pub open spec fn offer_view(o: Option<LocalOffer>) -> Option<LocalOfferView> {
    match o {
        Some(l) => Some(l@),
        None => None,
    }
}

/// The offer of a batch with this many paths and bytes, and this change
/// hash. Numbers that do not fit are capped.
pub open spec fn batch_offer(items: nat, total: u64, hash: u64) -> Offer {
    Offer {
        kind: KIND_TAR,
        total: if total > u32::MAX {
            u32::MAX
        } else {
            total as u32
        },
        items: if items > u16::MAX {
            u16::MAX
        } else {
            items as u16
        },
        id: crate::signature::offer_id_of(hash),
    }
}

pub fn make_offer(items: usize, total: u64, hash: u64) -> (o: Offer)
    ensures
        o == batch_offer(items as nat, total, hash),
{
    Offer {
        kind: KIND_TAR,
        total: if total > 0xffff_ffff {
            0xffff_ffff
        } else {
            total as u32
        },
        items: if items > 0xffff {
            0xffff
        } else {
            items as u16
        },
        id: offer_id(hash),
    }
}

/// The offer of a batch found on disk under `items` paths: none if any of it
/// is unreadable.
pub open spec fn offer_of(items: nat, batch: Seq<Node>, hash: u64) -> Option<Offer> {
    match crate::files::batch_listing(batch) {
        Some(l) => Some(batch_offer(items, crate::files::signature_of(l).1, hash)),
        None => None,
    }
}

pub fn offer_batch(items: usize, batch: &[Node], hash: u64) -> (r: Option<Offer>)
    ensures
        r == offer_of(items as nat, batch@, hash),
{
    match batch_signature(batch) {
        Some((_, total)) => Some(make_offer(items, total, hash)),
        None => None,
    }
}

/// The change hash of a batch found on disk: none if any of it is
/// unreadable.
pub open spec fn batch_hash(batch: Seq<Node>) -> Option<u64> {
    match crate::files::batch_listing(batch) {
        Some(l) => Some(crate::files::signature_of(l).0 ^ (KIND_TAR as u64)),
        None => None,
    }
}

pub fn hash_batch(batch: &[Node]) -> (r: Option<u64>)
    ensures
        r == batch_hash(batch@),
{
    match batch_signature(batch) {
        Some((sig, _)) => Some(sig ^ (KIND_TAR as u64)),
        None => None,
    }
}

} // verus!
