//! The certificates that the gateway trusts when it connects to an upstream.

use rustls::RootCertStore;

use vstd::prelude::*;

use crate::text::byte_lists;

verus! {

#[verifier::external_type_specification]
#[verifier::external_body]
pub struct ExRootCertStore(RootCertStore);

/// A trust anchor, in DER: whom it belongs to, the public key, and the names that it may vouch
/// for, where they are limited.
pub struct AnchorModel {
    pub subject: Seq<u8>,
    pub public_key: Seq<u8>,
    pub name_constraints: Option<Seq<u8>>,
}

/// The trust anchors that a store holds, in the order in which they were added.
pub uninterp spec fn trust_anchors(store: RootCertStore) -> Seq<AnchorModel>;

/// The trust anchor that a certificate stands for, if it can be one.
pub uninterp spec fn anchor_of(certificate: Seq<u8>) -> Option<AnchorModel>;

/// Those of a list of possible trust anchors that are there.
pub open spec fn usable(anchors: Seq<Option<AnchorModel>>) -> Seq<AnchorModel>
    decreases anchors.len(),
{
    if anchors.len() == 0 {
        Seq::empty()
    } else {
        match anchors.last() {
            Some(anchor) => usable(anchors.drop_last()).push(anchor),
            None => usable(anchors.drop_last()),
        }
    }
}

/// The trust anchors that a list of certificates stands for.
pub open spec fn anchors_among(certificates: Seq<Seq<u8>>) -> Seq<AnchorModel> {
    usable(certificates.map_values(|certificate: Seq<u8>| anchor_of(certificate)))
}

/// `RootCertStore::add_parsable_certificates`: every certificate that can be a trust anchor is
/// added as one, in its order, and every other is passed over; the two counts say how many there
/// were of each. Whether a certificate can be one, and which, depends on the certificate alone,
/// and `anchor_of` names it.
#[verifier::external_body]
pub(crate) fn add_parsable_certificates(
    store: &mut RootCertStore,
    certificates: Vec<Vec<u8>>,
) -> (r: (usize, usize))
    ensures
        trust_anchors(*final(store)) == trust_anchors(*old(store)) + usable(
            byte_lists(certificates@).map_values(|certificate: Seq<u8>| anchor_of(certificate)),
        ),
        r.0 == anchors_among(byte_lists(certificates@)).len(),
        r.0 + r.1 == certificates@.len(),
{
    store.add_parsable_certificates(certificates.into_iter().map(|der| der.into()))
}

} // verus!
