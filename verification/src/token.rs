//! Stateless address-validation tokens.
//!
//! A token is a fixed marker, the octets of the peer's IP address and the
//! destination connection id that the peer first used. It is not authenticated:
//! it limits amplification towards an address that an off-path attacker cannot
//! observe, and is no protection against spoofing.

use vstd::prelude::*;
use crate::addr::SocketAddress;
use crate::bytes::{append, copy_range, has_at, matches_at};
use crate::packet::PacketHeader;

verus! {

/// The marker that every token starts with: the ASCII letters `quiche`.
pub open spec fn marker() -> Seq<u8> {
    seq![0x71u8, 0x75u8, 0x69u8, 0x63u8, 0x68u8, 0x65u8]
}

/// The token for a peer and the destination connection id of its first packet.
pub open spec fn minted(dcid: Seq<u8>, peer: SocketAddress) -> Seq<u8> {
    marker() + peer.ip_octets() + dcid
}

/// What a token yields for a peer: the embedded connection id, when the token
/// is long enough, starts with the marker and carries the peer's IP address.
pub open spec fn validated(peer: SocketAddress, token: Seq<u8>) -> Option<Seq<u8>> {
    if matches_at(token, 0, marker()) && matches_at(token, 6, peer.ip_octets()) {
        Some(token.skip(6 + peer.ip_octets().len() as int))
    } else {
        None
    }
}

/// The marker as bytes.
pub fn marker_bytes() -> (r: [u8; 6])
    ensures
        r@ == marker(),
{
    let r: [u8; 6] = [0x71, 0x75, 0x69, 0x63, 0x68, 0x65];
    assert(r@ =~= marker());
    r
}

/// Mints the token for the peer that sent a packet with header `hdr`.
pub fn mint_token(hdr: &PacketHeader, src: &SocketAddress) -> (token: Vec<u8>)
    ensures
        token@ == minted(hdr.dcid@, *src),
{
    let mut token: Vec<u8> = Vec::new();
    let m = marker_bytes();
    append(&mut token, m.as_slice());
    let ip = src.ip();
    append(&mut token, ip.as_slice());
    append(&mut token, hdr.dcid.as_slice());
    token
}

/// Checks a token against the address a packet came from, and returns the
/// connection id that the token carries.
pub fn validate_token(src: &SocketAddress, token: &[u8]) -> (odcid: Option<Vec<u8>>)
    ensures
        odcid is Some == validated(*src, token@) is Some,
        odcid matches Some(id) ==> validated(*src, token@) == Some(id@),
{
    let m = marker_bytes();
    if !has_at(token, 0, m.as_slice()) {
        return None;
    }
    let ip = src.ip();
    if !has_at(token, 6, ip.as_slice()) {
        return None;
    }
    let start: usize = 6 + ip.len();
    let id = copy_range(token, start, token.len());
    assert(token@.subrange(start as int, token@.len() as int) == token@.skip(start as int));
    Some(id)
}

/// A token minted for a peer validates for that peer, and yields the
/// destination connection id unchanged.
pub proof fn lemma_token_round_trip(dcid: Seq<u8>, peer: SocketAddress)
    ensures
        validated(peer, minted(dcid, peer)) == Some(dcid),
{
    let token = minted(dcid, peer);
    let ip = peer.ip_octets();
    assert(token.subrange(0, 6) =~= marker());
    assert(token.subrange(6, 6 + ip.len() as int) =~= ip);
    assert(token.skip(6 + ip.len() as int) =~= dcid);
}

/// A token minted for one peer validates for another exactly when the other's
/// IP octets are the start of the first peer's octets followed by the
/// connection id.
pub proof fn lemma_token_other_peer(dcid: Seq<u8>, minted_for: SocketAddress, shown_by: SocketAddress)
    ensures
        validated(shown_by, minted(dcid, minted_for)) is Some <==> shown_by.ip_octets().is_prefix_of(
            minted_for.ip_octets() + dcid,
        ),
{
    let token = minted(dcid, minted_for);
    let rest = minted_for.ip_octets() + dcid;
    let ip = shown_by.ip_octets();
    assert(token.subrange(0, 6) =~= marker());
    assert(token.len() == 6 + rest.len());
    if ip.len() <= rest.len() {
        assert(token.subrange(6, 6 + ip.len() as int) =~= rest.subrange(0, ip.len() as int));
    }
}

/// A token minted for one address fails for a different address of the same
/// family.
pub proof fn lemma_token_wrong_ip(dcid: Seq<u8>, minted_for: SocketAddress, shown_by: SocketAddress)
    requires
        minted_for.ip_octets().len() == shown_by.ip_octets().len(),
        minted_for.ip_octets() != shown_by.ip_octets(),
    ensures
        validated(shown_by, minted(dcid, minted_for)) is None,
{
    lemma_token_other_peer(dcid, minted_for, shown_by);
    let a = minted_for.ip_octets();
    let b = shown_by.ip_octets();
    if b.is_prefix_of(a + dcid) {
        assert((a + dcid).subrange(0, b.len() as int) =~= a);
        assert(false);
    }
}

/// A token cut short never yields the connection id it was minted with: cut
/// inside the marker or the address it fails, and cut later it yields only the
/// part of the connection id that is left.
pub proof fn lemma_token_truncated(dcid: Seq<u8>, peer: SocketAddress, keep: int)
    requires
        0 <= keep < minted(dcid, peer).len(),
    ensures
        validated(peer, minted(dcid, peer).take(keep)) != Some(dcid),
        keep < 6 + peer.ip_octets().len() ==> validated(peer, minted(dcid, peer).take(keep)) is None,
        keep >= 6 + peer.ip_octets().len() ==> validated(peer, minted(dcid, peer).take(keep)) == Some(
            dcid.take(keep - 6 - peer.ip_octets().len()),
        ),
{
    let token = minted(dcid, peer);
    let cut = token.take(keep);
    let ip = peer.ip_octets();
    let head = 6 + ip.len();
    if keep >= head {
        assert(cut.subrange(0, 6) =~= marker());
        assert(cut.subrange(6, 6 + ip.len() as int) =~= ip);
        assert(cut.skip(head as int) =~= dcid.take(keep - head));
        assert(dcid.take(keep - head).len() < dcid.len());
    }
}

} // verus!
