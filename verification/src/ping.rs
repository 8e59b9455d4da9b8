//! The ICMP echo-request header used by the host-liveness probe, with its
//! wire encoding and ones-complement checksum. Sending the packet and
//! reading the reply are the caller's work; deciding what the bytes mean is
//! done here.

use vstd::prelude::*;

verus! {

/// ICMP message type of an echo request.
pub const ICMP_ECHO_REQUEST: u8 = 8;

/// ICMP message type of an echo reply.
pub const ICMP_ECHO_REPLY: u8 = 0;

/// An ICMP echo header: type, code, checksum, identifier, sequence.
#[derive(Clone, Copy, Debug)]
pub struct IcmpHeader {
    pub type_: u8,
    pub code: u8,
    pub checksum: u16,
    pub identifier: u16,
    pub sequence: u16,
}

/// The eight wire bytes of a header: type and code, then checksum,
/// identifier and sequence, each big-endian.
pub open spec fn spec_header_bytes(h: IcmpHeader) -> Seq<u8> {
    seq![
        h.type_,
        h.code,
        (h.checksum / 256) as u8,
        (h.checksum % 256) as u8,
        (h.identifier / 256) as u8,
        (h.identifier % 256) as u8,
        (h.sequence / 256) as u8,
        (h.sequence % 256) as u8,
    ]
}

/// The sum of the four big-endian 16-bit words of the header's wire bytes.
pub open spec fn spec_word_sum(h: IcmpHeader) -> int {
    h.type_ * 256 + h.code + h.checksum + h.identifier + h.sequence
}

/// Ones-complement folding: add the carry above 16 bits back into the low
/// bits until the sum fits in 16 bits.
pub open spec fn spec_fold_carries(sum: int) -> int
    recommends
        sum >= 0,
    decreases sum,
{
    if sum > 0xFFFF {
        spec_fold_carries(sum % 0x10000 + sum / 0x10000)
    } else {
        sum
    }
}

impl IcmpHeader {
    /// A fresh echo request with the checksum still zero.
    pub fn new(identifier: u16, sequence: u16) -> (r: Self)
        ensures
            r.type_ == ICMP_ECHO_REQUEST,
            r.code == 0,
            r.checksum == 0,
            r.identifier == identifier,
            r.sequence == sequence,
    {
        IcmpHeader { type_: ICMP_ECHO_REQUEST, code: 0, checksum: 0, identifier, sequence }
    }

    /// The header as it goes on the wire.
    pub fn to_bytes(&self) -> (r: [u8; 8])
        ensures
            r@ == spec_header_bytes(*self),
    {
        let r: [u8; 8] = [
            self.type_,
            self.code,
            (self.checksum / 256) as u8,
            (self.checksum % 256) as u8,
            (self.identifier / 256) as u8,
            (self.identifier % 256) as u8,
            (self.sequence / 256) as u8,
            (self.sequence % 256) as u8,
        ];
        proof {
            assert(r@ =~= spec_header_bytes(*self));
        }
        r
    }

    /// Fill in the checksum: the ones-complement of the folded word sum of
    /// the bytes as they currently stand (the checksum field itself
    /// included, so this is meant to be called while it is still zero).
    pub fn calculate_checksum(&mut self)
        ensures
            final(self).checksum == 0xFFFF - spec_fold_carries(spec_word_sum(*old(self))),
            final(self).type_ == old(self).type_,
            final(self).code == old(self).code,
            final(self).identifier == old(self).identifier,
            final(self).sequence == old(self).sequence,
    {
        let mut sum: u32 = (self.type_ as u32) * 256 + (self.code as u32) + (self.checksum as u32)
            + (self.identifier as u32) + (self.sequence as u32);
        proof {
            assert(sum == spec_word_sum(*self));
        }
        let ghost sum0 = sum as int;
        while sum > 0xFFFF
            invariant
                spec_fold_carries(sum as int) == spec_fold_carries(sum0),
            decreases sum,
        {
            let low = sum & 0xFFFF;
            let high = sum >> 16;
            proof {
                assert(low == sum % 0x10000 && high == sum / 0x10000 && low + high < sum) by (bit_vector)
                    requires
                        low == sum & 0xFFFF,
                        high == sum >> 16,
                        sum > 0xFFFF,
                ;
            }
            sum = low + high;
        }
        proof {
            assert(spec_fold_carries(sum as int) == sum as int);
        }
        self.checksum = (0xFFFF - sum) as u16;
    }
}

/// Does a received ICMP packet look like an echo reply: at least a full
/// header, and the reply message type in its first byte?
pub fn icmp_reply_is_echo(reply: &[u8], len: usize) -> (r: bool)
    requires
        len <= reply@.len(),
    ensures
        r == (len >= 8 && reply@.len() >= 1 && reply@[0] == ICMP_ECHO_REPLY),
{
    if len >= 8 {
        let first = *vstd::slice::slice_index_get(reply, 0);
        first == ICMP_ECHO_REPLY
    } else {
        false
    }
}

} // verus!
