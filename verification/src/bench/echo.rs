//! Answering tracker packets at once, to find the limits of the measuring itself.

use vstd::prelude::*;

use crate::bytes::{
    be_bytes, be_value, field, get_be32, lemma_be_bytes_len, lemma_be_round_trip,
    lemma_be_value_bytes, lemma_pow256_values, put_be32, put_be64, put_zeros, zeros,
};

verus! {

/// The connection id that is given out.
pub const ECHO_CONNECTION_ID: u64 = 0x1234_5678_9ABC_DEF0;

/// The answer to a packet: to connecting, the connection id; to announcing and to
/// scraping, an empty answer; to anything else, none. Each carries the packet's
/// transaction id.
pub open spec fn echo_reply(b: Seq<u8>) -> Option<Seq<u8>> {
    if b.len() < 16 {
        None
    } else {
        let action = be_value(field(b, 8, 12));
        let tx = be_bytes(be_value(field(b, 12, 16)), 4);
        if action == 0 {
            Some(be_bytes(0, 4) + tx + be_bytes(ECHO_CONNECTION_ID as nat, 8))
        } else if action == 1 {
            Some(be_bytes(1, 4) + tx + zeros(12))
        } else if action == 2 {
            Some(be_bytes(2, 4) + tx + zeros(12))
        } else {
            None
        }
    }
}

/// Answers a packet.
pub fn reply(buf: &[u8]) -> (r: Option<Vec<u8>>)
    ensures
        match r {
            Some(v) => echo_reply(buf@) == Some(v@),
            None => echo_reply(buf@) is None,
        },
{
    if buf.len() < 16 {
        return None;
    }
    let action: u32 = get_be32(buf, 8);
    let tx: u32 = get_be32(buf, 12);
    let mut out: Vec<u8> = Vec::new();
    if action == 0 {
        put_be32(&mut out, 0);
        put_be32(&mut out, tx);
        put_be64(&mut out, ECHO_CONNECTION_ID);
        proof {
            assert(out@ =~= be_bytes(0, 4) + be_bytes(tx as nat, 4) + be_bytes(
                ECHO_CONNECTION_ID as nat,
                8,
            ));
        }
        Some(out)
    } else if action == 1 || action == 2 {
        put_be32(&mut out, action);
        put_be32(&mut out, tx);
        put_zeros(&mut out, 12);
        proof {
            assert(out@ =~= be_bytes(action as nat, 4) + be_bytes(tx as nat, 4) + zeros(12));
        }
        Some(out)
    } else {
        None
    }
}

/// The answer carries the packet's transaction id behind its action.
pub proof fn lemma_reply_carries_transaction(b: Seq<u8>)
    requires
        echo_reply(b) is Some,
    ensures
        field(echo_reply(b)->0, 4, 8) == field(b, 12, 16),
        be_value(field(echo_reply(b)->0, 0, 4)) == be_value(field(b, 8, 12)),
        echo_reply(b)->0.len() == 16 || echo_reply(b)->0.len() == 20,
{
    let action = be_value(field(b, 8, 12));
    let r = echo_reply(b)->0;
    crate::bytes::lemma_be_value_bytes(field(b, 12, 16));
    crate::bytes::lemma_pow256_values();
    crate::bytes::lemma_be_round_trip(action, 4);
    lemma_be_bytes_len(be_value(field(b, 12, 16)), 4);
    lemma_be_bytes_len(ECHO_CONNECTION_ID as nat, 8);
    assert(field(r, 4, 8) =~= be_bytes(be_value(field(b, 12, 16)), 4));
    assert(field(r, 0, 4) =~= be_bytes(action, 4));
}

/// A packet is answered exactly where it has a head whose action is one of the three; the
/// answer to a connecting one brings the connection, and the others bring nothing but
/// zeros behind the head.
pub proof fn lemma_what_is_answered(b: Seq<u8>, i: int)
    ensures
        echo_reply(b) is Some <==> b.len() >= 16 && be_value(field(b, 8, 12)) <= 2,
        b.len() >= 16 && be_value(field(b, 8, 12)) == 0 ==> echo_reply(b)->0.len() == 16
            && be_value(field(echo_reply(b)->0, 8, 16)) == 0x1234_5678_9ABC_DEF0,
        b.len() >= 16 && 1 <= be_value(field(b, 8, 12)) <= 2 ==> echo_reply(b)->0.len() == 20 && (8
            <= i < 20 ==> echo_reply(b)->0[i] == 0),
{
    lemma_pow256_values();
    lemma_be_round_trip(ECHO_CONNECTION_ID as nat, 8);
    if b.len() >= 16 {
        let f = field(b, 12, 16);
        lemma_be_value_bytes(f);
        lemma_be_bytes_len(0, 4);
        lemma_be_bytes_len(1, 4);
        lemma_be_bytes_len(2, 4);
        lemma_be_bytes_len(be_value(f), 4);
        if be_value(field(b, 8, 12)) == 0 {
            assert(field(echo_reply(b)->0, 8, 16) =~= be_bytes(ECHO_CONNECTION_ID as nat, 8));
        }
    }
}

} // verus!
