use vstd::prelude::*;
use vstd::string::StringSliceAdditionalSpecFns;
use vstd::utf8::{encode_utf8, valid_utf8};

verus! {

/// The separator between the sender's address and its message.
pub open spec fn separator() -> Seq<u8> {
    seq![58u8, 32u8]
}

/// What each peer receives in attributed mode: the sender's address as
/// UTF-8, then `": "`, then the message bytes.
pub open spec fn attributed(addr: Seq<char>, data: Seq<u8>) -> Seq<u8> {
    encode_utf8(addr) + separator() + data
}

/// What each peer receives for a message `data` from a sender at `addr`.
pub open spec fn envelope(addr: Seq<char>, data: Seq<u8>, anonymous: bool) -> Seq<u8> {
    if anonymous {
        data
    } else {
        attributed(addr, data)
    }
}

/// Whether a message can be relayed: anonymous mode relays any bytes,
/// attributed mode only well-formed UTF-8 text.
pub open spec fn relayable(data: Seq<u8>, anonymous: bool) -> bool {
    anonymous || valid_utf8(data)
}

/// Relies on std::str::from_utf8: it succeeds exactly when the bytes are
/// well-formed UTF-8.
#[verifier::external_body]
fn is_text(b: &[u8]) -> (r: bool)
    ensures
        r == valid_utf8(b@),
{
    std::str::from_utf8(b).is_ok()
}

fn push_all(out: &mut Vec<u8>, bytes: &[u8])
    ensures
        final(out)@ == old(out)@ + bytes@,
{
    let mut i: usize = 0;
    while i < bytes.len()
        invariant
            0 <= i <= bytes@.len(),
            out@ == old(out)@ + bytes@.subrange(0, i as int),
        decreases bytes@.len() - i,
    {
        out.push(bytes[i]);
        i += 1;
        proof {
            assert(bytes@.subrange(0, i as int) =~= bytes@.subrange(0, i - 1) + seq![bytes@[i - 1]]);
        }
    }
    proof {
        assert(bytes@.subrange(0, bytes@.len() as int) =~= bytes@);
    }
}

/// Builds the payload that every peer of a sender at `addr` receives for
/// the message `data`, or `None` where the message cannot be relayed
/// (attributed mode, bytes that are not UTF-8 text).
pub fn frame_message(addr: &str, data: &[u8], anonymous: bool) -> (r: Option<Vec<u8>>)
    ensures
        match r {
            Some(p) => relayable(data@, anonymous) && p@ == envelope(addr@, data@, anonymous),
            None => !relayable(data@, anonymous),
        },
{
    let mut out: Vec<u8> = Vec::new();
    if anonymous {
        push_all(&mut out, data);
        return Some(out);
    }
    if !is_text(data) {
        return None;
    }
    push_all(&mut out, addr.as_bytes());
    out.push(58u8);
    out.push(32u8);
    push_all(&mut out, data);
    proof {
        assert(out@ =~= attributed(addr@, data@));
    }
    Some(out)
}

} // verus!
