//! Where the Worker dials: the Manager's transport address, and the
//! validation of the base URL each simulated user will target.

use vstd::prelude::*;

verus! {

/// ASCII 't'.
pub const B_T: u8 = 116;
/// ASCII 'c'.
pub const B_C: u8 = 99;
/// ASCII 'p'.
pub const B_P: u8 = 112;
/// ASCII ':'.
pub const B_COLON: u8 = 58;
/// ASCII '/'.
pub const B_SLASH: u8 = 47;
/// ASCII '0'.
pub const B_ZERO: u8 = 48;

/// Whether a byte string parses as an absolute URL.  The answer depends on
/// the bytes alone.
pub uninterp spec fn url_ok(s: Seq<u8>) -> bool;

/// Relies on url::Url::parse: accepts a byte string exactly when it is valid
/// UTF-8 that parses as an absolute URL; the result is a function of the
/// bytes alone.
#[verifier::external_body]
pub(crate) fn base_url_accepted(s: &Vec<u8>) -> (r: bool)
    ensures
        r == url_ok(s@),
{
    match core::str::from_utf8(s.as_slice()) {
        Ok(t) => url::Url::parse(t).is_ok(),
        Err(_) => false,
    }
}

/// The scheme prefix of the Manager's TCP address.
pub open spec fn scheme_prefix() -> Seq<u8> {
    seq![B_T, B_C, B_P, B_COLON, B_SLASH, B_SLASH]
}

/// Decimal digits of `p`, most significant first.
pub open spec fn dec_digits(p: u16) -> Seq<u8>
    decreases p,
{
    if p < 10 {
        seq![(B_ZERO + p) as u8]
    } else {
        dec_digits(p / 10).push((B_ZERO + p % 10) as u8)
    }
}

/// The address the Worker dials: scheme, host, colon, decimal port.
pub open spec fn manager_address_bytes(host: Seq<u8>, port: u16) -> Seq<u8> {
    scheme_prefix() + host + seq![B_COLON] + dec_digits(port)
}

fn push_decimal(out: &mut Vec<u8>, p: u16)
    ensures
        final(out)@ == old(out)@ + dec_digits(p),
    decreases p,
{
    if p >= 10 {
        push_decimal(out, p / 10);
    }
    out.push(B_ZERO + (p % 10) as u8);
    proof {
        if p < 10 {
            assert(out@ =~= old(out)@ + dec_digits(p));
        } else {
            assert(out@ =~= old(out)@ + dec_digits(p / 10).push((B_ZERO + p % 10) as u8));
        }
    }
}

/// Builds the Manager's TCP address from the configured host and port.
pub fn manager_address(host: &Vec<u8>, port: u16) -> (r: Vec<u8>)
    ensures
        r@ == manager_address_bytes(host@, port),
{
    let mut out: Vec<u8> = Vec::new();
    out.push(B_T);
    out.push(B_C);
    out.push(B_P);
    out.push(B_COLON);
    out.push(B_SLASH);
    out.push(B_SLASH);
    proof {
        assert(out@ =~= scheme_prefix());
    }
    let mut i: usize = 0;
    while i < host.len()
        invariant
            i <= host.len(),
            out@ == scheme_prefix() + host@.take(i as int),
        decreases host.len() - i,
    {
        out.push(host[i]);
        i = i + 1;
        proof {
            assert(out@ =~= scheme_prefix() + host@.take(i as int));
        }
    }
    proof {
        assert(host@.take(host@.len() as int) =~= host@);
    }
    out.push(B_COLON);
    proof {
        assert(out@ =~= scheme_prefix() + host@ + seq![B_COLON]);
    }
    push_decimal(&mut out, port);
    proof {
        assert(out@ =~= manager_address_bytes(host@, port));
    }
    out
}

} // verus!
