//! Pieces of the demo data source: the session identifiers it gives the
//! requests it makes up, and the templates whose suggested index the user
//! has applied.

use vstd::prelude::*;
use std::collections::HashSet;
use std::sync::{Arc, Mutex};
use crate::text::push_char;

verus! {

/// `std::sync::Mutex`, carried through unopened.
#[verifier::external_type_specification]
#[verifier::external_body]
#[verifier::reject_recursive_types(T)]
pub struct ExMutex<T: ?Sized>(Mutex<T>);

/// The demo data source.
pub struct MockSource {
    /// The templates whose suggested index has been applied, shared with
    /// the window.
    pub applied_templates: Arc<Mutex<HashSet<usize>>>,
}

impl MockSource {
    pub fn new(applied_templates: Arc<Mutex<HashSet<usize>>>) -> (r: Self)
        ensures
            r.applied_templates == applied_templates,
    {
        MockSource { applied_templates }
    }
}

/// The lower-case hexadecimal digit of `d` (below sixteen).
pub open spec fn hex_digit(d: nat) -> char {
    if d < 10 {
        (d + 48) as char
    } else {
        (d + 87) as char
    }
}

/// The last `w` hexadecimal digits of `n`, zero-padded: for `n` below
/// `16^w`, what `format!("{:0w$x}", n)` writes.
pub open spec fn hex_fixed(n: nat, w: nat) -> Seq<char>
    decreases w,
{
    if w == 0 {
        Seq::empty()
    } else {
        hex_fixed(n / 16, (w - 1) as nat) + seq![hex_digit(n % 16)]
    }
}

/// The multiplier that spreads an id over the first group.
pub const SESSION_MIX: u64 = 0x9e37_79b9_7f4a_7c15;

/// The session id of the request `id`, shaped as a version-4 UUID: the
/// low 32 bits of `id * SESSION_MIX` (modulo 2^64), bits 16..32 of `id`,
/// `4` and bits 32..44, `8` and bits 48..62, and the low 48 bits.
pub open spec fn session_id(id: u64) -> Seq<char> {
    let mixed = (id as nat * SESSION_MIX as nat) % 0x1_0000_0000_0000_0000;
    hex_fixed(mixed % 0x1_0000_0000, 8) + "-"@ + hex_fixed((id as nat / 0x1_0000) % 0x1_0000, 4)
        + "-"@ + hex_fixed(0x4000 + (id as nat / 0x1_0000_0000) % 0x1000, 4) + "-"@ + hex_fixed(
        0x8000 + (id as nat / 0x1_0000_0000_0000) % 0x4000,
        4,
    ) + "-"@ + hex_fixed(id as nat % 0x1_0000_0000_0000, 12)
}

/// Appends the last `w` hexadecimal digits of `n` to `out`.
fn push_hex(out: &mut String, n: u64, w: u32)
    ensures
        final(out)@ == old(out)@ + hex_fixed(n as nat, w as nat),
    decreases w,
{
    if w == 0 {
        assert(old(out)@ + hex_fixed(n as nat, 0) =~= old(out)@);
        return;
    }
    push_hex(out, n / 16, w - 1);
    let d: u8 = (n % 16) as u8;
    let b: u8 = if d < 10 {
        d + 48
    } else {
        d + 87
    };
    let c = b as char;
    assert(c == hex_digit((n % 16) as nat));
    push_char(out, c);
    assert(out@ =~= old(out)@ + hex_fixed(n as nat, w as nat));
}

/// Appends a dash.
fn push_dash(out: &mut String)
    ensures
        final(out)@ == old(out)@ + "-"@,
{
    proof {
        reveal_strlit("-");
    }
    push_char(out, '-');
    assert(out@ =~= old(out)@ + "-"@);
}

/// The session id given to the made-up request `id`.
pub fn hex_session_id(id: u64) -> (r: String)
    ensures
        r@ == session_id(id),
{
    let mixed = id.wrapping_mul(SESSION_MIX);
    let a = mixed & 0xffff_ffff;
    let b = (id >> 16) & 0xffff;
    let c = 0x4000 | ((id >> 32) & 0x0fff);
    let d = 0x8000 | ((id >> 48) & 0x3fff);
    let e = id & 0xffff_ffff_ffff;
    assert(a == mixed % 0x1_0000_0000) by (bit_vector)
        requires
            a == mixed & 0xffff_ffff,
    ;
    assert(b == (id / 0x1_0000) % 0x1_0000) by (bit_vector)
        requires
            b == (id >> 16) & 0xffff,
    ;
    assert(c == 0x4000 + (id / 0x1_0000_0000) % 0x1000) by (bit_vector)
        requires
            c == 0x4000 | ((id >> 32) & 0x0fff),
    ;
    assert(d == 0x8000 + (id / 0x1_0000_0000_0000) % 0x4000) by (bit_vector)
        requires
            d == 0x8000 | ((id >> 48) & 0x3fff),
    ;
    assert(e == id % 0x1_0000_0000_0000) by (bit_vector)
        requires
            e == id & 0xffff_ffff_ffff,
    ;
    let mut out = String::new();
    push_hex(&mut out, a, 8);
    push_dash(&mut out);
    push_hex(&mut out, b, 4);
    push_dash(&mut out);
    push_hex(&mut out, c, 4);
    push_dash(&mut out);
    push_hex(&mut out, d, 4);
    push_dash(&mut out);
    push_hex(&mut out, e, 12);
    assert(out@ =~= session_id(id));
    out
}

} // verus!
