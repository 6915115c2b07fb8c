//! USB port topology: hubs, ports and port paths such as "1-2.3.4" (bus
//! 1, then ports 2, 3 and 4 down the hub chain).
use crate::errors::UsbError;
use crate::text::concat;
use vstd::prelude::*;
use vstd::string::StringSliceAdditionalSpecFns;

verus! {

/// Ports assumed on a hub whose descriptor was not read.
pub const DEFAULT_HUB_PORTS: u8 = 4;

#[derive(Debug, Clone)]
pub struct UsbPort {
    pub port_number: u8,
    pub hub_address: Option<u8>,
    pub path: String,
}

#[derive(Debug, Clone)]
pub struct UsbHub {
    pub address: u8,
    pub bus: u8,
    pub num_ports: u8,
    pub ports: Vec<UsbPort>,
}

/// '-' or '.', the separators of a port path.
pub open spec fn is_sep(b: u8) -> bool {
    b == 45 || b == 46
}

/// The fields of `b` between separators (empty ones included).
pub open spec fn fields(b: Seq<u8>) -> Seq<Seq<u8>>
    decreases b.len(),
{
    if b.len() == 0 {
        seq![Seq::empty()]
    } else {
        let f = fields(b.drop_last());
        if is_sep(b.last()) {
            f.push(Seq::empty())
        } else {
            f.update(f.len() - 1, f.last().push(b.last()))
        }
    }
}

pub open spec fn all_digits(s: Seq<u8>) -> bool {
    forall|i: int| 0 <= i < s.len() ==> 48 <= #[trigger] s[i] <= 57
}

/// The decimal value of a run of ASCII digits.
pub open spec fn digits_value(s: Seq<u8>) -> nat
    decreases s.len(),
{
    if s.len() == 0 {
        0
    } else {
        digits_value(s.drop_last()) * 10 + (s.last() - 48) as nat
    }
}

/// `s` without one leading '+'.
pub open spec fn unsigned_part(s: Seq<u8>) -> Seq<u8> {
    if s.len() > 0 && s[0] == 43 { s.drop_first() } else { s }
}

/// A `u8` written in decimal, optionally after '+'.
pub open spec fn parse_u8_text(s: Seq<u8>) -> Option<u8> {
    let d = unsigned_part(s);
    if d.len() > 0 && all_digits(d) && digits_value(d) <= 255 {
        Some(digits_value(d) as u8)
    } else {
        None
    }
}

/// The port numbers of a port path: every field after the bus, each a
/// `u8`; `None` when there is no such field or one is not a `u8`.
pub open spec fn port_numbers(b: Seq<u8>) -> Option<Seq<u8>> {
    let f = fields(b);
    if f.len() >= 2 && forall|i: int| 1 <= i < f.len() ==> #[trigger] parse_u8_text(f[i]) is Some {
        Some(Seq::new((f.len() - 1) as nat, |i: int| parse_u8_text(f[i + 1])->0))
    } else {
        None
    }
}

proof fn lemma_fields_nonempty(b: Seq<u8>)
    ensures
        fields(b).len() >= 1,
    decreases b.len(),
{
    if b.len() > 0 {
        lemma_fields_nonempty(b.drop_last());
    }
}

/// A run of digits is worth at least any of its prefixes.
proof fn lemma_digits_prefix(s: Seq<u8>, k: int)
    requires
        0 <= k <= s.len(),
        all_digits(s),
    ensures
        digits_value(s) >= digits_value(s.subrange(0, k)),
    decreases s.len(),
{
    if k < s.len() {
        assert(s.drop_last() =~= s.subrange(0, s.len() - 1));
        lemma_digits_prefix(s.drop_last(), k);
        assert(s.drop_last().subrange(0, k) =~= s.subrange(0, k));
    } else {
        assert(s.subrange(0, k) =~= s);
    }
}

/// The fields of `b`.
fn split_fields(b: &[u8]) -> (r: Vec<Vec<u8>>)
    ensures
        r@.len() == fields(b@).len(),
        forall|i: int| 0 <= i < r@.len() ==> (#[trigger] r@[i])@ == fields(b@)[i],
{
    let mut done: Vec<Vec<u8>> = Vec::new();
    let mut cur: Vec<u8> = Vec::new();
    let mut i: usize = 0;
    while i < b.len()
        invariant
            i <= b@.len(),
            done@.len() + 1 == fields(b@.subrange(0, i as int)).len(),
            forall|j: int| 0 <= j < done@.len() ==> (#[trigger] done@[j])@ == fields(b@.subrange(0, i as int))[j],
            cur@ == fields(b@.subrange(0, i as int)).last(),
        decreases b@.len() - i,
    {
        let ghost pre = b@.subrange(0, i as int);
        let ghost next = b@.subrange(0, i + 1);
        proof {
            assert(next.drop_last() =~= pre);
            assert(next.last() == b@[i as int]);
            lemma_fields_nonempty(pre);
        }
        let c = b[i];
        if c == 45u8 || c == 46u8 {
            let finished = cur;
            done.push(finished);
            cur = Vec::new();
            assert(cur@ =~= Seq::<u8>::empty());
        } else {
            cur.push(c);
        }
        i = i + 1;
    }
    assert(b@.subrange(0, b@.len() as int) =~= b@);
    done.push(cur);
    done
}

/// The `u8` that `s` writes in decimal, optionally after '+'.
fn parse_u8_field(s: &Vec<u8>) -> (r: Option<u8>)
    ensures
        r == parse_u8_text(s@),
{
    let mut start: usize = 0;
    if s.len() > 0 && s[0] == 43u8 {
        start = 1;
    }
    let ghost d = unsigned_part(s@);
    assert(d =~= s@.subrange(start as int, s@.len() as int));
    if start >= s.len() {
        return None;
    }
    let mut v: u32 = 0;
    let mut i: usize = start;
    while i < s.len()
        invariant
            start <= i <= s@.len(),
            d == s@.subrange(start as int, s@.len() as int),
            d == unsigned_part(s@),
            v == digits_value(d.subrange(0, i - start)),
            v <= 255,
            all_digits(d.subrange(0, i - start)),
        decreases s@.len() - i,
    {
        let c = s[i];
        proof {
            assert(d.subrange(0, i - start + 1).drop_last() =~= d.subrange(0, i - start));
            assert(d.subrange(0, i - start + 1).last() == c);
        }
        assert(d[i - start] == c);
        if c < 48u8 || c > 57u8 {
            assert(!all_digits(d));
            return None;
        }
        v = v * 10 + (c - 48u8) as u32;
        assert(v == digits_value(d.subrange(0, i - start + 1)));
        if v > 255 {
            proof {
                if all_digits(d) {
                    lemma_digits_prefix(d, i - start + 1);
                }
            }
            return None;
        }
        proof {
            assert forall|j: int| 0 <= j < i - start + 1 implies 48 <= #[trigger] d.subrange(0, i - start + 1)[j] <= 57 by {
                if j < i - start {
                    assert(d.subrange(0, i - start + 1)[j] == d.subrange(0, i - start)[j]);
                }
            }
        }
        i = i + 1;
    }
    assert(d.subrange(0, i - start) =~= d);
    Some(v as u8)
}

/// The port numbers of a port path such as "1-2.3.4": the fields after the
/// bus number, split at '-' and '.', each a decimal `u8`. Fails when there
/// is no field after the bus or one of them is not a `u8`.
pub fn parse_port_path(path: &str) -> (r: Result<Vec<u8>, UsbError>)
    ensures
        r is Ok <==> port_numbers(path.spec_bytes()) is Some,
        r matches Ok(v) ==> port_numbers(path.spec_bytes()) == Some(v@),
        r matches Err(e) ==> e is Parse,
{
    let bytes = path.as_bytes();
    let parts = split_fields(bytes);
    let ghost f = fields(bytes@);
    if parts.len() < 2 {
        return Err(UsbError::Parse(concat("Invalid port path: ", path)));
    }
    let mut out: Vec<u8> = Vec::new();
    let mut i: usize = 1;
    while i < parts.len()
        invariant
            1 <= i <= parts@.len(),
            parts@.len() == f.len(),
            f == fields(path.spec_bytes()),
            forall|j: int| 0 <= j < parts@.len() ==> (#[trigger] parts@[j])@ == f[j],
            out@.len() == i - 1,
            forall|j: int| 1 <= j < i ==> #[trigger] parse_u8_text(f[j]) is Some,
            forall|j: int| 0 <= j < out@.len() ==> out@[j] == #[trigger] parse_u8_text(f[j + 1])->0,
        decreases parts@.len() - i,
    {
        match parse_u8_field(&parts[i]) {
            Some(n) => out.push(n),
            None => {
                return Err(UsbError::Parse(concat("Invalid port number in path: ", path)));
            },
        }
        i = i + 1;
    }
    assert(out@ =~= Seq::new((f.len() - 1) as nat, |j: int| parse_u8_text(f[j + 1])->0));
    Ok(out)
}

} // verus!
