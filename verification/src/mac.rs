//! MAC addresses: the canonical form the registry stores, parsing for
//! Wake-on-LAN, the magic packet, and the addresses given to VMs.
use vstd::prelude::*;
use std::collections::hash_map::DefaultHasher;
use std::hash::Hasher;
use vstd::std_specs::hash::DefaultHasherAdditionalSpecFns;
use vstd::string::StringSliceAdditionalSpecFns;
use vstd::utf8::encode_utf8;
use crate::text::{
    digit_char, digits_value, hex_val, is_radix_digit, lemma_index_of_at, unsigned_body,
    chars_of, hex2, hex2_chars, is_hex_digit, is_hex_digit_exec, parse_unsigned, parse_unsigned_chars,
    push_chars, push_str, split_chars, split_on, string_of,
};

verus! {

/// Why a MAC address was refused.
#[derive(Debug)]
pub enum MacError {
    /// Not twelve hex digits once separators are dropped (`normalize_mac`).
    InvalidMac { mac: String },
    /// A colon-separated field is not a hex byte (`parse_mac`).
    InvalidFormat,
    /// Not six colon-separated fields (`parse_mac`).
    WrongLength,
}

impl MacError {
    /// The message the command line prints for this error.
    pub fn message(&self) -> (s: String)
        ensures
            s@ == match self {
                MacError::InvalidMac { mac } => "Invalid MAC address: "@ + mac@
                    + ". Expected 12 hex digits."@,
                MacError::InvalidFormat => "Invalid MAC address format"@,
                MacError::WrongLength => "MAC address must have 6 bytes"@,
            },
    {
        let mut v: Vec<char> = Vec::new();
        match self {
            MacError::InvalidMac { mac } => {
                push_str(&mut v, "Invalid MAC address: ");
                push_str(&mut v, mac.as_str());
                push_str(&mut v, ". Expected 12 hex digits.");
            },
            MacError::InvalidFormat => {
                push_str(&mut v, "Invalid MAC address format");
            },
            MacError::WrongLength => {
                push_str(&mut v, "MAC address must have 6 bytes");
            },
        }
        string_of(&v)
    }
}

// ---------------------------------------------------------------------------
// Canonical form
// ---------------------------------------------------------------------------

/// The ASCII hex digits of `s`, in order.
pub open spec fn hex_digits_of(s: Seq<char>) -> Seq<char>
    decreases s.len(),
{
    if s.len() == 0 {
        seq![]
    } else if is_hex_digit(s.last()) {
        hex_digits_of(s.drop_last()).push(s.last())
    } else {
        hex_digits_of(s.drop_last())
    }
}

/// ASCII upper-case letters to lower case; other characters unchanged.
pub open spec fn ascii_lower(c: char) -> char {
    if 65 <= c as u32 <= 90 {
        ((c as u32) + 32) as char
    } else {
        c
    }
}

pub open spec fn lower_all(s: Seq<char>) -> Seq<char> {
    s.map_values(|c: char| ascii_lower(c))
}

/// The characters of `d` in pairs, with `:` between the pairs.
pub open spec fn colon_pairs(d: Seq<char>) -> Seq<char>
    decreases d.len(),
{
    if d.len() <= 2 {
        d
    } else {
        d.take(2) + seq![':'] + colon_pairs(d.skip(2))
    }
}

/// The canonical form of a MAC address, when it has one: its twelve hex
/// digits in lower case, as six colon-separated pairs.
pub open spec fn normalized_mac(s: Seq<char>) -> Option<Seq<char>> {
    let d = lower_all(hex_digits_of(s));
    if d.len() == 12 {
        Some(colon_pairs(d))
    } else {
        None
    }
}

fn ascii_lower_exec(c: char) -> (r: char)
    requires
        is_hex_digit(c),
    ensures
        r == ascii_lower(c),
{
    if c == 'A' {
        'a'
    } else if c == 'B' {
        'b'
    } else if c == 'C' {
        'c'
    } else if c == 'D' {
        'd'
    } else if c == 'E' {
        'e'
    } else if c == 'F' {
        'f'
    } else {
        c
    }
}

/// Checks that a MAC address has twelve hex digits and writes it in the
/// canonical form, as `cave node init` stores it.
pub fn normalize_mac(mac: &str) -> (r: Result<String, MacError>)
    ensures
        match normalized_mac(mac@) {
            Some(m) => r matches Ok(s) && s@ == m,
            None => r matches Err(MacError::InvalidMac { mac: m }) && m@ == mac@,
        },
{
    let v = chars_of(mac);
    let mut d: Vec<char> = Vec::new();
    for i in 0..v.len()
        invariant
            d@ == lower_all(hex_digits_of(v@.take(i as int))),
    {
        assert(v@.take(i + 1).drop_last() =~= v@.take(i as int));
        if is_hex_digit_exec(v[i]) {
            d.push(ascii_lower_exec(v[i]));
        }
        assert(d@ =~= lower_all(hex_digits_of(v@.take(i + 1))));
    }
    assert(v@.take(v.len() as int) =~= v@);
    if d.len() != 12 {
        return Err(MacError::InvalidMac { mac: String::from_str(mac) });
    }
    let mut out: Vec<char> = Vec::new();
    let mut k: usize = 0;
    assert(d@.skip(0) =~= d@);
    while k < 12
        invariant
            d.len() == 12,
            k % 2 == 0,
            k <= 12,
            out@ + colon_pairs(d@.skip(k as int)) == colon_pairs(d@),
        decreases 12 - k,
    {
        assert(d@.skip(k as int).skip(2) =~= d@.skip(k + 2));
        assert(d@.skip(k as int).take(2) =~= seq![d[k as int], d[k + 1]]);
        out.push(d[k]);
        out.push(d[k + 1]);
        if k < 10 {
            out.push(':');
        }
        k = k + 2;
        proof {
            if k < 12 {
                assert(out@ + colon_pairs(d@.skip(k as int)) =~= colon_pairs(d@));
            } else {
                assert(d@.skip(10) =~= seq![d[10], d[11]]);
            }
        }
    }
    assert(d@.skip(12) =~= Seq::<char>::empty());
    assert(out@ =~= colon_pairs(d@));
    Ok(string_of(&out))
}

// ---------------------------------------------------------------------------
// Parsing to bytes
// ---------------------------------------------------------------------------

/// What `parse_mac` gives: the six bytes, or which check failed first.
pub open spec fn parse_mac_spec(s: Seq<char>) -> Result<Seq<u8>, MacError> {
    let parts = split_on(s, ':');
    if exists|i: int| 0 <= i < parts.len() && parse_unsigned(#[trigger] parts[i], 16, 255) is None {
        Err(MacError::InvalidFormat)
    } else if parts.len() != 6 {
        Err(MacError::WrongLength)
    } else {
        Ok(parts.map_values(|p: Seq<char>| parse_unsigned(p, 16, 255)->0 as u8))
    }
}

/// Splits `aa:bb:cc:dd:ee:ff` into its six bytes, as Wake-on-LAN needs.
pub fn parse_mac(mac: &str) -> (r: Result<[u8; 6], MacError>)
    ensures
        match parse_mac_spec(mac@) {
            Ok(bytes) => r matches Ok(a) && a@ == bytes,
            Err(MacError::InvalidFormat) => r matches Err(MacError::InvalidFormat),
            Err(_) => r matches Err(MacError::WrongLength),
        },
{
    let v = chars_of(mac);
    let parts = split_chars(&v, ':');
    let ghost ps = split_on(v@, ':');
    let mut bytes: Vec<u8> = Vec::new();
    for i in 0..parts.len()
        invariant
            ps == split_on(mac@, ':'),
            parts@.len() == ps.len(),
            forall|k: int| 0 <= k < parts@.len() ==> #[trigger] parts@[k]@ == ps[k],
            bytes@.len() == i,
            forall|k: int|
                0 <= k < i ==> parse_unsigned(#[trigger] ps[k], 16, 255) is Some && bytes@[k]
                    == parse_unsigned(ps[k], 16, 255)->0 as u8,
    {
        match parse_unsigned_chars(&parts[i], 16, 255) {
            Some(b) => {
                bytes.push(b as u8);
            },
            None => {
                assert(parse_unsigned(ps[i as int], 16, 255) is None);
                return Err(MacError::InvalidFormat);
            },
        }
    }
    if bytes.len() != 6 {
        return Err(MacError::WrongLength);
    }
    let arr: [u8; 6] = [bytes[0], bytes[1], bytes[2], bytes[3], bytes[4], bytes[5]];
    assert(arr@ =~= ps.map_values(|p: Seq<char>| parse_unsigned(p, 16, 255)->0 as u8));
    Ok(arr)
}

// ---------------------------------------------------------------------------
// Wake-on-LAN
// ---------------------------------------------------------------------------

/// The magic packet: six `0xFF` bytes, then the MAC sixteen times.
pub open spec fn magic_packet_spec(mac: Seq<u8>) -> Seq<u8> {
    Seq::new(102, |i: int| if i < 6 { 0xFFu8 } else { mac[(i - 6) % 6] })
}

pub fn magic_packet(mac: &[u8; 6]) -> (p: Vec<u8>)
    ensures
        p@ == magic_packet_spec(mac@),
        p@.len() == 102,
{
    let mut p: Vec<u8> = Vec::new();
    for i in 0..6usize
        invariant
            p@.len() == i,
            forall|k: int| 0 <= k < i ==> p@[k] == 0xFFu8,
    {
        p.push(0xFF);
    }
    for r in 0..16usize
        invariant
            p@.len() == 6 + 6 * r,
            forall|k: int| 0 <= k < 6 ==> p@[k] == 0xFFu8,
            forall|k: int| 6 <= k < 6 + 6 * r ==> p@[k] == mac@[(k - 6) % 6],
    {
        for j in 0..6usize
            invariant
                p@.len() == 6 + 6 * r + j,
                r < 16,
                forall|k: int| 0 <= k < 6 ==> p@[k] == 0xFFu8,
                forall|k: int| 6 <= k < 6 + 6 * r + j ==> p@[k] == mac@[(k - 6) % 6],
        {
            assert((6 + 6 * r + j - 6) % 6 == j) by (nonlinear_arith)
                requires
                    j < 6,
            ;
            p.push(mac[j]);
        }
    }
    assert(p@ =~= magic_packet_spec(mac@));
    p
}

// ---------------------------------------------------------------------------
// Addresses of VMs
// ---------------------------------------------------------------------------

/// Bytes as lower-case hex pairs separated by colons.
pub open spec fn mac_string(bytes: Seq<u8>) -> Seq<char>
    decreases bytes.len(),
{
    if bytes.len() == 0 {
        seq![]
    } else if bytes.len() == 1 {
        hex2(bytes[0])
    } else {
        mac_string(bytes.drop_last()) + seq![':'] + hex2(bytes.last())
    }
}

/// The locally administered address derived from a hash: `02` followed
/// by bytes one to five of the hash.
pub open spec fn mac_from_hash(h: u64) -> Seq<char> {
    mac_string(seq![2u8, (h >> 8) as u8, (h >> 16) as u8, (h >> 24) as u8, (h >> 32) as u8, (h >> 40) as u8])
}

/// What hashing the name with `DefaultHasher` gives: its UTF-8 bytes, then
/// the `0xFF` terminator that `str`'s `Hash` adds.
pub open spec fn name_hash(name: Seq<char>) -> u64 {
    DefaultHasher::spec_finish(seq![encode_utf8(name), seq![0xFFu8]])
}

fn mac_string_exec(bytes: &Vec<u8>) -> (out: Vec<char>)
    ensures
        out@ == mac_string(bytes@),
{
    let mut out: Vec<char> = Vec::new();
    for i in 0..bytes.len()
        invariant
            out@ == mac_string(bytes@.take(i as int)),
    {
        assert(bytes@.take(i + 1).drop_last() =~= bytes@.take(i as int));
        if i > 0 {
            out.push(':');
        }
        let h = hex2_chars(bytes[i]);
        push_chars(&mut out, &h);
        assert(out@ =~= mac_string(bytes@.take(i + 1)));
    }
    assert(bytes@.take(bytes.len() as int) =~= bytes@);
    out
}

/// The VM address for a hash value.
pub fn mac_for_hash(h: u64) -> (r: String)
    ensures
        r@ == mac_from_hash(h),
{
    let mut b: Vec<u8> = Vec::new();
    b.push(2u8);
    b.push((h >> 8) as u8);
    b.push((h >> 16) as u8);
    b.push((h >> 24) as u8);
    b.push((h >> 32) as u8);
    b.push((h >> 40) as u8);
    assert(b@ =~= seq![2u8, (h >> 8) as u8, (h >> 16) as u8, (h >> 24) as u8, (h >> 32) as u8, (h >> 40) as u8]);
    let v = mac_string_exec(&b);
    string_of(&v)
}

/// The deterministic MAC address of a VM, derived from its name.
pub fn generate_mac(vm_name: &str) -> (r: String)
    ensures
        r@ == mac_from_hash(name_hash(vm_name@)),
{
    let mut hasher = DefaultHasher::new();
    hasher.write(vm_name.as_bytes());
    let mut terminator: Vec<u8> = Vec::new();
    terminator.push(0xFFu8);
    hasher.write(terminator.as_slice());
    let h = hasher.finish();
    assert(hasher@ =~= seq![vm_name.spec_bytes(), seq![0xFFu8]]);
    mac_for_hash(h)
}

/// The MAC address a VM of this name gets, for matching it on the network.
pub fn generate_mac_for_lookup(vm_name: &str) -> (r: String)
    ensures
        r@ == mac_from_hash(name_hash(vm_name@)),
{
    generate_mac(vm_name)
}

// ---------------------------------------------------------------------------
// Laws
// ---------------------------------------------------------------------------

proof fn lemma_hex_digits_of(s: Seq<char>)
    ensures
        forall|i: int| 0 <= i < hex_digits_of(s).len() ==> is_hex_digit(#[trigger] hex_digits_of(s)[i]),
    decreases s.len(),
{
    if s.len() > 0 {
        lemma_hex_digits_of(s.drop_last());
        let r = hex_digits_of(s.drop_last());
        if is_hex_digit(s.last()) {
            assert forall|i: int| 0 <= i < r.push(s.last()).len() implies is_hex_digit(
                #[trigger] r.push(s.last())[i],
            ) by {
                if i < r.len() {
                    assert(r.push(s.last())[i] == r[i]);
                }
            }
        }
    }
}

/// A lower-case hex digit.
pub open spec fn is_lower_hex(c: char) -> bool {
    let u = c as u32;
    ||| 48 <= u <= 57
    ||| 97 <= u <= 102
}

proof fn lemma_lower_hex_roundtrip(c: char)
    requires
        is_lower_hex(c),
    ensures
        digit_char(hex_val(c)) == c,
        hex_val(c) < 16,
        c != ':',
        c != '+',
        is_hex_digit(c),
{
    let u = c as u32;
    if u == 48 { assert(c == '0'); }
    else if u == 49 { assert(c == '1'); }
    else if u == 50 { assert(c == '2'); }
    else if u == 51 { assert(c == '3'); }
    else if u == 52 { assert(c == '4'); }
    else if u == 53 { assert(c == '5'); }
    else if u == 54 { assert(c == '6'); }
    else if u == 55 { assert(c == '7'); }
    else if u == 56 { assert(c == '8'); }
    else if u == 57 { assert(c == '9'); }
    else if u == 97 { assert(c == 'a'); }
    else if u == 98 { assert(c == 'b'); }
    else if u == 99 { assert(c == 'c'); }
    else if u == 100 { assert(c == 'd'); }
    else if u == 101 { assert(c == 'e'); }
    else { assert(c == 'f'); }
}

/// The pairs `d[2i..2i+2]`.
pub open spec fn pairs(d: Seq<char>) -> Seq<Seq<char>> {
    Seq::new(d.len() / 2, |i: int| d.subrange(2 * i, 2 * i + 2))
}

proof fn lemma_split_after(a: Seq<char>, b: Seq<char>)
    requires
        forall|i: int| 0 <= i < a.len() ==> a[i] != ':',
    ensures
        split_on(a + seq![':'] + b, ':') == seq![a] + split_on(b, ':'),
{
    let s = a + seq![':'] + b;
    lemma_index_of_at(s, ':', a.len() as int);
    assert(s.take(a.len() as int) =~= a);
    assert(s.skip(a.len() + 1 as int) =~= b);
}

proof fn lemma_split_colon_pairs(d: Seq<char>)
    requires
        d.len() % 2 == 0,
        d.len() >= 2,
        forall|i: int| 0 <= i < d.len() ==> d[i] != ':',
    ensures
        split_on(colon_pairs(d), ':') == pairs(d),
    decreases d.len(),
{
    if d.len() == 2 {
        lemma_index_of_at(d, ':', 2);
        assert(d.subrange(0, 2) =~= d);
        assert(pairs(d).len() == 1);
        assert(pairs(d)[0] == d);
        assert(pairs(d) =~= seq![d]);
        assert(colon_pairs(d) == d);
    } else {
        let rest = d.skip(2);
        lemma_split_colon_pairs(rest);
        lemma_split_after(d.take(2), colon_pairs(rest));
        assert(pairs(d) =~= seq![d.take(2)] + pairs(rest)) by {
            assert forall|i: int| 0 <= i < pairs(rest).len() implies pairs(rest)[i] =~= pairs(d)[i + 1] by {}
            assert(pairs(d)[0] =~= d.take(2));
        }
    }
}

proof fn lemma_mac_string_front(bs: Seq<u8>)
    requires
        bs.len() >= 2,
    ensures
        mac_string(bs) == hex2(bs[0]) + seq![':'] + mac_string(bs.drop_first()),
    decreases bs.len(),
{
    if bs.len() == 2 {
        assert(bs.drop_last() =~= seq![bs[0]]);
        assert(bs.drop_first() =~= seq![bs[1]]);
        assert(mac_string(seq![bs[0]]) == hex2(bs[0]));
        assert(mac_string(seq![bs[1]]) == hex2(bs[1]));
    } else {
        lemma_mac_string_front(bs.drop_last());
        assert(bs.drop_last().drop_first() =~= bs.drop_first().drop_last());
        assert(bs.drop_first().last() == bs.last());
        assert(mac_string(bs.drop_first()) == mac_string(bs.drop_first().drop_last()) + seq![':']
            + hex2(bs.drop_first().last()));
        assert(mac_string(bs) == mac_string(bs.drop_last()) + seq![':'] + hex2(bs.last()));
        assert(mac_string(bs) =~= hex2(bs[0]) + seq![':'] + mac_string(bs.drop_first()));
    }
}

proof fn lemma_pairs_bytes(d: Seq<char>, bs: Seq<u8>)
    requires
        d.len() % 2 == 0,
        d.len() >= 2,
        bs.len() == d.len() / 2,
        forall|i: int| 0 <= i < d.len() ==> is_lower_hex(#[trigger] d[i]),
        forall|i: int|
            0 <= i < bs.len() ==> #[trigger] bs[i] as nat == hex_val(d[2 * i]) * 16 + hex_val(
                d[2 * i + 1],
            ),
    ensures
        mac_string(bs) == colon_pairs(d),
    decreases d.len(),
{
    let b = bs[0];
    lemma_lower_hex_roundtrip(d[0]);
    lemma_lower_hex_roundtrip(d[1]);
    assert(b / 16 == hex_val(d[0]) && b % 16 == hex_val(d[1]));
    assert(hex2(b) =~= d.take(2));
    if d.len() == 2 {
        assert(bs =~= seq![b]);
    } else {
        let rest = d.skip(2);
        assert forall|i: int|
            0 <= i < bs.drop_first().len() implies #[trigger] bs.drop_first()[i] as nat == hex_val(rest[2 * i]) * 16 + hex_val(rest[2 * i + 1]) by {
            assert(bs.drop_first()[i] == bs[i + 1]);
            assert(rest[2 * i] == d[2 * (i + 1)]);
            assert(rest[2 * i + 1] == d[2 * (i + 1) + 1]);
        }
        lemma_pairs_bytes(rest, bs.drop_first());
        lemma_mac_string_front(bs);
    }
}

/// A MAC address in canonical form parses to six bytes, and writing those
/// bytes back as hex pairs gives the canonical form again.
pub proof fn lemma_normalized_mac_roundtrip(s: Seq<char>)
    requires
        normalized_mac(s) is Some,
    ensures
        parse_mac_spec(normalized_mac(s)->0) is Ok,
        mac_string(parse_mac_spec(normalized_mac(s)->0)->Ok_0) == normalized_mac(s)->0,
{
    let h = hex_digits_of(s);
    let d = lower_all(h);
    lemma_hex_digits_of(s);
    assert forall|i: int| 0 <= i < d.len() implies is_lower_hex(#[trigger] d[i]) by {
        assert(is_hex_digit(h[i]));
    }
    assert forall|i: int| 0 <= i < d.len() implies d[i] != ':' by {
        lemma_lower_hex_roundtrip(d[i]);
    }
    let m = colon_pairs(d);
    lemma_split_colon_pairs(d);
    let parts = split_on(m, ':');
    assert(parts == pairs(d));
    assert forall|i: int| 0 <= i < parts.len() implies parse_unsigned(#[trigger] parts[i], 16, 255)
        == Some(hex_val(d[2 * i]) * 16 + hex_val(d[2 * i + 1])) by {
        let p = parts[i];
        assert(p =~= seq![d[2 * i], d[2 * i + 1]]);
        lemma_lower_hex_roundtrip(d[2 * i]);
        lemma_lower_hex_roundtrip(d[2 * i + 1]);
        assert(unsigned_body(p) == p);
        assert(p.drop_last() =~= seq![d[2 * i]]);
        assert(p.drop_last().drop_last() =~= Seq::<char>::empty());
        assert(p.drop_last().last() == d[2 * i]);
        assert(p.last() == d[2 * i + 1]);
        assert(digits_value(p.drop_last().drop_last(), 16) == 0);
        assert(digits_value(p.drop_last(), 16) == hex_val(d[2 * i]));
        assert(digits_value(p, 16) == hex_val(d[2 * i]) * 16 + hex_val(d[2 * i + 1]));
        assert(forall|j: int| 0 <= j < p.len() ==> is_radix_digit(#[trigger] p[j], 16));
    }
    let bs = parts.map_values(|p: Seq<char>| parse_unsigned(p, 16, 255)->0 as u8);
    assert(parse_mac_spec(m) == Ok::<Seq<u8>, MacError>(bs));
    lemma_pairs_bytes(d, bs);
}

proof fn lemma_mac_string_len(bs: Seq<u8>)
    requires
        bs.len() >= 1,
    ensures
        mac_string(bs).len() == 3 * bs.len() - 1,
    decreases bs.len(),
{
    if bs.len() > 1 {
        lemma_mac_string_len(bs.drop_last());
    }
}

/// The address a VM gets is a locally administered one: six hex pairs
/// (seventeen characters) beginning with `02:`.
pub proof fn lemma_vm_mac_local(h: u64)
    ensures
        mac_from_hash(h).len() == 17,
        mac_from_hash(h).take(3) == "02:"@,
{
    reveal_strlit("02:");
    let bs = seq![2u8, (h >> 8) as u8, (h >> 16) as u8, (h >> 24) as u8, (h >> 32) as u8, (h >> 40) as u8];
    lemma_mac_string_len(bs);
    lemma_mac_string_front(bs);
    assert(hex2(2u8) =~= seq!['0', '2']);
    assert(mac_from_hash(h).take(3) =~= seq!['0', '2', ':']);
}

} // verus!
