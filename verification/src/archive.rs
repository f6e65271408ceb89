//! The container serializer: packs a flat, ordered list of named blobs into
//! an `ar`-style archive — each member stored with its name, decimal size and
//! raw bytes, members in exactly the order supplied — and the spec-level
//! parser against which packing is proved invertible.
use vstd::prelude::*;

use crate::text::{concat_map, lemma_concat_map_push};

verus! {

/// One member of the container: a name and its raw contents.
pub struct ArchiveMember {
    pub name: Vec<u8>,
    pub data: Vec<u8>,
}

pub open spec fn member_views(ms: Seq<ArchiveMember>) -> Seq<(Seq<u8>, Seq<u8>)> {
    ms.map_values(|m: ArchiveMember| (m.name@, m.data@))
}

/// The archive magic, `!<arch>` and a newline.
pub open spec fn global_header() -> Seq<u8> {
    seq![33u8, 60u8, 97u8, 114u8, 99u8, 104u8, 62u8, 10u8]
}

/// A left-justified field: the value, then spaces up to the field width.
pub open spec fn pad_field(s: Seq<u8>, width: int) -> Seq<u8> {
    if s.len() >= width {
        s
    } else {
        s + Seq::new((width - s.len()) as nat, |k: int| 32u8)
    }
}

pub open spec fn dec_byte(n: nat) -> u8 {
    ((48 + n) as u8)
}

/// The decimal digits of `n`, most significant first, as ASCII bytes.
pub open spec fn dec_bytes(n: nat) -> Seq<u8>
    decreases n,
{
    if n < 10 {
        seq![dec_byte(n)]
    } else {
        dec_bytes(n / 10).push(dec_byte(n % 10))
    }
}

/// A member header: 16 bytes of name, zero timestamp, owner, group and mode
/// fields, the decimal size in 10 bytes, and the two terminator bytes.
pub open spec fn header_bytes(name: Seq<u8>, size: nat) -> Seq<u8> {
    pad_field(name, 16) + pad_field(seq![48u8], 12) + pad_field(seq![48u8], 6) + pad_field(
        seq![48u8],
        6,
    ) + pad_field(seq![48u8], 8) + pad_field(dec_bytes(size as nat), 10) + seq![96u8, 10u8]
}

/// A member: its header, its data, and a newline of padding when the data
/// length is odd, so every member starts on an even offset.
pub open spec fn member_bytes(name: Seq<u8>, data: Seq<u8>) -> Seq<u8> {
    header_bytes(name, data.len()) + data + (if data.len() % 2 == 1 {
        seq![10u8]
    } else {
        Seq::<u8>::empty()
    })
}

/// The whole container: the magic, then each member in the given order.
pub open spec fn archive_bytes(ms: Seq<(Seq<u8>, Seq<u8>)>) -> Seq<u8> {
    global_header() + concat_map(ms, |p: (Seq<u8>, Seq<u8>)| member_bytes(p.0, p.1))
}

/// A member name the container stores faithfully: nonempty, at most the name
/// field's width, and without trailing spaces (the field is space-padded).
pub open spec fn wf_member_name(name: Seq<u8>) -> bool {
    1 <= name.len() <= 16 && name.last() != 32u8
}

/// Every member has a faithfully stored name and a size that fits the
/// ten-digit decimal size field.
pub open spec fn wf_members(ms: Seq<(Seq<u8>, Seq<u8>)>) -> bool {
    forall|i: int|
        0 <= i < ms.len() ==> wf_member_name((#[trigger] ms[i]).0) && ms[i].1.len()
            < 10000000000
}

// ---------- the spec-level parser ----------

pub open spec fn trim_trailing_spaces(s: Seq<u8>) -> Seq<u8>
    decreases s.len(),
{
    if s.len() > 0 && s.last() == 32u8 {
        trim_trailing_spaces(s.drop_last())
    } else {
        s
    }
}

pub open spec fn is_dec_byte(b: u8) -> bool {
    48 <= b <= 57
}

/// The number of leading decimal digits of the field.
pub open spec fn dec_prefix_len(f: Seq<u8>) -> int
    decreases f.len(),
{
    if f.len() == 0 {
        0
    } else if is_dec_byte(f[0]) {
        1 + dec_prefix_len(f.skip(1))
    } else {
        0
    }
}

pub open spec fn dec_value(digits: Seq<u8>) -> nat
    decreases digits.len(),
{
    if digits.len() == 0 {
        0
    } else {
        dec_value(digits.drop_last()) * 10 + (if digits.last() >= 48 {
            (digits.last() - 48) as nat
        } else {
            0
        })
    }
}

/// A size field is valid when it is one or more digits followed only by
/// space padding.
pub open spec fn size_field_ok(f: Seq<u8>) -> bool {
    let k = dec_prefix_len(f);
    k >= 1 && forall|j: int| k <= j < f.len() ==> f[j] == 32u8
}

pub open spec fn size_field_value(f: Seq<u8>) -> nat {
    dec_value(f.take(dec_prefix_len(f)))
}

/// Parses the members of the container, one 60-byte header at a time.
pub open spec fn parse_members(b: Seq<u8>) -> Option<Seq<(Seq<u8>, Seq<u8>)>>
    decreases b.len(),
{
    if b.len() == 0 {
        Some(Seq::empty())
    } else if b.len() < 60 {
        None
    } else if !(b[58] == 96u8 && b[59] == 10u8) {
        None
    } else if !size_field_ok(b.subrange(48, 58)) {
        None
    } else {
        let name = trim_trailing_spaces(b.take(16));
        let size = size_field_value(b.subrange(48, 58)) as int;
        let advance = 60 + size + (if size % 2 == 1 {
            1int
        } else {
            0int
        });
        if b.len() < advance {
            None
        } else {
            let data = b.subrange(60, 60 + size);
            match parse_members(b.skip(advance)) {
                Some(rest) => Some(seq![(name, data)] + rest),
                None => None,
            }
        }
    }
}

/// Parses a container produced by `create_archive`: the magic, then the
/// members in order.
pub open spec fn parse_archive_spec(b: Seq<u8>) -> Option<Seq<(Seq<u8>, Seq<u8>)>> {
    if b.len() >= 8 && b.take(8) == global_header() {
        parse_members(b.skip(8))
    } else {
        None
    }
}

// ---------- packing (exec) ----------

fn extend_from(out: &mut Vec<u8>, src: &Vec<u8>)
    ensures
        final(out)@ == old(out)@ + src@,
{
    let mut i: usize = 0;
    while i < src.len()
        invariant
            i <= src@.len(),
            out@ =~= old(out)@ + src@.take(i as int),
        decreases src@.len() - i,
    {
        out.push(src[i]);
        i = i + 1;
        proof {
            assert(src@.take(i as int) =~= src@.take(i - 1).push(src@[i - 1]));
            assert(out@ =~= old(out)@ + src@.take(i as int));
        }
    }
    proof {
        assert(src@.take(src@.len() as int) =~= src@);
        assert(out@ =~= old(out)@ + src@);
    }
}

fn push_spaces(out: &mut Vec<u8>, k: usize)
    ensures
        final(out)@ == old(out)@ + Seq::new(k as nat, |j: int| 32u8),
{
    let mut i: usize = 0;
    while i < k
        invariant
            i <= k,
            out@ =~= old(out)@ + Seq::new(i as nat, |j: int| 32u8),
        decreases k - i,
    {
        out.push(32u8);
        i = i + 1;
        proof {
            assert(Seq::new(i as nat, |j: int| 32u8) =~= Seq::new((i - 1) as nat, |j: int| 32u8)
                .push(32u8));
            assert(out@ =~= old(out)@ + Seq::new(i as nat, |j: int| 32u8));
        }
    }
    proof {
        assert(out@ =~= old(out)@ + Seq::new(k as nat, |j: int| 32u8));
    }
}

fn push_zero_field(out: &mut Vec<u8>, width: usize)
    requires
        width >= 1,
    ensures
        final(out)@ == old(out)@ + pad_field(seq![48u8], width as int),
{
    out.push(48u8);
    push_spaces(out, width - 1);
    proof {
        assert(pad_field(seq![48u8], width as int) =~= seq![48u8] + Seq::new(
            (width - 1) as nat,
            |j: int| 32u8,
        ));
        assert(out@ =~= old(out)@ + pad_field(seq![48u8], width as int));
    }
}

fn push_dec(out: &mut Vec<u8>, n: u64)
    ensures
        final(out)@ == old(out)@ + dec_bytes(n as nat),
{
    if n < 10 {
        out.push(48 + (n as u8));
        proof {
            assert(dec_bytes(n as nat) =~= seq![dec_byte(n as nat)]);
            assert(out@ =~= old(out)@ + dec_bytes(n as nat));
        }
        return ;
    }
    let mut digits: Vec<u64> = Vec::new();
    let mut m: u64 = n;
    while m > 0
        invariant
            m > 0 ==> dec_bytes(n as nat) =~= dec_bytes(m as nat) + Seq::new(
                digits@.len(),
                |i: int| dec_byte(digits@[digits@.len() - 1 - i] as nat),
            ),
            m == 0 ==> dec_bytes(n as nat) =~= Seq::new(
                digits@.len(),
                |i: int| dec_byte(digits@[digits@.len() - 1 - i] as nat),
            ),
            forall|i: int| 0 <= i < digits@.len() ==> digits@[i] < 10,
        decreases m,
    {
        let ghost old_digits = digits@;
        let ghost old_m = m as nat;
        let d: u64 = m % 10;
        digits.push(d);
        m = m / 10;
        proof {
            let rev = |ds: Seq<u64>| Seq::new(ds.len(), |i: int| dec_byte(ds[ds.len() - 1 - i] as nat));
            assert(rev(old_digits.push(d)) =~= seq![dec_byte(d as nat)] + rev(old_digits));
            if m > 0 {
                assert(old_m >= 10);
                assert(dec_bytes(old_m) == dec_bytes(old_m / 10).push(dec_byte(old_m % 10)));
                assert(dec_bytes(n as nat) =~= dec_bytes(m as nat) + rev(digits@));
            } else {
                assert(old_m < 10);
                assert(dec_bytes(old_m) =~= seq![dec_byte(old_m)]);
                assert(dec_bytes(n as nat) =~= rev(digits@));
            }
        }
    }
    let ghost rev = Seq::new(digits@.len(), |i: int| dec_byte(digits@[digits@.len() - 1 - i] as nat));
    let mut k: usize = digits.len();
    while k > 0
        invariant
            k <= digits@.len(),
            forall|i: int| 0 <= i < digits@.len() ==> digits@[i] < 10,
            rev == Seq::new(digits@.len(), |i: int| dec_byte(digits@[digits@.len() - 1 - i] as nat)),
            out@ =~= old(out)@ + rev.take(digits@.len() - k),
        decreases k,
    {
        k = k - 1;
        out.push(48 + (digits[k] as u8));
        proof {
            assert(rev.take(digits@.len() - k) =~= rev.take(digits@.len() - k - 1).push(
                rev[digits@.len() - k - 1],
            ));
            assert(out@ =~= old(out)@ + rev.take(digits@.len() - k));
        }
    }
    proof {
        assert(rev.take(digits@.len() as int) =~= rev);
        assert(out@ =~= old(out)@ + dec_bytes(n as nat));
    }
}

/// Why a container could not be serialized.
#[derive(Clone, Copy, Debug, PartialEq, Eq)]
pub enum ArchiveError {
    /// A member name does not fit the fixed-width name field.
    IdentifierTooLong,
}

/// Serializes the members, in exactly the given order, as a flat container
/// archive. Fails if and only if some member name exceeds the name field.
#[verifier::rlimit(100)]
pub fn create_archive(members: &Vec<ArchiveMember>) -> (r: Result<Vec<u8>, ArchiveError>)
    ensures
        r is Ok <==> (forall|i: int| 0 <= i < members@.len() ==> (#[trigger] members@[i]).name@.len() <= 16),
        r matches Ok(bytes) ==> bytes@ == archive_bytes(member_views(members@)),
{
    let ghost f = |p: (Seq<u8>, Seq<u8>)| member_bytes(p.0, p.1);
    let mut out: Vec<u8> = Vec::new();
    out.push(33u8);
    out.push(60u8);
    out.push(97u8);
    out.push(114u8);
    out.push(99u8);
    out.push(104u8);
    out.push(62u8);
    out.push(10u8);
    proof {
        assert(out@ =~= global_header());
        assert(member_views(members@).take(0) =~= Seq::<(Seq<u8>, Seq<u8>)>::empty());
        assert(out@ =~= global_header() + concat_map(member_views(members@).take(0), f));
    }
    let mut i: usize = 0;
    while i < members.len()
        invariant
            i <= members@.len(),
            f == (|p: (Seq<u8>, Seq<u8>)| member_bytes(p.0, p.1)),
            forall|j: int| 0 <= j < i ==> (#[trigger] members@[j]).name@.len() <= 16,
            out@ =~= global_header() + concat_map(member_views(members@).take(i as int), f),
        decreases members@.len() - i,
    {
        let ghost out0 = out@;
        let m = &members[i];
        if m.name.len() > 16 {
            return Err(ArchiveError::IdentifierTooLong);
        }
        // name field
        extend_from(&mut out, &m.name);
        push_spaces(&mut out, 16 - m.name.len());
        proof {
            assert(out@ =~= out0 + pad_field(m.name@, 16));
        }
        // mtime, uid, gid, mode: all zero
        push_zero_field(&mut out, 12);
        push_zero_field(&mut out, 6);
        push_zero_field(&mut out, 6);
        push_zero_field(&mut out, 8);
        // size
        let ghost out1 = out@;
        let before_len = out.len();
        let size = m.data.len();
        push_dec(&mut out, size as u64);
        proof {
            assert(out@ =~= out1 + dec_bytes(size as nat));
        }
        let ndigits = out.len() - before_len;
        proof {
            assert(ndigits as int == dec_bytes(size as nat).len());
        }
        if ndigits < 10 {
            push_spaces(&mut out, 10 - ndigits);
        }
        proof {
            assert(out@ =~= out1 + pad_field(dec_bytes(size as nat), 10));
        }
        // terminator
        out.push(96u8);
        out.push(10u8);
        proof {
            assert(out@ =~= out0 + header_bytes(m.name@, size as nat));
        }
        // data and padding
        extend_from(&mut out, &m.data);
        if size % 2 == 1 {
            out.push(10u8);
        }
        i = i + 1;
        proof {
            assert(out@ =~= out0 + member_bytes(m.name@, m.data@));
            lemma_concat_map_push(member_views(members@).take(i - 1), f, (m.name@, m.data@));
            assert(member_views(members@).take(i as int) =~= member_views(members@).take(i - 1)
                .push((m.name@, m.data@)));
            assert(out@ =~= global_header() + concat_map(member_views(members@).take(i as int), f));
        }
    }
    proof {
        assert(member_views(members@).take(members@.len() as int) =~= member_views(members@));
    }
    Ok(out)
}

} // verus!

verus! {

// ---------- packing then parsing is the identity ----------

proof fn lemma_trim_name_pad(name: Seq<u8>, k: nat)
    requires
        name.len() >= 1,
        name.last() != 32u8,
    ensures
        trim_trailing_spaces(name + Seq::new(k, |j: int| 32u8)) == name,
    decreases k,
{
    let s = name + Seq::new(k, |j: int| 32u8);
    if k == 0 {
        assert(s =~= name);
    } else {
        assert(s.last() == 32u8);
        assert(s.drop_last() =~= name + Seq::new((k - 1) as nat, |j: int| 32u8));
        lemma_trim_name_pad(name, (k - 1) as nat);
    }
}

proof fn lemma_dec_bytes_digits(n: nat)
    ensures
        dec_bytes(n).len() >= 1,
        forall|i: int| 0 <= i < dec_bytes(n).len() ==> is_dec_byte(#[trigger] dec_bytes(n)[i]),
    decreases n,
{
    if n < 10 {
        assert(dec_bytes(n)[0] == dec_byte(n));
    } else {
        lemma_dec_bytes_digits(n / 10);
        assert(forall|i: int|
            0 <= i < dec_bytes(n).len() ==> dec_bytes(n)[i] == if i < dec_bytes(n / 10).len() {
                dec_bytes(n / 10)[i]
            } else {
                dec_byte(n % 10)
            });
    }
}

proof fn lemma_dec_prefix_of_padded(d: Seq<u8>, k: nat)
    requires
        forall|i: int| 0 <= i < d.len() ==> is_dec_byte(#[trigger] d[i]),
    ensures
        dec_prefix_len(d + Seq::new(k, |j: int| 32u8)) == d.len(),
    decreases d.len(),
{
    let f = d + Seq::new(k, |j: int| 32u8);
    if d.len() == 0 {
        if k > 0 {
            assert(f[0] == 32u8);
            assert(!is_dec_byte(32u8));
        } else {
            assert(f =~= Seq::<u8>::empty());
        }
    } else {
        assert(f[0] == d[0]);
        assert(f.skip(1) =~= d.skip(1) + Seq::new(k, |j: int| 32u8));
        assert(forall|i: int| 0 <= i < d.skip(1).len() ==> is_dec_byte(#[trigger] d.skip(1)[i]));
        lemma_dec_prefix_of_padded(d.skip(1), k);
    }
}

proof fn lemma_dec_value_of_dec_bytes(n: nat)
    ensures
        dec_value(dec_bytes(n)) == n,
    decreases n,
{
    if n < 10 {
        assert(dec_bytes(n) =~= seq![dec_byte(n)]);
        assert(dec_bytes(n).drop_last() =~= Seq::<u8>::empty());
        assert(dec_byte(n) == 48 + n);
        assert(dec_value(Seq::<u8>::empty()) == 0);
        assert(dec_bytes(n).last() == dec_byte(n));
        assert(dec_value(dec_bytes(n)) == dec_value(dec_bytes(n).drop_last()) * 10 + (
        dec_bytes(n).last() - 48) as nat);
        assert(dec_value(dec_bytes(n)) == n);
    } else {
        lemma_dec_value_of_dec_bytes(n / 10);
        let s = dec_bytes(n);
        assert(s == dec_bytes(n / 10).push(dec_byte(n % 10)));
        assert(s.drop_last() =~= dec_bytes(n / 10));
        assert(s.last() == dec_byte(n % 10));
        assert(dec_byte(n % 10) == 48 + n % 10);
        assert(dec_value(s) == n / 10 * 10 + n % 10);
        assert(n / 10 * 10 + n % 10 == n) by (nonlinear_arith);
    }
}

pub open spec fn pow10(k: nat) -> nat
    decreases k,
{
    if k == 0 {
        1
    } else {
        10 * pow10((k - 1) as nat)
    }
}

proof fn lemma_dec_bytes_len_le(n: nat, k: nat)
    requires
        k >= 1,
        n < pow10(k),
    ensures
        dec_bytes(n).len() <= k,
    decreases n,
{
    if n < 10 {
    } else {
        assert(pow10(k) == 10 * pow10((k - 1) as nat));
        if k == 1 {
            assert(pow10(0) == 1);
            assert(n < 10);
            assert(false);
        }
        assert(n / 10 < pow10((k - 1) as nat)) by (nonlinear_arith)
            requires
                n < 10 * pow10((k - 1) as nat),
                pow10((k - 1) as nat) >= 0,
                n >= 10,
        ;
        lemma_dec_bytes_len_le(n / 10, (k - 1) as nat);
    }
}

proof fn lemma_parse_concat(ms: Seq<(Seq<u8>, Seq<u8>)>)
    requires
        wf_members(ms),
    ensures
        parse_members(concat_map(ms, |p: (Seq<u8>, Seq<u8>)| member_bytes(p.0, p.1))) == Some(ms),
    decreases ms.len(),
{
    let f = |p: (Seq<u8>, Seq<u8>)| member_bytes(p.0, p.1);
    let b = concat_map(ms, f);
    if ms.len() == 0 {
        assert(b =~= Seq::<u8>::empty());
        assert(ms =~= Seq::<(Seq<u8>, Seq<u8>)>::empty());
    } else {
        let m = ms[0];
        let name = m.0;
        let data = m.1;
        let size = data.len() as int;
        let rest = ms.drop_first();
        assert(wf_member_name(name) && size < 10000000000);
        let mb = member_bytes(name, data);
        assert(b == f(ms[0]) + concat_map(rest, f));
        // field lengths
        lemma_dec_bytes_digits(size as nat);
        assert(pow10(10) == 10000000000) by {
            reveal_with_fuel(pow10, 11);
        }
        lemma_dec_bytes_len_le(size as nat, 10);
        let names16 = pad_field(name, 16);
        let sizef = pad_field(dec_bytes(size as nat), 10);
        assert(names16.len() == 16);
        assert(sizef.len() == 10);
        assert(pad_field(seq![48u8], 12).len() == 12);
        assert(pad_field(seq![48u8], 6).len() == 6);
        assert(pad_field(seq![48u8], 8).len() == 8);
        let hb = header_bytes(name, size as nat);
        assert(hb.len() == 60);
        assert(mb.len() == 60 + size + (if size % 2 == 1 { 1int } else { 0int }));
        assert(b.len() >= 60);
        // the terminator bytes
        assert(hb[58] == 96u8 && hb[59] == 10u8);
        assert(b[58] == 96u8 && b[59] == 10u8);
        // the size field
        assert(b.subrange(48, 58) =~= sizef);
        assert(sizef =~= dec_bytes(size as nat) + Seq::new((10 - dec_bytes(size as nat).len()) as nat, |j: int| 32u8));
        lemma_dec_prefix_of_padded(dec_bytes(size as nat), (10 - dec_bytes(size as nat).len()) as nat);
        assert(dec_prefix_len(sizef) == dec_bytes(size as nat).len());
        assert(size_field_ok(b.subrange(48, 58))) by {
            assert(forall|j: int|
                dec_bytes(size as nat).len() <= j < sizef.len() ==> sizef[j] == 32u8);
        }
        lemma_dec_value_of_dec_bytes(size as nat);
        assert(sizef.take(dec_prefix_len(sizef)) =~= dec_bytes(size as nat));
        assert(size_field_value(b.subrange(48, 58)) == size);
        // the name field
        assert(b.take(16) =~= names16);
        assert(names16 =~= name + Seq::new((16 - name.len()) as nat, |j: int| 32u8));
        lemma_trim_name_pad(name, (16 - name.len()) as nat);
        assert(trim_trailing_spaces(b.take(16)) == name);
        // the data
        let advance = 60 + size + (if size % 2 == 1 { 1int } else { 0int });
        assert(b.len() >= advance);
        assert(b.subrange(60, 60 + size) =~= data);
        // the remaining members
        assert(b.skip(advance as int) =~= concat_map(rest, f));
        assert(wf_members(rest)) by {
            assert(forall|i: int| 0 <= i < rest.len() ==> rest[i] == ms[i + 1]);
        }
        lemma_parse_concat(rest);
        assert(parse_members(b) == Some(seq![(name, data)] + rest));
        assert(seq![(name, data)] + rest =~= ms);
    }
}

/// Packing then parsing a container yields the members back, in the same
/// order and with byte-identical contents.
pub proof fn lemma_archive_round_trip(ms: Seq<(Seq<u8>, Seq<u8>)>)
    requires
        wf_members(ms),
    ensures
        parse_archive_spec(archive_bytes(ms)) == Some(ms),
{
    let f = |p: (Seq<u8>, Seq<u8>)| member_bytes(p.0, p.1);
    let b = archive_bytes(ms);
    assert(b.take(8) =~= global_header());
    assert(b.skip(8) =~= concat_map(ms, f));
    lemma_parse_concat(ms);
}

} // verus!

verus! {

// ---------- parsing (exec) ----------

proof fn lemma_trim_at(s: Seq<u8>, e: int)
    requires
        0 <= e <= s.len(),
        forall|j: int| e <= j < s.len() ==> s[j] == 32u8,
        e > 0 ==> s[e - 1] != 32u8,
    ensures
        trim_trailing_spaces(s) == s.take(e),
    decreases s.len() - e,
{
    if s.len() == e {
        if e > 0 {
            assert(s.last() != 32u8);
        }
        assert(s.take(e) =~= s);
    } else {
        assert(s.last() == 32u8);
        assert(s.drop_last() =~= s.take(s.len() - 1));
        lemma_trim_at(s.take(s.len() - 1), e);
        assert(s.take(s.len() - 1).take(e) =~= s.take(e));
    }
}

proof fn lemma_dec_prefix_at(f: Seq<u8>, k: int)
    requires
        0 <= k <= f.len(),
        forall|j: int| 0 <= j < k ==> is_dec_byte(f[j]),
        k < f.len() ==> !is_dec_byte(f[k as int]),
    ensures
        dec_prefix_len(f) == k,
    decreases k,
{
    if k == 0 {
    } else {
        assert(is_dec_byte(f[0]));
        assert(f.skip(1).len() == f.len() - 1);
        assert(forall|j: int| 0 <= j < k - 1 ==> is_dec_byte(f.skip(1)[j]));
        if k - 1 < f.skip(1).len() {
            assert(f.skip(1)[k - 1] == f[k as int]);
        }
        lemma_dec_prefix_at(f.skip(1), k - 1);
    }
}

/// Parses a container produced by `create_archive`: `None` exactly when the
/// bytes are not such a container, else the members in order.
#[verifier::rlimit(100)]
pub fn parse_archive(bytes: &Vec<u8>) -> (r: Option<Vec<ArchiveMember>>)
    ensures
        match (r, parse_archive_spec(bytes@)) {
            (Some(ms), Some(vs)) => member_views(ms@) == vs,
            (None, None) => true,
            _ => false,
        },
{
    let n = bytes.len();
    if n < 8 {
        return None;
    }
    if !(bytes[0] == 33 && bytes[1] == 60 && bytes[2] == 97 && bytes[3] == 114 && bytes[4] == 99
        && bytes[5] == 104 && bytes[6] == 62 && bytes[7] == 10) {
        proof {
            if bytes@.take(8) == global_header() {
                assert(bytes@.take(8)[0] == bytes@[0]);
                assert(bytes@.take(8)[1] == bytes@[1]);
                assert(bytes@.take(8)[2] == bytes@[2]);
                assert(bytes@.take(8)[3] == bytes@[3]);
                assert(bytes@.take(8)[4] == bytes@[4]);
                assert(bytes@.take(8)[5] == bytes@[5]);
                assert(bytes@.take(8)[6] == bytes@[6]);
                assert(bytes@.take(8)[7] == bytes@[7]);
            }
        }
        return None;
    }
    proof {
        assert(bytes@.take(8) =~= global_header());
    }
    let mut out: Vec<ArchiveMember> = Vec::new();
    let mut p: usize = 8;
    while p < n
        invariant
            8 <= p <= n,
            n == bytes@.len(),
            bytes@.take(8) == global_header(),
            parse_members(bytes@.skip(8)) == match parse_members(bytes@.skip(p as int)) {
                Some(rest) => Some(member_views(out@) + rest),
                None => None::<Seq<(Seq<u8>, Seq<u8>)>>,
            },
        decreases n - p,
    {
        let ghost rem = bytes@.skip(p as int);
        let ghost out0 = out@;
        if n - p < 60 {
            return None;
        }
        if !(bytes[p + 58] == 96 && bytes[p + 59] == 10) {
            proof {
                assert(rem[58] == bytes@[p + 58] && rem[59] == bytes@[p + 59]);
            }
            return None;
        }
        proof {
            assert(rem[58] == bytes@[p + 58] && rem[59] == bytes@[p + 59]);
        }
        // the size field: digits, then space padding only
        let ghost f = rem.subrange(48, 58);
        let mut k: usize = 0;
        while k < 10 && 48 <= bytes[p + 48 + k] && bytes[p + 48 + k] <= 57
            invariant
                k <= 10,
                p + 60 <= n,
                n == bytes@.len(),
                f == bytes@.skip(p as int).subrange(48, 58),
                forall|j: int| 0 <= j < k ==> is_dec_byte(#[trigger] f[j]),
            decreases 10 - k,
        {
            proof {
                assert(f[k as int] == bytes@[p + 48 + k]);
            }
            k = k + 1;
        }
        proof {
            if k < 10 {
                assert(f[k as int] == bytes@[p + 48 + k]);
            }
            lemma_dec_prefix_at(f, k as int);
        }
        if k == 0 {
            proof {
                assert(!size_field_ok(f));
            }
            return None;
        }
        let mut pad_ok = true;
        let mut j: usize = k;
        while j < 10
            invariant
                k <= j <= 10,
                p + 60 <= n,
                n == bytes@.len(),
                f == bytes@.skip(p as int).subrange(48, 58),
                pad_ok == forall|i: int| k <= i < j ==> f[i] == 32u8,
            decreases 10 - j,
        {
            let ghost pad_ok0 = pad_ok;
            if bytes[p + 48 + j] != 32 {
                pad_ok = false;
            }
            proof {
                assert(f[j as int] == bytes@[p + 48 + j]);
                assert(pad_ok == (pad_ok0 && f[j as int] == 32u8));
                assert(pad_ok == forall|i: int| k <= i < j + 1 ==> f[i] == 32u8);
            }
            j = j + 1;
        }
        if !pad_ok {
            proof {
                assert(!size_field_ok(f));
            }
            return None;
        }
        proof {
            assert(size_field_ok(f));
        }
        // the size's value
        let mut size: u64 = 0;
        let mut d: usize = 0;
        while d < k
            invariant
                d <= k <= 10,
                p + 60 <= n,
                n == bytes@.len(),
                f == bytes@.skip(p as int).subrange(48, 58),
                forall|j2: int| 0 <= j2 < k ==> is_dec_byte(#[trigger] f[j2]),
                size as nat == dec_value(f.take(d as int)),
                size < pow10(d as nat),
            decreases k - d,
        {
            proof {
                reveal_with_fuel(pow10, 11);
                assert(f[d as int] == bytes@[p + 48 + d]);
                assert(f.take(d + 1).drop_last() =~= f.take(d as int));
                assert(f.take(d + 1).last() == f[d as int]);
            }
            size = size * 10 + ((bytes[p + 48 + d] - 48) as u64);
            d = d + 1;
        }
        proof {
            assert(f.take(k as int) =~= f.take(dec_prefix_len(f)));
            assert(size as nat == size_field_value(f));
        }
        // the name: the 16-byte field with its trailing spaces removed
        let mut name_end: usize = 16;
        while name_end > 0 && bytes[p + name_end - 1] == 32
            invariant
                name_end <= 16,
                p + 60 <= n,
                n == bytes@.len(),
                forall|i: int| name_end <= i < 16 ==> bytes@.skip(p as int).take(16)[i] == 32u8,
            decreases name_end,
        {
            proof {
                assert(bytes@.skip(p as int).take(16)[name_end - 1] == bytes@[p + name_end - 1]);
            }
            name_end = name_end - 1;
        }
        proof {
            if name_end > 0 {
                assert(bytes@.skip(p as int).take(16)[name_end - 1] == bytes@[p + name_end - 1]);
            }
            lemma_trim_at(rem.take(16), name_end as int);
        }
        let mut name: Vec<u8> = Vec::new();
        let mut i: usize = 0;
        while i < name_end
            invariant
                i <= name_end <= 16,
                p + 60 <= n,
                n == bytes@.len(),
                name@ =~= bytes@.skip(p as int).take(16).take(name_end as int).take(i as int),
            decreases name_end - i,
        {
            name.push(bytes[p + i]);
            i = i + 1;
            proof {
                let t = bytes@.skip(p as int).take(16).take(name_end as int);
                assert(t.take(i as int) =~= t.take(i - 1).push(bytes@[p + i - 1]));
            }
        }
        proof {
            let t = bytes@.skip(p as int).take(16).take(name_end as int);
            assert(name@ =~= t);
            assert(rem.take(16).take(name_end as int) =~= t);
            assert(name@ == trim_trailing_spaces(rem.take(16)));
        }
        // the data and the padding byte
        let remaining: u64 = (n - p - 60) as u64;
        let pad: u64 = size % 2;
        if remaining < size || remaining - size < pad {
            proof {
                let sz = size as int;
                let advance = 60 + sz + (if sz % 2 == 1 { 1int } else { 0int });
                assert(rem.len() < advance);
            }
            return None;
        }
        let size_us = size as usize;
        let mut data: Vec<u8> = Vec::new();
        let mut i2: usize = 0;
        while i2 < size_us
            invariant
                i2 <= size_us,
                p + 60 + size_us <= n,
                n == bytes@.len(),
                data@ =~= bytes@.skip(p as int).subrange(60, 60 + size_us as int).take(i2 as int),
            decreases size_us - i2,
        {
            data.push(bytes[p + 60 + i2]);
            i2 = i2 + 1;
            proof {
                let t = bytes@.skip(p as int).subrange(60, 60 + size_us as int);
                assert(t.take(i2 as int) =~= t.take(i2 - 1).push(bytes@[p + 60 + i2 - 1]));
            }
        }
        proof {
            assert(data@ =~= rem.subrange(60, 60 + size as int));
        }
        let ghost namev = name@;
        let ghost datav = data@;
        let member = ArchiveMember { name, data };
        let ghost mg = member;
        out.push(member);
        let advance: usize = 60 + size_us + (pad as usize);
        p = p + advance;
        proof {
            let sz = size as int;
            let adv = 60 + sz + (if sz % 2 == 1 { 1int } else { 0int });
            assert(advance as int == adv);
            assert(rem.skip(adv) =~= bytes@.skip(p as int));
            assert(parse_members(rem) == match parse_members(bytes@.skip(p as int)) {
                Some(rest) => Some(seq![(namev, datav)] + rest),
                None => None::<Seq<(Seq<u8>, Seq<u8>)>>,
            });
            assert(out@ =~= out0.push(mg));
            assert(mg.name@ == namev && mg.data@ == datav);
            assert(member_views(out@) =~= member_views(out0).push((namev, datav)));
            assert forall|rest: Seq<(Seq<u8>, Seq<u8>)>|
                member_views(out0) + (seq![(namev, datav)] + rest) =~= member_views(out@)
                    + rest by {}
        }
    }
    proof {
        assert(bytes@.skip(n as int) =~= Seq::<u8>::empty());
        assert(parse_members(bytes@.skip(n as int)) == Some(Seq::<(Seq<u8>, Seq<u8>)>::empty()));
        assert(member_views(out@) + Seq::<(Seq<u8>, Seq<u8>)>::empty() =~= member_views(out@));
    }
    Some(out)
}

} // verus!
