//! Shared text machinery: character classification, lowercasing, decimal and
//! hexadecimal rendering, joining, trimming and line splitting, each exec
//! function pinned to a spec-level model of the corresponding `std` text
//! operation.
use vstd::prelude::*;

verus! {

// ---------- characters ----------

/// ASCII lowercasing of a single character; all other characters are kept.
pub open spec fn lower_char(c: char) -> char {
    if 'A' <= c && c <= 'Z' {
        (((c as u8) + 32) as char)
    } else {
        c
    }
}

pub open spec fn lower_seq(s: Seq<char>) -> Seq<char> {
    s.map_values(|c: char| lower_char(c))
}

/// The characters that `str::trim` removes: Unicode whitespace.
pub open spec fn is_space(c: char) -> bool {
    c == ' ' || c == '\t' || c == '\n' || c == '\r' || c == '\u{b}' || c == '\u{c}'
        || c == '\u{85}' || c == '\u{a0}' || c == '\u{1680}' || ('\u{2000}' <= c && c
        <= '\u{200a}') || c == '\u{2028}' || c == '\u{2029}' || c == '\u{202f}' || c == '\u{205f}'
        || c == '\u{3000}'
}

pub fn is_space_char(c: char) -> (b: bool)
    ensures
        b == is_space(c),
{
    c == ' ' || c == '\t' || c == '\n' || c == '\r' || c == '\u{b}' || c == '\u{c}'
        || c == '\u{85}' || c == '\u{a0}' || c == '\u{1680}' || ('\u{2000}' <= c && c
        <= '\u{200a}') || c == '\u{2028}' || c == '\u{2029}' || c == '\u{202f}' || c == '\u{205f}'
        || c == '\u{3000}'
}

// ---------- generic concatenation over a sequence ----------

/// The concatenation of `f` applied to each element of `s`, in order.
pub open spec fn concat_map<A, B>(s: Seq<A>, f: spec_fn(A) -> Seq<B>) -> Seq<B>
    decreases s.len(),
{
    if s.len() == 0 {
        Seq::empty()
    } else {
        f(s[0]) + concat_map(s.drop_first(), f)
    }
}

pub proof fn lemma_concat_map_push<A, B>(s: Seq<A>, f: spec_fn(A) -> Seq<B>, x: A)
    ensures
        concat_map(s.push(x), f) == concat_map(s, f) + f(x),
    decreases s.len(),
{
    if s.len() == 0 {
        reveal_with_fuel(concat_map, 2);
        assert(s.push(x).drop_first() =~= Seq::<A>::empty());
        assert(s.push(x)[0] == x);
        assert(concat_map(s.push(x), f) =~= f(x) + Seq::<B>::empty());
        assert(concat_map(s.push(x), f) =~= concat_map(s, f) + f(x));
    } else {
        assert(s.push(x).drop_first() =~= s.drop_first().push(x));
        lemma_concat_map_push(s.drop_first(), f, x);
        assert(concat_map(s.push(x), f) =~= concat_map(s, f) + f(x));
    }
}

// ---------- decimal and hexadecimal digits ----------

pub open spec fn dec_digit(n: nat) -> char {
    (((48 + n) as u8) as char)
}

/// The decimal representation of `n`, most significant digit first.
pub open spec fn dec_rep(n: nat) -> Seq<char>
    decreases n,
{
    if n < 10 {
        seq![dec_digit(n)]
    } else {
        dec_rep(n / 10).push(dec_digit(n % 10))
    }
}

pub open spec fn hex_digit(n: nat) -> char {
    if n < 10 {
        dec_digit(n)
    } else {
        (((87 + n) as u8) as char)
    }
}

/// Two lowercase hex digits for one byte.
pub open spec fn hex_byte(b: u8) -> Seq<char> {
    seq![hex_digit((b / 16) as nat), hex_digit((b % 16) as nat)]
}

pub open spec fn hex_seq(bytes: Seq<u8>) -> Seq<char> {
    concat_map(bytes, |b: u8| hex_byte(b))
}

fn digit_str(d: u64) -> (r: &'static str)
    requires
        d < 10,
    ensures
        r@ =~= seq![dec_digit(d as nat)],
{
    proof {
        reveal_strlit("0");
        reveal_strlit("1");
        reveal_strlit("2");
        reveal_strlit("3");
        reveal_strlit("4");
        reveal_strlit("5");
        reveal_strlit("6");
        reveal_strlit("7");
        reveal_strlit("8");
        reveal_strlit("9");
    }
    match d {
        0 => "0",
        1 => "1",
        2 => "2",
        3 => "3",
        4 => "4",
        5 => "5",
        6 => "6",
        7 => "7",
        8 => "8",
        _ => "9",
    }
}

fn hex_digit_str(d: u8) -> (r: &'static str)
    requires
        d < 16,
    ensures
        r@ =~= seq![hex_digit(d as nat)],
{
    if d < 10 {
        digit_str(d as u64)
    } else {
        proof {
            reveal_strlit("a");
            reveal_strlit("b");
            reveal_strlit("c");
            reveal_strlit("d");
            reveal_strlit("e");
            reveal_strlit("f");
        }
        match d {
            10 => "a",
            11 => "b",
            12 => "c",
            13 => "d",
            14 => "e",
            _ => "f",
        }
    }
}

/// Renders `n` in decimal, as `format!("{}", n)` would.
pub fn u64_to_string(n: u64) -> (r: String)
    ensures
        r@ == dec_rep(n as nat),
{
    let mut out = String::new();
    if n == 0 {
        out.append(digit_str(0));
        assert(out@ =~= dec_rep(0));
        return out;
    }
    let mut digits: Vec<u64> = Vec::new();
    let mut m: u64 = n;
    while m > 0
        invariant
            m > 0 ==> dec_rep(n as nat) =~= dec_rep(m as nat) + Seq::new(
                digits@.len(),
                |i: int| dec_digit(digits@[digits@.len() - 1 - i] as nat),
            ),
            m == 0 ==> dec_rep(n as nat) =~= Seq::new(
                digits@.len(),
                |i: int| dec_digit(digits@[digits@.len() - 1 - i] as nat),
            ),
            forall|i: int| 0 <= i < digits@.len() ==> digits@[i] < 10,
        decreases m,
    {
        let ghost old_digits = digits@;
        let ghost old_m = m as nat;
        let d: u64 = m % 10;
        digits.push(d);
        m = m / 10;
        proof {
            let rev = |ds: Seq<u64>| Seq::new(ds.len(), |i: int| dec_digit(ds[ds.len() - 1 - i] as nat));
            assert(rev(old_digits.push(d)) =~= seq![dec_digit(d as nat)] + rev(old_digits));
            if m > 0 {
                assert(old_m >= 10);
                assert(dec_rep(old_m) == dec_rep(old_m / 10).push(dec_digit(old_m % 10)));
                assert(dec_rep(n as nat) =~= dec_rep(m as nat) + rev(digits@));
            } else {
                assert(old_m < 10);
                assert(dec_rep(old_m) =~= seq![dec_digit(old_m)]);
                assert(dec_rep(n as nat) =~= rev(digits@));
            }
        }
    }
    let ghost rev = Seq::new(digits@.len(), |i: int| dec_digit(digits@[digits@.len() - 1 - i] as nat));
    let mut k: usize = digits.len();
    while k > 0
        invariant
            k <= digits@.len(),
            forall|i: int| 0 <= i < digits@.len() ==> digits@[i] < 10,
            rev == Seq::new(digits@.len(), |i: int| dec_digit(digits@[digits@.len() - 1 - i] as nat)),
            out@ =~= rev.take(digits@.len() - k),
        decreases k,
    {
        k = k - 1;
        out.append(digit_str(digits[k]));
        proof {
            assert(out@ =~= rev.take(digits@.len() - k));
        }
    }
    proof {
        assert(out@ =~= rev);
    }
    out
}

/// Renders bytes as lowercase hex, two digits per byte.
pub fn bytes_to_hex(bytes: &Vec<u8>) -> (r: String)
    ensures
        r@ == hex_seq(bytes@),
{
    let mut out = String::new();
    let mut i: usize = 0;
    while i < bytes.len()
        invariant
            i <= bytes@.len(),
            out@ =~= hex_seq(bytes@.take(i as int)),
        decreases bytes@.len() - i,
    {
        let b = bytes[i];
        out.append(hex_digit_str(b / 16));
        out.append(hex_digit_str(b % 16));
        i = i + 1;
        proof {
            lemma_concat_map_push(bytes@.take(i - 1), |b: u8| hex_byte(b), bytes@[i - 1]);
            assert(bytes@.take(i as int) =~= bytes@.take(i - 1).push(bytes@[i - 1]));
            assert(out@ =~= hex_seq(bytes@.take(i as int)));
        }
    }
    proof {
        assert(bytes@.take(bytes@.len() as int) =~= bytes@);
    }
    out
}

// ---------- joining ----------

/// `parts` joined by `sep`, as `[T]::join` renders it.
pub open spec fn join_spec(parts: Seq<Seq<char>>, sep: Seq<char>) -> Seq<char>
    decreases parts.len(),
{
    if parts.len() == 0 {
        Seq::empty()
    } else if parts.len() == 1 {
        parts[0]
    } else {
        parts[0] + sep + join_spec(parts.drop_first(), sep)
    }
}

pub proof fn lemma_join_push(parts: Seq<Seq<char>>, sep: Seq<char>, x: Seq<char>)
    ensures
        join_spec(parts.push(x), sep) == if parts.len() == 0 {
            x
        } else {
            join_spec(parts, sep) + sep + x
        },
    decreases parts.len(),
{
    if parts.len() == 0 {
        assert(join_spec(parts.push(x), sep) =~= x);
    } else {
        assert(parts.push(x).drop_first() =~= parts.drop_first().push(x));
        lemma_join_push(parts.drop_first(), sep, x);
        if parts.len() == 1 {
            assert(join_spec(parts.push(x), sep) =~= join_spec(parts, sep) + sep + x);
        } else {
            assert(join_spec(parts.push(x), sep) =~= join_spec(parts, sep) + sep + x);
        }
    }
}

/// Joins the parts with the separator, as the original's comma-joined lists.
pub fn join_strings(parts: &Vec<String>, sep: &str) -> (r: String)
    ensures
        r@ == join_spec(parts.deep_view(), sep@),
{
    let mut out = String::new();
    let mut i: usize = 0;
    while i < parts.len()
        invariant
            i <= parts@.len(),
            parts.deep_view().len() == parts@.len(),
            forall|j: int| 0 <= j < parts@.len() ==> parts.deep_view()[j] == parts@[j]@,
            out@ =~= join_spec(parts.deep_view().take(i as int), sep@),
        decreases parts@.len() - i,
    {
        if i > 0 {
            out.append(sep);
        }
        out.append(parts[i].as_str());
        i = i + 1;
        proof {
            lemma_join_push(parts.deep_view().take(i - 1), sep@, parts.deep_view()[i - 1]);
            assert(parts.deep_view().take(i as int) =~= parts.deep_view().take(i - 1).push(
                parts.deep_view()[i - 1],
            ));
            assert(out@ =~= join_spec(parts.deep_view().take(i as int), sep@));
        }
    }
    proof {
        assert(parts.deep_view().take(parts.deep_view().len() as int) =~= parts.deep_view());
    }
    out
}

// ---------- trimming ----------

/// Index of the first character `str::trim_start` keeps (`s.len()` if none).
pub open spec fn first_non_space(s: Seq<char>) -> int
    decreases s.len(),
{
    if s.len() == 0 {
        0
    } else if !is_space(s[0]) {
        0
    } else {
        1 + first_non_space(s.skip(1))
    }
}

/// One past the index of the last character `str::trim_end` keeps (0 if none).
pub open spec fn last_non_space_end(s: Seq<char>) -> int
    decreases s.len(),
{
    if s.len() == 0 {
        0
    } else if !is_space(s.last()) {
        s.len() as int
    } else {
        last_non_space_end(s.drop_last())
    }
}

/// What `str::trim` returns.
pub open spec fn trim_spec(s: Seq<char>) -> Seq<char> {
    let lo = first_non_space(s);
    let hi = last_non_space_end(s);
    if lo <= hi {
        s.subrange(lo, hi)
    } else {
        Seq::empty()
    }
}

proof fn lemma_first_non_space_at(s: Seq<char>, i: int)
    requires
        0 <= i <= s.len(),
        forall|j: int| 0 <= j < i ==> is_space(s[j]),
        i < s.len() ==> !is_space(s[i]),
    ensures
        first_non_space(s) == i,
    decreases i,
{
    if i == 0 {
        if s.len() > 0 {
        }
    } else {
        assert(is_space(s[0]));
        lemma_first_non_space_at(s.skip(1), i - 1);
    }
}

proof fn lemma_last_non_space_at(s: Seq<char>, i: int)
    requires
        0 <= i <= s.len(),
        forall|j: int| i <= j < s.len() ==> is_space(s[j]),
        i > 0 ==> !is_space(s[i - 1]),
    ensures
        last_non_space_end(s) == i,
    decreases s.len() - i,
{
    if i == s.len() {
        if i > 0 {
        }
    } else {
        assert(is_space(s.last()));
        assert(s.drop_last() =~= s.take(s.len() - 1));
        lemma_last_non_space_at(s.drop_last(), i);
    }
}

/// What `str::trim` returns, as an owned string.
pub fn trim_str(s: &str) -> (r: String)
    ensures
        r@ == trim_spec(s@),
{
    let n = s.unicode_len();
    let mut lo: usize = 0;
    while lo < n && is_space_char(s.get_char(lo))
        invariant
            n == s@.len(),
            lo <= n,
            forall|j: int| 0 <= j < lo ==> is_space(s@[j]),
        decreases n - lo,
    {
        lo = lo + 1;
    }
    proof {
        lemma_first_non_space_at(s@, lo as int);
    }
    if lo == n {
        proof {
            lemma_last_non_space_at(s@, 0);
        }
        let r = String::new();
        proof {
            assert(trim_spec(s@) =~= Seq::<char>::empty());
        }
        return r;
    }
    let mut hi: usize = n;
    while hi > lo && is_space_char(s.get_char(hi - 1))
        invariant
            n == s@.len(),
            lo <= hi <= n,
            forall|j: int| hi <= j < n ==> is_space(s@[j]),
        decreases hi,
    {
        hi = hi - 1;
    }
    proof {
        assert(!is_space(s@[lo as int]));
        assert(hi > lo);
        assert(!is_space(s@[hi - 1]));
        lemma_last_non_space_at(s@, hi as int);
    }
    let r = String::from_str(s.substring_char(lo, hi));
    proof {
        assert(r@ =~= trim_spec(s@));
    }
    r
}

// ---------- line splitting ----------

/// Drops one trailing carriage return, as `str::lines` does before a newline.
pub open spec fn strip_cr(s: Seq<char>) -> Seq<char> {
    if s.len() > 0 && s.last() == '\r' {
        s.drop_last()
    } else {
        s
    }
}

/// `str::lines`, with `cur` the part of the current line already consumed.
pub open spec fn lines_acc(s: Seq<char>, cur: Seq<char>) -> Seq<Seq<char>>
    decreases s.len(),
{
    if s.len() == 0 {
        if cur.len() == 0 {
            Seq::empty()
        } else {
            seq![cur]
        }
    } else if s[0] == '\n' {
        seq![strip_cr(cur)] + lines_acc(s.skip(1), Seq::empty())
    } else {
        lines_acc(s.skip(1), cur.push(s[0]))
    }
}

/// The lines of `s`, exactly as `str::lines` yields them.
pub open spec fn lines_spec(s: Seq<char>) -> Seq<Seq<char>> {
    lines_acc(s, Seq::empty())
}

/// Splits into lines, as `str::lines` does.
pub fn lines_vec(s: &str) -> (r: Vec<String>)
    ensures
        r.deep_view() == lines_spec(s@),
{
    let n = s.unicode_len();
    let mut out: Vec<String> = Vec::new();
    let mut cur = String::new();
    let mut i: usize = 0;
    proof {
        assert(s@.skip(0) =~= s@);
        assert(out.deep_view() =~= Seq::<Seq<char>>::empty());
        assert(lines_spec(s@) =~= out.deep_view() + lines_acc(s@.skip(0), cur@));
    }
    while i < n
        invariant
            n == s@.len(),
            i <= n,
            lines_spec(s@) =~= out.deep_view() + lines_acc(s@.skip(i as int), cur@),
        decreases n - i,
    {
        let ghost out0 = out.deep_view();
        let ghost cur0 = cur@;
        let c = s.get_char(i);
        proof {
            assert(s@.skip(i as int)[0] == s@[i as int]);
            assert(s@.skip(i as int).skip(1) =~= s@.skip(i + 1));
        }
        if c == '\n' {
            let trimmed_len = if cur.unicode_len() > 0 && cur.as_str().get_char(
                cur.unicode_len() - 1,
            ) == '\r' {
                cur.unicode_len() - 1
            } else {
                cur.unicode_len()
            };
            let line = String::from_str(cur.as_str().substring_char(0, trimmed_len));
            proof {
                assert(line@ =~= strip_cr(cur0));
            }
            out.push(line);
            cur = String::new();
            proof {
                assert(out.deep_view() =~= out0.push(strip_cr(cur0)));
                assert(lines_acc(s@.skip(i as int), cur0) == seq![strip_cr(cur0)] + lines_acc(
                    s@.skip(i + 1),
                    Seq::<char>::empty(),
                ));
                assert(out0 + (seq![strip_cr(cur0)] + lines_acc(s@.skip(i + 1), cur@))
                    =~= out.deep_view() + lines_acc(s@.skip(i + 1), cur@));
                assert(lines_spec(s@) =~= out.deep_view() + lines_acc(s@.skip(i + 1), cur@));
            }
        } else {
            let piece = s.substring_char(i, i + 1);
            cur.append(piece);
            proof {
                assert(piece@ =~= seq![s@[i as int]]);
                assert(cur@ =~= cur0.push(s@[i as int]));
                assert(lines_acc(s@.skip(i as int), cur0) == lines_acc(
                    s@.skip(i + 1),
                    cur0.push(s@[i as int]),
                ));
                assert(lines_spec(s@) =~= out.deep_view() + lines_acc(s@.skip(i + 1), cur@));
            }
        }
        i = i + 1;
    }
    proof {
        assert(s@.skip(n as int) =~= Seq::<char>::empty());
    }
    let ghost out0 = out.deep_view();
    let ghost curg = cur@;
    if cur.unicode_len() > 0 {
        out.push(cur);
        proof {
            assert(out.deep_view() =~= out0.push(curg));
            assert(lines_acc(Seq::<char>::empty(), curg) =~= seq![curg]);
            assert(out.deep_view() =~= out0 + lines_acc(Seq::<char>::empty(), curg));
        }
    } else {
        proof {
            assert(lines_acc(Seq::<char>::empty(), curg) =~= Seq::<Seq<char>>::empty());
            assert(out.deep_view() =~= out0 + lines_acc(Seq::<char>::empty(), curg));
        }
    }
    proof {
        assert(out.deep_view() =~= lines_spec(s@));
    }
    out
}

} // verus!
