use vstd::prelude::*;
use vstd::string::*;

use crate::error::{ErrorKind, NipartError};
use crate::text::{decimal_string, decimal_text};

verus! {

/// Whether `c` is a decimal digit.
pub open spec fn is_dec_digit(c: char) -> bool {
    48 <= c as u32 <= 57
}

/// Whether `c` is a hexadecimal digit, in either case.
pub open spec fn is_hex_digit(c: char) -> bool {
    ||| 48 <= c as u32 <= 57
    ||| 97 <= c as u32 <= 102
    ||| 65 <= c as u32 <= 70
}

/// Value of a hexadecimal digit.
pub open spec fn hex_digit_value(c: char) -> nat {
    if 48 <= c as u32 <= 57 {
        (c as u32 - 48) as nat
    } else if 97 <= c as u32 <= 102 {
        (c as u32 - 87) as nat
    } else {
        (c as u32 - 55) as nat
    }
}

/// Whether every character of `s` is a decimal digit.
pub open spec fn all_dec_digits(s: Seq<char>) -> bool {
    forall|k: int| 0 <= k < s.len() ==> is_dec_digit(#[trigger] s[k])
}

/// Whether every character of `s` is a hexadecimal digit.
pub open spec fn all_hex_digits(s: Seq<char>) -> bool {
    forall|k: int| 0 <= k < s.len() ==> is_hex_digit(#[trigger] s[k])
}

/// Value of a string of decimal digits.
pub open spec fn dec_value(s: Seq<char>) -> nat
    decreases s.len(),
{
    if s.len() == 0 {
        0
    } else {
        dec_value(s.drop_last()) * 10 + (s.last() as u32 - 48) as nat
    }
}

/// Value of a string of hexadecimal digits.
pub open spec fn hex_value(s: Seq<char>) -> nat
    decreases s.len(),
{
    if s.len() == 0 {
        0
    } else {
        hex_value(s.drop_last()) * 16 + hex_digit_value(s.last())
    }
}

/// The fields of `s` between occurrences of `sep`; there is always at least
/// one field, and an empty one between two adjacent separators.
pub open spec fn split_on(s: Seq<char>, sep: char) -> Seq<Seq<char>>
    decreases s.len(),
{
    if s.len() == 0 {
        seq![Seq::<char>::empty()]
    } else {
        let r = split_on(s.drop_last(), sep);
        if s.last() == sep {
            r.push(Seq::<char>::empty())
        } else {
            r.update(r.len() - 1, r.last().push(s.last()))
        }
    }
}

/// A text holding the separator splits into two or more fields.
pub proof fn lemma_split_contains_sep(s: Seq<char>, sep: char)
    ensures
        s.contains(sep) ==> split_on(s, sep).len() >= 2,
        split_on(s, sep).len() >= 1,
    decreases s.len(),
{
    lemma_split_on_nonempty(s, sep);
    if s.len() > 0 {
        lemma_split_contains_sep(s.drop_last(), sep);
        if s.contains(sep) && s.last() != sep {
            let k = choose|k: int| 0 <= k < s.len() && s[k] == sep;
            assert(s.drop_last()[k] == sep);
        }
    }
}

/// `split_on` never yields an empty list of fields.
pub proof fn lemma_split_on_nonempty(s: Seq<char>, sep: char)
    ensures
        split_on(s, sep).len() >= 1,
    decreases s.len(),
{
    if s.len() > 0 {
        lemma_split_on_nonempty(s.drop_last(), sep);
    }
}

/// The characters of a string slice, one by one.
pub fn str_chars(s: &str) -> (r: Vec<char>)
    ensures
        r@ == s@,
{
    let n = s.unicode_len();
    let mut r: Vec<char> = Vec::new();
    let mut i: usize = 0;
    while i < n
        invariant
            n == s@.len(),
            i <= n,
            r@ == s@.take(i as int),
        decreases n - i,
    {
        let c = s.get_char(i);
        r.push(c);
        proof {
            assert(s@.take(i + 1) =~= s@.take(i as int).push(c));
        }
        i += 1;
    }
    proof {
        assert(s@.take(n as int) =~= s@);
    }
    r
}

/// Split a character list on every occurrence of `sep`.
pub fn split_chars(v: &Vec<char>, sep: char) -> (r: Vec<Vec<char>>)
    ensures
        fields(r@) == split_on(v@, sep),
        r.len() == split_on(v@, sep).len(),
        forall|k: int| 0 <= k < r.len() ==> #[trigger] r@[k]@ == split_on(v@, sep)[k],
{
    let mut r: Vec<Vec<char>> = Vec::new();
    r.push(Vec::new());
    let mut i: usize = 0;
    proof {
        assert(v@.take(0) =~= Seq::<char>::empty());
    }
    while i < v.len()
        invariant
            i <= v.len(),
            r.len() >= 1,
            r.len() == split_on(v@.take(i as int), sep).len(),
            forall|k: int| 0 <= k < r.len() ==> #[trigger] r@[k]@ == split_on(v@.take(i as int), sep)[k],
        decreases v.len() - i,
    {
        let c = v[i];
        let ghost prev = split_on(v@.take(i as int), sep);
        proof {
            assert(v@.take(i + 1).drop_last() =~= v@.take(i as int));
            assert(v@.take(i + 1).last() == c);
        }
        if c == sep {
            r.push(Vec::new());
        } else {
            let last = r.len() - 1;
            let mut cur = r.pop().unwrap();
            cur.push(c);
            r.push(cur);
            proof {
                assert forall|k: int| 0 <= k < r.len() implies #[trigger] r@[k]@ == split_on(
                    v@.take(i + 1),
                    sep,
                )[k] by {
                    if k < last {
                        assert(r@[k]@ == prev[k]);
                    }
                }
            }
        }
        i += 1;
    }
    proof {
        assert(v@.take(v.len() as int) =~= v@);
        assert(fields(r@) =~= split_on(v@, sep));
    }
    r
}

/// The character lists of a list of fields.
pub open spec fn fields(fs: Seq<Vec<char>>) -> Seq<Seq<char>> {
    fs.map_values(|f: Vec<char>| f@)
}

} // verus!

verus! {

/// Whether `f` is one decimal octet of an IPv4 address: one to three digits,
/// no leading zero, at most 255.
pub open spec fn v4_octet_ok(f: Seq<char>) -> bool {
    &&& 1 <= f.len() <= 3
    &&& all_dec_digits(f)
    &&& (f.len() > 1 ==> f[0] != '0')
    &&& dec_value(f) <= 255
}

/// Whether `s` is an IPv4 address in dotted decimal form.
pub open spec fn ipv4_text_ok(s: Seq<char>) -> bool {
    let p = split_on(s, '.');
    &&& p.len() == 4
    &&& forall|k: int| 0 <= k < 4 ==> v4_octet_ok(#[trigger] p[k])
}

/// The 32-bit value of an IPv4 address text.
pub open spec fn ipv4_text_value(s: Seq<char>) -> nat {
    let p = split_on(s, '.');
    dec_value(p[0]) * 16777216 + dec_value(p[1]) * 65536 + dec_value(p[2]) * 256 + dec_value(p[3])
}

/// Digit value of a decimal digit character.
pub fn dec_digit_exec(c: char) -> (r: Option<u32>)
    ensures
        r is Some <==> is_dec_digit(c),
        r matches Some(d) ==> d == c as u32 - 48 && d < 10,
{
    let x = c as u32;
    if 48 <= x && x <= 57 {
        Some(x - 48)
    } else {
        None
    }
}

/// Digit value of a hexadecimal digit character.
fn hex_digit(c: char) -> (r: Option<u32>)
    ensures
        r is Some <==> is_hex_digit(c),
        r matches Some(d) ==> d == hex_digit_value(c) && d < 16,
{
    let x = c as u32;
    if 48 <= x && x <= 57 {
        Some(x - 48)
    } else if 97 <= x && x <= 102 {
        Some(x - 87)
    } else if 65 <= x && x <= 70 {
        Some(x - 55)
    } else {
        None
    }
}

/// Parse one octet of an IPv4 address.
fn parse_octet(f: &Vec<char>) -> (r: Option<u32>)
    ensures
        r is Some <==> v4_octet_ok(f@),
        r matches Some(v) ==> v == dec_value(f@) && v <= 255,
{
    if f.len() == 0 || f.len() > 3 {
        return None;
    }
    if f.len() > 1 && f[0] == '0' {
        return None;
    }
    let mut val: u32 = 0;
    let mut i: usize = 0;
    while i < f.len()
        invariant
            1 <= f.len() <= 3,
            i <= f.len(),
            val == dec_value(f@.take(i as int)),
            val < if i == 0 { 1u32 } else if i == 1 { 10u32 } else if i == 2 { 100u32 } else { 1000u32 },
            all_dec_digits(f@.take(i as int)),
        decreases f.len() - i,
    {
        let c = f[i];
        match dec_digit_exec(c) {
            None => {
                proof {
                    assert(!is_dec_digit(f@[i as int]));
                }
                return None;
            },
            Some(d) => {
                proof {
                    assert(f@.take(i + 1).drop_last() =~= f@.take(i as int));
                }
                val = val * 10 + d;
                proof {
                    assert forall|k: int| 0 <= k < i + 1 implies is_dec_digit(#[trigger] f@.take(i + 1)[k]) by {
                        if k < i {
                            assert(f@.take(i + 1)[k] == f@.take(i as int)[k]);
                        }
                    }
                }
            },
        }
        i += 1;
    }
    proof {
        assert(f@.take(f.len() as int) =~= f@);
    }
    if val > 255 {
        None
    } else {
        Some(val)
    }
}

/// Parse an IPv4 address in dotted decimal form.
pub fn parse_ipv4(v: &Vec<char>) -> (r: Option<u32>)
    ensures
        r is Some <==> ipv4_text_ok(v@),
        r matches Some(a) ==> a == ipv4_text_value(v@),
{
    let parts = split_chars(v, '.');
    let ghost p = split_on(v@, '.');
    if parts.len() != 4 {
        return None;
    }
    let o0 = parse_octet(&parts[0]);
    let o1 = parse_octet(&parts[1]);
    let o2 = parse_octet(&parts[2]);
    let o3 = parse_octet(&parts[3]);
    proof {
        assert(parts@[0]@ == p[0]);
        assert(parts@[1]@ == p[1]);
        assert(parts@[2]@ == p[2]);
        assert(parts@[3]@ == p[3]);
    }
    match (o0, o1, o2, o3) {
        (Some(a), Some(b), Some(c), Some(d)) => {
            proof {
                assert forall|k: int| 0 <= k < 4 implies v4_octet_ok(#[trigger] p[k]) by {
                    if k == 0 {
                    } else if k == 1 {
                    } else if k == 2 {
                    } else {
                    }
                }
            }
            Some(a * 16777216 + b * 65536 + c * 256 + d)
        },
        _ => {
            proof {
                if ipv4_text_ok(v@) {
                    assert(v4_octet_ok(p[0]));
                    assert(v4_octet_ok(p[1]));
                    assert(v4_octet_ok(p[2]));
                    assert(v4_octet_ok(p[3]));
                }
            }
            None
        },
    }
}

} // verus!

verus! {

/// The eight 16-bit groups of an IPv6 address, most significant first.
#[derive(Debug, Clone, Copy, PartialEq, Eq, Structural)]
pub struct Ipv6Segments {
    pub s0: u16,
    pub s1: u16,
    pub s2: u16,
    pub s3: u16,
    pub s4: u16,
    pub s5: u16,
    pub s6: u16,
    pub s7: u16,
}

impl View for Ipv6Segments {
    type V = Seq<u16>;

    open spec fn view(&self) -> Seq<u16> {
        seq![self.s0, self.s1, self.s2, self.s3, self.s4, self.s5, self.s6, self.s7]
    }
}

impl Ipv6Segments {
    /// Build an address from its eight groups.
    pub fn from_groups(g: &Vec<u16>) -> (r: Self)
        requires
            g.len() == 8,
        ensures
            r@ == g@,
    {
        let r = Ipv6Segments {
            s0: g[0],
            s1: g[1],
            s2: g[2],
            s3: g[3],
            s4: g[4],
            s5: g[5],
            s6: g[6],
            s7: g[7],
        };
        proof {
            assert(r@ =~= g@);
        }
        r
    }

    /// Group `i` of the address.
    pub fn get(&self, i: usize) -> (r: u16)
        requires
            i < 8,
        ensures
            r == self@[i as int],
    {
        if i == 0 {
            self.s0
        } else if i == 1 {
            self.s1
        } else if i == 2 {
            self.s2
        } else if i == 3 {
            self.s3
        } else if i == 4 {
            self.s4
        } else if i == 5 {
            self.s5
        } else if i == 6 {
            self.s6
        } else {
            self.s7
        }
    }

    /// The eight groups as a vector.
    pub fn to_groups(&self) -> (r: Vec<u16>)
        ensures
            r@ == self@,
    {
        let r = vec![self.s0, self.s1, self.s2, self.s3, self.s4, self.s5, self.s6, self.s7];
        proof {
            assert(r@ =~= self@);
        }
        r
    }
}

/// Whether `f` is one group of an IPv6 address: one to four hex digits.
pub open spec fn v6_group_ok(f: Seq<char>) -> bool {
    1 <= f.len() <= 4 && all_hex_digits(f)
}

/// The index of the first empty field at or after `i`, or the number of
/// fields when there is none.
pub open spec fn first_empty_from(fs: Seq<Seq<char>>, i: int) -> int
    decreases fs.len() - i,
{
    if i < 0 || i >= fs.len() {
        fs.len() as int
    } else if fs[i].len() == 0 {
        i
    } else {
        first_empty_from(fs, i + 1)
    }
}

/// Whether the fields `fs[lo..hi]` are all IPv6 groups.
pub open spec fn groups_ok(fs: Seq<Seq<char>>, lo: int, hi: int) -> bool {
    forall|k: int| lo <= k < hi ==> v6_group_ok(#[trigger] fs[k])
}

/// Whether the fields `fs[lo..hi]` end with an embedded IPv4 address.
pub open spec fn v6_tail_ends_v4(fs: Seq<Seq<char>>, lo: int, hi: int) -> bool {
    lo < hi && ipv4_text_ok(fs[hi - 1])
}

/// Whether the fields `fs[lo..hi]` are IPv6 groups, the last of which may
/// instead be an IPv4 address standing for two groups.
pub open spec fn v6_tail_ok(fs: Seq<Seq<char>>, lo: int, hi: int) -> bool {
    lo >= hi || (groups_ok(fs, lo, hi - 1) && (v6_group_ok(fs[hi - 1]) || ipv4_text_ok(fs[hi - 1])))
}

/// How many 16-bit groups the fields `fs[lo..hi]` stand for.
pub open spec fn v6_tail_width(fs: Seq<Seq<char>>, lo: int, hi: int) -> int {
    (hi - lo) + if v6_tail_ends_v4(fs, lo, hi) { 1int } else { 0int }
}

/// The 16-bit groups the fields `fs[lo..hi]` stand for.
pub open spec fn v6_tail_groups(fs: Seq<Seq<char>>, lo: int, hi: int) -> Seq<nat> {
    if v6_tail_ends_v4(fs, lo, hi) {
        let a = ipv4_text_value(fs[hi - 1]);
        Seq::new((hi - 1 - lo) as nat, |k: int| hex_value(fs[lo + k])) + seq![a / 65536, a % 65536]
    } else {
        Seq::new((hi - lo) as nat, |k: int| hex_value(fs[lo + k]))
    }
}

/// The eight groups of an IPv6 address text, or `None` when `s` is not one.
/// An address is eight colon separated groups of one to four hex digits, the
/// last two of which may be written as an IPv4 address; or such groups before
/// and after a single `::` that stands for one or more zero groups, with no
/// IPv4 address before the `::`.
pub open spec fn ipv6_text_groups(s: Seq<char>) -> Option<Seq<nat>> {
    let fs = split_on(s, ':');
    let n = fs.len() as int;
    let e = first_empty_from(fs, 0);
    if e >= n {
        if v6_tail_ok(fs, 0, n) && v6_tail_width(fs, 0, n) == 8 {
            Some(v6_tail_groups(fs, 0, n))
        } else {
            None
        }
    } else {
        let ts = if e == 0 { 2int } else { e + 1 };
        let te = if ts == n - 1 && fs[n - 1].len() == 0 { ts } else { n };
        if e == 0 && !(n >= 2 && fs[1].len() == 0) {
            None
        } else if ts >= n {
            None
        } else if exists|k: int| ts <= k < te && #[trigger] fs[k].len() == 0 {
            None
        } else if groups_ok(fs, 0, e) && v6_tail_ok(fs, ts, te) && e + v6_tail_width(fs, ts, te) <= 7 {
            Some(
                Seq::new(e as nat, |k: int| hex_value(fs[k])) + Seq::new(
                    (8 - e - v6_tail_width(fs, ts, te)) as nat,
                    |k: int| 0nat,
                ) + v6_tail_groups(fs, ts, te),
            )
        } else {
            None
        }
    }
}

/// Parse one group of an IPv6 address.
fn parse_group(f: &Vec<char>) -> (r: Option<u16>)
    ensures
        r is Some <==> v6_group_ok(f@),
        r matches Some(v) ==> v == hex_value(f@),
{
    if f.len() == 0 || f.len() > 4 {
        return None;
    }
    let mut val: u32 = 0;
    let mut i: usize = 0;
    while i < f.len()
        invariant
            1 <= f.len() <= 4,
            i <= f.len(),
            val == hex_value(f@.take(i as int)),
            val < if i == 0 { 1u32 } else if i == 1 { 16u32 } else if i == 2 { 256u32 } else if i == 3 {
                4096u32
            } else {
                65536u32
            },
            all_hex_digits(f@.take(i as int)),
        decreases f.len() - i,
    {
        let c = f[i];
        match hex_digit(c) {
            None => {
                proof {
                    assert(!is_hex_digit(f@[i as int]));
                }
                return None;
            },
            Some(d) => {
                proof {
                    assert(f@.take(i + 1).drop_last() =~= f@.take(i as int));
                }
                val = val * 16 + d;
                proof {
                    assert forall|k: int| 0 <= k < i + 1 implies is_hex_digit(#[trigger] f@.take(i + 1)[k]) by {
                        if k < i {
                            assert(f@.take(i + 1)[k] == f@.take(i as int)[k]);
                        }
                    }
                }
            },
        }
        i += 1;
    }
    proof {
        assert(f@.take(f.len() as int) =~= f@);
    }
    Some(val as u16)
}

} // verus!

verus! {

/// Check that the fields `fs[lo..hi]` are IPv6 groups, appending their values
/// to `out`.
fn push_groups(fs: &Vec<Vec<char>>, lo: usize, hi: usize, out: &mut Vec<u16>) -> (ok: bool)
    requires
        lo <= hi <= fs.len(),
        old(out).len() + (hi - lo) <= 16,
    ensures
        ok == groups_ok(fields(fs@), lo as int, hi as int),
        ok ==> final(out).len() == old(out).len() + (hi - lo),
        ok ==> forall|k: int| 0 <= k < old(out).len() ==> #[trigger] final(out)@[k] == old(out)@[k],
        ok ==> forall|k: int|
            0 <= k < hi - lo ==> #[trigger] final(out)@[old(out).len() + k] as nat == hex_value(
                fields(fs@)[lo + k],
            ),
{
    let ghost f = fields(fs@);
    let ghost start = out.len();
    let mut i = lo;
    while i < hi
        invariant
            lo <= i <= hi <= fs.len(),
            f == fields(fs@),
            start == old(out).len(),
            start + (hi - lo) <= 16,
            out.len() == start + (i - lo),
            groups_ok(f, lo as int, i as int),
            forall|k: int| 0 <= k < start ==> #[trigger] out@[k] == old(out)@[k],
            forall|k: int| 0 <= k < i - lo ==> #[trigger] out@[start + k] as nat == hex_value(f[lo + k]),
        decreases hi - i,
    {
        match parse_group(&fs[i]) {
            None => {
                proof {
                    assert(!v6_group_ok(f[i as int]));
                }
                return false;
            },
            Some(g) => {
                let ghost before = out@;
                out.push(g);
                proof {
                    assert forall|k: int| 0 <= k < i + 1 - lo implies #[trigger] out@[start + k] as nat
                        == hex_value(f[lo + k]) by {
                        if k < i - lo {
                            assert(out@[start + k] == before[start + k]);
                        }
                    }
                    assert forall|k: int| 0 <= k < start implies #[trigger] out@[k] == old(out)@[k] by {
                        assert(out@[k] == before[k]);
                    }
                }
            },
        }
        i += 1;
    }
    true
}

/// Check that the fields `fs[lo..hi]` form an IPv6 tail (groups, the last of
/// which may be an IPv4 address), appending the groups it stands for to `out`.
fn push_tail(fs: &Vec<Vec<char>>, lo: usize, hi: usize, out: &mut Vec<u16>) -> (ok: bool)
    requires
        lo <= hi <= fs.len(),
        old(out).len() + (hi - lo) + 1 <= 16,
    ensures
        ok == v6_tail_ok(fields(fs@), lo as int, hi as int),
        ok ==> final(out).len() == old(out).len() + v6_tail_width(fields(fs@), lo as int, hi as int),
        ok ==> forall|k: int| 0 <= k < old(out).len() ==> #[trigger] final(out)@[k] == old(out)@[k],
        ok ==> forall|k: int|
            0 <= k < v6_tail_width(fields(fs@), lo as int, hi as int) ==> #[trigger] final(out)@[old(
                out,
            ).len() + k] as nat == v6_tail_groups(fields(fs@), lo as int, hi as int)[k],
{
    let ghost f = fields(fs@);
    if lo == hi {
        return true;
    }
    let ghost start = out.len();
    if !push_groups(fs, lo, hi - 1, out) {
        return false;
    }
    let ghost mid = out@;
    let last = &fs[hi - 1];
    proof {
        assert(last@ == f[hi - 1]);
    }
    match parse_ipv4(last) {
        Some(a) => {
            out.push((a / 65536) as u16);
            out.push((a % 65536) as u16);
            proof {
                let tg = v6_tail_groups(f, lo as int, hi as int);
                assert(v6_tail_ends_v4(f, lo as int, hi as int));
                assert forall|k: int| 0 <= k < v6_tail_width(f, lo as int, hi as int) implies #[trigger] out@[start
                    + k] as nat == tg[k] by {
                    if k < hi - 1 - lo {
                        assert(out@[start + k] == mid[start + k]);
                    }
                }
                assert forall|k: int| 0 <= k < start implies #[trigger] out@[k] == old(out)@[k] by {
                    assert(out@[k] == mid[k]);
                }
            }
            true
        },
        None => {
            match parse_group(last) {
                None => false,
                Some(g) => {
                    out.push(g);
                    proof {
                        let tg = v6_tail_groups(f, lo as int, hi as int);
                        assert(!v6_tail_ends_v4(f, lo as int, hi as int));
                        assert forall|k: int| 0 <= k < v6_tail_width(f, lo as int, hi as int) implies #[trigger] out@[start
                            + k] as nat == tg[k] by {
                            if k < hi - 1 - lo {
                                assert(out@[start + k] == mid[start + k]);
                            }
                        }
                        assert forall|k: int| 0 <= k < start implies #[trigger] out@[k] == old(out)@[k] by {
                            assert(out@[k] == mid[k]);
                        }
                    }
                    true
                },
            }
        },
    }
}

/// Parse an IPv6 address text.
pub fn parse_ipv6(v: &Vec<char>) -> (r: Option<Ipv6Segments>)
    ensures
        r is Some <==> ipv6_text_groups(v@) is Some,
        r matches Some(a) ==> ipv6_text_groups(v@)->0.len() == 8 && forall|k: int|
            0 <= k < 8 ==> a@[k] as nat == #[trigger] ipv6_text_groups(v@)->0[k],
{
    let fs = split_chars(v, ':');
    let ghost f = split_on(v@, ':');
    let n = fs.len();
    if n > 9 {
        proof {
            assert(first_empty_from(f, 0) >= 0) by {
                lemma_first_empty_bounds(f, 0);
            }
            lemma_first_empty_bounds(f, 0);
        }
        return None;
    }
    let mut e: usize = 0;
    while e < n && fs[e].len() > 0
        invariant
            f == fields(fs@),
            n == fs.len(),
            e <= n,
            first_empty_from(f, e as int) == first_empty_from(f, 0),
        decreases n - e,
    {
        proof {
            assert(fs@[e as int]@ == f[e as int]);
        }
        e += 1;
    }
    proof {
        if e < n {
            assert(fs@[e as int]@ == f[e as int]);
        }
        assert(first_empty_from(f, e as int) == e);
    }
    if e == n {
        let mut g: Vec<u16> = Vec::new();
        if !push_tail(&fs, 0, n, &mut g) {
            return None;
        }
        if g.len() != 8 {
            return None;
        }
        let a = Ipv6Segments::from_groups(&g);
        proof {
            let w = v6_tail_groups(f, 0, n as int);
            assert forall|k: int| 0 <= k < 8 implies a@[k] as nat == #[trigger] w[k] by {
                assert(g@[0 + k] as nat == w[k]);
            }
        }
        return Some(a);
    }
    if e == 0 && !(n >= 2 && fs[1].len() == 0) {
        proof {
            if n >= 2 {
                assert(fs@[1]@ == f[1]);
            }
        }
        return None;
    }
    let ts: usize = if e == 0 { 2 } else { e + 1 };
    if ts >= n {
        return None;
    }
    proof {
        assert(fs@[n - 1]@ == f[n - 1]);
    }
    let te: usize = if ts == n - 1 && fs[n - 1].len() == 0 { ts } else { n };
    let mut k: usize = ts;
    while k < te
        invariant
            f == fields(fs@),
            ts <= k <= te <= n == fs.len(),
            forall|j: int| ts <= j < k ==> #[trigger] f[j].len() > 0,
            f == split_on(v@, ':'),
            e == first_empty_from(f, 0),
            e < n,
            ts == (if e == 0 { 2int } else { e + 1 }),
            te == (if ts == n - 1 && f[n - 1].len() == 0 { ts as int } else { n as int }),
            !(e == 0 && !(n >= 2 && f[1].len() == 0)),
            ts < n,
        decreases te - k,
    {
        proof {
            assert(fs@[k as int]@ == f[k as int]);
        }
        if fs[k].len() == 0 {
            proof {
                assert(f[k as int].len() == 0);
            }
            return None;
        }
        k += 1;
    }
    let mut head: Vec<u16> = Vec::new();
    if !push_groups(&fs, 0, e, &mut head) {
        return None;
    }
    let mut tail: Vec<u16> = Vec::new();
    if !push_tail(&fs, ts, te, &mut tail) {
        return None;
    }
    proof {
        assert forall|j: int| 0 <= j < e implies #[trigger] head@[j] as nat == hex_value(f[j]) by {
            assert(head@[0 + j] as nat == hex_value(f[0 + j]));
        }
        assert(!(exists|i: int| ts <= i < te && #[trigger] f[i].len() == 0));
    }
    if e + tail.len() > 7 {
        return None;
    }
    let ghost zn = (8 - e - tail.len()) as nat;
    let mut g = head;
    while g.len() + tail.len() < 8
        invariant
            e <= g.len(),
            g.len() + tail.len() <= 8,
            forall|j: int| 0 <= j < e ==> #[trigger] g@[j] as nat == hex_value(f[j]),
            forall|j: int| e <= j < g.len() ==> #[trigger] g@[j] == 0,
        decreases 8 - g.len(),
    {
        g.push(0);
    }
    let hz = g.len();
    let mut j: usize = 0;
    while j < tail.len()
        invariant
            hz + tail.len() == 8,
            e <= hz,
            g.len() == hz + j,
            j <= tail.len(),
            forall|i: int| 0 <= i < e ==> #[trigger] g@[i] as nat == hex_value(f[i]),
            forall|i: int| e <= i < hz ==> #[trigger] g@[i] == 0,
            forall|i: int| 0 <= i < j ==> #[trigger] g@[hz + i] == tail@[i],
        decreases tail.len() - j,
    {
        g.push(tail[j]);
        j += 1;
    }
    let a = Ipv6Segments::from_groups(&g);
    proof {
        let w = v6_tail_width(f, ts as int, te as int);
        let want = Seq::new(e as nat, |i: int| hex_value(f[i])) + Seq::new((8 - e - w) as nat, |i: int| 0nat)
            + v6_tail_groups(f, ts as int, te as int);
        assert(!(exists|i: int| ts <= i < te && #[trigger] f[i].len() == 0));
        assert(ipv6_text_groups(v@) == Some(want));
        assert forall|i: int| 0 <= i < 8 implies a@[i] as nat == #[trigger] want[i] by {
            if i < e {
            } else if i < hz {
            } else {
                assert(g@[hz + (i - hz)] == tail@[i - hz]);
                assert(tail@[0 + (i - hz)] as nat == v6_tail_groups(f, ts as int, te as int)[i - hz]);
            }
        }
    }
    Some(a)
}

proof fn lemma_first_empty_bounds(fs: Seq<Seq<char>>, i: int)
    ensures
        0 <= i <= fs.len() ==> i <= first_empty_from(fs, i) <= fs.len(),
        i < 0 || i >= fs.len() ==> first_empty_from(fs, i) == fs.len(),
    decreases fs.len() - i,
{
    if 0 <= i < fs.len() && fs[i].len() > 0 {
        lemma_first_empty_bounds(fs, i + 1);
    }
}

} // verus!

verus! {

/// An IP address: IPv4 as its 32-bit value, IPv6 as its eight groups.
#[derive(Debug, Clone, Copy, PartialEq, Eq, Structural)]
pub enum IpAddr {
    V4(u32),
    V6(Ipv6Segments),
}

/// The address built from eight group values.
pub open spec fn segments_of(g: Seq<nat>) -> Ipv6Segments {
    Ipv6Segments {
        s0: g[0] as u16,
        s1: g[1] as u16,
        s2: g[2] as u16,
        s3: g[3] as u16,
        s4: g[4] as u16,
        s5: g[5] as u16,
        s6: g[6] as u16,
        s7: g[7] as u16,
    }
}

/// The address written by `s`: an IPv4 address in dotted decimal form, or
/// else an IPv6 address; `None` when `s` is neither.
pub open spec fn ip_text_addr(s: Seq<char>) -> Option<IpAddr> {
    if ipv4_text_ok(s) {
        Some(IpAddr::V4(ipv4_text_value(s) as u32))
    } else {
        match ipv6_text_groups(s) {
            Some(g) => Some(IpAddr::V6(segments_of(g))),
            None => None,
        }
    }
}

/// Parse an IP address text, IPv4 first.
pub fn parse_ip(v: &Vec<char>) -> (r: Option<IpAddr>)
    ensures
        r == ip_text_addr(v@),
{
    match parse_ipv4(v) {
        Some(a) => Some(IpAddr::V4(a)),
        None => match parse_ipv6(v) {
            Some(g) => {
                proof {
                    let w = ipv6_text_groups(v@)->0;
                    assert(g@[0] as nat == w[0]);
                    assert(g@[1] as nat == w[1]);
                    assert(g@[2] as nat == w[2]);
                    assert(g@[3] as nat == w[3]);
                    assert(g@[4] as nat == w[4]);
                    assert(g@[5] as nat == w[5]);
                    assert(g@[6] as nat == w[6]);
                    assert(g@[7] as nat == w[7]);
                    assert(g == segments_of(w));
                }
                Some(IpAddr::V6(g))
            },
            None => None,
        },
    }
}

/// Whether `s` holds a colon, the mark of an IPv6 address text.
pub fn is_ipv6_addr(s: &str) -> (r: bool)
    ensures
        r == s@.contains(':'),
{
    let n = s.unicode_len();
    let mut i: usize = 0;
    while i < n
        invariant
            n == s@.len(),
            i <= n,
            forall|k: int| 0 <= k < i ==> s@[k] != ':',
        decreases n - i,
    {
        if s.get_char(i) == ':' {
            return true;
        }
        i += 1;
    }
    false
}

/// Lowercase hexadecimal digit for a value below 16.
pub open spec fn hex_char(d: nat) -> char {
    if d == 0 {
        '0'
    } else if d == 1 {
        '1'
    } else if d == 2 {
        '2'
    } else if d == 3 {
        '3'
    } else if d == 4 {
        '4'
    } else if d == 5 {
        '5'
    } else if d == 6 {
        '6'
    } else if d == 7 {
        '7'
    } else if d == 8 {
        '8'
    } else if d == 9 {
        '9'
    } else if d == 10 {
        'a'
    } else if d == 11 {
        'b'
    } else if d == 12 {
        'c'
    } else if d == 13 {
        'd'
    } else if d == 14 {
        'e'
    } else {
        'f'
    }
}

/// Lowercase hexadecimal text of a natural number, without leading zeros.
pub open spec fn hex_text(n: nat) -> Seq<char>
    decreases n,
{
    if n < 16 {
        seq![hex_char(n)]
    } else {
        hex_text(n / 16).push(hex_char(n % 16))
    }
}

fn hex_digit_char(d: u32) -> (c: char)
    requires
        d < 16,
    ensures
        c == hex_char(d as nat),
{
    if d == 0 {
        '0'
    } else if d == 1 {
        '1'
    } else if d == 2 {
        '2'
    } else if d == 3 {
        '3'
    } else if d == 4 {
        '4'
    } else if d == 5 {
        '5'
    } else if d == 6 {
        '6'
    } else if d == 7 {
        '7'
    } else if d == 8 {
        '8'
    } else if d == 9 {
        '9'
    } else if d == 10 {
        'a'
    } else if d == 11 {
        'b'
    } else if d == 12 {
        'c'
    } else if d == 13 {
        'd'
    } else if d == 14 {
        'e'
    } else {
        'f'
    }
}

/// Lowercase hexadecimal text of an unsigned integer.
pub fn hex_string(n: u32) -> (r: String)
    ensures
        r@ == hex_text(n as nat),
    decreases n,
{
    if n < 16 {
        let mut s = String::new();
        crate::text::push_char(&mut s, hex_digit_char(n));
        proof {
            assert(s@ =~= seq![hex_char(n as nat)]);
        }
        s
    } else {
        let mut s = hex_string(n / 16);
        crate::text::push_char(&mut s, hex_digit_char(n % 16));
        s
    }
}

} // verus!

verus! {

/// Dotted decimal text of an IPv4 address.
pub open spec fn ipv4_display(a: u32) -> Seq<char> {
    decimal_text((a / 16777216) as nat) + "."@ + decimal_text(((a / 65536) % 256) as nat) + "."@
        + decimal_text(((a / 256) % 256) as nat) + "."@ + decimal_text((a % 256) as nat)
}

/// Dotted decimal text of an IPv4 address.
pub fn ipv4_to_string(a: u32) -> (r: String)
    ensures
        r@ == ipv4_display(a),
{
    let mut s = decimal_string((a / 16777216) as u64);
    s.append(".");
    s.append(decimal_string(((a / 65536) % 256) as u64).as_str());
    s.append(".");
    s.append(decimal_string(((a / 256) % 256) as u64).as_str());
    s.append(".");
    s.append(decimal_string((a % 256) as u64).as_str());
    s
}

/// IPv6 groups in lowercase hex, joined by colons.
pub open spec fn join_groups(g: Seq<u16>) -> Seq<char>
    decreases g.len(),
{
    if g.len() == 0 {
        Seq::empty()
    } else if g.len() == 1 {
        hex_text(g[0] as nat)
    } else {
        join_groups(g.drop_last()) + ":"@ + hex_text(g.last() as nat)
    }
}

/// Whether groups `g[st..st + ln]` are all zero.
pub open spec fn zero_run(g: Seq<u16>, st: int, ln: int) -> bool {
    &&& 0 <= st
    &&& 0 <= ln
    &&& st + ln <= g.len()
    &&& forall|k: int| st <= k < st + ln ==> #[trigger] g[k] == 0
}

/// Whether `g[st..st + ln]` is the leftmost of the longest runs of zero groups.
pub open spec fn longest_zero_run(g: Seq<u16>, st: int, ln: int) -> bool {
    &&& zero_run(g, st, ln)
    &&& forall|s2: int, l2: int| #[trigger] zero_run(g, s2, l2) ==> l2 <= ln
    &&& forall|s2: int| 0 <= s2 < st ==> !#[trigger] zero_run(g, s2, ln)
}

/// Whether the groups are those of an IPv4-mapped IPv6 address.
pub open spec fn ipv4_mapped(g: Seq<u16>) -> bool {
    g[0] == 0 && g[1] == 0 && g[2] == 0 && g[3] == 0 && g[4] == 0 && g[5] == 0xffff
}

/// Text of an IPv6 address: an IPv4-mapped address as `::ffff:` and its IPv4
/// text; otherwise the groups in lowercase hex without leading zeros, with
/// the leftmost longest run of two or more zero groups written as `::`.
pub open spec fn ipv6_display(g: Seq<u16>) -> Seq<char> {
    if ipv4_mapped(g) {
        "::ffff:"@ + ipv4_display((g[6] as nat * 65536 + g[7] as nat) as u32)
    } else {
        let (st, ln) = choose|st: int, ln: int| longest_zero_run(g, st, ln);
        if ln > 1 {
            join_groups(g.subrange(0, st)) + "::"@ + join_groups(g.subrange(st + ln, g.len() as int))
        } else {
            join_groups(g)
        }
    }
}

/// Text of an IP address.
pub open spec fn ip_display(a: IpAddr) -> Seq<char> {
    match a {
        IpAddr::V4(x) => ipv4_display(x),
        IpAddr::V6(g) => ipv6_display(g@),
    }
}

/// There is only one leftmost longest run of zero groups.
proof fn lemma_longest_zero_run_unique(g: Seq<u16>, a: int, b: int, c: int, d: int)
    requires
        longest_zero_run(g, a, b),
        longest_zero_run(g, c, d),
    ensures
        a == c && b == d,
{
    assert(zero_run(g, c, d));
    assert(zero_run(g, a, b));
    assert(b == d);
    if a < c {
        assert(zero_run(g, a, d));
    } else if c < a {
        assert(zero_run(g, c, b));
    }
}

/// Append `g[lo..hi]` joined by colons.
fn push_joined(s: &mut String, g: &Vec<u16>, lo: usize, hi: usize)
    requires
        lo <= hi <= g.len(),
    ensures
        final(s)@ == old(s)@ + join_groups(g@.subrange(lo as int, hi as int)),
{
    let mut i = lo;
    proof {
        assert(g@.subrange(lo as int, lo as int) =~= Seq::<u16>::empty());
        assert(old(s)@ + join_groups(g@.subrange(lo as int, lo as int)) =~= old(s)@);
    }
    while i < hi
        invariant
            lo <= i <= hi <= g.len(),
            s@ == old(s)@ + join_groups(g@.subrange(lo as int, i as int)),
        decreases hi - i,
    {
        let ghost prev = s@;
        proof {
            assert(g@.subrange(lo as int, i + 1).drop_last() =~= g@.subrange(lo as int, i as int));
        }
        if i > lo {
            s.append(":");
        }
        let h = hex_string(g[i] as u32);
        s.append(h.as_str());
        proof {
            let sub = g@.subrange(lo as int, i + 1);
            if i == lo {
                assert(sub.len() == 1);
                assert(s@ =~= old(s)@ + join_groups(sub));
            } else {
                assert(s@ =~= old(s)@ + join_groups(sub));
            }
        }
        i += 1;
    }
}

/// Text of an IPv6 address, as [ipv6_display] describes it.
pub fn ipv6_to_string(a: &Ipv6Segments) -> (r: String)
    ensures
        r@ == ipv6_display(a@),
{
    let g = a.to_groups();
    if g[0] == 0 && g[1] == 0 && g[2] == 0 && g[3] == 0 && g[4] == 0 && g[5] == 0xffff {
        let mut s = String::from_str("::ffff:");
        let v4 = ipv4_to_string((g[6] as u32) * 65536 + g[7] as u32);
        s.append(v4.as_str());
        return s;
    }
    let mut st: usize = 0;
    let mut ln: usize = 0;
    let mut cs: usize = 0;
    let mut i: usize = 0;
    while i < 8
        invariant
            g.len() == 8,
            i <= 8,
            cs <= i,
            zero_run(g@, cs as int, i - cs),
            cs == 0 || g@[cs - 1] != 0,
            zero_run(g@, st as int, ln as int),
            st + ln <= i,
            forall|s2: int, l2: int| #[trigger] zero_run(g@, s2, l2) && s2 + l2 <= i ==> l2 <= ln,
            forall|s2: int| 0 <= s2 < st ==> !#[trigger] zero_run(g@, s2, ln as int),
        decreases 8 - i,
    {
        if g[i] == 0 {
            let cl = i + 1 - cs;
            proof {
                assert forall|s2: int, l2: int| #[trigger] zero_run(g@, s2, l2) && s2 + l2 == i + 1 implies l2
                    <= cl by {
                    if s2 < cs {
                        assert(g@[cs - 1] == 0);
                    }
                }
            }
            if cl > ln {
                proof {
                    assert forall|s2: int| 0 <= s2 < cs implies !#[trigger] zero_run(g@, s2, cl as int) by {
                        if zero_run(g@, s2, cl as int) {
                            assert(s2 + cl <= i);
                        }
                    }
                }
                st = cs;
                ln = cl;
            }
            proof {
                assert forall|s2: int, l2: int| #[trigger] zero_run(g@, s2, l2) && s2 + l2 <= i + 1 implies l2
                    <= ln by {
                    if s2 + l2 <= i {
                    } else {
                        assert(s2 + l2 == i + 1);
                    }
                }
            }
        } else {
            proof {
                assert forall|s2: int, l2: int| #[trigger] zero_run(g@, s2, l2) && s2 + l2 <= i + 1 implies l2
                    <= ln by {
                    if s2 + l2 == i + 1 && l2 > 0 {
                        assert(g@[i as int] == 0);
                    }
                }
            }
            cs = i + 1;
        }
        i += 1;
    }
    proof {
        assert(longest_zero_run(g@, st as int, ln as int));
        let (c1, c2) = choose|c1: int, c2: int| longest_zero_run(g@, c1, c2);
        lemma_longest_zero_run_unique(g@, st as int, ln as int, c1, c2);
    }
    let mut s = String::new();
    if ln > 1 {
        push_joined(&mut s, &g, 0, st);
        s.append("::");
        push_joined(&mut s, &g, st + ln, 8);
    } else {
        push_joined(&mut s, &g, 0, 8);
        proof {
            assert(g@.subrange(0, 8) =~= g@);
        }
    }
    s
}

/// Text of an IP address.
pub fn ip_to_string(a: &IpAddr) -> (r: String)
    ensures
        r@ == ip_display(*a),
{
    match a {
        IpAddr::V4(x) => ipv4_to_string(*x),
        IpAddr::V6(g) => ipv6_to_string(g),
    }
}

} // verus!

verus! {

/// Number of bits of an address of the family of `a`.
pub open spec fn addr_bits(a: IpAddr) -> nat {
    match a {
        IpAddr::V4(_) => 32,
        IpAddr::V6(_) => 128,
    }
}

/// Netmask of an IPv4 prefix length.
pub open spec fn v4_mask(p: nat) -> u32 {
    if p == 0 {
        0
    } else {
        0xffffffffu32 << ((32 - p) as u32)
    }
}

/// Netmask of group `k` of an IPv6 address for a prefix length.
pub open spec fn v6_group_mask(p: nat, k: int) -> u16 {
    let bits: int = if p <= 16 * k {
        0
    } else if p >= 16 * k + 16 {
        16
    } else {
        p - 16 * k
    };
    if bits == 0 {
        0
    } else {
        0xffffu16 << ((16 - bits) as u16)
    }
}

/// The network address of `a` under a prefix length: its host bits cleared.
pub open spec fn mask_addr(a: IpAddr, p: nat) -> IpAddr {
    match a {
        IpAddr::V4(x) => IpAddr::V4(x & v4_mask(p)),
        IpAddr::V6(g) => IpAddr::V6(
            Ipv6Segments {
                s0: g.s0 & v6_group_mask(p, 0),
                s1: g.s1 & v6_group_mask(p, 1),
                s2: g.s2 & v6_group_mask(p, 2),
                s3: g.s3 & v6_group_mask(p, 3),
                s4: g.s4 & v6_group_mask(p, 4),
                s5: g.s5 & v6_group_mask(p, 5),
                s6: g.s6 & v6_group_mask(p, 6),
                s7: g.s7 & v6_group_mask(p, 7),
            },
        ),
    }
}

/// The value of an unsigned 8-bit integer text: an optional `+` then one or
/// more decimal digits, with a value of at most 255.
pub open spec fn u8_text_value(s: Seq<char>) -> Option<nat> {
    let d = if s.len() > 0 && s[0] == '+' { s.subrange(1, s.len() as int) } else { s };
    if d.len() > 0 && all_dec_digits(d) && dec_value(d) <= 255 {
        Some(dec_value(d))
    } else {
        None
    }
}

/// Parse an unsigned 8-bit integer text.
#[verifier::spinoff_prover]
#[verifier::rlimit(30)]
pub fn parse_u8(v: &Vec<char>) -> (r: Option<u8>)
    ensures
        r is Some <==> u8_text_value(v@) is Some,
        r matches Some(x) ==> x == u8_text_value(v@)->0,
{
    let start: usize = if v.len() > 0 && v[0] == '+' { 1 } else { 0 };
    let ghost d = if v@.len() > 0 && v@[0] == '+' { v@.subrange(1, v@.len() as int) } else { v@ };
    if start >= v.len() {
        return None;
    }
    let mut val: u32 = 0;
    let mut i = start;
    proof {
        assert(d =~= v@.subrange(start as int, v@.len() as int));
        assert(d.take(0) =~= Seq::<char>::empty());
    }
    while i < v.len()
        invariant
            start <= i <= v.len(),
            d == v@.subrange(start as int, v@.len() as int),
            d == (if v@.len() > 0 && v@[0] == '+' { v@.subrange(1, v@.len() as int) } else { v@ }),
            val == if dec_value(d.take(i - start)) > 255 { 256 } else { dec_value(d.take(i - start)) },
            all_dec_digits(d.take(i - start)),
        decreases v.len() - i,
    {
        match dec_digit_exec(v[i]) {
            None => {
                proof {
                    assert(d[i - start] == v@[i as int]);
                    assert(!is_dec_digit(d[i - start]));
                }
                return None;
            },
            Some(x) => {
                let ghost pre = d.take(i - start);
                let ghost nxt = d.take(i + 1 - start);
                proof {
                    assert(nxt.drop_last() =~= pre);
                    assert(nxt.last() == v@[i as int]);
                    assert forall|k: int| 0 <= k < nxt.len() implies is_dec_digit(#[trigger] nxt[k]) by {
                        if k < pre.len() {
                            assert(nxt[k] == pre[k]);
                        }
                    }
                }
                if val > 255 {
                    val = 256;
                } else {
                    val = val * 10 + x;
                    if val > 255 {
                        val = 256;
                    }
                }
            },
        }
        i += 1;
    }
    proof {
        assert(d.take(v.len() - start) =~= d);
    }
    if val > 255 {
        None
    } else {
        Some(val as u8)
    }
}

/// Clear the host bits of an address for a prefix length.
pub fn apply_prefix(a: &IpAddr, p: u8) -> (r: IpAddr)
    requires
        p <= addr_bits(*a),
    ensures
        r == mask_addr(*a, p as nat),
{
    match a {
        IpAddr::V4(x) => {
            let m: u32 = if p == 0 { 0 } else { 0xffffffffu32 << (32 - p as u32) };
            IpAddr::V4(*x & m)
        },
        IpAddr::V6(g) => {
            let gs = g.to_groups();
            let mut out: Vec<u16> = Vec::new();
            let mut k: usize = 0;
            while k < 8
                invariant
                    gs@ == g@,
                    k <= 8,
                    p <= 128,
                    out.len() == k,
                    forall|j: int| 0 <= j < k ==> #[trigger] out@[j] == gs@[j] & v6_group_mask(p as nat, j),
                decreases 8 - k,
            {
                let base: u32 = 16 * (k as u32);
                let bits: u32 = if (p as u32) <= base {
                    0
                } else if (p as u32) >= base + 16 {
                    16
                } else {
                    p as u32 - base
                };
                let m: u16 = if bits == 0 { 0 } else { 0xffffu16 << ((16 - bits) as u16) };
                proof {
                    assert(m == v6_group_mask(p as nat, k as int));
                }
                out.push(gs[k] & m);
                k += 1;
            }
            let r = Ipv6Segments::from_groups(&out);
            proof {
                assert(out@[0] == g.s0 & v6_group_mask(p as nat, 0));
                assert(out@[1] == g.s1 & v6_group_mask(p as nat, 1));
                assert(out@[2] == g.s2 & v6_group_mask(p as nat, 2));
                assert(out@[3] == g.s3 & v6_group_mask(p as nat, 3));
                assert(out@[4] == g.s4 & v6_group_mask(p as nat, 4));
                assert(out@[5] == g.s5 & v6_group_mask(p as nat, 5));
                assert(out@[6] == g.s6 & v6_group_mask(p as nat, 6));
                assert(out@[7] == g.s7 & v6_group_mask(p as nat, 7));
            }
            IpAddr::V6(r)
        },
    }
}

/// The canonical text of an IP network `addr[/prefix]`, or `None` when the
/// text is not one: an address alone gets the full prefix length of its
/// family; with a prefix length, the host bits are cleared.
pub open spec fn sanitized_ip_network(s: Seq<char>) -> Option<Seq<char>> {
    let parts = split_on(s, '/');
    if parts.len() == 1 {
        match ip_text_addr(parts[0]) {
            Some(a) => Some(ip_display(a) + "/"@ + decimal_text(addr_bits(a))),
            None => None,
        }
    } else if parts.len() == 2 {
        match (u8_text_value(parts[1]), ip_text_addr(parts[0])) {
            (Some(p), Some(a)) => if p <= addr_bits(a) {
                Some(ip_display(mask_addr(a, p)) + "/"@ + decimal_text(p))
            } else {
                None
            },
            _ => None,
        }
    } else {
        None
    }
}

/// Canonical text of an IP network: `192.0.3.1/23` becomes `192.0.2.0/23`,
/// `2001:db8:1::f/64` becomes `2001:db8:1::/64`, an address without prefix
/// length gets `/32` or `/128`. A malformed address or prefix length, or a
/// prefix length beyond the address size, is an `InvalidArgument` error.
pub fn sanitize_ip_network(ip_net: &str) -> (r: Result<String, NipartError>)
    ensures
        r is Ok <==> sanitized_ip_network(ip_net@) is Some,
        r matches Ok(t) ==> t@ == sanitized_ip_network(ip_net@)->0,
        r matches Err(e) ==> e.kind == ErrorKind::InvalidArgument,
{
    let chars = str_chars(ip_net);
    let parts = split_chars(&chars, '/');
    let ghost ps = split_on(ip_net@, '/');
    proof {
        lemma_split_on_nonempty(ip_net@, '/');
    }
    if parts.len() == 1 {
        proof {
            assert(parts@[0]@ == ps[0]);
        }
        match parse_ip(&parts[0]) {
            Some(a) => {
                let mut s = ip_to_string(&a);
                s.append("/");
                let bits: u64 = match a {
                    IpAddr::V4(_) => 32,
                    IpAddr::V6(_) => 128,
                };
                s.append(decimal_string(bits).as_str());
                Ok(s)
            },
            None => Err(NipartError::from_str_msg(ErrorKind::InvalidArgument, "Invalid IP network: not an IP address")),
        }
    } else if parts.len() == 2 {
        proof {
            assert(parts@[0]@ == ps[0]);
            assert(parts@[1]@ == ps[1]);
        }
        let prefix = match parse_u8(&parts[1]) {
            Some(p) => p,
            None => {
                return Err(NipartError::from_str_msg(ErrorKind::InvalidArgument, "Invalid IP network prefix length"));
            },
        };
        let a = match parse_ip(&parts[0]) {
            Some(a) => a,
            None => {
                return Err(NipartError::from_str_msg(ErrorKind::InvalidArgument, "Invalid IP network: not an IP address"));
            },
        };
        let bits: u8 = match a {
            IpAddr::V4(_) => 32,
            IpAddr::V6(_) => 128,
        };
        if prefix > bits {
            return Err(NipartError::from_str_msg(
                ErrorKind::InvalidArgument,
                "Invalid IP network: prefix length exceeds the address size",
            ));
        }
        let net = apply_prefix(&a, prefix);
        let mut s = ip_to_string(&net);
        s.append("/");
        s.append(decimal_string(prefix as u64).as_str());
        Ok(s)
    } else {
        Err(NipartError::from_str_msg(ErrorKind::InvalidArgument, "Invalid IP network string"))
    }
}

/// Group `k` of an IPv6 address, counted from the most significant.
pub open spec fn v6_seg(g: Ipv6Segments, k: int) -> u16 {
    if k == 0 {
        g.s0
    } else if k == 1 {
        g.s1
    } else if k == 2 {
        g.s2
    } else if k == 3 {
        g.s3
    } else if k == 4 {
        g.s4
    } else if k == 5 {
        g.s5
    } else if k == 6 {
        g.s6
    } else {
        g.s7
    }
}

/// Whether bit `i` of an address is set, bits counted from the most
/// significant one.
pub open spec fn addr_bit(a: IpAddr, i: int) -> bool {
    match a {
        IpAddr::V4(x) => (x >> ((31 - i) as u32)) & 1u32 == 1u32,
        IpAddr::V6(g) => (v6_seg(g, i / 16) >> ((15 - i % 16) as u16)) & 1u16 == 1u16,
    }
}

proof fn lemma_mask_bit_u32(x: u32, sh: u32, s: u32)
    requires
        sh <= 31,
        s < 32,
    ensures
        ((x & (0xffffffffu32 << sh)) >> s) & 1u32 == 1u32 <==> (s >= sh && (x >> s) & 1u32 == 1u32),
{
    assert(((x & (0xffffffffu32 << sh)) >> s) & 1u32 == 1u32 <==> (s >= sh && (x >> s) & 1u32 == 1u32)) by (bit_vector)
        requires
            sh <= 31,
            s < 32,
    ;
}

proof fn lemma_mask_bit_u16(y: u16, sh: u16, s: u16)
    requires
        sh <= 15,
        s < 16,
    ensures
        ((y & (0xffffu16 << sh)) >> s) & 1u16 == 1u16 <==> (s >= sh && (y >> s) & 1u16 == 1u16),
{
    assert(((y & (0xffffu16 << sh)) >> s) & 1u16 == 1u16 <==> (s >= sh && (y >> s) & 1u16 == 1u16)) by (bit_vector)
        requires
            sh <= 15,
            s < 16,
    ;
}

proof fn lemma_zero_bit_u32(s: u32)
    requires
        s < 32,
    ensures
        ((0u32 >> s) & 1u32 == 1u32) == false,
{
    assert(((0u32 >> s) & 1u32 == 1u32) == false) by (bit_vector);
}

proof fn lemma_zero_bit_u16(s: u16)
    requires
        s < 16,
    ensures
        ((0u16 >> s) & 1u16 == 1u16) == false,
{
    assert(((0u16 >> s) & 1u16 == 1u16) == false) by (bit_vector);
}

proof fn lemma_and_zero_u32(x: u32)
    ensures
        x & 0u32 == 0u32,
{
    assert(x & 0u32 == 0u32) by (bit_vector);
}

proof fn lemma_and_zero_u16(y: u16)
    ensures
        y & 0u16 == 0u16,
{
    assert(y & 0u16 == 0u16) by (bit_vector);
}

/// The network address under a prefix length keeps exactly the leading
/// bits: bit `i` of the masked address is bit `i` of the address when `i`
/// is below the prefix length, and clear otherwise.
pub proof fn law_mask_keeps_prefix_bits(a: IpAddr, p: nat, i: int)
    requires
        p <= addr_bits(a),
        0 <= i < addr_bits(a),
    ensures
        addr_bit(mask_addr(a, p), i) == (i < p && addr_bit(a, i)),
{
    match a {
        IpAddr::V4(x) => {
            let s = (31 - i) as u32;
            if p == 0 {
                lemma_and_zero_u32(x);
                lemma_zero_bit_u32(s);
            } else {
                let sh = (32 - p) as u32;
                lemma_mask_bit_u32(x, sh, s);
            }
        },
        IpAddr::V6(g) => {
            let k = i / 16;
            let b = i % 16;
            assert(i == 16 * k + b);
            let m = match mask_addr(a, p) {
                IpAddr::V6(m) => m,
                _ => g,
            };
            assert(v6_seg(m, k) == v6_seg(g, k) & v6_group_mask(p, k));
            let s = (15 - b) as u16;
            let y = v6_seg(g, k);
            let bits: int = if p <= 16 * k {
                0
            } else if p >= 16 * k + 16 {
                16
            } else {
                p - 16 * k
            };
            if bits == 0 {
                lemma_and_zero_u16(y);
                lemma_zero_bit_u16(s);
            } else {
                let sh = (16 - bits) as u16;
                lemma_mask_bit_u16(y, sh, s);
            }
        },
    }
}

} // verus!
