//! IPv6 address text: reading it (the grammar that `str::parse` for
//! `Ipv6Addr` accepts) and writing it (the compressed form that `Ipv6Addr`
//! displays).

use vstd::prelude::*;

use crate::text::{chars_of, decimal, find_sub, find_sub_exec, is_first_index, lemma_find_sub_is, is_digit, lemma_split_char_concat, lemma_split_char_none, occurs_at, push_char, split_char, split_char_exec, views};
use crate::wg::{ipv4_parse, ipv4_text, ipv4_to_string, parse_ipv4_chars};

verus! {

/// Segment `i` (0 = most significant) of an address.
pub open spec fn segment(bits: u128, i: int) -> u16 {
    ((bits >> (((7 - i) * 16) as u128)) & 0xffff) as u16
}

/// The eight 16-bit segments of an address, most significant first.
pub open spec fn segments(bits: u128) -> Seq<u16> {
    Seq::new(8, |i: int| segment(bits, i))
}

/// The lower-case hexadecimal digit for `d < 16`.
pub open spec fn hex_char(d: nat) -> char {
    if d < 10 {
        (d + '0' as int) as char
    } else {
        (d - 10 + 'a' as int) as char
    }
}

/// The lower-case hexadecimal text of `n` without leading zeros (`{:x}`).
pub open spec fn hex(n: nat) -> Seq<char>
    decreases n,
{
    if n < 16 {
        seq![hex_char(n)]
    } else {
        hex(n / 16).push(hex_char(n % 16))
    }
}

/// Segments in hexadecimal, separated by colons.
pub open spec fn hex_groups(s: Seq<u16>) -> Seq<char>
    decreases s.len(),
{
    if s.len() == 0 {
        seq![]
    } else if s.len() == 1 {
        hex(s[0] as nat)
    } else {
        hex_groups(s.drop_last()) + ":"@ + hex(s.last() as nat)
    }
}

/// The number of zero segments starting at `i`.
pub open spec fn zero_run(s: Seq<u16>, i: int) -> nat
    decreases s.len() - i,
{
    if 0 <= i < s.len() && s[i] == 0 {
        1 + zero_run(s, i + 1)
    } else {
        0
    }
}

/// The length of the longest run of zero segments at or after `i`.
pub open spec fn longest_zero_run_from(s: Seq<u16>, i: int) -> nat
    decreases s.len() - i,
{
    if 0 <= i < s.len() {
        let here = zero_run(s, i);
        let rest = longest_zero_run_from(s, i + 1);
        if here >= rest {
            here
        } else {
            rest
        }
    } else {
        0
    }
}

/// The first position at or after `i` where a run of `len` zero segments
/// starts.
pub open spec fn first_run_of(s: Seq<u16>, i: int, len: nat) -> int
    decreases s.len() - i,
{
    if 0 <= i < s.len() {
        if zero_run(s, i) == len {
            i
        } else {
            first_run_of(s, i + 1, len)
        }
    } else {
        s.len() as int
    }
}

/// An IPv4-mapped address (`::ffff:a.b.c.d`).
pub open spec fn is_ipv4_mapped(bits: u128) -> bool {
    let s = segments(bits);
    s[0] == 0 && s[1] == 0 && s[2] == 0 && s[3] == 0 && s[4] == 0 && s[5] == 0xffff
}

/// The text of an IPv6 address as `Ipv6Addr` displays it: IPv4-mapped
/// addresses as `::ffff:` and the dotted IPv4 address; otherwise the
/// segments in lower-case hexadecimal, the first longest run of two or more
/// zero segments written as `::`.
pub open spec fn ipv6_text(bits: u128) -> Seq<char> {
    let s = segments(bits);
    if is_ipv4_mapped(bits) {
        "::ffff:"@ + ipv4_text((bits & 0xffff_ffff) as u32)
    } else {
        let len = longest_zero_run_from(s, 0);
        if len > 1 {
            let start = first_run_of(s, 0, len);
            hex_groups(s.take(start)) + "::"@ + hex_groups(s.skip(start + len))
        } else {
            hex_groups(s)
        }
    }
}

fn hex_digit_char(d: u16) -> (c: char)
    requires
        d < 16,
    ensures
        c == hex_char(d as nat),
{
    let digits: [char; 16] = [
        '0', '1', '2', '3', '4', '5', '6', '7', '8', '9', 'a', 'b', 'c', 'd', 'e', 'f',
    ];
    let c = digits[d as usize];
    assert(c == hex_char(d as nat)) by {
        assert(digits@[d as int] == c);
    }
    c
}

/// The hexadecimal text of `n`.
fn hex_exec(n: u16) -> (r: String)
    ensures
        r@ == hex(n as nat),
    decreases n,
{
    if n < 16 {
        let mut s = String::new();
        push_char(&mut s, hex_digit_char(n));
        assert(s@ =~= seq![hex_char(n as nat)]);
        s
    } else {
        let mut s = hex_exec(n / 16);
        push_char(&mut s, hex_digit_char(n % 16));
        s
    }
}

fn hex_groups_exec(s: &Vec<u16>, from: usize, to: usize) -> (r: String)
    requires
        from <= to <= s.len(),
    ensures
        r@ == hex_groups(s@.subrange(from as int, to as int)),
{
    let mut r = String::new();
    let mut i: usize = from;
    while i < to
        invariant
            from <= i <= to <= s.len(),
            r@ == hex_groups(s@.subrange(from as int, i as int)),
        decreases to - i,
    {
        let ghost prev = s@.subrange(from as int, i as int);
        let ghost old_r = r@;
        let first = i == from;
        if !first {
            push_char(&mut r, ':');
        }
        let h = hex_exec(s[i]);
        r.append(h.as_str());
        i = i + 1;
        proof {
            let cur = s@.subrange(from as int, i as int);
            assert(cur.drop_last() =~= prev);
            assert(cur.last() == s@[i - 1]);
            if first {
                assert(prev.len() == 0);
                assert(old_r =~= Seq::<char>::empty());
                assert(r@ =~= hex(cur[0] as nat));
            } else {
                reveal_strlit(":");
                assert(r@ =~= old_r + ":"@ + hex(cur.last() as nat));
                assert(hex_groups(cur) == hex_groups(cur.drop_last()) + ":"@ + hex(cur.last() as nat));
            }
        }
    }
    r
}

fn segments_exec(bits: u128) -> (r: Vec<u16>)
    ensures
        r@ == segments(bits),
{
    let mut r: Vec<u16> = Vec::new();
    let mut i: usize = 0;
    while i < 8
        invariant
            i <= 8,
            r@.len() == i,
            forall|j: int| 0 <= j < i ==> r@[j] == segment(bits, j),
        decreases 8 - i,
    {
        let sh: u128 = ((7 - i) * 16) as u128;
        r.push(((bits >> sh) & 0xffff) as u16);
        i = i + 1;
    }
    assert(r@ =~= segments(bits));
    r
}

fn zero_run_exec(s: &Vec<u16>, i: usize) -> (r: usize)
    requires
        i <= s.len(),
    ensures
        r == zero_run(s@, i as int),
        r <= s.len() - i,
    decreases s.len() - i,
{
    if i < s.len() && s[i] == 0 {
        1 + zero_run_exec(s, i + 1)
    } else {
        0
    }
}

fn longest_zero_run_from_exec(s: &Vec<u16>, i: usize) -> (r: usize)
    requires
        i <= s.len(),
    ensures
        r == longest_zero_run_from(s@, i as int),
        r <= s.len(),
    decreases s.len() - i,
{
    if i < s.len() {
        let here = zero_run_exec(s, i);
        let rest = longest_zero_run_from_exec(s, i + 1);
        if here >= rest {
            here
        } else {
            rest
        }
    } else {
        0
    }
}

fn first_run_of_exec(s: &Vec<u16>, i: usize, len: usize) -> (r: usize)
    requires
        i <= s.len(),
    ensures
        r == first_run_of(s@, i as int, len as nat),
        i <= r <= s.len(),
    decreases s.len() - i,
{
    if i < s.len() {
        if zero_run_exec(s, i) == len {
            i
        } else {
            first_run_of_exec(s, i + 1, len)
        }
    } else {
        s.len()
    }
}

/// The text of an IPv6 address as `Ipv6Addr` displays it.
pub fn ipv6_to_string(bits: u128) -> (r: String)
    ensures
        r@ == ipv6_text(bits),
{
    let s = segments_exec(bits);
    if s[0] == 0 && s[1] == 0 && s[2] == 0 && s[3] == 0 && s[4] == 0 && s[5] == 0xffff {
        let v4 = ipv4_to_string((bits & 0xffff_ffff) as u32);
        let mut r = String::new();
        r.append("::ffff:");
        r.append(v4.as_str());
        return r;
    }
    let len = longest_zero_run_from_exec(&s, 0);
    if len > 1 {
        let start = first_run_of_exec(&s, 0, len);
        proof {
            lemma_longest_attained(s@, 0);
            let j = choose|j: int| 0 <= j < s@.len() && zero_run(s@, j) == len;
            lemma_first_run_found(s@, 0, len as nat, j);
            lemma_zero_run_fits(s@, start as int);
        }
        let mut r = hex_groups_exec(&s, 0, start);
        r.append("::");
        let t = hex_groups_exec(&s, start + len, 8);
        r.append(t.as_str());
        assert(s@.take(start as int) =~= s@.subrange(0, start as int));
        assert(s@.skip(start + len) =~= s@.subrange(start + len, 8));
        r
    } else {
        let r = hex_groups_exec(&s, 0, 8);
        assert(s@ =~= s@.subrange(0, 8));
        r
    }
}

proof fn lemma_zero_run_fits(s: Seq<u16>, i: int)
    requires
        0 <= i <= s.len(),
    ensures
        i + zero_run(s, i) <= s.len(),
    decreases s.len() - i,
{
    if i < s.len() && s[i] == 0 {
        lemma_zero_run_fits(s, i + 1);
    }
}

proof fn lemma_longest_attained(s: Seq<u16>, i: int)
    requires
        0 <= i < s.len(),
    ensures
        exists|j: int| i <= j < s.len() && zero_run(s, j) == longest_zero_run_from(s, i),
    decreases s.len() - i,
{
    if i + 1 < s.len() {
        lemma_longest_attained(s, i + 1);
        if zero_run(s, i) >= longest_zero_run_from(s, i + 1) {
            assert(zero_run(s, i) == longest_zero_run_from(s, i));
        } else {
            let j = choose|j: int| i + 1 <= j < s.len() && zero_run(s, j) == longest_zero_run_from(s, i + 1);
            assert(zero_run(s, j) == longest_zero_run_from(s, i));
        }
    } else {
        assert(longest_zero_run_from(s, i + 1) == 0);
        assert(zero_run(s, i) == longest_zero_run_from(s, i));
    }
}

proof fn lemma_first_run_found(s: Seq<u16>, i: int, len: nat, j: int)
    requires
        0 <= i <= j < s.len(),
        zero_run(s, j) == len,
    ensures
        i <= first_run_of(s, i, len) <= j,
        zero_run(s, first_run_of(s, i, len)) == len,
    decreases j - i,
{
    if zero_run(s, i) != len {
        lemma_first_run_found(s, i + 1, len, j);
    }
}

proof fn lemma_first_run_fits(s: Seq<u16>, i: int, len: nat)
    requires
        0 <= i <= s.len(),
        len > 0,
    ensures
        first_run_of(s, i, len) + len <= s.len() || first_run_of(s, i, len) == s.len(),
    decreases s.len() - i,
{
    if i < s.len() {
        lemma_zero_run_fits(s, i);
        if zero_run(s, i) != len {
            lemma_first_run_fits(s, i + 1, len);
        }
    }
}


/// The value of a hexadecimal digit, either case.
pub open spec fn hex_digit_value(c: char) -> Option<nat> {
    if '0' <= c && c <= '9' {
        Some((c as int - '0' as int) as nat)
    } else if 'a' <= c && c <= 'f' {
        Some((c as int - 'a' as int + 10) as nat)
    } else if 'A' <= c && c <= 'F' {
        Some((c as int - 'A' as int + 10) as nat)
    } else {
        None
    }
}

/// One to four hexadecimal digits.
pub open spec fn is_hex_group(t: Seq<char>) -> bool {
    1 <= t.len() <= 4 && forall|i: int| 0 <= i < t.len() ==> hex_digit_value(t[i]) is Some
}

/// The number that hexadecimal digits spell.
pub open spec fn hex_value(t: Seq<char>) -> nat
    decreases t.len(),
{
    if t.len() == 0 {
        0
    } else {
        hex_value(t.drop_last()) * 16 + hex_digit_value(t.last()).unwrap_or(0)
    }
}

/// Every piece is a hexadecimal group.
pub open spec fn all_hex_groups(p: Seq<Seq<char>>) -> bool {
    forall|i: int| 0 <= i < p.len() ==> is_hex_group(p[i])
}

/// The values of hexadecimal groups.
pub open spec fn hex_group_values(p: Seq<Seq<char>>) -> Seq<u16> {
    Seq::new(p.len(), |i: int| hex_value(p[i]) as u16)
}

/// The segments that a colon-separated run of groups spells; when
/// `allow_v4`, the last piece may be a dotted IPv4 address, which fills two
/// segments.
pub open spec fn ipv6_units(t: Seq<char>, allow_v4: bool) -> Option<Seq<u16>> {
    let p = split_char(t, ':');
    if all_hex_groups(p) {
        Some(hex_group_values(p))
    } else if allow_v4 && p.len() >= 1 && all_hex_groups(p.drop_last()) && ipv4_parse(p.last()) is Some {
        let a = ipv4_parse(p.last())->0;
        Some(hex_group_values(p.drop_last()) + seq![(a >> 16u32) as u16, (a & 0xffff) as u16])
    } else {
        None
    }
}

/// The address whose segments are `s`, most significant first.
pub open spec fn from_segments(s: Seq<u16>) -> u128
    decreases s.len(),
{
    if s.len() == 0 {
        0
    } else {
        ((from_segments(s.drop_last()) << 16u128) | (s.last() as u128)) as u128
    }
}

/// `n` zero segments.
pub open spec fn zero_segments(n: int) -> Seq<u16> {
    Seq::new(n as nat, |i: int| 0u16)
}

/// The address that an IPv6 text spells, in the grammar that
/// `str::parse::<Ipv6Addr>` accepts: eight groups of one to four hex digits
/// separated by colons, the last two of which may be a dotted IPv4 address;
/// or groups before and after one `::` that stands for at least one zero
/// segment, where only the part after `::` may end in a dotted IPv4 address.
pub open spec fn ipv6_parse(s: Seq<char>) -> Option<u128> {
    match find_sub(s, seq![':', ':']) {
        None => match ipv6_units(s, true) {
            Some(u) => if u.len() == 8 {
                Some(from_segments(u))
            } else {
                None
            },
            None => None,
        },
        Some(k) => {
            let head = if k == 0 {
                Some(Seq::<u16>::empty())
            } else {
                ipv6_units(s.take(k), false)
            };
            let rest = s.skip(k + 2);
            let tail = if rest.len() == 0 {
                Some(Seq::<u16>::empty())
            } else {
                ipv6_units(rest, true)
            };
            match (head, tail) {
                (Some(h), Some(t)) => if h.len() + t.len() <= 7 {
                    Some(from_segments(h + zero_segments(8 - h.len() - t.len()) + t))
                } else {
                    None
                },
                _ => None,
            }
        },
    }
}

fn hex_digit_value_exec(c: char) -> (r: Option<u16>)
    ensures
        match r {
            Some(d) => hex_digit_value(c) == Some(d as nat) && d < 16,
            None => hex_digit_value(c) is None,
        },
{
    if '0' <= c && c <= '9' {
        Some((c as u32 - '0' as u32) as u16)
    } else if 'a' <= c && c <= 'f' {
        Some((c as u32 - 'a' as u32 + 10) as u16)
    } else if 'A' <= c && c <= 'F' {
        Some((c as u32 - 'A' as u32 + 10) as u16)
    } else {
        None
    }
}

fn hex_group_exec(t: &Vec<char>) -> (r: Option<u16>)
    ensures
        match r {
            Some(v) => is_hex_group(t@) && hex_value(t@) == v as nat,
            None => !is_hex_group(t@),
        },
{
    if t.len() < 1 || t.len() > 4 {
        return None;
    }
    let mut acc: u16 = 0;
    let mut i: usize = 0;
    while i < t.len()
        invariant
            1 <= t.len() <= 4,
            i <= t.len(),
            forall|j: int| 0 <= j < i ==> hex_digit_value(t@[j]) is Some,
            acc as nat == hex_value(t@.take(i as int)),
            acc < pow16(i as nat),
        decreases t.len() - i,
    {
        match hex_digit_value_exec(t[i]) {
            Some(d) => {
                let ghost tk = t@.take(i + 1);
                assert(tk.drop_last() =~= t@.take(i as int));
                assert(tk.last() == t@[i as int]);
                proof {
                    assert(pow16((i + 1) as nat) == pow16(i as nat) * 16);
                    assert(pow16(i as nat) <= 4096) by {
                        lemma_pow16_bound(i as nat);
                    }
                    assert(acc * 16 + d < pow16((i + 1) as nat)) by (nonlinear_arith)
                        requires
                            acc < pow16(i as nat),
                            d < 16,
                            pow16((i + 1) as nat) == pow16(i as nat) * 16,
                    ;
                    assert(acc * 16 + d < 65536) by (nonlinear_arith)
                        requires
                            acc < pow16(i as nat),
                            d < 16,
                            pow16(i as nat) <= 4096,
                    ;
                }
                acc = acc * 16 + d;
                i = i + 1;
            },
            None => {
                return None;
            },
        }
    }
    assert(t@.take(t.len() as int) =~= t@);
    Some(acc)
}

/// `16^n`
pub open spec fn pow16(n: nat) -> nat
    decreases n,
{
    if n == 0 {
        1
    } else {
        16 * pow16((n - 1) as nat)
    }
}

proof fn lemma_pow16_bound(n: nat)
    requires
        n <= 3,
    ensures
        pow16(n) <= 4096,
{
    if n == 3 {
        assert(pow16(3) == 4096) by {
            reveal_with_fuel(pow16, 4);
        }
    } else if n == 2 {
        assert(pow16(2) == 256) by {
            reveal_with_fuel(pow16, 3);
        }
    } else if n == 1 {
        assert(pow16(1) == 16) by {
            reveal_with_fuel(pow16, 2);
        }
    }
}

fn ipv6_units_exec(t: &Vec<char>, allow_v4: bool) -> (r: Option<Vec<u16>>)
    ensures
        match r {
            Some(u) => ipv6_units(t@, allow_v4) == Some(u@),
            None => ipv6_units(t@, allow_v4) is None,
        },
{
    let p = split_char_exec(t, ':');
    let ghost ps = split_char(t@, ':');
    let mut vals: Vec<u16> = Vec::new();
    let mut i: usize = 0;
    let mut bad = false;
    while i < p.len() && !bad
        invariant
            views(p@) == ps,
            i <= p.len(),
            forall|j: int| 0 <= j < i ==> is_hex_group(ps[j]),
            vals@ =~= hex_group_values(ps.take(i as int)),
            bad ==> i < p.len() && !is_hex_group(ps[i as int]),
        decreases p.len() - i + (if bad { 0int } else { 1int }),
    {
        assert(p@[i as int]@ == ps[i as int]);
        match hex_group_exec(&p[i]) {
            Some(v) => {
                vals.push(v);
                i = i + 1;
                assert(vals@ =~= hex_group_values(ps.take(i as int)));
            },
            None => {
                bad = true;
            },
        }
    }
    if !bad {
        assert(ps.take(i as int) =~= ps);
        return Some(vals);
    }
    assert(!all_hex_groups(ps));
    if !allow_v4 || i + 1 != p.len() {
        proof {
            if allow_v4 && ps.len() >= 1 {
                assert(ps.drop_last()[i as int] == ps[i as int]);
            }
        }
        return None;
    }
    assert(ps.drop_last() =~= ps.take(i as int));
    assert(p@[i as int]@ == ps.last());
    match parse_ipv4_chars(&p[i]) {
        Some(a) => {
            vals.push((a >> 16u32) as u16);
            vals.push((a & 0xffff) as u16);
            Some(vals)
        },
        None => None,
    }
}

fn from_segments_exec(s: &Vec<u16>) -> (r: u128)
    ensures
        r == from_segments(s@),
{
    let mut acc: u128 = 0;
    let mut i: usize = 0;
    while i < s.len()
        invariant
            i <= s.len(),
            acc == from_segments(s@.take(i as int)),
        decreases s.len() - i,
    {
        let ghost tk = s@.take(i + 1);
        assert(tk.drop_last() =~= s@.take(i as int));
        acc = (acc << 16u128) | (s[i] as u128);
        i = i + 1;
    }
    assert(s@.take(s.len() as int) =~= s@);
    acc
}

/// Parses an IPv6 address.
pub fn parse_ipv6(s: &str) -> (r: Option<u128>)
    ensures
        r == ipv6_parse(s@),
{
    let v = chars_of(s);
    parse_ipv6_chars(&v)
}

/// Parses an IPv6 address given as characters.
pub fn parse_ipv6_chars(v: &Vec<char>) -> (r: Option<u128>)
    ensures
        r == ipv6_parse(v@),
{
    let mut dc: Vec<char> = Vec::new();
    dc.push(':');
    dc.push(':');
    assert(dc@ =~= seq![':', ':']);
    match find_sub_exec(v, &dc) {
        None => match ipv6_units_exec(v, true) {
            Some(u) => if u.len() == 8 {
                Some(from_segments_exec(&u))
            } else {
                None
            },
            None => None,
        },
        Some(k) => {
            assert(dc@.len() == 2);
            assert(k + 2 <= v.len());
            let head = if k == 0 {
                Some(Vec::new())
            } else {
                let h = crate::text::slice_vec(v, 0, k);
                assert(h@ =~= v@.take(k as int));
                ipv6_units_exec(&h, false)
            };
            let rest = crate::text::slice_vec(v, k + 2, v.len());
            assert(rest@ =~= v@.skip(k + 2));
            let tail = if rest.len() == 0 {
                Some(Vec::new())
            } else {
                ipv6_units_exec(&rest, true)
            };
            match (head, tail) {
                (Some(h), Some(t)) => {
                    if h.len() <= 7 && t.len() <= 7 - h.len() {
                        let mut all = h;
                        let zeros = 8 - all.len() - t.len();
                        let ghost hv = all@;
                        let mut z: usize = 0;
                        while z < zeros
                            invariant
                                z <= zeros,
                                all@ =~= hv + zero_segments(z as int),
                            decreases zeros - z,
                        {
                            all.push(0u16);
                            z = z + 1;
                        }
                        let mut j: usize = 0;
                        let ghost hz = all@;
                        while j < t.len()
                            invariant
                                j <= t.len(),
                                all@ =~= hz + t@.take(j as int),
                            decreases t.len() - j,
                        {
                            all.push(t[j]);
                            j = j + 1;
                        }
                        assert(t@.take(t.len() as int) =~= t@);
                        Some(from_segments_exec(&all))
                    } else {
                        None
                    }
                },
                _ => None,
            }
        },
    }
}


proof fn lemma_hex_char(d: nat)
    requires
        d < 16,
    ensures
        hex_digit_value(hex_char(d)) == Some(d),
        hex_char(d) != ':',
        hex_char(d) != '.',
{
}

proof fn lemma_hex_text(n: nat, k: nat)
    requires
        n < pow16(k),
    ensures
        1 <= hex(n).len() <= if k == 0 { 1 } else { k },
        forall|i: int| 0 <= i < hex(n).len() ==> hex_digit_value(#[trigger] hex(n)[i]) is Some,
        forall|i: int| 0 <= i < hex(n).len() ==> #[trigger] hex(n)[i] != ':',
        hex_value(hex(n)) == n,
    decreases n,
{
    if n < 16 {
        lemma_hex_char(n);
        let t = hex(n);
        assert(t.drop_last() =~= Seq::<char>::empty());
        assert(hex_value(Seq::<char>::empty()) == 0);
        assert(hex_value(t) == hex_value(t.drop_last()) * 16 + hex_digit_value(t.last()).unwrap_or(0));
        if k == 0 {
            assert(pow16(0) == 1);
        }
    } else {
        let q = n / 16;
        let r = n % 16;
        assert(k > 0) by {
            if k == 0 {
                assert(pow16(0) == 1);
            }
        }
        assert(pow16(k) == 16 * pow16((k - 1) as nat));
        assert(q < pow16((k - 1) as nat)) by (nonlinear_arith)
            requires
                q == n / 16,
                n < 16 * pow16((k - 1) as nat),
        {
        }
        lemma_hex_text(q, (k - 1) as nat);
        lemma_hex_char(r);
        let t = hex(n);
        assert(t == hex(q).push(hex_char(r)));
        assert(t.drop_last() =~= hex(q));
        assert(n == q * 16 + r) by (nonlinear_arith)
            requires
                q == n / 16,
                r == n % 16,
        {
        }
        assert(hex_value(t) == hex_value(t.drop_last()) * 16 + hex_digit_value(t.last()).unwrap_or(0));
        if k == 1 {
            assert(pow16(0) == 1);
            assert(q == 0) by (nonlinear_arith)
                requires
                    q < 1,
            {
            }
        }
        assert forall|i: int| 0 <= i < t.len() implies hex_digit_value(#[trigger] t[i]) is Some by {
            if i < t.len() - 1 {
                assert(t[i] == hex(q)[i]);
            }
        }
        assert forall|i: int| 0 <= i < t.len() implies #[trigger] t[i] != ':' by {
            if i < t.len() - 1 {
                assert(t[i] == hex(q)[i]);
            }
        }
    }
}

/// The colons of a text stand alone: it neither starts nor ends with one,
/// and no two are adjacent.
pub open spec fn single_colons(t: Seq<char>) -> bool {
    &&& t.len() > 0
    &&& t[0] != ':'
    &&& t.last() != ':'
    &&& forall|i: int| 0 <= i < t.len() - 1 && #[trigger] t[i] == ':' ==> t[i + 1] != ':'
}

/// The hexadecimal text of each segment.
pub open spec fn hex_texts(s: Seq<u16>) -> Seq<Seq<char>> {
    s.map_values(|x: u16| hex(x as nat))
}

proof fn lemma_first_colon(x: Seq<char>, i: int)
    requires
        0 <= i < x.len(),
        x[i] == ':',
    ensures
        exists|k: int| is_first_index(x, ':', k),
    decreases i,
{
    if forall|m: int| 0 <= m < i ==> x[m] != ':' {
        assert(is_first_index(x, ':', i));
    } else {
        let m = choose|m: int| 0 <= m < i && x[m] == ':';
        lemma_first_colon(x, m);
    }
}

proof fn lemma_split_back(x: Seq<char>, y: Seq<char>)
    requires
        forall|i: int| 0 <= i < y.len() ==> y[i] != ':',
    ensures
        split_char(x + seq![':'] + y, ':') == split_char(x, ':') + seq![y],
    decreases x.len(),
{
    lemma_split_char_none(y, ':');
    if exists|k: int| is_first_index(x, ':', k) {
        let k = choose|k: int| is_first_index(x, ':', k);
        let x1 = x.take(k);
        let x2 = x.skip(k + 1);
        assert(x =~= x1 + seq![':'] + x2);
        assert(x + seq![':'] + y =~= x1 + seq![':'] + (x2 + seq![':'] + y));
        lemma_split_char_concat(x1, ':', x2 + seq![':'] + y);
        lemma_split_char_concat(x1, ':', x2);
        lemma_split_back(x2, y);
        assert(split_char(x + seq![':'] + y, ':') =~= split_char(x, ':') + seq![y]);
    } else {
        assert forall|i: int| 0 <= i < x.len() implies x[i] != ':' by {
            if x[i] == ':' {
                lemma_first_colon(x, i);
            }
        }
        lemma_split_char_concat(x, ':', y);
        lemma_split_char_none(x, ':');
    }
}

proof fn lemma_hex_segment(x: u16)
    ensures
        1 <= hex(x as nat).len() <= 4,
        forall|i: int| 0 <= i < hex(x as nat).len() ==> hex_digit_value(#[trigger] hex(x as nat)[i]) is Some,
        forall|i: int| 0 <= i < hex(x as nat).len() ==> #[trigger] hex(x as nat)[i] != ':',
        hex_value(hex(x as nat)) == x as nat,
        is_hex_group(hex(x as nat)),
{
    assert(pow16(4) == 65536) by {
        reveal_with_fuel(pow16, 5);
    }
    lemma_hex_text(x as nat, 4);
}

proof fn lemma_hex_groups(s: Seq<u16>)
    requires
        s.len() >= 1,
    ensures
        split_char(hex_groups(s), ':') == hex_texts(s),
        single_colons(hex_groups(s)),
    decreases s.len(),
{
    if s.len() == 1 {
        lemma_hex_segment(s[0]);
        lemma_split_char_none(hex(s[0] as nat), ':');
        assert(hex_texts(s) =~= seq![hex(s[0] as nat)]);
    } else {
        let d = s.drop_last();
        lemma_hex_groups(d);
        lemma_hex_segment(s.last());
        let a = hex_groups(d);
        let h = hex(s.last() as nat);
        reveal_strlit(":");
        let t = hex_groups(s);
        assert(t == a + ":"@ + h);
        assert(t =~= a + seq![':'] + h);
        lemma_split_back(a, h);
        assert(hex_texts(s) =~= hex_texts(d) + seq![h]);
        assert forall|i: int| 0 <= i < t.len() - 1 && #[trigger] t[i] == ':' implies t[i + 1] != ':' by {
            if i < a.len() - 1 {
                assert(t[i] == a[i] && t[i + 1] == a[i + 1]);
            } else if i == a.len() - 1 {
                assert(t[i] == a.last());
            } else if i == a.len() {
                assert(t[i + 1] == h[0]);
            } else {
                assert(t[i] == h[i - a.len() - 1]);
            }
        }
        assert(t[0] == a[0]);
        assert(t.last() == h.last());
    }
}

proof fn lemma_no_double_colon(t: Seq<char>)
    requires
        single_colons(t),
    ensures
        find_sub(t, seq![':', ':']) is None,
{
    assert forall|k: int| !occurs_at(t, seq![':', ':'], k) by {
        if occurs_at(t, seq![':', ':'], k) {
            assert(t.subrange(k, k + 2)[0] == t[k]);
            assert(t.subrange(k, k + 2)[1] == t[k + 1]);
        }
    }
}

proof fn lemma_units_of_groups(s: Seq<u16>, allow_v4: bool)
    requires
        s.len() >= 1,
    ensures
        ipv6_units(hex_groups(s), allow_v4) == Some(s),
{
    lemma_hex_groups(s);
    let p = hex_texts(s);
    assert forall|i: int| 0 <= i < p.len() implies is_hex_group(p[i]) by {
        lemma_hex_segment(s[i]);
    }
    assert(hex_group_values(p) =~= s) by {
        assert forall|i: int| 0 <= i < s.len() implies hex_group_values(p)[i] == s[i] by {
            lemma_hex_segment(s[i]);
        }
    }
}

/// The segments of an address put together again give the address.
proof fn lemma_from_segments(bits: u128)
    ensures
        from_segments(segments(bits)) == bits,
{
    let s = segments(bits);
    let s0 = s[0];
    let s1 = s[1];
    let s2 = s[2];
    let s3 = s[3];
    let s4 = s[4];
    let s5 = s[5];
    let s6 = s[6];
    let s7 = s[7];
    assert(s.take(0) =~= Seq::<u16>::empty());
    assert(from_segments(s.take(0)) == 0);
    assert(s.take(1).drop_last() =~= s.take(0));
    assert(from_segments(s.take(1)) == ((0u128 << 16u128) | (s0 as u128)) as u128);
    assert(s.take(2).drop_last() =~= s.take(1));
    assert(s.take(3).drop_last() =~= s.take(2));
    assert(s.take(4).drop_last() =~= s.take(3));
    assert(s.take(5).drop_last() =~= s.take(4));
    assert(s.take(6).drop_last() =~= s.take(5));
    assert(s.take(7).drop_last() =~= s.take(6));
    assert(s.take(8).drop_last() =~= s.take(7));
    assert(s.take(8) =~= s);
    let f1 = ((0u128 << 16u128) | (s0 as u128)) as u128;
    let f2 = ((f1 << 16u128) | (s1 as u128)) as u128;
    let f3 = ((f2 << 16u128) | (s2 as u128)) as u128;
    let f4 = ((f3 << 16u128) | (s3 as u128)) as u128;
    let f5 = ((f4 << 16u128) | (s4 as u128)) as u128;
    let f6 = ((f5 << 16u128) | (s5 as u128)) as u128;
    let f7 = ((f6 << 16u128) | (s6 as u128)) as u128;
    let f8 = ((f7 << 16u128) | (s7 as u128)) as u128;
    assert(from_segments(s.take(2)) == f2);
    assert(from_segments(s.take(3)) == f3);
    assert(from_segments(s.take(4)) == f4);
    assert(from_segments(s.take(5)) == f5);
    assert(from_segments(s.take(6)) == f6);
    assert(from_segments(s.take(7)) == f7);
    assert(from_segments(s.take(8)) == f8);
    assert(s0 == ((bits >> 112u128) & 0xffff) as u16);
    assert(s1 == ((bits >> 96u128) & 0xffff) as u16);
    assert(s2 == ((bits >> 80u128) & 0xffff) as u16);
    assert(s3 == ((bits >> 64u128) & 0xffff) as u16);
    assert(s4 == ((bits >> 48u128) & 0xffff) as u16);
    assert(s5 == ((bits >> 32u128) & 0xffff) as u16);
    assert(s6 == ((bits >> 16u128) & 0xffff) as u16);
    assert(s7 == ((bits >> 0u128) & 0xffff) as u16);
    assert(f8 == bits) by (bit_vector)
        requires
            s0 == ((bits >> 112u128) & 0xffff) as u16,
            s1 == ((bits >> 96u128) & 0xffff) as u16,
            s2 == ((bits >> 80u128) & 0xffff) as u16,
            s3 == ((bits >> 64u128) & 0xffff) as u16,
            s4 == ((bits >> 48u128) & 0xffff) as u16,
            s5 == ((bits >> 32u128) & 0xffff) as u16,
            s6 == ((bits >> 16u128) & 0xffff) as u16,
            s7 == ((bits >> 0u128) & 0xffff) as u16,
            f1 == ((0u128 << 16u128) | (s0 as u128)) as u128,
            f2 == ((f1 << 16u128) | (s1 as u128)) as u128,
            f3 == ((f2 << 16u128) | (s2 as u128)) as u128,
            f4 == ((f3 << 16u128) | (s3 as u128)) as u128,
            f5 == ((f4 << 16u128) | (s4 as u128)) as u128,
            f6 == ((f5 << 16u128) | (s5 as u128)) as u128,
            f7 == ((f6 << 16u128) | (s6 as u128)) as u128,
            f8 == ((f7 << 16u128) | (s7 as u128)) as u128,
    ;
}

proof fn lemma_zero_run_zeros(s: Seq<u16>, i: int, m: int)
    requires
        0 <= m < zero_run(s, i),
    ensures
        0 <= i + m < s.len(),
        s[i + m] == 0,
    decreases m,
{
    if m > 0 {
        lemma_zero_run_zeros(s, i + 1, m - 1);
    }
}

/// The compressed text of an address with a run of `len` zero segments at
/// `start` reads back as the address.
proof fn lemma_compressed_parses_back(bits: u128, start: int, len: nat)
    requires
        len > 1,
        0 <= start,
        start + len <= 8,
        zero_run(segments(bits), start) == len,
    ensures
        ipv6_parse(hex_groups(segments(bits).take(start)) + "::"@ + hex_groups(segments(bits).skip(start + len)))
            == Some(bits),
{
    let s = segments(bits);
    let a = hex_groups(s.take(start));
    let b = hex_groups(s.skip(start + len));
    reveal_strlit("::");
    let t = a + "::"@ + b;
    assert(t =~= a + seq![':', ':'] + b);
    assert(s.take(0) =~= Seq::<u16>::empty());
    if start > 0 {
        lemma_hex_groups(s.take(start));
    }
    assert(occurs_at(t, seq![':', ':'], a.len() as int)) by {
        assert(t.subrange(a.len() as int, a.len() as int + 2) =~= seq![':', ':']);
    }
    assert forall|j: int| 0 <= j < a.len() implies !occurs_at(t, seq![':', ':'], j) by {
        if occurs_at(t, seq![':', ':'], j) {
            assert(t.subrange(j, j + 2)[0] == t[j]);
            assert(t.subrange(j, j + 2)[1] == t[j + 1]);
            assert(t[j] == a[j]);
            if j + 1 < a.len() {
                assert(t[j + 1] == a[j + 1]);
            } else {
                assert(a[j] == a.last());
            }
        }
    }
    lemma_find_sub_is(t, seq![':', ':'], a.len() as int);
    assert(t.take(a.len() as int) =~= a);
    assert(t.skip(a.len() as int + 2) =~= b);
    if start > 0 {
        lemma_units_of_groups(s.take(start), false);
    }
    if start + len < 8 {
        lemma_units_of_groups(s.skip(start + len), true);
    } else {
        assert(s.skip(start + len) =~= Seq::<u16>::empty());
    }
    let h = s.take(start);
    let tl = s.skip(start + len);
    assert(h + zero_segments(8 - h.len() - tl.len()) + tl =~= s) by {
        assert forall|m: int| start <= m < start + len implies s[m] == 0 by {
            lemma_zero_run_zeros(s, start, m - start);
        }
    }
    lemma_from_segments(bits);
}

/// The dotted-decimal text of an address holds only digits and dots, and
/// more than four characters.
pub proof fn lemma_ipv4_text_chars(a: u32)
    ensures
        forall|i: int| 0 <= i < ipv4_text(a).len() ==> is_digit(#[trigger] ipv4_text(a)[i]) || ipv4_text(a)[i] == '.',
        ipv4_text(a).len() > 4,
{
    let d0 = decimal((a as nat / 0x1000000) % 256);
    let d1 = decimal((a as nat / 0x10000) % 256);
    let d2 = decimal((a as nat / 0x100) % 256);
    let d3 = decimal(a as nat % 256);
    crate::text::lemma_decimal_digits((a as nat / 0x1000000) % 256);
    crate::text::lemma_decimal_digits((a as nat / 0x10000) % 256);
    crate::text::lemma_decimal_digits((a as nat / 0x100) % 256);
    crate::text::lemma_decimal_digits(a as nat % 256);
    reveal_strlit(".");
    let t = ipv4_text(a);
    assert(t =~= d0 + seq!['.'] + d1 + seq!['.'] + d2 + seq!['.'] + d3);
    assert forall|i: int| 0 <= i < t.len() implies is_digit(#[trigger] t[i]) || t[i] == '.' by {
        let n0 = d0.len() as int;
        let n1 = n0 + 1 + d1.len();
        let n2 = n1 + 1 + d2.len();
        if i < n0 {
            assert(t[i] == d0[i]);
        } else if i == n0 {
        } else if i < n1 {
            assert(t[i] == d1[i - n0 - 1]);
        } else if i == n1 {
        } else if i < n2 {
            assert(t[i] == d2[i - n1 - 1]);
        } else if i == n2 {
        } else {
            assert(t[i] == d3[i - n2 - 1]);
        }
    }
}

proof fn lemma_ipv4_text_no_colon(a: u32)
    ensures
        forall|i: int| 0 <= i < ipv4_text(a).len() ==> #[trigger] ipv4_text(a)[i] != ':',
        ipv4_text(a).len() > 4,
{
    lemma_ipv4_text_chars(a);
    assert forall|i: int| 0 <= i < ipv4_text(a).len() implies #[trigger] ipv4_text(a)[i] != ':' by {
        assert(is_digit(ipv4_text(a)[i]) || ipv4_text(a)[i] == '.');
    }
}

proof fn lemma_ffff_group()
    ensures
        is_hex_group(seq!['f', 'f', 'f', 'f']),
        hex_value(seq!['f', 'f', 'f', 'f']) == 0xffff,
{
    let ffff = seq!['f', 'f', 'f', 'f'];
    assert forall|i: int| 0 <= i < ffff.len() implies hex_digit_value(ffff[i]) is Some by {
        assert(ffff[i] == 'f');
    }
    assert(ffff.drop_last() =~= seq!['f', 'f', 'f']);
    assert(seq!['f', 'f', 'f'].drop_last() =~= seq!['f', 'f']);
    assert(seq!['f', 'f'].drop_last() =~= seq!['f']);
    assert(seq!['f'].drop_last() =~= Seq::<char>::empty());
    assert(hex_value(Seq::<char>::empty()) == 0);
    assert(hex_value(seq!['f']) == 15);
    assert(hex_value(seq!['f', 'f']) == 255);
    assert(hex_value(seq!['f', 'f', 'f']) == 4095);
}

proof fn lemma_mapped_units(low: u32)
    ensures
        ipv6_units(seq!['f', 'f', 'f', 'f', ':'] + ipv4_text(low), true) == Some(
            seq![0xffffu16, (low >> 16u32) as u16, (low & 0xffff) as u16],
        ),
{
    let ffff = seq!['f', 'f', 'f', 'f'];
    let v4 = ipv4_text(low);
    let rest = seq!['f', 'f', 'f', 'f', ':'] + v4;
    assert(rest =~= ffff + seq![':'] + v4);
    lemma_ipv4_text_no_colon(low);
    lemma_split_char_concat(ffff, ':', v4);
    lemma_split_char_none(v4, ':');
    let p = split_char(rest, ':');
    assert(p =~= seq![ffff, v4]);
    assert(!all_hex_groups(p)) by {
        assert(p[1] == v4);
        assert(!is_hex_group(v4));
    }
    lemma_ffff_group();
    assert(p.drop_last() =~= seq![ffff]);
    assert(all_hex_groups(p.drop_last()));
    crate::wg::law_ipv4_text_parses_back(low);
    assert(hex_group_values(p.drop_last()) =~= seq![0xffffu16]);
}

/// The text of an IPv4-mapped address reads back as the address.
proof fn lemma_mapped_parses_back(bits: u128)
    requires
        is_ipv4_mapped(bits),
    ensures
        ipv6_parse("::ffff:"@ + ipv4_text((bits & 0xffff_ffff) as u32)) == Some(bits),
{
    let low = (bits & 0xffff_ffff) as u32;
    let v4 = ipv4_text(low);
    reveal_strlit("::ffff:");
    let t = "::ffff:"@ + v4;
    let rest = seq!['f', 'f', 'f', 'f', ':'] + v4;
    assert(t =~= seq![':', ':'] + rest);
    assert(occurs_at(t, seq![':', ':'], 0)) by {
        assert(t.subrange(0, 2) =~= seq![':', ':']);
    }
    lemma_find_sub_is(t, seq![':', ':'], 0);
    assert(t.skip(2) =~= rest);
    lemma_mapped_units(low);
    let hi = (low >> 16u32) as u16;
    let lo = (low & 0xffff) as u16;
    let s = segments(bits);
    assert(hi == ((bits >> 16u128) & 0xffff) as u16 && lo == ((bits >> 0u128) & 0xffff) as u16) by (bit_vector)
        requires
            low == (bits & 0xffff_ffff) as u32,
            hi == (low >> 16u32) as u16,
            lo == (low & 0xffff) as u16,
    ;
    assert(s[6] == ((bits >> 16u128) & 0xffff) as u16);
    assert(s[7] == ((bits >> 0u128) & 0xffff) as u16);
    assert(Seq::<u16>::empty() + zero_segments(5) + seq![0xffffu16, hi, lo] =~= s);
    lemma_from_segments(bits);
}

/// An IPv6 address's text, as `ipv6_to_string` writes it, reads back as
/// the same address.
pub proof fn law_ipv6_text_parses_back(bits: u128)
    ensures
        ipv6_parse(ipv6_text(bits)) == Some(bits),
{
    let s = segments(bits);
    if is_ipv4_mapped(bits) {
        lemma_mapped_parses_back(bits);
    } else {
        let len = longest_zero_run_from(s, 0);
        if len > 1 {
            lemma_longest_attained(s, 0);
            let j = choose|j: int| 0 <= j < s.len() && zero_run(s, j) == len;
            lemma_first_run_found(s, 0, len, j);
            let start = first_run_of(s, 0, len);
            lemma_zero_run_fits(s, start);
            lemma_compressed_parses_back(bits, start, len);
        } else {
            lemma_hex_groups(s);
            lemma_no_double_colon(hex_groups(s));
            lemma_units_of_groups(s, true);
            lemma_from_segments(bits);
        }
    }
}

/// A character of an address text: a hexadecimal digit, a colon or a dot.
pub open spec fn is_address_char(c: char) -> bool {
    hex_digit_value(c) is Some || c == ':' || c == '.'
}

proof fn lemma_hex_groups_chars(s: Seq<u16>)
    ensures
        forall|i: int| 0 <= i < hex_groups(s).len() ==> is_address_char(#[trigger] hex_groups(s)[i]),
        forall|i: int| 0 <= i < hex_groups(s).len() ==> #[trigger] hex_groups(s)[i] != '.',
    decreases s.len(),
{
    if s.len() == 1 {
        lemma_hex_segment(s[0]);
        assert forall|i: int| 0 <= i < hex_groups(s).len() implies #[trigger] hex_groups(s)[i] != '.' by {
            lemma_hex_char_not_dot(hex_groups(s)[i]);
        }
    } else if s.len() > 1 {
        let d = s.drop_last();
        lemma_hex_groups_chars(d);
        lemma_hex_segment(s.last());
        let a = hex_groups(d);
        let h = hex(s.last() as nat);
        reveal_strlit(":");
        let t = hex_groups(s);
        assert(t =~= a + seq![':'] + h);
        assert forall|i: int| 0 <= i < t.len() implies is_address_char(#[trigger] t[i]) && t[i] != '.' by {
            if i < a.len() {
                assert(t[i] == a[i]);
            } else if i > a.len() {
                assert(t[i] == h[i - a.len() - 1]);
                lemma_hex_char_not_dot(h[i - a.len() - 1]);
            }
        }
    } else {
        assert(hex_groups(s).len() == 0);
    }
}

proof fn lemma_hex_char_not_dot(c: char)
    requires
        hex_digit_value(c) is Some,
    ensures
        c != '.',
{
}

/// The text of an IPv6 address holds only hexadecimal digits, colons and
/// dots; dots only in an IPv4-mapped address, whose text starts with a
/// colon.
pub proof fn lemma_ipv6_text_chars(bits: u128)
    ensures
        forall|i: int| 0 <= i < ipv6_text(bits).len() ==> is_address_char(#[trigger] ipv6_text(bits)[i]),
        !is_ipv4_mapped(bits) ==> forall|i: int| 0 <= i < ipv6_text(bits).len() ==> #[trigger] ipv6_text(bits)[i]
            != '.',
        is_ipv4_mapped(bits) ==> ipv6_text(bits).len() > 0 && ipv6_text(bits)[0] == ':',
{
    let s = segments(bits);
    let t = ipv6_text(bits);
    if is_ipv4_mapped(bits) {
        let low = (bits & 0xffff_ffff) as u32;
        lemma_ipv4_text_chars(low);
        reveal_strlit("::ffff:");
        let v4 = ipv4_text(low);
        assert(t =~= seq![':', ':', 'f', 'f', 'f', 'f', ':'] + v4);
        assert forall|i: int| 0 <= i < t.len() implies is_address_char(#[trigger] t[i]) by {
            if i >= 7 {
                assert(t[i] == v4[i - 7]);
                assert(is_digit(v4[i - 7]) || v4[i - 7] == '.');
            }
        }
    } else {
        let len = longest_zero_run_from(s, 0);
        if len > 1 {
            let start = first_run_of(s, 0, len);
            let a = hex_groups(s.take(start));
            let b = hex_groups(s.skip(start + len));
            lemma_hex_groups_chars(s.take(start));
            lemma_hex_groups_chars(s.skip(start + len));
            reveal_strlit("::");
            assert(t =~= a + seq![':', ':'] + b);
            assert forall|i: int| 0 <= i < t.len() implies is_address_char(#[trigger] t[i]) && t[i] != '.' by {
                if i < a.len() {
                    assert(t[i] == a[i]);
                } else if i >= a.len() + 2 {
                    assert(t[i] == b[i - a.len() - 2]);
                }
            }
        } else {
            lemma_hex_groups_chars(s);
        }
    }
}
} // verus!
