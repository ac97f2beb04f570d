use vstd::prelude::*;

use crate::text::{
    chars_of, is_digit, digit_val, lemma_digits_val_extend, spec_digits_val, split_chars,
    split_on,
};

verus! {

/// An IP address as the report names message sources: four octets for
/// version 4, eight 16-bit groups for version 6.
#[derive(Clone, Copy, Debug, PartialEq, Eq, Structural)]
pub enum IpAddress {
    V4(u8, u8, u8, u8),
    V6(u16, u16, u16, u16, u16, u16, u16, u16),
}

pub open spec fn pow_of(base: int, n: nat) -> int
    decreases n,
{
    if n == 0 {
        1
    } else {
        base * pow_of(base, (n - 1) as nat)
    }
}

/// One dotted-quad octet: one to three decimal digits, no leading
/// zero, value at most 255.
pub open spec fn spec_octet(g: Seq<char>) -> Option<u8> {
    if 1 <= g.len() && g.len() <= 3 && (g.len() > 1 ==> g[0] != '0') {
        match spec_digits_val(g) {
            Option::None => Option::None,
            Option::Some(v) => if v <= 255 {
                Some(v as u8)
            } else {
                Option::None
            },
        }
    } else {
        Option::None
    }
}

/// A dotted-quad address: exactly four octets separated by dots.
pub open spec fn spec_parse_ipv4(s: Seq<char>) -> Option<IpAddress> {
    let gs = split_on(s, '.');
    if gs.len() == 4 {
        match (spec_octet(gs[0]), spec_octet(gs[1]), spec_octet(gs[2]), spec_octet(gs[3])) {
            (Some(a), Some(b), Some(c), Some(d)) => Some(IpAddress::V4(a, b, c, d)),
            _ => Option::None,
        }
    } else {
        Option::None
    }
}

pub open spec fn is_hex_digit(c: char) -> bool {
    is_digit(c) || (97 <= c as u32 && c as u32 <= 102) || (65 <= c as u32 && c as u32 <= 70)
}

pub open spec fn hex_digit_val(c: char) -> int {
    if is_digit(c) {
        digit_val(c)
    } else if 97 <= c as u32 && c as u32 <= 102 {
        c as u32 - 87
    } else {
        c as u32 - 55
    }
}

/// The numeric value of a sequence of hexadecimal digits; `None` if
/// any character is not one. The empty sequence counts as zero.
pub open spec fn spec_hex_val(s: Seq<char>) -> Option<int>
    decreases s.len(),
{
    if s.len() == 0 {
        Some(0)
    } else {
        match spec_hex_val(s.drop_last()) {
            Option::None => Option::None,
            Option::Some(v) => if is_hex_digit(s.last()) {
                Some(v * 16 + hex_digit_val(s.last()))
            } else {
                Option::None
            },
        }
    }
}

pub proof fn lemma_hex_val_bound(s: Seq<char>)
    ensures
        match spec_hex_val(s) {
            Option::None => true,
            Option::Some(v) => 0 <= v < pow_of(16, s.len()),
        },
    decreases s.len(),
{
    if s.len() > 0 {
        lemma_hex_val_bound(s.drop_last());
    }
}

pub proof fn lemma_hex_val_extend(s: Seq<char>, j: int)
    requires
        0 <= j <= s.len(),
    ensures
        spec_hex_val(s.take(j)) is None ==> spec_hex_val(s) is None,
    decreases s.len() - j,
{
    if j < s.len() {
        assert(s.take(j + 1).drop_last() =~= s.take(j));
        lemma_hex_val_extend(s, j + 1);
    } else {
        assert(s.take(j) =~= s);
    }
}

/// One colon-separated group: one to four hexadecimal digits.
pub open spec fn spec_hex_group(g: Seq<char>) -> Option<u16> {
    if 1 <= g.len() && g.len() <= 4 {
        match spec_hex_val(g) {
            Option::None => Option::None,
            Option::Some(v) => if 0 <= v && v < 65536 {
                Some(v as u16)
            } else {
                Option::None
            },
        }
    } else {
        Option::None
    }
}

/// The values of a run of purely hexadecimal groups.
pub open spec fn spec_hex_groups(gs: Seq<Seq<char>>) -> Option<Seq<u16>>
    decreases gs.len(),
{
    if gs.len() == 0 {
        Some(Seq::<u16>::empty())
    } else {
        match (spec_hex_groups(gs.drop_last()), spec_hex_group(gs.last())) {
            (Some(p), Some(v)) => Some(p.push(v)),
            _ => Option::None,
        }
    }
}

pub open spec fn has_dot(g: Seq<char>) -> bool {
    exists|i: int| 0 <= i < g.len() && g[i] == '.'
}

/// The values of the groups after a `::`, where the final group may be
/// an embedded dotted-quad standing for two 16-bit groups.
pub open spec fn spec_tail_groups(gs: Seq<Seq<char>>) -> Option<Seq<u16>> {
    if gs.len() == 0 {
        Some(Seq::<u16>::empty())
    } else if has_dot(gs.last()) {
        match (spec_hex_groups(gs.drop_last()), spec_parse_ipv4(gs.last())) {
            (Some(p), Some(IpAddress::V4(a, b, c, d))) => Some(
                p.push((a as u16 * 256 + b as u16) as u16).push((c as u16 * 256 + d as u16) as u16),
            ),
            _ => Option::None,
        }
    } else {
        spec_hex_groups(gs)
    }
}

/// Joins the groups before and after a `::` (or all groups, when there
/// is none) into the eight 16-bit pieces of an address.
pub open spec fn spec_ipv6_pieces(head: Seq<Seq<char>>, tail: Seq<Seq<char>>, compressed: bool) -> Option<
    Seq<u16>,
> {
    match (spec_hex_groups(head), spec_tail_groups(tail)) {
        (Some(h), Some(t)) => {
            let total = h.len() + t.len();
            if compressed {
                if total <= 7 {
                    Some(h + Seq::new((8 - total) as nat, |i| 0u16) + t)
                } else {
                    Option::None
                }
            } else {
                if total == 8 {
                    Some(h + t)
                } else {
                    Option::None
                }
            }
        },
        _ => Option::None,
    }
}

/// A grouped address: eight hexadecimal groups, or fewer around one
/// `::`, with an optional embedded dotted-quad at the end.
pub open spec fn spec_parse_ipv6(s: Seq<char>) -> Option<IpAddress> {
    let gs = split_on(s, ':');
    let n = gs.len() as int;
    let pieces = if n == 3 && gs[0].len() == 0 && gs[1].len() == 0 && gs[2].len() == 0 {
        Some(Seq::new(8, |i: int| 0u16))
    } else if n >= 3 && gs[0].len() == 0 && gs[1].len() == 0 {
        spec_ipv6_pieces(Seq::<Seq<char>>::empty(), gs.skip(2), true)
    } else if n >= 3 && gs[n - 1].len() == 0 && gs[n - 2].len() == 0 {
        spec_ipv6_pieces(gs.take(n - 2), Seq::<Seq<char>>::empty(), true)
    } else if exists|k: int| 1 <= k < n - 1 && gs[k].len() == 0 {
        let k = choose|k: int| 1 <= k < n - 1 && gs[k].len() == 0;
        spec_ipv6_pieces(gs.take(k), gs.skip(k + 1), true)
    } else {
        spec_ipv6_pieces(Seq::<Seq<char>>::empty(), gs, false)
    };
    match pieces {
        Option::None => Option::None,
        Option::Some(p) => if p.len() == 8 {
            Some(IpAddress::V6(p[0], p[1], p[2], p[3], p[4], p[5], p[6], p[7]))
        } else {
            Option::None
        },
    }
}

/// What a string denotes as an IP address: a dotted quad if it is one,
/// else a grouped address if it is one.
pub open spec fn spec_parse_ip(s: Seq<char>) -> Option<IpAddress> {
    match spec_parse_ipv4(s) {
        Option::Some(a) => Some(a),
        Option::None => spec_parse_ipv6(s),
    }
}

fn parse_octet(g: &Vec<char>) -> (r: Option<u8>)
    ensures
        r == spec_octet(g@),
{
    if g.len() < 1 || g.len() > 3 {
        return None;
    }
    if g.len() > 1 && g[0] == '0' {
        return None;
    }
    let mut acc: u32 = 0;
    let mut i: usize = 0;
    proof {
        assert(g@.take(0) =~= Seq::<char>::empty());
        assert(pow_of(10, 0) == 1);
        assert(pow_of(10, 1) == 10);
        assert(pow_of(10, 2) == 100);
        assert(pow_of(10, 3) == 1000);
    }
    while i < g.len()
        invariant
            i <= g@.len() <= 3,
            spec_digits_val(g@.take(i as int)) == Some(acc as int),
            acc < pow_of(10, i as nat),
            pow_of(10, 0) == 1 && pow_of(10, 1) == 10 && pow_of(10, 2) == 100 && pow_of(10, 3)
                == 1000,
        decreases g@.len() - i,
    {
        let c = g[i];
        let u = c as u32;
        proof {
            assert(g@.take(i + 1).drop_last() =~= g@.take(i as int));
            assert(g@.take(i + 1).last() == g@[i as int]);
        }
        if !(48 <= u && u <= 57) {
            proof {
                lemma_digits_val_extend(g@, i + 1);
            }
            return None;
        }
        acc = acc * 10 + (u - 48);
        i = i + 1;
    }
    proof {
        assert(g@.take(g@.len() as int) =~= g@);
    }
    if acc <= 255 {
        Some(acc as u8)
    } else {
        None
    }
}

fn parse_hex_group(g: &Vec<char>) -> (r: Option<u16>)
    ensures
        r == spec_hex_group(g@),
{
    if g.len() < 1 || g.len() > 4 {
        return None;
    }
    let mut acc: u32 = 0;
    let mut i: usize = 0;
    proof {
        assert(g@.take(0) =~= Seq::<char>::empty());
        assert(pow_of(16, 0) == 1);
        assert(pow_of(16, 1) == 16);
        assert(pow_of(16, 2) == 256);
        assert(pow_of(16, 3) == 4096);
        assert(pow_of(16, 4) == 65536);
    }
    while i < g.len()
        invariant
            i <= g@.len() <= 4,
            spec_hex_val(g@.take(i as int)) == Some(acc as int),
            acc < pow_of(16, i as nat),
            pow_of(16, 0) == 1 && pow_of(16, 1) == 16 && pow_of(16, 2) == 256 && pow_of(16, 3)
                == 4096 && pow_of(16, 4) == 65536,
        decreases g@.len() - i,
    {
        let c = g[i];
        let u = c as u32;
        proof {
            assert(g@.take(i + 1).drop_last() =~= g@.take(i as int));
            assert(g@.take(i + 1).last() == g@[i as int]);
        }
        let d: u32 = if 48 <= u && u <= 57 {
            u - 48
        } else if 97 <= u && u <= 102 {
            u - 87
        } else if 65 <= u && u <= 70 {
            u - 55
        } else {
            proof {
                lemma_hex_val_extend(g@, i + 1);
            }
            return None;
        };
        acc = acc * 16 + d;
        i = i + 1;
    }
    proof {
        assert(g@.take(g@.len() as int) =~= g@);
        lemma_hex_val_bound(g@);
    }
    Some(acc as u16)
}

/// Parses a vector of characters as a dotted-quad address.
fn parse_ipv4_chars(v: &Vec<char>) -> (r: Option<IpAddress>)
    ensures
        r == spec_parse_ipv4(v@),
{
    let gs = split_chars(v, '.');
    let ghost g = split_on(v@, '.');
    if gs.len() != 4 {
        return None;
    }
    proof {
        assert(gs@[0]@ == g[0] && gs@[1]@ == g[1] && gs@[2]@ == g[2] && gs@[3]@ == g[3]);
    }
    let a = parse_octet(&gs[0]);
    let b = parse_octet(&gs[1]);
    let c = parse_octet(&gs[2]);
    let d = parse_octet(&gs[3]);
    match (a, b, c, d) {
        (Some(a), Some(b), Some(c), Some(d)) => Some(IpAddress::V4(a, b, c, d)),
        _ => None,
    }
}

proof fn lemma_hex_groups_empty_item(gs: Seq<Seq<char>>, j: int)
    requires
        0 <= j < gs.len(),
        gs[j].len() == 0,
    ensures
        spec_hex_groups(gs) is None,
    decreases gs.len(),
{
    if j == gs.len() - 1 {
        assert(spec_hex_group(gs.last()) is None);
    } else {
        assert(gs.drop_last()[j] == gs[j]);
        lemma_hex_groups_empty_item(gs.drop_last(), j);
    }
}

proof fn lemma_tail_groups_empty_item(gs: Seq<Seq<char>>, j: int)
    requires
        0 <= j < gs.len(),
        gs[j].len() == 0,
    ensures
        spec_tail_groups(gs) is None,
{
    if has_dot(gs.last()) {
        if j == gs.len() - 1 {
            assert(false);
        } else {
            lemma_hex_groups_empty_item(gs.drop_last(), j);
        }
    } else {
        lemma_hex_groups_empty_item(gs, j);
    }
}

fn group_has_dot(g: &Vec<char>) -> (r: bool)
    ensures
        r == has_dot(g@),
{
    let mut i: usize = 0;
    while i < g.len()
        invariant
            i <= g@.len(),
            forall|j: int| 0 <= j < i ==> g@[j] != '.',
        decreases g@.len() - i,
    {
        if g[i] == '.' {
            return true;
        }
        i = i + 1;
    }
    false
}

/// The values of the hexadecimal groups `gs[from..to]`.
fn hex_groups_range(gs: &Vec<Vec<char>>, from: usize, to: usize) -> (r: Option<Vec<u16>>)
    requires
        from <= to <= gs@.len(),
    ensures
        match r {
            Option::Some(h) => spec_hex_groups(gs.deep_view().subrange(from as int, to as int))
                == Some(h@),
            Option::None => spec_hex_groups(gs.deep_view().subrange(from as int, to as int))
                is None,
        },
{
    let ghost whole = gs.deep_view().subrange(from as int, to as int);
    let mut out: Vec<u16> = Vec::new();
    let mut i: usize = from;
    proof {
        assert(gs.deep_view().subrange(from as int, from as int) =~= Seq::<Seq<char>>::empty());
    }
    while i < to
        invariant
            from <= i <= to <= gs@.len(),
            spec_hex_groups(gs.deep_view().subrange(from as int, i as int)) == Some(out@),
        decreases to - i,
    {
        proof {
            assert(gs.deep_view().subrange(from as int, i + 1).drop_last() =~= gs.deep_view()
                .subrange(from as int, i as int));
            assert(gs.deep_view().subrange(from as int, i + 1).last() == gs.deep_view()[i as int]);
            assert(gs.deep_view()[i as int] == gs@[i as int]@);
        }
        match parse_hex_group(&gs[i]) {
            Option::Some(v) => {
                out.push(v);
            },
            Option::None => {
                proof {
                    lemma_hex_groups_extend(gs.deep_view(), from as int, i + 1, to as int);
                }
                return None;
            },
        }
        i = i + 1;
    }
    Some(out)
}

proof fn lemma_hex_groups_extend(gs: Seq<Seq<char>>, from: int, j: int, to: int)
    requires
        0 <= from <= j <= to <= gs.len(),
        spec_hex_groups(gs.subrange(from, j)) is None,
    ensures
        spec_hex_groups(gs.subrange(from, to)) is None,
    decreases to - j,
{
    if j < to {
        assert(gs.subrange(from, j + 1).drop_last() =~= gs.subrange(from, j));
        lemma_hex_groups_extend(gs, from, j + 1, to);
    } else {
        assert(gs.subrange(from, j) =~= gs.subrange(from, to));
    }
}

/// The values of the groups `gs[from..to]` after a `::`, the last of
/// which may be an embedded dotted-quad.
fn tail_groups_range(gs: &Vec<Vec<char>>, from: usize, to: usize) -> (r: Option<Vec<u16>>)
    requires
        from <= to <= gs@.len(),
    ensures
        match r {
            Option::Some(h) => spec_tail_groups(gs.deep_view().subrange(from as int, to as int))
                == Some(h@),
            Option::None => spec_tail_groups(gs.deep_view().subrange(from as int, to as int))
                is None,
        },
{
    let ghost whole = gs.deep_view().subrange(from as int, to as int);
    if from == to {
        proof {
            assert(whole =~= Seq::<Seq<char>>::empty());
        }
        return Some(Vec::new());
    }
    proof {
        assert(whole.last() == gs.deep_view()[to - 1]);
        assert(whole.drop_last() =~= gs.deep_view().subrange(from as int, to - 1));
    }
    proof {
        assert(gs.deep_view()[to - 1] == gs@[to - 1]@);
    }
    if group_has_dot(&gs[to - 1]) {
        let mut head = match hex_groups_range(gs, from, to - 1) {
            Option::Some(h) => h,
            Option::None => {
                return None;
            },
        };
        let ghost hv = head@;
        match parse_ipv4_chars(&gs[to - 1]) {
            Option::Some(IpAddress::V4(a, b, c, d)) => {
                head.push((a as u16) * 256 + (b as u16));
                head.push((c as u16) * 256 + (d as u16));
                proof {
                    assert(head@ =~= hv.push((a as u16 * 256 + b as u16) as u16).push(
                        (c as u16 * 256 + d as u16) as u16,
                    ));
                }
                Some(head)
            },
            _ => None,
        }
    } else {
        hex_groups_range(gs, from, to)
    }
}

/// Builds the eight pieces from the groups before and after a `::`
/// (`head_to` and `tail_from` bound them), or from all groups when the
/// address has no `::`.
fn ipv6_pieces(gs: &Vec<Vec<char>>, head_to: usize, tail_from: usize, compressed: bool) -> (r:
    Option<Vec<u16>>)
    requires
        head_to <= gs@.len(),
        tail_from <= gs@.len(),
    ensures
        match r {
            Option::Some(p) => spec_ipv6_pieces(
                gs.deep_view().subrange(0, head_to as int),
                gs.deep_view().subrange(tail_from as int, gs@.len() as int),
                compressed,
            ) == Some(p@),
            Option::None => spec_ipv6_pieces(
                gs.deep_view().subrange(0, head_to as int),
                gs.deep_view().subrange(tail_from as int, gs@.len() as int),
                compressed,
            ) is None,
        },
{
    let h = match hex_groups_range(gs, 0, head_to) {
        Option::Some(h) => h,
        Option::None => {
            return None;
        },
    };
    let t = match tail_groups_range(gs, tail_from, gs.len()) {
        Option::Some(t) => t,
        Option::None => {
            return None;
        },
    };
    if h.len() > 8 || t.len() > 8 {
        return None;
    }
    let total = h.len() + t.len();
    if compressed {
        if total > 7 {
            return None;
        }
    } else {
        if total != 8 {
            return None;
        }
    }
    let mut out = h;
    let ghost hv = out@;
    let fill: usize = 8 - total;
    let mut k: usize = 0;
    while k < fill
        invariant
            k <= fill,
            out@ =~= hv + Seq::new(k as nat, |i: int| 0u16),
        decreases fill - k,
    {
        out.push(0u16);
        proof {
            assert(out@ =~= hv + Seq::new((k + 1) as nat, |i: int| 0u16));
        }
        k = k + 1;
    }
    let mut j: usize = 0;
    let ghost mid = out@;
    while j < t.len()
        invariant
            j <= t@.len(),
            out@ =~= mid + t@.take(j as int),
        decreases t@.len() - j,
    {
        out.push(t[j]);
        proof {
            assert(out@ =~= mid + t@.take(j + 1));
        }
        j = j + 1;
    }
    proof {
        assert(t@.take(t@.len() as int) =~= t@);
        if compressed {
            assert(out@ =~= hv + Seq::new((8 - (hv.len() + t@.len())) as nat, |i: int| 0u16) + t@);
        } else {
            assert(Seq::new(0, |i: int| 0u16) =~= Seq::<u16>::empty());
            assert(out@ =~= hv + t@);
        }
    }
    Some(out)
}

/// Parses a vector of characters as a grouped address.
fn parse_ipv6_chars(v: &Vec<char>) -> (r: Option<IpAddress>)
    ensures
        r == spec_parse_ipv6(v@),
{
    let gs = split_chars(v, ':');
    let ghost g = split_on(v@, ':');
    let n = gs.len();
    proof {
        crate::text::lemma_split_on_nonempty(v@, ':');
        assert(g.len() == n);
        assert(forall|i: int| 0 <= i < n ==> g[i] == gs@[i]@);
    }
    let pieces: Option<Vec<u16>> = if n == 3 && gs[0].len() == 0 && gs[1].len() == 0 && gs[2].len()
        == 0 {
        let zeros = vec![0u16, 0u16, 0u16, 0u16, 0u16, 0u16, 0u16, 0u16];
        proof {
            assert(zeros@ =~= Seq::new(8, |i: int| 0u16));
        }
        Some(zeros)
    } else if n >= 3 && gs[0].len() == 0 && gs[1].len() == 0 {
        proof {
            assert(gs.deep_view().subrange(0, 0) =~= Seq::<Seq<char>>::empty());
            assert(gs.deep_view().subrange(2, n as int) =~= g.skip(2));
        }
        ipv6_pieces(&gs, 0, 2, true)
    } else if n >= 3 && gs[n - 1].len() == 0 && gs[n - 2].len() == 0 {
        proof {
            assert(gs.deep_view().subrange(0, n - 2) =~= g.take(n - 2));
            assert(gs.deep_view().subrange(n as int, n as int) =~= Seq::<Seq<char>>::empty());
        }
        ipv6_pieces(&gs, n - 2, n, true)
    } else {
        let mut k: usize = 1;
        while k < n - 1 && gs[k].len() > 0
            invariant
                1 <= k <= n,
                n >= 1,
                n == g.len(),
                n == gs@.len(),
                forall|i: int| 0 <= i < n ==> g[i] == gs@[i]@,
                forall|i: int| 1 <= i < k && i < n - 1 ==> g[i].len() > 0,
            decreases n - k,
        {
            k = k + 1;
        }
        if k < n - 1 {
            {
                let f = k;
                proof {
                    assert(gs@[f as int]@.len() == 0);
                    assert(g[f as int].len() == 0);
                    assert(f as int >= 1);
                    assert((f as int) < n - 1);
                    assert(exists|k: int| 1 <= k < n - 1 && g[k].len() == 0);
                    assert(gs.deep_view().subrange(0, f as int) =~= g.take(f as int));
                    assert(gs.deep_view().subrange(f + 1, n as int) =~= g.skip(f + 1));
                }
                let r = ipv6_pieces(&gs, f, f + 1, true);
                proof {
                    let kk = choose|k: int| 1 <= k < n - 1 && g[k].len() == 0;
                    if kk != f {
                        // the group picked by the specification sees the other
                        // empty group in its head or tail, so both fail
                        if kk < f {
                            lemma_hex_groups_empty_item(g.take(f as int), kk);
                        } else {
                            assert(g.skip(f + 1)[kk - f - 1] == g[kk]);
                            lemma_tail_groups_empty_item(g.skip(f + 1), kk - f - 1);
                        }
                        if f < kk {
                            lemma_hex_groups_empty_item(g.take(kk), f as int);
                        } else {
                            assert(g.skip(kk + 1)[f - kk - 1] == g[f as int]);
                            lemma_tail_groups_empty_item(g.skip(kk + 1), f - kk - 1);
                        }
                        assert(gs.deep_view().subrange(0, f as int) =~= g.take(f as int));
                        assert(gs.deep_view().subrange(f + 1, n as int) =~= g.skip(f + 1));
                        assert(spec_ipv6_pieces(g.take(f as int), g.skip(f + 1), true) is None);
                        assert(spec_ipv6_pieces(g.take(kk), g.skip(kk + 1), true) is None);
                    }
                }
                r
            }
        } else {
            proof {
                assert(forall|i: int| 1 <= i < n - 1 ==> g[i].len() > 0);
                assert(!(exists|kx: int| 1 <= kx < n - 1 && g[kx].len() == 0));
                assert(gs.deep_view().subrange(0, 0) =~= Seq::<Seq<char>>::empty());
                assert(gs.deep_view().subrange(0, n as int) =~= g);
            }
            ipv6_pieces(&gs, 0, 0, false)
        }
    };
    match pieces {
        Option::Some(p) => {
            if p.len() == 8 {
                Some(IpAddress::V6(p[0], p[1], p[2], p[3], p[4], p[5], p[6], p[7]))
            } else {
                None
            }
        },
        Option::None => None,
    }
}

/// Parses a vector of characters as an IP address, trying the dotted
/// quad first.
pub fn parse_ip_chars(v: &Vec<char>) -> (r: Option<IpAddress>)
    ensures
        r == spec_parse_ip(v@),
{
    match parse_ipv4_chars(v) {
        Option::Some(a) => Some(a),
        Option::None => parse_ipv6_chars(v),
    }
}

/// Parses a string as an IP address.
pub fn parse_ip(s: &str) -> (r: Option<IpAddress>)
    ensures
        r == spec_parse_ip(s@),
{
    let v = chars_of(s);
    parse_ip_chars(&v)
}

} // verus!
