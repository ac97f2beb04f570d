use vstd::prelude::*;
use vstd::string::StrSliceExecFns;

verus! {

/// Character-for-character equality of two string slices.
pub fn str_eq(a: &str, b: &str) -> (r: bool)
    ensures
        r == (a@ == b@),
{
    let alen = a.unicode_len();
    let blen = b.unicode_len();
    if alen != blen {
        assert(a@ != b@) by {
            assert(a@.len() != b@.len());
        }
        return false;
    }
    let mut i: usize = 0;
    while i < alen
        invariant
            alen == a@.len(),
            blen == b@.len(),
            alen == blen,
            i <= alen,
            forall|j: int| 0 <= j < i ==> a@[j] == b@[j],
        decreases alen - i,
    {
        if a.get_char(i) != b.get_char(i) {
            return false;
        }
        i = i + 1;
    }
    assert(a@ =~= b@);
    true
}

/// The characters of a string slice, as a vector.
pub fn chars_of(s: &str) -> (r: Vec<char>)
    ensures
        r@ == s@,
{
    let n = s.unicode_len();
    let mut v: Vec<char> = Vec::new();
    let mut i: usize = 0;
    while i < n
        invariant
            n == s@.len(),
            i <= n,
            v@ =~= s@.take(i as int),
        decreases n - i,
    {
        v.push(s.get_char(i));
        i = i + 1;
    }
    assert(v@ =~= s@);
    v
}

pub open spec fn is_digit(c: char) -> bool {
    48 <= c as u32 && c as u32 <= 57
}

pub open spec fn digit_val(c: char) -> int {
    c as u32 - 48
}

/// The numeric value of a sequence of decimal digits; `None` if any
/// character is not a digit. The empty sequence counts as zero so that
/// the recursion has a base; callers require at least one digit.
pub open spec fn spec_digits_val(s: Seq<char>) -> Option<int>
    decreases s.len(),
{
    if s.len() == 0 {
        Some(0)
    } else {
        match spec_digits_val(s.drop_last()) {
            Option::None => Option::None,
            Option::Some(v) => if is_digit(s.last()) {
                Some(v * 10 + digit_val(s.last()))
            } else {
                Option::None
            },
        }
    }
}

/// What a decimal string denotes as an unsigned 64-bit number: an
/// optional leading `+`, then one or more digits, and a value that
/// fits; anything else is `None`.
pub open spec fn spec_parse_u64(s: Seq<char>) -> Option<u64> {
    let body = if s.len() > 0 && s[0] == '+' {
        s.drop_first()
    } else {
        s
    };
    if body.len() == 0 {
        Option::None
    } else {
        match spec_digits_val(body) {
            Option::None => Option::None,
            Option::Some(v) => if v <= u64::MAX {
                Some(v as u64)
            } else {
                Option::None
            },
        }
    }
}

pub proof fn lemma_digits_val_nonneg(s: Seq<char>)
    ensures
        match spec_digits_val(s) {
            Option::None => true,
            Option::Some(v) => v >= 0,
        },
    decreases s.len(),
{
    if s.len() > 0 {
        lemma_digits_val_nonneg(s.drop_last());
    }
}

/// Extending a digit string never shrinks its value, and a failed
/// prefix fails the whole string.
pub proof fn lemma_digits_val_extend(s: Seq<char>, j: int)
    requires
        0 <= j <= s.len(),
    ensures
        match spec_digits_val(s.take(j)) {
            Option::None => spec_digits_val(s) is None,
            Option::Some(v) => match spec_digits_val(s) {
                Option::None => true,
                Option::Some(w) => w >= v,
            },
        },
    decreases s.len() - j,
{
    lemma_digits_val_nonneg(s.take(j));
    if j == s.len() {
        assert(s.take(j) =~= s);
    } else {
        assert(s.take(j + 1).drop_last() =~= s.take(j));
        assert(s.take(j + 1).last() == s[j]);
        lemma_digits_val_nonneg(s.take(j + 1));
        lemma_digits_val_extend(s, j + 1);
    }
}

/// Parses a vector of characters as a decimal unsigned 64-bit number.
pub fn parse_u64_chars(v: &Vec<char>) -> (r: Option<u64>)
    ensures
        r == spec_parse_u64(v@),
{
    let start: usize = if v.len() > 0 && v[0] == '+' {
        1
    } else {
        0
    };
    let ghost body: Seq<char> = if v@.len() > 0 && v@[0] == '+' {
        v@.drop_first()
    } else {
        v@
    };
    assert(body =~= v@.subrange(start as int, v@.len() as int));
    if v.len() == start {
        return None;
    }
    let mut acc: u128 = 0;
    let mut i: usize = start;
    proof {
        assert(body.take(0) =~= Seq::<char>::empty());
    }
    while i < v.len()
        invariant
            start <= i <= v@.len(),
            body == (if v@.len() > 0 && v@[0] == '+' { v@.drop_first() } else { v@ }),
            body == v@.subrange(start as int, v@.len() as int),
            acc <= u64::MAX,
            spec_digits_val(body.take(i - start)) == Some(acc as int),
        decreases v@.len() - i,
    {
        let c = v[i];
        let u = c as u32;
        proof {
            assert(body.take(i - start + 1).drop_last() =~= body.take(i - start));
            assert(body.take(i - start + 1).last() == v@[i as int]);
        }
        if !(48 <= u && u <= 57) {
            proof {
                assert(spec_digits_val(body.take(i - start + 1)) is None);
                lemma_digits_val_extend(body, i - start + 1);
                assert(spec_digits_val(body) is None);
            }
            return None;
        }
        let d: u128 = (u - 48) as u128;
        assert(acc * 10 + d <= u64::MAX as u128 * 10 + 9);
        let nv: u128 = acc * 10 + d;
        proof {
            assert(spec_digits_val(body.take(i - start + 1)) == Some(nv as int));
        }
        if nv > u64::MAX as u128 {
            proof {
                lemma_digits_val_extend(body, i - start + 1);
            }
            return None;
        }
        acc = nv;
        i = i + 1;
    }
    proof {
        assert(body.take(v@.len() - start) =~= body);
    }
    Some(acc as u64)
}

/// Parses a string as a decimal unsigned 64-bit number, the way the
/// report's numeric fields are written.
pub fn parse_u64_str(s: &str) -> (r: Option<u64>)
    ensures
        r == spec_parse_u64(s@),
{
    let v = chars_of(s);
    parse_u64_chars(&v)
}

/// What a decimal string denotes as an unsigned 8-bit number.
pub open spec fn spec_parse_u8(s: Seq<char>) -> Option<u8> {
    match spec_parse_u64(s) {
        Option::None => Option::None,
        Option::Some(v) => if v <= u8::MAX {
            Some(v as u8)
        } else {
            Option::None
        },
    }
}

/// Parses a string as a decimal unsigned 8-bit number.
pub fn parse_u8_str(s: &str) -> (r: Option<u8>)
    ensures
        r == spec_parse_u8(s@),
{
    match parse_u64_str(s) {
        Option::None => Option::None,
        Option::Some(v) => if v <= u8::MAX as u64 {
            Some(v as u8)
        } else {
            Option::None
        },
    }
}

/// The pieces of `s` between occurrences of `sep`, in order; empty
/// pieces are kept, so the result always has one piece more than `s`
/// has separators.
pub open spec fn split_on(s: Seq<char>, sep: char) -> Seq<Seq<char>>
    decreases s.len(),
{
    if s.len() == 0 {
        seq![Seq::<char>::empty()]
    } else if s[0] == sep {
        seq![Seq::<char>::empty()] + split_on(s.drop_first(), sep)
    } else {
        let rest = split_on(s.drop_first(), sep);
        seq![seq![s[0]] + rest[0]] + rest.drop_first()
    }
}

pub proof fn lemma_split_on_nonempty(s: Seq<char>, sep: char)
    ensures
        split_on(s, sep).len() >= 1,
    decreases s.len(),
{
    if s.len() > 0 {
        lemma_split_on_nonempty(s.drop_first(), sep);
    }
}

/// Splits a vector of characters on a separator, keeping empty pieces.
pub fn split_chars(v: &Vec<char>, sep: char) -> (r: Vec<Vec<char>>)
    ensures
        r.deep_view() == split_on(v@, sep),
{
    let mut done: Vec<Vec<char>> = Vec::new();
    let mut cur: Vec<char> = Vec::new();
    let mut i: usize = 0;
    proof {
        lemma_split_on_nonempty(v@, sep);
        assert(v@.skip(0) =~= v@);
        assert(done.deep_view() =~~= Seq::<Seq<char>>::empty());
    }
    while i < v.len()
        invariant
            i <= v@.len(),
            split_on(v@.skip(i as int), sep).len() >= 1,
            split_on(v@, sep) =~~= done.deep_view() + seq![
                cur@ + split_on(v@.skip(i as int), sep)[0],
            ] + split_on(v@.skip(i as int), sep).drop_first(),
        decreases v@.len() - i,
    {
        let ghost done0 = done.deep_view();
        let ghost cur0 = cur@;
        let ghost pre = v@.skip(i as int);
        let ghost rest = split_on(pre, sep);
        let ghost rest1 = split_on(v@.skip(i as int + 1), sep);
        proof {
            assert(pre.len() > 0);
            assert(pre[0] == v@[i as int]);
            assert(pre.drop_first() =~= v@.skip(i as int + 1));
            lemma_split_on_nonempty(v@.skip(i as int + 1), sep);
        }
        if v[i] == sep {
            done.push(cur);
            cur = Vec::new();
            proof {
                assert(rest =~~= seq![Seq::<char>::empty()] + rest1);
                assert(rest[0] =~= Seq::<char>::empty());
                assert(rest.drop_first() =~~= rest1);
                assert(done.deep_view() =~~= done0.push(cur0));
                assert(cur0 + rest[0] =~= cur0);
                assert(done.deep_view() + seq![cur@ + rest1[0]] + rest1.drop_first()
                    =~~= done0 + seq![cur0 + rest[0]] + rest.drop_first());
            }
        } else {
            cur.push(v[i]);
            proof {
                assert(rest =~~= seq![seq![v@[i as int]] + rest1[0]] + rest1.drop_first());
                assert(cur@ =~= cur0.push(v@[i as int]));
                assert(cur@ + rest1[0] =~= cur0 + rest[0]);
                assert(rest.drop_first() =~~= rest1.drop_first());
                assert(done.deep_view() + seq![cur@ + rest1[0]] + rest1.drop_first()
                    =~~= done0 + seq![cur0 + rest[0]] + rest.drop_first());
            }
        }
        i = i + 1;
    }
    let ghost done0 = done.deep_view();
    let ghost cur0 = cur@;
    proof {
        assert(v@.skip(v@.len() as int) =~= Seq::<char>::empty());
        assert(split_on(Seq::<char>::empty(), sep) =~~= seq![Seq::<char>::empty()]);
    }
    done.push(cur);
    proof {
        assert(done.deep_view() =~~= done0.push(cur0));
        assert(done.deep_view() =~~= split_on(v@, sep));
    }
    done
}

} // verus!
