// Text utilities shared by the source parsers: splitting raw adapter
// output into lines and whitespace-separated tokens, and reading
// unsigned decimal numbers, exactly as specified.

use vstd::prelude::*;

verus! {

/// Whitespace, as the proc-style formats use it.
pub open spec fn is_ws(c: char) -> bool {
    c == ' ' || c == '\t' || c == '\r' || c == '\n'
}

/// A decimal digit.
pub open spec fn is_digit(c: char) -> bool {
    48 <= (c as u32) && (c as u32) <= 57
}

/// Executable test matching `is_ws`.
pub fn is_ws_char(c: char) -> (r: bool)
    ensures
        r == is_ws(c),
{
    c == ' ' || c == '\t' || c == '\r' || c == '\n'
}

/// The distance to the first occurrence of `c` (the whole length if
/// there is none).
pub open spec fn split_len(s: Seq<char>, c: char) -> nat
    decreases s.len(),
{
    if s.len() == 0 {
        0
    } else if s[0] == c {
        0
    } else {
        1 + split_len(s.drop_first(), c)
    }
}

pub proof fn lemma_split_len_is(s: Seq<char>, c: char, k: int)
    requires
        0 <= k <= s.len(),
        k < s.len() ==> s[k] == c,
        forall|j: int| 0 <= j < k ==> s[j] != c,
    ensures
        split_len(s, c) == k,
    decreases s.len(),
{
    if s.len() > 0 && k > 0 {
        assert forall|j: int| 0 <= j < k - 1 implies s.drop_first()[j] != c by {
            assert(s[j + 1] != c);
        }
        if k - 1 < s.drop_first().len() {
            assert(s.drop_first()[k - 1] == s[k]);
        }
        lemma_split_len_is(s.drop_first(), c, k - 1);
    }
}

/// The length of the leading run of non-whitespace characters.
pub open spec fn token_len(s: Seq<char>) -> nat
    decreases s.len(),
{
    if s.len() == 0 {
        0
    } else if is_ws(s[0]) {
        0
    } else {
        1 + token_len(s.drop_first())
    }
}

pub proof fn lemma_token_len_is(s: Seq<char>, k: int)
    requires
        0 <= k <= s.len(),
        k < s.len() ==> is_ws(s[k]),
        forall|j: int| 0 <= j < k ==> !is_ws(s[j]),
    ensures
        token_len(s) == k,
    decreases s.len(),
{
    if s.len() > 0 && k > 0 {
        assert forall|j: int| 0 <= j < k - 1 implies !is_ws(s.drop_first()[j]) by {
            assert(!is_ws(s[j + 1]));
        }
        if k - 1 < s.drop_first().len() {
            assert(s.drop_first()[k - 1] == s[k]);
        }
        lemma_token_len_is(s.drop_first(), k - 1);
    }
}

/// A line with a trailing carriage return has it removed.
pub open spec fn strip_cr(line: Seq<char>) -> Seq<char> {
    if line.len() > 0 && line.last() == '\r' {
        line.drop_last()
    } else {
        line
    }
}

/// The lines of a text: chunks between newline characters, without a
/// trailing empty chunk after a final newline, each stripped of a
/// trailing carriage return.
pub open spec fn spec_lines(s: Seq<char>) -> Seq<Seq<char>>
    decreases s.len(),
{
    if s.len() == 0 {
        Seq::empty()
    } else {
        let k = split_len(s, '\n');
        if k < s.len() {
            seq![strip_cr(s.take(k as int))] + spec_lines(s.skip(k as int + 1))
        } else {
            seq![strip_cr(s)]
        }
    }
}

/// The whitespace-separated tokens of a text: the maximal runs of
/// non-whitespace characters, in order.
pub open spec fn spec_tokens(s: Seq<char>) -> Seq<Seq<char>>
    decreases s.len(),
{
    if s.len() == 0 {
        Seq::empty()
    } else if is_ws(s[0]) {
        spec_tokens(s.drop_first())
    } else {
        let k = token_len(s);
        if k < s.len() {
            seq![s.take(k as int)] + spec_tokens(s.skip(k as int))
        } else {
            seq![s]
        }
    }
}

/// Split a text into its lines.
pub fn split_lines(s: &str) -> (r: Vec<String>)
    ensures
        r.deep_view() == spec_lines(s@),
{
    let len = s.unicode_len();
    let mut out: Vec<String> = Vec::new();
    let mut pos: usize = 0;
    proof {
        assert(s@.skip(0) =~= s@);
    }
    while pos < len
        invariant
            len == s@.len(),
            0 <= pos <= len,
            out.deep_view() + spec_lines(s@.skip(pos as int)) =~= spec_lines(s@),
        decreases len - pos,
    {
        let ghost suffix = s@.skip(pos as int);
        let mut end: usize = pos;
        while end < len && s.get_char(end) != '\n'
            invariant
                len == s@.len(),
                pos <= end <= len,
                forall|j: int| pos <= j < end ==> s@[j] != '\n',
            decreases len - end,
        {
            end += 1;
        }
        proof {
            assert forall|j: int| 0 <= j < end - pos implies suffix[j] != '\n' by {
                assert(suffix[j] == s@[pos + j]);
            }
            if end < len {
                assert(suffix[end - pos] == s@[end as int]);
            }
            lemma_split_len_is(suffix, '\n', end - pos);
        }
        let chunk_end: usize = if end > pos && s.get_char(end - 1) == '\r' {
            end - 1
        } else {
            end
        };
        let line = s.substring_char(pos, chunk_end);
        proof {
            assert(suffix.take(end - pos) =~= s@.subrange(pos as int, end as int));
            if end < len {
                assert(strip_cr(suffix.take(end - pos)) =~= s@.subrange(
                    pos as int,
                    chunk_end as int,
                ));
                assert(suffix.skip(end - pos + 1) =~= s@.skip(end + 1));
            } else {
                assert(suffix =~= s@.subrange(pos as int, end as int));
                assert(strip_cr(suffix) =~= s@.subrange(pos as int, chunk_end as int));
            }
        }
        let ghost pre = out.deep_view();
        out.push(String::from_str(line));
        proof {
            assert(out.deep_view() =~= pre.push(line@));
            if end < len {
                assert(spec_lines(suffix) == seq![strip_cr(suffix.take(end - pos))] + spec_lines(
                    suffix.skip(end - pos + 1),
                ));
                assert(out.deep_view() + spec_lines(s@.skip(end + 1)) =~= spec_lines(s@));
            } else {
                assert(spec_lines(suffix) == seq![strip_cr(suffix)]);
                assert(s@.skip(len as int) =~= Seq::<char>::empty());
                assert(out.deep_view() + spec_lines(s@.skip(len as int)) =~= spec_lines(s@));
            }
        }
        pos = if end < len {
            end + 1
        } else {
            len
        };
    }
    proof {
        assert(s@.skip(len as int) =~= Seq::<char>::empty());
        assert(out.deep_view() =~= spec_lines(s@));
    }
    out
}

/// Split a text into its whitespace-separated tokens.
pub fn split_whitespace(s: &str) -> (r: Vec<String>)
    ensures
        r.deep_view() == spec_tokens(s@),
{
    let len = s.unicode_len();
    let mut out: Vec<String> = Vec::new();
    let mut pos: usize = 0;
    proof {
        assert(s@.skip(0) =~= s@);
    }
    while pos < len
        invariant
            len == s@.len(),
            0 <= pos <= len,
            out.deep_view() + spec_tokens(s@.skip(pos as int)) =~= spec_tokens(s@),
        decreases len - pos,
    {
        if is_ws_char(s.get_char(pos)) {
            proof {
                let suffix = s@.skip(pos as int);
                assert(suffix[0] == s@[pos as int]);
                assert(suffix.drop_first() =~= s@.skip(pos + 1));
                assert(spec_tokens(suffix) == spec_tokens(s@.skip(pos + 1)));
            }
            pos += 1;
        } else {
            let ghost suffix = s@.skip(pos as int);
            let mut end: usize = pos;
            while end < len && !is_ws_char(s.get_char(end))
                invariant
                    len == s@.len(),
                    pos <= end <= len,
                    forall|j: int| pos <= j < end ==> !is_ws(s@[j]),
                decreases len - end,
            {
                end += 1;
            }
            proof {
                assert forall|j: int| 0 <= j < end - pos implies !is_ws(suffix[j]) by {
                    assert(suffix[j] == s@[pos + j]);
                }
                if end < len {
                    assert(suffix[end - pos] == s@[end as int]);
                }
                lemma_token_len_is(suffix, end - pos);
            }
            let token = s.substring_char(pos, end);
            proof {
                assert(suffix.take(end - pos) =~= s@.subrange(pos as int, end as int));
            }
            let ghost pre = out.deep_view();
            out.push(String::from_str(token));
            proof {
                assert(out.deep_view() =~= pre.push(token@));
                assert(!is_ws(suffix[0]));
                if end < len {
                    assert(spec_tokens(suffix) == seq![suffix.take(end - pos)] + spec_tokens(
                        suffix.skip(end - pos),
                    ));
                    assert(suffix.skip(end - pos) =~= s@.skip(end as int));
                    assert(out.deep_view() + spec_tokens(s@.skip(end as int)) =~= spec_tokens(
                        s@,
                    ));
                } else {
                    assert(suffix =~= s@.subrange(pos as int, end as int));
                    assert(spec_tokens(suffix) == seq![suffix]);
                    assert(s@.skip(len as int) =~= Seq::<char>::empty());
                    assert(out.deep_view() + spec_tokens(s@.skip(len as int)) =~= spec_tokens(
                        s@,
                    ));
                }
            }
            pos = end;
        }
    }
    proof {
        assert(s@.skip(len as int) =~= Seq::<char>::empty());
        assert(out.deep_view() =~= spec_tokens(s@));
    }
    out
}

/// Whether every character is a decimal digit.
pub open spec fn all_digits(s: Seq<char>) -> bool {
    forall|i: int| 0 <= i < s.len() ==> is_digit(s[i])
}

/// The value of a digit string, most significant first.
pub open spec fn digits_value(s: Seq<char>) -> int
    recommends
        all_digits(s),
    decreases s.len(),
{
    if s.len() == 0 {
        0
    } else {
        digits_value(s.drop_last()) * 10 + ((s.last() as u32) - 48)
    }
}

pub proof fn lemma_digits_value_nonneg(s: Seq<char>)
    requires
        all_digits(s),
    ensures
        digits_value(s) >= 0,
    decreases s.len(),
{
    if s.len() > 0 {
        assert(all_digits(s.drop_last()));
        lemma_digits_value_nonneg(s.drop_last());
    }
}

/// The value of a digit string dominates the value of any of its prefixes.
pub proof fn lemma_digits_prefix_le(s: Seq<char>, i: int)
    requires
        all_digits(s),
        0 <= i <= s.len(),
    ensures
        digits_value(s.take(i)) <= digits_value(s),
    decreases s.len() - i,
{
    if i < s.len() {
        lemma_digits_prefix_le(s, i + 1);
        assert(s.take(i + 1).drop_last() =~= s.take(i));
        assert(all_digits(s.take(i)));
        lemma_digits_value_nonneg(s.take(i));
        assert(digits_value(s.take(i + 1)) == digits_value(s.take(i)) * 10 + ((s.take(
            i + 1,
        ).last() as u32) - 48));
        assert(digits_value(s.take(i)) <= digits_value(s.take(i + 1)));
    } else {
        assert(s.take(i) =~= s);
    }
}

/// What parsing an unsigned decimal yields: a value for a non-empty,
/// all-digit string whose value fits, and nothing otherwise.
pub open spec fn spec_parse_u64(s: Seq<char>) -> Option<u64> {
    if s.len() > 0 && all_digits(s) && digits_value(s) <= u64::MAX {
        Some(digits_value(s) as u64)
    } else {
        None
    }
}

/// Parse an unsigned 64-bit decimal number.
pub fn parse_u64(s: &str) -> (r: Option<u64>)
    ensures
        r == spec_parse_u64(s@),
{
    let len = s.unicode_len();
    if len == 0 {
        return None;
    }
    let mut acc: u64 = 0;
    let mut i: usize = 0;
    proof {
        assert(s@.take(0) =~= Seq::<char>::empty());
    }
    while i < len
        invariant
            len == s@.len(),
            0 < len,
            0 <= i <= len,
            all_digits(s@.take(i as int)),
            acc == digits_value(s@.take(i as int)),
        decreases len - i,
    {
        let c = s.get_char(i);
        let d = c as u32;
        if d < 48 || d > 57 {
            assert(!is_digit(s@[i as int]));
            return None;
        }
        let dv = (d - 48) as u64;
        proof {
            assert(s@.take(i + 1).drop_last() =~= s@.take(i as int));
            assert(s@.take(i + 1).last() == s@[i as int]);
            assert(all_digits(s@.take(i + 1)));
        }
        if acc > u64::MAX / 10 || 10 * acc > u64::MAX - dv {
            proof {
                assert(digits_value(s@.take(i + 1)) == acc * 10 + dv);
                assert(digits_value(s@.take(i + 1)) > u64::MAX);
                if all_digits(s@) {
                    lemma_digits_prefix_le(s@, i + 1);
                }
            }
            return None;
        }
        acc = acc * 10 + dv;
        i += 1;
    }
    proof {
        assert(s@.take(len as int) =~= s@);
    }
    Some(acc)
}

/// What parsing an unsigned 16-bit decimal yields.
pub open spec fn spec_parse_u16(s: Seq<char>) -> Option<u16> {
    match spec_parse_u64(s) {
        Some(v) => if v <= u16::MAX {
            Some(v as u16)
        } else {
            None
        },
        None => None,
    }
}

/// Parse an unsigned 16-bit decimal number.
pub fn parse_u16(s: &str) -> (r: Option<u16>)
    ensures
        r == spec_parse_u16(s@),
{
    match parse_u64(s) {
        Some(v) => {
            if v <= u16::MAX as u64 {
                Some(v as u16)
            } else {
                None
            }
        },
        None => None,
    }
}

/// The hundredths encoded by a fraction part: its first two digits,
/// a short fraction padded with zeros.
pub open spec fn centi_of_frac(frac: Seq<char>) -> int
    recommends
        all_digits(frac),
{
    if frac.len() == 0 {
        0
    } else if frac.len() == 1 {
        ((frac[0] as u32) - 48) * 10
    } else {
        ((frac[0] as u32) - 48) * 10 + ((frac[1] as u32) - 48)
    }
}

/// What parsing a decimal fraction into hundredths yields: the integer
/// part scaled by one hundred plus the first two fraction digits, for a
/// well-formed number that fits; further fraction digits are truncated.
pub open spec fn spec_parse_centi(s: Seq<char>) -> Option<u64> {
    let d = split_len(s, '.');
    let int_part = s.take(d as int);
    let frac = if d < s.len() {
        s.skip(d as int + 1)
    } else {
        Seq::<char>::empty()
    };
    if int_part.len() > 0 && all_digits(int_part) && all_digits(frac) && digits_value(int_part)
        * 100 + centi_of_frac(frac) <= u64::MAX {
        Some((digits_value(int_part) * 100 + centi_of_frac(frac)) as u64)
    } else {
        None
    }
}

/// Parse a non-negative decimal fraction into hundredths.
#[verifier::loop_isolation(false)]
pub fn parse_centi(s: &str) -> (r: Option<u64>)
    ensures
        r == spec_parse_centi(s@),
{
    let len = s.unicode_len();
    let mut dot: usize = 0;
    while dot < len && s.get_char(dot) != '.'
        invariant
            len == s@.len(),
            0 <= dot <= len,
            forall|j: int| 0 <= j < dot ==> s@[j] != '.',
        decreases len - dot,
    {
        dot += 1;
    }
    proof {
        lemma_split_len_is(s@, '.', dot as int);
        assert(s@.take(dot as int) =~= s@.subrange(0, dot as int));
    }
    let int_str = s.substring_char(0, dot);
    let ghost int_part = s@.take(dot as int);
    let ghost frac = if dot < len {
        s@.skip(dot as int + 1)
    } else {
        Seq::<char>::empty()
    };
    let v = match parse_u64(int_str) {
        Some(v) => v,
        None => {
            proof {
                if int_part.len() > 0 && all_digits(int_part) {
                    assert(digits_value(int_part) > u64::MAX);
                    lemma_digits_value_nonneg(int_part);
                    assert(digits_value(int_part) * 100 >= digits_value(int_part))
                        by (nonlinear_arith)
                        requires
                            digits_value(int_part) >= 0,
                    ;
                    if all_digits(frac) {
                        assert(centi_of_frac(frac) >= 0);
                    }
                }
            }
            return None;
        },
    };
    proof {
        lemma_digits_value_nonneg(int_part);
    }
    let mut c: u64 = 0;
    if dot < len {
        if dot + 1 < len {
            let c0 = s.get_char(dot + 1);
            let d0 = c0 as u32;
            if d0 < 48 || d0 > 57 {
                proof {
                    assert(frac[0] == s@[dot + 1]);
                    assert(!all_digits(frac));
                }
                return None;
            }
            c = ((d0 - 48) * 10) as u64;
            if dot + 2 < len {
                let c1 = s.get_char(dot + 2);
                let d1 = c1 as u32;
                if d1 < 48 || d1 > 57 {
                    proof {
                        assert(frac[1] == s@[dot + 2]);
                        assert(!all_digits(frac));
                    }
                    return None;
                }
                c = c + (d1 - 48) as u64;
                let mut k: usize = dot + 3;
                while k < len
                    invariant
                        len == s@.len(),
                        dot + 3 <= k <= len,
                        forall|j: int| dot + 3 <= j < k ==> is_digit(s@[j]),
                    decreases len - k,
                {
                    let ck = s.get_char(k);
                    let dk = ck as u32;
                    if dk < 48 || dk > 57 {
                        proof {
                            assert(frac[k - dot - 1] == s@[k as int]);
                            assert(!all_digits(frac));
                        }
                        return None;
                    }
                    k += 1;
                }
                proof {
                    assert forall|j: int| 0 <= j < frac.len() implies is_digit(frac[j]) by {
                        assert(frac[j] == s@[dot + 1 + j]);
                    }
                }
            } else {
                proof {
                    assert forall|j: int| 0 <= j < frac.len() implies is_digit(frac[j]) by {
                        assert(frac[j] == s@[dot + 1 + j]);
                    }
                }
            }
        } else {
            proof {
                assert(frac =~= Seq::<char>::empty());
            }
        }
    }
    proof {
        assert(all_digits(frac));
        assert(c == centi_of_frac(frac));
        assert(c <= 99);
    }
    if v > u64::MAX / 100 {
        proof {
            assert(digits_value(int_part) * 100 > u64::MAX) by (nonlinear_arith)
                requires
                    digits_value(int_part) == v as int,
                    v > u64::MAX / 100,
            ;
        }
        return None;
    }
    proof {
        assert(v * 100 <= u64::MAX) by (nonlinear_arith)
            requires
                0 <= v <= u64::MAX / 100,
        ;
    }
    let t: u64 = v * 100;
    if c > u64::MAX - t {
        return None;
    }
    Some(t + c)
}

/// Join a name prefix and a field suffix with a dot.
pub fn join_name(prefix: &str, suffix: &str) -> (r: String)
    ensures
        r@ == prefix@ + "."@ + suffix@,
{
    let mut s = String::from_str(prefix);
    s.append(".");
    s.append(suffix);
    s
}

} // verus!
