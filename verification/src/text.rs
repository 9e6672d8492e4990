//! Small verified text utilities: decimal parsing and character
//! classes shared by the probe, the resolvers and the drivers.

use vstd::prelude::*;

verus! {

pub open spec fn is_digit(c: char) -> bool {
    '0' <= c && c <= '9'
}

pub open spec fn digit_val(c: char) -> int {
    c as int - '0' as int
}

pub open spec fn all_digits(s: Seq<char>) -> bool {
    forall|i: int| 0 <= i < s.len() ==> is_digit(#[trigger] s[i])
}

/// Value of a digit string read in base ten.
pub open spec fn decimal_value(s: Seq<char>) -> int
    decreases s.len(),
{
    if s.len() == 0 {
        0
    } else {
        decimal_value(s.drop_last()) * 10 + digit_val(s.last())
    }
}

/// Parse a base-ten `u64`: succeeds exactly on non-empty all-digit
/// strings whose value fits.
pub fn parse_u64(s: &str) -> (r: Option<u64>)
    ensures
        r is Some <==> s@.len() > 0 && all_digits(s@) && decimal_value(s@) <= u64::MAX,
        r matches Some(v) ==> v == decimal_value(s@),
{
    let n = s.unicode_len();
    if n == 0 {
        return None;
    }
    let mut acc: u64 = 0;
    let mut i: usize = 0;
    while i < n
        invariant
            n == s@.len(),
            i <= n,
            all_digits(s@.take(i as int)),
            acc == decimal_value(s@.take(i as int)),
        decreases n - i,
    {
        let c = s.get_char(i);
        if c < '0' || c > '9' {
            proof {
                assert(!is_digit(s@[i as int]));
                assert(!all_digits(s@));
            }
            return None;
        }
        let d: u32 = c as u32 - 48;
        proof {
            assert(is_digit(s@[i as int]));
            assert(d == digit_val(s@[i as int]));
            assert(s@.take(i + 1).drop_last() =~= s@.take(i as int));
            assert(s@.take(i + 1).last() == s@[i as int]);
        }
        if acc > (u64::MAX - d as u64) / 10 {
            proof {
                vstd::arithmetic::div_mod::lemma_fundamental_div_mod(
                    u64::MAX - d as u64,
                    10,
                );
                assert(decimal_value(s@.take(i + 1)) > u64::MAX);
                if all_digits(s@) {
                    lemma_decimal_value_grows(s@, i as int + 1, n as int);
                    assert(s@.take(n as int) =~= s@);
                    assert(decimal_value(s@) > u64::MAX);
                }
            }
            return None;
        }
        proof {
            vstd::arithmetic::div_mod::lemma_fundamental_div_mod(u64::MAX - d as u64, 10);
        }
        acc = acc * 10 + d as u64;
        i = i + 1;
    }
    proof {
        assert(s@.take(n as int) =~= s@);
    }
    Some(acc)
}

/// A longer all-digit string never has a smaller value: extending a
/// digit prefix can only grow the number.
proof fn lemma_decimal_value_grows(s: Seq<char>, k: int, n: int)
    requires
        0 <= k <= n <= s.len(),
        forall|i: int| 0 <= i < n ==> is_digit(#[trigger] s[i]),
    ensures
        decimal_value(s.take(n)) >= decimal_value(s.take(k)),
    decreases n - k,
{
    if k < n {
        lemma_decimal_value_grows(s, k, n - 1);
        assert(s.take(n).drop_last() =~= s.take(n - 1));
        assert(all_digits(s.take(n - 1)));
        lemma_decimal_value_nonneg(s.take(n - 1));
        assert(decimal_value(s.take(n - 1)) * 10 >= decimal_value(s.take(n - 1))) by (nonlinear_arith)
            requires
                decimal_value(s.take(n - 1)) >= 0,
        ;
        assert(is_digit(s.take(n).last()));
    }
}

proof fn lemma_decimal_value_nonneg(s: Seq<char>)
    requires
        all_digits(s),
    ensures
        decimal_value(s) >= 0,
    decreases s.len(),
{
    if s.len() > 0 {
        assert(s.drop_last() =~= s.take(s.len() - 1));
        assert(forall|i: int| 0 <= i < s.drop_last().len() ==> is_digit(#[trigger] s.drop_last()[i]));
        lemma_decimal_value_nonneg(s.drop_last());
        assert(decimal_value(s.drop_last()) * 10 >= 0) by (nonlinear_arith)
            requires
                decimal_value(s.drop_last()) >= 0,
        ;
    }
}

/// Parse a base-ten `u16`: succeeds exactly on non-empty all-digit
/// strings whose value fits.
pub fn parse_u16(s: &str) -> (r: Option<u16>)
    ensures
        r is Some <==> s@.len() > 0 && all_digits(s@) && decimal_value(s@) <= u16::MAX,
        r matches Some(v) ==> v == decimal_value(s@),
{
    match parse_u64(s) {
        Some(v) => {
            if v <= 65535 {
                Some(v as u16)
            } else {
                None
            }
        },
        None => {
            proof {
                if s@.len() > 0 && all_digits(s@) && decimal_value(s@) <= u16::MAX {
                    assert(decimal_value(s@) <= u64::MAX);
                }
            }
            None
        },
    }
}

/// Digits of `n` in base ten, most significant first.
pub open spec fn decimal_digits(n: int) -> Seq<char>
    decreases n,
{
    if n <= 0 {
        Seq::empty()
    } else {
        decimal_digits(n / 10).push(digit_char(n % 10))
    }
}

/// The character of one digit value.
pub open spec fn digit_char(d: int) -> char {
    if d == 0 {
        '0'
    } else if d == 1 {
        '1'
    } else if d == 2 {
        '2'
    } else if d == 3 {
        '3'
    } else if d == 4 {
        '4'
    } else if d == 5 {
        '5'
    } else if d == 6 {
        '6'
    } else if d == 7 {
        '7'
    } else if d == 8 {
        '8'
    } else {
        '9'
    }
}

/// The canonical decimal rendering of `n`: its digits, or `"0"`.
pub open spec fn decimal_string(n: int) -> Seq<char> {
    if n == 0 {
        seq!['0']
    } else {
        decimal_digits(n)
    }
}

/// The decimal digits of `n` are digits, read back to `n`, and are
/// non-empty for positive `n`.
pub proof fn lemma_decimal_digits_value(n: int)
    requires
        n >= 0,
    ensures
        all_digits(decimal_digits(n)),
        decimal_value(decimal_digits(n)) == n,
        n > 0 ==> decimal_digits(n).len() > 0,
    decreases n,
{
    if n > 0 {
        vstd::arithmetic::div_mod::lemma_fundamental_div_mod(n, 10);
        vstd::arithmetic::div_mod::lemma_mod_bound(n, 10);
        vstd::arithmetic::div_mod::lemma_div_is_ordered_by_denominator(n, 1, 10);
        lemma_decimal_digits_value(n / 10);
        let prefix = decimal_digits(n / 10);
        let c = digit_char(n % 10);
        assert(prefix.push(c).drop_last() =~= prefix);
        assert(prefix.push(c).last() == c);
        assert(digit_val(c) == n % 10);
    }
}

/// Render `n` in base ten.
pub fn format_u64(n: u64) -> (r: String)
    ensures
        r@ == decimal_string(n as int),
        r@.len() > 0,
        all_digits(r@),
        decimal_value(r@) == n,
{
    proof {
        lemma_decimal_digits_value(n as int);
    }
    let mut out = String::new();
    if n == 0 {
        out.append("0");
        proof {
            reveal_strlit("0");
            assert(out@ =~= decimal_string(0));
            assert(out@.drop_last() =~= Seq::<char>::empty());
        }
        return out;
    }
    let mut rest: u64 = n;
    let mut suffix = String::new();
    // Digits come out least significant first; `suffix` collects the
    // rendered tail, so the digits of `rest` followed by `suffix` are
    // always the whole rendering.
    while rest > 0
        invariant
            decimal_digits(rest as int) + suffix@ =~= decimal_digits(n as int),
            n > 0,
            rest == 0 ==> suffix@.len() > 0,
        decreases rest,
    {
        let ghost before = suffix@;
        let ghost rest0 = rest as int;
        let d = rest % 10;
        let ds: &str = match d {
            0 => "0",
            1 => "1",
            2 => "2",
            3 => "3",
            4 => "4",
            5 => "5",
            6 => "6",
            7 => "7",
            8 => "8",
            _ => "9",
        };
        proof {
            reveal_strlit("0");
            reveal_strlit("1");
            reveal_strlit("2");
            reveal_strlit("3");
            reveal_strlit("4");
            reveal_strlit("5");
            reveal_strlit("6");
            reveal_strlit("7");
            reveal_strlit("8");
            reveal_strlit("9");
            assert(ds@ =~= seq![digit_char(d as int)]);
        }
        let mut next = String::from_str(ds);
        next.append(suffix.as_str());
        suffix = next;
        rest = rest / 10;
        proof {
            vstd::arithmetic::div_mod::lemma_fundamental_div_mod(rest0, 10);
            // Unfolding the digits of the old remainder: its digits are
            // those of the new remainder plus the digit just rendered.
            assert(decimal_digits(rest0) == decimal_digits(rest as int).push(
                digit_char(d as int),
            ));
            assert(decimal_digits(rest as int).push(digit_char(d as int)) + before
                =~= decimal_digits(rest as int) + suffix@);
        }
    }
    out.append(suffix.as_str());
    proof {
        assert(decimal_digits(0) =~= Seq::<char>::empty());
        assert(out@ =~= decimal_digits(n as int));
    }
    out
}

/// ASCII lower-casing of one character.
pub open spec fn lower_char(c: char) -> char {
    if 'A' <= c && c <= 'Z' {
        (((c as u8) + 32) as char)
    } else {
        c
    }
}

pub open spec fn lower_seq(s: Seq<char>) -> Seq<char> {
    s.map_values(|c: char| lower_char(c))
}

/// Whether `s` begins with `p`.
pub open spec fn has_prefix_spec(s: Seq<char>, p: Seq<char>) -> bool {
    s.len() >= p.len() && s.take(p.len() as int) == p
}

/// Exact prefix test.
pub fn has_prefix(s: &str, p: &str) -> (r: bool)
    ensures
        r == has_prefix_spec(s@, p@),
{
    let pn = p.unicode_len();
    let sn = s.unicode_len();
    if sn < pn {
        return false;
    }
    let mut i: usize = 0;
    while i < pn
        invariant
            pn == p@.len(),
            sn == s@.len(),
            sn >= pn,
            i <= pn,
            forall|j: int| 0 <= j < i ==> s@[j] == p@[j],
        decreases pn - i,
    {
        if s.get_char(i) != p.get_char(i) {
            proof {
                assert(s@.take(pn as int)[i as int] != p@[i as int]);
            }
            return false;
        }
        i = i + 1;
    }
    proof {
        assert(s@.take(pn as int) =~= p@);
    }
    true
}

/// ASCII-case-insensitive prefix test.
pub fn has_prefix_ignore_case(s: &str, p: &str) -> (r: bool)
    ensures
        r == has_prefix_spec(lower_seq(s@), lower_seq(p@)),
{
    let pn = p.unicode_len();
    let sn = s.unicode_len();
    if sn < pn {
        return false;
    }
    let mut i: usize = 0;
    while i < pn
        invariant
            pn == p@.len(),
            sn == s@.len(),
            sn >= pn,
            i <= pn,
            forall|j: int| 0 <= j < i ==> lower_char(s@[j]) == lower_char(p@[j]),
        decreases pn - i,
    {
        if lower_ascii(s.get_char(i)) != lower_ascii(p.get_char(i)) {
            proof {
                assert(lower_seq(s@).take(pn as int)[i as int] == lower_char(s@[i as int]));
                assert(lower_seq(p@)[i as int] == lower_char(p@[i as int]));
            }
            return false;
        }
        i = i + 1;
    }
    proof {
        assert(lower_seq(s@).take(pn as int) =~= lower_seq(p@));
    }
    true
}

/// ASCII-case-insensitive string equality.
pub fn eq_ignore_case(s: &str, t: &str) -> (r: bool)
    ensures
        r == (lower_seq(s@) == lower_seq(t@)),
{
    let sn = s.unicode_len();
    let tn = t.unicode_len();
    if sn != tn {
        proof {
            assert(lower_seq(s@).len() != lower_seq(t@).len());
        }
        return false;
    }
    let mut i: usize = 0;
    while i < sn
        invariant
            sn == s@.len(),
            tn == t@.len(),
            sn == tn,
            i <= sn,
            forall|j: int| 0 <= j < i ==> lower_char(s@[j]) == lower_char(t@[j]),
        decreases sn - i,
    {
        if lower_ascii(s.get_char(i)) != lower_ascii(t.get_char(i)) {
            proof {
                assert(lower_seq(s@)[i as int] != lower_seq(t@)[i as int]);
            }
            return false;
        }
        i = i + 1;
    }
    proof {
        assert(lower_seq(s@) =~= lower_seq(t@));
    }
    true
}

/// Lower-case one ASCII letter; other characters pass through.
pub fn lower_ascii(c: char) -> (r: char)
    ensures
        r == lower_char(c),
{
    if 'A' <= c && c <= 'z' && c <= 'Z' {
        (((c as u8) + 32) as char)
    } else {
        c
    }
}

/// The suffix of `s` after its last `/`; the whole of `s` when it has
/// none. The last segment of a path reads off this way.
pub open spec fn after_last_slash(s: Seq<char>) -> Seq<char>
    decreases s.len(),
{
    if s.len() == 0 {
        Seq::empty()
    } else if s.last() == '/' {
        Seq::empty()
    } else {
        after_last_slash(s.drop_last()).push(s.last())
    }
}

/// The last `/`-separated segment of `s`.
pub fn last_slash_segment(s: &str) -> (r: String)
    ensures
        r@ == after_last_slash(s@),
{
    let n = s.unicode_len();
    let mut i: usize = n;
    proof {
        assert(s@.take(n as int) =~= s@);
        assert(after_last_slash(s@) + s@.subrange(n as int, n as int) =~= after_last_slash(s@));
    }
    while i > 0 && s.get_char(i - 1) != '/'
        invariant
            n == s@.len(),
            i <= n,
            after_last_slash(s@) =~= after_last_slash(s@.take(i as int)) + s@.subrange(
                i as int,
                n as int,
            ),
        decreases i,
    {
        i = i - 1;
        proof {
            assert(s@.take(i + 1).drop_last() =~= s@.take(i as int));
            assert(s@.take(i + 1).last() == s@[i as int]);
            assert(after_last_slash(s@.take(i + 1)) == after_last_slash(s@.take(i as int)).push(
                s@[i as int],
            ));
            assert(after_last_slash(s@.take(i as int)) + s@.subrange(i as int, n as int)
                =~= after_last_slash(s@.take(i + 1)) + s@.subrange(i + 1, n as int));
        }
    }
    proof {
        if i > 0 {
            assert(s@.take(i as int).last() == s@[i - 1]);
            assert(after_last_slash(s@.take(i as int)) =~= Seq::<char>::empty());
        } else {
            assert(s@.take(0) =~= Seq::<char>::empty());
        }
        assert(after_last_slash(s@) =~= s@.subrange(i as int, n as int));
    }
    let seg = s.substring_char(i, n);
    String::from_str(seg)
}

/// `s` split on `sep`, keeping empty segments, as `str::split` does.
pub open spec fn split_spec(s: Seq<char>, sep: char) -> Seq<Seq<char>>
    decreases s.len(),
{
    if s.len() == 0 {
        seq![Seq::empty()]
    } else if s.last() == sep {
        split_spec(s.drop_last(), sep).push(Seq::empty())
    } else {
        let prev = split_spec(s.drop_last(), sep);
        prev.update(prev.len() - 1, prev.last().push(s.last()))
    }
}

/// A split always has at least one segment.
pub proof fn lemma_split_nonempty(s: Seq<char>, sep: char)
    ensures
        split_spec(s, sep).len() >= 1,
    decreases s.len(),
{
    if s.len() > 0 {
        lemma_split_nonempty(s.drop_last(), sep);
    }
}

/// Split `s` on `sep`, keeping empty segments.
pub fn split_char(s: &str, sep: char) -> (r: Vec<String>)
    ensures
        r.deep_view() == split_spec(s@, sep),
{
    let n = s.unicode_len();
    let mut out: Vec<String> = Vec::new();
    let mut start: usize = 0;
    let mut i: usize = 0;
    proof {
        assert(s@.take(0) =~= Seq::<char>::empty());
        assert(out.deep_view().push(s@.subrange(0, 0)) =~= split_spec(s@.take(0), sep));
    }
    while i < n
        invariant
            n == s@.len(),
            start <= i <= n,
            out.deep_view().push(s@.subrange(start as int, i as int)) == split_spec(
                s@.take(i as int),
                sep,
            ),
        decreases n - i,
    {
        let ghost prev_out = out.deep_view();
        let c = s.get_char(i);
        proof {
            assert(s@.take(i + 1).drop_last() =~= s@.take(i as int));
            assert(s@.take(i + 1).last() == s@[i as int]);
            lemma_split_nonempty(s@.take(i as int), sep);
        }
        if c == sep {
            let ghost st = start as int;
            let seg = s.substring_char(start, i);
            out.push(String::from_str(seg));
            start = i + 1;
            proof {
                assert(out.deep_view() =~= prev_out.push(s@.subrange(st, i as int)));
                assert(s@.subrange(start as int, start as int) =~= Seq::<char>::empty());
                assert(out.deep_view().push(s@.subrange(start as int, start as int)) =~= split_spec(
                    s@.take(i + 1),
                    sep,
                ));
            }
        } else {
            proof {
                let whole = prev_out.push(s@.subrange(start as int, i as int));
                assert(whole.last() == s@.subrange(start as int, i as int));
                assert(s@.subrange(start as int, i as int).push(s@[i as int]) =~= s@.subrange(
                    start as int,
                    i + 1,
                ));
                assert(whole.update(whole.len() - 1, s@.subrange(start as int, i + 1))
                    =~= prev_out.push(s@.subrange(start as int, i + 1)));
                assert(out.deep_view().push(s@.subrange(start as int, i + 1)) =~= split_spec(
                    s@.take(i + 1),
                    sep,
                ));
            }
        }
        i = i + 1;
    }
    let seg = s.substring_char(start, n);
    out.push(String::from_str(seg));
    proof {
        assert(s@.take(n as int) =~= s@);
        assert(s@.subrange(start as int, n as int) == seg@);
        assert(out.deep_view() =~= split_spec(s@, sep));
    }
    out
}

/// Segments joined with `/` between them.
pub open spec fn joined_with_slash(parts: Seq<Seq<char>>) -> Seq<char>
    decreases parts.len(),
{
    if parts.len() == 0 {
        Seq::empty()
    } else if parts.len() == 1 {
        parts[0]
    } else {
        joined_with_slash(parts.drop_last()) + seq!['/'] + parts.last()
    }
}

/// Join segments with `/` between them.
pub fn join_with_slash(parts: &Vec<String>) -> (r: String)
    ensures
        r@ == joined_with_slash(parts.deep_view()),
{
    let n = parts.len();
    let mut out = String::new();
    let mut i: usize = 0;
    while i < n
        invariant
            n == parts@.len(),
            i <= n,
            i == 0 ==> out@ =~= Seq::<char>::empty(),
            i > 0 ==> out@ =~= joined_with_slash(parts.deep_view().take(i as int)),
        decreases n - i,
    {
        if i > 0 {
            out.append("/");
            proof {
                reveal_strlit("/");
            }
        }
        out.append(parts[i].as_str());
        i = i + 1;
        proof {
            assert(parts.deep_view().take(i as int).drop_last() =~= parts.deep_view().take(i - 1));
            assert(parts.deep_view().take(i as int).last() == parts.deep_view()[i - 1]);
            if i > 1 {
                assert(out@ =~= joined_with_slash(parts.deep_view().take(i as int)));
            } else {
                assert(out@ =~= joined_with_slash(parts.deep_view().take(1)));
            }
        }
    }
    proof {
        if n > 0 {
            assert(parts.deep_view().take(n as int) =~= parts.deep_view());
        }
    }
    out
}

/// Segments joined with `sep` between them.
pub open spec fn joined_with_sep(parts: Seq<Seq<char>>, sep: Seq<char>) -> Seq<char>
    decreases parts.len(),
{
    if parts.len() == 0 {
        Seq::empty()
    } else if parts.len() == 1 {
        parts[0]
    } else {
        joined_with_sep(parts.drop_last(), sep) + sep + parts.last()
    }
}

/// Join segments with a separator between them.
pub fn join_with_sep(parts: &Vec<String>, sep: &str) -> (r: String)
    ensures
        r@ == joined_with_sep(parts.deep_view(), sep@),
{
    let n = parts.len();
    let mut out = String::new();
    let mut i: usize = 0;
    while i < n
        invariant
            n == parts@.len(),
            i <= n,
            i == 0 ==> out@ =~= Seq::<char>::empty(),
            i > 0 ==> out@ =~= joined_with_sep(parts.deep_view().take(i as int), sep@),
        decreases n - i,
    {
        if i > 0 {
            out.append(sep);
        }
        out.append(parts[i].as_str());
        i = i + 1;
        proof {
            assert(parts.deep_view().take(i as int).drop_last() =~= parts.deep_view().take(i - 1));
            assert(parts.deep_view().take(i as int).last() == parts.deep_view()[i - 1]);
            if i > 1 {
                assert(out@ =~= joined_with_sep(parts.deep_view().take(i as int), sep@));
            } else {
                assert(out@ =~= joined_with_sep(parts.deep_view().take(1), sep@));
            }
        }
    }
    proof {
        if n > 0 {
            assert(parts.deep_view().take(n as int) =~= parts.deep_view());
        }
    }
    out
}

/// `s` with every copy of the non-empty prefix `p` peeled off its
/// front.
pub open spec fn strip_prefix_all(s: Seq<char>, p: Seq<char>) -> Seq<char>
    decreases s.len(),
{
    if p.len() > 0 && has_prefix_spec(s, p) {
        strip_prefix_all(s.skip(p.len() as int), p)
    } else {
        s
    }
}

/// Peel every copy of `p` off the front of `s`.
pub fn strip_all(s: &str, p: &str) -> (r: String)
    requires
        p@.len() > 0,
    ensures
        r@ == strip_prefix_all(s@, p@),
{
    let pl = p.unicode_len();
    let mut start: usize = 0;
    let mut n = s.unicode_len();
    proof {
        assert(s@.subrange(0, n as int) =~= s@);
    }
    loop
        invariant
            pl == p@.len(),
            pl > 0,
            n == s@.len(),
            start <= n,
            strip_prefix_all(s@, p@) == strip_prefix_all(s@.subrange(start as int, n as int), p@),
        decreases n - start,
    {
        let cur = s.substring_char(start, n);
        if cur.unicode_len() >= pl && has_prefix(cur, p) {
            start = start + pl;
            proof {
                assert(s@.subrange(start - pl, n as int).skip(pl as int) =~= s@.subrange(
                    start as int,
                    n as int,
                ));
            }
        } else {
            return String::from_str(cur);
        }
    }
}

/// `s` with every leading `c` removed.
pub open spec fn strip_char_all(s: Seq<char>, c: char) -> Seq<char>
    decreases s.len(),
{
    if s.len() > 0 && s[0] == c {
        strip_char_all(s.skip(1), c)
    } else {
        s
    }
}

/// Remove every leading `c` from `s`.
pub fn strip_leading(s: &str, c: char) -> (r: String)
    ensures
        r@ == strip_char_all(s@, c),
{
    let n = s.unicode_len();
    let mut start: usize = 0;
    proof {
        assert(s@.subrange(0, n as int) =~= s@);
    }
    while start < n && s.get_char(start) == c
        invariant
            n == s@.len(),
            start <= n,
            strip_char_all(s@, c) == strip_char_all(s@.subrange(start as int, n as int), c),
        decreases n - start,
    {
        start = start + 1;
        proof {
            assert(s@.subrange(start - 1, n as int).skip(1) =~= s@.subrange(start as int, n as int));
        }
    }
    String::from_str(s.substring_char(start, n))
}

/// `s` with every non-overlapping occurrence of the non-empty pattern
/// `pat` replaced by `val`, left to right.
pub open spec fn replace_spec(s: Seq<char>, pat: Seq<char>, val: Seq<char>) -> Seq<char>
    decreases s.len(),
{
    if pat.len() == 0 || s.len() < pat.len() {
        s
    } else if has_prefix_spec(s, pat) {
        val + replace_spec(s.skip(pat.len() as int), pat, val)
    } else {
        seq![s[0]] + replace_spec(s.skip(1), pat, val)
    }
}

/// Replace every occurrence of `pat` in `s` with `val`.
pub fn replace_all(s: &str, pat: &str, val: &str) -> (r: String)
    requires
        pat@.len() > 0,
    ensures
        r@ == replace_spec(s@, pat@, val@),
{
    let n = s.unicode_len();
    let pl = pat.unicode_len();
    let mut out = String::new();
    let mut i: usize = 0;
    proof {
        assert(s@.subrange(0, n as int) =~= s@);
        assert(out@ + replace_spec(s@, pat@, val@) =~= replace_spec(s@, pat@, val@));
    }
    while i < n
        invariant
            n == s@.len(),
            pl == pat@.len(),
            pl > 0,
            i <= n,
            out@ + replace_spec(s@.subrange(i as int, n as int), pat@, val@) == replace_spec(
                s@,
                pat@,
                val@,
            ),
        decreases n - i,
    {
        let cur = s.substring_char(i, n);
        if cur.unicode_len() >= pl && has_prefix(cur, pat) {
            out.append(val);
            i = i + pl;
            proof {
                assert(s@.subrange(i - pl, n as int).skip(pl as int) =~= s@.subrange(
                    i as int,
                    n as int,
                ));
            }
        } else {
            let one = s.substring_char(i, i + 1);
            out.append(one);
            i = i + 1;
            proof {
                assert(s@.subrange(i - 1, n as int).skip(1) =~= s@.subrange(i as int, n as int));
                assert(seq![s@.subrange(i - 1, n as int)[0]] =~= s@.subrange(i - 1, i as int));
                assert(s@.subrange(i - 1, n as int) =~= s@.subrange(i - 1, i as int) + s@.subrange(
                    i as int,
                    n as int,
                ));
            }
        }
    }
    proof {
        assert(s@.subrange(n as int, n as int).len() == 0);
        assert(out@ + s@.subrange(n as int, n as int) =~= out@);
    }
    out
}

/// ASCII whitespace.
pub open spec fn is_space(c: char) -> bool {
    c == ' ' || c == '\t' || c == '\n' || c == '\r'
}

pub open spec fn all_spaces(s: Seq<char>) -> bool {
    forall|i: int| 0 <= i < s.len() ==> is_space(#[trigger] s[i])
}

/// Whether the string holds nothing but ASCII whitespace.
pub fn is_blank(s: &str) -> (r: bool)
    ensures
        r == all_spaces(s@),
{
    let n = s.unicode_len();
    let mut i: usize = 0;
    while i < n
        invariant
            n == s@.len(),
            i <= n,
            forall|j: int| 0 <= j < i ==> is_space(#[trigger] s@[j]),
        decreases n - i,
    {
        let c = s.get_char(i);
        if !(c == ' ' || c == '\t' || c == '\n' || c == '\r') {
            return false;
        }
        i = i + 1;
    }
    true
}

} // verus!
