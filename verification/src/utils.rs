use vstd::prelude::*;
use vstd::string::*;

verus! {

broadcast use vstd::seq::group_seq_axioms;

// ---------------------------------------------------------------------------
// Character classes of the lexical grammar.
// ---------------------------------------------------------------------------

pub open spec fn is_digit(c: char) -> bool {
    '0' <= c && c <= '9'
}

pub open spec fn is_space(c: char) -> bool {
    c == ' ' || c == '\t' || c == '\n' || c == '\r'
}

pub open spec fn is_ident_start(c: char) -> bool {
    ('a' <= c && c <= 'z') || ('A' <= c && c <= 'Z')
}

pub open spec fn is_ident_cont(c: char) -> bool {
    is_ident_start(c) || is_digit(c) || c == '_'
}

// ---------------------------------------------------------------------------
// Maximal runs of a character class at the start of the input.
// ---------------------------------------------------------------------------

pub open spec fn digit_run(s: Seq<char>) -> nat
    decreases s.len(),
{
    if s.len() == 0 || !is_digit(s[0]) {
        0
    } else {
        1 + digit_run(s.drop_first())
    }
}

pub open spec fn space_run(s: Seq<char>) -> nat
    decreases s.len(),
{
    if s.len() == 0 || !is_space(s[0]) {
        0
    } else {
        1 + space_run(s.drop_first())
    }
}

pub open spec fn ident_run(s: Seq<char>) -> nat
    decreases s.len(),
{
    if s.len() == 0 || !is_ident_cont(s[0]) {
        0
    } else {
        1 + ident_run(s.drop_first())
    }
}

/// A prefix of length `k` is the maximal digit run exactly when all its
/// characters are digits and the run stops at `k`.
pub proof fn lemma_digit_run_is(s: Seq<char>, k: int)
    requires
        0 <= k <= s.len(),
        forall|j: int| 0 <= j < k ==> is_digit(s[j]),
        k < s.len() ==> !is_digit(s[k]),
    ensures
        digit_run(s) == k,
    decreases s.len(),
{
    if k == 0 {
    } else {
        assert(is_digit(s[0]));
        let t = s.drop_first();
        assert(forall|j: int| 0 <= j < k - 1 ==> is_digit(#[trigger] t[j]) && t[j] == s[j + 1]);
        if k - 1 < t.len() {
            assert(t[k - 1] == s[k]);
        }
        lemma_digit_run_is(t, k - 1);
    }
}

pub proof fn lemma_space_run_is(s: Seq<char>, k: int)
    requires
        0 <= k <= s.len(),
        forall|j: int| 0 <= j < k ==> is_space(s[j]),
        k < s.len() ==> !is_space(s[k]),
    ensures
        space_run(s) == k,
    decreases s.len(),
{
    if k == 0 {
    } else {
        assert(is_space(s[0]));
        let t = s.drop_first();
        assert(forall|j: int| 0 <= j < k - 1 ==> is_space(#[trigger] t[j]) && t[j] == s[j + 1]);
        if k - 1 < t.len() {
            assert(t[k - 1] == s[k]);
        }
        lemma_space_run_is(t, k - 1);
    }
}

pub proof fn lemma_ident_run_is(s: Seq<char>, k: int)
    requires
        0 <= k <= s.len(),
        forall|j: int| 0 <= j < k ==> is_ident_cont(s[j]),
        k < s.len() ==> !is_ident_cont(s[k]),
    ensures
        ident_run(s) == k,
    decreases s.len(),
{
    if k == 0 {
    } else {
        assert(is_ident_cont(s[0]));
        let t = s.drop_first();
        assert(forall|j: int| 0 <= j < k - 1 ==> is_ident_cont(#[trigger] t[j]) && t[j] == s[j + 1]);
        if k - 1 < t.len() {
            assert(t[k - 1] == s[k]);
        }
        lemma_ident_run_is(t, k - 1);
    }
}

// ---------------------------------------------------------------------------
// The lexical primitives, specified over sequences of characters.
// Each consumes a prefix of the input and returns the remainder together
// with what was extracted, or a diagnostic message.
// ---------------------------------------------------------------------------

/// Remainder of `s` after the leading whitespace.
pub open spec fn space_rest(s: Seq<char>) -> Seq<char> {
    s.subrange(space_run(s) as int, s.len() as int)
}

pub open spec fn spec_extract_digits(s: Seq<char>) -> Result<(Seq<char>, Seq<char>), Seq<char>> {
    let start: int = if s.len() > 0 && s[0] == '-' {
        1
    } else {
        0
    };
    let k = digit_run(s.subrange(start, s.len() as int)) as int;
    if k == 0 {
        Err("expected digits"@)
    } else {
        Ok((s.subrange(start + k, s.len() as int), s.subrange(0, start + k)))
    }
}

pub open spec fn spec_extract_ident(s: Seq<char>) -> Result<(Seq<char>, Seq<char>), Seq<char>> {
    if s.len() == 0 || !is_ident_start(s[0]) {
        Err("expected identifier"@)
    } else {
        let k = 1 + ident_run(s.subrange(1, s.len() as int)) as int;
        Ok((s.subrange(k, s.len() as int), s.subrange(0, k)))
    }
}

pub open spec fn spec_extract_whitespace1(s: Seq<char>) -> Result<(Seq<char>, Seq<char>), Seq<char>> {
    if space_run(s) == 0 {
        Err("expected whitespace"@)
    } else {
        Ok((space_rest(s), s.subrange(0, space_run(s) as int)))
    }
}

pub open spec fn spec_tag(t: Seq<char>, s: Seq<char>) -> Result<Seq<char>, Seq<char>> {
    if t.len() <= s.len() && s.subrange(0, t.len() as int) == t {
        Ok(s.subrange(t.len() as int, s.len() as int))
    } else {
        Err("expected "@ + t)
    }
}

// ---------------------------------------------------------------------------
// Executable lexical primitives.
// ---------------------------------------------------------------------------

/// Extracts a maximal run of ASCII digits, optionally preceded by `-`;
/// fails when no digit stands at the start.
pub(crate) fn extract_digits(s: &str) -> (r: Result<(&str, &str), String>)
    ensures
        (match r {
            Ok((rest, text)) => {
                &&& spec_extract_digits(s@) matches Ok(p) && p.0 == rest@ && p.1 == text@
                &&& rest@.len() < s@.len()
                &&& text@.len() >= 1
                &&& (text@[0] == '-' ==> text@.len() >= 2)
                &&& (forall|j: int|
                    (if text@[0] == '-' { 1int } else { 0int }) <= j < text@.len() ==> is_digit(
                        text@[j],
                    ))
            },
            Err(m) => spec_extract_digits(s@) matches Err(em) && m@ == em,
        }),
{
    let n = s.unicode_len();
    let neg = n > 0 && s.get_char(0) == '-';
    let start: usize = if neg { 1 } else { 0 };
    let mut i: usize = start;
    loop
        invariant
            start <= i <= n,
            n == s@.len(),
            start == 1 <==> (s@.len() > 0 && s@[0] == '-'),
            start <= 1,
            forall|j: int| start <= j < i ==> is_digit(s@[j]),
        ensures
            start <= i <= n,
            forall|j: int| start <= j < i ==> is_digit(s@[j]),
            i == n || !is_digit(s@[i as int]),
        decreases n - i,
    {
        if i == n {
            break;
        }
        let c = s.get_char(i);
        if !('0' <= c && c <= '9') {
            break;
        }
        i = i + 1;
    }
    proof {
        let sub = s@.subrange(start as int, n as int);
        assert(forall|j: int| 0 <= j < i - start ==> sub[j] == s@[j + start] && is_digit(#[trigger] sub[j]));
        if i < n {
            assert(sub[i - start] == s@[i as int]);
        }
        lemma_digit_run_is(sub, i - start);
    }
    if i == start {
        Err(String::from_str("expected digits"))
    } else {
        let rest = s.substring_char(i, n);
        let text = s.substring_char(0, i);
        Ok((rest, text))
    }
}

/// Extracts a maximal (possibly empty) run of whitespace.
pub(crate) fn extract_whitespace(s: &str) -> (r: (&str, &str))
    ensures
        r.0@ == space_rest(s@),
        r.1@ == s@.subrange(0, space_run(s@) as int),
        space_run(s@) <= s@.len(),
        r.0@.len() <= s@.len(),
{
    let n = s.unicode_len();
    let mut i: usize = 0;
    loop
        invariant
            i <= n,
            n == s@.len(),
            forall|j: int| 0 <= j < i ==> is_space(s@[j]),
        ensures
            i <= n,
            forall|j: int| 0 <= j < i ==> is_space(s@[j]),
            i == n || !is_space(s@[i as int]),
        decreases n - i,
    {
        if i == n {
            break;
        }
        let c = s.get_char(i);
        if !(c == ' ' || c == '\t' || c == '\n' || c == '\r') {
            break;
        }
        i = i + 1;
    }
    proof {
        lemma_space_run_is(s@, i as int);
    }
    (s.substring_char(i, n), s.substring_char(0, i))
}

/// Like `extract_whitespace`, but fails when no whitespace stands at the start.
pub(crate) fn extract_whitespace1(s: &str) -> (r: Result<(&str, &str), String>)
    ensures
        (match r {
            Ok((rest, ws)) => {
                &&& spec_extract_whitespace1(s@) matches Ok(p) && p.0 == rest@ && p.1 == ws@
                &&& rest@.len() < s@.len()
            },
            Err(m) => spec_extract_whitespace1(s@) matches Err(em) && m@ == em,
        }),
{
    let (rest, ws) = extract_whitespace(s);
    if ws.is_empty() {
        Err(String::from_str("expected whitespace"))
    } else {
        Ok((rest, ws))
    }
}

/// Extracts an identifier: an alphabetic start, then letters, digits or `_`.
pub(crate) fn extract_ident(s: &str) -> (r: Result<(&str, &str), String>)
    ensures
        (match r {
            Ok((rest, text)) => {
                &&& spec_extract_ident(s@) matches Ok(p) && p.0 == rest@ && p.1 == text@
                &&& rest@.len() < s@.len()
                &&& text@.len() >= 1
            },
            Err(m) => spec_extract_ident(s@) matches Err(em) && m@ == em,
        }),
{
    let n = s.unicode_len();
    if n == 0 {
        return Err(String::from_str("expected identifier"));
    }
    let c0 = s.get_char(0);
    if !(('a' <= c0 && c0 <= 'z') || ('A' <= c0 && c0 <= 'Z')) {
        return Err(String::from_str("expected identifier"));
    }
    let mut i: usize = 1;
    loop
        invariant
            1 <= i <= n,
            n == s@.len(),
            forall|j: int| 1 <= j < i ==> is_ident_cont(s@[j]),
        ensures
            1 <= i <= n,
            forall|j: int| 1 <= j < i ==> is_ident_cont(s@[j]),
            i == n || !is_ident_cont(s@[i as int]),
        decreases n - i,
    {
        if i == n {
            break;
        }
        let c = s.get_char(i);
        if !(('a' <= c && c <= 'z') || ('A' <= c && c <= 'Z') || ('0' <= c && c <= '9') || c
            == '_') {
            break;
        }
        i = i + 1;
    }
    proof {
        let sub = s@.subrange(1, n as int);
        assert(forall|j: int| 0 <= j < i - 1 ==> sub[j] == s@[j + 1] && is_ident_cont(#[trigger] sub[j]));
        if i < n {
            assert(sub[i - 1] == s@[i as int]);
        }
        lemma_ident_run_is(sub, i - 1);
    }
    Ok((s.substring_char(i, n), s.substring_char(0, i)))
}

/// Matches and consumes the literal prefix `t`.
pub(crate) fn tag<'a, 'b>(t: &'a str, s: &'b str) -> (r: Result<&'b str, String>)
    ensures
        (match r {
            Ok(rest) => {
                &&& spec_tag(t@, s@) matches Ok(sr) && sr == rest@
                &&& rest@.len() + t@.len() == s@.len()
            },
            Err(m) => spec_tag(t@, s@) matches Err(em) && m@ == em,
        }),
{
    let tn = t.unicode_len();
    let sn = s.unicode_len();
    if sn < tn {
        let mut m = String::from_str("expected ");
        m.append(t);
        return Err(m);
    }
    let mut i: usize = 0;
    loop
        invariant
            i <= tn,
            tn == t@.len(),
            sn == s@.len(),
            tn <= sn,
            forall|j: int| 0 <= j < i ==> s@[j] == t@[j],
        ensures
            i <= tn,
            forall|j: int| 0 <= j < i ==> s@[j] == t@[j],
            i < tn ==> s@[i as int] != t@[i as int],
        decreases tn - i,
    {
        if i == tn {
            break;
        }
        if s.get_char(i) != t.get_char(i) {
            break;
        }
        i = i + 1;
    }
    if i < tn {
        proof {
            assert(s@.subrange(0, tn as int) != t@) by {
                if s@.subrange(0, tn as int) == t@ {
                    assert(s@.subrange(0, tn as int)[i as int] == s@[i as int]);
                }
            }
        }
        let mut m = String::from_str("expected ");
        m.append(t);
        Err(m)
    } else {
        proof {
            assert(s@.subrange(0, tn as int) =~= t@);
        }
        Ok(s.substring_char(tn, sn))
    }
}

/// Character-wise string equality.
pub(crate) fn str_eq(a: &str, b: &str) -> (r: bool)
    ensures
        r == (a@ == b@),
{
    let an = a.unicode_len();
    let bn = b.unicode_len();
    if an != bn {
        return false;
    }
    let mut i: usize = 0;
    loop
        invariant
            i <= an,
            an == a@.len(),
            bn == b@.len(),
            an == bn,
            forall|j: int| 0 <= j < i ==> a@[j] == b@[j],
        ensures
            i <= an,
            forall|j: int| 0 <= j < i ==> a@[j] == b@[j],
            i < an ==> a@[i as int] != b@[i as int],
        decreases an - i,
    {
        if i == an {
            break;
        }
        if a.get_char(i) != b.get_char(i) {
            break;
        }
        i = i + 1;
    }
    if i < an {
        proof {
            assert(a@ != b@) by {
                if a@ == b@ {
                    assert(a@[i as int] == b@[i as int]);
                }
            }
        }
        false
    } else {
        proof {
            assert(a@ =~= b@);
        }
        true
    }
}

// ---------------------------------------------------------------------------
// Decimal numerals.
// ---------------------------------------------------------------------------

/// The integer value of a sequence of decimal digits.
pub open spec fn digits_val(ds: Seq<char>) -> int
    decreases ds.len(),
{
    if ds.len() == 0 {
        0
    } else {
        10 * digits_val(ds.drop_last()) + (ds.last() as int - '0' as int)
    }
}

/// The value of a numeral with an optional leading `-`.
pub open spec fn signed_val(text: Seq<char>) -> int {
    if text.len() > 0 && text[0] == '-' {
        -digits_val(text.subrange(1, text.len() as int))
    } else {
        digits_val(text)
    }
}

pub proof fn lemma_digits_val_nonneg(ds: Seq<char>)
    requires
        forall|j: int| 0 <= j < ds.len() ==> is_digit(ds[j]),
    ensures
        digits_val(ds) >= 0,
    decreases ds.len(),
{
    if ds.len() > 0 {
        lemma_digits_val_nonneg(ds.drop_last());
    }
}

/// Converts the text of a numeral (an optional `-`, then one or more digits)
/// to a 32-bit integer; `None` when the value does not fit.
pub(crate) fn digits_text_to_i32(text: &str) -> (r: Option<i32>)
    requires
        text@.len() >= 1,
        text@[0] == '-' ==> text@.len() >= 2,
        forall|j: int|
            (if text@[0] == '-' { 1int } else { 0int }) <= j < text@.len() ==> is_digit(
                text@[j],
            ),
    ensures
        (({
            let v = signed_val(text@);
            if -2147483648 <= v <= 2147483647 {
                r == Some(v as i32)
            } else {
                r == None::<i32>
            }
        })),
{
    let n = text.unicode_len();
    let neg = text.get_char(0) == '-';
    let start: usize = if neg { 1 } else { 0 };
    let ghost d = text@.subrange(start as int, n as int);
    let mut acc: u64 = 0;
    let mut i: usize = start;
    proof {
        assert(d.subrange(0, 0) =~= Seq::<char>::empty());
    }
    while i < n
        invariant
            start <= i <= n,
            n == text@.len(),
            start == 1 <==> text@[0] == '-',
            start <= 1,
            n >= start + 1,
            d == text@.subrange(start as int, n as int),
            forall|j: int| 0 <= j < d.len() ==> is_digit(d[j]),
            acc <= 21474836489,
            ({
                let v = digits_val(d.subrange(0, i - start));
                if v <= 2147483648 {
                    acc == v
                } else {
                    acc > 2147483648
                }
            }),
        decreases n - i,
    {
        let c = text.get_char(i);
        proof {
            assert(d[i - start] == text@[i as int]);
            assert(is_digit(c));
            assert('0' as u32 == 48);
        }
        let dv: u64 = (c as u32 as u64) - 48;
        proof {
            let pre = d.subrange(0, i - start);
            let post = d.subrange(0, i + 1 - start);
            assert(post.drop_last() =~= pre);
            assert(post.last() == d[i - start] && d[i - start] == text@[i as int]);
            lemma_digits_val_nonneg(pre);
            assert(digits_val(post) == 10 * digits_val(pre) + (text@[i as int] as int - '0' as int));
            assert(dv == text@[i as int] as int - '0' as int);
        }
        if acc > 2147483648 {
            // the value already exceeds the 32-bit range; it can only grow
        } else {
            acc = acc * 10 + dv;
        }
        i = i + 1;
    }
    proof {
        assert(d.subrange(0, n - start) =~= d);
        lemma_digits_val_nonneg(d);
        if start == 0 {
            assert(d =~= text@);
        }
    }
    if neg {
        if acc > 2147483648 {
            None
        } else {
            let v: i64 = -(acc as i64);
            proof {
                assert(signed_val(text@) == -digits_val(d));
            }
            Some(v as i32)
        }
    } else {
        if acc > 2147483647 {
            None
        } else {
            proof {
                assert(d =~= text@);
                assert(signed_val(text@) == digits_val(d));
            }
            Some(acc as i32)
        }
    }
}

// ---------------------------------------------------------------------------
// Decimal rendering of counts, used by diagnostic messages.
// ---------------------------------------------------------------------------

pub open spec fn digit_char(n: nat) -> char {
    if n == 0 {
        '0'
    } else if n == 1 {
        '1'
    } else if n == 2 {
        '2'
    } else if n == 3 {
        '3'
    } else if n == 4 {
        '4'
    } else if n == 5 {
        '5'
    } else if n == 6 {
        '6'
    } else if n == 7 {
        '7'
    } else if n == 8 {
        '8'
    } else {
        '9'
    }
}

/// The decimal numeral of `n`.
pub open spec fn dec_str(n: nat) -> Seq<char>
    decreases n,
{
    if n < 10 {
        seq![digit_char(n)]
    } else {
        dec_str(n / 10).push(digit_char(n % 10))
    }
}

fn digit_str(d: usize) -> (r: String)
    requires
        d < 10,
    ensures
        r@ =~= seq![digit_char(d as nat)],
{
    proof {
        reveal_strlit("0");
        reveal_strlit("1");
        reveal_strlit("2");
        reveal_strlit("3");
        reveal_strlit("4");
        reveal_strlit("5");
        reveal_strlit("6");
        reveal_strlit("7");
        reveal_strlit("8");
        reveal_strlit("9");
    }
    if d == 0 {
        String::from_str("0")
    } else if d == 1 {
        String::from_str("1")
    } else if d == 2 {
        String::from_str("2")
    } else if d == 3 {
        String::from_str("3")
    } else if d == 4 {
        String::from_str("4")
    } else if d == 5 {
        String::from_str("5")
    } else if d == 6 {
        String::from_str("6")
    } else if d == 7 {
        String::from_str("7")
    } else if d == 8 {
        String::from_str("8")
    } else {
        String::from_str("9")
    }
}

/// Renders `n` in decimal.
pub(crate) fn usize_to_string(n: usize) -> (r: String)
    ensures
        r@ == dec_str(n as nat),
    decreases n,
{
    if n < 10 {
        digit_str(n)
    } else {
        let mut r = usize_to_string(n / 10);
        let last = digit_str(n % 10);
        r.append(last.as_str());
        proof {
            assert(r@ =~= dec_str((n / 10) as nat).push(digit_char((n % 10) as nat)));
        }
        r
    }
}

} // verus!
