//! Verified text utilities: substring search, whitespace handling, decimal
//! parsing and decimal rendering, together with the spec-level models that
//! the parser and orchestrator contracts are stated over.

use vstd::prelude::*;
use vstd::string::StrSliceExecFns;
use vstd::string::StringExecFns;

verus! {

/// The whitespace characters the probe-output heuristics treat as separators
/// (the ASCII whitespace set).
pub open spec fn is_space(c: char) -> bool {
    c == ' ' || c == '\t' || c == '\n' || c == '\r' || c == '\u{b}' || c == '\u{c}'
}

/// A decimal digit.
pub open spec fn is_digit(c: char) -> bool {
    48 <= c as u32 <= 57
}

/// Numeric value of a decimal digit character.
pub open spec fn digit_val(c: char) -> int {
    c as u32 - 48
}

/// The digit character for a value below ten.
pub open spec fn digit_char(n: int) -> char {
    if n == 0 {
        '0'
    } else if n == 1 {
        '1'
    } else if n == 2 {
        '2'
    } else if n == 3 {
        '3'
    } else if n == 4 {
        '4'
    } else if n == 5 {
        '5'
    } else if n == 6 {
        '6'
    } else if n == 7 {
        '7'
    } else if n == 8 {
        '8'
    } else {
        '9'
    }
}

/// Value of a digit string, most significant digit first.
pub open spec fn digits_val(s: Seq<char>) -> int
    decreases s.len(),
{
    if s.len() == 0 {
        0
    } else {
        digits_val(s.drop_last()) * 10 + digit_val(s.last())
    }
}

pub open spec fn all_digits(s: Seq<char>) -> bool {
    forall|i: int| 0 <= i < s.len() ==> is_digit(#[trigger] s[i])
}

/// What a decimal read of a number accepts: an optional leading plus sign,
/// then at least one digit, with the value fitting in 32 bits.
pub open spec fn parse_u32_spec(s: Seq<char>) -> Option<u32> {
    let body = if s.len() > 0 && s[0] == '+' {
        s.drop_first()
    } else {
        s
    };
    if body.len() > 0 && all_digits(body) && digits_val(body) <= u32::MAX {
        Some(digits_val(body) as u32)
    } else {
        None
    }
}

/// Decimal digits of a non-negative number, most significant first.
pub open spec fn dec_digits(n: int) -> Seq<char>
    decreases n,
    when n >= 0
{
    if n < 10 {
        seq![digit_char(n)]
    } else {
        dec_digits(n / 10) + seq![digit_char(n % 10)]
    }
}

/// The pattern occurs in `text` at position `i`.
pub open spec fn match_at(text: Seq<char>, pat: Seq<char>, i: int) -> bool {
    0 <= i && i + pat.len() <= text.len() && text.subrange(i, i + pat.len()) == pat
}

/// Position of the first occurrence of `pat` at or after `i`, if any.
pub open spec fn find_from(text: Seq<char>, pat: Seq<char>, i: int) -> Option<int>
    decreases text.len() - i,
    when 0 <= i
    via find_from_decreases
{
    if i + pat.len() > text.len() {
        None
    } else if match_at(text, pat, i) {
        Some(i)
    } else {
        find_from(text, pat, i + 1)
    }
}

#[via_fn]
proof fn find_from_decreases(text: Seq<char>, pat: Seq<char>, i: int) {
    lemma_empty_pattern_matches(text, pat, i);
}

/// An empty pattern matches at every position inside the text.
proof fn lemma_empty_pattern_matches(text: Seq<char>, pat: Seq<char>, i: int)
    ensures
        pat.len() == 0 && 0 <= i <= text.len() ==> match_at(text, pat, i),
{
    if pat.len() == 0 && 0 <= i <= text.len() {
        assert(text.subrange(i, i) =~= pat);
    }
}

/// Position of the first occurrence of `pat` in `text`, if any.
pub open spec fn find_index(text: Seq<char>, pat: Seq<char>) -> Option<int> {
    find_from(text, pat, 0)
}

pub open spec fn contains_seq(text: Seq<char>, pat: Seq<char>) -> bool {
    find_index(text, pat) is Some
}

/// A found position is a match, and the first one.
pub proof fn lemma_find_from_some(text: Seq<char>, pat: Seq<char>, i: int, j: int)
    requires
        0 <= i,
        find_from(text, pat, i) == Some(j),
    ensures
        i <= j,
        match_at(text, pat, j),
        forall|k: int| i <= k < j ==> !match_at(text, pat, k),
    decreases text.len() - i,
{
    if i + pat.len() > text.len() {
    } else if match_at(text, pat, i) {
    } else {
        lemma_empty_pattern_matches(text, pat, i);
        lemma_find_from_some(text, pat, i + 1, j);
    }
}

/// When nothing is found there is no match anywhere at or after `i`.
pub proof fn lemma_find_from_none(text: Seq<char>, pat: Seq<char>, i: int)
    requires
        0 <= i,
        find_from(text, pat, i) is None,
    ensures
        forall|k: int| i <= k ==> !match_at(text, pat, k),
    decreases text.len() - i,
{
    if i + pat.len() > text.len() {
        assert forall|k: int| i <= k implies !match_at(text, pat, k) by {
            assert(k + pat.len() > text.len());
        }
    } else if match_at(text, pat, i) {
    } else {
        lemma_empty_pattern_matches(text, pat, i);
        lemma_find_from_none(text, pat, i + 1);
    }
}

proof fn lemma_find_from_first(text: Seq<char>, pat: Seq<char>, i: int, j: int)
    requires
        0 <= i <= j,
        match_at(text, pat, j),
        forall|k: int| i <= k < j ==> !match_at(text, pat, k),
    ensures
        find_from(text, pat, i) == Some(j),
    decreases j - i,
{
    if i == j {
    } else {
        lemma_find_from_first(text, pat, i + 1, j);
    }
}

/// A pattern that matches somewhere is contained.
pub proof fn lemma_match_implies_contains(text: Seq<char>, pat: Seq<char>, j: int)
    requires
        match_at(text, pat, j),
    ensures
        contains_seq(text, pat),
{
    if find_index(text, pat) is None {
        lemma_find_from_none(text, pat, 0);
    }
}

/// A match that no earlier position shares is the one the search finds.
pub proof fn lemma_find_first(text: Seq<char>, pat: Seq<char>, j: int)
    requires
        match_at(text, pat, j),
        forall|k: int| 0 <= k < j ==> !match_at(text, pat, k),
    ensures
        find_index(text, pat) == Some(j),
{
    lemma_find_from_first(text, pat, 0, j);
}

/// Leading spaces removed.
pub open spec fn trim_start_spec(s: Seq<char>) -> Seq<char>
    decreases s.len(),
{
    if s.len() > 0 && is_space(s[0]) {
        trim_start_spec(s.drop_first())
    } else {
        s
    }
}

/// Trailing spaces removed.
pub open spec fn trim_end_spec(s: Seq<char>) -> Seq<char>
    decreases s.len(),
{
    if s.len() > 0 && is_space(s.last()) {
        trim_end_spec(s.drop_last())
    } else {
        s
    }
}

/// Surrounding whitespace removed, over the ASCII whitespace set the
/// heuristics use.
pub open spec fn trim_spec(s: Seq<char>) -> Seq<char> {
    trim_end_spec(trim_start_spec(s))
}

/// Position of the first newline at or after `i`, or the length of `s`.
pub open spec fn line_end(s: Seq<char>, i: int) -> int
    decreases s.len() - i,
    when 0 <= i <= s.len()
{
    if i >= s.len() {
        i
    } else if s[i] == '\n' {
        i
    } else {
        line_end(s, i + 1)
    }
}

pub proof fn lemma_line_end_bounds(s: Seq<char>, i: int)
    requires
        0 <= i <= s.len(),
    ensures
        i <= line_end(s, i) <= s.len(),
        line_end(s, i) < s.len() ==> s[line_end(s, i)] == '\n',
    decreases s.len() - i,
{
    if i >= s.len() {
    } else if s[i] == '\n' {
    } else {
        lemma_line_end_bounds(s, i + 1);
    }
}

/// One trailing carriage return removed, as `str::lines` does.
pub open spec fn strip_cr(s: Seq<char>) -> Seq<char> {
    if s.len() > 0 && s.last() == '\r' {
        s.drop_last()
    } else {
        s
    }
}

/// The lines of `s`: segments between newlines, each without a trailing
/// carriage return. Text ending in a newline yields a final empty segment,
/// which none of the probe-output heuristics can match.
pub open spec fn split_lines_spec(s: Seq<char>) -> Seq<Seq<char>>
    decreases s.len(),
    via split_lines_decreases
{
    let j = line_end(s, 0);
    if j == s.len() {
        seq![strip_cr(s)]
    } else {
        seq![strip_cr(s.take(j))] + split_lines_spec(s.skip(j + 1))
    }
}

#[via_fn]
proof fn split_lines_decreases(s: Seq<char>) {
    lemma_line_end_bounds(s, 0);
}

/// Position of the first space at or after `i`, or the length of `s`.
pub open spec fn token_end(s: Seq<char>, i: int) -> int
    decreases s.len() - i,
    when 0 <= i <= s.len()
{
    if i >= s.len() {
        i
    } else if is_space(s[i]) {
        i
    } else {
        token_end(s, i + 1)
    }
}

pub proof fn lemma_token_end_bounds(s: Seq<char>, i: int)
    requires
        0 <= i <= s.len(),
    ensures
        i <= token_end(s, i) <= s.len(),
    decreases s.len() - i,
{
    if i >= s.len() {
    } else if is_space(s[i]) {
    } else {
        lemma_token_end_bounds(s, i + 1);
    }
}

/// The whitespace-separated tokens of `s`, in order.
pub open spec fn split_ws_spec(s: Seq<char>) -> Seq<Seq<char>>
    decreases s.len(),
    via split_ws_decreases
{
    if s.len() == 0 {
        Seq::empty()
    } else if is_space(s[0]) {
        split_ws_spec(s.drop_first())
    } else {
        let j = token_end(s, 1);
        seq![s.take(j)] + split_ws_spec(s.skip(j))
    }
}

#[via_fn]
proof fn split_ws_decreases(s: Seq<char>) {
    if s.len() > 0 && !is_space(s[0]) {
        lemma_token_end_bounds(s, 1);
    }
}

/// The views of a sequence of character vectors.
pub open spec fn views_of(vs: Seq<Vec<char>>) -> Seq<Seq<char>> {
    vs.map_values(|v: Vec<char>| v@)
}

/// The characters of a string, in order.
pub fn to_chars(s: &str) -> (r: Vec<char>)
    ensures
        r@ == s@,
{
    let n: usize = s.unicode_len();
    let mut r: Vec<char> = Vec::new();
    let mut i: usize = 0;
    while i < n
        invariant
            i <= n,
            n == s@.len(),
            r@ == s@.take(i as int),
        decreases n - i,
    {
        let c = s.get_char(i);
        r.push(c);
        i = i + 1;
        proof {
            assert(r@ =~= s@.take(i as int));
        }
    }
    proof {
        assert(s@.take(n as int) =~= s@);
    }
    r
}

/// A copy of `s[from..to]`.
pub fn copy_range(s: &Vec<char>, from: usize, to: usize) -> (r: Vec<char>)
    requires
        from <= to <= s@.len(),
    ensures
        r@ == s@.subrange(from as int, to as int),
{
    let mut r: Vec<char> = Vec::new();
    let mut i: usize = from;
    while i < to
        invariant
            from <= i <= to <= s@.len(),
            r@ == s@.subrange(from as int, i as int),
        decreases to - i,
    {
        let c = s[i];
        r.push(c);
        i = i + 1;
        proof {
            assert(r@ =~= s@.subrange(from as int, i as int));
        }
    }
    r
}

fn is_space_char(c: char) -> (b: bool)
    ensures
        b == is_space(c),
{
    c == ' ' || c == '\t' || c == '\n' || c == '\r' || c == '\u{b}' || c == '\u{c}'
}

/// Whether `pat` occurs in `text` at position `i`.
pub fn check_match_at(text: &Vec<char>, pat: &Vec<char>, i: usize) -> (b: bool)
    requires
        i + pat@.len() <= text@.len(),
    ensures
        b == match_at(text@, pat@, i as int),
{
    let mut j: usize = 0;
    while j < pat.len()
        invariant
            j <= pat.len(),
            i + pat.len() <= text.len(),
            forall|k: int| 0 <= k < j ==> text@[i + k] == pat@[k],
        decreases pat@.len() - j,
    {
        if text[i + j] != pat[j] {
            proof {
                if match_at(text@, pat@, i as int) {
                    assert(text@.subrange(i as int, i + pat@.len())[j as int] == text@[i + j]);
                }
            }
            return false;
        }
        j = j + 1;
    }
    proof {
        assert(text@.subrange(i as int, i + pat@.len()) =~= pat@);
    }
    true
}

/// Position of the first occurrence of `pat` in `text`, if any.
pub fn find_pattern(text: &Vec<char>, pat: &Vec<char>) -> (r: Option<usize>)
    ensures
        match r {
            Some(j) => find_index(text@, pat@) == Some(j as int),
            None => find_index(text@, pat@) is None,
        },
{
    if pat.len() > text.len() {
        return None;
    }
    let last = text.len() - pat.len();
    let mut i: usize = 0;
    loop
        invariant
            i <= last,
            pat.len() <= text.len(),
            last == text.len() - pat.len(),
            find_from(text@, pat@, 0) == find_from(text@, pat@, i as int),
        decreases last - i,
    {
        if check_match_at(text, pat, i) {
            return Some(i);
        }
        if i == last {
            proof {
                assert(find_from(text@, pat@, i as int) == find_from(text@, pat@, i + 1));
                assert(find_from(text@, pat@, i + 1) is None);
            }
            return None;
        }
        i = i + 1;
    }
}

/// Whether `pat` occurs anywhere in `text`.
pub fn contains_pattern(text: &Vec<char>, pat: &Vec<char>) -> (b: bool)
    ensures
        b == contains_seq(text@, pat@),
{
    match find_pattern(text, pat) {
        Some(_) => true,
        None => false,
    }
}

/// `s` with surrounding whitespace removed.
pub fn trim_chars(s: &Vec<char>) -> (r: Vec<char>)
    ensures
        r@ == trim_spec(s@),
{
    proof {
        assert(s@.skip(0) =~= s@);
    }
    let mut a: usize = 0;
    while a < s.len() && is_space_char(s[a])
        invariant
            a <= s.len(),
            trim_start_spec(s@) == trim_start_spec(s@.skip(a as int)),
        decreases s@.len() - a,
    {
        proof {
            assert(s@.skip(a as int)[0] == s@[a as int]);
            assert(s@.skip(a as int).drop_first() =~= s@.skip(a as int + 1));
        }
        a = a + 1;
    }
    proof {
        if a < s.len() {
            assert(s@.skip(a as int)[0] == s@[a as int]);
        }
        assert(trim_start_spec(s@) == s@.skip(a as int));
    }
    let ghost t = s@.skip(a as int);
    let mut b: usize = s.len() - a;
    proof {
        assert(t.take(b as int) =~= t);
    }
    while b > 0 && is_space_char(s[a + b - 1])
        invariant
            a + b <= s.len(),
            t == s@.skip(a as int),
            trim_end_spec(t) == trim_end_spec(t.take(b as int)),
        decreases b,
    {
        proof {
            assert(t.take(b as int).last() == s@[a + b - 1]);
            assert(t.take(b as int).drop_last() =~= t.take(b as int - 1));
        }
        b = b - 1;
    }
    proof {
        if b > 0 {
            assert(t.take(b as int).last() == s@[a + b - 1]);
        }
        assert(trim_end_spec(t.take(b as int)) == t.take(b as int));
        assert(t.take(b as int) =~= s@.subrange(a as int, a as int + b as int));
    }
    copy_range(s, a, a + b)
}

/// Values of longer digit-string prefixes never shrink.
pub proof fn lemma_digits_val_nonneg(s: Seq<char>)
    requires
        all_digits(s),
    ensures
        digits_val(s) >= 0,
    decreases s.len(),
{
    if s.len() > 0 {
        assert(all_digits(s.drop_last()));
        lemma_digits_val_nonneg(s.drop_last());
    }
}

pub proof fn lemma_digits_val_prefix(s: Seq<char>, i: int)
    requires
        all_digits(s),
        0 <= i <= s.len(),
    ensures
        digits_val(s.take(i)) <= digits_val(s),
    decreases s.len() - i,
{
    if i == s.len() {
        assert(s.take(i) =~= s);
    } else {
        assert(s.take(i + 1).drop_last() =~= s.take(i));
        assert(s.take(i + 1).last() == s[i]);
        assert(all_digits(s.take(i)));
        lemma_digits_val_nonneg(s.take(i));
        lemma_digits_val_prefix(s, i + 1);
    }
}

/// A pure digit string passes trimming and number parsing unchanged.
pub proof fn lemma_digits_parse_exact(ds: Seq<char>)
    requires
        ds.len() > 0,
        all_digits(ds),
        digits_val(ds) <= u32::MAX,
    ensures
        trim_spec(ds) == ds,
        parse_u32_spec(ds) == Some(digits_val(ds) as u32),
{
    assert(is_digit(ds[0]));
    assert(is_digit(ds.last()));
    assert(' ' as u32 == 32 && '\t' as u32 == 9 && '\n' as u32 == 10 && '\r' as u32 == 13
        && '\u{b}' as u32 == 11 && '\u{c}' as u32 == 12 && '+' as u32 == 43);
    assert(!is_space(ds[0]));
    assert(!is_space(ds.last()));
    assert(trim_start_spec(ds) == ds);
    assert(trim_end_spec(ds) == ds);
    assert(ds[0] != '+');
}

/// What `str::parse::<u32>` returns on the characters of `s`.
pub fn parse_u32_chars(s: &Vec<char>) -> (r: Option<u32>)
    ensures
        r == parse_u32_spec(s@),
{
    let mut start: usize = 0;
    if s.len() > 0 && s[0] == '+' {
        start = 1;
    }
    let ghost body = if start == 1 {
        s@.drop_first()
    } else {
        s@
    };
    proof {
        if start == 1 {
            assert(body =~= s@.skip(1));
        } else {
            assert(body =~= s@.skip(0));
        }
    }
    if s.len() == start {
        return None;
    }
    let mut acc: u64 = 0;
    let mut i: usize = start;
    while i < s.len()
        invariant
            start <= i <= s.len(),
            start <= 1,
            (s@.len() > 0 && s@[0] == '+') <==> start == 1,
            body == (if start == 1 { s@.drop_first() } else { s@ }),
            body == s@.skip(start as int),
            body.len() == s@.len() - start,
            all_digits(body.take(i - start)),
            acc == digits_val(body.take(i - start)),
            acc <= u32::MAX,
        decreases s@.len() - i,
    {
        let c = s[i];
        let u = c as u32;
        proof {
            assert(body[i - start] == s@[i as int]);
            assert(body.take(i - start + 1).drop_last() =~= body.take(i - start));
            assert(body.take(i - start + 1).last() == body[i - start]);
        }
        if u < 48 || u > 57 {
            proof {
                assert(!is_digit(body[i - start]));
            }
            return None;
        }
        let d: u64 = (u - 48) as u64;
        if acc > (u32::MAX as u64 - d) / 10 {
            proof {
                assert(all_digits(body.take(i - start + 1)));
                assert(digits_val(body.take(i - start + 1)) == acc * 10 + d);
                assert(acc * 10 + d > u32::MAX);
                if all_digits(body) {
                    lemma_digits_val_prefix(body, i - start + 1);
                    assert(digits_val(body) > u32::MAX);
                }
            }
            return None;
        }
        acc = acc * 10 + d;
        i = i + 1;
    }
    proof {
        assert(body.take(i - start) =~= body);
    }
    Some(acc as u32)
}

/// Sum of a sequence of values.
pub open spec fn sum_u32(vals: Seq<u32>) -> int
    decreases vals.len(),
{
    if vals.len() == 0 {
        0
    } else {
        sum_u32(vals.drop_last()) + vals.last()
    }
}

pub proof fn lemma_sum_u32_push(vals: Seq<u32>, v: u32)
    ensures
        sum_u32(vals.push(v)) == sum_u32(vals) + v,
{
    assert(vals.push(v).drop_last() =~= vals);
}

/// A value no greater than `b * m` divides by `b` to no more than `m`.
pub proof fn lemma_div_bound(a: int, b: int, m: int)
    requires
        0 <= a,
        1 <= b,
        0 <= m,
        a <= b * m,
    ensures
        0 <= a / b <= m,
{
    vstd::arithmetic::div_mod::lemma_div_pos_is_pos(a, b);
    vstd::arithmetic::div_mod::lemma_div_is_ordered(a, b * m, b);
    vstd::arithmetic::mul::lemma_mul_is_commutative(b, m);
    vstd::arithmetic::div_mod::lemma_div_by_multiple(m, b);
}

pub proof fn lemma_views_push(vs: Seq<Vec<char>>, v: Vec<char>)
    ensures
        views_of(vs.push(v)) =~= views_of(vs).push(v@),
{
}

fn split_lines_from(s: &Vec<char>, from: usize, acc: &mut Vec<Vec<char>>)
    requires
        from <= s@.len(),
    ensures
        views_of(final(acc)@) == views_of(old(acc)@) + split_lines_spec(s@.skip(from as int)),
    decreases s@.len() - from,
{
    let ghost t = s@.skip(from as int);
    let mut j: usize = from;
    while j < s.len() && s[j] != '\n'
        invariant
            from <= j <= s.len(),
            t == s@.skip(from as int),
            line_end(t, 0) == line_end(t, j - from),
        decreases s@.len() - j,
    {
        proof {
            assert(t[j - from] == s@[j as int]);
        }
        j = j + 1;
    }
    proof {
        if j < s.len() {
            assert(t[j - from] == s@[j as int]);
        }
        assert(line_end(t, 0) == j - from);
    }
    let mut line = copy_range(s, from, j);
    proof {
        assert(line@ =~= t.take(j - from));
    }
    if line.len() > 0 && line[line.len() - 1] == '\r' {
        let _ = line.pop();
    }
    proof {
        assert(line@ == strip_cr(t.take(j - from)));
    }
    acc.push(line);
    proof {
        lemma_views_push(old(acc)@, line);
    }
    if j == s.len() {
        proof {
            assert(t.take(j - from) =~= t);
            assert(split_lines_spec(t) == seq![strip_cr(t)]);
            assert(views_of(old(acc)@).push(strip_cr(t)) =~= views_of(old(acc)@) + seq![
                strip_cr(t),
            ]);
        }
    } else {
        let ghost before = acc@;
        split_lines_from(s, j + 1, acc);
        proof {
            assert(t.skip(j - from + 1) =~= s@.skip(j + 1));
            assert(split_lines_spec(t) == seq![strip_cr(t.take(j - from))] + split_lines_spec(
                t.skip(j - from + 1),
            ));
            assert(views_of(old(acc)@).push(strip_cr(t.take(j - from))) + split_lines_spec(
                t.skip(j - from + 1),
            ) =~= views_of(old(acc)@) + split_lines_spec(t));
        }
    }
}

/// The lines of `s`, as `split_lines_spec` describes them.
pub fn split_lines_vec(s: &Vec<char>) -> (r: Vec<Vec<char>>)
    ensures
        views_of(r@) == split_lines_spec(s@),
{
    let mut acc: Vec<Vec<char>> = Vec::new();
    split_lines_from(s, 0, &mut acc);
    proof {
        assert(s@.skip(0) =~= s@);
        assert(views_of(Seq::<Vec<char>>::empty()) + split_lines_spec(s@) =~= split_lines_spec(
            s@,
        ));
    }
    acc
}

fn split_ws_from(s: &Vec<char>, from: usize, acc: &mut Vec<Vec<char>>)
    requires
        from <= s@.len(),
    ensures
        views_of(final(acc)@) == views_of(old(acc)@) + split_ws_spec(s@.skip(from as int)),
    decreases s@.len() - from,
{
    let ghost t = s@.skip(from as int);
    if from == s.len() {
        proof {
            assert(t.len() == 0);
            assert(views_of(acc@) + split_ws_spec(t) =~= views_of(acc@));
        }
        return ;
    }
    proof {
        assert(t[0] == s@[from as int]);
    }
    if is_space_char(s[from]) {
        proof {
            assert(t.drop_first() =~= s@.skip(from as int + 1));
        }
        split_ws_from(s, from + 1, acc);
        return ;
    }
    let mut j: usize = from + 1;
    while j < s.len() && !is_space_char(s[j])
        invariant
            from + 1 <= j <= s.len(),
            t == s@.skip(from as int),
            t.len() == s@.len() - from,
            token_end(t, 1) == token_end(t, j - from),
        decreases s@.len() - j,
    {
        proof {
            assert(t[j - from] == s@[j as int]);
        }
        j = j + 1;
    }
    proof {
        if j < s.len() {
            assert(t[j - from] == s@[j as int]);
        }
        assert(token_end(t, 1) == j - from);
    }
    let tok = copy_range(s, from, j);
    proof {
        assert(tok@ =~= t.take(j - from));
    }
    acc.push(tok);
    proof {
        lemma_views_push(old(acc)@, tok);
    }
    split_ws_from(s, j, acc);
    proof {
        assert(t.skip(j - from) =~= s@.skip(j as int));
        assert(split_ws_spec(t) == seq![t.take(j - from)] + split_ws_spec(t.skip(j - from)));
        assert(views_of(old(acc)@).push(t.take(j - from)) + split_ws_spec(t.skip(j - from))
            =~= views_of(old(acc)@) + split_ws_spec(t));
    }
}

/// The whitespace-separated tokens of `s`, as `split_ws_spec` describes them.
pub fn split_ws_vec(s: &Vec<char>) -> (r: Vec<Vec<char>>)
    ensures
        views_of(r@) == split_ws_spec(s@),
{
    let mut acc: Vec<Vec<char>> = Vec::new();
    split_ws_from(s, 0, &mut acc);
    proof {
        assert(s@.skip(0) =~= s@);
        assert(views_of(Seq::<Vec<char>>::empty()) + split_ws_spec(s@) =~= split_ws_spec(s@));
    }
    acc
}

fn digit_str(d: u64) -> (r: &'static str)
    requires
        d < 10,
    ensures
        r@ == seq![digit_char(d as int)],
{
    proof {
        reveal_strlit("0");
        reveal_strlit("1");
        reveal_strlit("2");
        reveal_strlit("3");
        reveal_strlit("4");
        reveal_strlit("5");
        reveal_strlit("6");
        reveal_strlit("7");
        reveal_strlit("8");
        reveal_strlit("9");
        assert("0"@ =~= seq!['0']);
        assert("1"@ =~= seq!['1']);
        assert("2"@ =~= seq!['2']);
        assert("3"@ =~= seq!['3']);
        assert("4"@ =~= seq!['4']);
        assert("5"@ =~= seq!['5']);
        assert("6"@ =~= seq!['6']);
        assert("7"@ =~= seq!['7']);
        assert("8"@ =~= seq!['8']);
        assert("9"@ =~= seq!['9']);
    }
    if d == 0 {
        "0"
    } else if d == 1 {
        "1"
    } else if d == 2 {
        "2"
    } else if d == 3 {
        "3"
    } else if d == 4 {
        "4"
    } else if d == 5 {
        "5"
    } else if d == 6 {
        "6"
    } else if d == 7 {
        "7"
    } else if d == 8 {
        "8"
    } else {
        "9"
    }
}

/// The decimal rendering of `n`.
pub fn dec_string(n: u64) -> (r: String)
    ensures
        r@ == dec_digits(n as int),
    decreases n,
{
    if n < 10 {
        digit_str(n).to_owned()
    } else {
        let mut s = dec_string(n / 10);
        s.append(digit_str(n % 10));
        s
    }
}

} // verus!
