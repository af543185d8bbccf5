//! The output parser: extracts a millisecond latency value from unstructured
//! echo-probe text through an ordered cascade of extraction strategies, each
//! specified on its own so the cascade order stays visible.

use vstd::prelude::*;
use crate::text::{
    contains_pattern, contains_seq, copy_range, find_index, find_pattern, match_at,
    parse_u32_chars, parse_u32_spec, split_lines_spec, split_lines_vec, split_ws_spec,
    split_ws_vec, sum_u32, to_chars, trim_chars, trim_spec, views_of,
};

verus! {

pub open spec fn avg_key() -> Seq<char> {
    "Average = "@
}

pub open spec fn min_key() -> Seq<char> {
    "Minimum = "@
}

pub open spec fn max_key() -> Seq<char> {
    "Maximum = "@
}

pub open spec fn ms_key() -> Seq<char> {
    "ms"@
}

pub open spec fn reply_key() -> Seq<char> {
    "Reply from"@
}

pub open spec fn time_key() -> Seq<char> {
    "time="@
}

/// The value announced after `key`: the text between the first occurrence of
/// `key` and the next `"ms"`, trimmed and read as a decimal number.
pub open spec fn keyed_value(text: Seq<char>, key: Seq<char>) -> Option<u32> {
    match find_index(text, key) {
        None => None,
        Some(i) => {
            let rest = text.skip(i + key.len());
            match find_index(rest, ms_key()) {
                None => None,
                Some(j) => parse_u32_spec(trim_spec(rest.take(j))),
            }
        },
    }
}

/// The per-reply value of one line: lines that name a reply carry
/// `"time=<value>ms"`; other lines carry nothing.
pub open spec fn line_reply_value(line: Seq<char>) -> Option<u32> {
    if contains_seq(line, reply_key()) {
        keyed_value(line, time_key())
    } else {
        None
    }
}

/// The reply values of the lines that carry one, in line order.
pub open spec fn reply_values(lines: Seq<Seq<char>>) -> Seq<u32>
    decreases lines.len(),
{
    if lines.len() == 0 {
        Seq::empty()
    } else {
        let rest = reply_values(lines.drop_last());
        match line_reply_value(lines.last()) {
            None => rest,
            Some(v) => rest.push(v),
        }
    }
}

/// The mean of the per-reply values, rounded toward zero, when at least one
/// line carries a value.
pub open spec fn reply_mean(text: Seq<char>) -> Option<u32> {
    let vals = reply_values(split_lines_spec(text));
    if vals.len() > 0 {
        Some((sum_u32(vals) / vals.len() as int) as u32)
    } else {
        None
    }
}

/// The value of one whitespace-delimited token: a token ending in `"ms"`
/// whose prefix reads as a decimal number carries that number.
pub open spec fn token_ms_value(tok: Seq<char>) -> Option<u32> {
    if tok.len() >= 2 && tok.skip(tok.len() - 2) == ms_key() {
        parse_u32_spec(tok.take(tok.len() - 2))
    } else {
        None
    }
}

/// The first token value in the given token order.
pub open spec fn first_token_value(toks: Seq<Seq<char>>) -> Option<u32>
    decreases toks.len(),
{
    if toks.len() == 0 {
        None
    } else {
        match token_ms_value(toks[0]) {
            Some(v) => Some(v),
            None => first_token_value(toks.drop_first()),
        }
    }
}

/// The first `"<number>ms"` token of the text, in line-then-token order.
pub open spec fn first_ms_token(text: Seq<char>) -> Option<u32> {
    first_token_value(split_ws_spec(text))
}

/// The full cascade, first strategy that yields a value wins: the
/// `"Average = "` summary, then the mean of the `"Reply from ... time="`
/// lines, then the `"Minimum = "` and `"Maximum = "` summaries, then the
/// first bare `"<number>ms"` token.
pub open spec fn extracted_latency(text: Seq<char>) -> Option<u32> {
    if keyed_value(text, avg_key()) is Some {
        keyed_value(text, avg_key())
    } else if reply_mean(text) is Some {
        reply_mean(text)
    } else if keyed_value(text, min_key()) is Some {
        keyed_value(text, min_key())
    } else if keyed_value(text, max_key()) is Some {
        keyed_value(text, max_key())
    } else {
        first_ms_token(text)
    }
}

/// The value announced after `key` in `text`, per `keyed_value`.
pub fn keyed_value_chars(text: &Vec<char>, key: &Vec<char>) -> (r: Option<u32>)
    ensures
        r == keyed_value(text@, key@),
{
    let ms = to_chars("ms");
    match find_pattern(text, key) {
        None => None,
        Some(i) => {
            proof {
                crate::text::lemma_find_from_some(text@, key@, 0, i as int);
                assert(i + key@.len() <= text@.len());
                assert(text@.len() == text.len());
            }
            let rest = copy_range(text, i + key.len(), text.len());
            proof {
                assert(rest@ =~= text@.skip(i + key@.len()));
            }
            match find_pattern(&rest, &ms) {
                None => None,
                Some(j) => {
                    proof {
                        crate::text::lemma_find_from_some(rest@, ms@, 0, j as int);
                    }
                    let slice = copy_range(&rest, 0, j);
                    proof {
                        assert(slice@ =~= rest@.take(j as int));
                    }
                    let trimmed = trim_chars(&slice);
                    parse_u32_chars(&trimmed)
                },
            }
        },
    }
}

/// The mean of the reply-line values of `text`, per `reply_mean`.
pub fn reply_mean_chars(text: &Vec<char>) -> (r: Option<u32>)
    ensures
        r == reply_mean(text@),
{
    let reply = to_chars("Reply from");
    let timek = to_chars("time=");
    let lines = split_lines_vec(text);
    let ghost lviews = views_of(lines@);
    let mut total: u128 = 0;
    let mut count: u64 = 0;
    let mut i: usize = 0;
    while i < lines.len()
        invariant
            i <= lines.len(),
            lviews == views_of(lines@),
            lviews.len() == lines@.len(),
            reply@ == reply_key(),
            timek@ == time_key(),
            count <= i,
            lines@.len() == lines.len(),
            count == reply_values(lviews.take(i as int)).len(),
            total == sum_u32(reply_values(lviews.take(i as int))),
            total <= count * (u32::MAX as int),
        decreases lines@.len() - i,
    {
        let ghost prefix = lviews.take(i as int);
        proof {
            assert(lviews.take(i + 1).drop_last() =~= prefix);
            assert(lviews.take(i + 1).last() == lviews[i as int]);
            assert(lviews[i as int] == lines@[i as int]@);
        }
        let line = &lines[i];
        let v: Option<u32> = if contains_pattern(line, &reply) {
            keyed_value_chars(line, &timek)
        } else {
            None
        };
        proof {
            assert(v == line_reply_value(lviews[i as int]));
        }
        match v {
            Some(t) => {
                proof {
                    crate::text::lemma_sum_u32_push(reply_values(prefix), t);
                    assert(count * (u32::MAX as int) + (u32::MAX as int) == (count + 1) * (
                    u32::MAX as int)) by (nonlinear_arith);
                }
                total = total + (t as u128);
                count = count + 1;
            },
            None => {},
        }
        i = i + 1;
    }
    proof {
        assert(lviews.take(lines@.len() as int) =~= lviews);
    }
    if count == 0 {
        None
    } else {
        let mean: u128 = total / (count as u128);
        proof {
            crate::text::lemma_div_bound(total as int, count as int, u32::MAX as int);
        }
        Some(mean as u32)
    }
}

/// The first `"<number>ms"` token of `text`, per `first_ms_token`.
pub fn first_ms_token_chars(text: &Vec<char>) -> (r: Option<u32>)
    ensures
        r == first_ms_token(text@),
{
    let ms = to_chars("ms");
    proof {
        reveal_strlit("ms");
        assert(ms@.len() == 2);
    }
    let toks = split_ws_vec(text);
    let ghost tviews = views_of(toks@);
    proof {
        assert(tviews.skip(0) =~= tviews);
    }
    let mut i: usize = 0;
    while i < toks.len()
        invariant
            i <= toks.len(),
            tviews == views_of(toks@),
            tviews == split_ws_spec(text@),
            tviews.len() == toks@.len(),
            ms@ == ms_key(),
            ms@.len() == 2,
            first_token_value(tviews) == first_token_value(tviews.skip(i as int)),
        decreases toks@.len() - i,
    {
        proof {
            assert(tviews.skip(i as int)[0] == tviews[i as int]);
            assert(tviews[i as int] == toks@[i as int]@);
            assert(tviews.skip(i as int).drop_first() =~= tviews.skip(i + 1));
        }
        let tok = &toks[i];
        let v: Option<u32> = if tok.len() >= 2 && crate::text::check_match_at(
            tok,
            &ms,
            tok.len() - 2,
        ) {
            proof {
                assert(match_at(tok@, ms@, tok@.len() - 2) ==> tok@.subrange(
                    tok@.len() - 2,
                    tok@.len() as int,
                ) =~= tok@.skip(tok@.len() - 2));
            }
            let prefix = copy_range(tok, 0, tok.len() - 2);
            proof {
                assert(prefix@ =~= tok@.take(tok@.len() - 2));
            }
            parse_u32_chars(&prefix)
        } else {
            proof {
                if tok@.len() >= 2 {
                    assert(tok@.subrange(tok@.len() - 2, tok@.len() as int) =~= tok@.skip(
                        tok@.len() - 2,
                    ));
                }
            }
            None
        };
        proof {
            assert(v == token_ms_value(tviews[i as int]));
        }
        if let Some(val) = v {
            proof {
                assert(tviews.skip(i as int).len() > 0);
                assert(first_token_value(tviews.skip(i as int)) == Some(val));
            }
            return Some(val);
        }
        i = i + 1;
    }
    proof {
        assert(tviews.skip(toks@.len() as int) =~= Seq::<Seq<char>>::empty());
    }
    None
}

/// Extracts a millisecond latency value from echo-probe output text, applying
/// the cascade of strategies that `extracted_latency` describes in order.
pub fn extract_latency_chars(text: &Vec<char>) -> (r: Option<u32>)
    ensures
        r == extracted_latency(text@),
{
    let avg = to_chars("Average = ");
    if let Some(v) = keyed_value_chars(text, &avg) {
        return Some(v);
    }
    if let Some(v) = reply_mean_chars(text) {
        return Some(v);
    }
    let min = to_chars("Minimum = ");
    if let Some(v) = keyed_value_chars(text, &min) {
        return Some(v);
    }
    let max = to_chars("Maximum = ");
    if let Some(v) = keyed_value_chars(text, &max) {
        return Some(v);
    }
    first_ms_token_chars(text)
}

/// Extracts a millisecond latency value from echo-probe output text.
pub fn extract_ping_time_from_output(output: &str) -> (r: Option<u32>)
    ensures
        r == extracted_latency(output@),
{
    let chars = to_chars(output);
    extract_latency_chars(&chars)
}

/// The summary token wins: whenever the text announces an average, the
/// cascade returns exactly that value, whatever else the text holds.
pub proof fn lemma_average_governs(text: Seq<char>, n: u32)
    requires
        keyed_value(text, avg_key()) == Some(n),
    ensures
        extracted_latency(text) == Some(n),
{
}

/// When `key` first occurs at the end of `pre` and the digits of `n` with
/// the unit follow it directly, the keyed read yields exactly `n`, whatever
/// the text holds before or after.
pub proof fn lemma_keyed_token_value(
    pre: Seq<char>,
    key: Seq<char>,
    ds: Seq<char>,
    post: Seq<char>,
    n: u32,
)
    requires
        ds.len() > 0,
        crate::text::all_digits(ds),
        crate::text::digits_val(ds) == n,
        forall|k: int| 0 <= k < pre.len() ==> !match_at(pre + key + ds + ms_key() + post, key, k),
    ensures
        keyed_value(pre + key + ds + ms_key() + post, key) == Some(n),
{
    let text = pre + key + ds + ms_key() + post;
    reveal_strlit("ms");
    assert(text.subrange(pre.len() as int, pre.len() + key.len() as int) =~= key);
    assert(match_at(text, key, pre.len() as int));
    crate::text::lemma_find_first(text, key, pre.len() as int);
    let rest = text.skip(pre.len() + key.len() as int);
    assert(rest =~= ds + ms_key() + post);
    assert(rest.subrange(ds.len() as int, ds.len() + ms_key().len() as int) =~= ms_key());
    assert(match_at(rest, ms_key(), ds.len() as int));
    assert forall|k: int| 0 <= k < ds.len() implies !match_at(rest, ms_key(), k) by {
        if match_at(rest, ms_key(), k) {
            assert(rest.subrange(k, k + ms_key().len())[0] == rest[k]);
            assert(rest[k] == ds[k]);
            assert(crate::text::is_digit(ds[k]));
            assert('m' as u32 == 109);
        }
    }
    crate::text::lemma_find_first(rest, ms_key(), ds.len() as int);
    assert(rest.take(ds.len() as int) =~= ds);
    crate::text::lemma_digits_parse_exact(ds);
}

/// Whenever the text's first `"Average = "` marker is followed by the digits
/// of `n` and the `"ms"` unit, the parser returns exactly `n`, whatever else
/// the text holds before or after the token.
pub proof fn lemma_average_token_parsed(pre: Seq<char>, ds: Seq<char>, post: Seq<char>, n: u32)
    requires
        ds.len() > 0,
        crate::text::all_digits(ds),
        crate::text::digits_val(ds) == n,
        forall|k: int|
            0 <= k < pre.len() ==> !match_at(
                pre + avg_key() + ds + ms_key() + post,
                avg_key(),
                k,
            ),
    ensures
        extracted_latency(pre + avg_key() + ds + ms_key() + post) == Some(n),
{
    lemma_keyed_token_value(pre, avg_key(), ds, post, n);
    lemma_average_governs(pre + avg_key() + ds + ms_key() + post, n);
}

/// A line that names a reply and first announces `"time="` right before the
/// digits of `n` and the unit carries exactly the value `n`.
pub proof fn lemma_reply_line_value(pre: Seq<char>, ds: Seq<char>, post: Seq<char>, n: u32)
    requires
        ds.len() > 0,
        crate::text::all_digits(ds),
        crate::text::digits_val(ds) == n,
        contains_seq(pre + time_key() + ds + ms_key() + post, reply_key()),
        forall|k: int|
            0 <= k < pre.len() ==> !match_at(
                pre + time_key() + ds + ms_key() + post,
                time_key(),
                k,
            ),
    ensures
        line_reply_value(pre + time_key() + ds + ms_key() + post) == Some(n),
{
    lemma_keyed_token_value(pre, time_key(), ds, post, n);
}

/// A whitespace-delimited token made of the digits of `n` followed by the
/// unit carries exactly the value `n`.
pub proof fn lemma_ms_token_value(ds: Seq<char>, n: u32)
    requires
        ds.len() > 0,
        crate::text::all_digits(ds),
        crate::text::digits_val(ds) == n,
    ensures
        token_ms_value(ds + ms_key()) == Some(n),
{
    reveal_strlit("ms");
    let tok = ds + ms_key();
    assert(tok.skip(tok.len() - 2) =~= ms_key());
    assert(tok.take(tok.len() - 2) =~= ds);
    crate::text::lemma_digits_parse_exact(ds);
}

/// Without an average summary, the cascade returns the mean of the reply
/// values, rounded toward zero.
pub proof fn lemma_reply_mean_governs(text: Seq<char>)
    requires
        keyed_value(text, avg_key()) is None,
        reply_values(split_lines_spec(text)).len() >= 1,
    ensures
        extracted_latency(text) == Some(
            (sum_u32(reply_values(split_lines_spec(text))) / reply_values(
                split_lines_spec(text),
            ).len() as int) as u32,
        ),
{
}

/// Without any recognized summary or reply line, the first bare
/// `"<number>ms"` token decides, in document order.
pub proof fn lemma_plain_token_governs(text: Seq<char>, v: u32)
    requires
        keyed_value(text, avg_key()) is None,
        reply_mean(text) is None,
        keyed_value(text, min_key()) is None,
        keyed_value(text, max_key()) is None,
        first_ms_token(text) == Some(v),
    ensures
        extracted_latency(text) == Some(v),
{
}

/// With nothing recognized anywhere in the text, the cascade yields nothing.
pub proof fn lemma_nothing_recognized(text: Seq<char>)
    requires
        keyed_value(text, avg_key()) is None,
        reply_mean(text) is None,
        keyed_value(text, min_key()) is None,
        keyed_value(text, max_key()) is None,
        first_ms_token(text) is None,
    ensures
        extracted_latency(text) is None,
{
}

} // verus!
