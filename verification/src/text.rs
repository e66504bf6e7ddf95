//! Verified text primitives for the line-oriented protocol: trimming,
//! whitespace-delimited tokens, decimal rendering, and joining.
//!
//! The protocol is plain ASCII text, so whitespace here means the four
//! ASCII whitespace characters that can occur in a protocol line.

use vstd::prelude::*;

verus! {

/// Whitespace, as the protocol uses it: space, tab, carriage return, newline.
pub open spec fn is_ws(c: char) -> bool {
    c == ' ' || c == '\t' || c == '\r' || c == '\n'
}

/// `s` without its leading whitespace.
pub open spec fn trimmed_start(s: Seq<char>) -> Seq<char>
    decreases s.len(),
{
    if s.len() > 0 && is_ws(s[0]) {
        trimmed_start(s.skip(1))
    } else {
        s
    }
}

/// `s` without its trailing whitespace.
pub open spec fn trimmed_end(s: Seq<char>) -> Seq<char>
    decreases s.len(),
{
    if s.len() > 0 && is_ws(s.last()) {
        trimmed_end(s.drop_last())
    } else {
        s
    }
}

/// `s` without leading and trailing whitespace.
pub open spec fn trimmed(s: Seq<char>) -> Seq<char> {
    trimmed_end(trimmed_start(s))
}

/// The longest whitespace-free prefix of `s`.
pub open spec fn token_prefix(s: Seq<char>) -> Seq<char>
    decreases s.len(),
{
    if s.len() > 0 && !is_ws(s[0]) {
        seq![s[0]] + token_prefix(s.skip(1))
    } else {
        Seq::empty()
    }
}

/// `s` without its longest whitespace-free prefix.
pub open spec fn token_rest(s: Seq<char>) -> Seq<char>
    decreases s.len(),
{
    if s.len() > 0 && !is_ws(s[0]) {
        token_rest(s.skip(1))
    } else {
        s
    }
}

/// The first whitespace-delimited token of `s` (empty if there is none).
pub open spec fn first_token(s: Seq<char>) -> Seq<char> {
    token_prefix(trimmed_start(s))
}

/// What remains of `s` after its first token.
pub open spec fn rest_after_token(s: Seq<char>) -> Seq<char> {
    token_rest(trimmed_start(s))
}

/// The second whitespace-delimited token of `s` (empty if there is none).
pub open spec fn second_token(s: Seq<char>) -> Seq<char> {
    first_token(rest_after_token(s))
}

/// A token is read off exactly: a non-empty, whitespace-free `tok`
/// followed by a `rest` that is empty or starts with whitespace is its own
/// first token, and exactly `rest` remains after it.
pub proof fn lemma_token_split(tok: Seq<char>, rest: Seq<char>)
    requires
        tok.len() > 0,
        forall|i: int| 0 <= i < tok.len() ==> !is_ws(tok[i]),
        rest.len() == 0 || is_ws(rest[0]),
    ensures
        trimmed_start(tok + rest) == tok + rest,
        token_prefix(tok + rest) == tok,
        token_rest(tok + rest) == rest,
    decreases tok.len(),
{
    let s = tok + rest;
    assert(s[0] == tok[0]);
    assert(!is_ws(tok[0]));
    if tok.len() == 1 {
        assert(s.skip(1) =~= rest);
        assert(token_prefix(rest) == Seq::<char>::empty());
        assert(token_rest(rest) == rest);
        assert(token_prefix(s) == seq![s[0]] + token_prefix(rest));
        assert(seq![s[0]] + Seq::<char>::empty() =~= tok);
        assert(token_rest(s) == rest);
    } else {
        assert forall|i: int| 0 <= i < tok.skip(1).len() implies !is_ws(tok.skip(1)[i]) by {
            assert(tok.skip(1)[i] == tok[i + 1]);
        }
        lemma_token_split(tok.skip(1), rest);
        assert(s.skip(1) =~= tok.skip(1) + rest);
        assert(token_prefix(s) == seq![s[0]] + token_prefix(tok.skip(1) + rest));
        assert(seq![s[0]] + tok.skip(1) =~= tok);
        assert(token_rest(s) == token_rest(tok.skip(1) + rest));
    }
}

/// Terminal extraction ignores whatever trails the move: a line made of a
/// marker token, one space, a move token, and any whitespace-led tail has
/// exactly the marker as its first token and the move as its second.
pub proof fn lemma_two_tokens(marker: Seq<char>, mv: Seq<char>, trail: Seq<char>)
    requires
        marker.len() > 0,
        forall|i: int| 0 <= i < marker.len() ==> !is_ws(marker[i]),
        mv.len() > 0,
        forall|i: int| 0 <= i < mv.len() ==> !is_ws(mv[i]),
        trail.len() == 0 || is_ws(trail[0]),
    ensures
        first_token(marker + seq![' '] + mv + trail) == marker,
        second_token(marker + seq![' '] + mv + trail) == mv,
{
    let line = marker + seq![' '] + mv + trail;
    let rest1 = seq![' '] + (mv + trail);
    assert(line =~= marker + rest1);
    assert(is_ws(rest1[0]));
    lemma_token_split(marker, rest1);
    assert(rest1.skip(1) =~= mv + trail);
    lemma_token_split(mv, trail);
}

/// Whether `c` is protocol whitespace.
pub fn is_ws_char(c: char) -> (r: bool)
    ensures
        r == is_ws(c),
{
    c == ' ' || c == '\t' || c == '\r' || c == '\n'
}

/// Trim leading and trailing whitespace from `s`.
pub fn trim_str(s: &str) -> (r: String)
    ensures
        r@ == trimmed(s@),
{
    let len = s.unicode_len();
    proof {
        assert(s@.skip(0) =~= s@);
    }
    let mut start: usize = 0;
    while start < len && is_ws_char(s.get_char(start))
        invariant
            start <= len,
            len == s@.len(),
            trimmed_start(s@) == trimmed_start(s@.skip(start as int)),
        decreases len - start,
    {
        proof {
            let t = s@.skip(start as int);
            assert(t[0] == s@[start as int]);
            assert(t.skip(1) =~= s@.skip(start as int + 1));
        }
        start += 1;
    }
    proof {
        if start < len {
            assert(trimmed_start(s@.skip(start as int)) == s@.skip(start as int));
        } else {
            assert(s@.skip(start as int) =~= Seq::<char>::empty());
        }
        assert(trimmed_start(s@) == s@.skip(start as int));
        assert(s@.skip(start as int) =~= s@.subrange(start as int, len as int));
    }
    let mut end: usize = len;
    while end > start && is_ws_char(s.get_char(end - 1))
        invariant
            start <= end <= len,
            len == s@.len(),
            trimmed_start(s@) == s@.subrange(start as int, len as int),
            trimmed_end(s@.subrange(start as int, len as int)) == trimmed_end(
                s@.subrange(start as int, end as int),
            ),
        decreases end,
    {
        proof {
            let t = s@.subrange(start as int, end as int);
            assert(t.last() == s@[end - 1]);
            assert(t.drop_last() =~= s@.subrange(start as int, end as int - 1));
        }
        end -= 1;
    }
    proof {
        if end > start {
            assert(s@.subrange(start as int, end as int).last() == s@[end - 1]);
            assert(trimmed_end(s@.subrange(start as int, end as int)) == s@.subrange(
                start as int,
                end as int,
            ));
        } else {
            assert(s@.subrange(start as int, end as int) =~= Seq::<char>::empty());
        }
        assert(trimmed(s@) == s@.subrange(start as int, end as int));
    }
    let part = s.substring_char(start, end);
    String::from_str(part)
}

/// Whether two string slices hold the same characters.
pub fn str_eq(a: &str, b: &str) -> (r: bool)
    ensures
        r == (a@ == b@),
{
    let alen = a.unicode_len();
    let blen = b.unicode_len();
    if alen != blen {
        return false;
    }
    let mut i: usize = 0;
    while i < alen
        invariant
            i <= alen,
            alen == a@.len(),
            alen == b@.len(),
            forall|k: int| 0 <= k < i ==> a@[k] == b@[k],
        decreases alen - i,
    {
        if a.get_char(i) != b.get_char(i) {
            return false;
        }
        i += 1;
    }
    proof {
        assert(a@ =~= b@);
    }
    true
}

/// Find the next whitespace-delimited token of `s` at or after index `from`:
/// the returned pair brackets the token, which is empty only when nothing
/// but whitespace remains.
pub fn token_span(s: &str, from: usize) -> (p: (usize, usize))
    requires
        from <= s@.len(),
    ensures
        from <= p.0 <= p.1 <= s@.len(),
        trimmed_start(s@.skip(from as int)) == s@.skip(p.0 as int),
        token_prefix(s@.skip(p.0 as int)) == s@.subrange(p.0 as int, p.1 as int),
        token_rest(s@.skip(p.0 as int)) == s@.skip(p.1 as int),
{
    let len = s.unicode_len();
    let mut i: usize = from;
    while i < len && is_ws_char(s.get_char(i))
        invariant
            from <= i <= len,
            len == s@.len(),
            trimmed_start(s@.skip(from as int)) == trimmed_start(s@.skip(i as int)),
        decreases len - i,
    {
        proof {
            let t = s@.skip(i as int);
            assert(t[0] == s@[i as int]);
            assert(t.skip(1) =~= s@.skip(i as int + 1));
        }
        i += 1;
    }
    proof {
        if i < len {
            assert(trimmed_start(s@.skip(i as int)) == s@.skip(i as int));
        } else {
            assert(s@.skip(i as int) =~= Seq::<char>::empty());
        }
    }
    let tok_start = i;
    let mut j: usize = i;
    while j < len && !is_ws_char(s.get_char(j))
        invariant
            tok_start <= j <= len,
            len == s@.len(),
            token_prefix(s@.skip(tok_start as int)) == s@.subrange(tok_start as int, j as int)
                + token_prefix(s@.skip(j as int)),
            token_rest(s@.skip(tok_start as int)) == token_rest(s@.skip(j as int)),
        decreases len - j,
    {
        proof {
            let t = s@.skip(j as int);
            assert(t[0] == s@[j as int]);
            assert(t.skip(1) =~= s@.skip(j as int + 1));
            assert(s@.subrange(tok_start as int, j as int) + seq![s@[j as int]] =~= s@.subrange(
                tok_start as int,
                j as int + 1,
            ));
            assert(s@.subrange(tok_start as int, j as int) + (seq![s@[j as int]] + token_prefix(
                t.skip(1),
            )) =~= (s@.subrange(tok_start as int, j as int) + seq![s@[j as int]]) + token_prefix(
                t.skip(1),
            ));
        }
        j += 1;
    }
    proof {
        if j < len {
            assert(token_prefix(s@.skip(j as int)) =~= Seq::<char>::empty());
            assert(token_rest(s@.skip(j as int)) == s@.skip(j as int));
        } else {
            assert(s@.skip(j as int) =~= Seq::<char>::empty());
        }
        assert(s@.subrange(tok_start as int, j as int) + Seq::<char>::empty() =~= s@.subrange(
            tok_start as int,
            j as int,
        ));
    }
    (tok_start, j)
}

/// The first whitespace-delimited token of `s`, as fresh text.
pub fn first_token_str(s: &str) -> (r: String)
    ensures
        r@ == first_token(s@),
{
    proof {
        assert(s@.skip(0) =~= s@);
    }
    let p = token_span(s, 0);
    let part = s.substring_char(p.0, p.1);
    String::from_str(part)
}

/// The second whitespace-delimited token of `s`, as fresh text.
pub fn second_token_str(s: &str) -> (r: String)
    ensures
        r@ == second_token(s@),
{
    proof {
        assert(s@.skip(0) =~= s@);
    }
    let p = token_span(s, 0);
    let q = token_span(s, p.1);
    let part = s.substring_char(q.0, q.1);
    String::from_str(part)
}

/// The decimal digits of `n`, most significant first, no sign and no padding.
pub open spec fn dec_digits(n: nat) -> Seq<char>
    decreases n,
{
    if n < 10 {
        seq![digit_char(n)]
    } else {
        dec_digits(n / 10).push(digit_char(n % 10))
    }
}

/// The character for one decimal digit.
pub open spec fn digit_char(d: nat) -> char {
    if d == 0 {
        '0'
    } else if d == 1 {
        '1'
    } else if d == 2 {
        '2'
    } else if d == 3 {
        '3'
    } else if d == 4 {
        '4'
    } else if d == 5 {
        '5'
    } else if d == 6 {
        '6'
    } else if d == 7 {
        '7'
    } else if d == 8 {
        '8'
    } else {
        '9'
    }
}

fn push_digit(s: &mut String, d: u32)
    requires
        d < 10,
    ensures
        final(s)@ == old(s)@ + seq![digit_char(d as nat)],
{
    match d {
        0 => {
            proof {
                reveal_strlit("0");
                assert("0"@ =~= seq![digit_char(0)]);
            }
            s.append("0");
        },
        1 => {
            proof {
                reveal_strlit("1");
                assert("1"@ =~= seq![digit_char(1)]);
            }
            s.append("1");
        },
        2 => {
            proof {
                reveal_strlit("2");
                assert("2"@ =~= seq![digit_char(2)]);
            }
            s.append("2");
        },
        3 => {
            proof {
                reveal_strlit("3");
                assert("3"@ =~= seq![digit_char(3)]);
            }
            s.append("3");
        },
        4 => {
            proof {
                reveal_strlit("4");
                assert("4"@ =~= seq![digit_char(4)]);
            }
            s.append("4");
        },
        5 => {
            proof {
                reveal_strlit("5");
                assert("5"@ =~= seq![digit_char(5)]);
            }
            s.append("5");
        },
        6 => {
            proof {
                reveal_strlit("6");
                assert("6"@ =~= seq![digit_char(6)]);
            }
            s.append("6");
        },
        7 => {
            proof {
                reveal_strlit("7");
                assert("7"@ =~= seq![digit_char(7)]);
            }
            s.append("7");
        },
        8 => {
            proof {
                reveal_strlit("8");
                assert("8"@ =~= seq![digit_char(8)]);
            }
            s.append("8");
        },
        _ => {
            proof {
                reveal_strlit("9");
                assert("9"@ =~= seq![digit_char(9)]);
            }
            s.append("9");
        },
    }
}

fn push_dec(s: &mut String, n: u32)
    ensures
        final(s)@ == old(s)@ + dec_digits(n as nat),
    decreases n,
{
    if n >= 10 {
        push_dec(s, n / 10);
        push_digit(s, n % 10);
        proof {
            assert((old(s)@ + dec_digits((n / 10) as nat)) + seq![digit_char((n % 10) as nat)]
                =~= old(s)@ + dec_digits(n as nat));
        }
    } else {
        push_digit(s, n);
    }
}

/// Render `n` in decimal.
pub fn u32_digits(n: u32) -> (r: String)
    ensures
        r@ == dec_digits(n as nat),
{
    let mut s = String::new();
    push_dec(&mut s, n);
    proof {
        assert(Seq::<char>::empty() + dec_digits(n as nat) =~= dec_digits(n as nat));
    }
    s
}

/// `parts` joined by the single separator character `sep`: empty for no
/// parts, and no separator before the first or after the last part.
pub open spec fn joined_with(parts: Seq<Seq<char>>, sep: char) -> Seq<char>
    decreases parts.len(),
{
    if parts.len() == 0 {
        Seq::empty()
    } else if parts.len() == 1 {
        parts[0]
    } else {
        joined_with(parts.drop_last(), sep) + seq![sep] + parts.last()
    }
}

/// Join `parts` with the one-character separator `sep`.
pub fn join_with(parts: &Vec<String>, sep: &str) -> (r: String)
    requires
        sep@.len() == 1,
    ensures
        r@ == joined_with(parts.deep_view(), sep@[0]),
{
    let ghost dv = parts.deep_view();
    let mut r = String::new();
    let mut i: usize = 0;
    while i < parts.len()
        invariant
            i <= parts.len(),
            sep@.len() == 1,
            dv == parts.deep_view(),
            dv.len() == parts@.len(),
            r@ == joined_with(dv.take(i as int), sep@[0]),
        decreases parts.len() - i,
    {
        if i > 0 {
            r.append(sep);
        }
        r.append(parts[i].as_str());
        proof {
            let t = dv.take(i as int + 1);
            assert(t.drop_last() =~= dv.take(i as int));
            assert(t.last() == dv[i as int]);
            assert(dv[i as int] == parts@[i as int]@);
            if i == 0 {
                assert(r@ =~= t[0]);
                assert(t.len() == 1);
            } else {
                assert(sep@ =~= seq![sep@[0]]);
                assert(r@ =~= joined_with(dv.take(i as int), sep@[0]) + seq![sep@[0]]
                    + dv[i as int]);
            }
        }
        i += 1;
    }
    proof {
        assert(dv.take(parts@.len() as int) =~= dv);
    }
    r
}

} // verus!
