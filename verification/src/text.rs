use vstd::prelude::*;
use vstd::string::StrSliceExecFns;

verus! {

/// One character class for each of the two splitting passes: line
/// separation of the source text, and token separation within a line.
pub open spec fn is_delim(newline: bool, c: char) -> bool {
    if newline {
        c == '\n'
    } else {
        c == ' ' || c == '\t' || c == '\r'
    }
}

/// The non-empty segments of `s` between delimiter characters, where
/// `cur` is the (possibly empty) segment read so far.
pub open spec fn split_acc(newline: bool, s: Seq<char>, cur: Seq<char>) -> Seq<Seq<char>>
    decreases s.len(),
{
    if s.len() == 0 {
        if cur.len() == 0 {
            Seq::empty()
        } else {
            seq![cur]
        }
    } else if is_delim(newline, s[0]) {
        if cur.len() == 0 {
            split_acc(newline, s.drop_first(), cur)
        } else {
            seq![cur] + split_acc(newline, s.drop_first(), Seq::empty())
        }
    } else {
        split_acc(newline, s.drop_first(), cur.push(s[0]))
    }
}

/// The non-empty segments of `s` between delimiter characters: the lines
/// of a source text, or the tokens of a line.
pub open spec fn split_chars(newline: bool, s: Seq<char>) -> Seq<Seq<char>> {
    split_acc(newline, s, Seq::empty())
}

/// The views of a sequence of string slices.
pub open spec fn views_of(ts: Seq<&str>) -> Seq<Seq<char>> {
    ts.map_values(|t: &str| t@)
}

fn is_delim_exec(newline: bool, c: char) -> (r: bool)
    ensures
        r == is_delim(newline, c),
{
    if newline {
        c == '\n'
    } else {
        c == ' ' || c == '\t' || c == '\r'
    }
}

/// Splits a string into its non-empty segments between delimiter
/// characters.
pub fn split_str(newline: bool, s: &str) -> (r: Vec<&str>)
    ensures
        views_of(r@) == split_chars(newline, s@),
{
    let len = s.unicode_len();
    let mut out: Vec<&str> = Vec::new();
    let mut start: usize = 0;
    let mut i: usize = 0;
    proof {
        assert(s@.skip(0) =~= s@);
        assert(s@.subrange(0, 0) =~= Seq::<char>::empty());
        assert(views_of(out@) =~= Seq::<Seq<char>>::empty());
        assert(views_of(out@) + split_acc(newline, s@, Seq::empty()) =~= split_acc(
            newline,
            s@,
            Seq::empty(),
        ));
    }
    while i < len
        invariant
            start <= i <= len,
            len == s@.len(),
            split_chars(newline, s@) == views_of(out@) + split_acc(
                newline,
                s@.skip(i as int),
                s@.subrange(start as int, i as int),
            ),
        decreases len - i,
    {
        let ghost rest = s@.skip(i as int);
        let ghost cur = s@.subrange(start as int, i as int);
        proof {
            assert(rest[0] == s@[i as int]);
            assert(rest.drop_first() =~= s@.skip(i + 1));
        }
        let c = s.get_char(i);
        if is_delim_exec(newline, c) {
            if start < i {
                let tok = s.substring_char(start, i);
                proof {
                    assert(views_of(out@.push(tok)) =~~= views_of(out@).push(tok@));
                    assert((views_of(out@) + (seq![cur] + split_acc(
                        newline,
                        rest.drop_first(),
                        Seq::<char>::empty(),
                    ))) =~~= (views_of(out@).push(cur) + split_acc(
                        newline,
                        rest.drop_first(),
                        Seq::<char>::empty(),
                    )));
                }
                out.push(tok);
            } else {
                proof {
                    assert(cur =~= Seq::<char>::empty());
                }
            }
            proof {
                assert(s@.subrange(i + 1, i + 1) =~= Seq::<char>::empty());
            }
            start = i + 1;
        } else {
            proof {
                assert(cur.push(s@[i as int]) =~= s@.subrange(start as int, i + 1));
            }
        }
        i += 1;
    }
    proof {
        assert(s@.skip(len as int) =~= Seq::<char>::empty());
    }
    if start < len {
        let tok = s.substring_char(start, len);
        proof {
            assert(views_of(out@.push(tok)) =~~= views_of(out@).push(tok@));
            assert((views_of(out@) + seq![tok@]) =~~= views_of(out@).push(tok@));
        }
        out.push(tok);
    } else {
        proof {
            assert(s@.subrange(start as int, len as int) =~= Seq::<char>::empty());
            assert((views_of(out@) + Seq::<Seq<char>>::empty()) =~~= views_of(out@));
        }
    }
    out
}

/// Whether `c` is a decimal digit.
pub open spec fn is_digit(c: char) -> bool {
    48 <= c as u32 <= 57
}

/// The value of a digit string, most significant digit first.
pub open spec fn digits_val(s: Seq<char>) -> int
    decreases s.len(),
{
    if s.len() == 0 {
        0
    } else {
        digits_val(s.drop_last()) * 10 + (s.last() as u32 - 48)
    }
}

/// Whether every character of `s` is a decimal digit.
pub open spec fn all_digits(s: Seq<char>) -> bool {
    forall|i: int| 0 <= i < s.len() ==> is_digit(s[i])
}

/// The mathematical value of an optionally signed decimal literal, or
/// `None` where the token is not one.
pub open spec fn int_literal_val(s: Seq<char>) -> Option<int> {
    if s.len() > 0 && (s[0] == '-' || s[0] == '+') {
        let body = s.subrange(1, s.len() as int);
        if body.len() > 0 && all_digits(body) {
            Some(
                if s[0] == '-' {
                    -digits_val(body)
                } else {
                    digits_val(body)
                },
            )
        } else {
            None
        }
    } else if s.len() > 0 && all_digits(s) {
        Some(digits_val(s))
    } else {
        None
    }
}

/// The numeric reading of an operand token: an optionally signed decimal
/// literal whose value fits the machine's value type.
pub open spec fn parse_value(s: Seq<char>) -> Option<i64> {
    match int_literal_val(s) {
        Some(v) => if i64::MIN <= v <= i64::MAX {
            Some(v as i64)
        } else {
            None
        },
        None => None,
    }
}

proof fn lemma_digits_nonneg(s: Seq<char>)
    requires
        all_digits(s),
    ensures
        digits_val(s) >= 0,
    decreases s.len(),
{
    if s.len() > 0 {
        assert(forall|i: int| 0 <= i < s.drop_last().len() ==> s.drop_last()[i] == s[i]);
        lemma_digits_nonneg(s.drop_last());
        assert(is_digit(s.last()));
    }
}

proof fn lemma_digits_prefix_le(s: Seq<char>, i: int)
    requires
        all_digits(s),
        0 <= i <= s.len(),
    ensures
        digits_val(s.take(i)) <= digits_val(s),
    decreases s.len(),
{
    if i == s.len() {
        assert(s.take(i) =~= s);
    } else {
        let d = s.drop_last();
        assert(forall|j: int| 0 <= j < d.len() ==> d[j] == s[j]);
        lemma_digits_prefix_le(d, i);
        assert(s.take(i) =~= d.take(i));
        lemma_digits_nonneg(d);
        assert(is_digit(s.last()));
        assert(digits_val(d) * 10 >= digits_val(d)) by (nonlinear_arith)
            requires
                digits_val(d) >= 0,
        ;
    }
}

proof fn lemma_digits_push(t: Seq<char>, c: char)
    ensures
        digits_val(t.push(c)) == digits_val(t) * 10 + (c as u32 - 48),
{
    assert(t.push(c).drop_last() =~= t);
    assert(t.push(c).last() == c);
}

/// Parses an optionally signed decimal literal into a machine value.
pub fn parse_value_exec(s: &str) -> (r: Option<i64>)
    ensures
        r == parse_value(s@),
{
    let len = s.unicode_len();
    if len == 0 {
        return None;
    }
    let first = s.get_char(0);
    let neg = first == '-';
    let signed = neg || first == '+';
    let start: usize = if signed {
        1
    } else {
        0
    };
    if start == len {
        return None;
    }
    let ghost body: Seq<char> = s@.subrange(start as int, len as int);
    proof {
        if !signed {
            assert(body =~= s@);
        }
    }
    let mut acc: i64 = 0;
    let mut i: usize = start;
    proof {
        assert(body.take(0) =~= Seq::<char>::empty());
    }
    while i < len
        invariant
            start <= i <= len,
            start < len,
            len == s@.len(),
            signed == (s@[0] == '-' || s@[0] == '+'),
            neg == (s@[0] == '-'),
            start == if signed { 1int } else { 0int },
            body == s@.subrange(start as int, len as int),
            all_digits(body.take(i - start)),
            acc == -digits_val(body.take(i - start)),
            acc <= 0,
        decreases len - i,
    {
        let ghost k = i - start;
        let ghost pre = body.take(k);
        let c = s.get_char(i);
        proof {
            assert(body[k] == s@[i as int]);
        }
        let cv = c as u32;
        if cv < 48 || cv > 57 {
            proof {
                assert(0 <= k < body.len() && !is_digit(body[k]));
                assert(!all_digits(body));
            }
            return None;
        }
        proof {
            assert(body.take(k + 1) =~= pre.push(body[k]));
            lemma_digits_push(pre, c);
        }
        let d = (cv - 48) as i64;
        let overflowed: bool;
        let mut next: i64 = 0;
        match acc.checked_mul(10) {
            Some(v) => {
                match v.checked_sub(d) {
                    Some(w) => {
                        overflowed = false;
                        next = w;
                    },
                    None => {
                        overflowed = true;
                    },
                }
            },
            None => {
                overflowed = true;
            },
        }
        if overflowed {
            proof {
                assert(acc * 10 <= 0);
                assert(acc * 10 - d < i64::MIN);
                assert(digits_val(body.take(k + 1)) > (i64::MAX as int) + 1);
                if !signed {
                    assert(body =~= s@);
                }
                if all_digits(body) {
                    lemma_digits_prefix_le(body, k + 1);
                    assert(digits_val(body) > (i64::MAX as int) + 1);
                }
            }
            return None;
        }
        proof {
            assert(forall|j: int| 0 <= j < k ==> body.take(k + 1)[j] == pre[j]);
            lemma_digits_nonneg(body.take(k + 1));
        }
        acc = next;
        i += 1;
    }
    proof {
        assert(body.take(i - start) =~= body);
    }
    if neg {
        Some(acc)
    } else if acc == i64::MIN {
        proof {
            assert(digits_val(body) > i64::MAX);
        }
        None
    } else {
        Some(-acc)
    }
}

/// Character-for-character string equality, stated over the views.
pub fn str_eq(a: &str, b: &str) -> (r: bool)
    ensures
        r == (a@ == b@),
{
    let alen = a.unicode_len();
    let blen = b.unicode_len();
    if alen != blen {
        proof {
            assert(a@ != b@) by {
                assert(a@.len() != b@.len());
            }
        }
        return false;
    }
    let mut i: usize = 0;
    while i < alen
        invariant
            i <= alen,
            alen == a@.len(),
            alen == b@.len(),
            forall|j: int| 0 <= j < i ==> a@[j] == b@[j],
        decreases alen - i,
    {
        if a.get_char(i) != b.get_char(i) {
            return false;
        }
        i += 1;
    }
    proof {
        assert(a@ =~= b@);
    }
    true
}

} // verus!
