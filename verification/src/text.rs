//! Verified text utilities: decimal parsing and rendering, boolean
//! parsing, whitespace trimming and comma splitting of character data.

use vstd::prelude::*;

verus! {

/// A character counts as whitespace for token trimming.
pub open spec fn is_ws(c: char) -> bool {
    c == ' ' || c == '\t' || c == '\n' || c == '\r'
}

/// A decimal digit.
pub open spec fn is_digit(c: char) -> bool {
    48 <= c as u32 <= 57
}

/// Numeric value of a decimal digit character.
pub open spec fn digit_val(c: char) -> nat
    recommends
        is_digit(c),
{
    (c as u32 - 48) as nat
}

/// The decimal digit character for a value below ten.
pub open spec fn digit_char(d: int) -> char
    recommends
        0 <= d < 10,
{
    ((48 + d) as u8) as char
}

/// A non-empty, all-digit character sequence.
pub open spec fn is_dec_digits(s: Seq<char>) -> bool {
    s.len() > 0 && forall|i: int| 0 <= i < s.len() ==> is_digit(#[trigger] s[i])
}

/// The value denoted by a decimal digit sequence.
pub open spec fn dec_val(s: Seq<char>) -> nat
    decreases s.len(),
{
    if s.len() == 0 {
        0
    } else {
        dec_val(s.drop_last()) * 10 + digit_val(s.last())
    }
}

/// The canonical decimal rendering of a number.
pub open spec fn dec_seq(n: nat) -> Seq<char>
    decreases n,
{
    if n < 10 {
        seq![digit_char(n as int)]
    } else {
        dec_seq(n / 10).push(digit_char((n % 10) as int))
    }
}

/// A prefix of a digit string never denotes more than the whole string.
pub proof fn lemma_dec_val_prefix(s: Seq<char>, j: int)
    requires
        0 <= j <= s.len(),
    ensures
        dec_val(s.take(j)) <= dec_val(s),
    decreases s.len(),
{
    if j < s.len() {
        assert(s.drop_last().take(j) =~= s.take(j));
        lemma_dec_val_prefix(s.drop_last(), j);
        assert(dec_val(s.drop_last()) <= dec_val(s.drop_last()) * 10 + digit_val(s.last()))
            by (nonlinear_arith);
    } else {
        assert(s.take(j) =~= s);
    }
}

/// The number an unsigned 32-bit decimal string denotes, if it is one.
pub open spec fn u32_of_dec(s: Seq<char>) -> Option<u32> {
    if is_dec_digits(s) && dec_val(s) <= u32::MAX {
        Some(dec_val(s) as u32)
    } else {
        None
    }
}

/// The boolean a string denotes: exactly "true" or "false".
pub open spec fn bool_of_str(s: Seq<char>) -> Option<bool> {
    if s == "true"@ {
        Some(true)
    } else if s == "false"@ {
        Some(false)
    } else {
        None
    }
}

/// The sequence with leading whitespace removed.
pub open spec fn trim_front(s: Seq<char>) -> Seq<char>
    decreases s.len(),
{
    if s.len() > 0 && is_ws(s[0]) {
        trim_front(s.drop_first())
    } else {
        s
    }
}

/// The sequence with trailing whitespace removed.
pub open spec fn trim_back(s: Seq<char>) -> Seq<char>
    decreases s.len(),
{
    if s.len() > 0 && is_ws(s.last()) {
        trim_back(s.drop_last())
    } else {
        s
    }
}

/// The sequence with whitespace removed from both ends.
pub open spec fn trimmed(s: Seq<char>) -> Seq<char> {
    trim_back(trim_front(s))
}

/// Splitting on commas, accumulating the token read so far.
pub open spec fn split_commas_rec(s: Seq<char>, cur: Seq<char>) -> Seq<Seq<char>>
    decreases s.len(),
{
    if s.len() == 0 {
        seq![cur]
    } else if s[0] == ',' {
        seq![cur] + split_commas_rec(s.drop_first(), Seq::empty())
    } else {
        split_commas_rec(s.drop_first(), cur.push(s[0]))
    }
}

/// The comma-separated tokens of a string, commas themselves dropped.
pub open spec fn split_commas(s: Seq<char>) -> Seq<Seq<char>> {
    split_commas_rec(s, Seq::empty())
}

/// Parse every token as a trimmed decimal number; the first failing
/// token (already trimmed) is the error.
pub open spec fn parse_tokens(ts: Seq<Seq<char>>) -> Result<Seq<u32>, Seq<char>>
    decreases ts.len(),
{
    if ts.len() == 0 {
        Ok(Seq::empty())
    } else {
        match u32_of_dec(trimmed(ts[0])) {
            Some(v) => match parse_tokens(ts.drop_first()) {
                Ok(rest) => Ok(seq![v] + rest),
                Err(t) => Err(t),
            },
            None => Err(trimmed(ts[0])),
        }
    }
}

/// Relies on std's String::push: appends exactly the given character.
#[verifier::external_body]
pub fn push_char(s: &mut String, c: char)
    ensures
        final(s)@ == old(s)@.push(c),
{
    s.push(c);
}

/// The characters of a string slice, in order.
pub fn str_to_chars(s: &str) -> (v: Vec<char>)
    ensures
        v@ == s@,
{
    let n = s.unicode_len();
    let mut v: Vec<char> = Vec::new();
    let mut i: usize = 0;
    while i < n
        invariant
            n == s@.len(),
            i <= n,
            v@ =~= s@.take(i as int),
        decreases n - i,
    {
        v.push(s.get_char(i));
        i += 1;
    }
    proof {
        assert(s@.take(n as int) =~= s@);
    }
    v
}

/// A string holding exactly the given characters.
pub fn chars_to_string(v: &Vec<char>) -> (s: String)
    ensures
        s@ == v@,
{
    let mut s = String::new();
    let mut i: usize = 0;
    while i < v.len()
        invariant
            i <= v@.len(),
            s@ =~= v@.take(i as int),
        decreases v@.len() - i,
    {
        push_char(&mut s, v[i]);
        i += 1;
    }
    proof {
        assert(v@.take(v@.len() as int) =~= v@);
    }
    s
}

/// The decimal rendering of an unsigned number.
pub fn u64_to_string(n: u64) -> (s: String)
    ensures
        s@ == dec_seq(n as nat),
    decreases n,
{
    if n < 10 {
        let mut s = String::new();
        push_char(&mut s, ((48 + n as u8)) as char);
        proof {
            assert(Seq::<char>::empty().push(digit_char(n as int)) =~= seq![
                digit_char(n as int),
            ]);
        }
        s
    } else {
        let mut s = u64_to_string(n / 10);
        push_char(&mut s, (48 + (n % 10) as u8) as char);
        s
    }
}

/// Parse a whole character sequence as an unsigned 32-bit decimal.
pub fn parse_u32_vec(v: &Vec<char>) -> (r: Option<u32>)
    ensures
        r == u32_of_dec(v@),
{
    let n = v.len();
    if n == 0 {
        return None;
    }
    let mut i: usize = 0;
    let mut acc: u64 = 0;
    while i < n
        invariant
            n == v@.len(),
            i <= n,
            acc <= u32::MAX,
            forall|j: int| 0 <= j < i ==> is_digit(#[trigger] v@[j]),
            acc == dec_val(v@.take(i as int)),
        decreases n - i,
    {
        let c = v[i];
        let cu = c as u32;
        if cu < 48 || cu > 57 {
            return None;
        }
        let d = (cu - 48) as u64;
        let next = acc * 10 + d;
        proof {
            assert(v@.take(i + 1).drop_last() =~= v@.take(i as int));
            assert(v@.take(i + 1).last() == v@[i as int]);
        }
        if next > u32::MAX as u64 {
            proof {
                lemma_dec_val_prefix(v@, i + 1);
            }
            return None;
        }
        acc = next;
        i += 1;
    }
    proof {
        assert(v@.take(n as int) =~= v@);
    }
    Some(acc as u32)
}

/// Parse a string slice as an unsigned 32-bit decimal, no trimming.
pub fn parse_u32_str(s: &str) -> (r: Option<u32>)
    ensures
        r == u32_of_dec(s@),
{
    let v = str_to_chars(s);
    parse_u32_vec(&v)
}

/// Parse a string slice as a boolean, no trimming.
pub fn parse_bool_str(s: &str) -> (r: Option<bool>)
    ensures
        r == bool_of_str(s@),
{
    if crate::str_eq(s, "true") {
        Some(true)
    } else if crate::str_eq(s, "false") {
        Some(false)
    } else {
        None
    }
}

/// A copy of the characters with surrounding whitespace removed.
pub fn trim_chars(v: &Vec<char>) -> (r: Vec<char>)
    ensures
        r@ == trimmed(v@),
{
    let n = v.len();
    let mut a: usize = 0;
    proof {
        assert(v@.skip(0) =~= v@);
    }
    while a < n && is_ws_exec(v[a])
        invariant
            n == v@.len(),
            a <= n,
            trim_front(v@) == trim_front(v@.skip(a as int)),
        decreases n - a,
    {
        proof {
            let t = v@.skip(a as int);
            assert(t.len() > 0 && is_ws(t[0]));
            assert(t.drop_first() =~= v@.skip(a + 1));
        }
        a += 1;
    }
    proof {
        let t = v@.skip(a as int);
        if a == n {
            assert(t =~= Seq::<char>::empty());
            assert(trim_front(v@) == t);
        } else {
            assert(!is_ws(t[0]));
            assert(trim_front(v@) == t);
        }
    }
    let mut b: usize = n;
    while b > a && is_ws_exec(v[b - 1])
        invariant
            n == v@.len(),
            a <= b <= n,
            trim_front(v@) == v@.skip(a as int),
            trim_back(v@.skip(a as int)) == trim_back(v@.subrange(a as int, b as int)),
        decreases b,
    {
        proof {
            let t = v@.subrange(a as int, b as int);
            assert(t.len() > 0 && is_ws(t.last()));
            assert(t.drop_last() =~= v@.subrange(a as int, b - 1));
        }
        b -= 1;
    }
    proof {
        let t = v@.subrange(a as int, b as int);
        if b == a {
            assert(t =~= Seq::<char>::empty());
            assert(trimmed(v@) == t);
        } else {
            assert(!is_ws(t.last()));
            assert(trimmed(v@) == t);
        }
    }
    let mut r: Vec<char> = Vec::new();
    let mut j: usize = a;
    while j < b
        invariant
            a <= j <= b <= v@.len(),
            r@ =~= v@.subrange(a as int, j as int),
        decreases b - j,
    {
        r.push(v[j]);
        j += 1;
    }
    proof {
        assert(r@ =~= v@.subrange(a as int, b as int));
    }
    r
}

/// Executable test for [`is_ws`].
pub fn is_ws_exec(c: char) -> (r: bool)
    ensures
        r == is_ws(c),
{
    c == ' ' || c == '\t' || c == '\n' || c == '\r'
}

/// Split a string on commas and parse each trimmed token as an
/// unsigned 32-bit decimal; a failing token is returned as the error.
pub fn parse_u32_list(s: &str) -> (r: Result<Vec<u32>, Vec<char>>)
    ensures
        parse_tokens(split_commas(s@)) matches Ok(vs) ==> r matches Ok(v) && v@ == vs,
        parse_tokens(split_commas(s@)) matches Err(t) ==> r matches Err(tok) && tok@ == t,
{
    let chars = str_to_chars(s);
    let n = chars.len();
    let mut i: usize = 0;
    let mut cur: Vec<char> = Vec::new();
    let mut out: Vec<u32> = Vec::new();
    proof {
        assert(chars@.skip(0) =~= chars@);
        assert(cur@ =~= Seq::<char>::empty());
    }
    while i < n
        invariant
            chars@ == s@,
            n == chars@.len(),
            i <= n,
            parse_tokens(split_commas(chars@)) == (match parse_tokens(
                split_commas_rec(chars@.skip(i as int), cur@),
            ) {
                Ok(rest) => Ok::<Seq<u32>, Seq<char>>(out@ + rest),
                Err(t) => Err::<Seq<u32>, Seq<char>>(t),
            }),
        decreases n - i,
    {
        let c = chars[i];
        proof {
            let t = chars@.skip(i as int);
            assert(t.len() > 0 && t[0] == chars@[i as int]);
            assert(t.drop_first() =~= chars@.skip(i + 1));
        }
        if c == ',' {
            let tr = trim_chars(&cur);
            let ghost toks = split_commas_rec(chars@.skip(i as int), cur@);
            let ghost rest_toks = split_commas_rec(chars@.skip(i + 1), Seq::<char>::empty());
            proof {
                assert(toks == seq![cur@] + rest_toks);
                assert(toks[0] == cur@);
                assert(toks.drop_first() =~= rest_toks);
            }
            match parse_u32_vec(&tr) {
                Some(val) => {
                    let ghost out_old = out@;
                    out.push(val);
                    cur = Vec::new();
                    proof {
                        assert(cur@ =~= Seq::<char>::empty());
                    }
                    i += 1;
                    proof {
                        match parse_tokens(rest_toks) {
                            Ok(rest) => {
                                assert(parse_tokens(toks) == Ok::<Seq<u32>, Seq<char>>(
                                    seq![val] + rest,
                                ));
                                assert(out_old + (seq![val] + rest) =~= out@ + rest);
                            },
                            Err(_) => {},
                        }
                    }
                },
                None => {
                    proof {
                        assert(parse_tokens(toks) == Err::<Seq<u32>, Seq<char>>(trimmed(cur@)));
                    }
                    return Err(tr);
                },
            }
        } else {
            cur.push(c);
            i += 1;
        }
    }
    let ghost toks = split_commas_rec(chars@.skip(n as int), cur@);
    proof {
        assert(chars@.skip(n as int) =~= Seq::<char>::empty());
        assert(toks == seq![cur@]);
        assert(toks[0] == cur@);
        assert(toks.drop_first() =~= Seq::<Seq<char>>::empty());
        assert(parse_tokens(Seq::<Seq<char>>::empty()) == Ok::<Seq<u32>, Seq<char>>(
            Seq::<u32>::empty(),
        ));
    }
    let tr = trim_chars(&cur);
    match parse_u32_vec(&tr) {
        Some(val) => {
            let ghost out_old = out@;
            out.push(val);
            proof {
                assert(parse_tokens(toks) == Ok::<Seq<u32>, Seq<char>>(
                    seq![val] + Seq::<u32>::empty(),
                ));
                assert(out_old + (seq![val] + Seq::<u32>::empty()) =~= out@);
            }
            Ok(out)
        },
        None => {
            proof {
                assert(parse_tokens(toks) == Err::<Seq<u32>, Seq<char>>(trimmed(cur@)));
            }
            Err(tr)
        },
    }
}

} // verus!
