use vstd::prelude::*;

verus! {

/// The texts of a list of arguments.
pub open spec fn texts(args: Seq<String>) -> Seq<Seq<char>> {
    args.map_values(|a: String| a@)
}

/// The words joined into one text, one space between two neighbours.
pub open spec fn joined(words: Seq<Seq<char>>) -> Seq<char>
    decreases words.len(),
{
    if words.len() == 0 {
        Seq::empty()
    } else if words.len() == 1 {
        words[0]
    } else {
        joined(words.drop_last()) + seq![' '] + words.last()
    }
}

/// A character of the Unicode property White_Space.
pub open spec fn is_white_space(c: char) -> bool {
    let u = c as u32;
    ||| 0x9 <= u <= 0xD
    ||| u == 0x20
    ||| u == 0x85
    ||| u == 0xA0
    ||| u == 0x1680
    ||| 0x2000 <= u <= 0x200A
    ||| u == 0x2028
    ||| u == 0x2029
    ||| u == 0x202F
    ||| u == 0x205F
    ||| u == 0x3000
}

/// The text with its leading white space removed.
pub open spec fn trimmed_start(s: Seq<char>) -> Seq<char>
    decreases s.len(),
{
    if s.len() > 0 && is_white_space(s[0]) {
        trimmed_start(s.drop_first())
    } else {
        s
    }
}

/// The text with its trailing white space removed.
pub open spec fn trimmed_end(s: Seq<char>) -> Seq<char>
    decreases s.len(),
{
    if s.len() > 0 && is_white_space(s.last()) {
        trimmed_end(s.drop_last())
    } else {
        s
    }
}

/// The text with the white space at both of its ends removed.
pub open spec fn trimmed(s: Seq<char>) -> Seq<char> {
    trimmed_end(trimmed_start(s))
}

/// Relies on `str::trim`: it removes the leading and trailing characters of
/// the Unicode property White_Space.
#[verifier::external_body]
fn trim_text(s: &str) -> (r: String)
    ensures
        r@ == trimmed(s@),
{
    s.trim().to_string()
}

/// The arguments joined with single spaces.
pub fn join_words(args: &[String]) -> (r: String)
    ensures
        r@ == joined(texts(args@)),
{
    let mut out = String::new();
    let mut i: usize = 0;
    while i < args.len()
        invariant
            i <= args@.len(),
            out@ == joined(texts(args@).subrange(0, i as int)),
        decreases args@.len() - i,
    {
        let ghost done = texts(args@).subrange(0, i as int);
        let ghost next = texts(args@).subrange(0, i + 1);
        assert(next.drop_last() =~= done);
        if i > 0 {
            proof {
                reveal_strlit(" ");
            }
            out.append(" ");
        }
        out.append(args[i].as_str());
        assert(out@ =~= joined(next));
        i = i + 1;
    }
    assert(texts(args@).subrange(0, args@.len() as int) =~= texts(args@));
    out
}

/// The message that a list of words makes: joined with spaces, then trimmed.
pub open spec fn message_of(args: Seq<String>) -> Seq<char> {
    trimmed(joined(texts(args)))
}

/// Builds the message that a list of words makes.
pub fn build_message(args: &[String]) -> (r: String)
    ensures
        r@ == message_of(args@),
{
    let joined_words = join_words(args);
    trim_text(joined_words.as_str())
}

pub open spec fn is_digit(c: char) -> bool {
    '0' <= c <= '9'
}

/// The value of a sequence of decimal digits.
pub open spec fn digits_value(s: Seq<char>) -> int
    decreases s.len(),
{
    if s.len() == 0 {
        0
    } else {
        digits_value(s.drop_last()) * 10 + (s.last() as int - '0' as int)
    }
}

pub open spec fn all_digits(s: Seq<char>) -> bool {
    forall|i: int| 0 <= i < s.len() ==> is_digit(#[trigger] s[i])
}

/// The integer that a text spells: an optional `+` or `-`, then one or more
/// decimal digits, and nothing else.
pub open spec fn integer_of(s: Seq<char>) -> Option<int> {
    let signed = s.len() > 0 && (s[0] == '+' || s[0] == '-');
    let digits = if signed { s.drop_first() } else { s };
    if digits.len() > 0 && all_digits(digits) {
        if signed && s[0] == '-' {
            Some(-digits_value(digits))
        } else {
            Some(digits_value(digits))
        }
    } else {
        None
    }
}

/// The task id that a text spells, if it spells an integer that fits in `i32`.
pub open spec fn id_of(s: Seq<char>) -> Option<i32> {
    match integer_of(s) {
        Some(v) => if i32::MIN <= v <= i32::MAX {
            Some(v as i32)
        } else {
            None
        },
        None => None,
    }
}

proof fn lemma_digits_value_nonneg(s: Seq<char>)
    requires
        all_digits(s),
    ensures
        digits_value(s) >= 0,
    decreases s.len(),
{
    if s.len() > 0 {
        lemma_digits_value_nonneg(s.drop_last());
    }
}

proof fn lemma_digits_value_grows(s: Seq<char>, k: int)
    requires
        all_digits(s),
        0 <= k <= s.len(),
    ensures
        digits_value(s.subrange(0, k)) <= digits_value(s),
    decreases s.len(),
{
    if k < s.len() {
        let init = s.drop_last();
        assert(init.subrange(0, k) =~= s.subrange(0, k));
        lemma_digits_value_grows(init, k);
        lemma_digits_value_nonneg(init);
    } else {
        assert(s.subrange(0, k) =~= s);
    }
}

/// Reads a task id from a text.
pub fn parse_id(s: &str) -> (r: Result<i32, crate::todo::TodoError>)
    ensures
        match id_of(s@) {
            Some(v) => r == Ok::<i32, crate::todo::TodoError>(v),
            None => r == Err::<i32, crate::todo::TodoError>(crate::todo::TodoError::ParseError),
        },
{
    let n = s.unicode_len();
    if n == 0 {
        return Err(crate::todo::TodoError::ParseError);
    }
    let first = s.get_char(0);
    let signed = first == '+' || first == '-';
    let negative = first == '-';
    let start: usize = if signed { 1 } else { 0 };
    let ghost digits = if signed { s@.drop_first() } else { s@ };
    if start == n {
        return Err(crate::todo::TodoError::ParseError);
    }
    // the magnitude of `i32::MIN`
    let limit: i64 = 2147483648;
    let mut acc: i64 = 0;
    let mut i: usize = start;
    while i < n
        invariant
            n == s@.len(),
            n > 0,
            limit == 2147483648,
            signed == (s@[0] == '+' || s@[0] == '-'),
            negative == (s@[0] == '-'),
            start <= i <= n,
            start == (if signed { 1int } else { 0int }),
            digits == (if signed { s@.drop_first() } else { s@ }),
            digits =~= s@.subrange(start as int, n as int),
            all_digits(digits.subrange(0, i - start)),
            acc == digits_value(digits.subrange(0, i - start)),
            0 <= acc <= limit,
        decreases n - i,
    {
        let c = s.get_char(i);
        if !('0' <= c && c <= '9') {
            assert(digits[i - start] == c);
            assert(!is_digit(digits[i - start]));
            assert(!all_digits(digits));
            return Err(crate::todo::TodoError::ParseError);
        }
        let ghost prefix = digits.subrange(0, i - start);
        let ghost longer = digits.subrange(0, i + 1 - start);
        assert(longer.drop_last() =~= prefix);
        assert(longer.last() == c);
        let d = (c as u32 - '0' as u32) as i64;
        assert(0 <= d <= 9);
        assert(0 <= acc * 10 <= limit * 10) by (nonlinear_arith)
            requires
                0 <= acc <= limit,
        ;
        acc = acc * 10 + d;
        assert(acc == digits_value(longer));
        i = i + 1;
        assert(all_digits(longer)) by {
            assert forall|j: int| 0 <= j < longer.len() implies is_digit(#[trigger] longer[j]) by {
                if j < prefix.len() {
                    assert(longer[j] == prefix[j]);
                }
            }
        }
        if acc > limit {
            // every longer run of digits only grows
            proof {
                if all_digits(digits) {
                    assert(digits.subrange(0, i - start) =~= longer);
                    lemma_digits_value_grows(digits, i - start);
                }
            }
            return Err(crate::todo::TodoError::ParseError);
        }
    }
    assert(digits.subrange(0, n - start) =~= digits);
    if negative {
        Ok((0 - acc) as i32)
    } else if acc <= 2147483647 {
        Ok(acc as i32)
    } else {
        Err(crate::todo::TodoError::ParseError)
    }
}

} // verus!
