//! The cursor codec: opaque pagination cursors of the form `image-<id>`.
//!
//! `encode_cursor` renders an identifier as a cursor string. `decode_cursor`
//! splits a raw cursor on `-`, demands exactly two segments, and reads the
//! second segment as a signed 32-bit integer, exactly as the connection
//! protocol specifies. The first segment is deliberately left unchecked, so
//! any string with a single `-` and a numeric suffix decodes; this
//! permissiveness is part of the cursor contract and is kept on purpose.

use vstd::prelude::*;
use vstd::string::*;

verus! {

/// Error returned when a raw cursor cannot be decoded.
#[derive(Debug, Clone, Copy, PartialEq, Eq)]
pub enum CursorError {
    /// The cursor does not split into exactly two `-`-separated segments,
    /// or its second segment is not a valid 32-bit integer.
    Malformed,
}

/// A decimal digit, as a character.
pub open spec fn is_digit(c: char) -> bool {
    48 <= c as int && c as int <= 57
}

/// Numeric value of a decimal digit character.
pub open spec fn digit_val(c: char) -> int {
    c as int - 48
}

/// The character for a single decimal digit.
pub open spec fn digit_char(d: int) -> char {
    if d == 0 {
        '0'
    } else if d == 1 {
        '1'
    } else if d == 2 {
        '2'
    } else if d == 3 {
        '3'
    } else if d == 4 {
        '4'
    } else if d == 5 {
        '5'
    } else if d == 6 {
        '6'
    } else if d == 7 {
        '7'
    } else if d == 8 {
        '8'
    } else {
        '9'
    }
}

/// The decimal representation of a nonnegative integer, most significant
/// digit first, with no padding and no sign.
pub open spec fn dec_rep(n: int) -> Seq<char>
    recommends
        n >= 0,
    decreases n,
{
    if n < 10 {
        seq![digit_char(n)]
    } else {
        dec_rep(n / 10).push(digit_char(n % 10))
    }
}

/// The cursor string for an identifier: `image-` followed by the decimal
/// rendering of `id` (with a `-` sign when `id` is negative, as decimal
/// formatting of a signed integer gives).
pub open spec fn cursor_chars(id: int) -> Seq<char> {
    if id >= 0 {
        "image-"@ + dec_rep(id)
    } else {
        "image-"@ + seq!['-'] + dec_rep(-id)
    }
}

/// Every character of `s` is a decimal digit.
pub open spec fn all_digits(s: Seq<char>) -> bool {
    forall|i: int| 0 <= i < s.len() ==> is_digit(#[trigger] s[i])
}

/// The integer denoted by a sequence of decimal digits (0 when empty).
pub open spec fn digits_value(s: Seq<char>) -> int
    decreases s.len(),
{
    if s.len() == 0 {
        0
    } else {
        digits_value(s.drop_last()) * 10 + digit_val(s.last())
    }
}

/// A numeric segment with an optional leading `+` stripped. (A `-` sign can
/// never reach the numeric segment of a cursor, since the split on `-`
/// consumes every dash.)
pub open spec fn sign_body(s: Seq<char>) -> Seq<char> {
    if s.len() > 0 && s[0] == '+' {
        s.subrange(1, s.len() as int)
    } else {
        s
    }
}

/// Whether a dash-free segment parses as a 32-bit integer: at least one
/// digit after the optional sign, digits only, and a value within range.
pub open spec fn segment_parses(s: Seq<char>) -> bool {
    &&& sign_body(s).len() > 0
    &&& all_digits(sign_body(s))
    &&& digits_value(sign_body(s)) <= i32::MAX
}

/// The value of a segment accepted by `segment_parses`.
pub open spec fn segment_value(s: Seq<char>) -> int {
    digits_value(sign_body(s))
}

/// `s` holds a `-` at position `i` and nowhere else, so that splitting on
/// `-` yields exactly two segments, separated at `i`.
pub open spec fn single_dash_at(s: Seq<char>, i: int) -> bool {
    &&& 0 <= i < s.len()
    &&& s[i] == '-'
    &&& forall|j: int| 0 <= j < s.len() && j != i ==> s[j] != '-'
}

pub open spec fn has_single_dash(s: Seq<char>) -> bool {
    exists|i: int| single_dash_at(s, i)
}

/// The position of the separator of a two-segment cursor.
pub open spec fn dash_index(s: Seq<char>) -> int {
    choose|i: int| single_dash_at(s, i)
}

/// The second segment of a two-segment cursor.
pub open spec fn cursor_suffix(s: Seq<char>) -> Seq<char> {
    s.subrange(dash_index(s) + 1, s.len() as int)
}

/// A raw cursor is well formed when it splits into exactly two segments and
/// the second one parses as a 32-bit integer.
pub open spec fn cursor_wf(s: Seq<char>) -> bool {
    has_single_dash(s) && segment_parses(cursor_suffix(s))
}

/// The identifier a well-formed cursor decodes to. Always nonnegative: the
/// split consumes every dash, so no minus sign survives into the segment.
pub open spec fn cursor_value(s: Seq<char>) -> int {
    segment_value(cursor_suffix(s))
}

/// The string slice for a single decimal digit.
fn digit_str(d: u32) -> (s: &'static str)
    requires
        d < 10,
    ensures
        s@ == seq![digit_char(d as int)],
{
    proof {
        reveal_strlit("0");
        reveal_strlit("1");
        reveal_strlit("2");
        reveal_strlit("3");
        reveal_strlit("4");
        reveal_strlit("5");
        reveal_strlit("6");
        reveal_strlit("7");
        reveal_strlit("8");
        reveal_strlit("9");
        assert("0"@ =~= seq!['0']);
        assert("1"@ =~= seq!['1']);
        assert("2"@ =~= seq!['2']);
        assert("3"@ =~= seq!['3']);
        assert("4"@ =~= seq!['4']);
        assert("5"@ =~= seq!['5']);
        assert("6"@ =~= seq!['6']);
        assert("7"@ =~= seq!['7']);
        assert("8"@ =~= seq!['8']);
        assert("9"@ =~= seq!['9']);
    }
    match d {
        0 => "0",
        1 => "1",
        2 => "2",
        3 => "3",
        4 => "4",
        5 => "5",
        6 => "6",
        7 => "7",
        8 => "8",
        _ => "9",
    }
}

/// The decimal rendering of a nonnegative integer.
fn digits_string(n: u32) -> (s: String)
    ensures
        s@ == dec_rep(n as int),
    decreases n,
{
    if n < 10 {
        digit_str(n).to_owned()
    } else {
        let mut s = digits_string(n / 10);
        s.append(digit_str(n % 10));
        proof {
            assert(s@ =~= dec_rep(n as int / 10).push(digit_char(n as int % 10)));
        }
        s
    }
}

/// Encodes an identifier as a cursor: `image-` followed by the decimal
/// rendering of `id`.
pub fn encode_cursor(id: i32) -> (s: String)
    ensures
        s@ == cursor_chars(id as int),
{
    let mut s = "image-".to_owned();
    if id >= 0 {
        let digits = digits_string(id as u32);
        s.append(digits.as_str());
    } else {
        s.append("-");
        let mag = (-(id as i64)) as u32;
        let digits = digits_string(mag);
        s.append(digits.as_str());
        proof {
            reveal_strlit("-");
            assert("-"@ =~= seq!['-']);
            assert(s@ =~= "image-"@ + seq!['-'] + dec_rep(-(id as int)));
        }
    }
    s
}

/// Decodes a raw cursor. The cursor must split on `-` into exactly two
/// segments, and the second segment must parse as a signed 32-bit integer;
/// anything else is `Malformed`. The first segment is not inspected. The
/// decoded identifier is never negative, since the split on `-` leaves no
/// minus sign inside the numeric segment.
pub fn decode_cursor(s: &str) -> (r: Result<i32, CursorError>)
    ensures
        match r {
            Ok(v) => cursor_wf(s@) && v >= 0 && v as int == cursor_value(s@),
            Err(e) => !cursor_wf(s@) && e == CursorError::Malformed,
        },
{
    let n = s.unicode_len();
    // Find the separator; a second dash means more than two segments.
    let mut i: usize = 0;
    let mut dash: usize = 0;
    let mut seen: bool = false;
    while i < n
        invariant
            n == s@.len(),
            i <= n,
            seen ==> dash < i && s@[dash as int] == '-' && (forall|j: int|
                0 <= j < i && j != dash ==> s@[j] != '-'),
            !seen ==> (forall|j: int| 0 <= j < i ==> s@[j] != '-'),
        decreases n - i,
    {
        let c = s.get_char(i);
        if c == '-' {
            if seen {
                proof {
                    assert forall|k: int| !single_dash_at(s@, k) by {
                        if 0 <= k < s@.len() && s@[k] == '-' {
                            if k == dash as int {
                                assert(s@[i as int] == '-');
                            } else {
                                assert(s@[dash as int] == '-');
                            }
                        }
                    };
                }
                return Err(CursorError::Malformed);
            }
            dash = i;
            seen = true;
        }
        i += 1;
    }
    if !seen {
        proof {
            assert forall|k: int| !single_dash_at(s@, k) by {
                if 0 <= k < s@.len() {
                    assert(s@[k] != '-');
                }
            };
        }
        return Err(CursorError::Malformed);
    }
    proof {
        assert(single_dash_at(s@, dash as int));
        assert(dash_index(s@) == dash as int) by {
            let w = dash_index(s@);
            assert(single_dash_at(s@, w));
            if w != dash as int {
                assert(s@[dash as int] != '-');
            }
        };
    }
    let ghost suffix = s@.subrange(dash as int + 1, n as int);
    proof {
        assert(cursor_suffix(s@) =~= suffix);
    }
    // Strip an optional leading plus sign, as 32-bit integer parsing does.
    let mut p = dash + 1;
    if p < n {
        let c0 = s.get_char(p);
        if c0 == '+' {
            p = p + 1;
        }
    }
    let ghost body = s@.subrange(p as int, n as int);
    proof {
        if p == dash + 2 {
            assert(suffix.len() > 0 && suffix[0] == '+');
            assert(suffix.subrange(1, suffix.len() as int) =~= body);
        } else {
            assert(suffix =~= body);
        }
        assert(sign_body(suffix) == body);
    }
    if p == n {
        // No digits after the separator (and the optional sign).
        proof {
            assert(body.len() == 0);
        }
        return Err(CursorError::Malformed);
    }
    // Read the digits, tracking whether the value has left the 32-bit range.
    let mut j = p;
    let mut val: u64 = 0;
    let mut too_big: bool = false;
    while j < n
        invariant
            n == s@.len(),
            p <= j <= n,
            p < n,
            body == s@.subrange(p as int, n as int),
            has_single_dash(s@),
            sign_body(cursor_suffix(s@)) == body,
            forall|k: int| p <= k < j ==> is_digit(#[trigger] s@[k]),
            !too_big ==> val as int == digits_value(s@.subrange(p as int, j as int)) && val
                <= i32::MAX as u64,
            too_big ==> digits_value(s@.subrange(p as int, j as int)) > i32::MAX,
        decreases n - j,
    {
        let c = s.get_char(j);
        let cu = c as u32;
        if cu < 48 || cu > 57 {
            proof {
                assert(body[j - p] == s@[j as int]);
                assert(!all_digits(body));
            }
            return Err(CursorError::Malformed);
        }
        proof {
            let prefix1 = s@.subrange(p as int, j as int + 1);
            assert(prefix1.drop_last() =~= s@.subrange(p as int, j as int));
            assert(prefix1.last() == s@[j as int]);
        }
        if !too_big {
            let nv = val * 10 + (cu - 48) as u64;
            if nv > 2147483647u64 {
                too_big = true;
            } else {
                val = nv;
            }
        }
        j += 1;
    }
    proof {
        assert(s@.subrange(p as int, n as int) == body);
        assert forall|t: int| 0 <= t < body.len() implies is_digit(body[t]) by {
            assert(body[t] == s@[t + p]);
        };
    }
    if too_big {
        return Err(CursorError::Malformed);
    }
    proof {
        assert(segment_parses(cursor_suffix(s@)));
        assert(cursor_value(s@) == val as int);
    }
    Ok(val as i32)
}

/// The decimal rendering of a nonnegative integer is one or more digits and
/// denotes the integer itself.
pub proof fn lemma_dec_rep(n: int)
    requires
        n >= 0,
    ensures
        dec_rep(n).len() >= 1,
        all_digits(dec_rep(n)),
        digits_value(dec_rep(n)) == n,
    decreases n,
{
    if n < 10 {
        let s = seq![digit_char(n)];
        assert(dec_rep(n) == s);
        assert(s.last() == digit_char(n));
        assert(s.drop_last() =~= Seq::<char>::empty());
        assert(digits_value(Seq::<char>::empty()) == 0);
        assert(digits_value(s) == digits_value(s.drop_last()) * 10 + digit_val(s.last()));
        assert(digit_val(digit_char(n)) == n);
    } else {
        lemma_dec_rep(n / 10);
        vstd::arithmetic::div_mod::lemma_fundamental_div_mod(n, 10);
        vstd::arithmetic::div_mod::lemma_mod_bound(n, 10);
        let s = dec_rep(n);
        assert(s.drop_last() =~= dec_rep(n / 10));
        assert(s.last() == digit_char(n % 10));
        assert forall|i: int| 0 <= i < s.len() implies is_digit(s[i]) by {
            if i < s.len() - 1 {
                assert(s[i] == dec_rep(n / 10)[i]);
            }
        };
    }
}

/// ROUND-TRIP LAW: for every identifier in `[0, i32::MAX]` — in particular
/// for every resource id in `[1, image_count]` — the encoded cursor is well
/// formed and decodes back to the identifier. With the contracts of
/// `encode_cursor` and `decode_cursor`, decoding an encoded id yields
/// `Ok(id)`.
pub proof fn lemma_cursor_round_trip(id: int)
    requires
        0 <= id <= i32::MAX,
    ensures
        cursor_wf(cursor_chars(id)),
        cursor_value(cursor_chars(id)) == id,
{
    reveal_strlit("image-");
    let pre = "image-"@;
    assert(pre =~= seq!['i', 'm', 'a', 'g', 'e', '-']);
    lemma_dec_rep(id);
    let s = cursor_chars(id);
    assert(s == pre + dec_rep(id));
    assert(single_dash_at(s, 5)) by {
        assert(s[5] == '-');
        assert forall|j: int| 0 <= j < s.len() && j != 5 implies s[j] != '-' by {
            if j >= 6 {
                assert(s[j] == dec_rep(id)[j - 6]);
                assert(is_digit(dec_rep(id)[j - 6]));
            }
        };
    };
    assert(has_single_dash(s));
    assert(dash_index(s) == 5) by {
        let w = dash_index(s);
        assert(single_dash_at(s, w));
        if w != 5 {
            assert(s[5] != '-');
        }
    };
    let suf = cursor_suffix(s);
    assert(suf =~= dec_rep(id));
    assert(is_digit(suf[0]));
    assert(suf[0] != '+');
    assert(sign_body(suf) == suf);
}

} // verus!
