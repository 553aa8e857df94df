//! Small verified text utilities shared by the expression printer, the
//! oracle-output parser and the code generator: decimal rendering of
//! machine integers, decimal parsing of captured simulator output bytes,
//! ASCII-case-insensitive name comparison, and list joining.

use vstd::prelude::*;

verus! {

use vstd::string::StrSliceExecFns;
use vstd::string::StringExecFns;

/// The decimal digit character for a value below ten.
pub open spec fn dec_digit_char(d: nat) -> char {
    if d == 0 {
        '0'
    } else if d == 1 {
        '1'
    } else if d == 2 {
        '2'
    } else if d == 3 {
        '3'
    } else if d == 4 {
        '4'
    } else if d == 5 {
        '5'
    } else if d == 6 {
        '6'
    } else if d == 7 {
        '7'
    } else if d == 8 {
        '8'
    } else {
        '9'
    }
}

/// The decimal rendering of a natural number, most significant digit first.
pub open spec fn spec_dec(n: nat) -> Seq<char>
    decreases n,
{
    if n < 10 {
        seq![dec_digit_char(n)]
    } else {
        spec_dec(n / 10) + seq![dec_digit_char(n % 10)]
    }
}

fn digit_str(d: usize) -> (r: &'static str)
    requires
        d < 10,
    ensures
        r@ =~= seq![dec_digit_char(d as nat)],
{
    if d == 0 {
        proof {
            reveal_strlit("0");
        }
        "0"
    } else if d == 1 {
        proof {
            reveal_strlit("1");
        }
        "1"
    } else if d == 2 {
        proof {
            reveal_strlit("2");
        }
        "2"
    } else if d == 3 {
        proof {
            reveal_strlit("3");
        }
        "3"
    } else if d == 4 {
        proof {
            reveal_strlit("4");
        }
        "4"
    } else if d == 5 {
        proof {
            reveal_strlit("5");
        }
        "5"
    } else if d == 6 {
        proof {
            reveal_strlit("6");
        }
        "6"
    } else if d == 7 {
        proof {
            reveal_strlit("7");
        }
        "7"
    } else if d == 8 {
        proof {
            reveal_strlit("8");
        }
        "8"
    } else {
        proof {
            reveal_strlit("9");
        }
        "9"
    }
}

/// Render a machine integer in decimal.
pub fn dec_string(n: usize) -> (r: String)
    ensures
        r@ == spec_dec(n as nat),
    decreases n,
{
    if n < 10 {
        let r = digit_str(n).to_owned();
        assert(r@ == spec_dec(n as nat));
        r
    } else {
        let mut r = dec_string(n / 10);
        r.append(digit_str(n % 10));
        assert(r@ == spec_dec(n as nat));
        r
    }
}

/// Render a 64-bit integer in decimal.
pub fn dec_string_u64(n: u64) -> (r: String)
    ensures
        r@ == spec_dec(n as nat),
    decreases n,
{
    if n < 10 {
        let r = digit_str((n % 10) as usize).to_owned();
        assert(r@ == spec_dec(n as nat));
        r
    } else {
        let mut r = dec_string_u64(n / 10);
        r.append(digit_str((n % 10) as usize));
        assert(r@ == spec_dec(n as nat));
        r
    }
}

/// Relies on `String::push`: appends exactly the given character at the
/// end of the string.
#[verifier::external_body]
pub fn push_char(s: &mut String, c: char)
    ensures
        final(s)@ == old(s)@ + seq![c],
{
    s.push(c);
}

/// The code of a character with ASCII upper-case letters folded to lower case.
pub open spec fn ascii_lower_code(c: char) -> u32 {
    if 65 <= c as u32 && c as u32 <= 90 {
        (c as u32 + 32) as u32
    } else {
        c as u32
    }
}

/// Character-wise ASCII-case-insensitive equality of two texts.
pub open spec fn spec_eq_ignore_ascii_case(a: Seq<char>, b: Seq<char>) -> bool {
    &&& a.len() == b.len()
    &&& forall|i: int| 0 <= i < a.len() ==> ascii_lower_code(a[i]) == ascii_lower_code(b[i])
}

fn lower_code(c: char) -> (r: u32)
    ensures
        r == ascii_lower_code(c),
{
    let u = c as u32;
    if 65 <= u && u <= 90 {
        u + 32
    } else {
        u
    }
}

/// Compare two names ignoring the case of ASCII letters.
pub fn str_eq_ignore_ascii_case(a: &str, b: &str) -> (r: bool)
    ensures
        r == spec_eq_ignore_ascii_case(a@, b@),
{
    let a_len = a.unicode_len();
    let b_len = b.unicode_len();
    if a_len != b_len {
        return false;
    }
    let mut i: usize = 0;
    while i < a_len
        invariant
            i <= a_len,
            a_len == a@.len(),
            a_len == b@.len(),
            forall|j: int| 0 <= j < i ==> ascii_lower_code(a@[j]) == ascii_lower_code(b@[j]),
        decreases a_len - i,
    {
        let ca = a.get_char(i);
        let cb = b.get_char(i);
        if lower_code(ca) != lower_code(cb) {
            return false;
        }
        i = i + 1;
    }
    true
}

/// Whether a character can start a plain identifier.
pub open spec fn is_ident_start(c: char) -> bool {
    ('a' <= c && c <= 'z') || ('A' <= c && c <= 'Z') || c == '_'
}

/// Whether a character can continue a plain identifier.
pub open spec fn is_ident_char(c: char) -> bool {
    is_ident_start(c) || ('0' <= c && c <= '9')
}

/// Whether a text is a plain identifier: nonempty, an ASCII letter or
/// underscore first, ASCII letters, digits and underscores after.
pub open spec fn spec_is_ident(s: Seq<char>) -> bool {
    &&& s.len() > 0
    &&& is_ident_start(s[0])
    &&& forall|i: int| 0 < i < s.len() ==> is_ident_char(s[i])
}

/// Check that a text is a plain identifier.
pub fn str_is_ident(s: &str) -> (r: bool)
    ensures
        r == spec_is_ident(s@),
{
    let len = s.unicode_len();
    if len == 0 {
        return false;
    }
    let c0 = s.get_char(0);
    if !(('a' <= c0 && c0 <= 'z') || ('A' <= c0 && c0 <= 'Z') || c0 == '_') {
        return false;
    }
    let mut i: usize = 1;
    while i < len
        invariant
            1 <= i <= len,
            len == s@.len(),
            is_ident_start(s@[0]),
            forall|j: int| 0 < j < i ==> is_ident_char(s@[j]),
        decreases len - i,
    {
        let c = s.get_char(i);
        if !(('a' <= c && c <= 'z') || ('A' <= c && c <= 'Z') || c == '_' || ('0' <= c && c
            <= '9')) {
            return false;
        }
        i = i + 1;
    }
    true
}

/// The bytes read as the characters with the same codes, for rendering
/// captured process output inside diagnostic text.
pub open spec fn latin1_view(s: Seq<u8>) -> Seq<char> {
    Seq::new(s.len(), |i: int| s[i] as char)
}

/// Render captured bytes as text, one character per byte code.
pub fn latin1_string(v: &Vec<u8>) -> (r: String)
    ensures
        r@ == latin1_view(v@),
{
    let mut r = String::new();
    let mut i: usize = 0;
    proof {
        assert(r@ =~= latin1_view(v@).subrange(0, 0));
    }
    #[verifier::loop_isolation(false)]
    while i < v.len()
        invariant
            i <= v@.len(),
            r@ =~= latin1_view(v@).subrange(0, i as int),
        decreases v@.len() - i,
    {
        push_char(&mut r, v[i] as char);
        proof {
            assert(r@ =~= latin1_view(v@).subrange(0, i + 1));
        }
        i = i + 1;
    }
    proof {
        assert(latin1_view(v@).subrange(0, v@.len() as int) =~= latin1_view(v@));
    }
    r
}

/// Copy a byte buffer.
pub fn copy_bytes(v: &Vec<u8>) -> (r: Vec<u8>)
    ensures
        r@ == v@,
{
    let mut r: Vec<u8> = Vec::new();
    let mut i: usize = 0;
    proof {
        assert(r@ =~= v@.subrange(0, 0));
    }
    #[verifier::loop_isolation(false)]
    while i < v.len()
        invariant
            i <= v@.len(),
            r@ =~= v@.subrange(0, i as int),
        decreases v@.len() - i,
    {
        r.push(v[i]);
        proof {
            assert(r@ =~= v@.subrange(0, i + 1));
        }
        i = i + 1;
    }
    proof {
        assert(v@.subrange(0, v@.len() as int) =~= v@);
    }
    r
}

/// Whether a byte is a decimal digit.
pub open spec fn is_dec_digit(b: u8) -> bool {
    48 <= b && b <= 57
}

/// Whether every byte of a text is a decimal digit.
pub open spec fn all_dec_digits(s: Seq<u8>) -> bool {
    forall|i: int| 0 <= i < s.len() ==> is_dec_digit(s[i])
}

/// The value of a text of decimal digit bytes, most significant first.
pub open spec fn dec_value(s: Seq<u8>) -> int
    decreases s.len(),
{
    if s.len() == 0 {
        0
    } else {
        dec_value(s.drop_last()) * 10 + s.last() - 48
    }
}

proof fn lemma_dec_value_step(s: Seq<u8>, i: int)
    requires
        0 <= i < s.len(),
    ensures
        dec_value(s.subrange(0, i + 1)) == dec_value(s.subrange(0, i)) * 10 + s[i] - 48,
{
    assert(s.subrange(0, i + 1).drop_last() =~= s.subrange(0, i));
    assert(s.subrange(0, i + 1).last() == s[i]);
}

proof fn lemma_dec_value_monotone(s: Seq<u8>, i: int)
    requires
        0 <= i <= s.len(),
        all_dec_digits(s),
    ensures
        dec_value(s.subrange(0, i)) <= dec_value(s),
        dec_value(s.subrange(0, i)) >= 0,
    decreases s.len() - i,
{
    let p = s.subrange(0, i);
    assert forall|j: int| 0 <= j < p.len() implies is_dec_digit(p[j]) by {
        assert(p[j] == s[j]);
    }
    lemma_dec_value_nonneg(p);
    if i == s.len() {
        assert(p =~= s);
    } else {
        lemma_dec_value_monotone(s, i + 1);
        lemma_dec_value_step(s, i);
        let v = dec_value(p);
        assert(v * 10 >= v) by (nonlinear_arith)
            requires
                v >= 0,
        ;
    }
}

proof fn lemma_dec_value_nonneg(s: Seq<u8>)
    requires
        all_dec_digits(s),
    ensures
        dec_value(s) >= 0,
    decreases s.len(),
{
    if s.len() > 0 {
        assert(all_dec_digits(s.drop_last())) by {
            assert(forall|i: int|
                0 <= i < s.drop_last().len() ==> s.drop_last()[i] == s[i]);
        }
        lemma_dec_value_nonneg(s.drop_last());
        assert(dec_value(s.drop_last()) * 10 >= 0) by (nonlinear_arith)
            requires
                dec_value(s.drop_last()) >= 0,
        ;
    }
}

/// Parse the decimal digits of `v[start .. end]` as a machine integer.
///
/// Returns the value exactly when the range is a nonempty run of decimal
/// digits whose value fits in `usize`.
pub fn parse_dec_bytes(v: &Vec<u8>, start: usize, end: usize) -> (r: Option<usize>)
    requires
        start <= end <= v@.len(),
    ensures
        ({
            let s = v@.subrange(start as int, end as int);
            match r {
                Some(val) => s.len() > 0 && all_dec_digits(s) && val == dec_value(s),
                None => !(s.len() > 0 && all_dec_digits(s) && dec_value(s) <= usize::MAX),
            }
        }),
{
    let ghost s = v@.subrange(start as int, end as int);
    if start == end {
        return None;
    }
    let mut acc: usize = 0;
    let mut i: usize = start;
    while i < end
        invariant
            start <= i <= end <= v@.len(),
            s == v@.subrange(start as int, end as int),
            all_dec_digits(s.subrange(0, i - start)),
            acc == dec_value(s.subrange(0, i - start)),
        decreases end - i,
    {
        let b = v[i];
        proof {
            assert(s[i - start] == v@[i as int]);
        }
        if b < 48 || b > 57 {
            proof {
                assert(!is_dec_digit(s[i - start]));
            }
            return None;
        }
        let d = (b - 48) as usize;
        proof {
            lemma_dec_value_step(s, i - start);
        }
        if acc > usize::MAX / 10 || (acc == usize::MAX / 10 && d > usize::MAX % 10) {
            proof {
                let prefix = s.subrange(0, i - start + 1);
                assert(dec_value(prefix) == acc * 10 + d);
                assert(usize::MAX as int == (usize::MAX as int / 10) * 10 + (usize::MAX as int
                    % 10));
                assert(acc * 10 + d > usize::MAX as int) by (nonlinear_arith)
                    requires
                        acc >= 0,
                        d >= 0,
                        acc > usize::MAX as int / 10 || (acc == usize::MAX as int / 10 && d
                            > usize::MAX as int % 10),
                        usize::MAX as int == (usize::MAX as int / 10) * 10 + (usize::MAX as int
                            % 10),
                        usize::MAX as int % 10 < 10,
                ;
                if all_dec_digits(s) {
                    lemma_dec_value_monotone(s, i - start + 1);
                    assert(dec_value(s) >= dec_value(prefix));
                }
            }
            return None;
        }
        proof {
            assert(acc * 10 + d <= usize::MAX as int) by (nonlinear_arith)
                requires
                    0 <= acc <= usize::MAX as int / 10,
                    0 <= d <= 9,
                    acc < usize::MAX as int / 10 || d <= usize::MAX as int % 10,
                    usize::MAX as int == (usize::MAX as int / 10) * 10 + (usize::MAX as int % 10),
            ;
            let p1 = s.subrange(0, i - start + 1);
            assert forall|j: int| 0 <= j < p1.len() implies is_dec_digit(p1[j]) by {
                assert(p1[j] == s[j]);
                if j < i - start {
                    assert(is_dec_digit(s.subrange(0, i - start)[j]));
                }
            }
            assert(all_dec_digits(p1));
        }
        acc = acc * 10 + d;
        i = i + 1;
    }
    proof {
        assert(s.subrange(0, (end - start) as int) =~= s);
    }
    Some(acc)
}

/// The first position of a byte in a text, or `-1` if it never occurs.
pub open spec fn find_byte(s: Seq<u8>, b: u8) -> int
    decreases s.len(),
{
    if s.len() == 0 {
        -1
    } else if s.first() == b {
        0
    } else {
        let r = find_byte(s.drop_first(), b);
        if r < 0 {
            -1
        } else {
            r + 1
        }
    }
}

/// `find_byte` returns the first occurrence or `-1`.
pub proof fn lemma_find_byte(s: Seq<u8>, b: u8)
    ensures
        -1 <= find_byte(s, b) < s.len(),
        find_byte(s, b) >= 0 ==> s[find_byte(s, b)] == b,
        forall|m: int| 0 <= m < s.len() && #[trigger] s[m] == b ==> 0 <= find_byte(s, b) <= m,
    decreases s.len(),
{
    if s.len() == 0 {
    } else if s.first() == b {
    } else {
        lemma_find_byte(s.drop_first(), b);
        let t = s.drop_first();
        assert forall|m: int| 0 <= m < s.len() && #[trigger] s[m] == b implies 0 <= find_byte(
            s,
            b,
        ) <= m by {
            assert(m != 0);
            assert(t[m - 1] == s[m]);
        }
    }
}

/// Find the first position of a byte in `v[start .. end]`.
pub fn find_byte_from(v: &Vec<u8>, start: usize, end: usize, b: u8) -> (r: Option<usize>)
    requires
        start <= end <= v@.len(),
    ensures
        ({
            let s = v@.subrange(start as int, end as int);
            match r {
                Some(k) => start <= k < end && v@[k as int] == b && find_byte(s, b) == k - start,
                None => find_byte(s, b) == -1,
            }
        }),
{
    let ghost s = v@.subrange(start as int, end as int);
    proof {
        lemma_find_byte(s, b);
    }
    let mut k: usize = start;
    while k < end
        invariant
            start <= k <= end <= v@.len(),
            s == v@.subrange(start as int, end as int),
            forall|m: int| 0 <= m < k - start ==> s[m] != b,
            -1 <= find_byte(s, b) < s.len(),
            find_byte(s, b) >= 0 ==> s[find_byte(s, b)] == b,
            forall|m: int| 0 <= m < s.len() && #[trigger] s[m] == b ==> 0 <= find_byte(s, b) <= m,
        decreases end - k,
    {
        if v[k] == b {
            proof {
                assert(s[k - start] == b);
            }
            return Some(k);
        }
        proof {
            assert(s[k - start] == v@[k as int]);
        }
        k = k + 1;
    }
    proof {
        if find_byte(s, b) >= 0 {
            assert(s[find_byte(s, b)] == b);
        }
    }
    None
}

/// A line with one trailing carriage return removed.
pub open spec fn strip_cr(l: Seq<u8>) -> Seq<u8> {
    if l.len() > 0 && l.last() == 13 {
        l.drop_last()
    } else {
        l
    }
}

/// The lines of a captured byte stream: split at each line feed, one
/// trailing carriage return per line removed, and no final empty line
/// for a stream that ends with a line feed.
pub open spec fn spec_split_lines(s: Seq<u8>) -> Seq<Seq<u8>>
    decreases s.len(),
    via split_lines_decreases
{
    if s.len() == 0 {
        Seq::empty()
    } else {
        let i = find_byte(s, 10);
        if i < 0 {
            seq![strip_cr(s)]
        } else {
            seq![strip_cr(s.subrange(0, i))] + spec_split_lines(s.subrange(i + 1, s.len() as int))
        }
    }
}

#[via_fn]
proof fn split_lines_decreases(s: Seq<u8>) {
    lemma_find_byte(s, 10);
}

/// The parts joined with single spaces between them.
pub open spec fn spec_join_space(parts: Seq<Seq<char>>) -> Seq<char>
    decreases parts.len(),
{
    if parts.len() == 0 {
        Seq::empty()
    } else if parts.len() == 1 {
        parts[0]
    } else {
        spec_join_space(parts.drop_last()) + " "@ + parts.last()
    }
}

/// Join strings with single spaces between them.
pub fn join_space(parts: &Vec<String>) -> (r: String)
    ensures
        r@ == spec_join_space(parts.deep_view()),
{
    let mut r = String::new();
    let mut i: usize = 0;
    proof {
        assert(parts.deep_view().subrange(0, 0) =~= Seq::<Seq<char>>::empty());
    }
    while i < parts.len()
        invariant
            i <= parts.len(),
            parts.deep_view().len() == parts.len(),
            forall|j: int| 0 <= j < parts.len() ==> parts.deep_view()[j] == parts[j]@,
            r@ == spec_join_space(parts.deep_view().subrange(0, i as int)),
        decreases parts.len() - i,
    {
        if i > 0 {
            r.append(" ");
        }
        r.append(parts[i].as_str());
        proof {
            let dv = parts.deep_view();
            assert(dv.subrange(0, i + 1).drop_last() =~= dv.subrange(0, i as int));
            assert(dv.subrange(0, i + 1).last() == dv[i as int]);
        }
        i = i + 1;
    }
    proof {
        assert(parts.deep_view().subrange(0, parts.len() as int) =~= parts.deep_view());
    }
    r
}

} // verus!
