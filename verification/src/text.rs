//! Verified character and string helpers shared by the validator, the query
//! builders and both decoders.
//!
//! Strings are modelled as `Seq<char>`; every exec helper carries an exact
//! contract over that model.

use vstd::prelude::*;

verus! {

/// Unicode `White_Space` code points, as used by `str::trim`.
pub open spec fn is_ws_char(c: char) -> bool {
    ('\u{9}' <= c && c <= '\u{d}') || c == ' ' || c == '\u{85}' || c == '\u{a0}'
        || c == '\u{1680}' || ('\u{2000}' <= c && c <= '\u{200a}') || c == '\u{2028}'
        || c == '\u{2029}' || c == '\u{202f}' || c == '\u{205f}' || c == '\u{3000}'
}

/// True when every character of the sequence is white space (so trimming
/// leaves nothing).
pub open spec fn all_ws(s: Seq<char>) -> bool {
    forall|i: int| 0 <= i < s.len() ==> is_ws_char(#[trigger] s[i])
}

/// The sequence with leading white space removed.
pub open spec fn trim_start(s: Seq<char>) -> Seq<char>
    decreases s.len(),
{
    if s.len() > 0 && is_ws_char(s[0]) {
        trim_start(s.drop_first())
    } else {
        s
    }
}

/// The sequence with trailing white space removed.
pub open spec fn trim_end(s: Seq<char>) -> Seq<char>
    decreases s.len(),
{
    if s.len() > 0 && is_ws_char(s[s.len() - 1]) {
        trim_end(s.drop_last())
    } else {
        s
    }
}

/// The sequence with leading and trailing white space removed, as `str::trim`
/// leaves it.
pub open spec fn spec_trim(s: Seq<char>) -> Seq<char> {
    trim_end(trim_start(s))
}

proof fn lemma_trim_start_props(s: Seq<char>)
    ensures
        trim_start(s).len() > 0 ==> !is_ws_char(trim_start(s)[0]),
        all_ws(s) ==> trim_start(s).len() == 0,
        !all_ws(s) ==> trim_start(s).len() > 0,
    decreases s.len(),
{
    if s.len() > 0 && is_ws_char(s[0]) {
        lemma_trim_start_props(s.drop_first());
        if all_ws(s) {
            assert(forall|i: int|
                0 <= i < s.drop_first().len() ==> is_ws_char(#[trigger] s.drop_first()[i]))
                by {
                assert(forall|i: int|
                    0 <= i < s.drop_first().len() ==> s.drop_first()[i] == #[trigger] s[i
                        + 1]);
            }
        }
        if !all_ws(s) {
            assert(!all_ws(s.drop_first())) by {
                let i = choose|i: int| 0 <= i < s.len() && !is_ws_char(#[trigger] s[i]);
                assert(i > 0);
                assert(s.drop_first()[i - 1] == s[i]);
            }
        }
    }
}

proof fn lemma_trim_end_props(s: Seq<char>)
    ensures
        trim_end(s).len() > 0 ==> !is_ws_char(trim_end(s)[trim_end(s).len() - 1]),
        s.len() > 0 && !is_ws_char(s[0]) ==> trim_end(s).len() > 0 && trim_end(s)[0] == s[0],
    decreases s.len(),
{
    if s.len() > 0 && is_ws_char(s[s.len() - 1]) {
        lemma_trim_end_props(s.drop_last());
        if s.len() > 1 {
            assert(s.drop_last()[0] == s[0]);
        }
    }
}

/// Trimming is idempotent, and leaves nothing exactly of all-white-space
/// text.
pub proof fn lemma_trim_props(s: Seq<char>)
    ensures
        spec_trim(spec_trim(s)) == spec_trim(s),
        all_ws(s) <==> spec_trim(s).len() == 0,
        !all_ws(s) ==> !all_ws(spec_trim(s)),
{
    let y = trim_start(s);
    let t = trim_end(y);
    lemma_trim_start_props(s);
    lemma_trim_end_props(y);
    if t.len() > 0 {
        assert(!is_ws_char(t[0]));
        assert(trim_start(t) == t);
        assert(!is_ws_char(t[t.len() - 1]));
        assert(trim_end(t) == t);
        assert(!all_ws(t));
    } else {
        assert(trim_start(t) == t);
        assert(trim_end(t) == t);
    }
    if all_ws(s) {
        assert(y.len() == 0);
        assert(t.len() == 0);
    }
    if !all_ws(s) {
        assert(y.len() > 0);
        assert(!is_ws_char(y[0]));
        assert(t.len() > 0);
    }
}

/// ASCII lower-casing of one character; anything outside `A..Z` is unchanged.
pub open spec fn lower_char(c: char) -> char {
    if 'A' <= c && c <= 'Z' {
        (((c as u8) + 32) as char)
    } else {
        c
    }
}

/// ASCII upper-casing of one character; anything outside `a..z` is unchanged.
pub open spec fn upper_char(c: char) -> char {
    if 'a' <= c && c <= 'z' {
        (((c as u8) - 32) as char)
    } else {
        c
    }
}

/// ASCII case-insensitive equality of two character sequences.
pub open spec fn ci_equal(a: Seq<char>, b: Seq<char>) -> bool {
    a.len() == b.len() && forall|i: int|
        0 <= i < a.len() ==> lower_char(#[trigger] a[i]) == lower_char(b[i])
}

/// The sequence with every ASCII letter upper-cased.
pub open spec fn upper_seq(s: Seq<char>) -> Seq<char> {
    s.map_values(|c: char| upper_char(c))
}

/// The sequence with every ASCII letter lower-cased.
pub open spec fn lower_seq(s: Seq<char>) -> Seq<char> {
    s.map_values(|c: char| lower_char(c))
}

/// True when every character of the sequence is an ASCII digit.
pub open spec fn all_digits(s: Seq<char>) -> bool {
    forall|i: int| 0 <= i < s.len() ==> '0' <= #[trigger] s[i] && s[i] <= '9'
}

/// Numeric value of one ASCII digit.
pub open spec fn digit_val(c: char) -> nat {
    ((c as u8) - 48) as nat
}

/// Value of a sequence of ASCII digits read as a decimal number.
pub open spec fn digits_val(s: Seq<char>) -> nat
    decreases s.len(),
{
    if s.len() == 0 {
        0
    } else {
        digits_val(s.drop_last()) * 10 + digit_val(s[s.len() - 1])
    }
}

/// The decimal digit character for a value below ten.
pub open spec fn digit_char(d: nat) -> char {
    ((d + 48) as u8) as char
}

/// Decimal representation of a natural number, without sign or padding.
pub open spec fn dec_str(n: nat) -> Seq<char>
    decreases n,
{
    if n < 10 {
        seq![digit_char(n)]
    } else {
        dec_str(n / 10).push(digit_char(n % 10))
    }
}

/// Ten to the given power.
pub open spec fn pow10(n: nat) -> nat
    decreases n,
{
    if n == 0 {
        1
    } else {
        10 * pow10((n - 1) as nat)
    }
}

/// A digit string's value is below ten to its length.
pub proof fn lemma_digits_val_bound(s: Seq<char>)
    requires
        all_digits(s),
    ensures
        digits_val(s) < pow10(s.len()),
    decreases s.len(),
{
    if s.len() > 0 {
        lemma_digits_val_bound(s.drop_last());
        assert(digit_val(s[s.len() - 1]) <= 9);
    }
}

/// The shape `str::parse::<u32>` accepts: an optional leading `+`, then one
/// or more ASCII digits.
pub open spec fn u32_literal_shape(s: Seq<char>) -> bool {
    if s.len() > 0 && s[0] == '+' {
        s.len() > 1 && all_digits(s.drop_first())
    } else {
        s.len() > 0 && all_digits(s)
    }
}

/// The digits of such a literal, with the optional sign removed.
pub open spec fn u32_literal_digits(s: Seq<char>) -> Seq<char> {
    if s.len() > 0 && s[0] == '+' {
        s.drop_first()
    } else {
        s
    }
}

/// What `str::parse::<u32>` returns: the value when the shape is accepted
/// and the value fits, `None` otherwise.
pub open spec fn spec_parse_u32(s: Seq<char>) -> Option<u32> {
    if u32_literal_shape(s) && digits_val(u32_literal_digits(s)) <= u32::MAX {
        Some(digits_val(u32_literal_digits(s)) as u32)
    } else {
        None
    }
}

/// What `str::parse::<u16>` returns, in the same way.
pub open spec fn spec_parse_u16(s: Seq<char>) -> Option<u16> {
    if u32_literal_shape(s) && digits_val(u32_literal_digits(s)) <= u16::MAX {
        Some(digits_val(u32_literal_digits(s)) as u16)
    } else {
        None
    }
}

/// Lexicographic order on character sequences, as comparing two same-shape
/// zero-padded digit strings compares the numbers they stand for.
pub open spec fn lex_le(a: Seq<char>, b: Seq<char>) -> bool
    decreases a.len(),
{
    if a.len() == 0 {
        true
    } else if b.len() == 0 {
        false
    } else if a[0] != b[0] {
        a[0] < b[0]
    } else {
        lex_le(a.drop_first(), b.drop_first())
    }
}

/// True when `p` is a prefix of `s`.
pub open spec fn is_prefix(p: Seq<char>, s: Seq<char>) -> bool {
    p.len() <= s.len() && s.subrange(0, p.len() as int) == p
}

/// True when `needle` occurs somewhere in `hay`.
pub open spec fn contains_seq(hay: Seq<char>, needle: Seq<char>) -> bool {
    exists|i: int|
        0 <= i && i + needle.len() <= hay.len() && #[trigger] hay.subrange(
            i,
            i + needle.len() as int,
        ) == needle
}

/// The parts joined with a comma between neighbours.
pub open spec fn join_comma(parts: Seq<Seq<char>>) -> Seq<char>
    decreases parts.len(),
{
    if parts.len() == 0 {
        Seq::empty()
    } else if parts.len() == 1 {
        parts[0]
    } else {
        parts[0] + seq![','] + join_comma(parts.drop_first())
    }
}

/// Index of the first comma, or the length when there is none.
pub open spec fn first_comma(s: Seq<char>) -> int
    decreases s.len(),
{
    if s.len() == 0 {
        0
    } else if s[0] == ',' {
        0
    } else {
        1 + first_comma(s.drop_first())
    }
}

/// The comma-separated parts of a sequence; an inverse of [`join_comma`] for
/// comma-free parts.
pub open spec fn split_comma(s: Seq<char>) -> Seq<Seq<char>>
    decreases s.len(),
{
    let i = first_comma(s);
    if 0 <= i && i < s.len() {
        seq![s.take(i)] + split_comma(s.skip(i + 1))
    } else {
        seq![s]
    }
}

proof fn lemma_first_comma_bounds(s: Seq<char>)
    ensures
        0 <= first_comma(s) <= s.len(),
        forall|j: int| 0 <= j < first_comma(s) ==> s[j] != ',',
        first_comma(s) < s.len() ==> s[first_comma(s)] == ',',
        !s.contains(',') ==> first_comma(s) == s.len(),
    decreases s.len(),
{
    if s.len() > 0 && s[0] != ',' {
        lemma_first_comma_bounds(s.drop_first());
        assert forall|j: int| 0 <= j < first_comma(s) implies s[j] != ',' by {
            if j > 0 {
                assert(s.drop_first()[j - 1] == s[j]);
            }
        }
        if first_comma(s) < s.len() {
            assert(s.drop_first()[first_comma(s) - 1] == s[first_comma(s)]);
        }
        if !s.contains(',') {
            assert(!s.drop_first().contains(',')) by {
                if s.drop_first().contains(',') {
                    let k = choose|k: int|
                        0 <= k < s.drop_first().len() && s.drop_first()[k] == ',';
                    assert(s[k + 1] == ',');
                }
            }
        }
    }
}

proof fn lemma_first_comma_prefix(p: Seq<char>, rest: Seq<char>)
    requires
        !p.contains(','),
    ensures
        first_comma(p + seq![','] + rest) == p.len(),
    decreases p.len(),
{
    let s = p + seq![','] + rest;
    if p.len() == 0 {
        assert(s[0] == ',');
    } else {
        assert(s[0] == p[0]);
        assert(s[0] != ',') by {
            assert(p[0] == s[0]);
            if p[0] == ',' {
                assert(p.contains(','));
            }
        }
        assert(!p.drop_first().contains(',')) by {
            if p.drop_first().contains(',') {
                let k = choose|k: int|
                    0 <= k < p.drop_first().len() && p.drop_first()[k] == ',';
                assert(p[k + 1] == ',');
            }
        }
        lemma_first_comma_prefix(p.drop_first(), rest);
        assert(s.drop_first() =~= p.drop_first() + seq![','] + rest);
    }
}

/// Where the first comma sits, splitting takes the prefix and recurs after
/// the comma; without one the whole sequence is the one part.
proof fn lemma_split_comma_step(s: Seq<char>, k: int)
    requires
        0 <= k <= s.len(),
        forall|j: int| 0 <= j < k ==> s[j] != ',',
        k < s.len() ==> s[k] == ',',
    ensures
        k < s.len() ==> split_comma(s) == seq![s.take(k)] + split_comma(s.skip(k + 1)),
        k == s.len() ==> split_comma(s) == seq![s],
{
    lemma_first_comma_bounds(s);
    if k < s.len() {
        assert(first_comma(s) == k) by {
            if first_comma(s) < k {
                assert(s[first_comma(s)] == ',');
            }
            if first_comma(s) > k {
                assert(s[k] != ',');
            }
        }
    } else {
        assert(first_comma(s) == s.len()) by {
            if first_comma(s) < s.len() {
                assert(s[first_comma(s)] == ',');
            }
        }
    }
}

/// Splits a string at its commas; the inverse of [`join_comma_strings`] for
/// comma-free parts.
pub fn split_comma_exec(s: &str) -> (r: Vec<String>)
    ensures
        r.deep_view() == split_comma(s@),
{
    let n = s.unicode_len();
    let mut parts: Vec<String> = Vec::new();
    let mut pos: usize = 0;
    assert(parts.deep_view() =~= Seq::<Seq<char>>::empty());
    assert(s@.skip(0) =~= s@);
    loop
        invariant
            n == s@.len(),
            pos <= n,
            split_comma(s@) == parts.deep_view() + split_comma(s@.skip(pos as int)),
        decreases n - pos,
    {
        let mut j = pos;
        while j < n && s.get_char(j) != ','
            invariant
                n == s@.len(),
                pos <= j <= n,
                forall|k: int| pos <= k < j ==> s@[k] != ',',
            decreases n - j,
        {
            j = j + 1;
        }
        let ghost rem = s@.skip(pos as int);
        proof {
            assert(forall|k: int| 0 <= k < j - pos ==> rem[k] != ',') by {
                assert(forall|k: int| 0 <= k < j - pos ==> rem[k] == #[trigger] s@[pos + k]);
            }
            if j < n {
                assert(rem[j - pos] == s@[j as int]);
            }
            lemma_split_comma_step(rem, j - pos);
        }
        let piece = s.substring_char(pos, j).to_owned();
        assert(piece@ =~= rem.take(j - pos));
        let ghost before = parts.deep_view();
        if j < n {
            parts.push(piece);
            proof {
                assert(parts.deep_view() =~= before.push(rem.take(j - pos)));
                assert(rem.skip(j - pos + 1) =~= s@.skip(j + 1));
                assert(before + split_comma(rem) =~= parts.deep_view() + split_comma(
                    s@.skip(j + 1),
                ));
            }
            pos = j + 1;
        } else {
            parts.push(piece);
            proof {
                assert(rem.take(j - pos) =~= rem);
                assert(parts.deep_view() =~= before.push(rem));
                assert(split_comma(s@) =~= parts.deep_view());
            }
            return parts;
        }
    }
}

/// Splitting the comma-joined parts gives the parts back, when no part holds
/// a comma.
pub proof fn lemma_split_join_comma(parts: Seq<Seq<char>>)
    requires
        parts.len() >= 1,
        forall|i: int| 0 <= i < parts.len() ==> !(#[trigger] parts[i]).contains(','),
    ensures
        split_comma(join_comma(parts)) == parts,
    decreases parts.len(),
{
    let s = join_comma(parts);
    if parts.len() == 1 {
        assert(s == parts[0]);
        lemma_first_comma_bounds(s);
        assert(split_comma(s) =~= seq![parts[0]]);
        assert(seq![parts[0]] =~= parts);
    } else {
        let rest = join_comma(parts.drop_first());
        assert(s == parts[0] + seq![','] + rest);
        lemma_first_comma_prefix(parts[0], rest);
        let i = first_comma(s);
        assert(i == parts[0].len());
        assert(rest.len() >= 0);
        assert(i < s.len());
        assert(s.take(i) =~= parts[0]);
        assert(s.skip(i + 1) =~= rest);
        assert(forall|k: int|
            0 <= k < parts.drop_first().len() ==> !(#[trigger] parts.drop_first()[k]).contains(
                ','
            ));
        lemma_split_join_comma(parts.drop_first());
        assert(split_comma(s) == seq![parts[0]] + parts.drop_first());
        assert(seq![parts[0]] + parts.drop_first() =~= parts);
    }
}

/// The decimal representation of a number is all digits and reads back as
/// the number.
pub proof fn lemma_dec_str_value(n: nat)
    ensures
        all_digits(dec_str(n)),
        dec_str(n).len() >= 1,
        digits_val(dec_str(n)) == n,
        dec_str(n)[0] != '+',
    decreases n,
{
    if n < 10 {
        let s = dec_str(n);
        assert(s == seq![digit_char(n)]);
        assert(s.len() == 1);
        assert(s.drop_last() =~= Seq::<char>::empty());
        assert(digits_val(s.drop_last()) == 0);
        assert(digits_val(s) == digit_val(s[0]));
        assert(s[0] == digit_char(n));
        assert(digit_val(digit_char(n)) == n) by {
            assert(((n + 48) as u8) as char as u8 == n + 48);
        }
        assert('0' <= digit_char(n) && digit_char(n) <= '9');
    } else {
        lemma_dec_str_value(n / 10);
        let s = dec_str(n);
        assert(s == dec_str(n / 10).push(digit_char(n % 10)));
        assert(s.drop_last() =~= dec_str(n / 10));
        assert(s[s.len() - 1] == digit_char(n % 10));
        assert(digit_val(digit_char(n % 10)) == n % 10);
        assert(digits_val(s) == (n / 10) * 10 + n % 10);
        assert((n / 10) * 10 + n % 10 == n) by (nonlinear_arith);
        assert(forall|i: int| 0 <= i < s.len() ==> '0' <= #[trigger] s[i] && s[i] <= '9') by {
            assert(forall|i: int|
                0 <= i < s.len() - 1 ==> s[i] == #[trigger] dec_str(n / 10)[i]);
        }
        assert(s[0] == dec_str(n / 10)[0]);
    }
}

/// A decimal representation of a `u32` parses back to the same value.
pub proof fn lemma_dec_str_parses(n: u32)
    ensures
        spec_parse_u32(dec_str(n as nat)) == Some(n),
{
    lemma_dec_str_value(n as nat);
    let s = dec_str(n as nat);
    assert(u32_literal_shape(s));
    assert(u32_literal_digits(s) == s);
}

/// Appends one character to a string.
///
/// Relies on `String::push`: the character is appended and nothing else
/// changes.
#[verifier::external_body]
pub fn push_char(s: &mut String, c: char)
    ensures
        final(s)@ == old(s)@.push(c),
{
    s.push(c);
}

/// The characters of a string slice, in order.
pub fn str_chars(s: &str) -> (r: Vec<char>)
    ensures
        r@ == s@,
{
    let n = s.unicode_len();
    let mut r: Vec<char> = Vec::new();
    for i in 0..n
        invariant
            n == s@.len(),
            r@ == s@.take(i as int),
    {
        r.push(s.get_char(i));
        assert(s@.take(i + 1) =~= s@.take(i as int).push(s@[i as int]));
    }
    assert(s@.take(n as int) =~= s@);
    r
}

/// A string with exactly the given characters.
pub fn string_from_chars(cs: &Vec<char>) -> (r: String)
    ensures
        r@ == cs@,
{
    let mut r = String::new();
    let n = cs.len();
    for i in 0..n
        invariant
            n == cs@.len(),
            r@ == cs@.take(i as int),
    {
        push_char(&mut r, cs[i]);
        assert(cs@.take(i + 1) =~= cs@.take(i as int).push(cs@[i as int]));
    }
    assert(cs@.take(n as int) =~= cs@);
    r
}

/// Whether one character is Unicode white space.
pub fn is_ws(c: char) -> (r: bool)
    ensures
        r == is_ws_char(c),
{
    ('\u{9}' <= c && c <= '\u{d}') || c == ' ' || c == '\u{85}' || c == '\u{a0}'
        || c == '\u{1680}' || ('\u{2000}' <= c && c <= '\u{200a}') || c == '\u{2028}'
        || c == '\u{2029}' || c == '\u{202f}' || c == '\u{205f}' || c == '\u{3000}'
}

proof fn lemma_trim_start_skip(s: Seq<char>, i: int)
    requires
        0 <= i < s.len(),
        is_ws_char(s[i]),
        trim_start(s) == trim_start(s.skip(i)),
    ensures
        trim_start(s) == trim_start(s.skip(i + 1)),
{
    assert(s.skip(i).drop_first() =~= s.skip(i + 1));
}

proof fn lemma_trim_end_take(s: Seq<char>, i: int)
    requires
        0 < i <= s.len(),
        is_ws_char(s[i - 1]),
        trim_end(s) == trim_end(s.take(i)),
    ensures
        trim_end(s) == trim_end(s.take(i - 1)),
{
    assert(s.take(i).drop_last() =~= s.take(i - 1));
}

/// The string with leading and trailing white space removed.
#[verifier::rlimit(50)]
pub fn trim_str(s: &str) -> (r: String)
    ensures
        r@ == spec_trim(s@),
{
    let n = s.unicode_len();
    let mut lo: usize = 0;
    assert(s@.skip(0) =~= s@);
    while lo < n && is_ws(s.get_char(lo))
        invariant
            n == s@.len(),
            lo <= n,
            trim_start(s@) == trim_start(s@.skip(lo as int)),
        decreases n - lo,
    {
        proof {
            lemma_trim_start_skip(s@, lo as int);
        }
        lo = lo + 1;
    }
    assert(trim_start(s@) == s@.skip(lo as int)) by {
        assert(s@.skip(lo as int).len() == 0 || !is_ws_char(s@.skip(lo as int)[0]));
    }
    let ghost t = s@.skip(lo as int);
    let mut hi: usize = n;
    assert(t.take(n - lo) =~= t);
    while hi > lo && is_ws(s.get_char(hi - 1))
        invariant
            n == s@.len(),
            lo <= hi <= n,
            t == s@.skip(lo as int),
            trim_end(t) == trim_end(t.take(hi - lo)),
        decreases hi,
    {
        proof {
            assert(t.take(hi - lo)[hi - lo - 1] == s@[hi - 1]);
            lemma_trim_end_take(t, hi - lo);
        }
        hi = hi - 1;
    }
    assert(trim_end(t) == t.take(hi - lo)) by {
        assert(t.take(hi - lo).len() == 0 || !is_ws_char(t.take(hi - lo)[hi - lo - 1]));
    }
    let out = s.substring_char(lo, hi);
    assert(out@ =~= t.take(hi - lo));
    out.to_owned()
}

/// Whether the whole string is white space (or empty), so `str::trim` would
/// leave it empty.
pub fn is_blank(s: &str) -> (r: bool)
    ensures
        r == all_ws(s@),
{
    let n = s.unicode_len();
    for i in 0..n
        invariant
            n == s@.len(),
            forall|j: int| 0 <= j < i ==> is_ws_char(#[trigger] s@[j]),
    {
        if !is_ws(s.get_char(i)) {
            return false;
        }
    }
    true
}

/// ASCII lower-casing of one character.
pub fn lower_char_exec(c: char) -> (r: char)
    ensures
        r == lower_char(c),
{
    if 'A' <= c && c <= 'Z' {
        ((c as u8) + 32) as char
    } else {
        c
    }
}

/// ASCII upper-casing of one character.
pub fn upper_char_exec(c: char) -> (r: char)
    ensures
        r == upper_char(c),
{
    if 'a' <= c && c <= 'z' {
        ((c as u8) - 32) as char
    } else {
        c
    }
}

/// Equality of two strings, character by character.
pub fn str_eq(a: &str, b: &str) -> (r: bool)
    ensures
        r == (a@ == b@),
{
    let na = a.unicode_len();
    let nb = b.unicode_len();
    if na != nb {
        return false;
    }
    for i in 0..na
        invariant
            na == a@.len(),
            na == b@.len(),
            forall|j: int| 0 <= j < i ==> #[trigger] a@[j] == b@[j],
    {
        if a.get_char(i) != b.get_char(i) {
            return false;
        }
    }
    assert(a@ =~= b@);
    true
}

/// ASCII case-insensitive equality of two strings.
pub fn eq_ignore_case(a: &str, b: &str) -> (r: bool)
    ensures
        r == ci_equal(a@, b@),
{
    let na = a.unicode_len();
    let nb = b.unicode_len();
    if na != nb {
        return false;
    }
    for i in 0..na
        invariant
            na == a@.len(),
            na == b@.len(),
            forall|j: int| 0 <= j < i ==> lower_char(#[trigger] a@[j]) == lower_char(b@[j]),
    {
        if lower_char_exec(a.get_char(i)) != lower_char_exec(b.get_char(i)) {
            return false;
        }
    }
    true
}

/// The string with every ASCII letter upper-cased, as
/// `str::to_ascii_uppercase` returns it.
pub fn upper_string(s: &str) -> (r: String)
    ensures
        r@ == upper_seq(s@),
{
    let n = s.unicode_len();
    let mut r = String::new();
    for i in 0..n
        invariant
            n == s@.len(),
            r@ == upper_seq(s@).take(i as int),
    {
        push_char(&mut r, upper_char_exec(s.get_char(i)));
        assert(upper_seq(s@).take(i + 1) =~= upper_seq(s@).take(i as int).push(
            upper_seq(s@)[i as int],
        ));
    }
    assert(upper_seq(s@).take(n as int) =~= upper_seq(s@));
    r
}

/// The string with every ASCII letter lower-cased, as
/// `str::to_ascii_lowercase` returns it.
pub fn lower_string(s: &str) -> (r: String)
    ensures
        r@ == lower_seq(s@),
{
    let n = s.unicode_len();
    let mut r = String::new();
    for i in 0..n
        invariant
            n == s@.len(),
            r@ == lower_seq(s@).take(i as int),
    {
        push_char(&mut r, lower_char_exec(s.get_char(i)));
        assert(lower_seq(s@).take(i + 1) =~= lower_seq(s@).take(i as int).push(
            lower_seq(s@)[i as int],
        ));
    }
    assert(lower_seq(s@).take(n as int) =~= lower_seq(s@));
    r
}

/// Whether the string holds the given character.
pub fn contains_char(s: &str, c: char) -> (r: bool)
    ensures
        r == s@.contains(c),
{
    let n = s.unicode_len();
    for i in 0..n
        invariant
            n == s@.len(),
            forall|j: int| 0 <= j < i ==> #[trigger] s@[j] != c,
    {
        if s.get_char(i) == c {
            return true;
        }
    }
    false
}

proof fn lemma_digits_val_monotone(s: Seq<char>, i: int)
    requires
        0 <= i <= s.len(),
        all_digits(s),
    ensures
        digits_val(s.take(i)) <= digits_val(s),
    decreases s.len() - i,
{
    if i < s.len() {
        assert(s.take(i + 1).drop_last() =~= s.take(i));
        assert(digits_val(s.take(i + 1)) == digits_val(s.take(i)) * 10 + digit_val(s[i]));
        lemma_digits_val_monotone(s, i + 1);
    } else {
        assert(s.take(i) =~= s);
    }
}

/// Parses a run of ASCII digits as a decimal `u32`; `None` when some
/// character is no digit or the value does not fit.
pub fn parse_digits_range(s: &str, from: usize, to: usize) -> (r: Option<u32>)
    requires
        from <= to <= s@.len(),
    ensures
        ({
            let d = s@.subrange(from as int, to as int);
            match r {
                Some(v) => all_digits(d) && digits_val(d) == v,
                None => !all_digits(d) || digits_val(d) > u32::MAX,
            }
        }),
{
    let ghost d = s@.subrange(from as int, to as int);
    let mut acc: u32 = 0;
    let mut i: usize = from;
    while i < to
        invariant
            from <= i <= to <= s@.len(),
            d == s@.subrange(from as int, to as int),
            all_digits(d.take(i - from)),
            acc == digits_val(d.take(i - from)),
        decreases to - i,
    {
        let c = s.get_char(i);
        assert(d[i - from] == s@[i as int]);
        if !('0' <= c && c <= '9') {
            return None;
        }
        let dv: u32 = (c as u32) - 48;
        proof {
            assert(d.take(i - from + 1).drop_last() =~= d.take(i - from));
        }
        if acc > (u32::MAX - dv) / 10 {
            proof {
                assert(acc * 10 + dv > u32::MAX) by {
                    assert(acc >= (u32::MAX - dv) / 10 + 1);
                    assert(((u32::MAX - dv) / 10 + 1) * 10 == ((u32::MAX - dv) / 10) * 10 + 10);
                    assert(((u32::MAX - dv) / 10) * 10 + (u32::MAX - dv) % 10 == u32::MAX - dv)
                        by (nonlinear_arith);
                    assert(acc * 10 >= ((u32::MAX - dv) / 10 + 1) * 10) by (nonlinear_arith)
                        requires
                            acc >= (u32::MAX - dv) / 10 + 1,
                    ;
                }
                assert(digits_val(d.take(i - from + 1)) > u32::MAX);
                if all_digits(d) {
                    lemma_digits_val_monotone(d, i - from + 1);
                }
            }
            return None;
        }
        acc = acc * 10 + dv;
        i = i + 1;
    }
    assert(d.take(to - from) =~= d);
    Some(acc)
}

/// What `str::parse::<u32>` returns on this string.
pub fn parse_u32_str(s: &str) -> (r: Option<u32>)
    ensures
        r == spec_parse_u32(s@),
{
    let n = s.unicode_len();
    if n == 0 {
        return None;
    }
    let from: usize = if s.get_char(0) == '+' {
        1
    } else {
        0
    };
    if n == from {
        return None;
    }
    let r = parse_digits_range(s, from, n);
    assert(s@.subrange(from as int, n as int) =~= u32_literal_digits(s@));
    r
}

/// What `str::parse::<u16>` returns on this string.
pub fn parse_u16_str(s: &str) -> (r: Option<u16>)
    ensures
        r == spec_parse_u16(s@),
{
    match parse_u32_str(s) {
        Some(v) => {
            if v <= 65535 {
                Some(v as u16)
            } else {
                None
            }
        },
        None => {
            proof {
                if u32_literal_shape(s@) && digits_val(u32_literal_digits(s@)) <= u16::MAX {
                    assert(digits_val(u32_literal_digits(s@)) <= u32::MAX);
                }
            }
            None
        },
    }
}

/// Decimal representation of a `u32`, as `u32::to_string` renders it.
pub fn u32_string(n: u32) -> (r: String)
    ensures
        r@ == dec_str(n as nat),
    decreases n,
{
    if n < 10 {
        let mut r = String::new();
        push_char(&mut r, (((n + 48) as u8) as char));
        assert(r@ =~= dec_str(n as nat));
        r
    } else {
        let mut r = u32_string(n / 10);
        push_char(&mut r, ((n % 10 + 48) as u8) as char);
        assert(r@ =~= dec_str(n as nat));
        r
    }
}

/// Lexicographic order of two strings, character by character.
pub fn lex_le_str(a: &str, b: &str) -> (r: bool)
    ensures
        r == lex_le(a@, b@),
{
    let na = a.unicode_len();
    let nb = b.unicode_len();
    let mut i: usize = 0;
    assert(a@.skip(0) =~= a@);
    assert(b@.skip(0) =~= b@);
    while i < na && i < nb
        invariant
            na == a@.len(),
            nb == b@.len(),
            i <= na,
            i <= nb,
            lex_le(a@, b@) == lex_le(a@.skip(i as int), b@.skip(i as int)),
        decreases na - i,
    {
        let ca = a.get_char(i);
        let cb = b.get_char(i);
        if ca != cb {
            return ca < cb;
        }
        proof {
            assert(a@.skip(i as int).drop_first() =~= a@.skip(i + 1));
            assert(b@.skip(i as int).drop_first() =~= b@.skip(i + 1));
        }
        i = i + 1;
    }
    na <= nb
}

fn join_comma_from(values: &Vec<String>, i: usize) -> (r: String)
    requires
        i < values.len(),
    ensures
        r@ == join_comma(values.deep_view().skip(i as int)),
    decreases values.len() - i,
{
    let ghost parts = values.deep_view().skip(i as int);
    if i == values.len() - 1 {
        let r = values[i].clone();
        assert(parts.len() == 1 && parts[0] == values@[i as int]@);
        r
    } else {
        let rest = join_comma_from(values, i + 1);
        let r = values[i].clone().concat(",").concat(rest.as_str());
        proof {
            reveal_strlit(",");
            assert(parts.drop_first() =~= values.deep_view().skip(i + 1));
            assert(parts[0] == values@[i as int]@);
            assert(r@ =~= parts[0] + seq![','] + join_comma(parts.drop_first()));
        }
        r
    }
}

/// The strings joined with a comma between neighbours.
pub fn join_comma_strings(values: &Vec<String>) -> (r: String)
    ensures
        r@ == join_comma(values.deep_view()),
{
    if values.len() == 0 {
        return String::new();
    }
    let r = join_comma_from(values, 0);
    assert(values.deep_view().skip(0) =~= values.deep_view());
    r
}

/// Whether `p` is a prefix of `s`.
pub fn starts_with_str(s: &str, p: &str) -> (r: bool)
    ensures
        r == is_prefix(p@, s@),
{
    let np = p.unicode_len();
    let ns = s.unicode_len();
    if np > ns {
        return false;
    }
    for i in 0..np
        invariant
            np == p@.len(),
            ns == s@.len(),
            np <= ns,
            forall|j: int| 0 <= j < i ==> #[trigger] s@[j] == p@[j],
    {
        if s.get_char(i) != p.get_char(i) {
            assert(s@.subrange(0, np as int)[i as int] != p@[i as int]);
            return false;
        }
    }
    assert(s@.subrange(0, np as int) =~= p@);
    true
}

/// Whether `needle` occurs somewhere in `hay`.
pub fn contains_str(hay: &str, needle: &str) -> (r: bool)
    ensures
        r == contains_seq(hay@, needle@),
{
    let nh = hay.unicode_len();
    let nn = needle.unicode_len();
    if nn > nh {
        return false;
    }
    if nn == 0 {
        assert(hay@.subrange(0, 0 + needle@.len() as int) =~= needle@);
        return true;
    }
    let last = nh - nn;
    let mut i: usize = 0;
    while i <= last
        invariant
            nh == hay@.len(),
            nn == needle@.len(),
            1 <= nn <= nh,
            last == nh - nn,
            i <= last + 1,
            forall|k: int|
                0 <= k < i ==> #[trigger] hay@.subrange(k, k + needle@.len() as int)
                    != needle@,
        decreases last + 1 - i,
    {
        if match_at(hay, needle, i) {
            return true;
        }
        i = i + 1;
    }
    false
}

/// Whether `needle` occurs in `hay` exactly at position `i`.
fn match_at(hay: &str, needle: &str, i: usize) -> (r: bool)
    requires
        i + needle@.len() <= hay@.len(),
    ensures
        r == (hay@.subrange(i as int, i + needle@.len() as int) == needle@),
{
    let nn = needle.unicode_len();
    let nh = hay.unicode_len();
    for j in 0..nn
        invariant
            nn == needle@.len(),
            nh == hay@.len(),
            i + nn <= nh,
            forall|l: int| 0 <= l < j ==> #[trigger] hay@[i + l] == needle@[l],
    {
        if hay.get_char(i + j) != needle.get_char(j) {
            assert(hay@.subrange(i as int, i + needle@.len() as int)[j as int]
                != needle@[j as int]);
            return false;
        }
    }
    assert forall|k: int| 0 <= k < needle@.len() implies hay@.subrange(
        i as int,
        i + needle@.len() as int,
    )[k] == needle@[k] by {
        assert(hay@[i + k] == needle@[k]);
    }
    assert(hay@.subrange(i as int, i + needle@.len() as int) =~= needle@);
    true
}

} // verus!
