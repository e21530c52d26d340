//! Character-level string utilities shared by the line-oriented parsers.
//!
//! Tool output is modelled as a sequence of characters; every helper here is
//! specified against a direct recursive definition over that sequence.

use vstd::prelude::*;

verus! {

/// Whitespace for the purposes of tokenizing tool output.
pub open spec fn is_space_char(c: char) -> bool {
    c == ' ' || c == '\t' || c == '\r'
}

/// Executable counterpart of `is_space_char`.
pub fn is_space(c: char) -> (r: bool)
    ensures
        r == is_space_char(c),
{
    c == ' ' || c == '\t' || c == '\r'
}

/// The characters of a string, in order, as a vector.
pub fn chars_of(s: &str) -> (r: Vec<char>)
    ensures
        r@ == s@,
{
    let n = s.unicode_len();
    let mut r: Vec<char> = Vec::new();
    let mut i: usize = 0;
    while i < n
        invariant
            i <= n,
            n == s@.len(),
            r@ == s@.take(i as int),
        decreases n - i,
    {
        r.push(s.get_char(i));
        proof {
            assert(s@.take(i + 1 as int) =~= s@.take(i as int).push(s@[i as int]));
        }
        i = i + 1;
    }
    proof {
        assert(s@.take(n as int) =~= s@);
    }
    r
}

/// Builds a `String` from a slice of characters.
///
/// Relies on `String`'s `FromIterator<char>` implementation: collecting
/// characters yields the string made of exactly those characters in order.
#[verifier::external_body]
pub(crate) fn string_from_chars(v: &[char]) -> (r: String)
    ensures
        r@ == v@,
{
    v.iter().collect()
}

/// Pushing onto a sequence pushes the element's abstract value onto the
/// sequence of abstract values.
pub proof fn lemma_deep_view_push<T: DeepView>(pre: Seq<T>, post: Seq<T>, x: T)
    requires
        post == pre.push(x),
    ensures
        Seq::new(post.len(), |i: int| post[i].deep_view()) == Seq::new(
            pre.len(),
            |i: int| pre[i].deep_view(),
        ).push(x.deep_view()),
{
    let a = Seq::new(post.len(), |i: int| post[i].deep_view());
    let b = Seq::new(pre.len(), |i: int| pre[i].deep_view()).push(x.deep_view());
    assert(post.len() == pre.len() + 1);
    assert forall|j: int| 0 <= j < a.len() implies a[j] == b[j] by {
        if j < pre.len() {
            assert(pre.push(x)[j] == pre[j]);
        } else {
            assert(pre.push(x)[j] == x);
        }
    }
    assert(a =~= b);
}

/// Character-for-character string equality.
pub fn str_eq(a: &str, b: &str) -> (r: bool)
    ensures
        r == (a@ == b@),
{
    let na = a.unicode_len();
    let nb = b.unicode_len();
    if na != nb {
        proof {
            assert(a@ != b@) by {
                if a@ == b@ {
                    assert(a@.len() == b@.len());
                }
            }
        }
        return false;
    }
    let mut i: usize = 0;
    while i < na
        invariant
            i <= na,
            na == a@.len(),
            na == b@.len(),
            forall|j: int| 0 <= j < i ==> a@[j] == b@[j],
        decreases na - i,
    {
        if a.get_char(i) != b.get_char(i) {
            return false;
        }
        i = i + 1;
    }
    proof {
        assert(a@ =~= b@);
    }
    true
}

/// Whether every character of `s` is whitespace.
pub open spec fn spec_is_blank(s: Seq<char>) -> bool {
    forall|i: int| 0 <= i < s.len() ==> is_space_char(s[i])
}

/// Executable counterpart of `spec_is_blank`.
pub fn is_blank(s: &str) -> (r: bool)
    ensures
        r == spec_is_blank(s@),
{
    let n = s.unicode_len();
    let mut i: usize = 0;
    while i < n
        invariant
            i <= n,
            n == s@.len(),
            forall|j: int| 0 <= j < i ==> is_space_char(s@[j]),
        decreases n - i,
    {
        if !is_space(s.get_char(i)) {
            return false;
        }
        i = i + 1;
    }
    true
}

// ---------------------------------------------------------------------------
// Last-colon splitting, used to separate `address:port` tokens.
// ---------------------------------------------------------------------------

/// Index of the last `:` of `s`, or `-1` when it has none.
pub open spec fn spec_last_colon(s: Seq<char>) -> int
    decreases s.len(),
{
    if s.len() == 0 {
        -1
    } else if s[s.len() - 1] == ':' {
        s.len() - 1
    } else {
        spec_last_colon(s.drop_last())
    }
}

/// Everything before the last `:` of `s`, or all of `s` when it has none.
pub open spec fn spec_before_last_colon(s: Seq<char>) -> Seq<char> {
    if spec_last_colon(s) < 0 {
        s
    } else {
        s.take(spec_last_colon(s))
    }
}

/// Everything after the last `:` of `s`, or all of `s` when it has none.
pub open spec fn spec_after_last_colon(s: Seq<char>) -> Seq<char> {
    if spec_last_colon(s) < 0 {
        s
    } else {
        s.skip(spec_last_colon(s) + 1)
    }
}

fn rfind_colon(v: &[char]) -> (r: Option<usize>)
    ensures
        match r {
            Some(i) => spec_last_colon(v@) == i as int && i < v@.len(),
            None => spec_last_colon(v@) == -1,
        },
    decreases v.len(),
{
    let n = v.len();
    if n == 0 {
        None
    } else if v[n - 1] == ':' {
        Some(n - 1)
    } else {
        let sub = &v[0..n - 1];
        proof {
            assert(sub@ =~= v@.drop_last());
        }
        rfind_colon(sub)
    }
}

/// Executable counterpart of `spec_before_last_colon`.
pub fn before_last_colon(s: &str) -> (r: String)
    ensures
        r@ == spec_before_last_colon(s@),
{
    let v = chars_of(s);
    match rfind_colon(v.as_slice()) {
        Some(i) => {
            let pre = string_from_chars(&v.as_slice()[0..i]);
            proof {
                assert(pre@ =~= s@.take(spec_last_colon(s@)));
            }
            pre
        },
        None => {
            let whole = string_from_chars(v.as_slice());
            whole
        },
    }
}

/// Executable counterpart of `spec_after_last_colon`.
pub fn after_last_colon(s: &str) -> (r: String)
    ensures
        r@ == spec_after_last_colon(s@),
{
    let v = chars_of(s);
    let n = v.len();
    match rfind_colon(v.as_slice()) {
        Some(i) => {
            let post = string_from_chars(&v.as_slice()[i + 1..n]);
            proof {
                assert(post@ =~= s@.skip(spec_last_colon(s@) + 1));
            }
            post
        },
        None => {
            let whole = string_from_chars(v.as_slice());
            whole
        },
    }
}

/// Whether `s` holds a `:` at all.
pub open spec fn spec_has_colon(s: Seq<char>) -> bool {
    exists|i: int| 0 <= i < s.len() && s[i] == ':'
}

/// Executable counterpart of `spec_has_colon`.
pub fn has_colon(s: &str) -> (r: bool)
    ensures
        r == spec_has_colon(s@),
{
    let n = s.unicode_len();
    let mut i: usize = 0;
    while i < n
        invariant
            i <= n,
            n == s@.len(),
            forall|j: int| 0 <= j < i ==> s@[j] != ':',
        decreases n - i,
    {
        if s.get_char(i) == ':' {
            return true;
        }
        i = i + 1;
    }
    false
}

// ---------------------------------------------------------------------------
// Prefix-length splitting, used to separate `address/prefix` tokens.
// ---------------------------------------------------------------------------

/// Index of the first `/` of `s`, or `-1` when it has none.
pub open spec fn spec_first_slash(s: Seq<char>) -> int
    decreases s.len(),
{
    if s.len() == 0 {
        -1
    } else if s[0] == '/' {
        0
    } else {
        let r = spec_first_slash(s.drop_first());
        if r < 0 {
            -1
        } else {
            1 + r
        }
    }
}

/// Everything before the first `/` of `s`, or all of `s` when it has none.
pub open spec fn spec_strip_prefix_len(s: Seq<char>) -> Seq<char> {
    if spec_first_slash(s) < 0 {
        s
    } else {
        s.take(spec_first_slash(s))
    }
}

fn find_slash(v: &[char]) -> (r: Option<usize>)
    ensures
        match r {
            Some(i) => spec_first_slash(v@) == i as int && i < v@.len(),
            None => spec_first_slash(v@) == -1,
        },
    decreases v.len(),
{
    let n = v.len();
    if n == 0 {
        None
    } else if v[0] == '/' {
        Some(0)
    } else {
        let sub = &v[1..n];
        proof {
            assert(sub@ =~= v@.drop_first());
        }
        match find_slash(sub) {
            Some(i) => Some(i + 1),
            None => None,
        }
    }
}

/// Executable counterpart of `spec_strip_prefix_len`.
pub fn strip_prefix_len(s: &str) -> (r: String)
    ensures
        r@ == spec_strip_prefix_len(s@),
{
    let v = chars_of(s);
    match find_slash(v.as_slice()) {
        Some(i) => {
            let pre = string_from_chars(&v.as_slice()[0..i]);
            proof {
                assert(pre@ =~= s@.take(spec_first_slash(s@)));
            }
            pre
        },
        None => string_from_chars(v.as_slice()),
    }
}

// ---------------------------------------------------------------------------
// Whitespace tokenization.
// ---------------------------------------------------------------------------

/// Length of the maximal leading run of non-whitespace characters.
pub open spec fn spec_token_len(s: Seq<char>) -> int
    decreases s.len(),
{
    if s.len() == 0 {
        0
    } else if is_space_char(s[0]) {
        0
    } else {
        1 + spec_token_len(s.drop_first())
    }
}

pub proof fn lemma_token_len_bounds(s: Seq<char>)
    ensures
        0 <= spec_token_len(s) <= s.len(),
    decreases s.len(),
{
    if s.len() > 0 && !is_space_char(s[0]) {
        lemma_token_len_bounds(s.drop_first());
    }
}

/// The whitespace-separated tokens of `s`, in order.
pub open spec fn spec_tokens(s: Seq<char>) -> Seq<Seq<char>>
    decreases s.len(),
    via spec_tokens_decreases
{
    if s.len() == 0 {
        Seq::empty()
    } else if is_space_char(s[0]) {
        spec_tokens(s.drop_first())
    } else {
        seq![s.take(spec_token_len(s))] + spec_tokens(s.skip(spec_token_len(s)))
    }
}

#[via_fn]
proof fn spec_tokens_decreases(s: Seq<char>) {
    lemma_token_len_bounds(s);
    if s.len() > 0 && !is_space_char(s[0]) {
        lemma_token_len_bounds(s.drop_first());
    }
}

fn token_end(v: &[char]) -> (k: usize)
    ensures
        k as int == spec_token_len(v@),
        k <= v@.len(),
    decreases v.len(),
{
    let n = v.len();
    if n == 0 {
        0
    } else if is_space(v[0]) {
        0
    } else {
        let sub = &v[1..n];
        proof {
            assert(sub@ =~= v@.drop_first());
        }
        1 + token_end(sub)
    }
}

fn tokens_of_chars(v: &[char]) -> (r: Vec<String>)
    ensures
        r.deep_view() == spec_tokens(v@),
    decreases v.len(),
{
    let n = v.len();
    if n == 0 {
        let r: Vec<String> = Vec::new();
        proof {
            assert(r.deep_view() =~= spec_tokens(v@));
        }
        r
    } else if is_space(v[0]) {
        let sub = &v[1..n];
        proof {
            assert(sub@ =~= v@.drop_first());
        }
        tokens_of_chars(sub)
    } else {
        proof {
            lemma_token_len_bounds(v@.drop_first());
        }
        let k = token_end(v);
        let tok = string_from_chars(&v[0..k]);
        let sub = &v[k..n];
        proof {
            assert(sub@ =~= v@.skip(k as int));
        }
        let mut rest = tokens_of_chars(sub);
        let mut r: Vec<String> = Vec::new();
        r.push(tok);
        r.append(&mut rest);
        proof {
            assert(r.deep_view() =~= seq![v@.take(k as int)] + spec_tokens(v@.skip(k as int)));
        }
        r
    }
}

/// The whitespace-separated tokens of `s`, as owned strings.
pub fn tokens_of(s: &str) -> (r: Vec<String>)
    ensures
        r.deep_view() == spec_tokens(s@),
{
    let v = chars_of(s);
    tokens_of_chars(v.as_slice())
}

// ---------------------------------------------------------------------------
// Line splitting.
// ---------------------------------------------------------------------------

/// Length of the maximal leading run of characters other than `\n`.
pub open spec fn spec_line_len(s: Seq<char>) -> int
    decreases s.len(),
{
    if s.len() == 0 {
        0
    } else if s[0] == '\n' {
        0
    } else {
        1 + spec_line_len(s.drop_first())
    }
}

pub proof fn lemma_line_len_bounds(s: Seq<char>)
    ensures
        0 <= spec_line_len(s) <= s.len(),
    decreases s.len(),
{
    if s.len() > 0 && s[0] != '\n' {
        lemma_line_len_bounds(s.drop_first());
    }
}

/// Drops one trailing carriage return, as line-based tool output carries one
/// before each newline on some systems.
pub open spec fn spec_strip_cr(t: Seq<char>) -> Seq<char> {
    if t.len() > 0 && t[t.len() - 1] == '\r' {
        t.drop_last()
    } else {
        t
    }
}

/// The lines of `s`: split at `\n`, each stripped of one trailing `\r`, with
/// no empty line after a trailing newline.
pub open spec fn spec_split_lines(s: Seq<char>) -> Seq<Seq<char>>
    decreases s.len(),
    via spec_split_lines_decreases
{
    if s.len() == 0 {
        Seq::empty()
    } else {
        let k = spec_line_len(s);
        if k == s.len() {
            seq![spec_strip_cr(s)]
        } else {
            seq![spec_strip_cr(s.take(k))] + spec_split_lines(s.skip(k + 1))
        }
    }
}

#[via_fn]
proof fn spec_split_lines_decreases(s: Seq<char>) {
    lemma_line_len_bounds(s);
}

fn line_end(v: &[char]) -> (k: usize)
    ensures
        k as int == spec_line_len(v@),
        k <= v@.len(),
    decreases v.len(),
{
    let n = v.len();
    if n == 0 {
        0
    } else if v[0] == '\n' {
        0
    } else {
        let sub = &v[1..n];
        proof {
            assert(sub@ =~= v@.drop_first());
        }
        1 + line_end(sub)
    }
}

fn strip_cr_chars(v: &[char]) -> (r: &[char])
    ensures
        r@ == spec_strip_cr(v@),
{
    let n = v.len();
    if n > 0 && v[n - 1] == '\r' {
        let sub = &v[0..n - 1];
        proof {
            assert(sub@ =~= v@.drop_last());
        }
        sub
    } else {
        v
    }
}

fn lines_of_chars(v: &[char]) -> (r: Vec<String>)
    ensures
        r.deep_view() == spec_split_lines(v@),
    decreases v.len(),
{
    let n = v.len();
    if n == 0 {
        let r: Vec<String> = Vec::new();
        proof {
            assert(r.deep_view() =~= spec_split_lines(v@));
        }
        r
    } else {
        let k = line_end(v);
        if k == n {
            let line = string_from_chars(strip_cr_chars(v));
            let mut r: Vec<String> = Vec::new();
            r.push(line);
            proof {
                assert(r.deep_view() =~= seq![spec_strip_cr(v@)]);
            }
            r
        } else {
            let head = &v[0..k];
            proof {
                assert(head@ =~= v@.take(k as int));
            }
            let line = string_from_chars(strip_cr_chars(head));
            let sub = &v[k + 1..n];
            proof {
                assert(sub@ =~= v@.skip(k + 1 as int));
            }
            let mut rest = lines_of_chars(sub);
            let mut r: Vec<String> = Vec::new();
            r.push(line);
            r.append(&mut rest);
            proof {
                assert(r.deep_view() =~= seq![spec_strip_cr(v@.take(k as int))]
                    + spec_split_lines(v@.skip(k + 1 as int)));
            }
            r
        }
    }
}

/// The lines of `s`, as owned strings.
pub fn split_lines(s: &str) -> (r: Vec<String>)
    ensures
        r.deep_view() == spec_split_lines(s@),
{
    let v = chars_of(s);
    lines_of_chars(v.as_slice())
}

// ---------------------------------------------------------------------------
// Prefix test and substring search.
// ---------------------------------------------------------------------------

/// Whether the characters of `p` are a prefix of those of `s`.
pub fn has_prefix(s: &str, p: &str) -> (r: bool)
    ensures
        r == p@.is_prefix_of(s@),
{
    let np = p.unicode_len();
    let ns = s.unicode_len();
    if np > ns {
        return false;
    }
    let mut i: usize = 0;
    while i < np
        invariant
            i <= np,
            np == p@.len(),
            np <= s@.len(),
            ns == s@.len(),
            forall|j: int| 0 <= j < i ==> p@[j] == s@[j],
        decreases np - i,
    {
        if p.get_char(i) != s.get_char(i) {
            return false;
        }
        i = i + 1;
    }
    proof {
        assert(p@ =~= s@.subrange(0, np as int));
    }
    true
}

fn chars_have_prefix(v: &[char], p: &[char]) -> (r: bool)
    ensures
        r == p@.is_prefix_of(v@),
{
    let np = p.len();
    let nv = v.len();
    if np > nv {
        return false;
    }
    let mut i: usize = 0;
    while i < np
        invariant
            i <= np,
            np == p@.len(),
            np <= v@.len(),
            forall|j: int| 0 <= j < i ==> p@[j] == v@[j],
        decreases np - i,
    {
        if p[i] != v[i] {
            return false;
        }
        i = i + 1;
    }
    proof {
        assert(p@ =~= v@.subrange(0, np as int));
    }
    true
}

/// Index of the first occurrence of `p` in `s`, or `-1` when there is none.
pub open spec fn spec_find(s: Seq<char>, p: Seq<char>) -> int
    decreases s.len(),
{
    if p.len() > s.len() {
        -1
    } else if p.is_prefix_of(s) {
        0
    } else if s.len() == 0 {
        -1
    } else {
        let r = spec_find(s.drop_first(), p);
        if r < 0 {
            -1
        } else {
            1 + r
        }
    }
}

pub proof fn lemma_find_bounds(s: Seq<char>, p: Seq<char>)
    ensures
        -1 <= spec_find(s, p),
        spec_find(s, p) >= 0 ==> spec_find(s, p) + p.len() <= s.len(),
    decreases s.len(),
{
    if p.len() <= s.len() && !p.is_prefix_of(s) && s.len() > 0 {
        lemma_find_bounds(s.drop_first(), p);
    }
}

pub(crate) fn find_chars(v: &[char], p: &[char]) -> (r: Option<usize>)
    ensures
        match r {
            Some(i) => spec_find(v@, p@) == i as int && i + p@.len() <= v@.len(),
            None => spec_find(v@, p@) == -1,
        },
    decreases v.len(),
{
    let n = v.len();
    if p.len() > n {
        None
    } else if chars_have_prefix(v, p) {
        proof {
            lemma_find_bounds(v@, p@);
        }
        Some(0)
    } else if n == 0 {
        None
    } else {
        let sub = &v[1..n];
        proof {
            assert(sub@ =~= v@.drop_first());
        }
        match find_chars(sub, p) {
            Some(i) => Some(i + 1),
            None => None,
        }
    }
}

/// Index of the first occurrence of the pattern `p` in `s`, if any.
pub fn find_in_str(s: &str, p: &str) -> (r: Option<usize>)
    ensures
        match r {
            Some(i) => spec_find(s@, p@) == i as int && i + p@.len() <= s@.len(),
            None => spec_find(s@, p@) == -1,
        },
{
    let v = chars_of(s);
    let w = chars_of(p);
    find_chars(v.as_slice(), w.as_slice())
}

/// Whether `s` holds the pattern `p` somewhere.
pub open spec fn spec_has_pattern(s: Seq<char>, p: Seq<char>) -> bool {
    spec_find(s, p) >= 0
}

/// Executable counterpart of `spec_has_pattern`.
pub fn has_pattern(s: &str, p: &str) -> (r: bool)
    ensures
        r == spec_has_pattern(s@, p@),
{
    match find_in_str(s, p) {
        Some(_) => true,
        None => false,
    }
}

// ---------------------------------------------------------------------------
// Decimal digits: validation of port tokens, rendering of numbers.
// ---------------------------------------------------------------------------

/// Whether `c` is a decimal digit.
pub open spec fn is_digit_char(c: char) -> bool {
    '0' <= c && c <= '9'
}

/// Numeric value of the digit string `s`, most significant digit first.
pub open spec fn spec_digits_val(s: Seq<char>) -> int
    decreases s.len(),
{
    if s.len() == 0 {
        0
    } else {
        spec_digits_val(s.drop_last()) * 10 + (s[s.len() - 1] as int - '0' as int)
    }
}

pub proof fn lemma_digits_val_nonneg(s: Seq<char>)
    requires
        forall|i: int| 0 <= i < s.len() ==> is_digit_char(s[i]),
    ensures
        spec_digits_val(s) >= 0,
    decreases s.len(),
{
    if s.len() > 0 {
        lemma_digits_val_nonneg(s.drop_last());
    }
}

/// Extending a digit string on the right cannot lower its value.
pub proof fn lemma_digits_val_monotone(s: Seq<char>, i: int)
    requires
        0 <= i <= s.len(),
        forall|j: int| 0 <= j < s.len() ==> is_digit_char(s[j]),
    ensures
        spec_digits_val(s.take(i)) <= spec_digits_val(s),
    decreases s.len() - i,
{
    if i < s.len() {
        assert(s.take(i + 1).drop_last() =~= s.take(i));
        assert forall|j: int| 0 <= j < s.take(i + 1).len() implies is_digit_char(
            #[trigger] s.take(i + 1)[j],
        ) by {
            assert(s.take(i + 1)[j] == s[j]);
        }
        lemma_digits_val_nonneg(s.take(i));
        assert(spec_digits_val(s.take(i + 1)) == spec_digits_val(s.take(i)) * 10 + (s[i] as int
            - '0' as int));
        lemma_digits_val_monotone(s, i + 1);
        assert(s.take(s.len() as int) =~= s);
    } else {
        assert(s.take(i) =~= s);
    }
}

/// A token that names a port: nonempty, all decimal digits, value at most
/// 65535.
pub open spec fn spec_is_port_token(s: Seq<char>) -> bool {
    s.len() > 0 && (forall|i: int| 0 <= i < s.len() ==> is_digit_char(s[i])) && spec_digits_val(s)
        <= 65535
}

/// Executable counterpart of `spec_is_port_token`.
pub fn is_valid_port(s: &str) -> (r: bool)
    ensures
        r == spec_is_port_token(s@),
{
    let n = s.unicode_len();
    if n == 0 {
        return false;
    }
    let mut i: usize = 0;
    let mut acc: u32 = 0;
    while i < n
        invariant
            i <= n,
            n == s@.len(),
            forall|j: int| 0 <= j < i ==> is_digit_char(s@[j]),
            acc as int == spec_digits_val(s@.take(i as int)),
            acc <= 65535,
        decreases n - i,
    {
        let c = s.get_char(i);
        if !(c >= '0' && c <= '9') {
            return false;
        }
        let d: u32 = (c as u32) - 48;
        proof {
            assert(s@.take(i + 1 as int).drop_last() =~= s@.take(i as int));
        }
        acc = acc * 10 + d;
        i = i + 1;
        if acc > 65535 {
            proof {
                if spec_is_port_token(s@) {
                    lemma_digits_val_monotone(s@, i as int);
                }
            }
            return false;
        }
    }
    proof {
        assert(s@.take(n as int) =~= s@);
    }
    true
}

/// Decimal rendering of `n`, without sign or leading zeros.
pub open spec fn spec_u64_digits(n: int) -> Seq<char>
    decreases n,
{
    if n < 0 {
        Seq::empty()
    } else if n < 10 {
        seq![((48 + n) as u8) as char]
    } else {
        spec_u64_digits(n / 10).push(((48 + n % 10) as u8) as char)
    }
}

/// Renders `n` in decimal.
pub fn u64_to_string(n: u64) -> (r: String)
    ensures
        r@ == spec_u64_digits(n as int),
    decreases n,
{
    if n < 10 {
        let c = ((48 + n) as u8) as char;
        let mut v: Vec<char> = Vec::new();
        v.push(c);
        let r = string_from_chars(v.as_slice());
        proof {
            assert(r@ =~= spec_u64_digits(n as int));
        }
        r
    } else {
        let mut r = u64_to_string(n / 10);
        let c = ((48 + n % 10) as u8) as char;
        let mut v: Vec<char> = Vec::new();
        v.push(c);
        let tail = string_from_chars(v.as_slice());
        r.append(tail.as_str());
        proof {
            assert(r@ =~= spec_u64_digits(n as int));
        }
        r
    }
}

// ---------------------------------------------------------------------------
// ASCII case mapping.
// ---------------------------------------------------------------------------

/// Upper-case form of one character; letters outside `a`..`z` are unchanged.
pub open spec fn spec_upper_char(c: char) -> char {
    if 'a' <= c && c <= 'z' {
        (((c as u8) - 32) as u8) as char
    } else {
        c
    }
}

/// ASCII upper-case form of a protocol token.
pub open spec fn spec_to_upper(s: Seq<char>) -> Seq<char> {
    s.map_values(|c: char| spec_upper_char(c))
}

/// Executable counterpart of `spec_to_upper`.
pub fn to_upper_ascii(s: &str) -> (r: String)
    ensures
        r@ == spec_to_upper(s@),
{
    let n = s.unicode_len();
    let mut v: Vec<char> = Vec::new();
    let mut i: usize = 0;
    while i < n
        invariant
            i <= n,
            n == s@.len(),
            v@ == spec_to_upper(s@.take(i as int)),
        decreases n - i,
    {
        let c = s.get_char(i);
        let m: char;
        if c >= 'a' && c <= 'z' {
            m = ((c as u8) - 32) as char;
        } else {
            m = c;
        }
        v.push(m);
        proof {
            assert(v@ =~= spec_to_upper(s@.take((i + 1) as int)));
        }
        i = i + 1;
    }
    proof {
        assert(s@.take(n as int) =~= s@);
    }
    string_from_chars(v.as_slice())
}

// ---------------------------------------------------------------------------
// MAC address canonicalization.
// ---------------------------------------------------------------------------

/// Canonical form of one MAC address character: separator dashes become
/// colons, upper-case letters become lower-case.
pub open spec fn spec_canon_mac_char(c: char) -> char {
    if c == '-' {
        ':'
    } else if 'A' <= c && c <= 'Z' {
        (((c as u8) + 32) as u8) as char
    } else {
        c
    }
}

/// Canonical colon-separated, lower-case form of a MAC address string.
pub open spec fn spec_normalize_mac(s: Seq<char>) -> Seq<char> {
    s.map_values(|c: char| spec_canon_mac_char(c))
}

/// Executable counterpart of `spec_normalize_mac`.
pub fn normalize_mac(s: &str) -> (r: String)
    ensures
        r@ == spec_normalize_mac(s@),
{
    let n = s.unicode_len();
    let mut v: Vec<char> = Vec::new();
    let mut i: usize = 0;
    while i < n
        invariant
            i <= n,
            n == s@.len(),
            v@ == spec_normalize_mac(s@.take(i as int)),
        decreases n - i,
    {
        let c = s.get_char(i);
        let m: char;
        if c == '-' {
            m = ':';
        } else if c >= 'A' && c <= 'Z' {
            m = ((c as u8) + 32) as char;
        } else {
            m = c;
        }
        v.push(m);
        proof {
            assert(v@ =~= spec_normalize_mac(s@.take(i + 1 as int)));
        }
        i = i + 1;
    }
    proof {
        assert(s@.take(n as int) =~= s@);
    }
    string_from_chars(v.as_slice())
}

/// Canonicalizing a MAC address twice yields the same string as doing it
/// once: the normal form is a fixed point.
pub proof fn lemma_normalize_mac_idempotent(s: Seq<char>)
    ensures
        spec_normalize_mac(spec_normalize_mac(s)) == spec_normalize_mac(s),
{
    assert forall|c: char| #[trigger] spec_canon_mac_char(spec_canon_mac_char(c))
        == spec_canon_mac_char(c) by {
        if c == '-' {
        } else if 'A' <= c && c <= 'Z' {
            assert(c as u8 >= 65 && c as u8 <= 90);
        }
    }
    assert(spec_normalize_mac(spec_normalize_mac(s)) =~= spec_normalize_mac(s));
}

} // verus!


