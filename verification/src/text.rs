//! Character and string helpers shared by the parsers and renderers:
//! equality on string slices, ASCII lowercasing, whitespace trimming and
//! decimal rendering, each specified over `Seq<char>`.

use vstd::prelude::*;

verus! {

/// The whitespace characters stripped by `trim_str`.
pub open spec fn is_space_char(c: char) -> bool {
    c == ' ' || c == '\t' || c == '\n' || c == '\r'
}

/// `s` with its leading whitespace removed.
pub open spec fn trim_front(s: Seq<char>) -> Seq<char>
    decreases s.len(),
{
    if s.len() > 0 && is_space_char(s[0]) {
        trim_front(s.drop_first())
    } else {
        s
    }
}

/// `s` with its trailing whitespace removed.
pub open spec fn trim_back(s: Seq<char>) -> Seq<char>
    decreases s.len(),
{
    if s.len() > 0 && is_space_char(s[s.len() - 1]) {
        trim_back(s.drop_last())
    } else {
        s
    }
}

/// `s` with leading and trailing whitespace removed.
pub open spec fn trim_seq(s: Seq<char>) -> Seq<char> {
    trim_back(trim_front(s))
}

pub proof fn lemma_trim_front_at(s: Seq<char>, k: int)
    requires
        0 <= k <= s.len(),
        forall|i: int| 0 <= i < k ==> is_space_char(s[i]),
        k < s.len() ==> !is_space_char(s[k]),
    ensures
        trim_front(s) =~= s.subrange(k, s.len() as int),
    decreases k,
{
    if k == 0 {
        if s.len() > 0 && is_space_char(s[0]) {
            assert(false);
        }
        assert(trim_front(s) == s);
        assert(s =~= s.subrange(0, s.len() as int));
    } else {
        assert(is_space_char(s[0]));
        let t = s.drop_first();
        assert(forall|i: int| 0 <= i < k - 1 ==> is_space_char(#[trigger] t[i]));
        lemma_trim_front_at(t, k - 1);
        assert(t.subrange(k - 1, t.len() as int) =~= s.subrange(k, s.len() as int));
    }
}

pub proof fn lemma_trim_back_at(s: Seq<char>, k: int)
    requires
        0 <= k <= s.len(),
        forall|i: int| k <= i < s.len() ==> is_space_char(s[i]),
        k > 0 ==> !is_space_char(s[k - 1]),
    ensures
        trim_back(s) =~= s.subrange(0, k),
    decreases s.len(),
{
    if k == s.len() {
        if s.len() > 0 && is_space_char(s[s.len() - 1]) {
            assert(false);
        }
        assert(s =~= s.subrange(0, s.len() as int));
    } else {
        assert(is_space_char(s[s.len() - 1]));
        let t = s.drop_last();
        assert(forall|i: int| k <= i < t.len() ==> is_space_char(#[trigger] t[i]));
        lemma_trim_back_at(t, k);
        assert(t.subrange(0, k) =~= s.subrange(0, k));
    }
}

/// Trimming never lengthens a sequence.
pub proof fn lemma_trim_len(s: Seq<char>)
    ensures
        trim_seq(s).len() <= s.len(),
{
    lemma_trim_front_len(s);
    lemma_trim_back_len(trim_front(s));
}

pub proof fn lemma_trim_front_len(s: Seq<char>)
    ensures
        trim_front(s).len() <= s.len(),
    decreases s.len(),
{
    if s.len() > 0 && is_space_char(s[0]) {
        lemma_trim_front_len(s.drop_first());
    }
}

pub proof fn lemma_trim_back_len(s: Seq<char>)
    ensures
        trim_back(s).len() <= s.len(),
    decreases s.len(),
{
    if s.len() > 0 && is_space_char(s[s.len() - 1]) {
        lemma_trim_back_len(s.drop_last());
    }
}

/// A sequence with no leading or trailing whitespace trims to itself.
pub proof fn lemma_trim_stable(s: Seq<char>)
    requires
        s.len() > 0 ==> !is_space_char(s[0]),
        s.len() > 0 ==> !is_space_char(s[s.len() - 1]),
    ensures
        trim_seq(s) =~= s,
{
    assert(trim_front(s) == s);
    lemma_trim_back_at(s, s.len() as int);
}

/// Tests whether a character is stripped by trimming.
pub fn is_space(c: char) -> (r: bool)
    ensures
        r == is_space_char(c),
{
    c == ' ' || c == '\t' || c == '\n' || c == '\r'
}

/// Character-wise equality of two string slices.
pub fn str_eq(a: &str, b: &str) -> (r: bool)
    ensures
        r == (a@ == b@),
{
    let na = a.unicode_len();
    let nb = b.unicode_len();
    if na != nb {
        proof {
            assert(a@ != b@);
        }
        return false;
    }
    let mut i: usize = 0;
    while i < na
        invariant
            na == a@.len(),
            nb == b@.len(),
            na == nb,
            i <= na,
            forall|j: int| 0 <= j < i ==> a@[j] == b@[j],
        decreases na - i,
    {
        if a.get_char(i) != b.get_char(i) {
            proof {
                assert(a@[i as int] != b@[i as int]);
            }
            return false;
        }
        i = i + 1;
    }
    proof {
        assert(a@ =~= b@);
    }
    true
}

/// All the characters of a string slice, in order.
pub fn chars_of(s: &str) -> (v: Vec<char>)
    ensures
        v@ == s@,
{
    let n = s.unicode_len();
    let mut v: Vec<char> = Vec::new();
    let mut i: usize = 0;
    while i < n
        invariant
            n == s@.len(),
            i <= n,
            v@ =~= s@.subrange(0, i as int),
        decreases n - i,
    {
        v.push(s.get_char(i));
        i = i + 1;
    }
    proof {
        assert(v@ =~= s@);
    }
    v
}

/// Relies on `String::from_iter` (via `Iterator::collect` over copied
/// `char`s): the resulting string holds exactly the characters of `v`, in
/// order.
#[verifier::external_body]
pub fn string_from_chars(v: &Vec<char>) -> (s: String)
    ensures
        s@ == v@,
{
    v.iter().collect()
}

/// Removes leading and trailing whitespace.
pub fn trim_str<'a>(s: &'a str) -> (r: &'a str)
    ensures
        r@ == trim_seq(s@),
        r@.len() <= s@.len(),
{
    let n = s.unicode_len();
    let mut start: usize = 0;
    while start < n && is_space(s.get_char(start))
        invariant
            n == s@.len(),
            start <= n,
            forall|i: int| 0 <= i < start ==> is_space_char(s@[i]),
        decreases n - start,
    {
        start = start + 1;
    }
    let mut end: usize = n;
    while end > start && is_space(s.get_char(end - 1))
        invariant
            n == s@.len(),
            start <= end <= n,
            forall|i: int| end <= i < n ==> is_space_char(s@[i]),
        decreases end,
    {
        end = end - 1;
    }
    proof {
        lemma_trim_front_at(s@, start as int);
        let t = s@.subrange(start as int, n as int);
        assert(forall|i: int| end - start <= i < t.len() ==> is_space_char(#[trigger] t[i]));
        lemma_trim_back_at(t, end - start);
        assert(trim_seq(s@) =~= s@.subrange(start as int, end as int));
    }
    s.substring_char(start, end)
}

/// The lowercase form of an ASCII uppercase letter; any other character
/// is unchanged.
pub open spec fn lower_char(c: char) -> char {
    match c {
        'A' => 'a',
        'B' => 'b',
        'C' => 'c',
        'D' => 'd',
        'E' => 'e',
        'F' => 'f',
        'G' => 'g',
        'H' => 'h',
        'I' => 'i',
        'J' => 'j',
        'K' => 'k',
        'L' => 'l',
        'M' => 'm',
        'N' => 'n',
        'O' => 'o',
        'P' => 'p',
        'Q' => 'q',
        'R' => 'r',
        'S' => 's',
        'T' => 't',
        'U' => 'u',
        'V' => 'v',
        'W' => 'w',
        'X' => 'x',
        'Y' => 'y',
        'Z' => 'z',
        _ => c,
    }
}

/// `s` with every ASCII uppercase letter lowercased.
pub open spec fn lower_seq(s: Seq<char>) -> Seq<char> {
    s.map_values(|c: char| lower_char(c))
}

fn char_to_lower(c: char) -> (r: char)
    ensures
        r == lower_char(c),
{
    match c {
        'A' => 'a',
        'B' => 'b',
        'C' => 'c',
        'D' => 'd',
        'E' => 'e',
        'F' => 'f',
        'G' => 'g',
        'H' => 'h',
        'I' => 'i',
        'J' => 'j',
        'K' => 'k',
        'L' => 'l',
        'M' => 'm',
        'N' => 'n',
        'O' => 'o',
        'P' => 'p',
        'Q' => 'q',
        'R' => 'r',
        'S' => 's',
        'T' => 't',
        'U' => 'u',
        'V' => 'v',
        'W' => 'w',
        'X' => 'x',
        'Y' => 'y',
        'Z' => 'z',
        _ => c,
    }
}

/// ASCII-lowercases a string slice.
pub fn lower_str(s: &str) -> (r: String)
    ensures
        r@ == lower_seq(s@),
{
    let cs = chars_of(s);
    let mut out: Vec<char> = Vec::new();
    let mut i: usize = 0;
    while i < cs.len()
        invariant
            cs@ == s@,
            i <= cs@.len(),
            out@ =~= lower_seq(s@).subrange(0, i as int),
        decreases cs@.len() - i,
    {
        out.push(char_to_lower(cs[i]));
        i = i + 1;
    }
    proof {
        assert(out@ =~= lower_seq(s@));
    }
    string_from_chars(&out)
}

/// Appends the characters of a string slice.
pub fn push_str_chars(v: &mut Vec<char>, s: &str)
    ensures
        final(v)@ == old(v)@ + s@,
{
    let cs = chars_of(s);
    let mut i: usize = 0;
    while i < cs.len()
        invariant
            cs@ == s@,
            i <= cs@.len(),
            v@ == old(v)@ + s@.subrange(0, i as int),
        decreases cs@.len() - i,
    {
        v.push(cs[i]);
        proof {
            assert(v@ =~= old(v)@ + s@.subrange(0, i as int + 1));
        }
        i = i + 1;
    }
    proof {
        assert(s@.subrange(0, s@.len() as int) =~= s@);
        assert(v@ =~= old(v)@ + s@);
    }
}

/// How one character changes the bracket depth: the three opening
/// brackets raise it, their closers lower it.
pub open spec fn depth_step(d: int, c: char) -> int {
    if c == '<' || c == '(' || c == '[' {
        d + 1
    } else if c == '>' || c == ')' || c == ']' {
        d - 1
    } else {
        d
    }
}

/// The index of the first occurrence of `target` at bracket depth zero,
/// scanning from `i` with current depth `d`; `s.len()` if there is none.
pub open spec fn find_top_char(s: Seq<char>, i: int, d: int, target: char) -> int
    decreases s.len() - i,
    when 0 <= i <= s.len()
{
    if i >= s.len() {
        i
    } else if d == 0 && s[i] == target {
        i
    } else {
        find_top_char(s, i + 1, depth_step(d, s[i]), target)
    }
}

pub proof fn lemma_find_top_char_bounds(s: Seq<char>, i: int, d: int, target: char)
    requires
        0 <= i <= s.len(),
    ensures
        i <= find_top_char(s, i, d, target) <= s.len(),
    decreases s.len() - i,
{
    if i < s.len() && !(d == 0 && s[i] == target) {
        lemma_find_top_char_bounds(s, i + 1, depth_step(d, s[i]), target);
    }
}

/// `s` cut at every comma that stands at bracket depth zero.
pub open spec fn split_top(s: Seq<char>) -> Seq<Seq<char>>
    decreases s.len(),
    via split_top_dec
{
    let i = find_top_char(s, 0, 0, ',');
    if i >= s.len() {
        seq![s]
    } else {
        seq![s.subrange(0, i)] + split_top(s.subrange(i + 1, s.len() as int))
    }
}

#[via_fn]
proof fn split_top_dec(s: Seq<char>) {
    lemma_find_top_char_bounds(s, 0, 0, ',');
}

pub proof fn lemma_split_top_shape(s: Seq<char>)
    ensures
        split_top(s).len() >= 1,
        forall|k: int|
            0 <= k < split_top(s).len() ==> (#[trigger] split_top(s)[k]).len() <= s.len(),
    decreases s.len(),
{
    lemma_find_top_char_bounds(s, 0, 0, ',');
    let i = find_top_char(s, 0, 0, ',');
    if i < s.len() {
        lemma_split_top_shape(s.subrange(i + 1, s.len() as int));
    }
}

/// Scans for the first `target` at bracket depth zero.
pub fn find_top(s: &str, target: char) -> (r: usize)
    ensures
        r == find_top_char(s@, 0, 0, target),
        r <= s@.len(),
{
    let n = s.unicode_len();
    let mut j: usize = 0;
    let mut d: i128 = 0;
    while j < n && !(d == 0 && s.get_char(j) == target)
        invariant
            n == s@.len(),
            0 <= j <= n,
            -(j as int) <= d <= j as int,
            find_top_char(s@, 0, 0, target) == find_top_char(s@, j as int, d as int, target),
        decreases n - j,
    {
        let c = s.get_char(j);
        if c == '<' || c == '(' || c == '[' {
            d = d + 1;
        } else if c == '>' || c == ')' || c == ']' {
            d = d - 1;
        }
        j = j + 1;
    }
    proof {
        lemma_find_top_char_bounds(s@, j as int, d as int, target);
    }
    j
}

pub fn split_top_str(s: &str) -> (r: Vec<String>)
    ensures
        r@.len() == split_top(s@).len(),
        forall|k: int| 0 <= k < r@.len() ==> (#[trigger] r@[k])@ == split_top(s@)[k],
    decreases s@.len(),
{
    let n = s.unicode_len();
    let j = find_top(s, ',');
    if j == n {
        let mut r: Vec<String> = Vec::new();
        r.push(s.to_owned());
        proof {
            assert(split_top(s@) =~= seq![s@]);
        }
        r
    } else {
        let head = s.substring_char(0, j);
        let tail = s.substring_char(j + 1, n);
        let mut r = split_top_str(tail);
        r.insert(0, head.to_owned());
        proof {
            assert(split_top(s@) =~= seq![s@.subrange(0, j as int)] + split_top(
                s@.subrange(j + 1, n as int),
            ));
            assert(r@[0]@ == s@.subrange(0, j as int));
            assert(forall|k: int|
                1 <= k < r@.len() ==> (#[trigger] r@[k])@ == split_top(
                    s@.subrange(j + 1, n as int),
                )[k - 1]);
        }
        r
    }
}

/// The bracket depth after the first `i` characters of `s`.
pub open spec fn run_depth(s: Seq<char>, i: int) -> int
    decreases i,
    when i >= 0
{
    if i <= 0 {
        0
    } else {
        depth_step(run_depth(s, i - 1), s[i - 1])
    }
}

/// Every prefix of `s` closes no more brackets than it opened, and the
/// whole of `s` closes every bracket it opens.
pub open spec fn balanced(s: Seq<char>) -> bool {
    run_depth(s, s.len() as int) == 0 && (forall|i: int|
        0 <= i <= s.len() ==> run_depth(s, i) >= 0)
}

/// No comma of `s` stands at bracket depth zero.
pub open spec fn top_comma_free(s: Seq<char>) -> bool {
    forall|i: int| 0 <= i < s.len() ==> !(run_depth(s, i) == 0 && s[i] == ',')
}

/// The depths over a prefix do not depend on what follows it.
pub proof fn lemma_run_depth_prefix(s: Seq<char>, t: Seq<char>, i: int)
    requires
        0 <= i <= s.len(),
    ensures
        run_depth(s + t, i) == run_depth(s, i),
    decreases i,
{
    if i > 0 {
        lemma_run_depth_prefix(s, t, i - 1);
        assert((s + t)[i - 1] == s[i - 1]);
    }
}

/// The depths over a suffix shift by the depth the prefix built.
pub proof fn lemma_run_depth_concat(s: Seq<char>, t: Seq<char>, j: int)
    requires
        0 <= j <= t.len(),
    ensures
        run_depth(s + t, s.len() + j) == run_depth(s, s.len() as int) + run_depth(t, j),
    decreases j,
{
    if j == 0 {
        lemma_run_depth_prefix(s, t, s.len() as int);
    } else {
        lemma_run_depth_concat(s, t, j - 1);
        assert((s + t)[s.len() + j - 1] == t[j - 1]);
    }
}

/// The concatenation of balanced strings is balanced.
pub proof fn lemma_balanced_concat(s: Seq<char>, t: Seq<char>)
    requires
        balanced(s),
        balanced(t),
    ensures
        balanced(s + t),
{
    assert forall|i: int| 0 <= i <= (s + t).len() implies run_depth(s + t, i) >= 0 by {
        if i <= s.len() {
            lemma_run_depth_prefix(s, t, i);
        } else {
            lemma_run_depth_concat(s, t, i - s.len());
        }
    }
    lemma_run_depth_concat(s, t, t.len() as int);
}

/// Scanning from `i` with the depth the prefix to `i` built, the first
/// depth-zero `target` at or after `i` stands at `j` (`s.len()` when
/// there is none).
pub proof fn lemma_find_top_at(s: Seq<char>, i: int, j: int, target: char)
    requires
        0 <= i <= j <= s.len(),
        forall|k: int| i <= k < j ==> !(run_depth(s, k) == 0 && s[k] == target),
        j < s.len() ==> run_depth(s, j) == 0 && s[j] == target,
    ensures
        find_top_char(s, i, run_depth(s, i), target) == j,
    decreases j - i,
{
    if i < j {
        assert(run_depth(s, i + 1) == depth_step(run_depth(s, i), s[i]));
        lemma_find_top_at(s, i + 1, j, target);
    }
}

/// A string with no top-level comma is not cut at all.
pub proof fn lemma_split_top_whole(p: Seq<char>)
    requires
        top_comma_free(p),
    ensures
        split_top(p) =~= seq![p],
{
    lemma_find_top_at(p, 0, p.len() as int, ',');
    assert(run_depth(p, 0) == 0);
}

/// A balanced, top-comma-free piece followed by a comma is cut exactly
/// at that comma.
pub proof fn lemma_split_top_prepend(p: Seq<char>, rest: Seq<char>)
    requires
        balanced(p),
        top_comma_free(p),
    ensures
        split_top(p + seq![','] + rest) =~= seq![p] + split_top(rest),
{
    let s = p + seq![','] + rest;
    assert(s =~= (p + seq![',']) + rest);
    assert forall|k: int| 0 <= k <= p.len() implies run_depth(s, k) == run_depth(p, k) by {
        lemma_run_depth_prefix(p + seq![','], rest, k);
        lemma_run_depth_prefix(p, seq![','], k);
    }
    assert(forall|k: int| 0 <= k < p.len() ==> s[k] == p[k]);
    assert(s[p.len() as int] == ',');
    assert(run_depth(s, p.len() as int) == 0);
    assert(forall|k: int| 0 <= k < p.len() ==> !(run_depth(s, k) == 0 && s[k] == ','));
    lemma_find_top_at(s, 0, p.len() as int, ',');
    assert(run_depth(s, 0) == 0);
    assert(s.subrange(0, p.len() as int) =~= p);
    assert(s.subrange(p.len() as int + 1, s.len() as int) =~= rest);
}

/// The decimal digit character for a value below ten.
pub open spec fn digit_char(n: int) -> char {
    if n == 0 {
        '0'
    } else if n == 1 {
        '1'
    } else if n == 2 {
        '2'
    } else if n == 3 {
        '3'
    } else if n == 4 {
        '4'
    } else if n == 5 {
        '5'
    } else if n == 6 {
        '6'
    } else if n == 7 {
        '7'
    } else if n == 8 {
        '8'
    } else {
        '9'
    }
}

/// The decimal rendering of a natural number, most significant digit
/// first, with no leading zeros (except for zero itself).
pub open spec fn dec_seq(n: nat) -> Seq<char>
    decreases n,
{
    if n < 10 {
        seq![digit_char(n as int)]
    } else {
        dec_seq(n / 10) + seq![digit_char((n % 10) as int)]
    }
}

fn digit_of(n: u128) -> (r: char)
    requires
        n < 10,
    ensures
        r == digit_char(n as int),
{
    match n {
        0 => '0',
        1 => '1',
        2 => '2',
        3 => '3',
        4 => '4',
        5 => '5',
        6 => '6',
        7 => '7',
        8 => '8',
        _ => '9',
    }
}

/// The decimal digits of `n`.
pub fn dec_chars(n: u128) -> (v: Vec<char>)
    ensures
        v@ == dec_seq(n as nat),
    decreases n,
{
    if n < 10 {
        let mut v: Vec<char> = Vec::new();
        v.push(digit_of(n));
        proof {
            assert(v@ =~= dec_seq(n as nat));
        }
        v
    } else {
        let mut v = dec_chars(n / 10);
        v.push(digit_of(n % 10));
        proof {
            assert(v@ =~= dec_seq(n as nat));
        }
        v
    }
}

} // verus!
