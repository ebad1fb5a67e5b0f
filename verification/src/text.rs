//! Character-level helpers shared by the palette modules.
use vstd::prelude::*;
use vstd::std_specs::iter::IteratorSpec;

verus! {

/// The characters of `s`, in order.
pub fn chars_of(s: &str) -> (out: Vec<char>)
    ensures
        out@ == s@,
{
    broadcast use vstd::string::group_string_axioms;
    let mut out: Vec<char> = Vec::new();
    for c in it: s.chars()
        invariant
            it.seq() == s@,
            out@ == s@.take(it.index()),
    {
        proof {
            assert(s@.take(it.index() + 1) == s@.take(it.index()).push(c));
        }
        out.push(c);
    }
    out
}

/// Appends one character to `s` (`String::push`).
#[verifier::external_body]
pub(crate) fn push_char(s: &mut String, c: char)
    ensures
        final(s)@ == old(s)@.push(c),
{
    s.push(c);
}

/// A string holding exactly the characters of `chars`.
pub fn string_from_chars(chars: &[char]) -> (out: String)
    ensures
        out@ == chars@,
{
    let mut out = String::new();
    let mut i: usize = 0;
    while i < chars.len()
        invariant
            i <= chars@.len(),
            out@ == chars@.take(i as int),
        decreases chars@.len() - i,
    {
        push_char(&mut out, chars[i]);
        proof {
            assert(chars@.take(i + 1) == chars@.take(i as int).push(chars@[i as int]));
        }
        i = i + 1;
    }
    proof {
        assert(chars@.take(chars@.len() as int) == chars@);
    }
    out
}

} // verus!

verus! {

/// What `str::to_lowercase` returns for a string with these characters
/// (Unicode lowercase mapping, with its context-dependent rules).
pub uninterp spec fn lowercase(s: Seq<char>) -> Seq<char>;

/// Every character of `s` is ASCII.
pub open spec fn is_ascii_text(s: Seq<char>) -> bool {
    forall|i: int| 0 <= i < s.len() ==> (#[trigger] s[i] as u32) < 128
}

/// The ASCII lowercase of one character: `A`..=`Z` become `a`..=`z`, every
/// other character stays as it is.
pub open spec fn ascii_lower_char(c: char) -> char {
    let v = c as u32;
    if 65 <= v && v <= 90 {
        (v + 32) as char
    } else {
        c
    }
}

/// Each character of `s` taken by `ascii_lower_char`.
pub open spec fn ascii_lower(s: Seq<char>) -> Seq<char> {
    s.map_values(|c: char| ascii_lower_char(c))
}

/// The case folding the search applies to a text: ASCII lowercase for ASCII
/// text, the Unicode lowercase mapping otherwise.
pub open spec fn folded(s: Seq<char>) -> Seq<char> {
    if is_ascii_text(s) {
        ascii_lower(s)
    } else {
        lowercase(s)
    }
}

/// `a` and `b` are ASCII texts that differ at most in the case of letters.
pub open spec fn ascii_recased(a: Seq<char>, b: Seq<char>) -> bool {
    is_ascii_text(a) && is_ascii_text(b) && ascii_lower(a) == ascii_lower(b)
}

/// Calls `str::to_lowercase`. The contract names the result, which depends
/// on the characters of `s` alone, and states what the Unicode lowercase
/// mapping does to ASCII text: each of `A`..=`Z` becomes its lowercase
/// letter and every other character stays. Of other text it claims nothing.
#[verifier::external_body]
pub(crate) fn to_lowercase(s: &str) -> (out: String)
    ensures
        out@ == lowercase(s@),
        is_ascii_text(s@) ==> out@ == ascii_lower(s@),
{
    s.to_lowercase()
}

/// Unicode `White_Space`, the property `char::is_whitespace` tests.
pub open spec fn is_whitespace_spec(c: char) -> bool {
    let v = c as u32;
    (0x09 <= v && v <= 0x0d) || v == 0x20 || v == 0x85 || v == 0xa0 || v == 0x1680 || (0x2000
        <= v && v <= 0x200a) || v == 0x2028 || v == 0x2029 || v == 0x202f || v == 0x205f || v
        == 0x3000
}

/// Whether `c` is Unicode white space.
pub fn is_whitespace(c: char) -> (out: bool)
    ensures
        out == is_whitespace_spec(c),
{
    let v = c as u32;
    (0x09 <= v && v <= 0x0d) || v == 0x20 || v == 0x85 || v == 0xa0 || v == 0x1680 || (0x2000
        <= v && v <= 0x200a) || v == 0x2028 || v == 0x2029 || v == 0x202f || v == 0x205f || v
        == 0x3000
}

/// Length of the run of non-white-space characters at the start of `s`.
pub open spec fn run_len(s: Seq<char>) -> nat
    decreases s.len(),
{
    if s.len() == 0 || is_whitespace_spec(s[0]) {
        0
    } else {
        1 + run_len(s.drop_first())
    }
}

/// The white-space separated words of `s`, in order (`str::split_whitespace`).
pub open spec fn words(s: Seq<char>) -> Seq<Seq<char>>
    decreases s.len(),
{
    if s.len() == 0 {
        Seq::empty()
    } else if is_whitespace_spec(s[0]) {
        words(s.drop_first())
    } else {
        let k = run_len(s);
        proof {
            lemma_run_len_bound(s);
        }
        seq![s.take(k as int)] + words(s.skip(k as int))
    }
}

pub proof fn lemma_run_len_bound(s: Seq<char>)
    ensures
        run_len(s) <= s.len(),
        s.len() > 0 && !is_whitespace_spec(s[0]) ==> run_len(s) >= 1,
    decreases s.len(),
{
    if s.len() > 0 && !is_whitespace_spec(s[0]) {
        lemma_run_len_bound(s.drop_first());
    }
}

proof fn lemma_recased_char(a: char, b: char)
    requires
        (a as u32) < 128,
        (b as u32) < 128,
        ascii_lower_char(a) == ascii_lower_char(b),
    ensures
        is_whitespace_spec(a) == is_whitespace_spec(b),
{
    let va = a as u32;
    let vb = b as u32;
    if 65 <= va && va <= 90 {
        assert(((va + 32) as char) as u32 == va + 32);
    }
    if 65 <= vb && vb <= 90 {
        assert(((vb + 32) as char) as u32 == vb + 32);
    }
}

proof fn lemma_recased_split(a: Seq<char>, b: Seq<char>, k: int)
    requires
        ascii_recased(a, b),
        0 <= k <= a.len(),
    ensures
        a.len() == b.len(),
        ascii_recased(a.take(k), b.take(k)),
        ascii_recased(a.skip(k), b.skip(k)),
        a.len() > 0 ==> ascii_lower_char(a[0]) == ascii_lower_char(b[0]),
{
    assert(ascii_lower(a).len() == ascii_lower(b).len());
    assert(ascii_lower(a.take(k)) =~= ascii_lower(a).take(k));
    assert(ascii_lower(b.take(k)) =~= ascii_lower(b).take(k));
    assert(ascii_lower(a.skip(k)) =~= ascii_lower(a).skip(k));
    assert(ascii_lower(b.skip(k)) =~= ascii_lower(b).skip(k));
    if a.len() > 0 {
        assert(ascii_lower(a)[0] == ascii_lower(b)[0]);
    }
}

proof fn lemma_run_len_recased(a: Seq<char>, b: Seq<char>)
    requires
        ascii_recased(a, b),
    ensures
        run_len(a) == run_len(b),
    decreases a.len(),
{
    lemma_recased_split(a, b, 0int);
    if a.len() > 0 {
        lemma_recased_split(a, b, 1int);
        lemma_recased_char(a[0], b[0]);
        assert(a.skip(1) == a.drop_first());
        assert(b.skip(1) == b.drop_first());
        lemma_run_len_recased(a.drop_first(), b.drop_first());
    }
}

/// Texts that differ only in the case of ASCII letters have as many words,
/// and the words at each position differ only in the case of ASCII letters.
pub proof fn lemma_words_recased(a: Seq<char>, b: Seq<char>)
    requires
        ascii_recased(a, b),
    ensures
        words(a).len() == words(b).len(),
        forall|k: int| 0 <= k < words(a).len() ==> ascii_recased(#[trigger] words(a)[k], words(b)[k]),
    decreases a.len(),
{
    lemma_recased_split(a, b, 0int);
    if a.len() > 0 {
        lemma_recased_char(a[0], b[0]);
        if is_whitespace_spec(a[0]) {
            lemma_recased_split(a, b, 1int);
            assert(a.skip(1) == a.drop_first());
            assert(b.skip(1) == b.drop_first());
            lemma_words_recased(a.drop_first(), b.drop_first());
        } else {
            lemma_run_len_recased(a, b);
            lemma_run_len_bound(a);
            let k = run_len(a);
            lemma_recased_split(a, b, k as int);
            lemma_words_recased(a.skip(k as int), b.skip(k as int));
            let wa = words(a);
            let wb = words(b);
            assert(wa == seq![a.take(k as int)] + words(a.skip(k as int)));
            assert(wb == seq![b.take(k as int)] + words(b.skip(k as int)));
            assert forall|i: int| 0 <= i < wa.len() implies ascii_recased(#[trigger] wa[i], wb[i]) by {
                if i > 0 {
                    assert(wa[i] == words(a.skip(k as int))[i - 1]);
                    assert(wb[i] == words(b.skip(k as int))[i - 1]);
                }
            }
        }
    }
}

/// The white-space separated words of `s`, in order.
pub fn split_words(s: &str) -> (out: Vec<String>)
    ensures
        out@.map_values(|w: String| w@) == words(s@),
{
    let chars = chars_of(s);
    let n = chars.len();
    let mut out: Vec<String> = Vec::new();
    let mut i: usize = 0;
    proof {
        assert(s@.skip(0) == s@);
        assert(out@.map_values(|w: String| w@) =~= Seq::<Seq<char>>::empty());
    }
    while i < n
        invariant
            chars@ == s@,
            n == chars@.len(),
            i <= n,
            words(s@) == out@.map_values(|w: String| w@) + words(s@.skip(i as int)),
        decreases n - i,
    {
        if is_whitespace(chars[i]) {
            proof {
                assert(s@.skip(i as int).drop_first() == s@.skip(i + 1));
            }
            i = i + 1;
        } else {
            let start = i;
            let mut j = i;
            while j < n && !is_whitespace(chars[j])
                invariant
                    chars@ == s@,
                    n == chars@.len(),
                    start <= j <= n,
                    forall|k: int| start <= k < j ==> !is_whitespace_spec(s@[k]),
                    run_len(s@.skip(start as int)) == (j - start) + run_len(s@.skip(j as int)),
                decreases n - j,
            {
                proof {
                    assert(s@.skip(j as int).drop_first() == s@.skip(j + 1));
                }
                j = j + 1;
            }
            proof {
                assert(run_len(s@.skip(j as int)) == 0);
                lemma_run_len_bound(s@.skip(start as int));
                assert(s@.skip(start as int).take((j - start) as int) == s@.subrange(
                    start as int,
                    j as int,
                ));
                assert(s@.skip(start as int).skip((j - start) as int) == s@.skip(j as int));
            }
            let word = string_from_chars(slice_range(&chars, start, j).as_slice());
            let ghost prev = out@;
            out.push(word);
            proof {
                assert(out@.map_values(|w: String| w@) =~= prev.map_values(|w: String| w@).push(
                    s@.subrange(start as int, j as int),
                ));
                assert(words(s@) == out@.map_values(|w: String| w@) + words(s@.skip(j as int)));
            }
            i = j;
        }
    }
    proof {
        assert(s@.skip(n as int) =~= Seq::<char>::empty());
        assert(words(s@) =~= out@.map_values(|w: String| w@));
    }
    out
}

/// The characters `chars[start..end]`, as a new vector.
pub fn slice_range(chars: &Vec<char>, start: usize, end: usize) -> (out: Vec<char>)
    requires
        start <= end <= chars@.len(),
    ensures
        out@ == chars@.subrange(start as int, end as int),
{
    let mut out: Vec<char> = Vec::new();
    let mut k = start;
    while k < end
        invariant
            start <= k <= end <= chars@.len(),
            out@ == chars@.subrange(start as int, k as int),
        decreases end - k,
    {
        out.push(chars[k]);
        proof {
            assert(chars@.subrange(start as int, k + 1) == chars@.subrange(start as int, k as int).push(
                chars@[k as int],
            ));
        }
        k = k + 1;
    }
    out
}

} // verus!

verus! {

/// Whether the two strings hold the same characters.
pub fn str_equal(a: &str, b: &str) -> (out: bool)
    ensures
        out == (a@ == b@),
{
    let ac = chars_of(a);
    let bc = chars_of(b);
    if ac.len() != bc.len() {
        return false;
    }
    let mut i: usize = 0;
    while i < ac.len()
        invariant
            ac@ == a@,
            bc@ == b@,
            ac@.len() == bc@.len(),
            i <= ac@.len(),
            forall|k: int| 0 <= k < i ==> ac@[k] == bc@[k],
        decreases ac@.len() - i,
    {
        if ac[i] != bc[i] {
            proof {
                assert(a@[i as int] != b@[i as int]);
            }
            return false;
        }
        i = i + 1;
    }
    proof {
        assert(ac@ =~= bc@);
    }
    true
}

/// Appends the characters of `text` to `out`.
pub fn append_str(out: &mut String, text: &str)
    ensures
        final(out)@ == old(out)@ + text@,
{
    let chars = chars_of(text);
    let mut i: usize = 0;
    while i < chars.len()
        invariant
            chars@ == text@,
            i <= chars@.len(),
            out@ == old(out)@ + text@.take(i as int),
        decreases chars@.len() - i,
    {
        push_char(out, chars[i]);
        proof {
            assert(text@.take(i + 1) == text@.take(i as int).push(text@[i as int]));
            assert(old(out)@ + text@.take(i + 1) == (old(out)@ + text@.take(i as int)).push(
                text@[i as int],
            ));
        }
        i = i + 1;
    }
    proof {
        assert(text@.take(chars@.len() as int) == text@);
    }
}

/// `s` without its leading white space.
pub open spec fn trim_start(s: Seq<char>) -> Seq<char>
    decreases s.len(),
{
    if s.len() > 0 && is_whitespace_spec(s[0]) {
        trim_start(s.drop_first())
    } else {
        s
    }
}

/// `s` without its trailing white space.
pub open spec fn trim_end(s: Seq<char>) -> Seq<char>
    decreases s.len(),
{
    if s.len() > 0 && is_whitespace_spec(s.last()) {
        trim_end(s.drop_last())
    } else {
        s
    }
}

/// `s` without leading and trailing white space (`str::trim`).
pub open spec fn trim(s: Seq<char>) -> Seq<char> {
    trim_end(trim_start(s))
}

/// The pieces of `s` between the occurrences of `sep` (`str::split`).
pub open spec fn split_on(s: Seq<char>, sep: char) -> Seq<Seq<char>>
    decreases s.len(),
{
    if s.len() == 0 {
        seq![Seq::empty()]
    } else {
        let pieces = split_on(s.drop_last(), sep);
        if s.last() == sep {
            pieces.push(Seq::empty())
        } else {
            pieces.update(pieces.len() - 1, pieces.last().push(s.last()))
        }
    }
}

/// There is always at least one piece.
pub proof fn lemma_split_on_len(s: Seq<char>, sep: char)
    ensures
        split_on(s, sep).len() >= 1,
    decreases s.len(),
{
    if s.len() > 0 {
        lemma_split_on_len(s.drop_last(), sep);
    }
}

/// The characters of `chars` with leading and trailing white space removed.
pub fn trim_chars(chars: &Vec<char>) -> (out: Vec<char>)
    ensures
        out@ == trim(chars@),
{
    let n = chars.len();
    let mut start: usize = 0;
    proof {
        assert(chars@.skip(0) == chars@);
    }
    while start < n && is_whitespace(chars[start])
        invariant
            n == chars@.len(),
            start <= n,
            trim_start(chars@) == trim_start(chars@.skip(start as int)),
        decreases n - start,
    {
        proof {
            assert(chars@.skip(start as int).drop_first() == chars@.skip(start + 1));
        }
        start = start + 1;
    }
    let mut end: usize = n;
    proof {
        assert(chars@.skip(start as int) == chars@.subrange(start as int, n as int));
        assert(trim_start(chars@) == chars@.subrange(start as int, n as int));
    }
    while end > start && is_whitespace(chars[end - 1])
        invariant
            n == chars@.len(),
            start <= end <= n,
            trim(chars@) == trim_end(chars@.subrange(start as int, end as int)),
        decreases end - start,
    {
        proof {
            assert(chars@.subrange(start as int, end as int).drop_last() == chars@.subrange(
                start as int,
                end - 1,
            ));
        }
        end = end - 1;
    }
    slice_range(chars, start, end)
}

/// The decimal digit for `d`, for `d` below ten.
pub open spec fn digit_char(d: nat) -> char {
    if d == 0 {
        '0'
    } else if d == 1 {
        '1'
    } else if d == 2 {
        '2'
    } else if d == 3 {
        '3'
    } else if d == 4 {
        '4'
    } else if d == 5 {
        '5'
    } else if d == 6 {
        '6'
    } else if d == 7 {
        '7'
    } else if d == 8 {
        '8'
    } else {
        '9'
    }
}

/// The decimal notation of `n`, without leading zeros.
pub open spec fn decimal_spec(n: nat) -> Seq<char>
    decreases n,
{
    if n < 10 {
        seq![digit_char(n)]
    } else {
        decimal_spec(n / 10).push(digit_char(n % 10))
    }
}

fn digit(d: u128) -> (out: char)
    requires
        d < 10,
    ensures
        out == digit_char(d as nat),
{
    if d == 0 {
        '0'
    } else if d == 1 {
        '1'
    } else if d == 2 {
        '2'
    } else if d == 3 {
        '3'
    } else if d == 4 {
        '4'
    } else if d == 5 {
        '5'
    } else if d == 6 {
        '6'
    } else if d == 7 {
        '7'
    } else if d == 8 {
        '8'
    } else {
        '9'
    }
}

/// Appends the decimal notation of `n` to `out`.
pub fn push_decimal(out: &mut String, n: u128)
    ensures
        final(out)@ == old(out)@ + decimal_spec(n as nat),
    decreases n,
{
    if n >= 10 {
        push_decimal(out, n / 10);
    }
    push_char(out, digit(n % 10));
    proof {
        if n < 10 {
            assert(old(out)@ + seq![digit_char(n as nat)] =~= old(out)@.push(digit_char(n as nat)));
        } else {
            assert((old(out)@ + decimal_spec((n / 10) as nat)).push(digit_char((n % 10) as nat))
                =~= old(out)@ + decimal_spec((n / 10) as nat).push(digit_char((n % 10) as nat)));
        }
    }
}

/// `s` without its last character (`String::pop`), unchanged when empty.
pub fn without_last_char(s: &str) -> (out: String)
    ensures
        out@ == if s@.len() > 0 {
            s@.drop_last()
        } else {
            s@
        },
{
    let chars = chars_of(s);
    if chars.len() == 0 {
        return string_from_chars(chars.as_slice());
    }
    let kept = slice_range(&chars, 0, chars.len() - 1);
    proof {
        assert(chars@.subrange(0, chars@.len() - 1) =~= s@.drop_last());
    }
    string_from_chars(kept.as_slice())
}

} // verus!
