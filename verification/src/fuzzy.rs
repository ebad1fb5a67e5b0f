//! Fuzzy matching of palette items against a search query.
use vstd::prelude::*;
use crate::model::{PaletteItem, PaletteItemView};
use crate::text::{
    append_str, ascii_lower, ascii_lower_char, ascii_recased, chars_of, folded, is_ascii_text,
    lemma_words_recased, push_char, split_words, string_from_chars, to_lowercase, words,
};

verus! {

/// Characters that separate the words of a title.
pub open spec fn is_boundary_spec(c: char) -> bool {
    c == ' ' || c == '-' || c == '_' || c == '·' || c == '.' || c == '/' || c == ':' || c == '\t'
}

fn is_boundary(c: char) -> (out: bool)
    ensures
        out == is_boundary_spec(c),
{
    c == ' ' || c == '-' || c == '_' || c == '·' || c == '.' || c == '/' || c == ':' || c == '\t'
}

/// The first character of every maximal run of non-boundary characters of `t`.
pub open spec fn initials(t: Seq<char>) -> Seq<char>
    decreases t.len(),
{
    if t.len() == 0 {
        Seq::empty()
    } else {
        let i = t.len() - 1;
        let rest = initials(t.drop_last());
        if !is_boundary_spec(t[i]) && (i == 0 || is_boundary_spec(t[i - 1])) {
            rest.push(t[i])
        } else {
            rest
        }
    }
}

/// The alias derived from a title: its initials, case-folded.
pub open spec fn auto_alias_spec(title: Seq<char>) -> Seq<char> {
    folded(initials(title))
}

fn auto_alias(title: &str) -> (out: String)
    ensures
        out@ == auto_alias_spec(title@),
{
    let chars = chars_of(title);
    let mut found: Vec<char> = Vec::new();
    let mut i: usize = 0;
    while i < chars.len()
        invariant
            chars@ == title@,
            i <= chars@.len(),
            found@ == initials(title@.take(i as int)),
        decreases chars@.len() - i,
    {
        proof {
            assert(title@.take(i + 1).drop_last() == title@.take(i as int));
        }
        if !is_boundary(chars[i]) && (i == 0 || is_boundary(chars[i - 1])) {
            found.push(chars[i]);
        }
        i = i + 1;
    }
    proof {
        assert(title@.take(chars@.len() as int) == title@);
    }
    let initials_text = string_from_chars(found.as_slice());
    to_lowercase(initials_text.as_str())
}

/// Number of bytes of the UTF-8 encoding of `c` (`char::len_utf8`).
pub open spec fn utf8_width(c: char) -> nat {
    let v = c as u32;
    if v < 0x80 {
        1
    } else if v < 0x800 {
        2
    } else if v < 0x10000 {
        3
    } else {
        4
    }
}

/// Number of bytes of the UTF-8 encoding of `s`.
pub open spec fn utf8_len(s: Seq<char>) -> nat
    decreases s.len(),
{
    if s.len() == 0 {
        0
    } else {
        utf8_len(s.drop_last()) + utf8_width(s.last())
    }
}

fn char_utf8_width(c: char) -> (out: usize)
    ensures
        out == utf8_width(c),
{
    let v = c as u32;
    if v < 0x80 {
        1
    } else if v < 0x800 {
        2
    } else if v < 0x10000 {
        3
    } else {
        4
    }
}

/// Whether `needle` occurs in `hay` starting at character `k`.
pub open spec fn occurs_at(hay: Seq<char>, needle: Seq<char>, k: int) -> bool {
    0 <= k && k + needle.len() <= hay.len() && hay.subrange(k, k + needle.len()) == needle
}

/// The first position, at or after `k`, at which `needle` occurs in `hay`.
pub open spec fn first_occurrence_from(hay: Seq<char>, needle: Seq<char>, k: int) -> Option<int>
    decreases hay.len() + 1 - k,
{
    if k < 0 || k + needle.len() > hay.len() {
        None
    } else if occurs_at(hay, needle, k) {
        Some(k)
    } else {
        first_occurrence_from(hay, needle, k + 1)
    }
}

/// The first position at which `needle` occurs in `hay` (`str::find`).
pub open spec fn first_occurrence(hay: Seq<char>, needle: Seq<char>) -> Option<int> {
    first_occurrence_from(hay, needle, 0)
}

/// Whether position `k` of `hay` starts a word: it is the first position or
/// follows a boundary character.
pub open spec fn starts_word(hay: Seq<char>, k: int) -> bool {
    k == 0 || is_boundary_spec(hay[k - 1])
}

/// The substring score before it is taken as an unsigned number:
/// `10000`, plus `5000` at a word start, minus the byte offset of the first
/// occurrence; `None` when `needle` does not occur.
pub open spec fn exact_raw(hay: Seq<char>, needle: Seq<char>) -> Option<int> {
    match first_occurrence(hay, needle) {
        None => None,
        Some(k) => Some(10000 + (if starts_word(hay, k) { 5000int } else { 0int }) - utf8_len(
            hay.take(k),
        )),
    }
}

/// The substring score is defined: the subtraction does not go below zero.
pub open spec fn exact_fits(hay: Seq<char>, needle: Seq<char>) -> bool {
    match exact_raw(hay, needle) {
        None => true,
        Some(v) => v >= 0,
    }
}

/// The substring score: zero when `needle` does not occur.
pub open spec fn exact_score(hay: Seq<char>, needle: Seq<char>) -> nat {
    match exact_raw(hay, needle) {
        None => 0,
        Some(v) => if v >= 0 {
            v as nat
        } else {
            0
        },
    }
}

proof fn lemma_first_occurrence_from(hay: Seq<char>, needle: Seq<char>, k: int)
    ensures
        first_occurrence_from(hay, needle, k) matches Some(j) ==> k <= j && occurs_at(hay, needle, j),
    decreases hay.len() + 1 - k,
{
    if k < 0 || k + needle.len() > hay.len() {
    } else if occurs_at(hay, needle, k) {
    } else {
        lemma_first_occurrence_from(hay, needle, k + 1);
    }
}

proof fn lemma_utf8_len_take(s: Seq<char>, i: int)
    requires
        0 <= i < s.len(),
    ensures
        utf8_len(s.take(i + 1)) == utf8_len(s.take(i)) + utf8_width(s[i]),
{
    assert(s.take(i + 1).drop_last() == s.take(i));
}

proof fn lemma_utf8_len_take_mono(s: Seq<char>, i: int, j: int)
    requires
        0 <= i <= j <= s.len(),
    ensures
        utf8_len(s.take(i)) <= utf8_len(s.take(j)),
    decreases j - i,
{
    if i < j {
        lemma_utf8_len_take(s, j - 1);
        lemma_utf8_len_take_mono(s, i, j - 1);
    }
}

fn occurs_at_exec(hay: &Vec<char>, needle: &Vec<char>, k: usize) -> (out: bool)
    requires
        k + needle@.len() <= hay@.len(),
    ensures
        out == occurs_at(hay@, needle@, k as int),
{
    let hay_len = hay.len();
    let mut j: usize = 0;
    while j < needle.len()
        invariant
            k + needle@.len() <= hay@.len(),
            hay_len == hay@.len(),
            j <= needle@.len(),
            forall|m: int| 0 <= m < j ==> hay@[k + m] == needle@[m],
        decreases needle@.len() - j,
    {
        if hay[k + j] != needle[j] {
            proof {
                assert(hay@.subrange(k as int, k + needle@.len())[j as int] != needle@[j as int]);
            }
            return false;
        }
        j = j + 1;
    }
    proof {
        assert(hay@.subrange(k as int, k + needle@.len()) =~= needle@);
    }
    true
}

fn find_first(hay: &Vec<char>, needle: &Vec<char>) -> (out: Option<usize>)
    ensures
        match out {
            None => first_occurrence(hay@, needle@) is None,
            Some(k) => first_occurrence(hay@, needle@) == Some(k as int),
        },
{
    if needle.len() > hay.len() {
        return None;
    }
    let last = hay.len() - needle.len();
    let mut k: usize = 0;
    loop
        invariant
            last + needle@.len() == hay@.len(),
            k <= last,
            first_occurrence(hay@, needle@) == first_occurrence_from(hay@, needle@, k as int),
        decreases last - k,
    {
        if occurs_at_exec(hay, needle, k) {
            return Some(k);
        }
        if k == last {
            proof {
                assert(first_occurrence_from(hay@, needle@, k + 1) is None);
            }
            return None;
        }
        k = k + 1;
    }
}

pub fn exact_match_score(hay: &Vec<char>, needle: &Vec<char>) -> (out: usize)
    requires
        exact_fits(hay@, needle@),
    ensures
        out == exact_score(hay@, needle@),
{
    match find_first(hay, needle) {
        None => 0,
        Some(index) => {
            proof {
                lemma_first_occurrence_from(hay@, needle@, 0);
            }
            let at_boundary = index == 0 || is_boundary(hay[index - 1]);
            let ghost limit: int = 10000 + (if at_boundary { 5000int } else { 0int });
            let mut offset: usize = 0;
            let mut i: usize = 0;
            while i < index
                invariant
                    first_occurrence(hay@, needle@) == Some(index as int),
                    index <= hay@.len(),
                    limit <= 15000,
                    i <= index,
                    offset == utf8_len(hay@.take(i as int)),
                    limit - utf8_len(hay@.take(index as int)) >= 0,
                decreases index - i,
            {
                proof {
                    lemma_utf8_len_take(hay@, i as int);
                    lemma_utf8_len_take_mono(hay@, i + 1, index as int);
                }
                assert(offset + utf8_width(hay@[i as int]) <= 15000);
                offset = offset + char_utf8_width(hay[i]);
                i = i + 1;
            }
            let bonus: usize = if at_boundary { 5000 } else { 0 };
            10000 + bonus - offset
        },
    }
}

/// Per-character bonus of the subsequence score.
pub open spec fn char_bonus_spec(at_boundary: bool, consecutive: bool) -> nat {
    if at_boundary {
        50
    } else if consecutive {
        20
    } else {
        5
    }
}

fn char_bonus(at_boundary: bool, consecutive: bool) -> (out: usize)
    ensures
        out == char_bonus_spec(at_boundary, consecutive),
{
    if at_boundary {
        50
    } else if consecutive {
        20
    } else {
        5
    }
}

/// The first position, at or after `start`, that holds `c`.
pub open spec fn next_match(hay: Seq<char>, c: char, start: int) -> Option<int>
    decreases hay.len() - start,
{
    if start < 0 || start >= hay.len() {
        None
    } else if hay[start] == c {
        Some(start)
    } else {
        next_match(hay, c, start + 1)
    }
}

/// The greedy subsequence match of `needle` in `hay` from position `start`,
/// each character matched at its first occurrence after the previous match
/// `prev`: the sum of the per-character bonuses, or `None` when some
/// character finds no match.
pub open spec fn greedy(hay: Seq<char>, needle: Seq<char>, start: int, prev: Option<int>) -> Option<
    nat,
>
    decreases needle.len(),
{
    if needle.len() == 0 {
        Some(0)
    } else {
        match next_match(hay, needle[0], start) {
            None => None,
            Some(j) => match greedy(hay, needle.drop_first(), j + 1, Some(j)) {
                None => None,
                Some(t) => Some(char_bonus_spec(starts_word(hay, j), prev == Some(j - 1)) + t),
            },
        }
    }
}

/// Every running total of the greedy match, starting from `acc`, fits in a `usize`.
pub open spec fn greedy_fits(
    hay: Seq<char>,
    needle: Seq<char>,
    start: int,
    prev: Option<int>,
    acc: int,
) -> bool
    decreases needle.len(),
{
    needle.len() == 0 || match next_match(hay, needle[0], start) {
        None => true,
        Some(j) => {
            let b = char_bonus_spec(starts_word(hay, j), prev == Some(j - 1));
            acc + b <= usize::MAX && greedy_fits(hay, needle.drop_first(), j + 1, Some(j), acc + b)
        },
    }
}

/// The subsequence score: zero when some character of `needle` is not
/// matched, otherwise the greedy total, and at least one.
pub open spec fn subsequence_score_spec(hay: Seq<char>, needle: Seq<char>) -> nat {
    match greedy(hay, needle, 0, None) {
        None => 0,
        Some(t) => if t == 0 {
            1
        } else {
            t
        },
    }
}

/// The total `acc` plus an optional remainder.
pub open spec fn add_opt(acc: int, rest: Option<nat>) -> Option<int> {
    match rest {
        None => None,
        Some(t) => Some(acc + t),
    }
}

pub fn subsequence_score(hay: &Vec<char>, needle: &Vec<char>) -> (out: usize)
    requires
        greedy_fits(hay@, needle@, 0, None, 0),
    ensures
        out == subsequence_score_spec(hay@, needle@),
{
    let hay_len = hay.len();
    let mut score: usize = 0;
    let mut hidx: usize = 0;
    let mut prev: Option<usize> = None;
    let mut i: usize = 0;
    proof {
        assert(needle@.skip(0) == needle@);
    }
    while i < needle.len()
        invariant
            hay_len == hay@.len(),
            i <= needle@.len(),
            hidx <= hay@.len(),
            add_opt(0, greedy(hay@, needle@, 0, None)) == add_opt(
                score as int,
                greedy(hay@, needle@.skip(i as int), hidx as int, opt_int(prev)),
            ),
            greedy_fits(hay@, needle@.skip(i as int), hidx as int, opt_int(prev), score as int),
        decreases needle@.len() - i,
    {
        let c = needle[i];
        let ghost start = hidx;
        while hidx < hay_len && hay[hidx] != c
            invariant
                hay_len == hay@.len(),
                start <= hidx <= hay@.len(),
                next_match(hay@, c, start as int) == next_match(hay@, c, hidx as int),
            decreases hay@.len() - hidx,
        {
            hidx = hidx + 1;
        }
        proof {
            assert(needle@.skip(i as int)[0] == c);
            assert(needle@.skip(i as int).drop_first() == needle@.skip(i + 1));
        }
        if hidx == hay_len {
            return 0;
        }
        let at_boundary = hidx == 0 || is_boundary(hay[hidx - 1]);
        let consecutive = match prev {
            Some(p) => hidx >= 1 && hidx - 1 == p,
            None => false,
        };
        score = score + char_bonus(at_boundary, consecutive);
        prev = Some(hidx);
        hidx = hidx + 1;
        i = i + 1;
    }
    proof {
        assert(needle@.skip(i as int).len() == 0);
    }
    if score == 0 {
        1
    } else {
        score
    }
}

/// An optional position as an optional integer.
pub open spec fn opt_int(p: Option<usize>) -> Option<int> {
    match p {
        Some(v) => Some(v as int),
        None => None,
    }
}

/// The score of `needle` against `hay`: one for an empty needle; otherwise,
/// on the case-folded texts, the substring score when it is positive and the
/// subsequence score when it is not.
pub open spec fn fuzzy_score_spec(hay: Seq<char>, needle: Seq<char>) -> nat {
    if needle.len() == 0 {
        1
    } else {
        let h = folded(hay);
        let n = folded(needle);
        if exact_score(h, n) > 0 {
            exact_score(h, n)
        } else {
            subsequence_score_spec(h, n)
        }
    }
}

/// The arithmetic of `fuzzy_score_spec` stays within `usize`.
pub open spec fn fuzzy_fits(hay: Seq<char>, needle: Seq<char>) -> bool {
    needle.len() == 0 || {
        let h = folded(hay);
        let n = folded(needle);
        exact_fits(h, n) && (exact_score(h, n) > 0 || greedy_fits(h, n, 0, None, 0))
    }
}

fn fuzzy_score(haystack: &str, needle: &str) -> (out: usize)
    requires
        fuzzy_fits(haystack@, needle@),
    ensures
        out == fuzzy_score_spec(haystack@, needle@),
{
    if needle.is_empty() {
        return 1;
    }
    let hay_lower = to_lowercase(haystack);
    let needle_lower = to_lowercase(needle);
    let hay_chars = chars_of(hay_lower.as_str());
    let needle_chars = chars_of(needle_lower.as_str());
    let exact = exact_match_score(&hay_chars, &needle_chars);
    if exact > 0 {
        exact
    } else {
        subsequence_score(&hay_chars, &needle_chars)
    }
}

/// An optional text as a list of zero or one texts.
pub open spec fn opt_part(value: Option<Seq<char>>) -> Seq<Seq<char>> {
    match value {
        Some(s) => seq![s],
        None => Seq::empty(),
    }
}

/// The texts an item is searched by: title, description, category,
/// shortcut, aliases, and the alias derived from the title.
pub open spec fn haystack_parts(item: PaletteItemView) -> Seq<Seq<char>> {
    seq![item.title] + opt_part(item.description) + opt_part(item.category) + opt_part(
        item.shortcut,
    ) + item.aliases + seq![auto_alias_spec(item.title)]
}

/// The texts joined with single spaces.
pub open spec fn join_with_space(parts: Seq<Seq<char>>) -> Seq<char>
    decreases parts.len(),
{
    if parts.len() == 0 {
        Seq::empty()
    } else if parts.len() == 1 {
        parts[0]
    } else {
        join_with_space(parts.drop_last()) + seq![' '] + parts.last()
    }
}

/// The text an item is searched in.
pub open spec fn haystack(item: PaletteItemView) -> Seq<char> {
    join_with_space(haystack_parts(item))
}

fn join_strings(parts: &Vec<String>) -> (out: String)
    ensures
        out@ == join_with_space(parts@.map_values(|p: String| p@)),
{
    let mut out = String::new();
    let mut i: usize = 0;
    while i < parts.len()
        invariant
            i <= parts@.len(),
            out@ == join_with_space(parts@.take(i as int).map_values(|p: String| p@)),
        decreases parts@.len() - i,
    {
        let ghost before = parts@.take(i as int).map_values(|p: String| p@);
        let ghost after = parts@.take(i + 1).map_values(|p: String| p@);
        proof {
            assert(after.drop_last() =~= before);
            assert(after.last() == parts@[i as int]@);
        }
        if i > 0 {
            push_char(&mut out, ' ');
        }
        append_str(&mut out, parts[i].as_str());
        proof {
            if i == 0 {
                assert(out@ =~= after[0]);
            } else {
                assert(out@ =~= join_with_space(before) + seq![' '] + after.last());
            }
        }
        i = i + 1;
    }
    proof {
        assert(parts@.take(parts@.len() as int) == parts@);
    }
    out
}

fn push_opt(parts: &mut Vec<String>, value: &Option<String>)
    ensures
        final(parts)@.map_values(|p: String| p@) == old(parts)@.map_values(|p: String| p@)
            + opt_part(crate::model::opt_view(*value)),
{
    let ghost before = parts@;
    if let Some(text) = value {
        parts.push(text.clone());
        proof {
            assert(parts@.map_values(|p: String| p@) =~= before.map_values(|p: String| p@)
                + opt_part(crate::model::opt_view(*value)));
        }
    } else {
        proof {
            assert(parts@.map_values(|p: String| p@) =~= before.map_values(|p: String| p@)
                + opt_part(crate::model::opt_view(*value)));
        }
    }
}

fn item_haystack(item: &PaletteItem) -> (out: String)
    ensures
        out@ == haystack(item@),
{
    let mut parts: Vec<String> = Vec::new();
    parts.push(item.title.clone());
    proof {
        assert(parts@.map_values(|p: String| p@) =~= seq![item@.title]);
    }
    push_opt(&mut parts, &item.description);
    push_opt(&mut parts, &item.category);
    push_opt(&mut parts, &item.shortcut);
    let ghost base = parts@.map_values(|p: String| p@);
    let mut i: usize = 0;
    while i < item.aliases.len()
        invariant
            i <= item.aliases@.len(),
            parts@.map_values(|p: String| p@) == base + item@.aliases.take(i as int),
        decreases item.aliases@.len() - i,
    {
        let ghost prev = parts@;
        parts.push(item.aliases[i].clone());
        proof {
            assert(item@.aliases.take(i + 1) =~= item@.aliases.take(i as int).push(
                item.aliases@[i as int]@,
            ));
            assert(parts@.map_values(|p: String| p@) =~= prev.map_values(|p: String| p@).push(
                item.aliases@[i as int]@,
            ));
        }
        i = i + 1;
    }
    let alias = auto_alias(item.title.as_str());
    let ghost prev = parts@;
    parts.push(alias);
    proof {
        assert(item@.aliases.take(item@.aliases.len() as int) == item@.aliases);
        assert(parts@.map_values(|p: String| p@) =~= prev.map_values(|p: String| p@).push(
            auto_alias_spec(item@.title),
        ));
        assert(parts@.map_values(|p: String| p@) =~= haystack_parts(item@));
    }
    join_strings(&parts)
}

/// The sum of the scores of the first `i` query parts against `hay`, or
/// `None` as soon as one of them scores zero.
pub open spec fn parts_total(hay: Seq<char>, parts: Seq<Seq<char>>, i: int) -> Option<nat>
    decreases i,
{
    if i <= 0 {
        Some(0)
    } else {
        match parts_total(hay, parts, i - 1) {
            None => None,
            Some(t) => {
                let s = fuzzy_score_spec(hay, parts[i - 1]);
                if s == 0 {
                    None
                } else {
                    Some(t + s)
                }
            },
        }
    }
}

/// Scoring the first `i` parts, up to the first that scores zero, stays
/// within `usize`.
pub open spec fn parts_fit(hay: Seq<char>, parts: Seq<Seq<char>>, i: int) -> bool
    decreases i,
{
    i <= 0 || (parts_fit(hay, parts, i - 1) && match parts_total(hay, parts, i - 1) {
        None => true,
        Some(t) => fuzzy_fits(hay, parts[i - 1]) && t + fuzzy_score_spec(hay, parts[i - 1])
            <= usize::MAX,
    })
}

/// The score of `hay` for all query parts: `None` when some part scores zero,
/// otherwise the sum, and at least one.
pub open spec fn match_score(hay: Seq<char>, parts: Seq<Seq<char>>) -> Option<nat> {
    match parts_total(hay, parts, parts.len() as int) {
        None => None,
        Some(t) => Some(if t == 0 {
            1
        } else {
            t
        }),
    }
}

/// The score of an item for the query parts.
pub open spec fn item_score(item: PaletteItemView, parts: Seq<Seq<char>>) -> Option<nat> {
    match_score(haystack(item), parts)
}

/// Scoring an item stays within `usize` (the item's search text is short
/// enough and the sum of part scores fits).
pub open spec fn item_fits(item: PaletteItemView, parts: Seq<Seq<char>>) -> bool {
    parts_fit(haystack(item), parts, parts.len() as int)
}

proof fn lemma_parts_fit_prefix(hay: Seq<char>, parts: Seq<Seq<char>>, i: int, n: int)
    requires
        0 <= i <= n,
        parts_fit(hay, parts, n),
    ensures
        parts_fit(hay, parts, i),
    decreases n - i,
{
    if i < n {
        lemma_parts_fit_prefix(hay, parts, i, n - 1);
    }
}

proof fn lemma_parts_total_none(hay: Seq<char>, parts: Seq<Seq<char>>, i: int, n: int)
    requires
        0 <= i <= n,
        parts_total(hay, parts, i) is None,
    ensures
        parts_total(hay, parts, n) is None,
    decreases n - i,
{
    if i < n {
        lemma_parts_total_none(hay, parts, i, n - 1);
    }
}

/// An optional `usize` as an optional natural number.
pub open spec fn opt_nat(value: Option<usize>) -> Option<nat> {
    match value {
        Some(v) => Some(v as nat),
        None => None,
    }
}

fn score_parts(haystack: &str, parts: &Vec<String>) -> (out: Option<usize>)
    requires
        parts_fit(haystack@, parts@.map_values(|p: String| p@), parts@.len() as int),
    ensures
        opt_nat(out) == match_score(haystack@, parts@.map_values(|p: String| p@)),
{
    let ghost ps = parts@.map_values(|p: String| p@);
    let mut total: usize = 0;
    let mut i: usize = 0;
    while i < parts.len()
        invariant
            ps == parts@.map_values(|p: String| p@),
            i <= parts@.len(),
            parts_total(haystack@, ps, i as int) == Some(total as nat),
            parts_fit(haystack@, ps, parts@.len() as int),
        decreases parts@.len() - i,
    {
        proof {
            lemma_parts_fit_prefix(haystack@, ps, i + 1, parts@.len() as int);
            assert(ps[i as int] == parts@[i as int]@);
        }
        let score = fuzzy_score(haystack, parts[i].as_str());
        if score == 0 {
            proof {
                lemma_parts_total_none(haystack@, ps, i + 1, parts@.len() as int);
            }
            return None;
        }
        total = total + score;
        i = i + 1;
    }
    if total == 0 {
        Some(1)
    } else {
        Some(total)
    }
}

/// The score of `item` for `query`: `None` when some white-space separated
/// part of the query does not match the item's search text.
pub fn score_item(item: &PaletteItem, query: &str) -> (out: Option<usize>)
    requires
        item_fits(item@, words(query@)),
    ensures
        opt_nat(out) == item_score(item@, words(query@)),
{
    let parts = split_words(query);
    let hay = item_haystack(item);
    score_parts(hay.as_str(), &parts)
}

/// Lexicographic order of texts by code point.
pub open spec fn chars_lt(a: Seq<char>, b: Seq<char>) -> bool
    decreases a.len(),
{
    if a.len() == 0 {
        b.len() > 0
    } else if b.len() == 0 {
        false
    } else if a[0] != b[0] {
        (a[0] as int) < (b[0] as int)
    } else {
        chars_lt(a.drop_first(), b.drop_first())
    }
}

pub proof fn lemma_chars_lt_irreflexive(a: Seq<char>)
    ensures
        !chars_lt(a, a),
    decreases a.len(),
{
    if a.len() > 0 {
        lemma_chars_lt_irreflexive(a.drop_first());
    }
}

pub proof fn lemma_chars_lt_total(a: Seq<char>, b: Seq<char>)
    ensures
        a != b ==> chars_lt(a, b) || chars_lt(b, a),
        !(chars_lt(a, b) && chars_lt(b, a)),
    decreases a.len(),
{
    if a.len() > 0 && b.len() > 0 {
        if a[0] == b[0] {
            lemma_chars_lt_total(a.drop_first(), b.drop_first());
            if a != b {
                assert(a.drop_first() != b.drop_first()) by {
                    if a.drop_first() == b.drop_first() {
                        assert(a =~= seq![a[0]] + a.drop_first());
                        assert(b =~= seq![b[0]] + b.drop_first());
                    }
                };
            }
        } else {
            let x = a[0] as int;
            let y = b[0] as int;
            assert(x != y);
        }
    } else if a.len() == 0 && b.len() == 0 {
        assert(a =~= b);
    }
}

pub proof fn lemma_chars_lt_transitive(a: Seq<char>, b: Seq<char>, c: Seq<char>)
    requires
        chars_lt(a, b),
        chars_lt(b, c),
    ensures
        chars_lt(a, c),
    decreases a.len(),
{
    if a.len() > 0 && b.len() > 0 && c.len() > 0 {
        if a[0] == b[0] && b[0] == c[0] {
            lemma_chars_lt_transitive(a.drop_first(), b.drop_first(), c.drop_first());
        }
    }
}

fn chars_less(a: &Vec<char>, b: &Vec<char>) -> (out: bool)
    ensures
        out == chars_lt(a@, b@),
{
    let mut i: usize = 0;
    proof {
        assert(a@.skip(0) == a@);
        assert(b@.skip(0) == b@);
    }
    while i < a.len() && i < b.len() && a[i] == b[i]
        invariant
            i <= a@.len(),
            i <= b@.len(),
            chars_lt(a@, b@) == chars_lt(a@.skip(i as int), b@.skip(i as int)),
        decreases a@.len() - i,
    {
        proof {
            assert(a@.skip(i as int).drop_first() == a@.skip(i + 1));
            assert(b@.skip(i as int).drop_first() == b@.skip(i + 1));
        }
        i = i + 1;
    }
    if i == a.len() {
        i < b.len()
    } else if i == b.len() {
        false
    } else {
        a[i] < b[i]
    }
}

pub fn title_less(a: &String, b: &String) -> (out: bool)
    ensures
        out == chars_lt(a@, b@),
{
    let ac = chars_of(a.as_str());
    let bc = chars_of(b.as_str());
    chars_less(&ac, &bc)
}

/// The score of item `a`, zero when it does not match.
pub open spec fn score_at(items: Seq<PaletteItemView>, parts: Seq<Seq<char>>, a: int) -> nat {
    match item_score(items[a], parts) {
        Some(s) => s,
        None => 0,
    }
}

/// Item `a` is listed before item `b`: a higher score first, then the title
/// in code-point order, then the position in the input.
pub open spec fn ranks_before(items: Seq<PaletteItemView>, parts: Seq<Seq<char>>, a: int, b: int) -> bool {
    let sa = score_at(items, parts, a);
    let sb = score_at(items, parts, b);
    sa > sb || (sa == sb && (chars_lt(items[a].title, items[b].title) || (items[a].title
        == items[b].title && a < b)))
}

/// `order` lists every matching item exactly once, best ranked first.
pub open spec fn is_ranking(
    items: Seq<PaletteItemView>,
    parts: Seq<Seq<char>>,
    order: Seq<int>,
) -> bool {
    &&& forall|k: int|
        0 <= k < order.len() ==> 0 <= #[trigger] order[k] < items.len() && item_score(
            items[order[k]],
            parts,
        ) is Some
    &&& forall|j: int|
        0 <= j < items.len() && #[trigger] item_score(items[j], parts) is Some ==> order.contains(j)
    &&& forall|a: int, b: int|
        0 <= a < b < order.len() ==> ranks_before(items, parts, #[trigger] order[a], #[trigger] order[b])
}

/// The items taken as their views.
pub open spec fn items_view(items: Seq<PaletteItem>) -> Seq<PaletteItemView> {
    items.map_values(|it: PaletteItem| it@)
}

proof fn lemma_ranks_total(items: Seq<PaletteItemView>, parts: Seq<Seq<char>>, a: int, b: int)
    ensures
        a != b ==> ranks_before(items, parts, a, b) || ranks_before(items, parts, b, a),
        !(ranks_before(items, parts, a, b) && ranks_before(items, parts, b, a)),
{
    lemma_chars_lt_total(items[a].title, items[b].title);
    lemma_chars_lt_irreflexive(items[a].title);
}

proof fn lemma_ranks_transitive(
    items: Seq<PaletteItemView>,
    parts: Seq<Seq<char>>,
    a: int,
    b: int,
    c: int,
)
    requires
        ranks_before(items, parts, a, b),
        ranks_before(items, parts, b, c),
    ensures
        ranks_before(items, parts, a, c),
{
    if chars_lt(items[a].title, items[b].title) && chars_lt(items[b].title, items[c].title) {
        lemma_chars_lt_transitive(items[a].title, items[b].title, items[c].title);
    }
}

/// Items whose search text matches every white-space separated part of
/// `query`, best match first; ties keep title order, then input order.
/// A query with no such part keeps all items in their input order.
pub fn filter_items(items: &[PaletteItem], query: &str) -> (out: Vec<PaletteItem>)
    requires
        forall|k: int| 0 <= k < items@.len() ==> item_fits(#[trigger] items@[k]@, words(query@)),
    ensures
        words(query@).len() == 0 ==> out@.len() == items@.len() && forall|k: int|
            0 <= k < items@.len() ==> #[trigger] out@[k]@ == items@[k]@,
        words(query@).len() > 0 ==> exists|order: Seq<int>|
            {
                &&& is_ranking(items_view(items@), words(query@), order)
                &&& order.len() == out@.len()
                &&& forall|k: int|
                    0 <= k < order.len() ==> #[trigger] out@[k]@ == items@[order[k]]@
            },
{
    let parts = split_words(query);
    let ghost ps = words(query@);
    let ghost iv = items_view(items@);
    let n = items.len();
    if parts.len() == 0 {
        let mut out: Vec<PaletteItem> = Vec::new();
        let mut i: usize = 0;
        while i < n
            invariant
                n == items@.len(),
                i <= n,
                out@.len() == i,
                forall|k: int| 0 <= k < i ==> #[trigger] out@[k]@ == items@[k]@,
            decreases n - i,
        {
            out.push(items[i].duplicate());
            i = i + 1;
        }
        return out;
    }
    let mut scores: Vec<usize> = Vec::new();
    let mut order: Vec<usize> = Vec::new();
    let mut i: usize = 0;
    while i < n
        invariant
            n == items@.len(),
            iv == items_view(items@),
            ps == words(query@),
            ps == parts@.map_values(|p: String| p@),
            forall|k: int| 0 <= k < items@.len() ==> item_fits(#[trigger] items@[k]@, ps),
            i <= n,
            scores@.len() == i,
            forall|j: int| 0 <= j < i ==> #[trigger] scores@[j] == score_at(iv, ps, j),
            forall|k: int|
                0 <= k < order@.len() ==> #[trigger] order@[k] < i && item_score(
                    iv[order@[k] as int],
                    ps,
                ) is Some,
            forall|j: int|
                0 <= j < i && #[trigger] item_score(iv[j], ps) is Some ==> order@.contains(
                    j as usize,
                ),
            forall|a: int, b: int|
                0 <= a < b < order@.len() ==> ranks_before(
                    iv,
                    ps,
                    #[trigger] order@[a] as int,
                    #[trigger] order@[b] as int,
                ),
        decreases n - i,
    {
        let hay = item_haystack(&items[i]);
        proof {
            assert(iv[i as int] == items@[i as int]@);
        }
        let scored = score_parts(hay.as_str(), &parts);
        match scored {
            None => {
                scores.push(0);
            },
            Some(sc) => {
                scores.push(sc);
                let mut pos: usize = 0;
                while pos < order.len() && !(sc > scores[order[pos]] || (sc == scores[order[pos]]
                    && title_less(&items[i].title, &items[order[pos]].title)))
                    invariant
                        n == items@.len(),
                        iv == items_view(items@),
                        i < n,
                        scores@.len() == i + 1,
                        scores@[i as int] == sc,
                        item_score(iv[i as int], ps) == Some(sc as nat),
                        forall|j: int| 0 <= j <= i ==> #[trigger] scores@[j] == score_at(iv, ps, j),
                        forall|k: int| 0 <= k < order@.len() ==> #[trigger] order@[k] < i,
                        pos <= order@.len(),
                        forall|k: int|
                            0 <= k < pos ==> ranks_before(
                                iv,
                                ps,
                                #[trigger] order@[k] as int,
                                i as int,
                            ),
                    decreases order@.len() - pos,
                {
                    proof {
                        let x = order@[pos as int] as int;
                        assert(iv[x] == items@[x]@);
                        lemma_ranks_total(iv, ps, x, i as int);
                    }
                    pos = pos + 1;
                }
                let ghost old_order = order@;
                proof {
                    if pos < order@.len() {
                        let x = order@[pos as int] as int;
                        assert(iv[x] == items@[x]@);
                        assert(ranks_before(iv, ps, i as int, x));
                    }
                }
                order.insert(pos, i);
                proof {
                    assert forall|a: int, b: int|
                        0 <= a < b < order@.len() implies ranks_before(
                        iv,
                        ps,
                        #[trigger] order@[a] as int,
                        #[trigger] order@[b] as int,
                    ) by {
                        if b < pos {
                        } else if b == pos {
                        } else if a < pos {
                            assert(order@[b] == old_order[b - 1]);
                            assert(order@[a] == old_order[a]);
                        } else if a == pos {
                            assert(order@[b] == old_order[b - 1]);
                            if b - 1 > pos {
                                lemma_ranks_transitive(
                                    iv,
                                    ps,
                                    i as int,
                                    old_order[pos as int] as int,
                                    old_order[b - 1] as int,
                                );
                            }
                        } else {
                            assert(order@[b] == old_order[b - 1]);
                            assert(order@[a] == old_order[a - 1]);
                        }
                    }
                    assert forall|j: int|
                        0 <= j < i + 1 && #[trigger] item_score(iv[j], ps) is Some implies order@.contains(
                        j as usize,
                    ) by {
                        if j < i {
                            let k = choose|k: int| 0 <= k < old_order.len() && old_order[k] == j as usize;
                            if k < pos {
                                assert(order@[k] == j as usize);
                            } else {
                                assert(order@[k + 1] == j as usize);
                            }
                        } else {
                            assert(order@[pos as int] == i);
                        }
                    }
                }
            },
        }
        proof {
            assert(scores@[i as int] == score_at(iv, ps, i as int));
        }
        i = i + 1;
    }
    let ghost order_int = order@.map_values(|x: usize| x as int);
    let mut out: Vec<PaletteItem> = Vec::new();
    let mut k: usize = 0;
    while k < order.len()
        invariant
            n == items@.len(),
            forall|m: int| 0 <= m < order@.len() ==> #[trigger] order@[m] < n,
            k <= order@.len(),
            out@.len() == k,
            forall|m: int| 0 <= m < k ==> #[trigger] out@[m]@ == items@[order@[m] as int]@,
        decreases order@.len() - k,
    {
        out.push(items[order[k]].duplicate());
        k = k + 1;
    }
    proof {
        assert forall|j: int|
            0 <= j < iv.len() && #[trigger] item_score(iv[j], ps) is Some implies order_int.contains(j) by {
            let m = choose|m: int| 0 <= m < order@.len() && order@[m] == j as usize;
            assert(order_int[m] == j);
        }
        assert(is_ranking(iv, ps, order_int));
    }
    out
}

fn exact_check(hay: &Vec<char>, needle: &Vec<char>) -> (out: bool)
    ensures
        out == exact_fits(hay@, needle@),
{
    match find_first(hay, needle) {
        None => true,
        Some(index) => {
            proof {
                lemma_first_occurrence_from(hay@, needle@, 0);
            }
            let at_boundary = index == 0 || is_boundary(hay[index - 1]);
            let limit: usize = if at_boundary {
                15000
            } else {
                10000
            };
            let mut offset: usize = 0;
            let mut i: usize = 0;
            while i < index
                invariant
                    index <= hay@.len(),
                    first_occurrence(hay@, needle@) == Some(index as int),
                    limit == 10000 + (if starts_word(hay@, index as int) {
                        5000int
                    } else {
                        0int
                    }),
                    i <= index,
                    limit <= 15000,
                    offset <= limit,
                    offset == utf8_len(hay@.take(i as int)),
                decreases index - i,
            {
                proof {
                    lemma_utf8_len_take(hay@, i as int);
                }
                let w = char_utf8_width(hay[i]);
                if offset + w > limit {
                    proof {
                        lemma_utf8_len_take_mono(hay@, i + 1, index as int);
                    }
                    return false;
                }
                offset = offset + w;
                i = i + 1;
            }
            true
        },
    }
}

fn greedy_check(hay: &Vec<char>, needle: &Vec<char>) -> (out: bool)
    ensures
        out == greedy_fits(hay@, needle@, 0, None, 0),
{
    let hay_len = hay.len();
    let mut score: usize = 0;
    let mut hidx: usize = 0;
    let mut prev: Option<usize> = None;
    let mut i: usize = 0;
    proof {
        assert(needle@.skip(0) == needle@);
    }
    while i < needle.len()
        invariant
            hay_len == hay@.len(),
            i <= needle@.len(),
            hidx <= hay@.len(),
            greedy_fits(hay@, needle@, 0, None, 0) == greedy_fits(
                hay@,
                needle@.skip(i as int),
                hidx as int,
                opt_int(prev),
                score as int,
            ),
        decreases needle@.len() - i,
    {
        let c = needle[i];
        let ghost start = hidx;
        while hidx < hay_len && hay[hidx] != c
            invariant
                hay_len == hay@.len(),
                start <= hidx <= hay@.len(),
                next_match(hay@, c, start as int) == next_match(hay@, c, hidx as int),
            decreases hay@.len() - hidx,
        {
            hidx = hidx + 1;
        }
        proof {
            assert(needle@.skip(i as int)[0] == c);
            assert(needle@.skip(i as int).drop_first() == needle@.skip(i + 1));
        }
        if hidx == hay_len {
            return true;
        }
        let at_boundary = hidx == 0 || is_boundary(hay[hidx - 1]);
        let consecutive = match prev {
            Some(p) => hidx >= 1 && hidx - 1 == p,
            None => false,
        };
        let bonus = char_bonus(at_boundary, consecutive);
        if score > usize::MAX - bonus {
            return false;
        }
        score = score + bonus;
        prev = Some(hidx);
        hidx = hidx + 1;
        i = i + 1;
    }
    proof {
        assert(needle@.skip(i as int).len() == 0);
    }
    true
}

fn fuzzy_check(haystack: &str, needle: &str) -> (out: bool)
    ensures
        out == fuzzy_fits(haystack@, needle@),
{
    if needle.is_empty() {
        return true;
    }
    let hay_lower = to_lowercase(haystack);
    let needle_lower = to_lowercase(needle);
    let hay_chars = chars_of(hay_lower.as_str());
    let needle_chars = chars_of(needle_lower.as_str());
    if !exact_check(&hay_chars, &needle_chars) {
        return false;
    }
    let exact = exact_match_score(&hay_chars, &needle_chars);
    exact > 0 || greedy_check(&hay_chars, &needle_chars)
}

proof fn lemma_parts_fit_after_none(hay: Seq<char>, parts: Seq<Seq<char>>, i: int, n: int)
    requires
        0 <= i <= n,
        parts_total(hay, parts, i) is None,
        parts_fit(hay, parts, i),
    ensures
        parts_fit(hay, parts, n),
    decreases n - i,
{
    if i < n {
        lemma_parts_fit_after_none(hay, parts, i, n - 1);
        lemma_parts_total_none(hay, parts, i, n - 1);
    }
}

fn parts_check(haystack: &str, parts: &Vec<String>) -> (out: bool)
    ensures
        out == parts_fit(haystack@, parts@.map_values(|p: String| p@), parts@.len() as int),
{
    let ghost ps = parts@.map_values(|p: String| p@);
    let n = parts.len();
    let mut total: usize = 0;
    let mut i: usize = 0;
    while i < n
        invariant
            n == parts@.len(),
            ps == parts@.map_values(|p: String| p@),
            i <= n,
            parts_total(haystack@, ps, i as int) == Some(total as nat),
            parts_fit(haystack@, ps, i as int),
        decreases n - i,
    {
        proof {
            assert(ps[i as int] == parts@[i as int]@);
        }
        if !fuzzy_check(haystack, parts[i].as_str()) {
            proof {
                if parts_fit(haystack@, ps, n as int) {
                    lemma_parts_fit_prefix(haystack@, ps, i + 1, n as int);
                }
            }
            return false;
        }
        let score = fuzzy_score(haystack, parts[i].as_str());
        if score == 0 {
            proof {
                lemma_parts_fit_after_none(haystack@, ps, i + 1, n as int);
            }
            return true;
        }
        if total > usize::MAX - score {
            proof {
                if parts_fit(haystack@, ps, n as int) {
                    lemma_parts_fit_prefix(haystack@, ps, i + 1, n as int);
                }
            }
            return false;
        }
        total = total + score;
        i = i + 1;
    }
    true
}

/// Whether scoring each of `items` against `query` stays within `usize`.
pub fn items_fit(items: &[PaletteItem], query: &str) -> (out: bool)
    ensures
        out == forall|k: int| 0 <= k < items@.len() ==> item_fits(#[trigger] items@[k]@, words(query@)),
{
    let parts = split_words(query);
    let mut i: usize = 0;
    while i < items.len()
        invariant
            i <= items@.len(),
            parts@.map_values(|p: String| p@) == words(query@),
            forall|k: int| 0 <= k < i ==> item_fits(#[trigger] items@[k]@, words(query@)),
        decreases items@.len() - i,
    {
        let hay = item_haystack(&items[i]);
        if !parts_check(hay.as_str(), &parts) {
            return false;
        }
        i = i + 1;
    }
    true
}

/// `filter_items` where its scoring stays within `usize`; `None` where it
/// would not.
pub fn try_filter_items(items: &[PaletteItem], query: &str) -> (out: Option<Vec<PaletteItem>>)
    ensures
        out is None <==> !(forall|k: int|
            0 <= k < items@.len() ==> item_fits(#[trigger] items@[k]@, words(query@))),
        out matches Some(v) ==> {
            &&& words(query@).len() == 0 ==> v@.len() == items@.len() && forall|k: int|
                0 <= k < items@.len() ==> #[trigger] v@[k]@ == items@[k]@
            &&& words(query@).len() > 0 ==> exists|order: Seq<int>|
                {
                    &&& is_ranking(items_view(items@), words(query@), order)
                    &&& order.len() == v@.len()
                    &&& forall|k: int| 0 <= k < order.len() ==> #[trigger] v@[k]@ == items@[order[k]]@
                }
        },
{
    if items_fit(items, query) {
        Some(filter_items(items, query))
    } else {
        None
    }
}

/// `score_item` where scoring stays within `usize`; `None` where it would
/// not.
pub fn try_score_item(item: &PaletteItem, query: &str) -> (out: Option<Option<usize>>)
    ensures
        out is None <==> !item_fits(item@, words(query@)),
        out matches Some(score) ==> opt_nat(score) == item_score(item@, words(query@)),
{
    let one = vec![item.duplicate()];
    if items_fit(one.as_slice(), query) {
        proof {
            assert(one@[0]@ == item@);
        }
        Some(score_item(item, query))
    } else {
        proof {
            assert(one@[0]@ == item@);
        }
        None
    }
}

/// The sum of the scores of the query parts against `hay`.
pub open spec fn score_sum(hay: Seq<char>, parts: Seq<Seq<char>>) -> nat
    decreases parts.len(),
{
    if parts.len() == 0 {
        0
    } else {
        score_sum(hay, parts.drop_last()) + fuzzy_score_spec(hay, parts.last())
    }
}

/// Every query part scores above zero against `hay`.
pub open spec fn all_parts_score(hay: Seq<char>, parts: Seq<Seq<char>>) -> bool {
    forall|k: int| 0 <= k < parts.len() ==> fuzzy_score_spec(hay, #[trigger] parts[k]) > 0
}

proof fn lemma_parts_total_closed(hay: Seq<char>, parts: Seq<Seq<char>>, i: int)
    requires
        0 <= i <= parts.len(),
    ensures
        parts_total(hay, parts, i) == if all_parts_score(hay, parts.take(i)) {
            Some(score_sum(hay, parts.take(i)))
        } else {
            None::<nat>
        },
    decreases i,
{
    if i > 0 {
        lemma_parts_total_closed(hay, parts, i - 1);
        let pre = parts.take(i - 1);
        let cur = parts.take(i);
        assert(cur.drop_last() =~= pre);
        assert(cur.last() == parts[i - 1]);
        if all_parts_score(hay, cur) {
            assert forall|k: int| 0 <= k < pre.len() implies fuzzy_score_spec(hay, #[trigger] pre[k]) > 0 by {
                assert(pre[k] == cur[k]);
            }
        } else {
            if all_parts_score(hay, pre) {
                let k = choose|k: int| 0 <= k < cur.len() && !(fuzzy_score_spec(hay, #[trigger] cur[k]) > 0);
                if k < i - 1 {
                    assert(pre[k] == cur[k]);
                }
            }
        }
    } else {
        assert(parts.take(0) =~= Seq::<Seq<char>>::empty());
    }
}

proof fn lemma_score_sum_remove(hay: Seq<char>, parts: Seq<Seq<char>>, k: int)
    requires
        0 <= k < parts.len(),
    ensures
        score_sum(hay, parts) == score_sum(hay, parts.remove(k)) + fuzzy_score_spec(hay, parts[k]),
    decreases parts.len(),
{
    if k == parts.len() - 1 {
        assert(parts.remove(k) =~= parts.drop_last());
    } else {
        lemma_score_sum_remove(hay, parts.drop_last(), k);
        assert(parts.remove(k).drop_last() =~= parts.drop_last().remove(k));
        assert(parts.remove(k).last() == parts.last());
    }
}

proof fn lemma_score_sum_permutation(hay: Seq<char>, p1: Seq<Seq<char>>, p2: Seq<Seq<char>>)
    requires
        p1.to_multiset() == p2.to_multiset(),
    ensures
        score_sum(hay, p1) == score_sum(hay, p2),
    decreases p1.len(),
{
    broadcast use vstd::seq_lib::group_to_multiset_ensures;
    p1.to_multiset_ensures();
    p2.to_multiset_ensures();
    assert(p1.to_multiset().len() == p1.len());
    assert(p2.to_multiset().len() == p2.len());
    if p1.len() == 0 {
        assert(p2.len() == 0);
    } else {
        let x = p1.last();
        assert(p1.contains(x)) by {
            assert(p1[p1.len() - 1] == x);
        }
        assert(p1.to_multiset().count(x) > 0);
        assert(p2.contains(x));
        let k = choose|k: int| 0 <= k < p2.len() && p2[k] == x;
        let rest1 = p1.drop_last();
        let rest2 = p2.remove(k);
        assert(p1 =~= rest1.push(x));
        assert(rest1.to_multiset() =~= p1.to_multiset().remove(x));
        assert(rest2.to_multiset() =~= p2.to_multiset().remove(p2[k]));
        lemma_score_sum_permutation(hay, rest1, rest2);
        lemma_score_sum_remove(hay, p2, k);
    }
}

proof fn lemma_match_score_permutation(hay: Seq<char>, p1: Seq<Seq<char>>, p2: Seq<Seq<char>>)
    requires
        p1.to_multiset() == p2.to_multiset(),
    ensures
        match_score(hay, p1) == match_score(hay, p2),
{
    broadcast use vstd::seq_lib::group_to_multiset_ensures;
    lemma_parts_total_closed(hay, p1, p1.len() as int);
    lemma_parts_total_closed(hay, p2, p2.len() as int);
    assert(p1.take(p1.len() as int) =~= p1);
    assert(p2.take(p2.len() as int) =~= p2);
    p1.to_multiset_ensures();
    p2.to_multiset_ensures();
    assert(p1.to_multiset().len() == p1.len());
    assert(p2.to_multiset().len() == p2.len());
    assert(p1.len() == p2.len());
    lemma_score_sum_permutation(hay, p1, p2);
    assert(all_parts_score(hay, p1) == all_parts_score(hay, p2)) by {
        if all_parts_score(hay, p1) {
            assert forall|k: int| 0 <= k < p2.len() implies fuzzy_score_spec(hay, #[trigger] p2[k]) > 0 by {
                assert(p2.contains(p2[k]));
                assert(p2.to_multiset().count(p2[k]) > 0);
                assert(p1.to_multiset().count(p2[k]) > 0);
                assert(p1.contains(p2[k]));
            }
        }
        if all_parts_score(hay, p2) {
            assert forall|k: int| 0 <= k < p1.len() implies fuzzy_score_spec(hay, #[trigger] p1[k]) > 0 by {
                assert(p1.contains(p1[k]));
                assert(p1.to_multiset().count(p1[k]) > 0);
                assert(p2.to_multiset().count(p1[k]) > 0);
                assert(p2.contains(p1[k]));
            }
        }
    }
}

/// The query's white-space separated parts commute: parts that are the same
/// up to order (and spacing, which the parts do not hold) give every item
/// the same score, hence the same ranking.
pub proof fn law_query_parts_commute(
    items: Seq<PaletteItemView>,
    p1: Seq<Seq<char>>,
    p2: Seq<Seq<char>>,
    order: Seq<int>,
)
    requires
        p1.to_multiset() == p2.to_multiset(),
    ensures
        forall|j: int| 0 <= j < items.len() ==> #[trigger] item_score(items[j], p1) == item_score(items[j], p2),
        is_ranking(items, p1, order) == is_ranking(items, p2, order),
{
    assert forall|j: int| 0 <= j < items.len() implies #[trigger] item_score(items[j], p1) == item_score(
        items[j],
        p2,
    ) by {
        lemma_match_score_permutation(haystack(items[j]), p1, p2);
    }
    if is_ranking(items, p1, order) {
        lemma_ranking_transfer(items, p1, p2, order);
    }
    if is_ranking(items, p2, order) {
        lemma_ranking_transfer(items, p2, p1, order);
    }
}

proof fn lemma_ranking_transfer(
    items: Seq<PaletteItemView>,
    p1: Seq<Seq<char>>,
    p2: Seq<Seq<char>>,
    order: Seq<int>,
)
    requires
        forall|j: int| 0 <= j < items.len() ==> #[trigger] item_score(items[j], p1) == item_score(items[j], p2),
        is_ranking(items, p1, order),
    ensures
        is_ranking(items, p2, order),
{
    assert forall|k: int| 0 <= k < order.len() implies 0 <= #[trigger] order[k] < items.len()
        && item_score(items[order[k]], p2) is Some by {
        assert(item_score(items[order[k]], p1) is Some);
    }
    assert forall|j: int|
        0 <= j < items.len() && #[trigger] item_score(items[j], p2) is Some implies order.contains(j) by {
        assert(item_score(items[j], p1) is Some);
    }
    assert forall|a: int, b: int| 0 <= a < b < order.len() implies ranks_before(
        items,
        p2,
        #[trigger] order[a],
        #[trigger] order[b],
    ) by {
        assert(ranks_before(items, p1, order[a], order[b]));
        assert(item_score(items[order[a]], p1) == item_score(items[order[a]], p2));
        assert(item_score(items[order[b]], p1) == item_score(items[order[b]], p2));
    }
}

proof fn lemma_ranking_unique_over(
    items: Seq<PaletteItemView>,
    parts: Seq<Seq<char>>,
    o1: Seq<int>,
    o2: Seq<int>,
    members: Set<int>,
)
    requires
        forall|k: int| 0 <= k < o1.len() ==> 0 <= #[trigger] o1[k] < items.len() && members.contains(o1[k]),
        forall|k: int| 0 <= k < o2.len() ==> 0 <= #[trigger] o2[k] < items.len() && members.contains(o2[k]),
        forall|x: int| #[trigger] members.contains(x) ==> o1.contains(x) && o2.contains(x),
        forall|a: int, b: int|
            0 <= a < b < o1.len() ==> ranks_before(items, parts, #[trigger] o1[a], #[trigger] o1[b]),
        forall|a: int, b: int|
            0 <= a < b < o2.len() ==> ranks_before(items, parts, #[trigger] o2[a], #[trigger] o2[b]),
    ensures
        o1 == o2,
    decreases o1.len(),
{
    if o1.len() == 0 {
        if o2.len() > 0 {
            assert(members.contains(o2[0]));
            assert(o1.contains(o2[0]));
        }
        assert(o1 =~= o2);
    } else {
        assert(members.contains(o1[0]));
        assert(o2.contains(o1[0]));
        assert(o2.len() > 0);
        let x = o1[0];
        if o2[0] != x {
            let y = o2[0];
            assert(members.contains(y));
            assert(o1.contains(y));
            let i = choose|i: int| 0 <= i < o1.len() && o1[i] == y;
            let j = choose|j: int| 0 <= j < o2.len() && o2[j] == x;
            assert(i != 0);
            assert(j != 0);
            assert(ranks_before(items, parts, o1[0], o1[i]));
            assert(ranks_before(items, parts, o2[0], o2[j]));
            lemma_ranks_total(items, parts, x, y);
        }
        let rest = members.remove(x);
        let r1 = o1.drop_first();
        let r2 = o2.drop_first();
        assert forall|k: int| 0 <= k < r1.len() implies 0 <= #[trigger] r1[k] < items.len() && rest.contains(
            r1[k],
        ) by {
            assert(r1[k] == o1[k + 1]);
            assert(ranks_before(items, parts, o1[0], o1[k + 1]));
            lemma_ranks_total(items, parts, x, x);
        }
        assert forall|k: int| 0 <= k < r2.len() implies 0 <= #[trigger] r2[k] < items.len() && rest.contains(
            r2[k],
        ) by {
            assert(r2[k] == o2[k + 1]);
            assert(ranks_before(items, parts, o2[0], o2[k + 1]));
            lemma_ranks_total(items, parts, x, x);
        }
        assert forall|z: int| #[trigger] rest.contains(z) implies r1.contains(z) && r2.contains(z) by {
            assert(o1.contains(z));
            assert(o2.contains(z));
            let i = choose|i: int| 0 <= i < o1.len() && o1[i] == z;
            let j = choose|j: int| 0 <= j < o2.len() && o2[j] == z;
            assert(i != 0);
            assert(j != 0);
            assert(r1[i - 1] == z);
            assert(r2[j - 1] == z);
        }
        assert forall|a: int, b: int| 0 <= a < b < r1.len() implies ranks_before(
            items,
            parts,
            #[trigger] r1[a],
            #[trigger] r1[b],
        ) by {
            assert(r1[a] == o1[a + 1] && r1[b] == o1[b + 1]);
        }
        assert forall|a: int, b: int| 0 <= a < b < r2.len() implies ranks_before(
            items,
            parts,
            #[trigger] r2[a],
            #[trigger] r2[b],
        ) by {
            assert(r2[a] == o2[a + 1] && r2[b] == o2[b + 1]);
        }
        lemma_ranking_unique_over(items, parts, r1, r2, rest);
        assert(o1 =~= seq![x] + r1);
        assert(o2 =~= seq![x] + r2);
    }
}

/// There is one ranking of the items for given query parts: two orders that
/// both rank them are the same order, so the filtered list is determined.
pub proof fn law_ranking_is_unique(
    items: Seq<PaletteItemView>,
    parts: Seq<Seq<char>>,
    o1: Seq<int>,
    o2: Seq<int>,
)
    requires
        is_ranking(items, parts, o1),
        is_ranking(items, parts, o2),
    ensures
        o1 == o2,
{
    let members = Set::new(|x: int| 0 <= x < items.len() && item_score(items[x], parts) is Some);
    assert forall|x: int| #[trigger] members.contains(x) implies o1.contains(x) && o2.contains(x) by {
        assert(item_score(items[x], parts) is Some);
    }
    lemma_ranking_unique_over(items, parts, o1, o2, members);
}

proof fn lemma_parts_total_push(hay: Seq<char>, parts: Seq<Seq<char>>, w: Seq<char>, i: int)
    requires
        0 <= i <= parts.len(),
    ensures
        parts_total(hay, parts.push(w), i) == parts_total(hay, parts, i),
    decreases i,
{
    if i > 0 {
        lemma_parts_total_push(hay, parts, w, i - 1);
        assert(parts.push(w)[i - 1] == parts[i - 1]);
    }
}

/// An extra query part never adds a match: an item that matches the parts
/// and one more also matches the parts alone, so a ranking for the longer
/// query lists only items that the ranking for the shorter one lists.
pub proof fn law_extra_part_never_adds_a_match(
    items: Seq<PaletteItemView>,
    parts: Seq<Seq<char>>,
    w: Seq<char>,
    longer: Seq<int>,
    shorter: Seq<int>,
)
    ensures
        forall|j: int|
            0 <= j < items.len() && #[trigger] item_score(items[j], parts.push(w)) is Some
                ==> item_score(items[j], parts) is Some,
        is_ranking(items, parts.push(w), longer) && is_ranking(items, parts, shorter) ==> forall|k: int|
            0 <= k < longer.len() ==> shorter.contains(#[trigger] longer[k]),
{
    assert forall|j: int|
        0 <= j < items.len() && #[trigger] item_score(items[j], parts.push(w)) is Some implies item_score(
        items[j],
        parts,
    ) is Some by {
        let hay = haystack(items[j]);
        lemma_parts_total_push(hay, parts, w, parts.len() as int);
    }
    if is_ranking(items, parts.push(w), longer) && is_ranking(items, parts, shorter) {
        assert forall|k: int| 0 <= k < longer.len() implies shorter.contains(#[trigger] longer[k]) by {
            let j = longer[k];
            assert(item_score(items[j], parts.push(w)) is Some);
        }
    }
}

proof fn lemma_fuzzy_score_recased(hay: Seq<char>, n1: Seq<char>, n2: Seq<char>)
    requires
        ascii_recased(n1, n2),
    ensures
        fuzzy_score_spec(hay, n1) == fuzzy_score_spec(hay, n2),
        fuzzy_fits(hay, n1) == fuzzy_fits(hay, n2),
{
    assert(ascii_lower(n1).len() == n1.len());
    assert(ascii_lower(n2).len() == n2.len());
    assert(folded(n1) == folded(n2));
}

proof fn lemma_parts_recased(hay: Seq<char>, p1: Seq<Seq<char>>, p2: Seq<Seq<char>>, i: int)
    requires
        p1.len() == p2.len(),
        forall|k: int| 0 <= k < p1.len() ==> ascii_recased(#[trigger] p1[k], p2[k]),
        0 <= i <= p1.len(),
    ensures
        parts_total(hay, p1, i) == parts_total(hay, p2, i),
        parts_fit(hay, p1, i) == parts_fit(hay, p2, i),
    decreases i,
{
    if i > 0 {
        lemma_parts_recased(hay, p1, p2, i - 1);
        lemma_fuzzy_score_recased(hay, p1[i - 1], p2[i - 1]);
    }
}

/// Case is ignored in ASCII text: two queries that differ only in the case
/// of ASCII letters have as many parts, give every item the same score,
/// stay within `usize` for the same items, and have the same ranking.
pub proof fn law_ascii_case_is_ignored(
    items: Seq<PaletteItemView>,
    q1: Seq<char>,
    q2: Seq<char>,
    order: Seq<int>,
)
    requires
        ascii_recased(q1, q2),
    ensures
        words(q1).len() == words(q2).len(),
        forall|j: int|
            0 <= j < items.len() ==> #[trigger] item_score(items[j], words(q1)) == item_score(
                items[j],
                words(q2),
            ) && item_fits(items[j], words(q1)) == item_fits(items[j], words(q2)),
        is_ranking(items, words(q1), order) == is_ranking(items, words(q2), order),
{
    let w1 = words(q1);
    let w2 = words(q2);
    lemma_words_recased(q1, q2);
    assert forall|j: int| 0 <= j < items.len() implies #[trigger] item_score(items[j], w1)
        == item_score(items[j], w2) && item_fits(items[j], w1) == item_fits(items[j], w2) by {
        lemma_parts_recased(haystack(items[j]), w1, w2, w1.len() as int);
    }
    if is_ranking(items, w1, order) {
        lemma_ranking_transfer(items, w1, w2, order);
    }
    if is_ranking(items, w2, order) {
        lemma_ranking_transfer(items, w2, w1, order);
    }
}

/// `t` is one of the texts an item is known by: its title, description,
/// category, shortcut or one of its aliases.
pub open spec fn is_item_field(item: PaletteItemView, t: Seq<char>) -> bool {
    ||| t == item.title
    ||| item.description == Some(t)
    ||| item.category == Some(t)
    ||| item.shortcut == Some(t)
    ||| item.aliases.contains(t)
}

/// An optional text is ASCII where it is present.
pub open spec fn opt_ascii(value: Option<Seq<char>>) -> bool {
    match value {
        Some(t) => is_ascii_text(t),
        None => true,
    }
}

/// The title, description, category, shortcut and aliases of the item are
/// ASCII text.
pub open spec fn item_is_ascii(item: PaletteItemView) -> bool {
    &&& is_ascii_text(item.title)
    &&& opt_ascii(item.description)
    &&& opt_ascii(item.category)
    &&& opt_ascii(item.shortcut)
    &&& forall|a: int| 0 <= a < item.aliases.len() ==> is_ascii_text(#[trigger] item.aliases[a])
}

/// `needle` occurs in `hay` when ASCII letters are taken in lowercase.
pub open spec fn occurs_ignoring_ascii_case(hay: Seq<char>, needle: Seq<char>) -> bool {
    exists|k: int| occurs_at(ascii_lower(hay), ascii_lower(needle), k)
}

/// Every query part is ASCII and occurs, ignoring the case of ASCII
/// letters, in the title, description, category, shortcut or an alias of
/// the item.
pub open spec fn parts_found_in_fields(item: PaletteItemView, parts: Seq<Seq<char>>) -> bool {
    forall|k: int|
        0 <= k < parts.len() ==> is_ascii_text(#[trigger] parts[k]) && exists|t: Seq<char>|
            is_item_field(item, t) && occurs_ignoring_ascii_case(t, parts[k])
}

proof fn lemma_join_offset(parts: Seq<Seq<char>>, i: int) -> (off: int)
    requires
        0 <= i < parts.len(),
    ensures
        occurs_at(join_with_space(parts), parts[i], off),
    decreases parts.len(),
{
    let j = join_with_space(parts);
    if parts.len() == 1 {
        assert(j.subrange(0, parts[0].len() as int) =~= parts[0]);
        0
    } else {
        let front = join_with_space(parts.drop_last());
        assert(j == front + seq![' '] + parts.last());
        if i == parts.len() - 1 {
            let o: int = front.len() + 1int;
            assert(j.subrange(o, o + parts[i].len()) =~= parts[i]);
            o
        } else {
            let o = lemma_join_offset(parts.drop_last(), i);
            assert(parts.drop_last()[i] == parts[i]);
            assert(j.subrange(o, o + parts[i].len()) =~= front.subrange(o, o + parts[i].len()));
            o
        }
    }
}

proof fn lemma_join_ascii(parts: Seq<Seq<char>>)
    requires
        forall|i: int| 0 <= i < parts.len() ==> is_ascii_text(#[trigger] parts[i]),
    ensures
        is_ascii_text(join_with_space(parts)),
    decreases parts.len(),
{
    if parts.len() > 1 {
        let front = join_with_space(parts.drop_last());
        assert forall|i: int| 0 <= i < parts.drop_last().len() implies is_ascii_text(
            #[trigger] parts.drop_last()[i],
        ) by {
            assert(parts.drop_last()[i] == parts[i]);
        }
        lemma_join_ascii(parts.drop_last());
        let j = join_with_space(parts);
        assert(j == front + seq![' '] + parts.last());
        assert(is_ascii_text(parts[parts.len() - 1]));
        assert forall|m: int| 0 <= m < j.len() implies (#[trigger] j[m] as u32) < 128 by {
            if m < front.len() {
                assert(j[m] == front[m]);
            } else if m > front.len() {
                assert(j[m] == parts.last()[m - front.len() - 1]);
            }
        }
    } else if parts.len() == 1 {
        assert(is_ascii_text(parts[0]));
    }
}

proof fn lemma_initials_ascii(t: Seq<char>)
    requires
        is_ascii_text(t),
    ensures
        is_ascii_text(initials(t)),
    decreases t.len(),
{
    if t.len() > 0 {
        assert forall|m: int| 0 <= m < t.drop_last().len() implies (#[trigger] t.drop_last()[m] as u32)
            < 128 by {
            assert(t.drop_last()[m] == t[m]);
        }
        lemma_initials_ascii(t.drop_last());
        assert((t[t.len() - 1] as u32) < 128);
    }
}

proof fn lemma_ascii_lower_ascii(s: Seq<char>)
    requires
        is_ascii_text(s),
    ensures
        is_ascii_text(ascii_lower(s)),
        folded(s) == ascii_lower(s),
{
    assert forall|m: int| 0 <= m < ascii_lower(s).len() implies (#[trigger] ascii_lower(s)[m] as u32)
        < 128 by {
        let v = s[m] as u32;
        assert(v < 128);
        if 65 <= v && v <= 90 {
            assert(((v + 32) as char) as u32 == v + 32);
        }
        assert(ascii_lower(s)[m] == ascii_lower_char(s[m]));
    }
}

proof fn lemma_haystack_ascii(item: PaletteItemView)
    requires
        item_is_ascii(item),
    ensures
        is_ascii_text(haystack(item)),
{
    let hp = haystack_parts(item);
    lemma_initials_ascii(item.title);
    lemma_ascii_lower_ascii(initials(item.title));
    let nd = opt_part(item.description).len();
    let nc = opt_part(item.category).len();
    let ns = opt_part(item.shortcut).len();
    let na = item.aliases.len();
    assert forall|i: int| 0 <= i < hp.len() implies is_ascii_text(#[trigger] hp[i]) by {
        if i == 0 {
            assert(hp[i] == item.title);
        } else if i < 1 + nd {
            assert(hp[i] == item.description->0);
        } else if i < 1 + nd + nc {
            assert(hp[i] == item.category->0);
        } else if i < 1 + nd + nc + ns {
            assert(hp[i] == item.shortcut->0);
        } else if i < 1 + nd + nc + ns + na {
            assert(hp[i] == item.aliases[i - 1 - nd - nc - ns]);
        } else {
            assert(hp[i] == auto_alias_spec(item.title));
        }
    }
    lemma_join_ascii(hp);
}

proof fn lemma_field_in_parts(item: PaletteItemView, t: Seq<char>) -> (i: int)
    requires
        is_item_field(item, t),
    ensures
        0 <= i < haystack_parts(item).len(),
        haystack_parts(item)[i] == t,
{
    let hp = haystack_parts(item);
    let nd: int = opt_part(item.description).len() as int;
    let nc: int = opt_part(item.category).len() as int;
    let ns: int = opt_part(item.shortcut).len() as int;
    if t == item.title {
        0
    } else if item.description == Some(t) {
        assert(hp[1] == t);
        1
    } else if item.category == Some(t) {
        assert(hp[1 + nd] == t);
        1 + nd
    } else if item.shortcut == Some(t) {
        assert(hp[1 + nd + nc] == t);
        1 + nd + nc
    } else {
        let a = choose|a: int| 0 <= a < item.aliases.len() && item.aliases[a] == t;
        assert(hp[1 + nd + nc + ns + a] == t);
        1 + nd + nc + ns + a
    }
}

proof fn lemma_next_match_at_most(hay: Seq<char>, c: char, start: int, p: int)
    requires
        0 <= start <= p < hay.len(),
        hay[p] == c,
    ensures
        next_match(hay, c, start) matches Some(j) && start <= j <= p,
    decreases p - start,
{
    if hay[start] != c {
        lemma_next_match_at_most(hay, c, start + 1, p);
    }
}

proof fn lemma_greedy_some(hay: Seq<char>, needle: Seq<char>, start: int, prev: Option<int>, p: int)
    requires
        0 <= start <= p,
        occurs_at(hay, needle, p),
    ensures
        greedy(hay, needle, start, prev) is Some,
    decreases needle.len(),
{
    if needle.len() > 0 {
        assert(hay[p] == hay.subrange(p, p + needle.len())[0]);
        lemma_next_match_at_most(hay, needle[0], start, p);
        let j = next_match(hay, needle[0], start)->0;
        assert(hay.subrange(p + 1, p + 1 + needle.drop_first().len()) =~= needle.drop_first());
        lemma_greedy_some(hay, needle.drop_first(), j + 1, Some(j), p + 1);
    }
}

proof fn lemma_occurrence_scores(hay: Seq<char>, w: Seq<char>, p: int)
    requires
        is_ascii_text(hay),
        is_ascii_text(w),
        occurs_at(ascii_lower(hay), ascii_lower(w), p),
    ensures
        fuzzy_score_spec(hay, w) > 0,
{
    if w.len() > 0 {
        lemma_ascii_lower_ascii(hay);
        lemma_ascii_lower_ascii(w);
        let h = ascii_lower(hay);
        let n = ascii_lower(w);
        if exact_score(h, n) == 0 {
            lemma_greedy_some(h, n, 0, None, p);
        }
    }
}

proof fn lemma_all_parts_total(hay: Seq<char>, parts: Seq<Seq<char>>, i: int)
    requires
        0 <= i <= parts.len(),
        forall|k: int| 0 <= k < parts.len() ==> fuzzy_score_spec(hay, #[trigger] parts[k]) > 0,
    ensures
        parts_total(hay, parts, i) is Some,
    decreases i,
{
    if i > 0 {
        lemma_all_parts_total(hay, parts, i - 1);
        assert(fuzzy_score_spec(hay, parts[i - 1]) > 0);
    }
}

/// Every text of an item is searched. The searched text holds the title,
/// description, category, shortcut and each alias of the item; and for an
/// item and query parts in ASCII, when each part occurs (ignoring the case
/// of ASCII letters) in one of those texts, the item matches the query.
pub proof fn law_every_field_is_searched(item: PaletteItemView, parts: Seq<Seq<char>>)
    ensures
        forall|t: Seq<char>| #[trigger] is_item_field(item, t) ==> exists|k: int| occurs_at(haystack(item), t, k),
        item_is_ascii(item) && parts_found_in_fields(item, parts) ==> item_score(item, parts) is Some,
{
    let hay = haystack(item);
    assert forall|t: Seq<char>| #[trigger] is_item_field(item, t) implies exists|k: int| occurs_at(hay, t, k) by {
        let i = lemma_field_in_parts(item, t);
        let off = lemma_join_offset(haystack_parts(item), i);
        assert(occurs_at(hay, t, off));
    }
    if item_is_ascii(item) && parts_found_in_fields(item, parts) {
        lemma_haystack_ascii(item);
        assert forall|k: int| 0 <= k < parts.len() implies fuzzy_score_spec(hay, #[trigger] parts[k]) > 0 by {
            let w = parts[k];
            let t = choose|t: Seq<char>| is_item_field(item, t) && occurs_ignoring_ascii_case(t, w);
            let q = choose|q: int| occurs_at(ascii_lower(t), ascii_lower(w), q);
            let i = lemma_field_in_parts(item, t);
            let off = lemma_join_offset(haystack_parts(item), i);
            let lh = ascii_lower(hay);
            let lw = ascii_lower(w);
            assert(lh.subrange(off, off + t.len()) =~= ascii_lower(hay.subrange(off, off + t.len())));
            assert(hay.subrange(off, off + t.len()) == t);
            assert(lh.subrange(off + q, off + q + lw.len()) =~= ascii_lower(t).subrange(q, q + lw.len()));
            assert(occurs_at(lh, lw, off + q));
            lemma_occurrence_scores(hay, w, off + q);
        }
        lemma_all_parts_total(hay, parts, parts.len() as int);
        assert(match_score(hay, parts) is Some);
        assert(item_score(item, parts) is Some);
    }
}

} // verus!
