//! Escaping for KDL quoted string values.
use vstd::prelude::*;
use crate::text::{chars_of, push_char};

verus! {

/// The escaped form of one character inside a KDL quoted string.
pub open spec fn escape_char(c: char) -> Seq<char> {
    if c == '\\' {
        seq!['\\', '\\']
    } else if c == '"' {
        seq!['\\', '"']
    } else {
        seq![c]
    }
}

/// The escaped form of a whole string: each character escaped in turn.
pub open spec fn escape_seq(s: Seq<char>) -> Seq<char>
    decreases s.len(),
{
    if s.len() == 0 {
        Seq::empty()
    } else {
        escape_seq(s.drop_last()) + escape_char(s.last())
    }
}

/// Escapes `"` and `\` so that `input` can stand inside a KDL quoted string.
pub fn escape_kdl_string(input: &str) -> (out: String)
    ensures
        out@ == escape_seq(input@),
{
    let chars = chars_of(input);
    let mut out = String::new();
    let mut i: usize = 0;
    while i < chars.len()
        invariant
            chars@ == input@,
            i <= chars@.len(),
            out@ == escape_seq(chars@.take(i as int)),
        decreases chars@.len() - i,
    {
        let ch = chars[i];
        proof {
            assert(chars@.take(i + 1).drop_last() == chars@.take(i as int));
        }
        if ch == '\\' {
            push_char(&mut out, '\\');
            push_char(&mut out, '\\');
        } else if ch == '"' {
            push_char(&mut out, '\\');
            push_char(&mut out, '"');
        } else {
            push_char(&mut out, ch);
        }
        i = i + 1;
    }
    proof {
        assert(chars@.take(chars@.len() as int) == chars@);
    }
    out
}

/// How a KDL reader takes the body of a quoted string: a backslash takes
/// the next character literally; a bare `"` ends the string early, so the
/// body is rejected (`None`).
pub open spec fn read_quoted_body(s: Seq<char>) -> Option<Seq<char>>
    decreases s.len(),
{
    if s.len() == 0 {
        Some(Seq::empty())
    } else if s[0] == '\\' {
        if s.len() < 2 {
            None
        } else {
            match read_quoted_body(s.skip(2)) {
                Some(rest) => Some(seq![s[1]] + rest),
                None => None,
            }
        }
    } else if s[0] == '"' {
        None
    } else {
        match read_quoted_body(s.drop_first()) {
            Some(rest) => Some(seq![s[0]] + rest),
            None => None,
        }
    }
}

proof fn lemma_escape_append(a: Seq<char>, b: Seq<char>)
    ensures
        escape_seq(a + b) == escape_seq(a) + escape_seq(b),
    decreases b.len(),
{
    if b.len() == 0 {
        assert(a + b =~= a);
        assert(escape_seq(b) =~= Seq::<char>::empty());
        assert(escape_seq(a) + escape_seq(b) =~= escape_seq(a));
    } else {
        lemma_escape_append(a, b.drop_last());
        assert((a + b).drop_last() =~= a + b.drop_last());
        assert((a + b).last() == b.last());
        assert(escape_seq(a + b) =~= escape_seq(a) + escape_seq(b));
    }
}

proof fn lemma_escape_single(c: char)
    ensures
        escape_seq(seq![c]) == escape_char(c),
{
    let one = seq![c];
    assert(one.drop_last() =~= Seq::<char>::empty());
    assert(one.last() == c);
    assert(escape_seq(one.drop_last()) =~= Seq::<char>::empty());
    assert(escape_seq(one) == escape_seq(one.drop_last()) + escape_char(c));
    assert(Seq::<char>::empty() + escape_char(c) =~= escape_char(c));
}

/// Escaping never lets a value out of its quotes: a KDL reader takes the
/// escaped text back as exactly the value that was escaped, whatever `"` or `\`
/// the value holds.
pub proof fn law_escaped_value_reads_back(s: Seq<char>)
    ensures
        read_quoted_body(escape_seq(s)) == Some(s),
    decreases s.len(),
{
    if s.len() > 0 {
        let rest = s.drop_first();
        law_escaped_value_reads_back(rest);
        assert(s =~= seq![s[0]] + rest);
        lemma_escape_append(seq![s[0]], rest);
        lemma_escape_single(s[0]);
        let e = escape_seq(s);
        if s[0] == '\\' || s[0] == '"' {
            assert(e.skip(2) =~= escape_seq(rest));
            assert(seq![e[1]] + rest =~= s);
        } else {
            assert(e.drop_first() =~= escape_seq(rest));
            assert(seq![e[0]] + rest =~= s);
        }
    } else {
        assert(escape_seq(s) =~= Seq::<char>::empty());
        assert(s =~= Seq::<char>::empty());
    }
}

/// Whether escaping adds a backslash before `c`.
pub open spec fn needs_escape(c: char) -> bool {
    c == '\\' || c == '"'
}

/// How many characters of `s` escaping prefixes with a backslash.
pub open spec fn escaped_count(s: Seq<char>) -> nat
    decreases s.len(),
{
    if s.len() == 0 {
        0
    } else {
        escaped_count(s.drop_last()) + if needs_escape(s.last()) {
            1nat
        } else {
            0nat
        }
    }
}

/// The length of the run of backslashes just before position `i` of `r`.
pub open spec fn backslashes_before(r: Seq<char>, i: int) -> nat
    decreases i,
{
    if i <= 0 || i > r.len() || r[i - 1] != '\\' {
        0
    } else {
        1 + backslashes_before(r, i - 1)
    }
}

proof fn lemma_backslashes_prefix(r: Seq<char>, x: Seq<char>, i: int)
    requires
        0 <= i <= r.len(),
    ensures
        backslashes_before(r + x, i) == backslashes_before(r, i),
    decreases i,
{
    if i > 0 {
        assert((r + x)[i - 1] == r[i - 1]);
        lemma_backslashes_prefix(r, x, i - 1);
    }
}

/// Escaping adds exactly one character per quote or backslash, leaves a
/// text without them as it is, and puts every quote of its result after an
/// odd run of backslashes, so that no quote of the result ends the string.
pub proof fn law_escape_shape(s: Seq<char>)
    ensures
        escape_seq(s).len() == s.len() + escaped_count(s),
        escaped_count(s) == 0 ==> escape_seq(s) == s,
        forall|i: int|
            0 <= i < escape_seq(s).len() && escape_seq(s)[i] == '"' ==> #[trigger] backslashes_before(
                escape_seq(s),
                i,
            ) % 2 == 1,
        backslashes_before(escape_seq(s), escape_seq(s).len() as int) % 2 == 0,
    decreases s.len(),
{
    if s.len() > 0 {
        let rest = s.drop_last();
        let c = s.last();
        law_escape_shape(rest);
        let r = escape_seq(rest);
        let x = escape_char(c);
        let r2 = escape_seq(s);
        assert(r2 == r + x);
        if escaped_count(s) == 0 {
            assert(escape_seq(s) =~= rest.push(c));
            assert(rest.push(c) =~= s);
        }
        assert forall|i: int|
            0 <= i < r2.len() && r2[i] == '"' implies #[trigger] backslashes_before(r2, i) % 2 == 1 by {
            if i < r.len() {
                lemma_backslashes_prefix(r, x, i);
                assert(r[i] == r2[i]);
            } else {
                lemma_backslashes_prefix(r, x, r.len() as int);
                assert(c == '"');
                assert(i == r.len() + 1);
                assert(backslashes_before(r2, i) == 1 + backslashes_before(r2, r.len() as int));
            }
        }
        lemma_backslashes_prefix(r, x, r.len() as int);
        if c == '\\' {
            assert(r2[r.len() as int] == '\\');
            assert(r2[r.len() as int + 1] == '\\');
            assert(backslashes_before(r2, r.len() as int + 1) == 1 + backslashes_before(r2, r.len() as int));
            assert(backslashes_before(r2, r.len() as int + 2) == 2 + backslashes_before(r2, r.len() as int));
        } else if c == '"' {
            assert(r2[r.len() as int + 1] == '"');
        } else {
            assert(r2[r.len() as int] == c);
        }
    } else {
        assert(escape_seq(s) =~= s);
    }
}

} // verus!
