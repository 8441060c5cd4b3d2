//! Plain text helpers: trimming white space.

use vstd::prelude::*;

verus! {

/// Whether the character has the Unicode `White_Space` property, the
/// white space that `str::trim` removes.
pub open spec fn is_white_space(c: char) -> bool {
    let u = c as u32;
    (0x09 <= u <= 0x0d) || u == 0x20 || u == 0x85 || u == 0xa0 || u == 0x1680 || (0x2000 <= u <= 0x200a) || u
        == 0x2028 || u == 0x2029 || u == 0x202f || u == 0x205f || u == 0x3000
}

/// Whether the character is white space, as `is_white_space` defines it.
pub fn white_space(c: char) -> (b: bool)
    ensures
        b == is_white_space(c),
{
    let u = c as u32;
    (0x09 <= u && u <= 0x0d) || u == 0x20 || u == 0x85 || u == 0xa0 || u == 0x1680 || (0x2000 <= u && u <= 0x200a)
        || u == 0x2028 || u == 0x2029 || u == 0x202f || u == 0x205f || u == 0x3000
}

/// The text without its leading white space.
pub open spec fn trim_start(s: Seq<char>) -> Seq<char>
    decreases s.len(),
{
    if s.len() > 0 && is_white_space(s[0]) {
        trim_start(s.drop_first())
    } else {
        s
    }
}

/// The text without its trailing white space.
pub open spec fn trim_end(s: Seq<char>) -> Seq<char>
    decreases s.len(),
{
    if s.len() > 0 && is_white_space(s.last()) {
        trim_end(s.drop_last())
    } else {
        s
    }
}

/// The text without leading and trailing white space.
pub open spec fn trimmed(s: Seq<char>) -> Seq<char> {
    trim_end(trim_start(s))
}

proof fn lemma_trim_start_first(s: Seq<char>)
    ensures
        trim_start(s).len() > 0 ==> !is_white_space(trim_start(s)[0]),
        trim_start(s).len() <= s.len(),
        trim_start(s) == s.subrange(s.len() - trim_start(s).len(), s.len() as int),
    decreases s.len(),
{
    if s.len() > 0 && is_white_space(s[0]) {
        lemma_trim_start_first(s.drop_first());
        assert(s.drop_first().subrange(s.len() - 1 - trim_start(s).len(), s.len() - 1)
            =~= s.subrange(s.len() - trim_start(s).len(), s.len() as int));
    } else {
        assert(s.subrange(0, s.len() as int) =~= s);
    }
}

proof fn lemma_trim_end_last(s: Seq<char>)
    ensures
        trim_end(s).len() > 0 ==> !is_white_space(trim_end(s).last()),
        trim_end(s).len() <= s.len(),
        trim_end(s) == s.subrange(0, trim_end(s).len() as int),
        s.len() > 0 && !is_white_space(s[0]) ==> trim_end(s).len() > 0 && trim_end(s)[0] == s[0],
    decreases s.len(),
{
    if s.len() > 0 && is_white_space(s.last()) {
        lemma_trim_end_last(s.drop_last());
        assert(s.drop_last().subrange(0, trim_end(s).len() as int) =~= s.subrange(0, trim_end(s).len() as int));
        if s.len() > 0 && !is_white_space(s[0]) {
            assert(s.drop_last()[0] == s[0]);
        }
    } else {
        assert(s.subrange(0, s.len() as int) =~= s);
    }
}

/// Trimmed text neither starts nor ends with white space.
pub proof fn lemma_trimmed_has_no_outer_space(s: Seq<char>)
    ensures
        trimmed(s).len() > 0 ==> !is_white_space(trimmed(s)[0]) && !is_white_space(trimmed(s).last()),
{
    lemma_trim_start_first(s);
    lemma_trim_end_last(trim_start(s));
}

/// Trimming twice gives what trimming once gives.
pub proof fn lemma_trim_idempotent(s: Seq<char>)
    ensures
        trimmed(trimmed(s)) == trimmed(s),
{
    let t = trimmed(s);
    lemma_trimmed_has_no_outer_space(s);
    assert(trim_start(t) == t);
    assert(trim_end(t) == t);
}

/// The text without leading and trailing white space.
pub fn trim(s: &str) -> (r: String)
    ensures
        r@ == trimmed(s@),
{
    let n = s.unicode_len();
    let ghost t = s@;
    let mut start: usize = 0;
    assert(t.subrange(0, n as int) =~= t);
    while start < n && white_space(s.get_char(start))
        invariant
            n == t.len(),
            t == s@,
            start <= n,
            trim_start(t) == trim_start(t.subrange(start as int, n as int)),
        decreases n - start,
    {
        assert(t.subrange(start as int, n as int).drop_first() =~= t.subrange(start + 1, n as int));
        start += 1;
    }
    let mut end: usize = n;
    assert(trim_start(t) == t.subrange(start as int, n as int)) by {
        if start < n {
            assert(t.subrange(start as int, n as int)[0] == t[start as int]);
        }
    }
    while end > start && white_space(s.get_char(end - 1))
        invariant
            n == t.len(),
            t == s@,
            start <= end <= n,
            trimmed(t) == trim_end(t.subrange(start as int, end as int)),
        decreases end - start,
    {
        assert(t.subrange(start as int, end as int).drop_last() =~= t.subrange(start as int, end - 1));
        assert(t.subrange(start as int, end as int).last() == t[end - 1]);
        end -= 1;
    }
    assert(trimmed(t) == t.subrange(start as int, end as int)) by {
        if end > start {
            assert(t.subrange(start as int, end as int).last() == t[end - 1]);
        }
    }
    let r = s.substring_char(start, end);
    r.to_owned()
}

} // verus!
