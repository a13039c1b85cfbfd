//! Splitting byte text into lines, whitespace-separated tokens, and
//! colon-space separated segments.
//!
//! Line splitting follows the usual text convention: lines end at a line feed,
//! and a carriage return immediately before the line feed is not part of the
//! line.  A final line needs no terminator, and a terminator on the last line
//! does not produce an empty line after it.
//!
//! Token splitting treats as a separator every Unicode white-space character,
//! given here by its UTF-8 encoding: the ASCII white-space bytes and the
//! multi-byte encodings of U+0085, U+00A0, U+1680, U+2000..U+200A, U+2028,
//! U+2029, U+202F, U+205F and U+3000.

use vstd::prelude::*;

verus! {

/// Whether `b` is an ASCII white-space byte (tab, line feed, vertical tab,
/// form feed, carriage return, space).
pub open spec fn is_ascii_whitespace(b: u8) -> bool {
    b == 9 || b == 10 || b == 11 || b == 12 || b == 13 || b == 32
}

/// Length in bytes of the white-space character starting at `s[i]`, or 0 if
/// no white-space character starts there.
pub open spec fn whitespace_len(s: Seq<u8>, i: int) -> int {
    if i < 0 || i >= s.len() {
        0
    } else if is_ascii_whitespace(s[i]) {
        1
    } else if i + 2 <= s.len() && s[i] == 0xc2 && (s[i + 1] == 0x85 || s[i + 1] == 0xa0) {
        2
    } else if i + 3 <= s.len() && s[i] == 0xe1 && s[i + 1] == 0x9a && s[i + 2] == 0x80 {
        3
    } else if i + 3 <= s.len() && s[i] == 0xe2 && s[i + 1] == 0x80 && (0x80 <= s[i + 2] <= 0x8a
        || s[i + 2] == 0xa8 || s[i + 2] == 0xa9 || s[i + 2] == 0xaf) {
        3
    } else if i + 3 <= s.len() && s[i] == 0xe2 && s[i + 1] == 0x81 && s[i + 2] == 0x9f {
        3
    } else if i + 3 <= s.len() && s[i] == 0xe3 && s[i + 1] == 0x80 && s[i + 2] == 0x80 {
        3
    } else {
        0
    }
}

/// The white-space separated tokens of `s` from position `i` on, where `cur`
/// is the token in progress (empty if none).
pub open spec fn tokens_from(s: Seq<u8>, i: int, cur: Seq<u8>) -> Seq<Seq<u8>>
    decreases s.len() - i,
{
    if i < 0 || i >= s.len() {
        if cur.len() == 0 {
            Seq::empty()
        } else {
            seq![cur]
        }
    } else if whitespace_len(s, i) != 0 {
        let rest = tokens_from(s, i + whitespace_len(s, i), Seq::empty());
        if cur.len() == 0 {
            rest
        } else {
            seq![cur] + rest
        }
    } else {
        tokens_from(s, i + 1, cur + seq![s[i]])
    }
}

/// The white-space separated tokens of `s`, in order, each non-empty.
pub open spec fn tokens(s: Seq<u8>) -> Seq<Seq<u8>> {
    tokens_from(s, 0, Seq::empty())
}

/// `l` without a final carriage return, if it has one.
pub open spec fn chomp_cr(l: Seq<u8>) -> Seq<u8> {
    if l.len() > 0 && l[l.len() - 1] == 13 {
        l.drop_last()
    } else {
        l
    }
}

/// The lines of `s` from position `i` on, where `cur` holds the bytes of the
/// line in progress.
pub open spec fn lines_from(s: Seq<u8>, i: int, cur: Seq<u8>) -> Seq<Seq<u8>>
    decreases s.len() - i,
{
    if i < 0 || i >= s.len() {
        if cur.len() == 0 {
            Seq::empty()
        } else {
            seq![cur]
        }
    } else if s[i] == 10 {
        seq![chomp_cr(cur)] + lines_from(s, i + 1, Seq::empty())
    } else {
        lines_from(s, i + 1, cur + seq![s[i]])
    }
}

/// The lines of `s`.
pub open spec fn lines(s: Seq<u8>) -> Seq<Seq<u8>> {
    lines_from(s, 0, Seq::empty())
}

/// Position of the first colon-space pair at or after `i`, or `s.len()` if
/// there is none.
pub open spec fn find_sep(s: Seq<u8>, i: int) -> int
    decreases s.len() - i,
{
    if i < 0 || i + 2 > s.len() {
        s.len() as int
    } else if s[i] == 58 && s[i + 1] == 32 {
        i
    } else {
        find_sep(s, i + 1)
    }
}

/// Whether `s` contains a colon-space pair.
pub open spec fn has_sep(s: Seq<u8>) -> bool {
    find_sep(s, 0) + 2 <= s.len()
}

/// The second of the colon-space separated segments of `s`: the bytes between
/// the first colon-space pair and the next one (or the end of `s`).
pub open spec fn sep_value(s: Seq<u8>) -> Seq<u8>
    recommends
        has_sep(s),
{
    let p = find_sep(s, 0);
    s.subrange(p + 2, find_sep(s, p + 2))
}

/// Exec mirror of [`whitespace_len`].
pub fn whitespace_width(s: &[u8], i: usize) -> (w: usize)
    requires
        i < s@.len(),
    ensures
        w == whitespace_len(s@, i as int),
        i + w <= s@.len(),
{
    let b = s[i];
    let rest = s.len() - i;
    if b == 9 || b == 10 || b == 11 || b == 12 || b == 13 || b == 32 {
        1
    } else if rest >= 2 && b == 0xc2 && (s[i + 1] == 0x85 || s[i + 1] == 0xa0) {
        2
    } else if rest >= 3 && b == 0xe1 && s[i + 1] == 0x9a && s[i + 2] == 0x80 {
        3
    } else if rest >= 3 && b == 0xe2 && s[i + 1] == 0x80 && (0x80 <= s[i + 2] && s[i + 2] <= 0x8a
        || s[i + 2] == 0xa8 || s[i + 2] == 0xa9 || s[i + 2] == 0xaf) {
        3
    } else if rest >= 3 && b == 0xe2 && s[i + 1] == 0x81 && s[i + 2] == 0x9f {
        3
    } else if rest >= 3 && b == 0xe3 && s[i + 1] == 0x80 && s[i + 2] == 0x80 {
        3
    } else {
        0
    }
}

/// The view of each element of a vector of byte vectors.
pub open spec fn views(v: Seq<Vec<u8>>) -> Seq<Seq<u8>> {
    v.map_values(|e: Vec<u8>| e@)
}

/// Splits `s` into its white-space separated tokens.
pub fn split_tokens(s: &[u8]) -> (r: Vec<Vec<u8>>)
    ensures
        views(r@) == tokens(s@),
{
    let mut r: Vec<Vec<u8>> = Vec::new();
    let mut cur: Vec<u8> = Vec::new();
    let mut i: usize = 0;
    while i < s.len()
        invariant
            i <= s@.len(),
            tokens(s@) == views(r@) + tokens_from(s@, i as int, cur@),
        decreases s.len() - i,
    {
        let w = whitespace_width(s, i);
        let ghost gi = i as int;
        let ghost gcur = cur@;
        if w != 0 {
            assert(tokens_from(s@, gi, gcur) == (if gcur.len() == 0 {
                tokens_from(s@, gi + w, Seq::<u8>::empty())
            } else {
                seq![gcur] + tokens_from(s@, gi + w, Seq::<u8>::empty())
            }));
            if cur.len() != 0 {
                let ghost prev = r@;
                r.push(cur);
                assert(views(r@) =~= views(prev).push(r@[r@.len() - 1]@));
                cur = Vec::new();
            }
            assert(cur@ =~= Seq::<u8>::empty());
            i = i + w;
        } else {
            let ghost prev_cur = cur@;
            cur.push(s[i]);
            assert(cur@ =~= prev_cur + seq![s@[i as int]]);
            i = i + 1;
        }
        assert(tokens(s@) =~= views(r@) + tokens_from(s@, i as int, cur@));
    }
    if cur.len() != 0 {
        let ghost prev = r@;
        r.push(cur);
        assert(views(r@) =~= views(prev).push(r@[r@.len() - 1]@));
    }
    assert(views(r@) =~= tokens(s@));
    r
}

/// Splits `s` into its lines.
pub fn split_lines(s: &[u8]) -> (r: Vec<Vec<u8>>)
    ensures
        views(r@) == lines(s@),
{
    let mut r: Vec<Vec<u8>> = Vec::new();
    let mut cur: Vec<u8> = Vec::new();
    let mut i: usize = 0;
    while i < s.len()
        invariant
            i <= s@.len(),
            lines(s@) == views(r@) + lines_from(s@, i as int, cur@),
        decreases s.len() - i,
    {
        let b = s[i];
        if b == 10 {
            let ghost whole = cur@;
            if cur.len() > 0 && cur[cur.len() - 1] == 13 {
                cur.pop();
            }
            assert(cur@ =~= chomp_cr(whole));
            let ghost prev = r@;
            r.push(cur);
            assert(views(r@) =~= views(prev).push(r@[r@.len() - 1]@));
            cur = Vec::new();
        } else {
            let ghost prev_cur = cur@;
            cur.push(b);
            assert(cur@ =~= prev_cur + seq![s@[i as int]]);
        }
        i = i + 1;
        assert(lines(s@) =~= views(r@) + lines_from(s@, i as int, cur@));
    }
    if cur.len() != 0 {
        let ghost prev = r@;
        r.push(cur);
        assert(views(r@) =~= views(prev).push(r@[r@.len() - 1]@));
    }
    assert(views(r@) =~= lines(s@));
    r
}

/// Finds the first colon-space pair at or after `from`, mirroring
/// [`find_sep`].
pub fn find_separator(s: &[u8], from: usize) -> (p: usize)
    requires
        from <= s@.len(),
    ensures
        p == find_sep(s@, from as int),
        from <= p <= s@.len(),
        p + 2 <= s@.len() ==> s@[p as int] == 58 && s@[p as int + 1] == 32,
    decreases s@.len() - from,
{
    if s.len() - from < 2 {
        assert(find_sep(s@, from as int) == s@.len());
        s.len()
    } else if s[from] == 58 && s[from + 1] == 32 {
        from
    } else {
        find_separator(s, from + 1)
    }
}

/// The value carried by a header line: the segment between the first
/// colon-space pair and the next, per [`sep_value`]; `None` when the line has
/// no colon-space pair.
pub fn separator_value(s: &[u8]) -> (r: Option<Vec<u8>>)
    ensures
        match r {
            Some(v) => has_sep(s@) && v@ == sep_value(s@),
            None => !has_sep(s@),
        },
{
    let p = find_separator(s, 0);
    if s.len() - p < 2 {
        return None;
    }
    let q = find_separator(s, p + 2);
    Some(crate::text::copy_range(s, p + 2, q))
}

} // verus!
