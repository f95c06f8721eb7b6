//! The tokenizer and the character-level text helpers.
//!
//! Calendar text is split on line terminators into an ordered sequence of
//! records; both CRLF- and LF-terminated lines are accepted, and a final
//! fragment without a terminator is a record of its own.  Continuation lines
//! are not merged: a line starting with whitespace is a record like any
//! other.  `lines_crlf` is the inverse spelling the serializer uses, and
//! the lemmas at the end tie the two together.

use vstd::prelude::*;

verus! {

/// The index of the first occurrence of `c` in `s`; the length of `s` when
/// `c` does not occur.
pub open spec fn first_ix(s: Seq<char>, c: char) -> int
    decreases s.len(),
{
    if s.len() == 0 {
        0
    } else if s[0] == c {
        0
    } else {
        1 + first_ix(s.drop_first(), c)
    }
}

pub proof fn lemma_first_ix_bounds(s: Seq<char>, c: char)
    ensures
        0 <= first_ix(s, c) <= s.len(),
        first_ix(s, c) < s.len() ==> s[first_ix(s, c)] == c,
        forall|k: int| 0 <= k < first_ix(s, c) ==> s[k] != c,
    decreases s.len(),
{
    if s.len() > 0 && s[0] != c {
        lemma_first_ix_bounds(s.drop_first(), c);
        assert(forall|k: int| 1 <= k < first_ix(s, c) ==> s[k] == s.drop_first()[k - 1]);
    }
}

/// Pins `first_ix` down: where everything before `k` differs from `c` and
/// `k` (if in range) holds `c`, the first occurrence is `k`.
pub proof fn lemma_first_ix_is(s: Seq<char>, c: char, k: int)
    requires
        0 <= k <= s.len(),
        forall|m: int| 0 <= m < k ==> s[m] != c,
        k < s.len() ==> s[k] == c,
    ensures
        first_ix(s, c) == k,
    decreases k,
{
    if s.len() == 0 {
    } else if k == 0 {
        if s[0] != c {
            lemma_first_ix_bounds(s, c);
        }
    } else {
        assert(s[0] != c);
        assert(s.drop_first().len() == s.len() - 1);
        assert(forall|m: int| 0 <= m < k - 1 ==> s.drop_first()[m] == s[m + 1]);
        assert(k - 1 < s.drop_first().len() ==> s.drop_first()[k - 1] == s[k]);
        lemma_first_ix_is(s.drop_first(), c, k - 1);
    }
}

/// Finds the first occurrence of `c`, yielding the length when there is
/// none.
pub fn find_char(s: &str, c: char) -> (j: usize)
    ensures
        j as int == first_ix(s@, c),
        j <= s@.len(),
{
    let n = s.unicode_len();
    let mut j: usize = 0;
    while j < n && s.get_char(j) != c
        invariant
            j <= n,
            n == s@.len(),
            forall|k: int| 0 <= k < j ==> s@[k] != c,
        decreases n - j,
    {
        j += 1;
    }
    proof {
        lemma_first_ix_is(s@, c, j as int);
    }
    j
}

/// Character-by-character string equality.
pub fn str_eq(a: &str, b: &str) -> (r: bool)
    ensures
        r == (a@ == b@),
{
    let n = a.unicode_len();
    let m = b.unicode_len();
    if n != m {
        return false;
    }
    let mut i: usize = 0;
    while i < n
        invariant
            i <= n,
            n == a@.len(),
            n == b@.len(),
            forall|k: int| 0 <= k < i ==> a@[k] == b@[k],
        decreases n - i,
    {
        if a.get_char(i) != b.get_char(i) {
            return false;
        }
        i += 1;
    }
    proof {
        assert(a@ =~= b@);
    }
    true
}

/// Whether `s` begins with `p`.
pub fn str_starts_with(s: &str, p: &str) -> (r: bool)
    ensures
        r == (s@.len() >= p@.len() && s@.take(p@.len() as int) == p@),
{
    let n = s.unicode_len();
    let m = p.unicode_len();
    if n < m {
        return false;
    }
    let mut i: usize = 0;
    while i < m
        invariant
            i <= m,
            m == p@.len(),
            m <= n == s@.len(),
            forall|k: int| 0 <= k < i ==> s@[k] == p@[k],
        decreases m - i,
    {
        if s.get_char(i) != p.get_char(i) {
            proof {
                assert(s@.take(m as int)[i as int] == s@[i as int]);
            }
            return false;
        }
        i += 1;
    }
    proof {
        assert(s@.take(m as int) =~= p@);
    }
    true
}

/// A record with its line terminator removed: one trailing carriage return
/// goes with the line feed the split consumed.
pub open spec fn strip_cr(l: Seq<char>) -> Seq<char> {
    if l.len() > 0 && l[l.len() - 1] == '\r' {
        l.drop_last()
    } else {
        l
    }
}

/// The ordered record sequence of a text: split on line feeds, one trailing
/// carriage return per record removed, a last unterminated fragment kept.
pub open spec fn spec_records(s: Seq<char>) -> Seq<Seq<char>>
    decreases s.len(),
{
    if s.len() == 0 {
        Seq::empty()
    } else {
        let j = first_ix(s, '\n');
        if 0 <= j < s.len() {
            seq![strip_cr(s.take(j))] + spec_records(s.skip(j + 1))
        } else {
            seq![strip_cr(s)]
        }
    }
}

/// Splits text into its records.
pub fn tokenize(s: &str) -> (r: Vec<String>)
    ensures
        r.deep_view() == spec_records(s@),
{
    let n = s.unicode_len();
    let mut out: Vec<String> = Vec::new();
    let mut i: usize = 0;
    proof {
        assert(s@.skip(0) =~= s@);
        assert(out.deep_view() + spec_records(s@) =~~= spec_records(s@));
    }
    while i < n
        invariant
            i <= n,
            n == s@.len(),
            out.deep_view() + spec_records(s@.skip(i as int)) == spec_records(s@),
        decreases n - i,
    {
        let mut j = i;
        while j < n && s.get_char(j) != '\n'
            invariant
                i <= j <= n,
                n == s@.len(),
                forall|k: int| i <= k < j ==> s@[k] != '\n',
            decreases n - j,
        {
            j += 1;
        }
        let mut end = j;
        if end > i && s.get_char(end - 1) == '\r' {
            end -= 1;
        }
        let line = s.substring_char(i, end).to_owned();
        let ghost old_out = out.deep_view();
        out.push(line);
        proof {
            let t = s@.skip(i as int);
            assert(forall|m: int| 0 <= m < t.len() ==> t[m] == s@[i + m]);
            assert(out.deep_view() =~~= old_out.push(line@));
            if j < n {
                lemma_first_ix_is(t, '\n', j - i);
                assert(strip_cr(t.take(j - i)) =~= line@);
                assert(t.skip(j - i + 1) =~= s@.skip(j + 1));
                assert(spec_records(t) == seq![line@] + spec_records(s@.skip(j + 1)));
                assert(old_out.push(line@) + spec_records(s@.skip(j + 1)) =~~= old_out + (seq![
                    line@,
                ] + spec_records(s@.skip(j + 1))));
            } else {
                lemma_first_ix_is(t, '\n', t.len() as int);
                assert(strip_cr(t) =~= line@);
                assert(spec_records(t) == seq![line@]);
                assert(s@.skip(n as int) =~= Seq::<char>::empty());
                assert(old_out.push(line@) + spec_records(s@.skip(n as int)) =~~= old_out + seq![
                    line@,
                ]);
            }
        }
        if j < n {
            i = j + 1;
        } else {
            i = n;
        }
    }
    proof {
        assert(s@.skip(n as int) =~= Seq::<char>::empty());
        assert(out.deep_view() + spec_records(s@.skip(n as int)) =~~= out.deep_view());
    }
    out
}

/// The serializer's spelling of a record sequence: every record followed by
/// CRLF.
pub open spec fn lines_crlf(lines: Seq<Seq<char>>) -> Seq<char>
    decreases lines.len(),
{
    if lines.len() == 0 {
        Seq::empty()
    } else {
        (lines[0] + seq!['\r', '\n']) + lines_crlf(lines.drop_first())
    }
}

/// A record that carries no terminator characters of its own.
pub open spec fn clean_line(l: Seq<char>) -> bool {
    forall|k: int| 0 <= k < l.len() ==> l[k] != '\n' && l[k] != '\r'
}

proof fn lemma_records_prepend(l: Seq<char>, rest: Seq<char>)
    requires
        clean_line(l),
    ensures
        spec_records(l + seq!['\r', '\n'] + rest) == seq![l] + spec_records(rest),
{
    let s = l + seq!['\r', '\n'] + rest;
    assert(s[l.len() as int] == '\r');
    assert(s[l.len() as int + 1] == '\n');
    assert(forall|m: int| 0 <= m < l.len() ==> s[m] == l[m]);
    lemma_first_ix_is(s, '\n', l.len() as int + 1);
    assert(s.take(l.len() as int + 1) =~= l + seq!['\r']);
    assert(strip_cr(s.take(l.len() as int + 1)) =~= l);
    assert(s.skip(l.len() as int + 2) =~= rest);
    assert(spec_records(s) == seq![l] + spec_records(rest));
}

/// Tokenizing the serializer's spelling gives the records back: for clean
/// records, `spec_records` inverts `lines_crlf`.
pub proof fn lemma_records_of_lines(lines: Seq<Seq<char>>)
    requires
        forall|i: int| 0 <= i < lines.len() ==> clean_line(#[trigger] lines[i]),
    ensures
        spec_records(lines_crlf(lines)) == lines,
    decreases lines.len(),
{
    if lines.len() == 0 {
        assert(lines =~= Seq::<Seq<char>>::empty());
    } else {
        let rest = lines.drop_first();
        lemma_records_of_lines(rest);
        lemma_records_prepend(lines[0], lines_crlf(rest));
        assert(lines_crlf(lines) == lines[0] + seq!['\r', '\n'] + lines_crlf(rest));
        assert(seq![lines[0]] + rest =~~= lines);
    }
}

} // verus!
