//! Character-level text primitives for the wire protocol: splitting a
//! decoded chunk into lines the way `str::lines` does, trimming ASCII
//! whitespace, and recognising the `"data: "` prefix and the `[DONE]`
//! sentinel.

use vstd::prelude::*;
use vstd::utf8::{decode_utf8, valid_utf8};

verus! {

/// Relies on `std::str::from_utf8`: it returns `Ok` exactly when the
/// bytes are valid UTF-8, and the returned slice then holds their
/// decoding.
#[verifier::external_body]
pub(crate) fn utf8_decode(bytes: &[u8]) -> (r: Option<&str>)
    ensures
        r matches Some(s) ==> valid_utf8(bytes@) && s@ == decode_utf8(bytes@),
        r is None ==> !valid_utf8(bytes@),
{
    std::str::from_utf8(bytes).ok()
}

/// The ASCII whitespace characters that trimming removes. The protocol is
/// ASCII at the framing level, so wider Unicode whitespace never occurs
/// around the sentinel and is deliberately left alone.
pub open spec fn is_ws(c: char) -> bool {
    c == ' ' || c == '\t' || c == '\n' || c == '\r' || c == '\x0c'
}

/// Index of the first `'\n'` at or after `from`, or `s.len()` if none.
pub open spec fn first_nl_from(s: Seq<char>, from: int) -> int
    decreases s.len() - from,
{
    if from < 0 || from >= s.len() {
        s.len() as int
    } else if s[from] == '\n' {
        from
    } else {
        first_nl_from(s, from + 1)
    }
}

/// Drop one trailing `'\r'`: applied to a segment that a `'\n'` ended,
/// as `str::lines` treats `"\r\n"` as one line ending.
pub open spec fn strip_cr(s: Seq<char>) -> Seq<char> {
    if s.len() > 0 && s[s.len() - 1] == '\r' {
        s.take(s.len() - 1)
    } else {
        s
    }
}

/// The lines of `s`, with the semantics of `str::lines`: segments
/// between `'\n'` characters, a `"\r\n"` ending counting as one, no
/// empty final segment when the text ends with a newline, and a final
/// segment without any line ending kept as it stands.
pub open spec fn spec_lines(s: Seq<char>) -> Seq<Seq<char>>
    decreases s.len(),
{
    if s.len() == 0 {
        Seq::empty()
    } else {
        let i = first_nl_from(s, 0);
        if 0 <= i < s.len() {
            seq![strip_cr(s.take(i))] + spec_lines(s.skip(i + 1))
        } else {
            seq![s]
        }
    }
}

/// `s` with leading whitespace removed.
pub open spec fn trim_start(s: Seq<char>) -> Seq<char>
    decreases s.len(),
{
    if s.len() > 0 && is_ws(s[0]) {
        trim_start(s.skip(1))
    } else {
        s
    }
}

/// `s` with trailing whitespace removed.
pub open spec fn trim_end(s: Seq<char>) -> Seq<char>
    decreases s.len(),
{
    if s.len() > 0 && is_ws(s[s.len() - 1]) {
        trim_end(s.take(s.len() - 1))
    } else {
        s
    }
}

/// `s` with whitespace removed from both ends.
pub open spec fn spec_trim(s: Seq<char>) -> Seq<char> {
    trim_end(trim_start(s))
}

/// The six-character event prefix `"data: "`.
pub open spec fn data_prefix() -> Seq<char> {
    seq!['d', 'a', 't', 'a', ':', ' ']
}

/// A line carries an event candidate exactly when it starts with `"data: "`.
pub open spec fn is_data_line(l: Seq<char>) -> bool {
    l.len() >= 6 && l.take(6) == data_prefix()
}

/// The payload of a data line: everything after the prefix.
pub open spec fn payload_of(l: Seq<char>) -> Seq<char> {
    l.skip(6)
}

/// The stream-end sentinel `"[DONE]"`.
pub open spec fn done_token() -> Seq<char> {
    seq!['[', 'D', 'O', 'N', 'E', ']']
}

/// A payload signals end of stream when it trims to the sentinel.
pub open spec fn is_done_payload(p: Seq<char>) -> bool {
    spec_trim(p) == done_token()
}

/// First index `j >= from` with `s[j] == '\n'` is what `first_nl_from`
/// computes; a scan that saw no newline below `j` and a newline (or the
/// end) at `j` has found it.
proof fn lemma_first_nl_from(s: Seq<char>, from: int, j: int)
    requires
        0 <= from <= j <= s.len(),
        forall|k: int| from <= k < j ==> s[k] != '\n',
        j == s.len() || s[j] == '\n',
    ensures
        first_nl_from(s, from) == j,
    decreases j - from,
{
    if from < j {
        lemma_first_nl_from(s, from + 1, j);
    }
}

/// Exec counterpart of `spec_trim`.
fn is_ws_char(c: char) -> (r: bool)
    ensures
        r == is_ws(c),
{
    c == ' ' || c == '\t' || c == '\n' || c == '\r' || c == '\x0c'
}

/// `trim_start` drops exactly the longest whitespace prefix.
proof fn lemma_trim_start_skip(s: Seq<char>, i: int)
    requires
        0 <= i <= s.len(),
        forall|k: int| 0 <= k < i ==> is_ws(s[k]),
        i == s.len() || !is_ws(s[i]),
    ensures
        trim_start(s) =~= s.skip(i),
    decreases i,
{
    if i > 0 {
        assert(is_ws(s[0]));
        lemma_trim_start_skip(s.skip(1), i - 1);
        assert(s.skip(1).skip(i - 1) =~= s.skip(i));
    }
}

/// `trim_end` drops exactly the longest whitespace suffix.
proof fn lemma_trim_end_take(s: Seq<char>, i: int)
    requires
        0 <= i <= s.len(),
        forall|k: int| i <= k < s.len() ==> is_ws(s[k]),
        i == 0 || !is_ws(s[i - 1]),
    ensures
        trim_end(s) =~= s.take(i),
    decreases s.len() - i,
{
    if i < s.len() {
        assert(is_ws(s[s.len() - 1]));
        lemma_trim_end_take(s.take(s.len() - 1), i);
        assert(s.take(s.len() - 1).take(i) =~= s.take(i));
    }
}

/// Trim ASCII whitespace from both ends of `s`.
pub fn trim_ascii(s: &str) -> (r: &str)
    ensures
        r@ == spec_trim(s@),
{
    let n = s.unicode_len();
    let mut start: usize = 0;
    while start < n && is_ws_char(s.get_char(start))
        invariant
            0 <= start <= n,
            n == s@.len(),
            forall|k: int| 0 <= k < start ==> is_ws(s@[k]),
        decreases n - start,
    {
        start = start + 1;
    }
    proof {
        lemma_trim_start_skip(s@, start as int);
    }
    let mut end: usize = n;
    while end > start && is_ws_char(s.get_char(end - 1))
        invariant
            start <= end <= n,
            n == s@.len(),
            forall|k: int| end <= k < n ==> is_ws(s@[k]),
        decreases end,
    {
        end = end - 1;
    }
    proof {
        let t = s@.skip(start as int);
        assert forall|k: int| (end - start) <= k < t.len() implies is_ws(t[k]) by {
            assert(t[k] == s@[k + start]);
        }
        if end > start {
            assert(t[end - start - 1] == s@[end as int - 1]);
        }
        lemma_trim_end_take(t, end - start);
    }
    let r = s.substring_char(start, end);
    proof {
        assert(s@.subrange(start as int, end as int) =~= s@.skip(start as int).take(
            end - start as int,
        ));
    }
    r
}

/// Does `l` start with the literal prefix `"data: "`?
pub fn has_data_prefix(l: &str) -> (r: bool)
    ensures
        r == is_data_line(l@),
{
    let n = l.unicode_len();
    if n < 6 {
        return false;
    }
    let r = l.get_char(0) == 'd' && l.get_char(1) == 'a' && l.get_char(2) == 't' && l.get_char(3)
        == 'a' && l.get_char(4) == ':' && l.get_char(5) == ' ';
    proof {
        if r {
            assert(l@.take(6) =~= data_prefix());
        } else {
            assert(l@.take(6)[0] == l@[0] && l@.take(6)[1] == l@[1] && l@.take(6)[2] == l@[2]
                && l@.take(6)[3] == l@[3] && l@.take(6)[4] == l@[4] && l@.take(6)[5] == l@[5]);
        }
    }
    r
}

/// Does the payload trim to the `[DONE]` sentinel?
pub fn payload_is_done(p: &str) -> (r: bool)
    ensures
        r == is_done_payload(p@),
{
    let t = trim_ascii(p);
    let n = t.unicode_len();
    if n != 6 {
        proof {
            assert(t@ != done_token());
        }
        return false;
    }
    let r = t.get_char(0) == '[' && t.get_char(1) == 'D' && t.get_char(2) == 'O' && t.get_char(3)
        == 'N' && t.get_char(4) == 'E' && t.get_char(5) == ']';
    proof {
        if r {
            assert(t@ =~= done_token());
        } else {
            assert(t@ != done_token());
        }
    }
    r
}

/// A line survives cleaning when it is not blank.
pub open spec fn keep_line(l: Seq<char>) -> bool {
    spec_trim(l).len() > 0
}

/// The non-blank lines among `lines`, in order.
pub open spec fn kept_lines(lines: Seq<Seq<char>>) -> Seq<Seq<char>>
    decreases lines.len(),
{
    if lines.len() == 0 {
        Seq::empty()
    } else if keep_line(lines.last()) {
        kept_lines(lines.drop_last()).push(lines.last())
    } else {
        kept_lines(lines.drop_last())
    }
}

/// `lines` joined with a newline between consecutive entries.
pub open spec fn join_nl(lines: Seq<Seq<char>>) -> Seq<char>
    decreases lines.len(),
{
    if lines.len() == 0 {
        Seq::empty()
    } else if lines.len() == 1 {
        lines[0]
    } else {
        join_nl(lines.drop_last()) + seq!['\n'] + lines.last()
    }
}

/// Text cleaned for display: blank lines dropped, the rest rejoined.
pub open spec fn spec_cleaned(s: Seq<char>) -> Seq<char> {
    join_nl(kept_lines(spec_lines(s)))
}

/// The first `limit` characters of the cleaned text.
pub open spec fn spec_snippet(s: Seq<char>, limit: int) -> Seq<char> {
    let c = spec_cleaned(s);
    if c.len() <= limit {
        c
    } else {
        c.take(limit)
    }
}

/// Drop blank lines from `text`, rejoin the rest with newlines, and
/// keep at most `limit` characters of the result.
pub fn clean_snippet(text: &str, limit: usize) -> (r: String)
    ensures
        r@ == spec_snippet(text@, limit as int),
{
    let lines = split_lines(text);
    let ghost lviews = lines@.map_values(|l: String| l@);
    let mut joined = String::new();
    let mut started = false;
    let n = lines.len();
    let mut i: usize = 0;
    proof {
        assert(lviews.take(0) =~= Seq::<Seq<char>>::empty());
        assert(kept_lines(lviews.take(0)) =~= Seq::<Seq<char>>::empty());
    }
    while i < n
        invariant
            0 <= i <= n,
            n == lines@.len(),
            lviews == lines@.map_values(|l: String| l@),
            started == (kept_lines(lviews.take(i as int)).len() > 0),
            joined@ == join_nl(kept_lines(lviews.take(i as int))),
        decreases n - i,
    {
        proof {
            assert(lviews.take(i as int + 1).drop_last() =~= lviews.take(i as int));
            assert(lviews.take(i as int + 1).last() == lviews[i as int]);
            assert(lviews[i as int] == lines@[i as int]@);
        }
        let line: &str = lines[i].as_str();
        let t = trim_ascii(line);
        if t.unicode_len() > 0 {
            let ghost kept = kept_lines(lviews.take(i as int));
            if started {
                proof {
                    reveal_strlit("\n");
                    assert("\n"@ =~= seq!['\n']);
                    assert(kept.push(line@).drop_last() =~= kept);
                }
                joined.append("\n");
                joined.append(line);
            } else {
                proof {
                    assert(kept.push(line@).drop_last() =~= kept);
                    assert(kept.len() == 0);
                    assert(Seq::<char>::empty() + line@ =~= line@);
                }
                joined.append(line);
            }
            started = true;
        }
        i = i + 1;
    }
    proof {
        assert(lviews.take(n as int) =~= lviews);
    }
    let jlen = joined.as_str().unicode_len();
    if jlen <= limit {
        joined
    } else {
        let r = joined.as_str().substring_char(0, limit).to_owned();
        proof {
            assert(joined@.subrange(0, limit as int) =~= joined@.take(limit as int));
        }
        r
    }
}

/// Split `s` into its lines, with the semantics of `str::lines`.
pub fn split_lines(s: &str) -> (out: Vec<String>)
    ensures
        out@.map_values(|l: String| l@) =~= spec_lines(s@),
{
    let mut out: Vec<String> = Vec::new();
    let mut rest: &str = s;
    loop
        invariant_except_break
            spec_lines(s@) =~= out@.map_values(|l: String| l@) + spec_lines(rest@),
        ensures
            out@.map_values(|l: String| l@) =~= spec_lines(s@),
        decreases rest@.len(),
    {
        let n = rest.unicode_len();
        if n == 0 {
            proof {
                assert(spec_lines(rest@) =~= Seq::<Seq<char>>::empty());
                assert(out@.map_values(|l: String| l@) + spec_lines(rest@) =~= out@.map_values(
                    |l: String| l@,
                ));
            }
            break;
        }
        let mut i: usize = 0;
        while i < n && rest.get_char(i) != '\n'
            invariant
                0 <= i <= n,
                n == rest@.len(),
                forall|k: int| 0 <= k < i ==> rest@[k] != '\n',
            decreases n - i,
        {
            i = i + 1;
        }
        proof {
            lemma_first_nl_from(rest@, 0, i as int);
        }
        let line_end = if i < n && i > 0 && rest.get_char(i - 1) == '\r' {
            i - 1
        } else {
            i
        };
        let line = rest.substring_char(0, line_end).to_owned();
        proof {
            if i == n {
                assert(rest@ =~= rest@.subrange(0, line_end as int));
            } else {
                assert(rest@.take(i as int).len() == i);
                if i > 0 && rest@[i as int - 1] == '\r' {
                    assert(rest@.take(i as int)[i as int - 1] == rest@[i as int - 1]);
                    assert(strip_cr(rest@.take(i as int)) =~= rest@.subrange(0, line_end as int));
                } else {
                    if i > 0 {
                        assert(rest@.take(i as int)[i as int - 1] == rest@[i as int - 1]);
                    }
                    assert(strip_cr(rest@.take(i as int)) =~= rest@.subrange(0, line_end as int));
                }
            }
        }
        let ghost prev = out@;
        out.push(line);
        proof {
            assert(out@.map_values(|l: String| l@) =~= prev.map_values(|l: String| l@)
                + seq![line@]);
        }
        if i == n {
            let empty = rest.substring_char(n, n);
            proof {
                assert(empty@ =~= Seq::<char>::empty());
            }
            rest = empty;
        } else {
            let tail = rest.substring_char(i + 1, n);
            proof {
                assert(tail@ =~= rest@.skip(i as int + 1));
            }
            rest = tail;
        }
    }
    out
}

} // verus!
