use crate::error::ExportError;
use crate::text::{chars_of, string_of};
use vstd::prelude::*;

verus! {

/// Whether `c` is white space: a character with Unicode's White_Space property.
pub open spec fn is_blank(c: char) -> bool {
    let u = c as u32;
    ||| 0x09 <= u <= 0x0D
    ||| u == 0x20
    ||| u == 0x85
    ||| u == 0xA0
    ||| u == 0x1680
    ||| 0x2000 <= u <= 0x200A
    ||| u == 0x2028
    ||| u == 0x2029
    ||| u == 0x202F
    ||| u == 0x205F
    ||| u == 0x3000
}

/// `s` without its leading white space.
pub open spec fn trim_start(s: Seq<char>) -> Seq<char>
    decreases s.len(),
{
    if s.len() > 0 && is_blank(s.first()) {
        trim_start(s.drop_first())
    } else {
        s
    }
}

/// `s` without its trailing white space.
pub open spec fn trim_end(s: Seq<char>) -> Seq<char>
    decreases s.len(),
{
    if s.len() > 0 && is_blank(s.last()) {
        trim_end(s.drop_last())
    } else {
        s
    }
}

/// `s` without the white space around it.
pub open spec fn trimmed(s: Seq<char>) -> Seq<char> {
    trim_end(trim_start(s))
}

/// The number of characters of `s` before its first line feed, or the length
/// of `s` where it has none.
pub open spec fn line_len(s: Seq<char>) -> nat
    decreases s.len(),
{
    if s.len() == 0 || s.first() == '\n' {
        0
    } else {
        1 + line_len(s.drop_first())
    }
}

/// A line without the carriage return that stood before its line feed.
pub open spec fn without_cr(line: Seq<char>) -> Seq<char> {
    if line.len() > 0 && line.last() == '\r' {
        line.drop_last()
    } else {
        line
    }
}

/// The lines of `s`. A line ends with a line feed, or with a carriage return
/// and a line feed, neither of which belongs to it; text after the last line
/// feed is a line as it stands, and an empty text has no line.
pub open spec fn lines(s: Seq<char>) -> Seq<Seq<char>>
    decreases s.len(),
{
    let k = line_len(s) as int;
    if s.len() == 0 {
        Seq::empty()
    } else if k >= s.len() {
        seq![s]
    } else {
        seq![without_cr(s.take(k))] + lines(s.skip(k + 1))
    }
}

/// The row of dashes that separates the header of a listing from its entries.
pub open spec fn separator() -> Seq<char> {
    seq!['-', '-', '-', '-']
}

/// Whether a line of a listing names a measurement: it is neither blank nor
/// the separator.
pub open spec fn is_entry(line: Seq<char>) -> bool {
    trimmed(line).len() > 0 && line != separator()
}

/// The names that a sequence of lines holds, in order.
pub open spec fn entries(body: Seq<Seq<char>>) -> Seq<Seq<char>>
    decreases body.len(),
{
    if body.len() == 0 {
        Seq::empty()
    } else if is_entry(body.last()) {
        entries(body.drop_last()).push(trimmed(body.last()))
    } else {
        entries(body.drop_last())
    }
}

/// The lines of a listing after its two header lines.
pub open spec fn after_header(all: Seq<Seq<char>>) -> Seq<Seq<char>> {
    if all.len() <= 2 {
        Seq::empty()
    } else {
        all.skip(2)
    }
}

/// The measurement names of a listing: the entries among the lines that
/// follow the header, trimmed, in the order of the listing and with repeats.
pub open spec fn listed_names(raw: Seq<char>) -> Seq<Seq<char>> {
    entries(after_header(lines(raw)))
}

/// The texts of a sequence of strings.
pub open spec fn texts(strings: Seq<String>) -> Seq<Seq<char>> {
    Seq::new(strings.len(), |i: int| strings[i]@)
}

/// Decides whether a character is white space.
pub fn is_whitespace(c: char) -> (b: bool)
    ensures
        b == is_blank(c),
{
    let u: u32 = c as u32;
    (0x09 <= u && u <= 0x0D) || u == 0x20 || u == 0x85 || u == 0xA0 || u == 0x1680 || (0x2000 <= u
        && u <= 0x200A) || u == 0x2028 || u == 0x2029 || u == 0x202F || u == 0x205F || u == 0x3000
}

proof fn lemma_line_len(s: Seq<char>, k: int)
    requires
        0 <= k <= s.len(),
        forall|j: int| 0 <= j < k ==> s[j] != '\n',
        k == s.len() || s[k] == '\n',
    ensures
        line_len(s) == k,
    decreases k,
{
    if k > 0 {
        lemma_line_len(s.drop_first(), k - 1);
    }
}

proof fn lemma_trim_start(s: Seq<char>, k: int)
    requires
        0 <= k <= s.len(),
        forall|j: int| 0 <= j < k ==> is_blank(s[j]),
        k == s.len() || !is_blank(s[k]),
    ensures
        trim_start(s) == s.skip(k),
    decreases k,
{
    if k > 0 {
        lemma_trim_start(s.drop_first(), k - 1);
        assert(s.drop_first().skip(k - 1) == s.skip(k));
    } else {
        assert(s.skip(0) == s);
    }
}

proof fn lemma_trim_end(s: Seq<char>, k: int)
    requires
        0 <= k <= s.len(),
        forall|j: int| k <= j < s.len() ==> is_blank(s[j]),
        k == 0 || !is_blank(s[k - 1]),
    ensures
        trim_end(s) == s.take(k),
    decreases s.len() - k,
{
    if k < s.len() {
        lemma_trim_end(s.drop_last(), k);
        assert(s.drop_last().take(k) == s.take(k));
    } else {
        assert(s.take(k) == s);
    }
}

/// The bounds of `chars[from..to]` without the white space around it.
pub fn trim_bounds(chars: &Vec<char>, from: usize, to: usize) -> (bounds: (usize, usize))
    requires
        from <= to <= chars.len(),
    ensures
        from <= bounds.0 <= bounds.1 <= to,
        chars@.subrange(bounds.0 as int, bounds.1 as int) == trimmed(
            chars@.subrange(from as int, to as int),
        ),
        chars@.subrange(bounds.0 as int, to as int) == trim_start(
            chars@.subrange(from as int, to as int),
        ),
{
    let ghost line = chars@.subrange(from as int, to as int);
    let mut a: usize = from;
    while a < to && is_whitespace(chars[a])
        invariant
            from <= a <= to <= chars.len(),
            forall|j: int| from <= j < a ==> is_blank(chars@[j]),
        decreases to - a,
    {
        a += 1;
    }
    let mut b: usize = to;
    while b > a && is_whitespace(chars[b - 1])
        invariant
            a <= b <= to <= chars.len(),
            forall|j: int| b <= j < to ==> is_blank(chars@[j]),
        decreases b,
    {
        b -= 1;
    }
    proof {
        lemma_trim_start(line, a - from);
        let rest = line.skip(a - from);
        assert(rest == chars@.subrange(a as int, to as int));
        lemma_trim_end(rest, b - a);
        assert(rest.take(b - a) == chars@.subrange(a as int, b as int));
    }
    (a, b)
}

/// Splits a text into its lines.
pub fn split_lines(raw: &str) -> (out: Vec<Vec<char>>)
    ensures
        out@.len() == lines(raw@).len(),
        forall|i: int| 0 <= i < out@.len() ==> out@[i]@ == lines(raw@)[i],
{
    let chars = chars_of(raw);
    let n = chars.len();
    let mut out: Vec<Vec<char>> = Vec::new();
    let mut start: usize = 0;
    proof {
        assert(chars@.skip(0) == chars@);
        assert(Seq::new(out@.len(), |i: int| out@[i]@) + lines(raw@) == lines(raw@));
    }
    while start < n
        invariant
            start <= n == chars.len(),
            chars@ == raw@,
            lines(raw@) == Seq::new(out@.len(), |i: int| out@[i]@) + lines(
                chars@.skip(start as int),
            ),
        decreases n - start,
    {
        let ghost rest = chars@.skip(start as int);
        let ghost done = Seq::new(out@.len(), |i: int| out@[i]@);
        let mut end: usize = start;
        while end < n && chars[end] != '\n'
            invariant
                start <= end <= n == chars.len(),
                forall|j: int| start <= j < end ==> chars@[j] != '\n',
            decreases n - end,
        {
            end += 1;
        }
        proof {
            lemma_line_len(rest, end - start);
        }
        let mut stop: usize = end;
        if end < n && end > start && chars[end - 1] == '\r' {
            stop = end - 1;
        }
        let mut line: Vec<char> = Vec::new();
        let mut i: usize = start;
        while i < stop
            invariant
                start <= i <= stop <= chars.len(),
                line@ == chars@.subrange(start as int, i as int),
            decreases stop - i,
        {
            line.push(chars[i]);
            i += 1;
            assert(chars@.subrange(start as int, i as int) == chars@.subrange(
                start as int,
                i - 1,
            ).push(chars@[i - 1]));
        }
        proof {
            assert(rest.take(end - start) == chars@.subrange(start as int, end as int));
            if end < n {
                assert(line@ == without_cr(rest.take(end - start)));
                assert(rest.skip(end - start + 1) == chars@.skip(end + 1));
            } else {
                assert(rest.take(end - start) == rest);
                assert(line@ == rest);
                assert(chars@.skip(n as int).len() == 0);
            }
        }
        out.push(line);
        proof {
            let now = Seq::new(out@.len(), |i: int| out@[i]@);
            assert(now == done.push(line@));
            if end < n {
                assert(lines(rest) == seq![line@] + lines(chars@.skip(end + 1)));
                assert(done + (seq![line@] + lines(chars@.skip(end + 1))) == now + lines(
                    chars@.skip(end + 1),
                ));
            } else {
                assert(lines(rest) == seq![line@]);
                assert(lines(chars@.skip(n as int)) == Seq::<Seq<char>>::empty());
                assert(done + seq![line@] == now + Seq::<Seq<char>>::empty());
            }
        }
        start = if end < n { end + 1 } else { n };
    }
    proof {
        assert(chars@.skip(n as int).len() == 0);
        assert(lines(raw@) == Seq::new(out@.len(), |i: int| out@[i]@));
    }
    out
}

/// Decides whether a line is the separator.
pub fn is_separator(line: &Vec<char>) -> (b: bool)
    ensures
        b == (line@ == separator()),
{
    let b = line.len() == 4 && line[0] == '-' && line[1] == '-' && line[2] == '-' && line[3]
        == '-';
    proof {
        if b {
            assert(line@ =~= separator());
        }
    }
    b
}

/// Reads the measurement names out of a listing: the lines after the two
/// header lines that are neither blank nor the separator, each trimmed.
pub fn measurement_names(raw: &str) -> (names: Vec<String>)
    ensures
        texts(names@) == listed_names(raw@),
{
    let all = split_lines(raw);
    let ghost body = after_header(lines(raw@));
    let mut names: Vec<String> = Vec::new();
    let mut i: usize = 2;
    proof {
        assert(body.take(0) == Seq::<Seq<char>>::empty());
        assert(texts(names@) == Seq::<Seq<char>>::empty());
    }
    while i < all.len()
        invariant
            2 <= i,
            all@.len() == lines(raw@).len(),
            forall|j: int| 0 <= j < all@.len() ==> all@[j]@ == lines(raw@)[j],
            body == after_header(lines(raw@)),
            i <= all.len() ==> texts(names@) == entries(body.take(i - 2)),
            i > all.len() ==> names@.len() == 0,
            all.len() >= 2 ==> i <= all.len(),
        decreases all.len() - i,
    {
        let line = &all[i];
        let bounds = trim_bounds(line, 0, line.len());
        let ghost before = texts(names@);
        proof {
            assert(line@.subrange(0, line@.len() as int) == line@);
            assert(body.take(i - 1).drop_last() == body.take(i - 2));
            assert(body.take(i - 1).last() == line@);
        }
        if bounds.1 > bounds.0 && !is_separator(line) {
            let name = string_of(line, bounds.0, bounds.1);
            names.push(name);
            assert(texts(names@) == before.push(trimmed(line@)));
        }
        i += 1;
    }
    proof {
        if all.len() > 2 {
            assert(body.take(all.len() - 2) == body);
        } else {
            assert(body == Seq::<Seq<char>>::empty());
            assert(body.take(0) == body);
            assert(texts(names@) == Seq::<Seq<char>>::empty());
        }
    }
    names
}

/// Reads the measurement names out of what the request for the listing
/// brought: the listing's text, or the executor's error text where the
/// request did not succeed. A failed request is an `ExecutionFailure` with
/// that text.
pub fn read_listing(outcome: Result<String, String>) -> (names: Result<Vec<String>, ExportError>)
    ensures
        match outcome {
            Ok(raw) => names matches Ok(list) && texts(list@) == listed_names(raw@),
            Err(detail) => names == Err::<Vec<String>, ExportError>(
                ExportError::ExecutionFailure(detail),
            ),
        },
{
    match outcome {
        Ok(raw) => Ok(measurement_names(raw.as_str())),
        Err(detail) => Err(ExportError::ExecutionFailure(detail)),
    }
}

} // verus!
