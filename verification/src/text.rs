use vstd::prelude::*;

verus! {

/// `String::push` appends one character to the end of the string.
pub assume_specification[ String::push ](s: &mut String, c: char)
    ensures
        final(s)@ == old(s)@.push(c),
;

/// The characters of `s`, in order.
pub fn chars_of(s: &str) -> (v: Vec<char>)
    ensures
        v@ == s@,
{
    let mut v: Vec<char> = Vec::new();
    for c in iter: s.chars()
        invariant
            iter.seq() == s@,
            v@ == iter.seq().take(iter.index()),
    {
        v.push(c);
    }
    v
}

/// The string made of the characters `chars[from..to]`.
pub fn string_of(chars: &Vec<char>, from: usize, to: usize) -> (s: String)
    requires
        from <= to <= chars.len(),
    ensures
        s@ == chars@.subrange(from as int, to as int),
{
    let mut s = String::new();
    let mut i: usize = from;
    while i < to
        invariant
            from <= i <= to <= chars.len(),
            s@ == chars@.subrange(from as int, i as int),
        decreases to - i,
    {
        s.push(chars[i]);
        i += 1;
        assert(chars@.subrange(from as int, i as int) == chars@.subrange(
            from as int,
            i - 1,
        ).push(chars@[i - 1]));
    }
    s
}

/// A measurement name as it stands between the double quotes of a query:
/// each double quote of the name is preceded by a backslash, and every other
/// character is kept.
pub open spec fn escaped(name: Seq<char>) -> Seq<char>
    decreases name.len(),
{
    if name.len() == 0 {
        Seq::empty()
    } else if name.last() == '"' {
        escaped(name.drop_last()).push('\\').push('"')
    } else {
        escaped(name.drop_last()).push(name.last())
    }
}

/// A measurement name as it stands in a file name: each space becomes an
/// underscore.
pub open spec fn underscored(name: Seq<char>) -> Seq<char> {
    Seq::new(name.len(), |i: int| if name[i] == ' ' { '_' } else { name[i] })
}

/// The character of the decimal digit `d`.
pub open spec fn digit(d: nat) -> char
    recommends
        d < 10,
{
    ((48 + d) as u8) as char
}

/// The decimal numeral of `n`, without sign or leading zeros.
pub open spec fn decimal(n: nat) -> Seq<char>
    decreases n,
{
    if n < 10 {
        seq![digit(n)]
    } else {
        decimal(n / 10).push(digit(n % 10))
    }
}

/// The query that counts the rows of the measurement `name`.
pub open spec fn count_query_text(name: Seq<char>) -> Seq<char> {
    "SELECT COUNT(*) FROM \""@ + escaped(name) + "\""@
}

/// The query that reads the rows of the measurement `name` from row `offset` on.
pub open spec fn page_query_text(name: Seq<char>, offset: nat) -> Seq<char> {
    "SELECT * FROM \""@ + escaped(name) + "\" OFFSET "@ + decimal(offset)
}

/// The path of the file that holds the document of the measurement `name`.
pub open spec fn output_path_text(name: Seq<char>) -> Seq<char> {
    "data_json/"@ + underscored(name) + ".json"@
}

/// Escapes a measurement name for use inside the double quotes of a query.
pub fn escape_measurement(name: &str) -> (out: String)
    ensures
        out@ == escaped(name@),
{
    let chars = chars_of(name);
    let mut out = String::new();
    let mut i: usize = 0;
    while i < chars.len()
        invariant
            i <= chars.len(),
            out@ == escaped(chars@.take(i as int)),
        decreases chars.len() - i,
    {
        let c = chars[i];
        assert(chars@.take(i + 1).drop_last() == chars@.take(i as int));
        if c == '"' {
            out.push('\\');
        }
        out.push(c);
        i += 1;
    }
    assert(chars@.take(i as int) == chars@);
    out
}

/// Appends the decimal numeral of `n` to `out`.
pub fn push_decimal(out: &mut String, n: u64)
    ensures
        final(out)@ == old(out)@ + decimal(n as nat),
    decreases n,
{
    if n >= 10 {
        push_decimal(out, n / 10);
    }
    let d: u8 = (n % 10) as u8;
    out.push((48 + d) as char);
}

/// Builds the query that counts the rows of a measurement.
pub fn count_query(name: &str) -> (query: String)
    ensures
        query@ == count_query_text(name@),
{
    let escaped_name = escape_measurement(name);
    let mut query = String::from_str("SELECT COUNT(*) FROM \"");
    query.append(escaped_name.as_str());
    query.append("\"");
    query
}

/// Builds the query that reads a measurement from row `offset` on.
pub fn page_query(name: &str, offset: u64) -> (query: String)
    ensures
        query@ == page_query_text(name@, offset as nat),
{
    let escaped_name = escape_measurement(name);
    let mut query = String::from_str("SELECT * FROM \"");
    query.append(escaped_name.as_str());
    query.append("\" OFFSET ");
    push_decimal(&mut query, offset);
    query
}

/// Builds the path of the file that a measurement's document is written to.
pub fn output_path(name: &str) -> (path: String)
    ensures
        path@ == output_path_text(name@),
{
    let chars = chars_of(name);
    let mut path = String::from_str("data_json/");
    let ghost prefix = path@;
    let mut i: usize = 0;
    while i < chars.len()
        invariant
            i <= chars.len(),
            chars@ == name@,
            path@ == prefix + underscored(name@).take(i as int),
        decreases chars.len() - i,
    {
        let c = chars[i];
        path.push(if c == ' ' { '_' } else { c });
        assert(underscored(name@).take(i + 1) == underscored(name@).take(i as int).push(
            underscored(name@)[i as int],
        ));
        i += 1;
    }
    assert(underscored(name@).take(i as int) == underscored(name@));
    path.append(".json");
    path
}

} // verus!
