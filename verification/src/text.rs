//! Character-level string operations with exact specifications over `Seq<char>`.

use vstd::prelude::*;

verus! {

/// Builds a `String` holding exactly the given characters.
#[verifier::external_body]
pub(crate) fn string_from_chars(chars: &Vec<char>) -> (s: String)
    ensures
        s@ == chars@,
{
    chars.iter().collect()
}

/// The characters of a string slice, in order.
pub fn chars_of(s: &str) -> (v: Vec<char>)
    ensures
        v@ == s@,
{
    let mut v: Vec<char> = Vec::new();
    for c in it: s.chars()
        invariant
            v@ == it.seq().take(it.index() as int),
    {
        v.push(c);
    }
    v
}

/// The text of an optional string.
pub open spec fn opt_view(o: Option<String>) -> Option<Seq<char>> {
    match o {
        Some(s) => Some(s@),
        None => None,
    }
}

/// Unicode `White_Space`, the property that `char::is_whitespace` tests.
pub open spec fn is_white_space(c: char) -> bool {
    let u = c as u32;
    ||| 0x09 <= u <= 0x0d
    ||| u == 0x20
    ||| u == 0x85
    ||| u == 0xa0
    ||| u == 0x1680
    ||| 0x2000 <= u <= 0x200a
    ||| u == 0x2028
    ||| u == 0x2029
    ||| u == 0x202f
    ||| u == 0x205f
    ||| u == 0x3000
}

/// `char::is_whitespace`.
pub fn char_is_whitespace(c: char) -> (b: bool)
    ensures
        b == is_white_space(c),
{
    let u = c as u32;
    (0x09 <= u && u <= 0x0d) || u == 0x20 || u == 0x85 || u == 0xa0 || u == 0x1680 || (0x2000
        <= u && u <= 0x200a) || u == 0x2028 || u == 0x2029 || u == 0x202f || u == 0x205f || u
        == 0x3000
}

/// `s` without its leading white space.
pub open spec fn trim_start_seq(s: Seq<char>) -> Seq<char>
    decreases s.len(),
{
    if s.len() > 0 && is_white_space(s[0]) {
        trim_start_seq(s.drop_first())
    } else {
        s
    }
}

/// `s` without its trailing white space.
pub open spec fn trim_end_seq(s: Seq<char>) -> Seq<char>
    decreases s.len(),
{
    if s.len() > 0 && is_white_space(s.last()) {
        trim_end_seq(s.drop_last())
    } else {
        s
    }
}

/// `s` without leading and trailing white space (what `str::trim` returns).
pub open spec fn trimmed(s: Seq<char>) -> Seq<char> {
    trim_end_seq(trim_start_seq(s))
}

proof fn lemma_trim_start_blank(s: Seq<char>)
    ensures
        trim_start_seq(s).len() == 0 <==> forall|i: int| 0 <= i < s.len() ==> is_white_space(s[i]),
        trim_start_seq(s).len() > 0 ==> !is_white_space(trim_start_seq(s)[0]),
    decreases s.len(),
{
    if s.len() > 0 && is_white_space(s[0]) {
        lemma_trim_start_blank(s.drop_first());
        assert forall|i: int| 0 <= i < s.len() && (forall|j: int| 0 <= j < s.drop_first().len() ==> is_white_space(s.drop_first()[j])) implies is_white_space(s[i]) by {
            if i > 0 {
                assert(s[i] == s.drop_first()[i - 1]);
            }
        }
    }
}

proof fn lemma_trim_end_keeps_first(t: Seq<char>)
    requires
        t.len() > 0,
        !is_white_space(t[0]),
    ensures
        trim_end_seq(t).len() > 0,
    decreases t.len(),
{
    if is_white_space(t.last()) {
        lemma_trim_end_keeps_first(t.drop_last());
    }
}

/// A text trims to nothing exactly when all its characters are white space.
pub proof fn lemma_trimmed_blank(s: Seq<char>)
    ensures
        trimmed(s).len() == 0 <==> forall|i: int| 0 <= i < s.len() ==> is_white_space(s[i]),
{
    lemma_trim_start_blank(s);
    if trim_start_seq(s).len() > 0 {
        lemma_trim_end_keeps_first(trim_start_seq(s));
    }
}

/// Index of the first character of `s` that is not white space (or `s.len()`).
pub fn leading_space_end(s: &Vec<char>) -> (start: usize)
    ensures
        start <= s.len(),
        trim_start_seq(s@) == s@.skip(start as int),
{
    let mut start: usize = 0;
    assert(s@.skip(0) =~= s@);
    while start < s.len() && char_is_whitespace(s[start])
        invariant
            start <= s.len(),
            trim_start_seq(s@) == trim_start_seq(s@.skip(start as int)),
        decreases s.len() - start,
    {
        assert(s@.skip(start as int).drop_first() =~= s@.skip(start + 1));
        start = start + 1;
    }
    start
}

/// Copies `s[start..end]`.
pub fn copy_range(s: &Vec<char>, start: usize, end: usize) -> (r: Vec<char>)
    requires
        start <= end <= s.len(),
    ensures
        r@ == s@.subrange(start as int, end as int),
{
    let mut r: Vec<char> = Vec::new();
    let mut i = start;
    while i < end
        invariant
            start <= i <= end <= s.len(),
            r@ == s@.subrange(start as int, i as int),
        decreases end - i,
    {
        r.push(s[i]);
        i = i + 1;
    }
    r
}

/// `s` with leading and trailing white space removed.
pub fn trim_chars(s: &Vec<char>) -> (r: Vec<char>)
    ensures
        r@ == trimmed(s@),
{
    let start = leading_space_end(s);
    let mut end = s.len();
    assert(s@.subrange(start as int, end as int) =~= s@.skip(start as int));
    while end > start && char_is_whitespace(s[end - 1])
        invariant
            start <= end <= s.len(),
            trimmed(s@) == trim_end_seq(s@.subrange(start as int, end as int)),
        decreases end,
    {
        assert(s@.subrange(start as int, end as int).drop_last() =~= s@.subrange(
            start as int,
            end - 1,
        ));
        end = end - 1;
    }
    copy_range(s, start, end)
}

/// `str::trim`: the string without leading and trailing white space.
pub fn trim(s: &str) -> (r: String)
    ensures
        r@ == trimmed(s@),
{
    let cs = chars_of(s);
    let t = trim_chars(&cs);
    string_from_chars(&t)
}


/// Appends the characters of `add` to `out`.
pub fn append_chars(out: &mut Vec<char>, add: &Vec<char>)
    ensures
        final(out)@ == old(out)@ + add@,
{
    let mut i: usize = 0;
    while i < add.len()
        invariant
            i <= add.len(),
            out@ == old(out)@ + add@.take(i as int),
        decreases add.len() - i,
    {
        out.push(add[i]);
        i = i + 1;
        assert(out@ =~= old(out)@ + add@.take(i as int));
    }
    assert(add@.take(add.len() as int) =~= add@);
}

// ---------------------------------------------------------------- substrings

/// `pat` occurs in `s` starting at index `i`.
pub open spec fn occurs_at(s: Seq<char>, pat: Seq<char>, i: int) -> bool {
    0 <= i && i + pat.len() <= s.len() && s.subrange(i, i + pat.len()) == pat
}

/// `pat` occurs somewhere in `s` (what `str::contains` tests).
pub open spec fn contains_seq(s: Seq<char>, pat: Seq<char>) -> bool {
    exists|i: int| occurs_at(s, pat, i)
}

/// `s` begins with `pat` (what `str::starts_with` tests).
pub open spec fn starts_with_seq(s: Seq<char>, pat: Seq<char>) -> bool {
    pat.len() <= s.len() && s.take(pat.len() as int) == pat
}

/// Whether `pat` occurs in `s` at index `i`.
pub fn occurs_at_exec(s: &Vec<char>, pat: &Vec<char>, i: usize) -> (b: bool)
    ensures
        b == occurs_at(s@, pat@, i as int),
{
    if i > s.len() || pat.len() > s.len() - i {
        return false;
    }
    let mut k: usize = 0;
    while k < pat.len()
        invariant
            i + pat.len() <= s.len(),
            k <= pat.len(),
            forall|j: int| 0 <= j < k ==> s@[i + j] == pat@[j],
        decreases pat.len() - k,
    {
        if s[i + k] != pat[k] {
            assert(s@.subrange(i as int, i + pat.len())[k as int] != pat@[k as int]);
            return false;
        }
        k = k + 1;
    }
    assert(s@.subrange(i as int, i + pat.len()) =~= pat@);
    true
}

/// Index of the first occurrence of `pat` in `s` (what `str::find` locates).
pub fn find_chars(s: &Vec<char>, pat: &Vec<char>) -> (r: Option<usize>)
    ensures
        r matches Some(i) ==> occurs_at(s@, pat@, i as int) && forall|j: int|
            0 <= j < i ==> !occurs_at(s@, pat@, j),
        r is None ==> !contains_seq(s@, pat@),
{
    let mut i: usize = 0;
    while i < s.len()
        invariant
            i <= s.len(),
            forall|j: int| 0 <= j < i ==> !occurs_at(s@, pat@, j),
        decreases s.len() - i,
    {
        if occurs_at_exec(s, pat, i) {
            return Some(i);
        }
        i = i + 1;
    }
    if occurs_at_exec(s, pat, i) {
        return Some(i);
    }
    assert forall|j: int| !occurs_at(s@, pat@, j) by {
        if 0 <= j && j + pat@.len() <= s@.len() {
            assert(j <= i);
        }
    }
    None
}

/// Whether `pat` occurs in `s`.
pub fn contains_chars(s: &Vec<char>, pat: &Vec<char>) -> (b: bool)
    ensures
        b == contains_seq(s@, pat@),
{
    match find_chars(s, pat) {
        Some(_) => true,
        None => false,
    }
}

/// Whether `s` begins with `pat`.
pub fn starts_with_chars(s: &Vec<char>, pat: &Vec<char>) -> (b: bool)
    ensures
        b == starts_with_seq(s@, pat@),
{
    let b = occurs_at_exec(s, pat, 0);
    assert(s@.subrange(0, pat@.len() as int) =~= s@.take(pat@.len() as int));
    b
}

/// Whether the character `c` occurs in `s`.
pub fn has_char(s: &Vec<char>, c: char) -> (b: bool)
    ensures
        b == s@.contains(c),
{
    let mut i: usize = 0;
    while i < s.len()
        invariant
            i <= s.len(),
            forall|j: int| 0 <= j < i ==> s@[j] != c,
        decreases s.len() - i,
    {
        if s[i] == c {
            return true;
        }
        i = i + 1;
    }
    false
}

// ---------------------------------------------------------------- replace

/// `str::replace`: every non-overlapping occurrence of `from`, taken left to right,
/// replaced by `to`. An empty `from` matches before every character and at the end.
pub open spec fn replaced(s: Seq<char>, from: Seq<char>, to: Seq<char>) -> Seq<char>
    decreases s.len(),
{
    if from.len() == 0 {
        if s.len() == 0 {
            to
        } else {
            to + seq![s[0]] + replaced(s.drop_first(), from, to)
        }
    } else if starts_with_seq(s, from) {
        to + replaced(s.skip(from.len() as int), from, to)
    } else if s.len() == 0 {
        s
    } else {
        seq![s[0]] + replaced(s.drop_first(), from, to)
    }
}

/// Replaces every occurrence of `from` in `s` by `to`.
pub fn replace_chars(s: &Vec<char>, from: &Vec<char>, to: &Vec<char>) -> (r: Vec<char>)
    ensures
        r@ == replaced(s@, from@, to@),
{
    let mut out: Vec<char> = Vec::new();
    let mut i: usize = 0;
    assert(s@.skip(0) =~= s@);
    while i < s.len()
        invariant
            i <= s.len(),
            replaced(s@, from@, to@) == out@ + replaced(s@.skip(i as int), from@, to@),
        decreases s.len() - i,
    {
        let ghost rest = s@.skip(i as int);
        let ghost before = out@;
        if from.len() == 0 {
            assert(rest.drop_first() =~= s@.skip(i + 1));
            append_chars(&mut out, to);
            out.push(s[i]);
            i = i + 1;
            assert(out@ + replaced(s@.skip(i as int), from@, to@) =~= before + replaced(
                rest,
                from@,
                to@,
            ));
        } else if occurs_at_exec(s, from, i) {
            assert(rest.take(from@.len() as int) =~= s@.subrange(i as int, i + from@.len()));
            assert(rest.skip(from@.len() as int) =~= s@.skip(i + from@.len()));
            append_chars(&mut out, to);
            i = i + from.len();
            assert(out@ + replaced(s@.skip(i as int), from@, to@) =~= before + replaced(
                rest,
                from@,
                to@,
            ));
        } else {
            assert(!starts_with_seq(rest, from@)) by {
                if starts_with_seq(rest, from@) {
                    assert(rest.take(from@.len() as int) =~= s@.subrange(
                        i as int,
                        i + from@.len(),
                    ));
                }
            }
            assert(rest.drop_first() =~= s@.skip(i + 1));
            out.push(s[i]);
            i = i + 1;
            assert(out@ + replaced(s@.skip(i as int), from@, to@) =~= before + replaced(
                rest,
                from@,
                to@,
            ));
        }
    }
    assert(s@.skip(i as int) =~= Seq::<char>::empty());
    if from.len() == 0 {
        append_chars(&mut out, to);
    } else {
        assert(replaced(Seq::<char>::empty(), from@, to@) =~= Seq::<char>::empty());
    }
    assert(replaced(s@, from@, to@) =~= out@);
    out
}

/// `str::replace` on strings.
pub fn replace(s: &str, from: &str, to: &str) -> (r: String)
    ensures
        r@ == replaced(s@, from@, to@),
{
    let r = replace_chars(&chars_of(s), &chars_of(from), &chars_of(to));
    string_from_chars(&r)
}

/// Replacing a pattern that does not occur leaves the text unchanged.
pub proof fn lemma_replace_absent(s: Seq<char>, from: Seq<char>, to: Seq<char>)
    requires
        from.len() > 0,
        !contains_seq(s, from),
    ensures
        replaced(s, from, to) == s,
    decreases s.len(),
{
    if s.len() > 0 {
        if starts_with_seq(s, from) {
            assert(occurs_at(s, from, 0));
        }
        assert forall|i: int| !occurs_at(s.drop_first(), from, i) by {
            if occurs_at(s.drop_first(), from, i) {
                assert(s.subrange(i + 1, i + 1 + from.len()) =~= s.drop_first().subrange(
                    i,
                    i + from.len(),
                ));
                assert(occurs_at(s, from, i + 1));
            }
        }
        lemma_replace_absent(s.drop_first(), from, to);
        assert(seq![s[0]] + s.drop_first() =~= s);
    }
}


// ---------------------------------------------------------------- lines, split, join

/// The character sequences held by a vector of character vectors.
pub open spec fn views(v: Seq<Vec<char>>) -> Seq<Seq<char>> {
    v.map_values(|l: Vec<char>| l@)
}

/// `cur` with one trailing carriage return removed, if it has one.
pub open spec fn strip_cr(cur: Seq<char>) -> Seq<char> {
    if cur.len() > 0 && cur.last() == '\r' {
        cur.drop_last()
    } else {
        cur
    }
}

/// The lines of `s`, where `cur` is the part of the current line already read.
pub open spec fn lines_from(s: Seq<char>, cur: Seq<char>) -> Seq<Seq<char>>
    decreases s.len(),
{
    if s.len() == 0 {
        if cur.len() == 0 {
            seq![]
        } else {
            seq![cur]
        }
    } else if s[0] == '\n' {
        seq![strip_cr(cur)] + lines_from(s.drop_first(), seq![])
    } else {
        lines_from(s.drop_first(), cur.push(s[0]))
    }
}

/// `str::lines`: split at `\n`, a `\r` right before the `\n` dropped, no empty last line
/// after a final line ending.
pub open spec fn lines_of(s: Seq<char>) -> Seq<Seq<char>> {
    lines_from(s, seq![])
}

/// The lines of `s`.
pub fn lines_chars(s: &Vec<char>) -> (r: Vec<Vec<char>>)
    ensures
        views(r@) == lines_of(s@),
{
    let mut out: Vec<Vec<char>> = Vec::new();
    let mut cur: Vec<char> = Vec::new();
    let mut i: usize = 0;
    assert(s@.skip(0) =~= s@);
    while i < s.len()
        invariant
            i <= s.len(),
            lines_of(s@) == out@.map_values(|l: Vec<char>| l@) + lines_from(
                s@.skip(i as int),
                cur@,
            ),
        decreases s.len() - i,
    {
        let ghost rest = s@.skip(i as int);
        assert(rest.drop_first() =~= s@.skip(i + 1));
        if s[i] == '\n' {
            let ghost before = out@.map_values(|l: Vec<char>| l@);
            let mut line = cur;
            if line.len() > 0 && line[line.len() - 1] == '\r' {
                line.pop();
            }
            assert(line@ == strip_cr(cur@));
            out.push(line);
            cur = Vec::new();
            assert(out@.map_values(|l: Vec<char>| l@) =~= before + seq![line@]);
        } else {
            cur.push(s[i]);
        }
        i = i + 1;
    }
    assert(s@.skip(i as int) =~= Seq::<char>::empty());
    if cur.len() > 0 {
        let ghost before = out@.map_values(|l: Vec<char>| l@);
        out.push(cur);
        assert(out@.map_values(|l: Vec<char>| l@) =~= before + seq![cur@]);
    } else {
        assert(out@.map_values(|l: Vec<char>| l@) =~= out@.map_values(|l: Vec<char>| l@) + Seq::<Seq<char>>::empty());
    }
    out
}

/// The pieces of `s` between occurrences of `sep`, where `cur` is the piece already read.
pub open spec fn split_from(s: Seq<char>, sep: char, cur: Seq<char>) -> Seq<Seq<char>>
    decreases s.len(),
{
    if s.len() == 0 {
        seq![cur]
    } else if s[0] == sep {
        seq![cur] + split_from(s.drop_first(), sep, seq![])
    } else {
        split_from(s.drop_first(), sep, cur.push(s[0]))
    }
}

/// `str::split` at a character: always at least one piece, empty pieces kept.
pub open spec fn split_at_char(s: Seq<char>, sep: char) -> Seq<Seq<char>> {
    split_from(s, sep, seq![])
}

/// The pieces of `s` separated by `sep`.
pub fn split_chars(s: &Vec<char>, sep: char) -> (r: Vec<Vec<char>>)
    ensures
        views(r@) == split_at_char(s@, sep),
{
    let mut out: Vec<Vec<char>> = Vec::new();
    let mut cur: Vec<char> = Vec::new();
    let mut i: usize = 0;
    assert(s@.skip(0) =~= s@);
    while i < s.len()
        invariant
            i <= s.len(),
            split_at_char(s@, sep) == out@.map_values(|l: Vec<char>| l@) + split_from(
                s@.skip(i as int),
                sep,
                cur@,
            ),
        decreases s.len() - i,
    {
        let ghost rest = s@.skip(i as int);
        assert(rest.drop_first() =~= s@.skip(i + 1));
        if s[i] == sep {
            let ghost before = out@.map_values(|l: Vec<char>| l@);
            let piece = cur;
            out.push(piece);
            cur = Vec::new();
            assert(out@.map_values(|l: Vec<char>| l@) =~= before + seq![piece@]);
        } else {
            cur.push(s[i]);
        }
        i = i + 1;
    }
    assert(s@.skip(i as int) =~= Seq::<char>::empty());
    let ghost before = out@.map_values(|l: Vec<char>| l@);
    out.push(cur);
    assert(out@.map_values(|l: Vec<char>| l@) =~= before + seq![cur@]);
    out
}

/// The parts joined with `sep` between consecutive parts (what `join` builds).
pub open spec fn joined(parts: Seq<Seq<char>>, sep: Seq<char>) -> Seq<char>
    decreases parts.len(),
{
    if parts.len() == 0 {
        seq![]
    } else if parts.len() == 1 {
        parts[0]
    } else {
        joined(parts.drop_last(), sep) + sep + parts.last()
    }
}

/// Joins `parts` with `sep` between consecutive parts.
pub fn join_chars(parts: &Vec<Vec<char>>, sep: &Vec<char>) -> (r: Vec<char>)
    ensures
        r@ == joined(views(parts@), sep@),
{
    let ghost ps = parts@.map_values(|l: Vec<char>| l@);
    let mut out: Vec<char> = Vec::new();
    let mut i: usize = 0;
    while i < parts.len()
        invariant
            i <= parts.len(),
            ps == parts@.map_values(|l: Vec<char>| l@),
            out@ == joined(ps.take(i as int), sep@),
        decreases parts.len() - i,
    {
        if i > 0 {
            append_chars(&mut out, sep);
        }
        append_chars(&mut out, &parts[i]);
        assert(ps.take(i + 1).drop_last() =~= ps.take(i as int));
        if i == 0 {
            assert(ps.take(1) =~= seq![ps[0]]);
        }
        i = i + 1;
    }
    assert(ps.take(parts.len() as int) =~= ps);
    out
}

/// Joins string parts with a separator.
pub fn join_strings(parts: &Vec<String>, sep: &str) -> (r: String)
    ensures
        r@ == joined(parts@.map_values(|p: String| p@), sep@),
{
    let mut cs: Vec<Vec<char>> = Vec::new();
    let mut i: usize = 0;
    while i < parts.len()
        invariant
            i <= parts.len(),
            cs@.map_values(|l: Vec<char>| l@) == parts@.map_values(|p: String| p@).take(i as int),
        decreases parts.len() - i,
    {
        let c = chars_of(parts[i].as_str());
        let ghost before = cs@.map_values(|l: Vec<char>| l@);
        cs.push(c);
        assert(cs@.map_values(|l: Vec<char>| l@) =~= before.push(c@));
        assert(parts@.map_values(|p: String| p@).take(i + 1) =~= parts@.map_values(|p: String| p@).take(i as int).push(parts@[i as int]@));
        i = i + 1;
    }
    assert(parts@.map_values(|p: String| p@).take(parts.len() as int) =~= parts@.map_values(|p: String| p@));
    let r = join_chars(&cs, &chars_of(sep));
    string_from_chars(&r)
}

/// The leading run of non-white-space characters of `s`.
pub open spec fn leading_token(s: Seq<char>) -> Seq<char>
    decreases s.len(),
{
    if s.len() == 0 || is_white_space(s[0]) {
        seq![]
    } else {
        seq![s[0]] + leading_token(s.drop_first())
    }
}

/// The first white-space separated word of `s`, or empty
/// (what `split_whitespace().next().unwrap_or("")` gives).
pub open spec fn first_word(s: Seq<char>) -> Seq<char> {
    leading_token(trim_start_seq(s))
}

/// The first white-space separated word of `s`, or empty.
pub fn first_word_chars(s: &Vec<char>) -> (r: Vec<char>)
    ensures
        r@ == first_word(s@),
{
    let start = leading_space_end(s);
    let mut end = start;
    while end < s.len() && !char_is_whitespace(s[end])
        invariant
            start <= end <= s.len(),
            forall|j: int| start <= j < end ==> !is_white_space(s@[j]),
        decreases s.len() - end,
    {
        end = end + 1;
    }
    proof {
        lemma_leading_token(s@, start as int, end as int);
    }
    copy_range(s, start, end)
}

proof fn lemma_leading_token(s: Seq<char>, start: int, end: int)
    requires
        0 <= start <= end <= s.len(),
        forall|j: int| start <= j < end ==> !is_white_space(s[j]),
        end == s.len() || is_white_space(s[end]),
    ensures
        leading_token(s.skip(start)) == s.subrange(start, end),
    decreases end - start,
{
    if start == end {
        assert(s.subrange(start, end) =~= Seq::<char>::empty());
    } else {
        lemma_leading_token(s, start + 1, end);
        assert(s.skip(start).drop_first() =~= s.skip(start + 1));
        assert(seq![s[start]] + s.subrange(start + 1, end) =~= s.subrange(start, end));
    }
}


// ---------------------------------------------------------------- ordering

/// Three-way comparison result.
#[derive(Clone, Copy, Debug, PartialEq, Eq, Structural)]
pub enum Comparison {
    Less,
    Equal,
    Greater,
}

/// The same comparison with its sides swapped.
pub open spec fn flip(c: Comparison) -> Comparison {
    match c {
        Comparison::Less => Comparison::Greater,
        Comparison::Equal => Comparison::Equal,
        Comparison::Greater => Comparison::Less,
    }
}

/// Lexicographic order by code point. UTF-8 preserves code point order, so this is the
/// order in which `str`'s `Ord` compares two strings.
pub open spec fn lex_order(a: Seq<char>, b: Seq<char>) -> Comparison
    decreases a.len(),
{
    if a.len() == 0 {
        if b.len() == 0 {
            Comparison::Equal
        } else {
            Comparison::Less
        }
    } else if b.len() == 0 {
        Comparison::Greater
    } else if a[0] < b[0] {
        Comparison::Less
    } else if a[0] > b[0] {
        Comparison::Greater
    } else {
        lex_order(a.drop_first(), b.drop_first())
    }
}

/// Integer comparison.
pub open spec fn int_order(a: int, b: int) -> Comparison {
    if a < b {
        Comparison::Less
    } else if a > b {
        Comparison::Greater
    } else {
        Comparison::Equal
    }
}

/// `lex_order` is a total order: equal exactly on equal sequences, antisymmetric, transitive.
pub proof fn lemma_lex_order_total(a: Seq<char>, b: Seq<char>, c: Seq<char>)
    ensures
        (lex_order(a, b) == Comparison::Equal) <==> (a == b),
        lex_order(b, a) == flip(lex_order(a, b)),
        lex_order(a, b) == Comparison::Less && lex_order(b, c) == Comparison::Less ==> lex_order(a, c) == Comparison::Less,
    decreases a.len(),
{
    if a.len() > 0 && b.len() > 0 && c.len() > 0 {
        lemma_lex_order_total(a.drop_first(), b.drop_first(), c.drop_first());
        if a.drop_first() == b.drop_first() && a[0] == b[0] {
            assert(a =~= seq![a[0]] + a.drop_first());
            assert(b =~= seq![b[0]] + b.drop_first());
        }
    } else if a.len() > 0 && b.len() > 0 {
        lemma_lex_order_total(a.drop_first(), b.drop_first(), b.drop_first());
        if a.drop_first() == b.drop_first() && a[0] == b[0] {
            assert(a =~= seq![a[0]] + a.drop_first());
            assert(b =~= seq![b[0]] + b.drop_first());
        }
    } else if a.len() == 0 && b.len() == 0 {
        assert(a =~= b);
    }
}

/// Compares two character sequences lexicographically.
pub fn compare_chars(a: &Vec<char>, b: &Vec<char>) -> (r: Comparison)
    ensures
        r == lex_order(a@, b@),
{
    let mut i: usize = 0;
    assert(a@.skip(0) =~= a@);
    assert(b@.skip(0) =~= b@);
    while i < a.len() && i < b.len()
        invariant
            i <= a.len(),
            i <= b.len(),
            lex_order(a@, b@) == lex_order(a@.skip(i as int), b@.skip(i as int)),
        decreases a.len() - i,
    {
        assert(a@.skip(i as int).drop_first() =~= a@.skip(i + 1));
        assert(b@.skip(i as int).drop_first() =~= b@.skip(i + 1));
        let x = a[i];
        let y = b[i];
        if x < y {
            return Comparison::Less;
        } else if x > y {
            return Comparison::Greater;
        }
        i = i + 1;
    }
    if i == a.len() && i == b.len() {
        Comparison::Equal
    } else if i == a.len() {
        Comparison::Less
    } else {
        Comparison::Greater
    }
}

// ---------------------------------------------------------------- numbers

/// The ASCII digit for `d` in `0..=9`.
pub open spec fn digit_char(d: int) -> char {
    (d + 48) as char
}

/// The decimal digits of `n`, most significant first, without leading zeros.
pub open spec fn digits_of(n: nat) -> Seq<char>
    decreases n,
{
    if n < 10 {
        seq![digit_char(n as int)]
    } else {
        digits_of(n / 10).push(digit_char((n % 10) as int))
    }
}

/// `n` written in decimal, with a leading `-` when negative (what `to_string` gives).
pub open spec fn decimal(n: int) -> Seq<char> {
    if n < 0 {
        seq!['-'] + digits_of((-n) as nat)
    } else {
        digits_of(n as nat)
    }
}

fn digit_to_char(d: u64) -> (c: char)
    requires
        d < 10,
    ensures
        c == digit_char(d as int),
{
    let b: u8 = 48u8 + (d as u8);
    b as char
}

/// The decimal digits of `n`.
pub fn digits_chars(n: u64) -> (r: Vec<char>)
    ensures
        r@ == digits_of(n as nat),
{
    let mut acc: Vec<char> = Vec::new();
    let mut m: u64 = n;
    loop
        invariant
            digits_of(n as nat) == digits_of(m as nat) + acc@,
        decreases m,
    {
        let ghost old_acc = acc@;
        let d = digit_to_char(m % 10);
        acc.insert(0, d);
        if m < 10 {
            assert(acc@ =~= digits_of(m as nat) + old_acc);
            return acc;
        }
        let ghost old_m = m;
        m = m / 10;
        assert(digits_of(old_m as nat) == digits_of(m as nat).push(digit_char((old_m % 10) as int)));
        assert(digits_of(m as nat) + acc@ =~= digits_of(m as nat).push(digit_char((old_m % 10) as int)) + old_acc);
    }
}

/// `n` in decimal.
pub fn decimal_chars(n: i64) -> (r: Vec<char>)
    ensures
        r@ == decimal(n as int),
{
    if n < 0 {
        let mag: u64 = if n == i64::MIN {
            9223372036854775808u64
        } else {
            (-n) as u64
        };
        let mut r: Vec<char> = Vec::new();
        r.push('-');
        let ds = digits_chars(mag);
        append_chars(&mut r, &ds);
        assert(r@ =~= seq!['-'] + ds@);
        r
    } else {
        digits_chars(n as u64)
    }
}

/// `n.to_string()`.
pub fn int_to_string(n: i64) -> (r: String)
    ensures
        r@ == decimal(n as int),
{
    string_from_chars(&decimal_chars(n))
}

/// Why `str::parse::<i32>` refused its input (the kinds of `ParseIntError`).
#[derive(Clone, Copy, Debug, PartialEq, Eq, Structural)]
pub enum IntErrorKind {
    Empty,
    InvalidDigit,
    PosOverflow,
    NegOverflow,
}

/// An ASCII decimal digit.
pub open spec fn is_digit(c: char) -> bool {
    '0' <= c <= '9'
}

/// The value of an ASCII decimal digit.
pub open spec fn digit_value(c: char) -> int {
    (c as u32) - 48
}

/// Reads decimal digits left to right onto `acc` as `str::parse::<i32>` does: the first
/// non-digit gives `InvalidDigit`, the first prefix out of range gives an overflow.
pub open spec fn scan_i32(d: Seq<char>, acc: int, positive: bool) -> Result<int, IntErrorKind>
    decreases d.len(),
{
    if d.len() == 0 {
        Ok(acc)
    } else if !is_digit(d[0]) {
        Err(IntErrorKind::InvalidDigit)
    } else {
        let v = if positive {
            acc * 10 + digit_value(d[0])
        } else {
            acc * 10 - digit_value(d[0])
        };
        if v > i32::MAX {
            Err(IntErrorKind::PosOverflow)
        } else if v < i32::MIN {
            Err(IntErrorKind::NegOverflow)
        } else {
            scan_i32(d.drop_first(), v, positive)
        }
    }
}

/// What `str::parse::<i32>` returns for `s`.
pub open spec fn parse_i32_spec(s: Seq<char>) -> Result<int, IntErrorKind> {
    if s.len() == 0 {
        Err(IntErrorKind::Empty)
    } else if s.len() == 1 && (s[0] == '+' || s[0] == '-') {
        Err(IntErrorKind::InvalidDigit)
    } else if s[0] == '+' {
        scan_i32(s.drop_first(), 0, true)
    } else if s[0] == '-' {
        scan_i32(s.drop_first(), 0, false)
    } else {
        scan_i32(s, 0, true)
    }
}

/// What the scan reads is an `i32`.
pub proof fn lemma_scan_i32_in_range(d: Seq<char>, acc: int, positive: bool)
    requires
        i32::MIN <= acc <= i32::MAX,
    ensures
        scan_i32(d, acc, positive) matches Ok(v) ==> i32::MIN <= v <= i32::MAX,
    decreases d.len(),
{
    if d.len() > 0 && is_digit(d[0]) {
        let v = if positive {
            acc * 10 + digit_value(d[0])
        } else {
            acc * 10 - digit_value(d[0])
        };
        if i32::MIN <= v <= i32::MAX {
            lemma_scan_i32_in_range(d.drop_first(), v, positive);
        }
    }
}

/// What `str::parse::<i32>` reads is an `i32`.
pub proof fn lemma_parse_i32_in_range(s: Seq<char>)
    ensures
        parse_i32_spec(s) matches Ok(v) ==> i32::MIN <= v <= i32::MAX,
{
    if s.len() > 0 {
        lemma_scan_i32_in_range(s.drop_first(), 0, true);
        lemma_scan_i32_in_range(s.drop_first(), 0, false);
        lemma_scan_i32_in_range(s, 0, true);
    }
}

/// Scanning a concatenation scans the first part, then the second from where it stopped.
proof fn lemma_scan_i32_append(a: Seq<char>, b: Seq<char>, acc: int, positive: bool)
    ensures
        scan_i32(a + b, acc, positive) == match scan_i32(a, acc, positive) {
            Ok(v) => scan_i32(b, v, positive),
            Err(e) => Err(e),
        },
    decreases a.len(),
{
    if a.len() > 0 {
        assert((a + b)[0] == a[0]);
        assert((a + b).drop_first() =~= a.drop_first() + b);
        if is_digit(a[0]) {
            let v = if positive {
                acc * 10 + digit_value(a[0])
            } else {
                acc * 10 - digit_value(a[0])
            };
            lemma_scan_i32_append(a.drop_first(), b, v, positive);
        }
    } else {
        assert(a + b =~= b);
    }
}

proof fn lemma_digit_char(d: int)
    requires
        0 <= d < 10,
    ensures
        is_digit(digit_char(d)),
        digit_value(digit_char(d)) == d,
{
}

/// The digits of `m` read back give `m` (negated when reading a negative number).
proof fn lemma_scan_digits(m: nat, positive: bool)
    requires
        positive ==> m <= i32::MAX,
        !positive ==> m <= 2147483648,
    ensures
        scan_i32(digits_of(m), 0, positive) == Ok::<int, IntErrorKind>(if positive { m as int } else { -m }),
    decreases m,
{
    let target: int = if positive { m as int } else { -m };
    assert(scan_i32(Seq::<char>::empty(), target, positive) == Ok::<int, IntErrorKind>(target));
    if m < 10 {
        lemma_digit_char(m as int);
        assert(digits_of(m).drop_first() =~= Seq::<char>::empty());
    } else {
        let q = m / 10;
        let d = m % 10;
        lemma_scan_digits(q, positive);
        lemma_digit_char(d as int);
        lemma_scan_i32_append(digits_of(q), seq![digit_char(d as int)], 0, positive);
        assert(digits_of(q).push(digit_char(d as int)) =~= digits_of(q) + seq![digit_char(d as int)]);
        assert(seq![digit_char(d as int)].drop_first() =~= Seq::<char>::empty());
        assert(q * 10 + d == m);
        let qs: int = if positive { q as int } else { -q };
        assert(scan_i32(seq![digit_char(d as int)], qs, positive) == scan_i32(Seq::<char>::empty(), target, positive));
    }
}

/// Reading back the decimal text of any `i32` gives the same number.
pub proof fn lemma_parse_decimal_roundtrip(n: i32)
    ensures
        parse_i32_spec(decimal(n as int)) == Ok::<int, IntErrorKind>(n as int),
{
    if n < 0 {
        let m = (-(n as int)) as nat;
        lemma_scan_digits(m, false);
        let s = decimal(n as int);
        assert(s.drop_first() =~= digits_of(m));
        assert(digits_of(m).len() > 0) by {
            if m < 10 {
            } else {
                assert(digits_of(m).len() == digits_of(m / 10).len() + 1);
            }
        }
    } else {
        let m = n as nat;
        lemma_scan_digits(m, true);
        assert(digits_of(m).len() > 0 && is_digit(digits_of(m)[0])) by {
            lemma_digits_start_with_digit(m);
        }
    }
}

proof fn lemma_digits_start_with_digit(m: nat)
    ensures
        digits_of(m).len() > 0,
        is_digit(digits_of(m)[0]),
    decreases m,
{
    if m < 10 {
        lemma_digit_char(m as int);
    } else {
        lemma_digits_start_with_digit(m / 10);
        assert(digits_of(m)[0] == digits_of(m / 10)[0]);
    }
}

fn scan_i32_exec(d: &Vec<char>, start: usize, positive: bool) -> (r: Result<i32, IntErrorKind>)
    requires
        start <= d.len(),
    ensures
        match scan_i32(d@.skip(start as int), 0, positive) {
            Ok(v) => r == Ok::<i32, IntErrorKind>(v as i32),
            Err(e) => r == Err::<i32, IntErrorKind>(e),
        },
{
    let mut acc: i64 = 0;
    let mut i: usize = start;
    while i < d.len()
        invariant
            start <= i <= d.len(),
            i32::MIN <= acc <= i32::MAX,
            scan_i32(d@.skip(start as int), 0, positive) == scan_i32(d@.skip(i as int), acc as int, positive),
        decreases d.len() - i,
    {
        assert(d@.skip(i as int).drop_first() =~= d@.skip(i + 1));
        let c = d[i];
        if !('0' <= c && c <= '9') {
            return Err(IntErrorKind::InvalidDigit);
        }
        let dv = (c as u32 - 48) as i64;
        let v = if positive { acc * 10 + dv } else { acc * 10 - dv };
        if v > 2147483647 {
            return Err(IntErrorKind::PosOverflow);
        }
        if v < -2147483648 {
            return Err(IntErrorKind::NegOverflow);
        }
        acc = v;
        i = i + 1;
    }
    Ok(acc as i32)
}

/// `str::parse::<i32>` on characters.
pub fn parse_i32_chars(s: &Vec<char>) -> (r: Result<i32, IntErrorKind>)
    ensures
        match parse_i32_spec(s@) {
            Ok(v) => r == Ok::<i32, IntErrorKind>(v as i32),
            Err(e) => r == Err::<i32, IntErrorKind>(e),
        },
{
    if s.len() == 0 {
        return Err(IntErrorKind::Empty);
    }
    if s.len() == 1 && (s[0] == '+' || s[0] == '-') {
        return Err(IntErrorKind::InvalidDigit);
    }
    assert(s@.skip(1) =~= s@.drop_first());
    assert(s@.skip(0) =~= s@);
    if s[0] == '+' {
        scan_i32_exec(s, 1, true)
    } else if s[0] == '-' {
        scan_i32_exec(s, 1, false)
    } else {
        scan_i32_exec(s, 0, true)
    }
}

/// `str::parse::<i32>`.
pub fn parse_i32(s: &str) -> (r: Result<i32, IntErrorKind>)
    ensures
        match parse_i32_spec(s@) {
            Ok(v) => r == Ok::<i32, IntErrorKind>(v as i32) && i32::MIN <= v <= i32::MAX,
            Err(e) => r == Err::<i32, IntErrorKind>(e),
        },
{
    proof {
        lemma_parse_i32_in_range(s@);
    }
    parse_i32_chars(&chars_of(s))
}

/// What `str::parse::<bool>` returns: only the exact words `true` and `false` parse.
pub open spec fn parse_bool_spec(s: Seq<char>) -> Option<bool> {
    if s == seq!['t', 'r', 'u', 'e'] {
        Some(true)
    } else if s == seq!['f', 'a', 'l', 's', 'e'] {
        Some(false)
    } else {
        None
    }
}

/// `str::parse::<bool>().ok()`.
pub fn parse_bool(s: &str) -> (r: Option<bool>)
    ensures
        r == parse_bool_spec(s@),
{
    let cs = chars_of(s);
    if cs.len() == 4 && cs[0] == 't' && cs[1] == 'r' && cs[2] == 'u' && cs[3] == 'e' {
        assert(cs@ =~= seq!['t', 'r', 'u', 'e']);
        Some(true)
    } else if cs.len() == 5 && cs[0] == 'f' && cs[1] == 'a' && cs[2] == 'l' && cs[3] == 's'
        && cs[4] == 'e' {
        assert(cs@ =~= seq!['f', 'a', 'l', 's', 'e']);
        Some(false)
    } else {
        proof {
            if cs@ == seq!['t', 'r', 'u', 'e'] {
                assert(cs@[0] == 't' && cs@[1] == 'r' && cs@[2] == 'u' && cs@[3] == 'e');
            }
            if cs@ == seq!['f', 'a', 'l', 's', 'e'] {
                assert(cs@[0] == 'f' && cs@[1] == 'a' && cs@[2] == 'l' && cs@[3] == 's' && cs@[4] == 'e');
            }
        }
        None
    }
}

/// `b.to_string()`.
pub open spec fn bool_text(b: bool) -> Seq<char> {
    if b {
        seq!['t', 'r', 'u', 'e']
    } else {
        seq!['f', 'a', 'l', 's', 'e']
    }
}

/// The characters of `b.to_string()`.
pub fn bool_chars(b: bool) -> (r: Vec<char>)
    ensures
        r@ == bool_text(b),
{
    let mut r: Vec<char> = Vec::new();
    if b {
        r.push('t');
        r.push('r');
        r.push('u');
        r.push('e');
    } else {
        r.push('f');
        r.push('a');
        r.push('l');
        r.push('s');
        r.push('e');
    }
    assert(r@ =~= bool_text(b));
    r
}


// ---------------------------------------------------------------- first occurrence

/// Index of the first occurrence of `pat` in `s` at or after `i`.
pub open spec fn find_from(s: Seq<char>, pat: Seq<char>, i: int) -> Option<int>
    decreases s.len() + 1 - i,
{
    if i < 0 || i > s.len() {
        None
    } else if occurs_at(s, pat, i) {
        Some(i)
    } else {
        find_from(s, pat, i + 1)
    }
}

/// Index of the first occurrence of `pat` in `s` (what `str::find` locates).
pub open spec fn find_seq(s: Seq<char>, pat: Seq<char>) -> Option<int> {
    find_from(s, pat, 0)
}

/// The first occurrence, described by its index.
pub proof fn lemma_find_seq(s: Seq<char>, pat: Seq<char>, k: int, i: Option<int>)
    requires
        0 <= k <= s.len() + 1,
        forall|j: int| 0 <= j < k ==> !occurs_at(s, pat, j),
        i matches Some(i) ==> k <= i && occurs_at(s, pat, i) && forall|j: int|
            k <= j < i ==> !occurs_at(s, pat, j),
        i is None ==> !contains_seq(s, pat),
    ensures
        find_from(s, pat, k) == i,
    decreases s.len() + 1 - k,
{
    if k <= s.len() {
        if occurs_at(s, pat, k) {
            if let Some(ii) = i {
                assert(ii == k);
            }
        } else {
            lemma_find_seq(s, pat, k + 1, i);
        }
    } else {
        if let Some(ii) = i {
            assert(occurs_at(s, pat, ii));
        }
    }
}

/// `str::find` on characters.
pub fn find_first(s: &Vec<char>, pat: &Vec<char>) -> (r: Option<usize>)
    ensures
        match r {
            Some(i) => find_seq(s@, pat@) == Some(i as int),
            None => find_seq(s@, pat@) is None,
        },
        r is None <==> !contains_seq(s@, pat@),
        r matches Some(i) ==> occurs_at(s@, pat@, i as int),
{
    let r = find_chars(s, pat);
    proof {
        match r {
            Some(i) => lemma_find_seq(s@, pat@, 0, Some(i as int)),
            None => lemma_find_seq(s@, pat@, 0, None),
        }
    }
    r
}

/// Whether two string slices hold the same characters.
pub fn str_eq(a: &str, b: &str) -> (r: bool)
    ensures
        r == (a@ == b@),
{
    let x = chars_of(a);
    let y = chars_of(b);
    let c = compare_chars(&x, &y);
    proof {
        lemma_lex_order_total(x@, y@, y@);
    }
    c == Comparison::Equal
}

/// What `str::to_lowercase` returns: the Unicode `Lowercase` mapping of every character.
pub uninterp spec fn lowercased(s: Seq<char>) -> Seq<char>;

/// `str::to_lowercase` (std): the result depends on the characters of `s` alone and is named
/// `lowercased`; the Unicode case tables behind it are not restated here.
#[verifier::external_body]
pub(crate) fn to_lowercase(s: &str) -> (r: String)
    ensures
        r@ == lowercased(s@),
{
    s.to_lowercase()
}

} // verus!
