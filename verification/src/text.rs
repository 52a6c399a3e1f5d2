//! Character-sequence utilities the transcoder and edit session are built on:
//! conversions between `&str`/`String` and `Vec<char>`, whitespace trimming,
//! line splitting, and decimal integer reading and writing.

use vstd::prelude::*;

verus! {

broadcast use vstd::string::group_string_axioms;

/// Appends the given character to the end of the string.
/// Relies on `String::push`, which appends exactly that character.
pub assume_specification[ String::push ](s: &mut String, c: char)
    ensures
        final(s)@ == old(s)@.push(c),
;

/// Removes and returns the last character, if any.
/// Relies on `String::pop`, which removes exactly the last character.
pub assume_specification[ String::pop ](s: &mut String) -> (r: Option<char>)
    ensures
        old(s)@.len() == 0 ==> final(s)@ == old(s)@ && r is None,
        old(s)@.len() > 0 ==> final(s)@ == old(s)@.drop_last() && r == Some(old(s)@.last()),
;

/// Collects the characters of a string slice into a vector.
pub fn str_chars(s: &str) -> (r: Vec<char>)
    ensures
        r@ == s@,
{
    let mut r: Vec<char> = Vec::new();
    for c in it: s.chars()
        invariant
            it.seq() == s@,
            r@ == it.seq().take(it.index() as int),
    {
        r.push(c);
    }
    proof {
        assert(r@ =~= s@);
    }
    r
}

/// Builds a `String` from a vector of characters.
pub fn chars_to_string(v: &Vec<char>) -> (r: String)
    ensures
        r@ == v@,
{
    let mut r = String::new();
    let mut i: usize = 0;
    while i < v.len()
        invariant
            i <= v.len(),
            r@ == v@.take(i as int),
        decreases v.len() - i,
    {
        r.push(v[i]);
        proof {
            assert(v@.take(i as int).push(v@[i as int]) =~= v@.take(i + 1 as int));
        }
        i = i + 1;
    }
    proof {
        assert(v@.take(v@.len() as int) =~= v@);
    }
    r
}

/// The characters the `White_Space` Unicode property contains; string
/// trimming removes exactly these from the ends.
pub open spec fn is_space(c: char) -> bool {
    let n = c as u32;
    n == 0x20 || (0x09 <= n && n <= 0x0D) || n == 0x85 || n == 0xA0 || n == 0x1680 || (0x2000 <= n
        && n <= 0x200A) || n == 0x2028 || n == 0x2029 || n == 0x202F || n == 0x205F || n == 0x3000
}

/// Runtime test for [`is_space`].
pub fn is_space_char(c: char) -> (r: bool)
    ensures
        r == is_space(c),
{
    let n = c as u32;
    n == 0x20 || (0x09 <= n && n <= 0x0D) || n == 0x85 || n == 0xA0 || n == 0x1680 || (0x2000 <= n
        && n <= 0x200A) || n == 0x2028 || n == 0x2029 || n == 0x202F || n == 0x205F || n == 0x3000
}

/// Copies the characters of `s` with indices in `lo..hi`.
pub fn copy_range(s: &Vec<char>, lo: usize, hi: usize) -> (r: Vec<char>)
    requires
        lo <= hi <= s@.len(),
    ensures
        r@ == s@.subrange(lo as int, hi as int),
{
    let mut r: Vec<char> = Vec::new();
    let mut i: usize = lo;
    while i < hi
        invariant
            lo <= i <= hi <= s@.len(),
            r@ == s@.subrange(lo as int, i as int),
        decreases hi - i,
    {
        r.push(s[i]);
        proof {
            assert(s@.subrange(lo as int, i as int).push(s@[i as int]) =~= s@.subrange(
                lo as int,
                i + 1 as int,
            ));
        }
        i = i + 1;
    }
    r
}

/// Appends the characters of a string slice to a character vector.
pub fn extend_chars(out: &mut Vec<char>, s: &str)
    ensures
        final(out)@ == old(out)@ + s@,
{
    for c in it: s.chars()
        invariant
            it.seq() == s@,
            out@ == old(out)@ + it.seq().take(it.index() as int),
    {
        out.push(c);
    }
    proof {
        assert(old(out)@ + s@.take(s@.len() as int) =~= old(out)@ + s@);
    }
}

/// Appends the characters of a character vector to another.
pub fn extend_vec(out: &mut Vec<char>, s: &Vec<char>)
    ensures
        final(out)@ == old(out)@ + s@,
{
    let mut i: usize = 0;
    while i < s.len()
        invariant
            i <= s@.len(),
            out@ == old(out)@ + s@.take(i as int),
        decreases s@.len() - i,
    {
        out.push(s[i]);
        i = i + 1;
        proof {
            assert(out@ =~= old(out)@ + s@.take(i as int));
        }
    }
    proof {
        assert(old(out)@ + s@.take(s@.len() as int) =~= old(out)@ + s@);
    }
}

/// Whether two character vectors hold the same characters.
pub fn chars_eq(a: &Vec<char>, b: &Vec<char>) -> (r: bool)
    ensures
        r == (a@ == b@),
{
    if a.len() != b.len() {
        return false;
    }
    let mut i: usize = 0;
    while i < a.len()
        invariant
            a@.len() == b@.len(),
            i <= a@.len(),
            forall|j: int| 0 <= j < i ==> a@[j] == b@[j],
        decreases a@.len() - i,
    {
        if a[i] != b[i] {
            return false;
        }
        i = i + 1;
    }
    proof {
        assert(a@ =~= b@);
    }
    true
}

/// Whether a character vector spells the given string slice.
pub fn chars_eq_str(a: &Vec<char>, s: &str) -> (r: bool)
    ensures
        r == (a@ == s@),
{
    let sc = str_chars(s);
    chars_eq(a, &sc)
}

/// `p` is an initial segment of `s`.
pub open spec fn has_prefix(s: Seq<char>, p: Seq<char>) -> bool {
    p.len() <= s.len() && s.take(p.len() as int) == p
}

/// `p` is a final segment of `s`.
pub open spec fn has_suffix(s: Seq<char>, p: Seq<char>) -> bool {
    p.len() <= s.len() && s.skip(s.len() - p.len()) == p
}

/// Whether the vector starts with the characters of `p`.
pub fn starts_with_str(a: &Vec<char>, p: &str) -> (r: bool)
    ensures
        r == has_prefix(a@, p@),
{
    let pc = str_chars(p);
    if pc.len() > a.len() {
        proof {
            assert(!has_prefix(a@, p@));
        }
        return false;
    }
    let mut i: usize = 0;
    while i < pc.len()
        invariant
            pc@ == p@,
            pc@.len() <= a@.len(),
            i <= pc@.len(),
            forall|j: int| 0 <= j < i ==> a@[j] == pc@[j],
        decreases pc@.len() - i,
    {
        if a[i] != pc[i] {
            proof {
                assert(a@.take(p@.len() as int)[i as int] != p@[i as int]);
            }
            return false;
        }
        i = i + 1;
    }
    proof {
        assert(a@.take(p@.len() as int) =~= p@);
    }
    true
}

/// Whether the vector ends with the characters of `p`.
pub fn ends_with_str(a: &Vec<char>, p: &str) -> (r: bool)
    ensures
        r == has_suffix(a@, p@),
{
    let pc = str_chars(p);
    if pc.len() > a.len() {
        proof {
            assert(!has_suffix(a@, p@));
        }
        return false;
    }
    let off = a.len() - pc.len();
    let mut i: usize = 0;
    while i < pc.len()
        invariant
            pc@ == p@,
            pc@.len() <= a@.len(),
            off == a@.len() - pc@.len(),
            i <= pc@.len(),
            forall|j: int| 0 <= j < i ==> a@[off + j] == pc@[j],
        decreases pc@.len() - i,
    {
        let n = a.len();
        assert(off + i < n);
        if a[off + i] != pc[i] {
            proof {
                assert(a@.skip(a@.len() - p@.len())[i as int] != p@[i as int]);
            }
            return false;
        }
        i = i + 1;
    }
    proof {
        assert(a@.skip(a@.len() - p@.len()) =~= p@);
    }
    true
}

/// What is left of `s` once every leading white-space character is dropped.
pub open spec fn trim_front(s: Seq<char>) -> Seq<char>
    decreases s.len(),
{
    if s.len() > 0 && is_space(s[0]) {
        trim_front(s.drop_first())
    } else {
        s
    }
}

/// What is left of `s` once every trailing white-space character is dropped.
pub open spec fn trim_back(s: Seq<char>) -> Seq<char>
    decreases s.len(),
{
    if s.len() > 0 && is_space(s.last()) {
        trim_back(s.drop_last())
    } else {
        s
    }
}

/// `s` without leading and trailing white space, as `str::trim` leaves it.
pub open spec fn spec_trim(s: Seq<char>) -> Seq<char> {
    trim_back(trim_front(s))
}

/// Trimming a line of white space followed by text that neither starts nor
/// ends with white space leaves exactly the text.
pub proof fn lemma_trim_concat(pre: Seq<char>, core: Seq<char>)
    requires
        forall|i: int| 0 <= i < pre.len() ==> is_space(#[trigger] pre[i]),
        core.len() > 0,
        !is_space(core[0]),
        !is_space(core.last()),
    ensures
        spec_trim(pre + core) == core,
    decreases pre.len(),
{
    if pre.len() == 0 {
        assert(pre + core =~= core);
        assert(trim_front(core) == core);
        assert(trim_back(core) == core);
    } else {
        let s = pre + core;
        assert(s[0] == pre[0]);
        assert(is_space(s[0]));
        assert(s.drop_first() =~= pre.drop_first() + core);
        assert(forall|i: int|
            0 <= i < pre.drop_first().len() ==> is_space(#[trigger] pre.drop_first()[i]));
        lemma_trim_concat(pre.drop_first(), core);
    }
}

/// Trimming pure white space leaves nothing.
pub proof fn lemma_trim_spaces(s: Seq<char>)
    requires
        forall|i: int| 0 <= i < s.len() ==> is_space(#[trigger] s[i]),
    ensures
        spec_trim(s) == Seq::<char>::empty(),
    decreases s.len(),
{
    if s.len() == 0 {
        assert(trim_front(s) == s);
        assert(trim_back(s) =~= Seq::<char>::empty());
    } else {
        assert(is_space(s[0]));
        assert(forall|i: int| 0 <= i < s.drop_first().len() ==> is_space(#[trigger] s.drop_first()[i]));
        lemma_trim_spaces(s.drop_first());
    }
}

/// Every line that splitting yields is free of newlines.
pub proof fn lemma_lines_no_nl(t: Seq<char>)
    ensures
        forall|k: int|
            0 <= k < spec_lines(t).len() ==> #[trigger] text_has_no_nl(spec_lines(t)[k]),
    decreases t.len(),
{
    if t.len() == 0 {
    } else {
        let n = first_nl(t);
        lemma_first_nl(t);
        if n >= t.len() {
            assert(text_has_no_nl(t));
            assert(spec_lines(t) == seq![t]);
        } else {
            let l = strip_cr(t.take(n as int));
            assert(text_has_no_nl(l)) by {
                assert(forall|i: int| 0 <= i < t.take(n as int).len() ==> t.take(n as int)[i] != '\n');
            }
            lemma_lines_no_nl(t.skip(n + 1 as int));
            assert(forall|k: int|
                1 <= k < spec_lines(t).len() ==> spec_lines(t)[k] == spec_lines(t.skip(n + 1 as int))[
                k - 1]);
        }
    }
}

/// No character of `s` is a newline.
pub open spec fn text_has_no_nl(s: Seq<char>) -> bool {
    forall|i: int| 0 <= i < s.len() ==> s[i] != '\n'
}

/// Trimming keeps a text free of newlines.
pub proof fn lemma_trim_no_nl(s: Seq<char>)
    requires
        text_has_no_nl(s),
    ensures
        text_has_no_nl(spec_trim(s)),
{
    lemma_trim_front_suffix(s);
    lemma_trim_back_prefix(trim_front(s));
    let tf = trim_front(s);
    assert(forall|i: int| 0 <= i < tf.len() ==> tf[i] != '\n');
    let tb = trim_back(tf);
    assert(forall|i: int| 0 <= i < tb.len() ==> tb[i] == tf[i]);
}

/// What front trimming leaves is a suffix of the text.
pub proof fn lemma_trim_front_suffix(s: Seq<char>)
    ensures
        trim_front(s).len() <= s.len(),
        forall|i: int|
            0 <= i < trim_front(s).len() ==> trim_front(s)[i] == s[i + s.len() - trim_front(
                s,
            ).len()],
    decreases s.len(),
{
    if s.len() > 0 && is_space(s[0]) {
        lemma_trim_front_suffix(s.drop_first());
        assert(forall|i: int| 0 <= i < s.drop_first().len() ==> s.drop_first()[i] == s[i + 1]);
    }
}

/// What back trimming leaves is a prefix of the text.
pub proof fn lemma_trim_back_prefix(s: Seq<char>)
    ensures
        trim_back(s).len() <= s.len(),
        forall|i: int| 0 <= i < trim_back(s).len() ==> trim_back(s)[i] == s[i],
    decreases s.len(),
{
    if s.len() > 0 && is_space(s.last()) {
        lemma_trim_back_prefix(s.drop_last());
        assert(forall|i: int| 0 <= i < s.drop_last().len() ==> s.drop_last()[i] == s[i]);
    }
}

/// Trims white space from both ends of a character vector.
pub fn trim_chars(s: &Vec<char>) -> (r: Vec<char>)
    ensures
        r@ == spec_trim(s@),
{
    proof {
        assert(s@.skip(0) =~= s@);
    }
    let mut lo: usize = 0;
    while lo < s.len() && is_space_char(s[lo])
        invariant
            lo <= s@.len(),
            trim_front(s@) == trim_front(s@.skip(lo as int)),
        decreases s@.len() - lo,
    {
        proof {
            assert(s@.skip(lo as int).drop_first() =~= s@.skip(lo + 1 as int));
        }
        lo = lo + 1;
    }
    proof {
        assert(trim_front(s@) == s@.skip(lo as int)) by {
            if lo < s@.len() {
                assert(!is_space(s@.skip(lo as int)[0]));
            }
        }
    }
    let mut hi: usize = s.len();
    while hi > lo && is_space_char(s[hi - 1])
        invariant
            lo <= hi <= s@.len(),
            trim_front(s@) == s@.skip(lo as int),
            trim_back(s@.skip(lo as int)) == trim_back(s@.subrange(lo as int, hi as int)),
        decreases hi,
    {
        proof {
            let part = s@.subrange(lo as int, hi as int);
            assert(part.last() == s@[hi - 1]);
            assert(part.drop_last() =~= s@.subrange(lo as int, hi - 1 as int));
        }
        hi = hi - 1;
    }
    proof {
        let part = s@.subrange(lo as int, hi as int);
        if hi > lo {
            assert(!is_space(part.last()));
        }
        assert(trim_back(part) == part);
        assert(s@.skip(lo as int) =~= s@.subrange(lo as int, s@.len() as int));
    }
    copy_range(s, lo, hi)
}

/// Index of the first occurrence of `c` in `s`, or `s.len()` if there is none.
pub open spec fn first_occ(s: Seq<char>, c: char) -> nat
    decreases s.len(),
{
    if s.len() == 0 {
        0
    } else if s[0] == c {
        0
    } else {
        1 + first_occ(s.drop_first(), c)
    }
}

pub proof fn lemma_first_occ(s: Seq<char>, c: char)
    ensures
        first_occ(s, c) <= s.len(),
        forall|i: int| 0 <= i < first_occ(s, c) ==> s[i] != c,
        first_occ(s, c) < s.len() ==> s[first_occ(s, c) as int] == c,
    decreases s.len(),
{
    if s.len() == 0 || s[0] == c {
    } else {
        lemma_first_occ(s.drop_first(), c);
        assert forall|i: int| 0 <= i < first_occ(s, c) implies s[i] != c by {
            if i > 0 {
                assert(s.drop_first()[i - 1] != c);
            }
        }
    }
}

/// If `c` does not occur in `s`, its first occurrence lies at the end.
pub proof fn lemma_first_occ_none(s: Seq<char>, c: char)
    requires
        forall|i: int| 0 <= i < s.len() ==> s[i] != c,
    ensures
        first_occ(s, c) == s.len(),
{
    lemma_first_occ(s, c);
    if first_occ(s, c) < s.len() {
        assert(s[first_occ(s, c) as int] == c);
    }
}

/// Index of the first newline in `s`, or `s.len()` if there is none.
pub open spec fn first_nl(s: Seq<char>) -> nat {
    first_occ(s, '\n')
}

pub proof fn lemma_first_nl(s: Seq<char>)
    ensures
        first_nl(s) <= s.len(),
        forall|i: int| 0 <= i < first_nl(s) ==> s[i] != '\n',
        first_nl(s) < s.len() ==> s[first_nl(s) as int] == '\n',
{
    lemma_first_occ(s, '\n');
}

/// If no character of `s` is a newline, the first newline lies at the end.
pub proof fn lemma_first_nl_none(s: Seq<char>)
    requires
        forall|i: int| 0 <= i < s.len() ==> s[i] != '\n',
    ensures
        first_nl(s) == s.len(),
{
    lemma_first_occ_none(s, '\n');
}

/// A prefix free of `c` fixes where the first occurrence of `c` lies.
pub proof fn lemma_first_occ_concat(l: Seq<char>, rest: Seq<char>, c: char)
    requires
        forall|i: int| 0 <= i < l.len() ==> l[i] != c,
    ensures
        first_occ(l + seq![c] + rest, c) == l.len(),
    decreases l.len(),
{
    let s = l + seq![c] + rest;
    if l.len() == 0 {
        assert(s[0] == c);
    } else {
        assert(s[0] == l[0]);
        assert(forall|i: int| 0 <= i < l.drop_first().len() ==> l.drop_first()[i] != c);
        lemma_first_occ_concat(l.drop_first(), rest, c);
        assert(s.drop_first() =~= l.drop_first() + seq![c] + rest);
    }
}

/// A newline-free prefix fixes where the first newline of the whole lies.
pub proof fn lemma_first_nl_concat(l: Seq<char>, rest: Seq<char>)
    requires
        forall|i: int| 0 <= i < l.len() ==> l[i] != '\n',
    ensures
        first_nl(l + seq!['\n'] + rest) == l.len(),
{
    lemma_first_occ_concat(l, rest, '\n');
}

/// Index of the first occurrence of `c` in the vector, if any.
pub fn find_char(s: &Vec<char>, c: char) -> (r: Option<usize>)
    ensures
        match r {
            Some(i) => i == first_occ(s@, c) && i < s@.len(),
            None => first_occ(s@, c) == s@.len(),
        },
{
    let mut i: usize = 0;
    while i < s.len()
        invariant
            i <= s@.len(),
            forall|j: int| 0 <= j < i ==> s@[j] != c,
        decreases s@.len() - i,
    {
        if s[i] == c {
            proof {
                lemma_first_occ(s@, c);
                if first_occ(s@, c) < i {
                    assert(s@[first_occ(s@, c) as int] != c);
                }
            }
            return Some(i);
        }
        i = i + 1;
    }
    proof {
        lemma_first_occ_none(s@, c);
    }
    None
}

/// A line as `str::lines` hands it out: a final carriage return is part of
/// the line ending only when a newline followed it.
pub open spec fn strip_cr(l: Seq<char>) -> Seq<char> {
    if l.len() > 0 && l.last() == '\r' {
        l.drop_last()
    } else {
        l
    }
}

/// The lines of `s`, split as `str::lines` splits them: at each newline,
/// with a carriage return before the newline dropped, and with no final
/// empty line after a trailing newline.
pub open spec fn spec_lines(s: Seq<char>) -> Seq<Seq<char>>
    decreases s.len(),
{
    if s.len() == 0 {
        Seq::empty()
    } else {
        let n = first_nl(s);
        if n >= s.len() {
            seq![s]
        } else {
            seq![strip_cr(s.take(n as int))] + spec_lines(s.skip(n + 1 as int))
        }
    }
}

/// Splitting off a newline-terminated first line.
pub proof fn lemma_lines_unfold(l: Seq<char>, rest: Seq<char>)
    requires
        forall|i: int| 0 <= i < l.len() ==> l[i] != '\n',
    ensures
        spec_lines(l + seq!['\n'] + rest) == seq![strip_cr(l)] + spec_lines(rest),
{
    let s = l + seq!['\n'] + rest;
    lemma_first_nl_concat(l, rest);
    assert(s.take(l.len() as int) =~= l);
    assert(s.skip(l.len() + 1 as int) =~= rest);
}

/// Concatenation of lines, each closed with a newline.
pub open spec fn join_lines(ls: Seq<Seq<char>>) -> Seq<char>
    decreases ls.len(),
{
    if ls.len() == 0 {
        Seq::empty()
    } else {
        ls[0] + seq!['\n'] + join_lines(ls.drop_first())
    }
}

pub proof fn lemma_join_append(a: Seq<Seq<char>>, b: Seq<Seq<char>>)
    ensures
        join_lines(a + b) == join_lines(a) + join_lines(b),
    decreases a.len(),
{
    if a.len() == 0 {
        assert(a + b =~= b);
        assert(join_lines(a) + join_lines(b) =~= join_lines(b));
    } else {
        lemma_join_append(a.drop_first(), b);
        assert((a + b).drop_first() =~= a.drop_first() + b);
        assert((a + b)[0] == a[0]);
        assert(a[0] + seq!['\n'] + (join_lines(a.drop_first()) + join_lines(b)) =~= (a[0]
            + seq!['\n'] + join_lines(a.drop_first())) + join_lines(b));
    }
}

/// The indented separator line the encoder leaves between attributes.
pub open spec fn blank_line() -> Seq<char> {
    "    "@
}

/// A line fit for joining: no newline inside, no carriage return at the end.
pub open spec fn line_ok(l: Seq<char>) -> bool {
    (forall|i: int| 0 <= i < l.len() ==> l[i] != '\n') && (l.len() > 0 ==> l.last() != '\r')
}

/// Joining well-formed lines and splitting the result gives them back.
pub proof fn lemma_lines_of_join(ls: Seq<Seq<char>>)
    requires
        forall|k: int| 0 <= k < ls.len() ==> line_ok(#[trigger] ls[k]),
    ensures
        spec_lines(join_lines(ls)) == ls,
    decreases ls.len(),
{
    if ls.len() == 0 {
    } else {
        let l = ls[0];
        let rest = join_lines(ls.drop_first());
        assert(line_ok(l));
        lemma_lines_unfold(l, rest);
        assert(strip_cr(l) == l);
        assert forall|k: int| 0 <= k < ls.drop_first().len() implies line_ok(
            #[trigger] ls.drop_first()[k],
        ) by {
            assert(ls.drop_first()[k] == ls[k + 1]);
        }
        lemma_lines_of_join(ls.drop_first());
        assert(seq![l] + ls.drop_first() =~= ls);
    }
}

/// Splits a character vector into its lines, as `str::lines` would.
pub fn split_lines(t: &Vec<char>) -> (r: Vec<Vec<char>>)
    ensures
        r.deep_view() == spec_lines(t@),
{
    let mut r: Vec<Vec<char>> = Vec::new();
    let mut start: usize = 0;
    let mut i: usize = 0;
    proof {
        assert(t@.skip(0) =~= t@);
    }
    while i < t.len()
        invariant
            start <= i <= t@.len(),
            forall|j: int| start <= j < i ==> t@[j] != '\n',
            spec_lines(t@) == r.deep_view() + spec_lines(t@.skip(start as int)),
        decreases t@.len() - i,
    {
        if t[i] == '\n' {
            let hi = if i > start && t[i - 1] == '\r' {
                i - 1
            } else {
                i
            };
            let line = copy_range(t, start, hi);
            proof {
                let l = t@.subrange(start as int, i as int);
                assert(t@.skip(start as int) =~= l + seq!['\n'] + t@.skip(i + 1 as int));
                assert(forall|j: int| 0 <= j < l.len() ==> l[j] != '\n');
                lemma_lines_unfold(l, t@.skip(i + 1 as int));
                assert(line@ == strip_cr(l));
            }
            let ghost old_dv = r.deep_view();
            r.push(line);
            proof {
                assert(r.deep_view() =~~= old_dv.push(line@));
                assert(old_dv.push(line@) =~= old_dv + seq![line@]);
                assert((old_dv + seq![line@]) + spec_lines(t@.skip(i + 1 as int)) =~= old_dv + (
                seq![line@] + spec_lines(t@.skip(i + 1 as int))));
            }
            start = i + 1;
        }
        i = i + 1;
    }
    if start < t.len() {
        let line = copy_range(t, start, t.len());
        proof {
            let l = t@.skip(start as int);
            assert(l =~= t@.subrange(start as int, t@.len() as int));
            lemma_first_nl_none(l);
            assert(spec_lines(l) == seq![l]);
        }
        let ghost old_dv = r.deep_view();
        r.push(line);
        proof {
            assert(r.deep_view() =~~= old_dv.push(line@));
            assert(old_dv.push(line@) =~= old_dv + seq![line@]);
        }
    } else {
        proof {
            assert(t@.skip(start as int) =~= Seq::<char>::empty());
            assert(r.deep_view() + Seq::<Seq<char>>::empty() =~= r.deep_view());
        }
    }
    r
}

/// An ASCII decimal digit.
pub open spec fn is_digit(c: char) -> bool {
    48 <= c as u32 <= 57
}

/// Numeric value of an ASCII decimal digit.
pub open spec fn digit_val(c: char) -> int {
    c as u32 - 48
}

pub open spec fn all_digits(s: Seq<char>) -> bool {
    forall|i: int| 0 <= i < s.len() ==> is_digit(#[trigger] s[i])
}

/// The number a string of decimal digits denotes.
pub open spec fn digits_val(s: Seq<char>) -> int
    decreases s.len(),
{
    if s.len() == 0 {
        0
    } else {
        digits_val(s.drop_last()) * 10 + digit_val(s.last())
    }
}

pub open spec fn pow10(n: nat) -> int
    decreases n,
{
    if n == 0 {
        1
    } else {
        10 * pow10((n - 1) as nat)
    }
}

/// What `str::parse::<i32>` accepts and returns: an optional sign, then one
/// or more decimal digits, the whole denoting a value within `i32` range.
pub open spec fn parse_body(body: Seq<char>, neg: bool) -> Option<i32> {
    if body.len() == 0 || !all_digits(body) {
        None
    } else {
        let v = digits_val(body);
        if neg {
            if v <= 0x8000_0000 {
                Some((-v) as i32)
            } else {
                None
            }
        } else {
            if v <= 0x7FFF_FFFF {
                Some(v as i32)
            } else {
                None
            }
        }
    }
}

pub open spec fn spec_parse_i32(s: Seq<char>) -> Option<i32> {
    if s.len() > 0 && (s[0] == '-' || s[0] == '+') {
        parse_body(s.drop_first(), s[0] == '-')
    } else {
        parse_body(s, false)
    }
}

/// Two characters are equal exactly when their code points are.
pub proof fn lemma_char_code(c: char, d: char)
    ensures
        c == d <==> c as u32 == d as u32,
{
}

pub proof fn lemma_digits_val_upper(s: Seq<char>)
    requires
        all_digits(s),
    ensures
        digits_val(s) < pow10(s.len()),
    decreases s.len(),
{
    if s.len() > 0 {
        assert(all_digits(s.drop_last())) by {
            assert(forall|i: int| 0 <= i < s.len() - 1 ==> s.drop_last()[i] == s[i]);
        }
        lemma_digits_val_upper(s.drop_last());
        assert(digits_val(s.drop_last()) <= pow10((s.len() - 1) as nat) - 1);
        assert(digits_val(s.drop_last()) * 10 <= (pow10((s.len() - 1) as nat) - 1) * 10) by (nonlinear_arith)
            requires
                digits_val(s.drop_last()) <= pow10((s.len() - 1) as nat) - 1,
        ;
    }
}

pub proof fn lemma_digits_val_lower(s: Seq<char>)
    requires
        all_digits(s),
        s.len() > 0,
        s[0] != '0',
    ensures
        digits_val(s) >= pow10((s.len() - 1) as nat),
    decreases s.len(),
{
    if s.len() == 1 {
        assert(s.last() == s[0]);
        assert(s.drop_last() =~= Seq::<char>::empty());
        assert(digits_val(Seq::<char>::empty()) == 0);
        assert(digits_val(s) == digit_val(s[0]));
        assert(is_digit(s[0]));
        lemma_char_code(s[0], '0');
        assert(digit_val(s[0]) >= 1);
        assert(pow10(0) == 1);
    } else {
        let d = s.drop_last();
        assert(all_digits(d) && d[0] == s[0]) by {
            assert(forall|i: int| 0 <= i < s.len() - 1 ==> s.drop_last()[i] == s[i]);
        }
        lemma_digits_val_lower(d);
        assert(digits_val(d) * 10 >= pow10((d.len() - 1) as nat) * 10) by (nonlinear_arith)
            requires
                digits_val(d) >= pow10((d.len() - 1) as nat),
        ;
        assert(digit_val(s.last()) >= 0);
    }
}

/// Leading zeros do not change the value a digit string denotes.
pub proof fn lemma_digits_skip_zeros(s: Seq<char>, k: int)
    requires
        0 <= k <= s.len(),
        forall|i: int| 0 <= i < k ==> s[i] == '0',
    ensures
        digits_val(s) == digits_val(s.skip(k)),
    decreases s.len(),
{
    if s.len() == k {
        lemma_digits_all_zeros(s);
        assert(s.skip(k) =~= Seq::<char>::empty());
    } else {
        let d = s.drop_last();
        assert(forall|i: int| 0 <= i < k ==> d[i] == s[i]);
        lemma_digits_skip_zeros(d, k);
        assert(s.skip(k).drop_last() =~= d.skip(k));
        assert(s.skip(k).last() == s.last());
        assert(s.skip(k).len() > 0);
    }
}

pub proof fn lemma_digits_all_zeros(s: Seq<char>)
    requires
        forall|i: int| 0 <= i < s.len() ==> s[i] == '0',
    ensures
        digits_val(s) == 0,
    decreases s.len(),
{
    if s.len() > 0 {
        assert(forall|i: int| 0 <= i < s.len() - 1 ==> s.drop_last()[i] == s[i]);
        lemma_digits_all_zeros(s.drop_last());
        assert(digit_val(s.last()) == 0);
    }
}

/// Reads a decimal integer as `str::parse::<i32>` does.
pub fn parse_i32_chars(s: &Vec<char>) -> (r: Option<i32>)
    ensures
        r == spec_parse_i32(s@),
{
    let mut b: usize = 0;
    let mut neg: bool = false;
    if s.len() > 0 && (s[0] == '-' || s[0] == '+') {
        neg = s[0] == '-';
        b = 1;
    }
    let ghost body = s@.skip(b as int);
    proof {
        if b == 0 {
            assert(body =~= s@);
        }
        assert(spec_parse_i32(s@) == parse_body(body, neg)) by {
            if b == 1 {
                assert(s@.drop_first() =~= body);
            }
        }
    }
    if s.len() == b {
        return None;
    }
    let mut i: usize = b;
    while i < s.len()
        invariant
            b <= i <= s@.len(),
            body == s@.skip(b as int),
            spec_parse_i32(s@) == parse_body(body, neg),
            forall|j: int| b <= j < i ==> is_digit(#[trigger] s@[j]),
        decreases s@.len() - i,
    {
        let n = s[i] as u32;
        if n < 48 || n > 57 {
            proof {
                assert(body[i - b] == s@[i as int]);
                assert(!all_digits(body));
            }
            return None;
        }
        i = i + 1;
    }
    proof {
        assert(all_digits(body)) by {
            assert(forall|j: int| 0 <= j < body.len() ==> body[j] == s@[b + j]);
        }
    }
    let mut z: usize = b;
    while z < s.len() && s[z] == '0'
        invariant
            b <= z <= s@.len(),
            forall|j: int| b <= j < z ==> s@[j] == '0',
        decreases s@.len() - z,
    {
        z = z + 1;
    }
    let ghost rest = s@.skip(z as int);
    proof {
        lemma_digits_skip_zeros(body, z - b);
        assert(body.skip(z - b) =~= rest);
        assert(all_digits(rest)) by {
            assert(forall|j: int| 0 <= j < rest.len() ==> rest[j] == body[j + (z - b)]);
        }
        reveal_with_fuel(pow10, 12);
    }
    let m = s.len() - z;
    if m > 10 {
        proof {
            assert(rest[0] == s@[z as int]);
            assert(rest[0] != '0');
            lemma_digits_val_lower(rest);
            assert(pow10((rest.len() - 1) as nat) >= pow10(10)) by {
                lemma_pow10_mono(10, (rest.len() - 1) as nat);
            }
        }
        return None;
    }
    let mut acc: u64 = 0;
    let mut j: usize = z;
    proof {
        assert(s@.subrange(z as int, z as int) =~= Seq::<char>::empty());
        assert(forall|j2: int| z <= j2 < s@.len() ==> is_digit(#[trigger] s@[j2])) by {
            assert(forall|j2: int| z <= j2 < s@.len() ==> s@[j2] == body[j2 - b]);
        }
    }
    while j < s.len()
        invariant
            b <= z <= j <= s@.len(),
            s@.len() - z <= 10,
            forall|j2: int| z <= j2 < s@.len() ==> is_digit(#[trigger] s@[j2]),
            acc == digits_val(s@.subrange(z as int, j as int)),
            acc < pow10((j - z) as nat),
        decreases s@.len() - j,
    {
        proof {
            reveal_with_fuel(pow10, 12);
            lemma_pow10_mono((j - z) as nat, 9);
            assert(acc < 1000000000);
            assert(is_digit(s@[j as int]));
        }
        let c = s[j];
        let d: u64 = (c as u32 - 48) as u64;
        acc = acc * 10 + d;
        j = j + 1;
        proof {
            let sub = s@.subrange(z as int, j as int);
            assert(sub.drop_last() =~= s@.subrange(z as int, j - 1));
            assert(sub.last() == s@[j - 1]);
            assert(digit_val(s@[j - 1]) == d);
            assert(acc == digits_val(sub));
            assert(all_digits(sub)) by {
                assert(forall|j2: int| 0 <= j2 < sub.len() ==> sub[j2] == s@[z + j2]);
            }
            lemma_digits_val_upper(sub);
        }
    }
    proof {
        assert(s@.subrange(z as int, s@.len() as int) =~= rest);
        assert(digits_val(body) == acc);
        reveal_with_fuel(pow10, 12);
    }
    if neg {
        if acc <= 2147483648 {
            Some((-(acc as i64)) as i32)
        } else {
            None
        }
    } else {
        if acc <= 2147483647 {
            Some(acc as i32)
        } else {
            None
        }
    }
}

pub proof fn lemma_pow10_pos(n: nat)
    ensures
        pow10(n) >= 1,
    decreases n,
{
    if n > 0 {
        lemma_pow10_pos((n - 1) as nat);
    }
}

pub proof fn lemma_pow10_mono(a: nat, c: nat)
    requires
        a <= c,
    ensures
        pow10(a) <= pow10(c),
        pow10(a) >= 1,
    decreases c,
{
    lemma_pow10_pos(a);
    if a < c {
        lemma_pow10_mono(a, (c - 1) as nat);
        lemma_pow10_pos((c - 1) as nat);
    }
}

pub open spec fn digit_char(d: int) -> char {
    if d == 0 {
        '0'
    } else if d == 1 {
        '1'
    } else if d == 2 {
        '2'
    } else if d == 3 {
        '3'
    } else if d == 4 {
        '4'
    } else if d == 5 {
        '5'
    } else if d == 6 {
        '6'
    } else if d == 7 {
        '7'
    } else if d == 8 {
        '8'
    } else {
        '9'
    }
}

/// The decimal digits of a non-negative number, empty for zero.
pub open spec fn spec_udigits(n: int) -> Seq<char>
    decreases n,
{
    if n <= 0 {
        Seq::empty()
    } else {
        spec_udigits(n / 10).push(digit_char(n % 10))
    }
}

/// The decimal rendering `i32::to_string` produces.
pub open spec fn spec_i32_chars(n: int) -> Seq<char> {
    if n == 0 {
        seq!['0']
    } else if n > 0 {
        spec_udigits(n)
    } else {
        seq!['-'] + spec_udigits(-n)
    }
}

fn digit_to_char(d: u64) -> (c: char)
    requires
        d < 10,
    ensures
        c == digit_char(d as int),
{
    if d == 0 {
        '0'
    } else if d == 1 {
        '1'
    } else if d == 2 {
        '2'
    } else if d == 3 {
        '3'
    } else if d == 4 {
        '4'
    } else if d == 5 {
        '5'
    } else if d == 6 {
        '6'
    } else if d == 7 {
        '7'
    } else if d == 8 {
        '8'
    } else {
        '9'
    }
}

/// Renders an integer in decimal, as `i32::to_string` does.
pub fn i32_chars(n: i32) -> (r: Vec<char>)
    ensures
        r@ == spec_i32_chars(n as int),
{
    let mut r: Vec<char> = Vec::new();
    if n == 0 {
        r.push('0');
        proof {
            assert(r@ =~= seq!['0']);
        }
        return r;
    }
    let neg = n < 0;
    let mut m: u64 = if n < 0 {
        (-(n as i64)) as u64
    } else {
        n as u64
    };
    let ghost mag = m as int;
    let mut ds: Vec<char> = Vec::new();
    proof {
        assert(spec_udigits(mag) =~= spec_udigits(mag) + ds@.reverse());
    }
    while m > 0
        invariant
            spec_udigits(mag) == spec_udigits(m as int) + ds@.reverse(),
        decreases m,
    {
        let d = m % 10;
        let ghost old_ds = ds@;
        let ghost old_m = m as int;
        ds.push(digit_to_char(d));
        m = m / 10;
        proof {
            assert(spec_udigits(old_m) == spec_udigits(old_m / 10).push(digit_char(old_m % 10)));
            assert(ds@.reverse() =~= seq![digit_char(old_m % 10)] + old_ds.reverse());
            assert(spec_udigits(m as int) + ds@.reverse() =~= (spec_udigits(old_m / 10).push(
                digit_char(old_m % 10),
            )) + old_ds.reverse());
        }
    }
    proof {
        assert(spec_udigits(mag) =~= ds@.reverse());
    }
    if neg {
        r.push('-');
    }
    let ghost pre = r@;
    let mut k = ds.len();
    proof {
        assert(ds@.subrange(k as int, ds@.len() as int).reverse() =~= Seq::<char>::empty());
        assert(r@ =~= pre + ds@.subrange(k as int, ds@.len() as int).reverse());
    }
    while k > 0
        invariant
            k <= ds@.len(),
            r@ == pre + ds@.subrange(k as int, ds@.len() as int).reverse(),
        decreases k,
    {
        k = k - 1;
        r.push(ds[k]);
        proof {
            assert(ds@.subrange(k as int, ds@.len() as int).reverse() =~= ds@.subrange(
                k + 1,
                ds@.len() as int,
            ).reverse().push(ds@[k as int]));
            assert(r@ =~= pre + ds@.subrange(k as int, ds@.len() as int).reverse());
        }
    }
    proof {
        assert(ds@.subrange(0, ds@.len() as int) =~= ds@);
        if neg {
            assert(mag == -(n as int));
            assert(r@ =~= seq!['-'] + spec_udigits(-(n as int)));
        } else {
            assert(r@ =~= spec_udigits(n as int));
        }
    }
    r
}

/// Every digit string the renderer produces parses back to the number.
pub proof fn lemma_udigits_facts(n: int)
    requires
        n > 0,
    ensures
        all_digits(spec_udigits(n)),
        spec_udigits(n).len() > 0,
        spec_udigits(n)[0] != '0',
        digits_val(spec_udigits(n)) == n,
    decreases n,
{
    let s = spec_udigits(n);
    assert(0 <= n % 10 < 10);
    assert(is_digit(digit_char(n % 10)));
    if n < 10 {
        assert(n / 10 == 0 && n % 10 == n);
        assert(spec_udigits(0) == Seq::<char>::empty());
        assert(s == Seq::<char>::empty().push(digit_char(n)));
        assert(s =~= seq![digit_char(n)]);
        assert(s[0] == digit_char(n));
        assert(digit_char(n) != '0');
        assert(s.drop_last() =~= Seq::<char>::empty());
        assert(digits_val(Seq::<char>::empty()) == 0);
        assert(s.last() == digit_char(n));
        assert(digits_val(s) == digit_val(digit_char(n)));
        assert(digit_val(digit_char(n)) == n);
    } else {
        assert(n / 10 >= 1);
        lemma_udigits_facts(n / 10);
        let p = spec_udigits(n / 10);
        assert(s == p.push(digit_char(n % 10)));
        assert(s[0] == p[0]);
        assert(all_digits(s)) by {
            assert(forall|i: int| 0 <= i < p.len() ==> s[i] == p[i]);
        }
        assert(s.drop_last() =~= p);
        assert(digits_val(s) == digits_val(p) * 10 + digit_val(s.last()));
        assert(digit_val(digit_char(n % 10)) == n % 10);
        assert(digits_val(s) == (n / 10) * 10 + n % 10);
        assert((n / 10) * 10 + n % 10 == n) by (nonlinear_arith);
    }
}

/// Rendering an `i32` and parsing the text yields the number again.
pub proof fn lemma_parse_of_render(n: i32)
    ensures
        spec_parse_i32(spec_i32_chars(n as int)) == Some(n),
{
    let s = spec_i32_chars(n as int);
    if n == 0 {
        assert(s == seq!['0']);
        assert(s[0] != '-' && s[0] != '+');
        assert(all_digits(s)) by {
            assert(is_digit('0'));
        }
        assert(s.drop_last() =~= Seq::<char>::empty());
        assert(digits_val(Seq::<char>::empty()) == 0);
        assert(s.last() == '0' && digit_val('0') == 0);
        assert(digits_val(s) == 0);
    } else if n > 0 {
        lemma_udigits_facts(n as int);
        assert(s[0] != '-' && s[0] != '+') by {
            assert(is_digit(s[0]));
        }
        assert(digits_val(s) == n as int);
        assert((n as int) as i32 == n);
    } else {
        lemma_udigits_facts(-(n as int));
        let body = spec_udigits(-(n as int));
        assert(s == seq!['-'] + body);
        assert(s[0] == '-');
        assert(s.drop_first() =~= body);
        assert(digits_val(body) == -(n as int));
        assert(-(n as int) <= 0x8000_0000);
        assert((-digits_val(body)) as i32 == n);
    }
}

/// The rendering of an integer holds no newline and no carriage return.
pub proof fn lemma_i32_chars_line_ok(n: int)
    ensures
        line_ok(spec_i32_chars(n)),
        spec_i32_chars(n).len() > 0,
        !is_space(spec_i32_chars(n)[0]),
        !is_space(spec_i32_chars(n).last()),
{
    let s = spec_i32_chars(n);
    if n == 0 {
        assert(s == seq!['0']);
    } else if n > 0 {
        lemma_udigits_facts(n);
        assert(forall|i: int| 0 <= i < s.len() ==> is_digit(#[trigger] s[i]));
        assert(forall|i: int| 0 <= i < s.len() ==> s[i] != '\n' && s[i] != '\r') by {
            assert(forall|c: char| is_digit(c) ==> c != '\n' && c != '\r');
        }
        assert(is_digit(s[0]) && is_digit(s.last()));
        assert(forall|c: char| is_digit(c) ==> !is_space(c));
    } else {
        lemma_udigits_facts(-n);
        let body = spec_udigits(-n);
        assert(forall|i: int| 0 <= i < body.len() ==> is_digit(#[trigger] body[i]));
        assert(forall|i: int| 0 <= i < s.len() ==> s[i] != '\n' && s[i] != '\r') by {
            assert(s[0] == '-');
            assert(forall|i: int| 1 <= i < s.len() ==> s[i] == body[i - 1] && is_digit(body[i - 1]));
            assert(forall|c: char| is_digit(c) ==> c != '\n' && c != '\r');
        }
        assert(s.last() == body.last() && is_digit(body.last()));
        assert(forall|c: char| is_digit(c) ==> !is_space(c));
        assert(!is_space('-'));
    }
}

} // verus!
