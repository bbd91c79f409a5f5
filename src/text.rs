use vstd::prelude::*;
use vstd::string::StrSliceExecFns;

verus! {

/// Whether `c` is alphabetic or numeric in Unicode's sense.
pub uninterp spec fn is_alnum(c: char) -> bool;

/// Whether `c` is alphabetic in Unicode's sense.
pub uninterp spec fn is_alpha(c: char) -> bool;

/// Whether `c` is white space in Unicode's sense.
pub uninterp spec fn is_space(c: char) -> bool;

/// The lower-case form of a string.
pub uninterp spec fn lower_of(s: Seq<char>) -> Seq<char>;

/// The upper-case form of one character; it may be several characters long.
pub uninterp spec fn upper_of(c: char) -> Seq<char>;

/// `c` is an ASCII character.
pub open spec fn is_ascii_char(c: char) -> bool {
    (c as u32) < 128
}

/// `c` is an ASCII letter.
pub open spec fn is_ascii_letter(c: char) -> bool {
    ('a' <= c && c <= 'z') || ('A' <= c && c <= 'Z')
}

/// The lower-case form of an ASCII character.
pub open spec fn ascii_lower(c: char) -> char {
    if 'A' <= c && c <= 'Z' {
        ((c as u32) + 32) as char
    } else {
        c
    }
}

/// The upper-case form of an ASCII character.
pub open spec fn ascii_upper(c: char) -> char {
    if 'a' <= c && c <= 'z' {
        ((c as u32) - 32) as char
    } else {
        c
    }
}

/// Whether `c` is alphabetic or numeric: on ASCII the letters and digits.
pub open spec fn alnum_char(c: char) -> bool {
    if is_ascii_char(c) {
        is_ascii_letter(c) || ('0' <= c && c <= '9')
    } else {
        is_alnum(c)
    }
}

/// Whether `c` is alphabetic: on ASCII the letters.
pub open spec fn alpha_char(c: char) -> bool {
    if is_ascii_char(c) {
        is_ascii_letter(c)
    } else {
        is_alpha(c)
    }
}

/// Whether `c` is white space: on ASCII the space, tab, line feed, vertical
/// tab, form feed and carriage return.
pub open spec fn space_char(c: char) -> bool {
    if is_ascii_char(c) {
        c == ' ' || ('\t' <= c && c <= '\r')
    } else {
        is_space(c)
    }
}

/// The lower-case form of `s`: an ASCII string is lowered character by character.
pub open spec fn lower_text(s: Seq<char>) -> Seq<char> {
    if forall|i: int| 0 <= i < s.len() ==> is_ascii_char(#[trigger] s[i]) {
        s.map_values(|c: char| ascii_lower(c))
    } else {
        lower_of(s)
    }
}

/// The upper-case form of `c`: an ASCII character gives its upper-case form alone.
pub open spec fn upper_char(c: char) -> Seq<char> {
    if is_ascii_char(c) {
        seq![ascii_upper(c)]
    } else {
        upper_of(c)
    }
}

/// Relies on `char::is_alphanumeric`; on ASCII it holds of letters and digits.
#[verifier::external_body]
pub(crate) fn alphanumeric(c: char) -> (r: bool)
    ensures
        r == alnum_char(c),
        !is_ascii_char(c) ==> r == is_alnum(c),
{
    c.is_alphanumeric()
}

/// Relies on `char::is_alphabetic`; on ASCII it holds of letters.
#[verifier::external_body]
pub(crate) fn alphabetic(c: char) -> (r: bool)
    ensures
        r == alpha_char(c),
        !is_ascii_char(c) ==> r == is_alpha(c),
{
    c.is_alphabetic()
}

/// Relies on `char::is_whitespace`; on ASCII it holds of the space and of tab,
/// line feed, vertical tab, form feed and carriage return.
#[verifier::external_body]
pub(crate) fn whitespace(c: char) -> (r: bool)
    ensures
        r == space_char(c),
        !is_ascii_char(c) ==> r == is_space(c),
{
    c.is_whitespace()
}

/// Relies on `str::to_lowercase`: the result depends on the characters alone;
/// an ASCII string is lowered character by character.
#[verifier::external_body]
pub(crate) fn lowercase(s: &str) -> (r: String)
    ensures
        r@ == lower_text(s@),
        (exists|i: int| 0 <= i < s@.len() && !is_ascii_char(#[trigger] s@[i])) ==> r@ == lower_of(s@),
{
    s.to_lowercase()
}

/// Relies on `char::to_uppercase`, collected into characters; an ASCII
/// character gives its upper-case form alone.
#[verifier::external_body]
pub(crate) fn uppercase(c: char) -> (r: Vec<char>)
    ensures
        r@ == upper_char(c),
        !is_ascii_char(c) ==> r@ == upper_of(c),
{
    c.to_uppercase().collect()
}

/// Whether two character vectors are equal.
pub fn same_chars(a: &Vec<char>, b: &Vec<char>) -> (r: bool)
    ensures
        r == (a@ == b@),
{
    if a.len() != b.len() {
        return false;
    }
    let mut i: usize = 0;
    while i < a.len()
        invariant
            a@.len() == b@.len(),
            i <= a@.len(),
            forall|k: int| 0 <= k < i ==> a@[k] == b@[k],
        decreases a@.len() - i,
    {
        if a[i] != b[i] {
            return false;
        }
        i = i + 1;
    }
    proof {
        assert(a@ =~= b@);
    }
    true
}

/// A fresh copy of `w`.
pub fn copy_chars(w: &Vec<char>) -> (r: Vec<char>)
    ensures
        r@ == w@,
{
    let mut r: Vec<char> = Vec::new();
    let mut i: usize = 0;
    while i < w.len()
        invariant
            i <= w@.len(),
            r@ == w@.subrange(0, i as int),
        decreases w@.len() - i,
    {
        r.push(w[i]);
        i = i + 1;
        proof {
            assert(r@ =~= w@.subrange(0, i as int));
        }
    }
    proof {
        assert(r@ =~= w@);
    }
    r
}

/// Whether `a` and `b` hold the same characters.
pub fn same_text(a: &str, b: &str) -> (r: bool)
    ensures
        r == (a@ == b@),
{
    let n = a.unicode_len();
    if n != b.unicode_len() {
        return false;
    }
    let mut i: usize = 0;
    while i < n
        invariant
            n == a@.len() == b@.len(),
            i <= n,
            forall|k: int| 0 <= k < i ==> a@[k] == b@[k],
        decreases n - i,
    {
        if a.get_char(i) != b.get_char(i) {
            return false;
        }
        i = i + 1;
    }
    proof {
        assert(a@ =~= b@);
    }
    true
}

/// The characters of `s`, in order.
pub fn chars_of(s: &str) -> (r: Vec<char>)
    ensures
        r@ == s@,
{
    let n = s.unicode_len();
    let mut r: Vec<char> = Vec::new();
    let mut i: usize = 0;
    while i < n
        invariant
            n == s@.len(),
            i <= n,
            r@ == s@.subrange(0, i as int),
        decreases n - i,
    {
        r.push(s.get_char(i));
        i = i + 1;
        proof {
            assert(r@ =~= s@.subrange(0, i as int));
        }
    }
    proof {
        assert(r@ =~= s@);
    }
    r
}

/// Relies on `FromIterator<char>` for `String`: the string of the given characters.
#[verifier::external_body]
pub(crate) fn string_from_chars(chars: &Vec<char>) -> (r: String)
    ensures
        r@ == chars@,
{
    chars.iter().collect()
}

/// Splitting `s` at `sep`: the pieces already closed, and the piece being read.
pub open spec fn scan_pieces(s: Seq<char>, sep: char) -> (Seq<Seq<char>>, Seq<char>)
    decreases s.len(),
{
    if s.len() == 0 {
        (Seq::empty(), Seq::empty())
    } else {
        let (done, current) = scan_pieces(s.drop_last(), sep);
        if s.last() == sep {
            (done.push(current), Seq::empty())
        } else {
            (done, current.push(s.last()))
        }
    }
}

/// The pieces of `s` between copies of `sep`, empty ones included.
pub open spec fn pieces(s: Seq<char>, sep: char) -> Seq<Seq<char>> {
    scan_pieces(s, sep).0.push(scan_pieces(s, sep).1)
}

/// Splits `s` at every `sep`.
pub fn split_pieces(s: &Vec<char>, sep: char) -> (r: Vec<Vec<char>>)
    ensures
        r.deep_view() == pieces(s@, sep),
{
    let mut done: Vec<Vec<char>> = Vec::new();
    let mut current: Vec<char> = Vec::new();
    let mut i: usize = 0;
    while i < s.len()
        invariant
            i <= s@.len(),
            (done.deep_view(), current@) == scan_pieces(s@.subrange(0, i as int), sep),
        decreases s@.len() - i,
    {
        let c = s[i];
        proof {
            assert(s@.subrange(0, i + 1).drop_last() =~= s@.subrange(0, i as int));
        }
        if c == sep {
            let ghost pre = done.deep_view();
            let piece = current;
            let ghost p = piece@;
            proof {
                assert(piece.deep_view() =~= p);
            }
            current = Vec::new();
            done.push(piece);
            proof {
                assert(done.deep_view() =~= pre.push(p));
            }
        } else {
            current.push(c);
        }
        i = i + 1;
    }
    proof {
        assert(s@.subrange(0, s@.len() as int) =~= s@);
    }
    let ghost pre = done.deep_view();
    let piece = current;
    let ghost p = piece@;
    proof {
        assert(piece.deep_view() =~= p);
    }
    done.push(piece);
    proof {
        assert(done.deep_view() =~= pre.push(p));
    }
    done
}

/// `line` without one trailing carriage return.
pub open spec fn strip_cr(line: Seq<char>) -> Seq<char> {
    if line.len() > 0 && line.last() == '\r' {
        line.drop_last()
    } else {
        line
    }
}

/// Each line of `ls` without its trailing carriage return.
pub open spec fn strip_all(ls: Seq<Seq<char>>) -> Seq<Seq<char>>
    decreases ls.len(),
{
    if ls.len() == 0 {
        ls
    } else {
        strip_all(ls.drop_last()).push(strip_cr(ls.last()))
    }
}

/// The lines of `s`: split at line feeds, each without a trailing carriage
/// return; a final line feed ends the last line rather than starting an empty one.
pub open spec fn lines_of(s: Seq<char>) -> Seq<Seq<char>> {
    let ps = pieces(s, '\n');
    if ps.last().len() == 0 {
        strip_all(ps.drop_last())
    } else {
        strip_all(ps)
    }
}

/// The lines of `text`.
pub fn lines(text: &str) -> (r: Vec<Vec<char>>)
    ensures
        r.deep_view() == lines_of(text@),
{
    let chars = chars_of(text);
    let mut ps = split_pieces(&chars, '\n');
    let n = ps.len();
    proof {
        assert(ps.deep_view().len() == ps@.len());
        assert(pieces(text@, '\n').len() > 0);
        assert(ps@[n - 1].deep_view() =~= ps@[n - 1]@);
    }
    if ps[n - 1].len() == 0 {
        let ghost pre = ps.deep_view();
        ps.pop();
        proof {
            assert(ps.deep_view() =~= pre.drop_last());
        }
    }
    let ghost source = ps.deep_view();
    let mut out: Vec<Vec<char>> = Vec::new();
    let mut i: usize = 0;
    while i < ps.len()
        invariant
            source == ps.deep_view(),
            i <= ps@.len(),
            out.deep_view() == strip_all(source.subrange(0, i as int)),
        decreases ps@.len() - i,
    {
        proof {
            assert(source.subrange(0, i + 1).drop_last() =~= source.subrange(0, i as int));
            assert(ps@[i as int].deep_view() =~= ps@[i as int]@);
        }
        let line = &ps[i];
        let mut copy: Vec<char> = Vec::new();
        let mut end = line.len();
        if end > 0 && line[end - 1] == '\r' {
            end = end - 1;
        }
        let mut k: usize = 0;
        while k < end
            invariant
                end <= line@.len(),
                k <= end,
                copy@ == line@.subrange(0, k as int),
            decreases end - k,
        {
            copy.push(line[k]);
            k = k + 1;
            proof {
                assert(copy@ =~= line@.subrange(0, k as int));
            }
        }
        let ghost c = copy@;
        proof {
            assert(c =~= strip_cr(line@));
            assert(copy.deep_view() =~= c);
        }
        let ghost pre = out.deep_view();
        out.push(copy);
        proof {
            assert(out.deep_view() =~= pre.push(c));
        }
        i = i + 1;
    }
    proof {
        assert(source.subrange(0, ps@.len() as int) =~= source);
    }
    out
}

} // verus!
