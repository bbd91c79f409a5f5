use vstd::prelude::*;
use vstd::string::StrSliceExecFns;
use crate::text::{
    alphabetic, alphanumeric, chars_of, copy_chars, alnum_char, alpha_char, space_char, lower_text,
    lowercase, same_chars, string_from_chars, upper_char, uppercase, whitespace,
};

verus! {

/// The alphanumeric characters of `s`, in order.
pub open spec fn keep_alnum(s: Seq<char>) -> Seq<char>
    decreases s.len(),
{
    if s.len() == 0 {
        s
    } else if alnum_char(s.last()) {
        keep_alnum(s.drop_last()).push(s.last())
    } else {
        keep_alnum(s.drop_last())
    }
}

/// Splitting `s` at white space: the words already closed, and the word being read.
pub open spec fn scan_words(s: Seq<char>) -> (Seq<Seq<char>>, Seq<char>)
    decreases s.len(),
{
    if s.len() == 0 {
        (Seq::empty(), Seq::empty())
    } else {
        let (done, current) = scan_words(s.drop_last());
        if space_char(s.last()) {
            if current.len() > 0 {
                (done.push(current), Seq::empty())
            } else {
                (done, Seq::empty())
            }
        } else {
            (done, current.push(s.last()))
        }
    }
}

/// The maximal runs of non-white-space characters of `s`, in order.
pub open spec fn words(s: Seq<char>) -> Seq<Seq<char>> {
    let (done, current) = scan_words(s);
    if current.len() > 0 {
        done.push(current)
    } else {
        done
    }
}

/// Every character of `w` is alphabetic.
pub open spec fn all_alpha(w: Seq<char>) -> bool {
    forall|i: int| 0 <= i < w.len() ==> alpha_char(#[trigger] w[i])
}

/// The words of `ws` made of alphabetic characters only, in order.
pub open spec fn only_alpha(ws: Seq<Seq<char>>) -> Seq<Seq<char>>
    decreases ws.len(),
{
    if ws.len() == 0 {
        ws
    } else if all_alpha(ws.last()) {
        only_alpha(ws.drop_last()).push(ws.last())
    } else {
        only_alpha(ws.drop_last())
    }
}

/// Bytes taken by `c` in UTF-8.
pub open spec fn utf8_width(c: char) -> nat {
    if (c as u32) < 0x80 {
        1
    } else if (c as u32) < 0x800 {
        2
    } else if (c as u32) < 0x10000 {
        3
    } else {
        4
    }
}

/// Bytes taken by `w` in UTF-8.
pub open spec fn byte_len(w: Seq<char>) -> nat
    decreases w.len(),
{
    if w.len() == 0 {
        0
    } else {
        byte_len(w.drop_last()) + utf8_width(w.last())
    }
}

/// The longest word of `ws` by bytes, the last one among equals; empty when
/// there is none.
pub open spec fn longest(ws: Seq<Seq<char>>) -> Seq<char>
    decreases ws.len(),
{
    if ws.len() == 0 {
        Seq::empty()
    } else {
        let best = longest(ws.drop_last());
        if ws.len() == 1 || byte_len(ws.last()) >= byte_len(best) {
            ws.last()
        } else {
            best
        }
    }
}

/// The first character of `s` that is not alphabetic, or `'\0'`.
pub open spec fn separator(s: Seq<char>) -> char
    decreases s.len(),
{
    if s.len() == 0 {
        '\0'
    } else if !alpha_char(s[0]) {
        s[0]
    } else {
        separator(s.drop_first())
    }
}

/// What the character at `i` becomes: the first character of each piece between
/// separators `sep` is upper-cased.
pub open spec fn title_piece(s: Seq<char>, sep: char, i: int) -> Seq<char> {
    if s[i] != sep && (i == 0 || s[i - 1] == sep) {
        upper_char(s[i])
    } else {
        seq![s[i]]
    }
}

/// The first `n` characters of `s` in title case with separator `sep`.
pub open spec fn title_prefix(s: Seq<char>, sep: char, n: int) -> Seq<char>
    decreases n,
{
    if n <= 0 {
        Seq::empty()
    } else {
        title_prefix(s, sep, n - 1) + title_piece(s, sep, n - 1)
    }
}

/// `s` in title case.
pub open spec fn title_of(s: Seq<char>) -> Seq<char> {
    title_prefix(s, separator(s), s.len() as int)
}

/// The characters of `str` in reverse order.
pub fn reverser_string(str: &str) -> (r: String)
    ensures
        r@ == str@.reverse(),
{
    let n = str.unicode_len();
    let mut out: Vec<char> = Vec::new();
    let mut i: usize = n;
    while i > 0
        invariant
            n == str@.len(),
            i <= n,
            out@ == str@.subrange(i as int, n as int).reverse(),
        decreases i,
    {
        i = i - 1;
        out.push(str.get_char(i));
        proof {
            assert(out@ =~= str@.subrange(i as int, n as int).reverse());
        }
    }
    proof {
        assert(str@.subrange(0, n as int) =~= str@);
    }
    string_from_chars(&out)
}

/// Whether `str` reads the same both ways once only its alphanumeric
/// characters are kept and they are lower-cased.
pub fn palindrome_check(str: &str) -> (r: bool)
    ensures
        r == (lower_text(keep_alnum(str@)) == lower_text(keep_alnum(str@)).reverse()),
{
    let chars = chars_of(str);
    let mut kept: Vec<char> = Vec::new();
    let mut i: usize = 0;
    while i < chars.len()
        invariant
            chars@ == str@,
            i <= chars@.len(),
            kept@ == keep_alnum(str@.subrange(0, i as int)),
        decreases chars@.len() - i,
    {
        let c = chars[i];
        proof {
            assert(str@.subrange(0, i + 1).drop_last() =~= str@.subrange(0, i as int));
        }
        if alphanumeric(c) {
            kept.push(c);
        }
        i = i + 1;
    }
    proof {
        assert(str@.subrange(0, chars@.len() as int) =~= str@);
    }
    let cleaned = lowercase(string_from_chars(&kept).as_str());
    let low = chars_of(cleaned.as_str());
    let n = low.len();
    let mut k: usize = 0;
    while k < n
        invariant
            n == low@.len(),
            low@ == lower_text(keep_alnum(str@)),
            k <= n,
            forall|j: int| 0 <= j < k ==> #[trigger] low@[j] == low@[n - 1 - j],
        decreases n - k,
    {
        if low[k] != low[n - 1 - k] {
            proof {
                assert(low@.reverse()[k as int] != low@[k as int]);
            }
            return false;
        }
        k = k + 1;
    }
    proof {
        assert(low@ =~= low@.reverse());
    }
    true
}

/// The words of `s`, split at white space.
pub fn split_words(s: &str) -> (r: Vec<Vec<char>>)
    ensures
        r.deep_view() == words(s@),
{
    let chars = chars_of(s);
    let mut done: Vec<Vec<char>> = Vec::new();
    let mut current: Vec<char> = Vec::new();
    let mut i: usize = 0;
    while i < chars.len()
        invariant
            chars@ == s@,
            i <= chars@.len(),
            (done.deep_view(), current@) == scan_words(s@.subrange(0, i as int)),
        decreases chars@.len() - i,
    {
        let c = chars[i];
        proof {
            assert(s@.subrange(0, i + 1).drop_last() =~= s@.subrange(0, i as int));
        }
        if whitespace(c) {
            if current.len() > 0 {
                let ghost pre = done.deep_view();
                let word = current;
                let ghost w = word@;
                proof {
                    assert(word.deep_view() =~= w);
                }
                current = Vec::new();
                done.push(word);
                proof {
                    assert(done.deep_view() =~= pre.push(w));
                }
            } else {
                current = Vec::new();
            }
        } else {
            current.push(c);
        }
        i = i + 1;
    }
    proof {
        assert(s@.subrange(0, chars@.len() as int) =~= s@);
    }
    if current.len() > 0 {
        let ghost pre = done.deep_view();
        let word = current;
        let ghost w = word@;
        proof {
            assert(word.deep_view() =~= w);
        }
        done.push(word);
        proof {
            assert(done.deep_view() =~= pre.push(w));
        }
    }
    done
}

/// Whether every character of `w` is alphabetic.
fn all_alphabetic(w: &Vec<char>) -> (r: bool)
    ensures
        r == all_alpha(w@),
{
    let mut i: usize = 0;
    while i < w.len()
        invariant
            i <= w@.len(),
            forall|k: int| 0 <= k < i ==> alpha_char(#[trigger] w@[k]),
        decreases w@.len() - i,
    {
        if !alphabetic(w[i]) {
            return false;
        }
        i = i + 1;
    }
    true
}

/// Whether `w` is among `seen`.
fn contains_word(seen: &Vec<Vec<char>>, w: &Vec<char>) -> (r: bool)
    ensures
        r == seen.deep_view().contains(w@),
{
    let mut i: usize = 0;
    while i < seen.len()
        invariant
            i <= seen@.len(),
            forall|k: int| 0 <= k < i ==> #[trigger] seen.deep_view()[k] != w@,
        decreases seen@.len() - i,
    {
        proof {
            assert(seen@[i as int].deep_view() =~= seen@[i as int]@);
        }
        if same_chars(&seen[i], w) {
            proof {
                assert(seen.deep_view()[i as int] == w@);
            }
            return true;
        }
        i = i + 1;
    }
    false
}

/// The number of distinct words of `str` made of alphabetic characters only.
pub fn word_count(str: &str) -> (r: usize)
    ensures
        r == only_alpha(words(str@)).to_set().len(),
{
    let ws = split_words(str);
    let mut seen: Vec<Vec<char>> = Vec::new();
    let mut k: usize = 0;
    proof {
        assert(ws.deep_view().subrange(0, 0) =~= Seq::<Seq<char>>::empty());
        assert(seen.deep_view() =~= Seq::<Seq<char>>::empty());
        assert(Seq::<Seq<char>>::empty().to_set() =~= Set::<Seq<char>>::empty());
    }
    while k < ws.len()
        invariant
            ws.deep_view() == words(str@),
            k <= ws@.len(),
            seen.deep_view().no_duplicates(),
            seen.deep_view().to_set() == only_alpha(ws.deep_view().subrange(0, k as int)).to_set(),
        decreases ws@.len() - k,
    {
        let ghost before = seen.deep_view();
        proof {
            assert(ws.deep_view().subrange(0, k + 1).drop_last() =~= ws.deep_view().subrange(0, k as int));
            assert(ws@[k as int].deep_view() =~= ws@[k as int]@);
            assert(ws.deep_view()[k as int] == ws@[k as int]@);
            assert(ws.deep_view().subrange(0, k + 1).last() == ws@[k as int]@);
            before.lemma_push_to_set_commute(ws@[k as int]@);
            only_alpha(ws.deep_view().subrange(0, k as int)).lemma_push_to_set_commute(ws@[k as int]@);
        }
        if all_alphabetic(&ws[k]) {
            if !contains_word(&seen, &ws[k]) {
                let w = copy_chars(&ws[k]);
                let ghost wv = w@;
                proof {
                    assert(w.deep_view() =~= wv);
                }
                seen.push(w);
                proof {
                    assert(seen.deep_view() =~= before.push(wv));
                }
            } else {
                proof {
                    assert(before.to_set().contains(ws@[k as int]@));
                    assert(before.to_set().insert(ws@[k as int]@) =~= before.to_set());
                }
            }
        }
        k = k + 1;
    }
    proof {
        assert(ws.deep_view().subrange(0, ws@.len() as int) =~= ws.deep_view());
        seen.deep_view().unique_seq_to_set();
    }
    seen.len()
}

/// Bytes taken by `w` in UTF-8.
fn utf8_len(w: &Vec<char>) -> (r: u128)
    ensures
        r == byte_len(w@),
{
    let mut total: u128 = 0;
    let mut i: usize = 0;
    while i < w.len()
        invariant
            i <= w@.len(),
            total == byte_len(w@.subrange(0, i as int)),
            total <= 4 * i,
        decreases w@.len() - i,
    {
        proof {
            assert(w@.subrange(0, i + 1).drop_last() =~= w@.subrange(0, i as int));
        }
        let code = w[i] as u32;
        let width: u128 = if code < 0x80 {
            1
        } else if code < 0x800 {
            2
        } else if code < 0x10000 {
            3
        } else {
            4
        };
        total = total + width;
        i = i + 1;
    }
    proof {
        assert(w@.subrange(0, w@.len() as int) =~= w@);
    }
    total
}

/// The longest alphabetic word of `str`, counted in bytes; the last one among
/// equally long words; empty when there is none.
pub fn longest_word(str: &str) -> (r: String)
    ensures
        r@ == longest(only_alpha(words(str@))),
{
    let ws = split_words(str);
    let mut best: Vec<char> = Vec::new();
    let mut best_len: u128 = 0;
    let mut any = false;
    let mut k: usize = 0;
    proof {
        assert(ws.deep_view().subrange(0, 0) =~= Seq::<Seq<char>>::empty());
    }
    while k < ws.len()
        invariant
            ws.deep_view() == words(str@),
            k <= ws@.len(),
            best@ == longest(only_alpha(ws.deep_view().subrange(0, k as int))),
            best_len == byte_len(best@),
            any == (only_alpha(ws.deep_view().subrange(0, k as int)).len() > 0),
        decreases ws@.len() - k,
    {
        proof {
            assert(ws.deep_view().subrange(0, k + 1).drop_last() =~= ws.deep_view().subrange(0, k as int));
            assert(ws@[k as int].deep_view() =~= ws@[k as int]@);
            assert(ws.deep_view()[k as int] == ws@[k as int]@);
            assert(ws.deep_view().subrange(0, k + 1).last() == ws@[k as int]@);
        }
        if all_alphabetic(&ws[k]) {
            proof {
                let oa = only_alpha(ws.deep_view().subrange(0, k as int));
                assert(oa.push(ws@[k as int]@).drop_last() =~= oa);
            }
            let len = utf8_len(&ws[k]);
            if !any || len >= best_len {
                best = copy_chars(&ws[k]);
                best_len = len;
            }
            any = true;
        }
        k = k + 1;
    }
    proof {
        assert(ws.deep_view().subrange(0, ws@.len() as int) =~= ws.deep_view());
    }
    string_from_chars(&best)
}

/// Upper-cases the first character of each piece of `str` between copies of its
/// first non-alphabetic character, which stay in place.
pub fn title_case(str: &str) -> (r: String)
    ensures
        r@ == title_of(str@),
{
    let chars = chars_of(str);
    let n = chars.len();
    let mut i: usize = 0;
    proof {
        assert(str@.subrange(0, n as int) =~= str@);
    }
    while i < n && alphabetic(chars[i])
        invariant
            chars@ == str@,
            n == str@.len(),
            i <= n,
            separator(str@) == separator(str@.subrange(i as int, n as int)),
        decreases n - i,
    {
        proof {
            assert(str@.subrange(i as int, n as int).drop_first() =~= str@.subrange(i + 1, n as int));
        }
        i = i + 1;
    }
    let sep = if i < n { chars[i] } else { '\0' };
    proof {
        if i == n {
            assert(str@.subrange(i as int, n as int).len() == 0);
        }
    }
    let mut out: Vec<char> = Vec::new();
    let mut j: usize = 0;
    while j < n
        invariant
            chars@ == str@,
            n == str@.len(),
            sep == separator(str@),
            j <= n,
            out@ == title_prefix(str@, sep, j as int),
        decreases n - j,
    {
        let c = chars[j];
        if c != sep && (j == 0 || chars[j - 1] == sep) {
            let mut up = uppercase(c);
            out.append(&mut up);
        } else {
            out.push(c);
        }
        proof {
            assert(out@ =~= title_prefix(str@, sep, j + 1));
        }
        j = j + 1;
    }
    string_from_chars(&out)
}

} // verus!
