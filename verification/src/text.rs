//! Small verified string utilities shared by the rest of the library.

use vstd::prelude::*;

verus! {

use vstd::string::StringExecFns;
use vstd::string::StrSliceExecFns;

/// Relies on std's `String::push`: appends one character at the end of the string.
#[verifier::external_body]
pub fn push_char(s: &mut String, c: char)
    ensures
        final(s)@ == old(s)@.push(c),
{
    s.push(c);
}

/// The characters of `s` with every space replaced by an underscore.
pub open spec fn spec_replace_spaces(s: Seq<char>) -> Seq<char> {
    s.map_values(|c: char| if c == ' ' { '_' } else { c })
}

/// Replace every space character by an underscore.
pub fn replace_spaces(s: &str) -> (r: String)
    ensures
        r@ == spec_replace_spaces(s@),
{
    let n: usize = s.unicode_len();
    let mut out = String::new();
    let mut i: usize = 0;
    while i < n
        invariant
            n == s@.len(),
            i <= n,
            out@ == spec_replace_spaces(s@.take(i as int)),
        decreases n - i,
    {
        let c = s.get_char(i);
        if c == ' ' {
            push_char(&mut out, '_');
        } else {
            push_char(&mut out, c);
        }
        proof {
            assert(s@.take(i + 1) == s@.take(i as int).push(s@[i as int]));
            assert(spec_replace_spaces(s@.take(i + 1)) =~= spec_replace_spaces(
                s@.take(i as int),
            ).push(if s@[i as int] == ' ' { '_' } else { s@[i as int] }));
        }
        i = i + 1;
    }
    proof {
        assert(s@.take(n as int) == s@);
    }
    out
}

/// `needle` occurs in `hay` starting at position `i`.
pub open spec fn is_substring_at(hay: Seq<char>, needle: Seq<char>, i: int) -> bool {
    0 <= i && i + needle.len() <= hay.len() && hay.subrange(i, i + needle.len()) == needle
}

/// `needle` occurs somewhere in `hay`.
pub open spec fn contains_sub(hay: Seq<char>, needle: Seq<char>) -> bool {
    exists|i: int| is_substring_at(hay, needle, i)
}

/// Substring search by character positions.
pub fn str_contains(hay: &str, needle: &str) -> (r: bool)
    ensures
        r == contains_sub(hay@, needle@),
{
    let n: usize = hay.unicode_len();
    let m: usize = needle.unicode_len();
    if m > n {
        proof {
            assert(forall|i: int| !is_substring_at(hay@, needle@, i));
        }
        return false;
    }
    if m == 0 {
        proof {
            assert(hay@.subrange(0, 0) =~= needle@);
            assert(is_substring_at(hay@, needle@, 0));
        }
        return true;
    }
    let mut i: usize = 0;
    while i <= n - m
        invariant
            n == hay@.len(),
            m == needle@.len(),
            0 < m <= n,
            i <= n - m + 1,
            forall|j: int| 0 <= j < i ==> !is_substring_at(hay@, needle@, j),
        decreases n - m - i + 1,
    {
        let mut k: usize = 0;
        let mut matches = true;
        while k < m
            invariant
                n == hay@.len(),
                m == needle@.len(),
                i + m <= n,
                k <= m,
                matches ==> forall|t: int| 0 <= t < k ==> hay@[i + t] == needle@[t],
                !matches ==> !is_substring_at(hay@, needle@, i as int),
            decreases m - k,
        {
            if matches {
                let hc = hay.get_char(i + k);
                let nc = needle.get_char(k);
                if hc != nc {
                    proof {
                        assert(hay@.subrange(i as int, i + m as int)[k as int] == hay@[i + k]);
                    }
                    matches = false;
                }
            }
            k = k + 1;
        }
        if matches {
            proof {
                assert(hay@.subrange(i as int, i + m as int) =~= needle@);
                assert(is_substring_at(hay@, needle@, i as int));
            }
            return true;
        }
        i = i + 1;
    }
    proof {
        assert(forall|j: int| j > n - m ==> !is_substring_at(hay@, needle@, j));
    }
    false
}

/// Prefix test by character positions.
pub fn str_starts_with(s: &str, prefix: &str) -> (r: bool)
    ensures
        r == (s@.len() >= prefix@.len() && s@.subrange(0, prefix@.len() as int) == prefix@),
{
    let n: usize = s.unicode_len();
    let m: usize = prefix.unicode_len();
    if m > n {
        return false;
    }
    let mut k: usize = 0;
    while k < m
        invariant
            n == s@.len(),
            m == prefix@.len(),
            m <= n,
            k <= m,
            forall|t: int| 0 <= t < k ==> s@[t] == prefix@[t],
        decreases m - k,
    {
        let sc = s.get_char(k);
        let pc = prefix.get_char(k);
        if sc != pc {
            proof {
                assert(s@.subrange(0, m as int)[k as int] == s@[k as int]);
            }
            return false;
        }
        k = k + 1;
    }
    proof {
        assert(s@.subrange(0, m as int) =~= prefix@);
    }
    true
}

/// The position of the first occurrence of `c` in `s`, if any.
pub open spec fn spec_find(s: Seq<char>, c: char) -> Option<int>
    decreases s.len(),
{
    if s.len() == 0 {
        None
    } else if s[0] == c {
        Some(0)
    } else {
        match spec_find(s.drop_first(), c) {
            Some(i) => Some(i + 1),
            None => None,
        }
    }
}

/// The found position indexes an occurrence of `c`, and nothing before it is one.
pub proof fn lemma_spec_find(s: Seq<char>, c: char)
    ensures
        match spec_find(s, c) {
            Some(i) => 0 <= i < s.len() && s[i] == c && forall|j: int| 0 <= j < i ==> s[j] != c,
            None => forall|j: int| 0 <= j < s.len() ==> s[j] != c,
        },
    decreases s.len(),
{
    if s.len() > 0 && s[0] != c {
        lemma_spec_find(s.drop_first(), c);
        let rest = s.drop_first();
        assert(forall|k: int| 0 <= k < rest.len() ==> rest[k] == s[k + 1]);
        match spec_find(rest, c) {
            Some(i) => {
                assert(s[i + 1] == rest[i]);
                assert forall|j: int| 0 <= j < i + 1 implies s[j] != c by {
                    if j > 0 {
                        assert(rest[j - 1] != c);
                    }
                }
            },
            None => {
                assert forall|j: int| 0 <= j < s.len() implies s[j] != c by {
                    if j > 0 {
                        assert(rest[j - 1] != c);
                    }
                }
            },
        }
    }
}

/// First position of `c` in `s`, if any.
pub fn find_char(s: &str, c: char) -> (r: Option<usize>)
    ensures
        match r {
            Some(i) => spec_find(s@, c) == Some(i as int),
            None => spec_find(s@, c) is None,
        },
{
    let n: usize = s.unicode_len();
    let mut i: usize = 0;
    proof {
        assert(s@.skip(0) =~= s@);
    }
    while i < n
        invariant
            n == s@.len(),
            i <= n,
            spec_find(s@, c) == match spec_find(s@.skip(i as int), c) {
                Some(t) => Some(i + t),
                None => None::<int>,
            },
        decreases n - i,
    {
        proof {
            assert(s@.skip(i as int)[0] == s@[i as int]);
            assert(s@.skip(i as int).drop_first() =~= s@.skip(i + 1));
        }
        if s.get_char(i) == c {
            return Some(i);
        }
        i = i + 1;
    }
    proof {
        assert(s@.skip(n as int) =~= Seq::<char>::empty());
    }
    None
}

/// The characters of `s` from `from` (inclusive) to `to` (exclusive), as an owned string.
pub fn substring(s: &str, from: usize, to: usize) -> (r: String)
    requires
        from <= to <= s@.len(),
    ensures
        r@ == s@.subrange(from as int, to as int),
{
    let sub = s.substring_char(from, to);
    sub.to_owned()
}

/// Character-for-character equality of two strings.
pub fn str_eq(a: &str, b: &str) -> (r: bool)
    ensures
        r == (a@ == b@),
{
    let sa = a.to_owned();
    let sb = b.to_owned();
    sa == sb
}

/// Append one argument token to an argument vector.
pub fn push_arg(args: &mut Vec<String>, s: &str)
    ensures
        final(args).deep_view() == old(args).deep_view() + seq![s@],
{
    args.push(String::from_str(s));
    proof {
        assert(args.deep_view() =~= old(args).deep_view() + seq![s@]);
    }
}

/// Append one owned argument token to an argument vector.
pub fn push_arg_string(args: &mut Vec<String>, s: String)
    ensures
        final(args).deep_view() == old(args).deep_view() + seq![s@],
{
    let ghost v = s@;
    args.push(s);
    proof {
        assert(args.deep_view() =~= old(args).deep_view() + seq![v]);
    }
}

/// A canonicalised path with the Windows extended-length prefix removed;
/// tools spawned with such paths do not handle the prefix.
pub open spec fn spec_strip_extended_prefix(s: Seq<char>) -> Seq<char> {
    if s.len() >= 4 && s.subrange(0, 4) == "\\\\?\\"@ {
        s.skip(4)
    } else {
        s
    }
}

/// Remove the Windows extended-length path prefix, if present.
pub fn strip_extended_prefix(s: &str) -> (r: String)
    ensures
        r@ == spec_strip_extended_prefix(s@),
{
    if str_starts_with(s, "\\\\?\\") {
        proof {
            reveal_strlit("\\\\?\\");
            assert("\\\\?\\"@.len() == 4);
        }
        let n: usize = s.unicode_len();
        let r = substring(s, 4, n);
        proof {
            assert(s@.subrange(4, n as int) =~= s@.skip(4));
        }
        r
    } else {
        proof {
            reveal_strlit("\\\\?\\");
            assert("\\\\?\\"@.len() == 4);
        }
        s.to_owned()
    }
}

/// The string `s` wrapped in double quotes.
pub fn quoted(s: &str) -> (r: String)
    ensures
        r@ == "\""@ + s@ + "\""@,
{
    String::from_str("\"").concat(s).concat("\"")
}

/// The decimal digit character for a value below ten.
pub open spec fn digit_char(d: nat) -> char {
    if d == 0 {
        '0'
    } else if d == 1 {
        '1'
    } else if d == 2 {
        '2'
    } else if d == 3 {
        '3'
    } else if d == 4 {
        '4'
    } else if d == 5 {
        '5'
    } else if d == 6 {
        '6'
    } else if d == 7 {
        '7'
    } else if d == 8 {
        '8'
    } else {
        '9'
    }
}

/// The decimal representation of `n`, most significant digit first.
pub open spec fn dec_digits(n: nat) -> Seq<char>
    decreases n,
{
    if n < 10 {
        seq![digit_char(n)]
    } else {
        dec_digits(n / 10).push(digit_char(n % 10))
    }
}

/// Write `n` in decimal.
pub fn u64_to_string(n: u64) -> (r: String)
    ensures
        r@ == dec_digits(n as nat),
{
    let mut rev: Vec<char> = Vec::new();
    let mut rest: u64 = n;
    let mut done = false;
    while !done
        invariant
            !done ==> dec_digits(n as nat) == dec_digits(rest as nat) + rev@.reverse(),
            done ==> dec_digits(n as nat) == rev@.reverse(),
        decreases (if done { 0int } else { 1int }), rest,
    {
        let d: u64 = rest % 10;
        let c = digit_char_exec(d);
        let next: u64 = rest / 10;
        if next == 0 {
            proof {
                assert(dec_digits(rest as nat) == seq![digit_char(d as nat)]);
                assert((rev@.push(c)).reverse() =~= seq![digit_char(d as nat)] + rev@.reverse());
            }
            rev.push(c);
            done = true;
        } else {
            proof {
                assert(dec_digits(rest as nat) == dec_digits(next as nat).push(
                    digit_char(d as nat),
                ));
                assert(dec_digits(next as nat) + (rev@.push(c)).reverse() =~= dec_digits(
                    next as nat,
                ).push(digit_char(d as nat)) + rev@.reverse());
            }
            rev.push(c);
            rest = next;
        }
    }
    let mut out = String::new();
    let len: usize = rev.len();
    let mut i: usize = len;
    while i > 0
        invariant
            len == rev@.len(),
            i <= len,
            out@ == rev@.reverse().take((len - i) as int),
        decreases i,
    {
        i = i - 1;
        let c = rev[i];
        push_char(&mut out, c);
        proof {
            assert(rev@.reverse()[(len - i - 1) as int] == rev@[i as int]);
            assert(rev@.reverse().take((len - i) as int) == rev@.reverse().take(
                (len - i - 1) as int,
            ).push(rev@[i as int]));
        }
    }
    proof {
        assert(out@ == rev@.reverse());
    }
    out
}

/// The digit character of `d`, for `d < 10`.
pub fn digit_char_exec(d: u64) -> (c: char)
    requires
        d < 10,
    ensures
        c == digit_char(d as nat),
{
    if d == 0 {
        '0'
    } else if d == 1 {
        '1'
    } else if d == 2 {
        '2'
    } else if d == 3 {
        '3'
    } else if d == 4 {
        '4'
    } else if d == 5 {
        '5'
    } else if d == 6 {
        '6'
    } else if d == 7 {
        '7'
    } else if d == 8 {
        '8'
    } else {
        '9'
    }
}

} // verus!
