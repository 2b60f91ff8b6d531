//! Text helpers: splitting into lines, substring search, lowercasing, and
//! rendering numbers in decimal.

use vstd::prelude::*;

verus! {

// ---------------------------------------------------------------------
// Splitting text into lines.
// ---------------------------------------------------------------------
/// The index of the first newline in `s`, or `s.len()` when there is none.
pub open spec fn first_newline(s: Seq<char>) -> nat
    decreases s.len(),
{
    if s.len() == 0 {
        0
    } else if s[0] == '\n' {
        0
    } else {
        1 + first_newline(s.drop_first())
    }
}

/// A newline index never passes the end of the text.
proof fn lemma_first_newline_le(s: Seq<char>)
    ensures
        first_newline(s) <= s.len(),
    decreases s.len(),
{
    if s.len() > 0 && s[0] != '\n' {
        lemma_first_newline_le(s.drop_first());
    }
}

/// The first newline is exactly where the first newline is found: before
/// `j` no newline, and at `j` either one, or the end of the text.
proof fn lemma_first_newline_at(s: Seq<char>, j: int)
    requires
        0 <= j <= s.len(),
        forall|i: int| 0 <= i < j ==> s[i] != '\n',
        j < s.len() ==> s[j] == '\n',
    ensures
        first_newline(s) == j,
    decreases s.len(),
{
    if s.len() > 0 && j > 0 {
        assert(forall|i: int| 0 <= i < j - 1 ==> s.drop_first()[i] == s[i + 1]);
        lemma_first_newline_at(s.drop_first(), j - 1);
    }
}

/// A line with its terminating carriage return taken off; lines that end
/// otherwise stay whole.
pub open spec fn strip_cr(l: Seq<char>) -> Seq<char> {
    if l.len() > 0 && l.last() == '\r' {
        l.drop_last()
    } else {
        l
    }
}

/// The lines of a text: pieces between newlines, each stripped of a
/// carriage return before its newline; a final piece without a newline is
/// kept whole, and a terminating newline opens no further empty line.
pub open spec fn split_lines(s: Seq<char>) -> Seq<Seq<char>>
    decreases s.len(),
    via split_lines_decreases
{
    if s.len() == 0 {
        Seq::empty()
    } else {
        let k = first_newline(s) as int;
        if k == s.len() {
            seq![s]
        } else {
            seq![strip_cr(s.take(k))] + split_lines(s.skip(k + 1))
        }
    }
}

#[via_fn]
proof fn split_lines_decreases(s: Seq<char>) {
    lemma_first_newline_le(s);
}

/// Splits a text into its lines, each borrowed from the text.
pub fn lines_vec<'a>(contents: &'a str) -> (r: Vec<&'a str>)
    ensures
        r@.map_values(|l: &str| l@) == split_lines(contents@),
{
    let n = contents.unicode_len();
    let mut r: Vec<&'a str> = Vec::new();
    proof {
        assert(contents@.skip(0) =~= contents@);
        assert(r@.map_values(|l: &str| l@) + split_lines(contents@) =~= split_lines(
            contents@,
        ));
    }
    let mut pos: usize = 0;
    while pos < n
        invariant
            n == contents@.len(),
            pos <= n,
            r@.map_values(|l: &str| l@) + split_lines(contents@.skip(pos as int))
                =~= split_lines(contents@),
        decreases n - pos,
    {
        let ghost prev_r = r@;
        let ghost sub = contents@.skip(pos as int);
        // Find the next newline, or the end of the text.
        let mut k: usize = pos;
        while k < n && contents.get_char(k) != '\n'
            invariant
                n == contents@.len(),
                pos <= k <= n,
                forall|t: int| pos <= t < k ==> contents@[t] != '\n',
            decreases n - k,
        {
            k += 1;
        }
        proof {
            assert(forall|t: int| 0 <= t < k - pos ==> sub[t] == contents@[t + pos]);
            lemma_first_newline_at(sub, k - pos);
        }
        let line: &'a str = if k < n {
            // A newline was found: the line ends there, minus a carriage
            // return just before it.
            let line_end = if k > pos && contents.get_char(k - 1) == '\r' {
                k - 1
            } else {
                k
            };
            proof {
                assert(sub.take(k - pos) =~= contents@.subrange(pos as int, k as int));
                assert(strip_cr(sub.take(k - pos)) =~= contents@.subrange(
                    pos as int,
                    line_end as int,
                ));
            }
            contents.substring_char(pos, line_end)
        } else {
            proof {
                assert(sub =~= contents@.subrange(pos as int, n as int));
            }
            contents.substring_char(pos, n)
        };
        r.push(line);
        proof {
            assert(r@.map_values(|l: &str| l@) =~= prev_r.map_values(|l: &str| l@).push(
                line@,
            ));
            if k < n {
                assert(split_lines(sub) == seq![strip_cr(sub.take(k - pos))] + split_lines(
                    sub.skip(k - pos + 1),
                ));
                assert(sub.skip(k - pos + 1) =~= contents@.skip(k + 1));
                assert(prev_r.map_values(|l: &str| l@).push(line@) + split_lines(
                    contents@.skip(k + 1),
                ) =~= prev_r.map_values(|l: &str| l@) + split_lines(sub));
            } else {
                assert(split_lines(sub) == seq![sub]);
                assert(line@ == sub);
                assert(contents@.skip(n as int) =~= Seq::<char>::empty());
                assert(prev_r.map_values(|l: &str| l@).push(line@) + split_lines(
                    contents@.skip(n as int),
                ) =~= prev_r.map_values(|l: &str| l@) + split_lines(sub));
            }
        }
        pos = if k < n {
            k + 1
        } else {
            n
        };
    }
    proof {
        assert(contents@.skip(n as int) =~= Seq::<char>::empty());
        assert(r@.map_values(|l: &str| l@) + split_lines(Seq::<char>::empty()) =~= r@.map_values(
            |l: &str| l@,
        ));
    }
    r
}

// ---------------------------------------------------------------------
// Substring search.
// ---------------------------------------------------------------------
/// Whether `needle` occurs contiguously in `hay`. The empty needle occurs
/// in everything.
pub open spec fn contains_sub(hay: Seq<char>, needle: Seq<char>) -> bool {
    exists|i: int|
        0 <= i <= hay.len() - needle.len() && #[trigger] hay.subrange(i, i + needle.len())
            == needle
}

/// Whether `needle` starts at position `i` of `hay`.
fn matches_at(hay: &str, needle: &str, i: usize) -> (r: bool)
    requires
        i + needle@.len() <= hay@.len(),
    ensures
        r == (hay@.subrange(i as int, i as int + needle@.len()) == needle@),
{
    let hay_len = hay.unicode_len();
    let needle_len = needle.unicode_len();
    let mut j: usize = 0;
    while j < needle_len
        invariant
            hay_len == hay@.len(),
            needle_len == needle@.len(),
            i + needle_len <= hay@.len(),
            j <= needle_len,
            forall|k: int| 0 <= k < j ==> hay@[i + k] == needle@[k],
        decreases needle_len - j,
    {
        if hay.get_char(i + j) != needle.get_char(j) {
            proof {
                assert(hay@.subrange(i as int, i as int + needle@.len())[j as int] == hay@[
                    i + j
                ]);
            }
            return false;
        }
        j += 1;
    }
    proof {
        assert(hay@.subrange(i as int, i as int + needle@.len()) =~= needle@);
    }
    true
}

/// Whether `needle` occurs anywhere in `hay`.
pub fn contains_substr(hay: &str, needle: &str) -> (r: bool)
    ensures
        r == contains_sub(hay@, needle@),
{
    let hay_len = hay.unicode_len();
    let needle_len = needle.unicode_len();
    if needle_len > hay_len {
        return false;
    }
    let mut i: usize = 0;
    while i <= hay_len - needle_len
        invariant
            hay_len == hay@.len(),
            needle_len == needle@.len(),
            needle_len <= hay_len,
            i <= hay_len - needle_len + 1,
            forall|k: int|
                0 <= k < i ==> #[trigger] hay@.subrange(k, k + needle@.len()) != needle@,
        decreases hay_len - needle_len + 1 - i,
    {
        if matches_at(hay, needle, i) {
            return true;
        }
        proof {
            if needle@.len() == 0 {
                assert(hay@.subrange(i as int, i as int) =~= needle@);
            }
        }
        i += 1;
    }
    false
}

// ---------------------------------------------------------------------
// Lowercasing.
// ---------------------------------------------------------------------
/// What lowercasing returns for a given text: a function of the characters
/// alone, left without a definition here.
pub uninterp spec fn lower_of(s: Seq<char>) -> Seq<char>;

/// Relies on `str::to_lowercase`: the lowercase equivalent of the text,
/// depending on its characters alone.
#[verifier::external_body]
pub(crate) fn lowercase(s: &str) -> (r: String)
    ensures
        r@ == lower_of(s@),
{
    s.to_lowercase()
}

// ---------------------------------------------------------------------
// Decimal rendering.
// ---------------------------------------------------------------------
/// The decimal digit characters.
pub open spec fn digit_char(d: nat) -> char {
    if d == 0 {
        '0'
    } else if d == 1 {
        '1'
    } else if d == 2 {
        '2'
    } else if d == 3 {
        '3'
    } else if d == 4 {
        '4'
    } else if d == 5 {
        '5'
    } else if d == 6 {
        '6'
    } else if d == 7 {
        '7'
    } else if d == 8 {
        '8'
    } else {
        '9'
    }
}

/// The decimal writing of `n`, most significant digit first, without
/// leading zeros (zero itself is written "0").
pub open spec fn dec_chars(n: nat) -> Seq<char>
    decreases n,
{
    if n < 10 {
        seq![digit_char(n)]
    } else {
        dec_chars(n / 10).push(digit_char(n % 10))
    }
}

/// The one-character text for a single decimal digit.
fn digit_str(d: u64) -> (r: &'static str)
    requires
        d < 10,
    ensures
        r@ == dec_chars(d as nat),
{
    proof {
        reveal_strlit("0");
        reveal_strlit("1");
        reveal_strlit("2");
        reveal_strlit("3");
        reveal_strlit("4");
        reveal_strlit("5");
        reveal_strlit("6");
        reveal_strlit("7");
        reveal_strlit("8");
        reveal_strlit("9");
    }
    if d == 0 {
        proof {
            assert("0"@ =~= dec_chars(0));
        }
        "0"
    } else if d == 1 {
        proof {
            assert("1"@ =~= dec_chars(1));
        }
        "1"
    } else if d == 2 {
        proof {
            assert("2"@ =~= dec_chars(2));
        }
        "2"
    } else if d == 3 {
        proof {
            assert("3"@ =~= dec_chars(3));
        }
        "3"
    } else if d == 4 {
        proof {
            assert("4"@ =~= dec_chars(4));
        }
        "4"
    } else if d == 5 {
        proof {
            assert("5"@ =~= dec_chars(5));
        }
        "5"
    } else if d == 6 {
        proof {
            assert("6"@ =~= dec_chars(6));
        }
        "6"
    } else if d == 7 {
        proof {
            assert("7"@ =~= dec_chars(7));
        }
        "7"
    } else if d == 8 {
        proof {
            assert("8"@ =~= dec_chars(8));
        }
        "8"
    } else {
        proof {
            assert("9"@ =~= dec_chars(9));
        }
        "9"
    }
}

/// Writes `n` in decimal.
pub fn u64_to_string(n: u64) -> (s: String)
    ensures
        s@ == dec_chars(n as nat),
    decreases n,
{
    if n < 10 {
        String::from_str(digit_str(n))
    } else {
        let mut s = u64_to_string(n / 10);
        s.append(digit_str(n % 10));
        proof {
            assert(dec_chars((n / 10) as nat) + dec_chars((n % 10) as nat) =~= dec_chars(
                (n / 10) as nat,
            ).push(digit_char((n % 10) as nat)));
        }
        s
    }
}

} // verus!
