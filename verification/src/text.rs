//! Text helpers for the layout engine: splitting cell content into visual
//! lines and rendering small numbers as decimal strings.

use vstd::prelude::*;
use vstd::string::*;

verus! {

/// The visual lines of a cell, accumulated left to right: `start` marks the
/// beginning of the line under construction, `i` the position examined next.
/// A line ends at each line feed; a final fragment without a trailing line
/// feed forms one more line, so content with a trailing line feed yields no
/// extra empty line and empty content yields no lines at all.
pub open spec fn split_rec(s: Seq<char>, i: int, start: int, acc: Seq<Seq<char>>) -> Seq<Seq<char>>
    decreases s.len() - i,
{
    if !(0 <= start && start <= i && i < s.len()) {
        if 0 <= start && start <= i && start < s.len() {
            acc.push(s.subrange(start, s.len() as int))
        } else {
            acc
        }
    } else if s[i] == '\n' {
        split_rec(s, i + 1, i + 1, acc.push(s.subrange(start, i)))
    } else {
        split_rec(s, i + 1, start, acc)
    }
}

/// The visual lines of a cell's content.
pub open spec fn spec_split_lines(s: Seq<char>) -> Seq<Seq<char>> {
    split_rec(s, 0, 0, Seq::empty())
}

/// Splits `s` at each line feed into the cell's visual lines.
pub fn split_lines(s: &str) -> (r: Vec<String>)
    ensures
        r.deep_view() == spec_split_lines(s@),
{
    let n = s.unicode_len();
    let mut r: Vec<String> = Vec::new();
    let mut start: usize = 0;
    let mut i: usize = 0;
    proof {
        assert(r.deep_view() =~= Seq::<Seq<char>>::empty());
    }
    while i < n
        invariant
            n == s@.len(),
            start <= i <= n,
            split_rec(s@, i as int, start as int, r.deep_view()) == spec_split_lines(s@),
        decreases n - i,
    {
        if s.get_char(i) == '\n' {
            let piece = s.substring_char(start, i);
            let ghost prev = r.deep_view();
            r.push(String::from_str(piece));
            proof {
                assert(r.deep_view() =~= prev.push(s@.subrange(start as int, i as int)));
            }
            start = i + 1;
        }
        i += 1;
    }
    if start < n {
        let piece = s.substring_char(start, n);
        let ghost prev = r.deep_view();
        r.push(String::from_str(piece));
        proof {
            assert(r.deep_view() =~= prev.push(s@.subrange(start as int, n as int)));
        }
    }
    r
}

/// The decimal digit character for a value between 0 and 9.
pub open spec fn spec_digit(d: int) -> char {
    "0123456789"@[d]
}

/// The decimal representation of a number, most significant digit first.
pub open spec fn dec_rep(n: nat) -> Seq<char>
    decreases n,
{
    if n < 10 {
        seq![spec_digit(n as int)]
    } else {
        dec_rep(n / 10).push(spec_digit((n % 10) as int))
    }
}

/// Renders `n` in decimal.
pub fn usize_to_string(n: usize) -> (r: String)
    ensures
        r@ == dec_rep(n as nat),
    decreases n,
{
    let digits = "0123456789";
    proof {
        reveal_strlit("0123456789");
    }
    if n < 10 {
        let r = String::from_str(digits.substring_char(n, n + 1));
        proof {
            assert(r@ =~= seq![spec_digit(n as int)]);
        }
        r
    } else {
        let mut r = usize_to_string(n / 10);
        let d = n % 10;
        let ghost prev = r@;
        r.append(digits.substring_char(d, d + 1));
        proof {
            assert(r@ =~= prev.push(spec_digit((n % 10) as int)));
        }
        r
    }
}

} // verus!
