//! Character-level helpers on strings: comparison, documentation-line
//! cleaning and joining.

use vstd::prelude::*;
use vstd::string::*;
use vstd::utf8::*;

verus! {

/// Decides whether two strings hold the same characters.
pub fn same_text(a: &str, b: &str) -> (r: bool)
    ensures
        r == (a@ == b@),
{
    let x = a.as_bytes();
    let y = b.as_bytes();
    if x.len() != y.len() {
        return false;
    }
    let mut i: usize = 0;
    while i < x.len()
        invariant
            x@ == a.spec_bytes(),
            y@ == b.spec_bytes(),
            x@.len() == y@.len(),
            i <= x@.len(),
            forall|j: int| 0 <= j < i ==> x@[j] == y@[j],
        decreases x@.len() - i,
    {
        if x[i] != y[i] {
            return false;
        }
        i += 1;
    }
    proof {
        assert(x@ =~= y@);
        encode_utf8_decode_utf8(a@);
        encode_utf8_decode_utf8(b@);
    }
    true
}

/// The Unicode `White_Space` property, which is what trimming removes.
pub open spec fn is_space(c: char) -> bool {
    let u = c as u32;
    ||| 0x09 <= u <= 0x0D
    ||| u == 0x20
    ||| u == 0x85
    ||| u == 0xA0
    ||| u == 0x1680
    ||| 0x2000 <= u <= 0x200A
    ||| u == 0x2028
    ||| u == 0x2029
    ||| u == 0x202F
    ||| u == 0x205F
    ||| u == 0x3000
}

/// `s` without its leading white space.
pub open spec fn trim_start(s: Seq<char>) -> Seq<char>
    decreases s.len(),
{
    if s.len() > 0 && is_space(s[0]) {
        trim_start(s.skip(1))
    } else {
        s
    }
}

/// `s` without its trailing white space.
pub open spec fn trim_end(s: Seq<char>) -> Seq<char>
    decreases s.len(),
{
    if s.len() > 0 && is_space(s.last()) {
        trim_end(s.drop_last())
    } else {
        s
    }
}

/// `s` without leading and trailing white space.
pub open spec fn trimmed(s: Seq<char>) -> Seq<char> {
    trim_end(trim_start(s))
}

/// `s` after removing the three-character marker `m` from its front as often
/// as it occurs there.
pub open spec fn strip_marker(s: Seq<char>, m: Seq<char>) -> Seq<char>
    decreases s.len(),
{
    if m.len() == 3 && m.is_prefix_of(s) {
        strip_marker(s.skip(3), m)
    } else {
        s
    }
}

/// `s` without the marker `*/` that closes a block comment, where `s` ends
/// in it.
pub open spec fn strip_closing(s: Seq<char>) -> Seq<char> {
    if s.len() >= 2 && s[s.len() - 2] == '*' && s[s.len() - 1] == '/' {
        s.take(s.len() - 2)
    } else {
        s
    }
}

/// The text of one documentation line: the comment markers `//!`, `///`,
/// `/*!` and `/**` are removed from its front, in this order and each as often
/// as it occurs; then the marker `*/` is removed from its end, where it
/// stands there; and what is left is trimmed.
pub open spec fn doc_line_text(line: Seq<char>) -> Seq<char> {
    trimmed(
        strip_closing(
            strip_marker(
                strip_marker(
                    strip_marker(strip_marker(line, seq!['/', '/', '!']), seq!['/', '/', '/']),
                    seq!['/', '*', '!'],
                ),
                seq!['/', '*', '*'],
            ),
        ),
    )
}

fn space(c: char) -> (r: bool)
    ensures
        r == is_space(c),
{
    let u: u32 = c as u32;
    (0x09 <= u && u <= 0x0D) || u == 0x20 || u == 0x85 || u == 0xA0 || u == 0x1680 || (0x2000 <= u
        && u <= 0x200A) || u == 0x2028 || u == 0x2029 || u == 0x202F || u == 0x205F || u == 0x3000
}

/// Advances `lo` past every leading occurrence of the marker `a b c`.
fn skip_marker(line: &str, n: usize, lo: usize, a: char, b: char, c: char) -> (r: usize)
    requires
        n == line@.len(),
        lo <= n,
    ensures
        lo <= r <= n,
        line@.skip(r as int) == strip_marker(line@.skip(lo as int), seq![a, b, c]),
{
    let mut at: usize = lo;
    let ghost m = seq![a, b, c];
    loop
        invariant
            n == line@.len(),
            lo <= at <= n,
            m == seq![a, b, c],
            strip_marker(line@.skip(at as int), m) == strip_marker(line@.skip(lo as int), m),
        decreases n - at,
    {
        let ghost rest = line@.skip(at as int);
        if n - at < 3 {
            assert(!m.is_prefix_of(rest));
            return at;
        }
        if line.get_char(at) != a || line.get_char(at + 1) != b || line.get_char(at + 2) != c {
            assert(!m.is_prefix_of(rest)) by {
                if m.is_prefix_of(rest) {
                    assert(rest[0] == m[0] && rest[1] == m[1] && rest[2] == m[2]);
                }
            }
            return at;
        }
        proof {
            assert(m.is_prefix_of(rest)) by {
                assert(rest.subrange(0, 3) =~= m);
            }
            assert(rest.skip(3) =~= line@.skip(at + 3));
        }
        at += 3;
    }
}

/// Finds the part of `line` between `from` and `to` that is left when the
/// white space at both ends is left out.
fn trim_range(line: &str, n: usize, from: usize, to: usize) -> (r: (usize, usize))
    requires
        n == line@.len(),
        from <= to <= n,
    ensures
        from <= r.0 <= r.1 <= to,
        line@.subrange(r.0 as int, r.1 as int) == trimmed(line@.subrange(from as int, to as int)),
{
    let mut lo: usize = from;
    while lo < to && space(line.get_char(lo))
        invariant
            n == line@.len(),
            from <= lo <= to <= n,
            trim_start(line@.subrange(lo as int, to as int)) == trim_start(
                line@.subrange(from as int, to as int),
            ),
        decreases to - lo,
    {
        assert(line@.subrange(lo as int, to as int).skip(1) =~= line@.subrange(lo + 1, to as int));
        lo += 1;
    }
    let ghost body = line@.subrange(lo as int, to as int);
    assert(trim_start(line@.subrange(from as int, to as int)) == body);
    let mut hi: usize = to;
    while lo < hi && space(line.get_char(hi - 1))
        invariant
            n == line@.len(),
            lo <= hi <= to <= n,
            body == line@.subrange(lo as int, to as int),
            trim_end(line@.subrange(lo as int, hi as int)) == trim_end(body),
        decreases hi - lo,
    {
        assert(line@.subrange(lo as int, hi as int).drop_last() =~= line@.subrange(
            lo as int,
            hi - 1,
        ));
        hi -= 1;
    }
    (lo, hi)
}

/// Trims a text: the white space at both ends is left out.
pub fn trim_text(text: &str) -> (r: String)
    ensures
        r@ == trimmed(text@),
{
    let n = text.unicode_len();
    let ends = trim_range(text, n, 0, n);
    assert(text@.subrange(0, n as int) =~= text@);
    String::from_str(text.substring_char(ends.0, ends.1))
}

/// Cleans one documentation line.
pub fn clean_doc_line(line: &str) -> (r: String)
    ensures
        r@ == doc_line_text(line@),
{
    let n = line.unicode_len();
    let a = skip_marker(line, n, 0, '/', '/', '!');
    let b = skip_marker(line, n, a, '/', '/', '/');
    let c = skip_marker(line, n, b, '/', '*', '!');
    let d = skip_marker(line, n, c, '/', '*', '*');
    assert(line@.skip(0) =~= line@);
    let ghost opened = line@.skip(d as int);
    let to = if n - d >= 2 && line.get_char(n - 2) == '*' && line.get_char(n - 1) == '/' {
        n - 2
    } else {
        n
    };
    assert(line@.subrange(d as int, to as int) =~= strip_closing(opened));
    let ends = trim_range(line, n, d, to);
    String::from_str(line.substring_char(ends.0, ends.1))
}

/// The lines joined by single spaces.
pub open spec fn joined(lines: Seq<Seq<char>>) -> Seq<char>
    decreases lines.len(),
{
    if lines.len() == 0 {
        Seq::empty()
    } else if lines.len() == 1 {
        lines[0]
    } else {
        joined(lines.drop_last()) + seq![' '] + lines.last()
    }
}

} // verus!
