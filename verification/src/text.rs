//! Verified text utilities shared by the collector and the adapter builder:
//! whitespace trimming, line normalisation, decimal and hexadecimal
//! rendering, joining, and character filtering.

use vstd::prelude::*;
use vstd::string::StrSliceExecFns;
use vstd::string::StringExecFns;

verus! {

/// A character with the White_Space property, as `str::trim` understands it.
pub open spec fn is_ws_char(c: char) -> bool {
    let u = c as u32;
    u == 0x09 || u == 0x0A || u == 0x0B || u == 0x0C || u == 0x0D || u == 0x20 || u == 0x85
        || u == 0xA0 || u == 0x1680 || (0x2000 <= u && u <= 0x200A) || u == 0x2028 || u == 0x2029
        || u == 0x202F || u == 0x205F || u == 0x3000
}

fn is_ws(c: char) -> (r: bool)
    ensures
        r == is_ws_char(c),
{
    let u = c as u32;
    u == 0x09 || u == 0x0A || u == 0x0B || u == 0x0C || u == 0x0D || u == 0x20 || u == 0x85
        || u == 0xA0 || u == 0x1680 || (0x2000 <= u && u <= 0x200A) || u == 0x2028 || u == 0x2029
        || u == 0x202F || u == 0x205F || u == 0x3000
}

/// An ASCII letter or digit.
pub open spec fn is_alnum_char(c: char) -> bool {
    let u = c as u32;
    (0x30 <= u && u <= 0x39) || (0x41 <= u && u <= 0x5A) || (0x61 <= u && u <= 0x7A)
}

fn is_alnum(c: char) -> (r: bool)
    ensures
        r == is_alnum_char(c),
{
    let u = c as u32;
    (0x30 <= u && u <= 0x39) || (0x41 <= u && u <= 0x5A) || (0x61 <= u && u <= 0x7A)
}

/// Index of the first character at or after `i` that is not whitespace
/// (`s.len()` when none is).
pub open spec fn first_non_ws(s: Seq<char>, i: int) -> int
    recommends
        0 <= i <= s.len(),
    decreases s.len() - i,
    when 0 <= i <= s.len()
{
    if i >= s.len() {
        i
    } else if is_ws_char(s[i]) {
        first_non_ws(s, i + 1)
    } else {
        i
    }
}

/// One past the last character before `j` that is not whitespace
/// (`0` when none is).
pub open spec fn end_non_ws(s: Seq<char>, j: int) -> int
    recommends
        0 <= j <= s.len(),
    decreases j,
    when 0 <= j <= s.len()
{
    if j <= 0 {
        0
    } else if is_ws_char(s[j - 1]) {
        end_non_ws(s, j - 1)
    } else {
        j
    }
}

/// What `str::trim` returns: the input without leading and trailing
/// whitespace.
pub open spec fn spec_trim(s: Seq<char>) -> Seq<char> {
    let a = first_non_ws(s, 0);
    let b = end_non_ws(s, s.len() as int);
    if a < b {
        s.subrange(a, b)
    } else {
        Seq::empty()
    }
}

proof fn lemma_first_non_ws_bounds(s: Seq<char>, i: int)
    requires
        0 <= i <= s.len(),
    ensures
        i <= first_non_ws(s, i) <= s.len(),
    decreases s.len() - i,
{
    if i < s.len() && is_ws_char(s[i]) {
        lemma_first_non_ws_bounds(s, i + 1);
    }
}

proof fn lemma_end_non_ws_bounds(s: Seq<char>, j: int)
    requires
        0 <= j <= s.len(),
    ensures
        0 <= end_non_ws(s, j) <= j,
    decreases j,
{
    if j > 0 && is_ws_char(s[j - 1]) {
        lemma_end_non_ws_bounds(s, j - 1);
    }
}

/// Strips leading and trailing whitespace from `s`.
pub fn trim(s: &str) -> (r: &str)
    ensures
        r@ == spec_trim(s@),
{
    let len = s.unicode_len();
    let mut start: usize = 0;
    while start < len && is_ws(s.get_char(start))
        invariant
            0 <= start <= len,
            len == s@.len(),
            first_non_ws(s@, 0) == first_non_ws(s@, start as int),
        decreases len - start,
    {
        start = start + 1;
    }
    assert(first_non_ws(s@, 0) == start as int);
    let mut end: usize = len;
    while end > start && is_ws(s.get_char(end - 1))
        invariant
            start <= end <= len,
            len == s@.len(),
            first_non_ws(s@, 0) == start as int,
            end_non_ws(s@, len as int) == end_non_ws(s@, end as int),
            start < len ==> !is_ws_char(s@[start as int]),
            start < len ==> end > start,
        decreases end,
    {
        end = end - 1;
    }
    proof {
        lemma_end_non_ws_bounds(s@, len as int);
    }
    let r = s.substring_char(start, end);
    proof {
        if start < len {
            assert(end > start);
            assert(!is_ws_char(s@[end as int - 1]));
            assert(end_non_ws(s@, end as int) == end as int);
        } else {
            assert(start == len && end == len);
            assert(end_non_ws(s@, len as int) <= len as int);
            assert(r@ =~= Seq::<char>::empty());
            assert(spec_trim(s@) =~= Seq::<char>::empty());
        }
    }
    r
}

/// A line accumulator with a trailing carriage return removed, as
/// `str::lines` does just before a line feed.
pub open spec fn strip_cr(cur: Seq<char>) -> Seq<char> {
    if cur.len() > 0 && cur.last() == '\r' {
        cur.drop_last()
    } else {
        cur
    }
}

/// The concatenation of the lines of `cur + s`, each terminated by a single
/// line feed: what pushing `s.lines()` one by one produces.
pub open spec fn lines_norm(s: Seq<char>, cur: Seq<char>) -> Seq<char>
    decreases s.len(),
{
    if s.len() == 0 {
        if cur.len() == 0 {
            Seq::empty()
        } else {
            cur + seq!['\n']
        }
    } else if s[0] == '\n' {
        strip_cr(cur) + seq!['\n'] + lines_norm(s.drop_first(), Seq::empty())
    } else {
        lines_norm(s.drop_first(), cur.push(s[0]))
    }
}

/// The line-by-line normal form of `s`: trim, then each line with exactly
/// one terminating line feed.
pub open spec fn norm_lines(s: Seq<char>) -> Seq<char> {
    lines_norm(spec_trim(s), Seq::empty())
}

/// Appends `s.trim()` to `dst` line by line, each line followed by one line
/// feed.
pub fn append_norm_lines(dst: &mut String, s: &str)
    ensures
        final(dst)@ == old(dst)@ + norm_lines(s@),
{
    let t = trim(s);
    let len = t.unicode_len();
    let ghost total = old(dst)@ + norm_lines(s@);
    let mut i: usize = 0;
    let mut st: usize = 0;
    proof {
        assert(t@.skip(0) =~= t@);
        assert(t@.subrange(0, 0) =~= Seq::<char>::empty());
    }
    while i < len
        invariant
            0 <= st <= i <= len,
            len == t@.len(),
            t@ == spec_trim(s@),
            dst@ + lines_norm(t@.skip(i as int), t@.subrange(st as int, i as int)) == total,
        decreases len - i,
    {
        let ghost rest = t@.skip(i as int);
        let ghost cur = t@.subrange(st as int, i as int);
        proof {
            assert(rest.len() == len - i);
            assert(rest[0] == t@[i as int]);
            assert(rest.drop_first() =~= t@.skip(i as int + 1));
        }
        let c = t.get_char(i);
        if c == '\n' {
            let mut end = i;
            if i > st && t.get_char(i - 1) == '\r' {
                end = i - 1;
            }
            proof {
                if i > st && t@[i as int - 1] == '\r' {
                    assert(cur.len() > 0 && cur.last() == '\r');
                    assert(strip_cr(cur) =~= t@.subrange(st as int, end as int));
                } else {
                    if cur.len() > 0 {
                        assert(cur.last() == t@[i as int - 1]);
                    }
                    assert(strip_cr(cur) =~= t@.subrange(st as int, end as int));
                }
            }
            let piece = t.substring_char(st, end);
            dst.append(piece);
            dst.append("\n");
            proof {
                reveal_strlit("\n");
                assert("\n"@ =~= seq!['\n']);
                assert(lines_norm(rest, cur) == strip_cr(cur) + seq!['\n'] + lines_norm(
                    t@.skip(i as int + 1),
                    Seq::empty(),
                ));
                assert(t@.subrange(i as int + 1, i as int + 1) =~= Seq::<char>::empty());
            }
            i = i + 1;
            st = i;
        } else {
            proof {
                assert(lines_norm(rest, cur) == lines_norm(
                    t@.skip(i as int + 1),
                    cur.push(t@[i as int]),
                ));
                assert(cur.push(t@[i as int]) =~= t@.subrange(st as int, i as int + 1));
            }
            i = i + 1;
        }
    }
    proof {
        assert(t@.skip(len as int) =~= Seq::<char>::empty());
    }
    if st < len {
        let piece = t.substring_char(st, len);
        dst.append(piece);
        dst.append("\n");
        proof {
            reveal_strlit("\n");
            assert("\n"@ =~= seq!['\n']);
        }
    } else {
        proof {
            assert(t@.subrange(st as int, len as int).len() == 0);
        }
    }
}

/// Relies on `String::push` of std: appends exactly the one given character.
#[verifier::external_body]
pub fn push_char(s: &mut String, c: char)
    ensures
        final(s)@ == old(s)@.push(c),
{
    s.push(c);
}

/// Character-wise string equality.
pub fn str_eq(a: &str, b: &str) -> (r: bool)
    ensures
        r == (a@ == b@),
{
    let alen = a.unicode_len();
    let blen = b.unicode_len();
    if alen != blen {
        return false;
    }
    let mut i: usize = 0;
    while i < alen
        invariant
            0 <= i <= alen,
            alen == a@.len(),
            alen == b@.len(),
            forall|j: int| 0 <= j < i ==> a@[j] == b@[j],
        decreases alen - i,
    {
        if a.get_char(i) != b.get_char(i) {
            return false;
        }
        i = i + 1;
    }
    proof {
        assert(a@ =~= b@);
    }
    true
}

/// The character rendering the decimal digit `d`.
pub open spec fn digit_char(d: nat) -> char
    recommends
        d < 10,
{
    ((0x30 + d) as u8) as char
}

/// The character rendering the hexadecimal digit `d`, lower case.
pub open spec fn hex_char(d: nat) -> char
    recommends
        d < 16,
{
    if d < 10 {
        ((0x30 + d) as u8) as char
    } else {
        ((0x57 + d) as u8) as char
    }
}

/// The decimal rendering of `n`, most significant digit first.
pub open spec fn dec_of(n: nat) -> Seq<char>
    decreases n,
{
    if n < 10 {
        seq![digit_char(n)]
    } else {
        dec_of(n / 10).push(digit_char(n % 10))
    }
}

/// Appends the decimal rendering of `n` to `dst`.
pub fn append_dec(dst: &mut String, n: usize)
    ensures
        final(dst)@ == old(dst)@ + dec_of(n as nat),
    decreases n,
{
    if n < 10 {
        let c = ((0x30 + n) as u8) as char;
        push_char(dst, c);
        proof {
            assert(old(dst)@.push(c) =~= old(dst)@ + seq![digit_char(n as nat)]);
        }
    } else {
        append_dec(dst, n / 10);
        let c = ((0x30 + n % 10) as u8) as char;
        push_char(dst, c);
        proof {
            assert((old(dst)@ + dec_of(n as nat / 10)).push(c) =~= old(dst)@ + dec_of(n as nat));
        }
    }
}

/// The decimal rendering of `n` as a fresh string.
pub fn dec_string(n: usize) -> (r: String)
    ensures
        r@ == dec_of(n as nat),
{
    let mut s = String::new();
    append_dec(&mut s, n);
    proof {
        assert(Seq::<char>::empty() + dec_of(n as nat) =~= dec_of(n as nat));
    }
    s
}

/// The `width`-digit hexadecimal rendering of `n`, zero padded, lower case.
pub open spec fn hex_of(n: nat, width: nat) -> Seq<char>
    decreases width,
{
    if width == 0 {
        Seq::empty()
    } else {
        hex_of(n / 16, (width - 1) as nat).push(hex_char(n % 16))
    }
}

fn append_hex(dst: &mut String, n: u64, width: usize)
    ensures
        final(dst)@ == old(dst)@ + hex_of(n as nat, width as nat),
    decreases width,
{
    if width == 0 {
        proof {
            assert(old(dst)@ + hex_of(n as nat, 0) =~= old(dst)@);
        }
    } else {
        append_hex(dst, n / 16, width - 1);
        let d = n % 16;
        let c = if d < 10 {
            ((0x30 + d) as u8) as char
        } else {
            ((0x57 + d) as u8) as char
        };
        let ghost w1 = (width - 1) as nat;
        push_char(dst, c);
        proof {
            assert(c == hex_char(n as nat % 16));
            assert((old(dst)@ + hex_of(n as nat / 16, w1)).push(c) =~= old(dst)@ + hex_of(
                n as nat,
                width as nat,
            ));
        }
    }
}

/// The sixteen-digit hexadecimal rendering of `n`, zero padded, lower case.
pub fn hex16(n: u64) -> (r: String)
    ensures
        r@ == hex_of(n as nat, 16),
{
    let mut s = String::new();
    append_hex(&mut s, n, 16);
    proof {
        assert(Seq::<char>::empty() + hex_of(n as nat, 16) =~= hex_of(n as nat, 16));
    }
    s
}

/// The subsequence of ASCII letters and digits of `s`.
pub open spec fn filter_alnum(s: Seq<char>) -> Seq<char>
    decreases s.len(),
{
    if s.len() == 0 {
        Seq::empty()
    } else if is_alnum_char(s.last()) {
        filter_alnum(s.drop_last()).push(s.last())
    } else {
        filter_alnum(s.drop_last())
    }
}

/// Keeps only the ASCII letters and digits of `s`.
pub fn filter_alphanumeric(s: &str) -> (r: String)
    ensures
        r@ == filter_alnum(s@),
{
    let len = s.unicode_len();
    let mut out = String::new();
    let mut i: usize = 0;
    proof {
        assert(s@.subrange(0, 0) =~= Seq::<char>::empty());
    }
    while i < len
        invariant
            0 <= i <= len,
            len == s@.len(),
            out@ == filter_alnum(s@.subrange(0, i as int)),
        decreases len - i,
    {
        let c = s.get_char(i);
        proof {
            assert(s@.subrange(0, i as int + 1).drop_last() =~= s@.subrange(0, i as int));
            assert(s@.subrange(0, i as int + 1).last() == s@[i as int]);
        }
        if is_alnum(c) {
            push_char(&mut out, c);
        }
        i = i + 1;
    }
    proof {
        assert(s@.subrange(0, len as int) =~= s@);
    }
    out
}

/// Duplicates a vector of strings, element for element.
pub fn clone_string_vec(v: &Vec<String>) -> (r: Vec<String>)
    ensures
        r@ == v@,
{
    let r = v.clone();
    proof {
        assert forall|k: int| 0 <= k < r@.len() implies r@[k] == v@[k] by {
            assert(cloned::<String>(v[k], r[k]));
        }
        assert(r@ =~= v@);
    }
    r
}

/// The elements of `v` joined by a comma and a space.
pub open spec fn spec_join(v: Seq<String>) -> Seq<char>
    decreases v.len(),
{
    if v.len() == 0 {
        Seq::empty()
    } else if v.len() == 1 {
        v[0]@
    } else {
        spec_join(v.drop_last()) + ", "@ + v.last()@
    }
}

/// Joins the strings of `v` with a comma and a space between neighbours.
pub fn join_comma(v: &Vec<String>) -> (r: String)
    ensures
        r@ == spec_join(v@),
{
    let mut out = String::new();
    let mut i: usize = 0;
    while i < v.len()
        invariant
            0 <= i <= v@.len(),
            out@ == spec_join(v@.subrange(0, i as int)),
        decreases v@.len() - i,
    {
        if i > 0 {
            out.append(", ");
        }
        out.append(v[i].as_str());
        proof {
            let pre = v@.subrange(0, i as int + 1);
            assert(pre.drop_last() =~= v@.subrange(0, i as int));
            assert(pre.last() == v@[i as int]);
            if i == 0 {
                assert(out@ =~= spec_join(pre));
            }
        }
        i = i + 1;
    }
    proof {
        assert(v@.subrange(0, v@.len() as int) =~= v@);
    }
    out
}

} // verus!
