//! The plain version numbers that may name a release.
use vstd::prelude::*;

use crate::text::chars_of;

verus! {

/// An ASCII digit.
pub open spec fn is_digit(c: char) -> bool {
    '0' <= c <= '9'
}

/// An ASCII letter or digit.
pub open spec fn is_alphanumeric(c: char) -> bool {
    is_digit(c) || 'a' <= c <= 'z' || 'A' <= c <= 'Z'
}

/// A character that a version suffix may hold.
pub open spec fn is_suffix_char(c: char) -> bool {
    is_alphanumeric(c) || c == '.' || c == '-'
}

/// One or more digits.
pub open spec fn is_number(s: Seq<char>) -> bool {
    &&& s.len() > 0
    &&& forall|i: int| 0 <= i < s.len() ==> is_digit(#[trigger] s[i])
}

/// Nothing, or a hyphen and one or more suffix characters.
pub open spec fn is_tail(s: Seq<char>) -> bool {
    s.len() > 0 ==> {
        &&& s[0] == '-'
        &&& s.len() > 1
        &&& forall|i: int| 1 <= i < s.len() ==> is_suffix_char(#[trigger] s[i])
    }
}

/// The text of the version `x.y.z` with what follows it.
pub open spec fn version_text(
    x: Seq<char>,
    y: Seq<char>,
    z: Seq<char>,
    tail: Seq<char>,
) -> Seq<char> {
    x.push('.') + y.push('.') + z + tail
}

/// `x.y.z` with an optional `-suffix` of letters, digits, dots and hyphens.
pub open spec fn plain_semver(v: Seq<char>) -> bool {
    exists|x: Seq<char>, y: Seq<char>, z: Seq<char>, tail: Seq<char>|
        is_number(x) && is_number(y) && is_number(z) && is_tail(tail) && v == #[trigger] version_text(
            x,
            y,
            z,
            tail,
        )
}

/// The same by position: dots at `a` and `b`, numbers around them, the tail from `c` on.
spec fn semver_at(v: Seq<char>, a: int, b: int, c: int) -> bool {
    &&& 0 < a
    &&& a + 1 < b
    &&& b + 1 < c <= v.len()
    &&& v[a] == '.'
    &&& v[b] == '.'
    &&& forall|i: int| 0 <= i < a ==> is_digit(#[trigger] v[i])
    &&& forall|i: int| a < i < b ==> is_digit(#[trigger] v[i])
    &&& forall|i: int| b < i < c ==> is_digit(#[trigger] v[i])
    &&& is_tail(v.skip(c))
}

proof fn lemma_positions(x: Seq<char>, y: Seq<char>, z: Seq<char>, tail: Seq<char>)
    requires
        is_number(x),
        is_number(y),
        is_number(z),
        is_tail(tail),
    ensures
        semver_at(
            version_text(x, y, z, tail),
            x.len() as int,
            x.len() as int + 1 + y.len(),
            x.len() as int + 1 + y.len() + 1 + z.len(),
        ),
{
    let v = version_text(x, y, z, tail);
    let a = x.len() as int;
    let b = a + 1 + y.len();
    let c = b + 1 + z.len();
    assert forall|i: int| 0 <= i < a implies is_digit(#[trigger] v[i]) by {
        assert(v[i] == x[i]);
    }
    assert forall|i: int| a < i < b implies is_digit(#[trigger] v[i]) by {
        assert(v[i] == y[i - a - 1]);
    }
    assert forall|i: int| b < i < c implies is_digit(#[trigger] v[i]) by {
        assert(v[i] == z[i - b - 1]);
    }
    assert(v.skip(c) == tail);
}

proof fn lemma_semver_at(v: Seq<char>, a: int, b: int, c: int)
    requires
        semver_at(v, a, b, c),
    ensures
        plain_semver(v),
{
    let x = v.subrange(0, a);
    let y = v.subrange(a + 1, b);
    let z = v.subrange(b + 1, c);
    let tail = v.skip(c);
    assert(is_number(x));
    assert(is_number(y));
    assert(is_number(z));
    assert(v == version_text(x, y, z, tail));
}

/// The end of the run of digits that starts at `from`.
fn digit_run(chars: &Vec<char>, from: usize) -> (end: usize)
    requires
        from <= chars@.len(),
    ensures
        from <= end <= chars@.len(),
        forall|i: int| from <= i < end ==> is_digit(#[trigger] chars@[i]),
        end < chars@.len() ==> !is_digit(chars@[end as int]),
{
    let mut end: usize = from;
    while end < chars.len() && '0' <= chars[end] && chars[end] <= '9'
        invariant
            from <= end <= chars@.len(),
            forall|i: int| from <= i < end ==> is_digit(#[trigger] chars@[i]),
        decreases chars@.len() - end,
    {
        end += 1;
    }
    end
}

/// Whether the characters from `from` on are nothing, or a hyphen and a suffix.
fn tail_from(chars: &Vec<char>, from: usize) -> (ok: bool)
    requires
        from <= chars@.len(),
    ensures
        ok == is_tail(chars@.skip(from as int)),
{
    let ghost tail = chars@.skip(from as int);
    if from == chars.len() {
        return true;
    }
    assert(tail[0] == chars@[from as int]);
    if chars[from] != '-' || from + 1 == chars.len() {
        return false;
    }
    let mut i: usize = from + 1;
    while i < chars.len()
        invariant
            from < i <= chars@.len(),
            tail == chars@.skip(from as int),
            forall|k: int| 1 <= k < i - from ==> is_suffix_char(#[trigger] tail[k]),
        decreases chars@.len() - i,
    {
        let c: char = chars[i];
        let ok = '0' <= c && c <= '9' || 'a' <= c && c <= 'z' || 'A' <= c && c <= 'Z' || c == '.'
            || c == '-';
        assert(tail[i - from] == c);
        if !ok {
            return false;
        }
        i += 1;
    }
    true
}

/// Whether `v` is a plain version number. This gates a version before it goes into a URL.
pub fn is_plain_semver(v: &str) -> (plain: bool)
    ensures
        plain == plain_semver(v@),
{
    let chars: Vec<char> = chars_of(v);
    let a: usize = digit_run(&chars, 0);
    if a == 0 || a == chars.len() || chars[a] != '.' {
        proof {
            lemma_first_run(v@, a as int);
        }
        return false;
    }
    let b: usize = digit_run(&chars, a + 1);
    if b == a + 1 || b == chars.len() || chars[b] != '.' {
        proof {
            lemma_second_run(v@, a as int, b as int);
        }
        return false;
    }
    let c: usize = digit_run(&chars, b + 1);
    let plain = c > b + 1 && tail_from(&chars, c);
    proof {
        if plain {
            lemma_semver_at(v@, a as int, b as int, c as int);
        } else if plain_semver(v@) {
            lemma_third_run(v@, a as int, b as int, c as int);
        }
    }
    plain
}

/// `end` is where the digits from `from` on stop.
spec fn run_ends(v: Seq<char>, from: int, end: int) -> bool {
    &&& 0 <= from <= end <= v.len()
    &&& forall|i: int| from <= i < end ==> is_digit(#[trigger] v[i])
    &&& end < v.len() ==> !is_digit(v[end])
}

proof fn lemma_first_run(v: Seq<char>, a: int)
    requires
        run_ends(v, 0, a),
    ensures
        plain_semver(v) ==> 0 < a < v.len() && v[a] == '.' && exists|b: int, c: int|
            #[trigger] semver_at(v, a, b, c),
{
    if plain_semver(v) {
        let (x, y, z, tail) = choose|x: Seq<char>, y: Seq<char>, z: Seq<char>, tail: Seq<char>|
            is_number(x) && is_number(y) && is_number(z) && is_tail(tail) && v
                == #[trigger] version_text(x, y, z, tail);
        lemma_positions(x, y, z, tail);
        let a1 = x.len() as int;
        let b1 = a1 + 1 + y.len();
        let c1 = b1 + 1 + z.len();
        assert(semver_at(v, a1, b1, c1));
        assert(!is_digit(v[a1]));
        if a < a1 {
            assert(is_digit(v[a]));
        }
        assert(a == a1);
    }
}

proof fn lemma_second_run(v: Seq<char>, a: int, b: int)
    requires
        run_ends(v, 0, a),
        a < v.len(),
        run_ends(v, a + 1, b),
    ensures
        plain_semver(v) ==> a + 1 < b < v.len() && v[b] == '.' && exists|c: int|
            #[trigger] semver_at(v, a, b, c),
{
    lemma_first_run(v, a);
    if plain_semver(v) {
        let (b1, c1) = choose|b: int, c: int| #[trigger] semver_at(v, a, b, c);
        assert(!is_digit(v[b1]));
        if b < b1 {
            assert(is_digit(v[b]));
        }
        assert(b == b1);
    }
}

proof fn lemma_third_run(v: Seq<char>, a: int, b: int, c: int)
    requires
        run_ends(v, 0, a),
        a < v.len(),
        run_ends(v, a + 1, b),
        b < v.len(),
        run_ends(v, b + 1, c),
    ensures
        plain_semver(v) ==> semver_at(v, a, b, c),
{
    lemma_second_run(v, a, b);
    if plain_semver(v) {
        let c1 = choose|c: int| #[trigger] semver_at(v, a, b, c);
        if c1 < v.len() {
            assert(v.skip(c1)[0] == v[c1]);
            assert(!is_digit(v[c1]));
        }
        if c < c1 {
            assert(is_digit(v[c]));
        }
        assert(c == c1);
    }
}

/// Every version of three numbers is accepted, alone and with a hyphen and a suffix of ASCII
/// letters, digits, dots and hyphens behind it, of any length.
pub proof fn law_plain_versions_are_accepted(
    x: Seq<char>,
    y: Seq<char>,
    z: Seq<char>,
    suffix: Seq<char>,
)
    requires
        x.len() > 0,
        y.len() > 0,
        z.len() > 0,
        suffix.len() > 0,
        forall|i: int| 0 <= i < x.len() ==> 0x30 <= #[trigger] x[i] as int <= 0x39,
        forall|i: int| 0 <= i < y.len() ==> 0x30 <= #[trigger] y[i] as int <= 0x39,
        forall|i: int| 0 <= i < z.len() ==> 0x30 <= #[trigger] z[i] as int <= 0x39,
        forall|i: int|
            0 <= i < suffix.len() ==> {
                ||| 0x30 <= #[trigger] suffix[i] as int <= 0x39
                ||| 0x41 <= suffix[i] as int <= 0x5a
                ||| 0x61 <= suffix[i] as int <= 0x7a
                ||| suffix[i] as int == 0x2d
                ||| suffix[i] as int == 0x2e
            },
    ensures
        plain_semver(x + seq!['.'] + y + seq!['.'] + z),
        plain_semver(x + seq!['.'] + y + seq!['.'] + z + seq!['-'] + suffix),
{
    let tail = seq!['-'] + suffix;
    assert(is_tail(Seq::<char>::empty()));
    assert(is_tail(tail)) by {
        assert forall|i: int| 1 <= i < tail.len() implies is_suffix_char(#[trigger] tail[i]) by {
            assert(tail[i] == suffix[i - 1]);
        }
    }
    assert(version_text(x, y, z, Seq::empty()) =~= x + seq!['.'] + y + seq!['.'] + z);
    assert(version_text(x, y, z, tail) =~= x + seq!['.'] + y + seq!['.'] + z + seq!['-'] + suffix);
}

/// Nothing else is accepted: a plain version is three numbers with dots between, and behind
/// them nothing, or a hyphen and one or more ASCII letters, digits, dots and hyphens. The
/// result is the numbers and what stands behind them.
pub proof fn law_accepted_versions_are_plain(v: Seq<char>) -> (parts: (
    Seq<char>,
    Seq<char>,
    Seq<char>,
    Seq<char>,
))
    requires
        plain_semver(v),
    ensures
        v == parts.0 + seq!['.'] + parts.1 + seq!['.'] + parts.2 + parts.3,
        parts.0.len() > 0,
        parts.1.len() > 0,
        parts.2.len() > 0,
        forall|i: int| 0 <= i < parts.0.len() ==> 0x30 <= #[trigger] parts.0[i] as int <= 0x39,
        forall|i: int| 0 <= i < parts.1.len() ==> 0x30 <= #[trigger] parts.1[i] as int <= 0x39,
        forall|i: int| 0 <= i < parts.2.len() ==> 0x30 <= #[trigger] parts.2[i] as int <= 0x39,
        parts.3.len() != 1,
        parts.3.len() > 0 ==> parts.3[0] as int == 0x2d,
        forall|i: int|
            0 <= i < parts.3.len() ==> {
                ||| 0x30 <= #[trigger] parts.3[i] as int <= 0x39
                ||| 0x41 <= parts.3[i] as int <= 0x5a
                ||| 0x61 <= parts.3[i] as int <= 0x7a
                ||| parts.3[i] as int == 0x2d
                ||| parts.3[i] as int == 0x2e
            },
{
    let (x, y, z, tail) = choose|x: Seq<char>, y: Seq<char>, z: Seq<char>, tail: Seq<char>|
        is_number(x) && is_number(y) && is_number(z) && is_tail(tail) && v
            == #[trigger] version_text(x, y, z, tail);
    assert(v =~= x + seq!['.'] + y + seq!['.'] + z + tail);
    assert forall|i: int| 0 <= i < x.len() implies 0x30 <= #[trigger] x[i] as int <= 0x39 by {
        assert(is_digit(x[i]));
    }
    assert forall|i: int| 0 <= i < y.len() implies 0x30 <= #[trigger] y[i] as int <= 0x39 by {
        assert(is_digit(y[i]));
    }
    assert forall|i: int| 0 <= i < z.len() implies 0x30 <= #[trigger] z[i] as int <= 0x39 by {
        assert(is_digit(z[i]));
    }
    assert forall|i: int| 0 <= i < tail.len() implies {
        ||| 0x30 <= #[trigger] tail[i] as int <= 0x39
        ||| 0x41 <= tail[i] as int <= 0x5a
        ||| 0x61 <= tail[i] as int <= 0x7a
        ||| tail[i] as int == 0x2d
        ||| tail[i] as int == 0x2e
    } by {
        if i > 0 {
            assert(is_suffix_char(tail[i]));
        }
    }
    (x, y, z, tail)
}

/// Every character of a plain version is a letter, a digit, a dot or a hyphen: none can end
/// the URL path segment that it goes into.
pub proof fn law_version_stays_in_its_segment(v: Seq<char>)
    requires
        plain_semver(v),
    ensures
        forall|i: int| 0 <= i < v.len() ==> is_suffix_char(#[trigger] v[i]),
        !v.contains('/'),
{
    let (x, y, z, tail) = choose|x: Seq<char>, y: Seq<char>, z: Seq<char>, tail: Seq<char>|
        is_number(x) && is_number(y) && is_number(z) && is_tail(tail) && v
            == #[trigger] version_text(x, y, z, tail);
    lemma_positions(x, y, z, tail);
    let a = x.len() as int;
    let b = a + 1 + y.len();
    let c = b + 1 + z.len();
    assert forall|i: int| 0 <= i < v.len() implies is_suffix_char(#[trigger] v[i]) by {
        if i >= c {
            assert(v[i] == v.skip(c)[i - c]);
        }
    }
}

/// A plain version starts with a digit, so the path segment `v` and the version is neither
/// the current directory nor its parent.
pub proof fn law_version_is_no_relative_segment(v: Seq<char>)
    requires
        plain_semver(v),
    ensures
        v.len() > 0,
        is_digit(v[0]),
        "v"@ + v != "."@,
        "v"@ + v != ".."@,
{
    let (x, y, z, tail) = choose|x: Seq<char>, y: Seq<char>, z: Seq<char>, tail: Seq<char>|
        is_number(x) && is_number(y) && is_number(z) && is_tail(tail) && v
            == #[trigger] version_text(x, y, z, tail);
    lemma_positions(x, y, z, tail);
    reveal_strlit("v");
    reveal_strlit(".");
    reveal_strlit("..");
    assert(("v"@ + v)[0] == 'v');
}

/// Two dots in a row stand in a plain version only behind its first hyphen, so a version
/// without a suffix holds no `..`.
pub proof fn law_no_double_dot_before_the_suffix(v: Seq<char>, i: int)
    requires
        plain_semver(v),
        0 <= i,
        i + 1 < v.len(),
        v[i] == '.',
        v[i + 1] == '.',
    ensures
        exists|h: int| 0 <= h < i && #[trigger] v[h] == '-',
{
    let (x, y, z, tail) = choose|x: Seq<char>, y: Seq<char>, z: Seq<char>, tail: Seq<char>|
        is_number(x) && is_number(y) && is_number(z) && is_tail(tail) && v
            == #[trigger] version_text(x, y, z, tail);
    lemma_positions(x, y, z, tail);
    let a = x.len() as int;
    let b = a + 1 + y.len();
    let c = b + 1 + z.len();
    assert(is_digit(v[a + 1]));
    assert(is_digit(v[b + 1]));
    assert(i >= c - 1);
    assert(is_digit(v[c - 1]));
    assert(v[c] == v.skip(c)[0]);
}

} // verus!
