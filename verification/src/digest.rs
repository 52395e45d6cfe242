//! Published SHA-256 digests and the check of a downloaded binary against one.
use sha2::Digest;
use vstd::prelude::*;
use vstd::string::StrSliceExecFns;
use vstd::string::StringExecFns;

use crate::semver::is_digit;
use crate::text::chars_of;
use crate::text::digit_char;
use crate::text::hex;
use crate::text::hex_text;
use crate::text::outcome;
use crate::text::same_text;

verus! {

/// The SHA-256 digest of `data`, as `sha2` computes it.
pub uninterp spec fn sha256(data: Seq<u8>) -> Seq<u8>;

/// Calls `sha2::Sha256::digest`. Not proved here: the result is a function of the bytes
/// alone, named `sha256`, and is 32 bytes long. The length bound keeps the count of bits,
/// which the outside code holds in 64 bits, from overflowing.
#[verifier::external_body]
fn sha256_digest(data: &[u8]) -> (digest: Vec<u8>)
    requires
        data@.len() < 0x2000_0000_0000_0000,
    ensures
        digest@ == sha256(data@),
        digest@.len() == 32,
{
    sha2::Sha256::digest(data).to_vec()
}

/// The Unicode lower-case form of a text, as `str::to_lowercase` gives it.
pub uninterp spec fn lowercase(text: Seq<char>) -> Seq<char>;

/// An ASCII capital letter becomes the small one; any other character stays.
pub open spec fn ascii_lower_char(c: char) -> char {
    if 'A' <= c <= 'Z' {
        (c as int + 32) as char
    } else {
        c
    }
}

/// `ascii_lower_char` on every character.
pub open spec fn ascii_lower(text: Seq<char>) -> Seq<char> {
    text.map_values(|c: char| ascii_lower_char(c))
}

/// Only ASCII characters.
pub open spec fn is_ascii_text(text: Seq<char>) -> bool {
    forall|i: int| 0 <= i < text.len() ==> (#[trigger] text[i] as int) < 128
}

/// `str::to_lowercase`. Not proved here: the result is a function of the text alone, named
/// `lowercase`, and on ASCII text it replaces capital letters by small ones.
pub assume_specification[ str::to_lowercase ](s: &str) -> (res: String)
    ensures
        res@ == lowercase(s@),
        is_ascii_text(s@) ==> res@ == ascii_lower(s@),
;

/// A text in double quotes with its special characters escaped, as `{:?}` writes it.
pub uninterp spec fn debug_quoted(text: Seq<char>) -> Seq<char>;

/// Formats `text` with `{:?}`. Not proved here: the result is a function of the text alone,
/// named `debug_quoted`.
#[verifier::external_body]
pub(crate) fn debug_text(text: &str) -> (quoted: String)
    ensures
        quoted@ == debug_quoted(text@),
{
    format!("{:?}", text)
}

/// The characters with Unicode's `White_Space` property.
pub open spec fn is_white_space(c: char) -> bool {
    ||| 0x9 <= c as int <= 0xd
    ||| c as int == 0x20
    ||| c as int == 0x85
    ||| c as int == 0xa0
    ||| c as int == 0x1680
    ||| 0x2000 <= c as int <= 0x200a
    ||| c as int == 0x2028
    ||| c as int == 0x2029
    ||| c as int == 0x202f
    ||| c as int == 0x205f
    ||| c as int == 0x3000
}

fn white_space(c: char) -> (white: bool)
    ensures
        white == is_white_space(c),
{
    let n: u32 = c as u32;
    0x9 <= n && n <= 0xd || n == 0x20 || n == 0x85 || n == 0xa0 || n == 0x1680 || 0x2000 <= n && n
        <= 0x200a || n == 0x2028 || n == 0x2029 || n == 0x202f || n == 0x205f || n == 0x3000
}

/// `text` without the white space that it starts with.
pub open spec fn skip_white(text: Seq<char>) -> Seq<char>
    decreases text.len(),
{
    if text.len() > 0 && is_white_space(text[0]) {
        skip_white(text.skip(1))
    } else {
        text
    }
}

/// `text` up to its first white space.
pub open spec fn until_white(text: Seq<char>) -> Seq<char>
    decreases text.len(),
{
    if text.len() == 0 || is_white_space(text[0]) {
        Seq::empty()
    } else {
        seq![text[0]] + until_white(text.skip(1))
    }
}

/// The first word of `text`; empty where there is none.
pub open spec fn first_word(text: Seq<char>) -> Seq<char> {
    until_white(skip_white(text))
}

proof fn lemma_skip_white(text: Seq<char>, n: int)
    requires
        0 <= n <= text.len(),
        forall|i: int| 0 <= i < n ==> is_white_space(#[trigger] text[i]),
        n < text.len() ==> !is_white_space(text[n]),
    ensures
        skip_white(text) == text.skip(n),
    decreases n,
{
    if n > 0 {
        assert(is_white_space(text[0]));
        assert forall|i: int| 0 <= i < n - 1 implies is_white_space(#[trigger] text.skip(1)[i]) by {
            assert(is_white_space(text[i + 1]));
        }
        lemma_skip_white(text.skip(1), n - 1);
        assert(text.skip(1).skip(n - 1) == text.skip(n));
    } else {
        assert(text.skip(0) == text);
    }
}

proof fn lemma_until_white(text: Seq<char>, n: int)
    requires
        0 <= n <= text.len(),
        forall|i: int| 0 <= i < n ==> !is_white_space(#[trigger] text[i]),
        n < text.len() ==> is_white_space(text[n]),
    ensures
        until_white(text) == text.take(n),
    decreases n,
{
    if n > 0 {
        assert(!is_white_space(text[0]));
        assert forall|i: int| 0 <= i < n - 1 implies !is_white_space(
            #[trigger] text.skip(1)[i],
        ) by {
            assert(!is_white_space(text[i + 1]));
        }
        lemma_until_white(text.skip(1), n - 1);
        assert(text.take(n) == seq![text[0]] + text.skip(1).take(n - 1));
    } else {
        assert(text.take(0) == Seq::<char>::empty());
    }
}

/// The first word of a text such as the one line of a published digest file.
pub fn first_word_of(text: &str) -> (word: &str)
    ensures
        word@ == first_word(text@),
{
    let chars: Vec<char> = chars_of(text);
    let mut start: usize = 0;
    while start < chars.len() && white_space(chars[start])
        invariant
            start <= chars@.len(),
            forall|i: int| 0 <= i < start ==> is_white_space(#[trigger] chars@[i]),
        decreases chars@.len() - start,
    {
        start += 1;
    }
    let mut end: usize = start;
    while end < chars.len() && !white_space(chars[end])
        invariant
            start <= end <= chars@.len(),
            forall|i: int| start <= i < end ==> !is_white_space(#[trigger] chars@[i]),
        decreases chars@.len() - end,
    {
        end += 1;
    }
    proof {
        lemma_skip_white(text@, start as int);
        lemma_until_white(text@.skip(start as int), end - start);
        assert(text@.skip(start as int).take(end - start) == text@.subrange(
            start as int,
            end as int,
        ));
    }
    text.substring_char(start, end)
}

/// An ASCII hexadecimal digit, in either case.
pub open spec fn is_hex_digit(c: char) -> bool {
    is_digit(c) || 'a' <= c <= 'f' || 'A' <= c <= 'F'
}

/// Sixty-four hexadecimal digits.
pub open spec fn is_digest_text(text: Seq<char>) -> bool {
    &&& text.len() == 64
    &&& forall|i: int| 0 <= i < text.len() ==> is_hex_digit(#[trigger] text[i])
}

/// Whether `text` is sixty-four hexadecimal digits.
pub fn digest_text(text: &str) -> (ok: bool)
    ensures
        ok == is_digest_text(text@),
{
    let chars: Vec<char> = chars_of(text);
    if chars.len() != 64 {
        return false;
    }
    let mut i: usize = 0;
    while i < chars.len()
        invariant
            chars@ == text@,
            i <= chars@.len(),
            forall|k: int| 0 <= k < i ==> is_hex_digit(#[trigger] chars@[k]),
        decreases chars@.len() - i,
    {
        let c: char = chars[i];
        if !('0' <= c && c <= '9' || 'a' <= c && c <= 'f' || 'A' <= c && c <= 'F') {
            return false;
        }
        i += 1;
    }
    true
}

/// What the check of a binary gives, from `word`, the first word of the published file,
/// `quoted`, that file's text in quotes, and `digest`, the binary's digest.
pub open spec fn digest_verdict(
    word: Seq<char>,
    quoted: Seq<char>,
    digest: Seq<u8>,
) -> Result<(), Seq<char>> {
    if !is_digest_text(word) {
        Err("malformed sha256 file: "@ + quoted)
    } else if hex(digest) != ascii_lower(word) {
        Err("sha256 mismatch: expected "@ + ascii_lower(word) + ", got "@ + hex(digest))
    } else {
        Ok(())
    }
}

/// Holds a binary's digest against the digest that was published for it, in either case.
pub fn check_digest(word: &str, quoted: &str, digest: &[u8]) -> (verdict: Result<(), String>)
    ensures
        outcome(verdict) == digest_verdict(word@, quoted@, digest@),
{
    // A character that is no ASCII hexadecimal digit does not become one in lower case.
    if !digest_text(word) {
        return Err("malformed sha256 file: ".to_owned().concat(quoted));
    }
    let expected = word.to_lowercase();
    let actual = hex_text(digest);
    if !same_text(actual.as_str(), expected.as_str()) {
        return Err(
            "sha256 mismatch: expected ".to_owned().concat(expected.as_str()).concat(
                ", got ",
            ).concat(actual.as_str()),
        );
    }
    Ok(())
}

/// Checks `binary` against the text of its published digest file, `<hex>  <filename>`. The
/// check succeeds exactly when the first word of that text is the digest of the binary in
/// hexadecimal, in either case.
pub fn verify_binary(binary: &[u8], sha_text: &str) -> (verdict: Result<(), String>)
    requires
        binary@.len() < 0x2000_0000_0000_0000,
    ensures
        outcome(verdict) == digest_verdict(
            first_word(sha_text@),
            debug_quoted(sha_text@),
            sha256(binary@),
        ),
        verdict is Ok <==> is_digest_text(first_word(sha_text@)) && ascii_lower(
            first_word(sha_text@),
        ) == hex(sha256(binary@)),
{
    let quoted = debug_text(sha_text);
    let digest: Vec<u8> = sha256_digest(binary);
    check_digest(first_word_of(sha_text), quoted.as_str(), digest.as_slice())
}

/// Whether a check succeeds depends on the first word of the published file alone, and not on
/// the case of its ASCII letters.
pub proof fn law_only_the_folded_word_matters(
    word1: Seq<char>,
    quoted1: Seq<char>,
    word2: Seq<char>,
    quoted2: Seq<char>,
    digest: Seq<u8>,
)
    requires
        ascii_lower(word1) == ascii_lower(word2),
    ensures
        digest_verdict(word1, quoted1, digest) is Ok <==> digest_verdict(
            word2,
            quoted2,
            digest,
        ) is Ok,
{
    lemma_folded_digest(word1);
    lemma_folded_digest(word2);
}

proof fn lemma_folded_digest(word: Seq<char>)
    ensures
        is_digest_text(word) <==> is_digest_text(ascii_lower(word)),
{
    let folded = ascii_lower(word);
    assert forall|i: int| 0 <= i < word.len() implies is_hex_digit(#[trigger] word[i])
        == is_hex_digit(folded[i]) by {
        assert(folded[i] == ascii_lower_char(word[i]));
    }
    if is_digest_text(folded) {
        assert forall|i: int| 0 <= i < word.len() implies is_hex_digit(#[trigger] word[i]) by {
            assert(is_hex_digit(folded[i]));
        }
    }
}

proof fn lemma_hex_digits(bytes: Seq<u8>)
    ensures
        hex(bytes).len() == 2 * bytes.len(),
        forall|i: int|
            0 <= i < hex(bytes).len() ==> is_digit(#[trigger] hex(bytes)[i]) || 'a' <= hex(bytes)[i]
                <= 'f',
    decreases bytes.len(),
{
    if bytes.len() > 0 {
        lemma_hex_digits(bytes.drop_last());
        let high = bytes.last() as int / 16;
        let low = bytes.last() as int % 16;
        assert(0 <= high < 16 && 0 <= low < 16);
    }
}

/// Thirty-two bytes in hexadecimal are a well-formed digest in lower case.
pub proof fn law_hex_of_a_digest(digest: Seq<u8>)
    requires
        digest.len() == 32,
    ensures
        is_digest_text(hex(digest)),
        ascii_lower(hex(digest)) == hex(digest),
{
    lemma_hex_digits(digest);
}

/// The first word of white space, a word, white space and more is that word.
pub proof fn law_first_word(blank: Seq<char>, word: Seq<char>, rest: Seq<char>)
    requires
        forall|i: int| 0 <= i < blank.len() ==> is_white_space(#[trigger] blank[i]),
        word.len() > 0,
        forall|i: int| 0 <= i < word.len() ==> !is_white_space(#[trigger] word[i]),
        rest.len() > 0 ==> is_white_space(rest[0]),
    ensures
        first_word(blank + word + rest) == word,
{
    let text = blank + word + rest;
    assert(!is_white_space(word[0]));
    lemma_skip_white(text, blank.len() as int);
    assert(text.skip(blank.len() as int) == word + rest);
    lemma_until_white(word + rest, word.len() as int);
    assert((word + rest).take(word.len() as int) == word);
}

/// Two binaries pass the check against one published file only where their digests agree.
pub proof fn law_one_digest_per_file(word: Seq<char>, quoted: Seq<char>, a: Seq<u8>, b: Seq<u8>)
    requires
        digest_verdict(word, quoted, a) is Ok,
        digest_verdict(word, quoted, b) is Ok,
    ensures
        a == b,
{
    lemma_hex_injective(a, b);
}

proof fn lemma_hex_injective(a: Seq<u8>, b: Seq<u8>)
    requires
        hex(a) == hex(b),
    ensures
        a == b,
    decreases a.len(),
{
    lemma_hex_digits(a);
    lemma_hex_digits(b);
    if a.len() > 0 {
        let n = hex(a).len() as int;
        assert(hex(a)[n - 1] == digit_char(a.last() as int % 16));
        assert(hex(b)[n - 1] == digit_char(b.last() as int % 16));
        assert(hex(a)[n - 2] == digit_char(a.last() as int / 16));
        assert(hex(b)[n - 2] == digit_char(b.last() as int / 16));
        assert(hex(a).take(n - 2) == hex(a.drop_last()));
        assert(hex(b).take(n - 2) == hex(b.drop_last()));
        lemma_hex_injective(a.drop_last(), b.drop_last());
        assert(a == a.drop_last().push(a.last()));
        assert(b == b.drop_last().push(b.last()));
    } else {
        assert(a == b);
    }
}

} // verus!
