//! What a published digest file must hold for a binary to pass, by character codes.
use vstd::prelude::*;

use crate::digest::ascii_lower;
use crate::digest::ascii_lower_char;
use crate::digest::digest_verdict;
use crate::digest::first_word;
use crate::digest::is_digest_text;
use crate::digest::is_hex_digit;
use crate::digest::is_white_space;
use crate::digest::skip_white;
use crate::digest::until_white;
use crate::text::hex;
use crate::text::law_hex_has_its_values;

verus! {

/// White space is what Unicode gives the property `White_Space`.
pub proof fn law_white_space_by_codes(c: char)
    ensures
        is_white_space(c) <==> {
            ||| 0x9 <= c as int <= 0xd
            ||| c as int == 0x20
            ||| c as int == 0x85
            ||| c as int == 0xa0
            ||| c as int == 0x1680
            ||| 0x2000 <= c as int <= 0x200a
            ||| 0x2028 <= c as int <= 0x2029
            ||| c as int == 0x202f
            ||| c as int == 0x205f
            ||| c as int == 0x3000
        },
{
}

proof fn lemma_skipped(text: Seq<char>) -> (n: int)
    ensures
        0 <= n <= text.len(),
        skip_white(text) == text.skip(n),
        forall|i: int| 0 <= i < n ==> is_white_space(#[trigger] text[i]),
        n < text.len() ==> !is_white_space(text[n]),
    decreases text.len(),
{
    if text.len() > 0 && is_white_space(text[0]) {
        let m = lemma_skipped(text.skip(1));
        assert(text.skip(1).skip(m) =~= text.skip(m + 1));
        assert forall|i: int| 0 <= i < m + 1 implies is_white_space(#[trigger] text[i]) by {
            if i > 0 {
                assert(text[i] == text.skip(1)[i - 1]);
            }
        }
        if m + 1 < text.len() {
            assert(text[m + 1] == text.skip(1)[m]);
        }
        m + 1
    } else {
        assert(text.skip(0) =~= text);
        0
    }
}

proof fn lemma_until(text: Seq<char>)
    ensures
        until_white(text).len() <= text.len(),
        until_white(text) == text.take(until_white(text).len() as int),
        forall|i: int|
            0 <= i < until_white(text).len() ==> !is_white_space(#[trigger] until_white(text)[i]),
        until_white(text).len() < text.len() ==> is_white_space(
            text[until_white(text).len() as int],
        ),
    decreases text.len(),
{
    if text.len() == 0 || is_white_space(text[0]) {
        assert(text.take(0) =~= Seq::<char>::empty());
    } else {
        let rest = text.skip(1);
        lemma_until(rest);
        let word = until_white(rest);
        let whole = until_white(text);
        assert(whole =~= seq![text[0]] + word);
        assert(whole =~= text.take(whole.len() as int)) by {
            assert forall|i: int| 0 <= i < whole.len() implies whole[i] == text[i] by {
                if i > 0 {
                    assert(whole[i] == word[i - 1]);
                    assert(word[i - 1] == rest[i - 1]);
                }
            }
        }
        assert forall|i: int| 0 <= i < whole.len() implies !is_white_space(#[trigger] whole[i]) by {
            if i > 0 {
                assert(whole[i] == word[i - 1]);
            }
        }
        if whole.len() < text.len() {
            assert(text[whole.len() as int] == rest[word.len() as int]);
        }
    }
}

/// The first word of a text stands at `at`, behind white space alone. It holds no white space,
/// goes on to the next white space or to the end, and is empty only where there is nothing but
/// white space. White space is told by its codes.
pub proof fn law_first_word_by_codes(text: Seq<char>) -> (at: int)
    ensures
        ({
            let word = first_word(text);
            let white = |c: char|
                {
                    ||| 0x9 <= c as int <= 0xd
                    ||| c as int == 0x20
                    ||| c as int == 0x85
                    ||| c as int == 0xa0
                    ||| c as int == 0x1680
                    ||| 0x2000 <= c as int <= 0x200a
                    ||| 0x2028 <= c as int <= 0x2029
                    ||| c as int == 0x202f
                    ||| c as int == 0x205f
                    ||| c as int == 0x3000
                };
            &&& 0 <= at
            &&& at + word.len() <= text.len()
            &&& word == text.subrange(at, at + word.len())
            &&& forall|i: int| 0 <= i < at ==> white(#[trigger] text[i])
            &&& forall|i: int| 0 <= i < word.len() ==> !white(#[trigger] word[i])
            &&& at + word.len() < text.len() ==> white(text[at + word.len()])
            &&& word.len() == 0 ==> at == text.len()
        }),
{
    let at = lemma_skipped(text);
    let rest = text.skip(at);
    let word = first_word(text);
    lemma_until(rest);
    assert(word =~= text.subrange(at, at + word.len())) by {
        assert(word =~= rest.take(word.len() as int));
    }
    if at < text.len() {
        assert(rest[0] == text[at]);
    }
    if at + word.len() < text.len() {
        assert(text[at + word.len()] == rest[word.len() as int]);
    }
    assert forall|i: int| 0 <= i < at implies is_white_space(#[trigger] text[i]) by {}
    at
}

/// A binary passes exactly when the published word is sixty-four hexadecimal digits, of either
/// case, whose values pair by pair are the bytes of its digest.
pub proof fn law_verdict_by_values(word: Seq<char>, quoted: Seq<char>, digest: Seq<u8>)
    ensures
        digest_verdict(word, quoted, digest) is Ok <==> {
            let value = |c: char|
                if 0x30 <= c as int <= 0x39 {
                    c as int - 0x30
                } else if 0x41 <= c as int <= 0x46 {
                    c as int - 0x37
                } else if 0x61 <= c as int <= 0x66 {
                    c as int - 0x57
                } else {
                    -1
                };
            &&& word.len() == 64
            &&& digest.len() == 32
            &&& forall|k: int| 0 <= k < 64 ==> value(#[trigger] word[k]) >= 0
            &&& forall|i: int|
                #![trigger digest[i]]
                0 <= i < 32 ==> digest[i] == 16 * value(word[2 * i]) + value(word[2 * i + 1])
        },
{
    let value = |c: char|
        if 0x30 <= c as int <= 0x39 {
            c as int - 0x30
        } else if 0x41 <= c as int <= 0x46 {
            c as int - 0x37
        } else if 0x61 <= c as int <= 0x66 {
            c as int - 0x57
        } else {
            -1
        };
    let lower = ascii_lower(word);
    law_hex_has_its_values(digest);
    assert forall|k: int| 0 <= k < word.len() implies is_hex_digit(#[trigger] word[k]) == (value(
        word[k],
    ) >= 0) by {}
    assert forall|k: int| 0 <= k < word.len() implies lower[k] == ascii_lower_char(
        #[trigger] word[k],
    ) by {}
    if digest_verdict(word, quoted, digest) is Ok {
        assert(is_digest_text(word));
        assert(hex(digest).len() == lower.len());
        assert forall|i: int| #![trigger digest[i]] 0 <= i < 32 implies digest[i] == 16 * value(
            word[2 * i],
        ) + value(word[2 * i + 1]) by {
            assert(is_hex_digit(word[2 * i]));
            assert(is_hex_digit(word[2 * i + 1]));
            assert(hex(digest)[2 * i] == ascii_lower_char(word[2 * i]));
            assert(hex(digest)[2 * i + 1] == ascii_lower_char(word[2 * i + 1]));
        }
    }
    if {
        &&& word.len() == 64
        &&& digest.len() == 32
        &&& forall|k: int| 0 <= k < 64 ==> value(#[trigger] word[k]) >= 0
        &&& forall|i: int|
            #![trigger digest[i]]
            0 <= i < 32 ==> digest[i] == 16 * value(word[2 * i]) + value(word[2 * i + 1])
    } {
        assert(is_digest_text(word));
        assert forall|k: int| 0 <= k < 64 implies hex(digest)[k] == lower[k] by {
            let i = k / 2;
            assert(k == 2 * i || k == 2 * i + 1);
            assert(0 <= i < 32);
            let byte = digest[i];
            assert(value(word[2 * i]) >= 0 && value(word[2 * i + 1]) >= 0);
            let a = hex(digest)[2 * i];
            let b = hex(digest)[2 * i + 1];
            assert(lower[2 * i] == ascii_lower_char(word[2 * i]));
            assert(lower[2 * i + 1] == ascii_lower_char(word[2 * i + 1]));
            assert(byte == 16 * value(a) + value(b));
            assert(value(a) == value(word[2 * i]));
            assert(value(b) == value(word[2 * i + 1]));
        }
        assert(hex(digest) =~= lower);
    }
}

/// A binary that does not pass is told why: that the file is malformed, with its text, where
/// the word is not sixty-four hexadecimal digits; else that the digests differ, with both in
/// lower-case hexadecimal.
pub proof fn law_refused_binary_is_told_why(word: Seq<char>, quoted: Seq<char>, digest: Seq<u8>)
    requires
        digest_verdict(word, quoted, digest) is Err,
    ensures
        ({
            let hexadecimal = |c: char|
                {
                    ||| 0x30 <= c as int <= 0x39
                    ||| 0x41 <= c as int <= 0x46
                    ||| 0x61 <= c as int <= 0x66
                };
            let well_formed = word.len() == 64 && forall|k: int|
                0 <= k < 64 ==> hexadecimal(#[trigger] word[k]);
            &&& !well_formed ==> digest_verdict(word, quoted, digest) == Err::<(), Seq<char>>(
                "malformed sha256 file: "@ + quoted,
            )
            &&& well_formed ==> digest_verdict(word, quoted, digest) == Err::<(), Seq<char>>(
                "sha256 mismatch: expected "@ + word.map_values(
                    |c: char|
                        if 0x41 <= c as int <= 0x5a {
                            (c as int + 0x20) as char
                        } else {
                            c
                        },
                ) + ", got "@ + hex(digest),
            )
        }),
{
    assert(ascii_lower(word) =~= word.map_values(
        |c: char|
            if 0x41 <= c as int <= 0x5a {
                (c as int + 0x20) as char
            } else {
                c
            },
    ));
    assert forall|k: int| 0 <= k < word.len() implies is_hex_digit(#[trigger] word[k]) == {
        ||| 0x30 <= word[k] as int <= 0x39
        ||| 0x41 <= word[k] as int <= 0x46
        ||| 0x61 <= word[k] as int <= 0x66
    } by {}
}

} // verus!
