//! Payload encoding/decoding: the `label: value` sensor format.
//!
//! - one `key: value` pair per line
//! - empty lines and lines starting with `#` are skipped
//! - keys and values are trimmed
//! - lines without a `:` separator are skipped
use vstd::prelude::*;

use crate::sensor_values::SensorValues;
use crate::text::{
    char_pos, chars_of, find_char, lemma_char_pos_bounds, lemma_char_pos_shift, string_from_chars,
    trim, trim_bounds,
};

verus! {

/// What `String::from_utf8_lossy` decodes a byte sequence to.
pub uninterp spec fn utf8_lossy(bytes: Seq<u8>) -> Seq<char>;

/// Decodes `bytes` as UTF-8, replacing invalid sequences with U+FFFD
/// (`String::from_utf8_lossy`). Claimed: the result is a function of the
/// bytes alone (named [`utf8_lossy`]) and, for valid UTF-8, is the decoded
/// text itself.
#[verifier::external_body]
fn decode_utf8_lossy(bytes: &[u8]) -> (s: String)
    ensures
        s@ == utf8_lossy(bytes@),
        vstd::utf8::valid_utf8(bytes@) ==> s@ == vstd::utf8::decode_utf8(bytes@),
{
    String::from_utf8_lossy(bytes).into_owned()
}

/// The entry a single line contributes: `Some((key, value))` for a
/// `key: value` line, `None` for blank, comment and separator-less lines.
pub open spec fn line_entry(line: Seq<char>) -> Option<(Seq<char>, Seq<char>)> {
    let t = trim(line);
    if t.len() == 0 || t[0] == '#' {
        None
    } else {
        let c = char_pos(t, ':', 0);
        if c >= t.len() {
            None
        } else {
            Some((trim(t.take(c)), trim(t.skip(c + 1))))
        }
    }
}

/// Folds the lines of `s` starting at `i` into `m`.
pub open spec fn parse_from(s: Seq<char>, i: int, m: Map<Seq<char>, Seq<char>>) -> Map<
    Seq<char>,
    Seq<char>,
>
    decreases s.len() - i,
{
    if i < 0 || i >= s.len() {
        m
    } else {
        proof {
            lemma_char_pos_bounds(s, '\n', i);
        }
        let e = char_pos(s, '\n', i);
        let m2 = match line_entry(s.subrange(i, e)) {
            Some((k, v)) => m.insert(k, v),
            None => m,
        };
        if e >= s.len() {
            m2
        } else {
            parse_from(s, e + 1, m2)
        }
    }
}

/// The sensor map denoted by a payload text: each line is split at its first
/// `:`, later lines override earlier lines with the same key.
pub open spec fn key_value_map(text: Seq<char>) -> Map<Seq<char>, Seq<char>> {
    parse_from(text, 0, Map::empty())
}

/// Parses a `label: value` text into a map of sensor values.
pub fn parse_key_value_text(text: &str) -> (values: SensorValues)
    ensures
        values@ == key_value_map(text@),
{
    let cs = chars_of(text);
    let n = cs.len();
    let mut values = SensorValues::new();
    let mut i: usize = 0;
    while i < n
        invariant
            n == cs@.len(),
            cs@ == text@,
            i <= n,
                key_value_map(text@) == parse_from(cs@, i as int, values@),
        decreases n - i,
    {
        let e = find_char(&cs, '\n', i, n);
        proof {
            lemma_char_pos_bounds(cs@, '\n', i as int);
            assert(char_pos(cs@.subrange(i as int, n as int), '\n', 0) + i == char_pos(
                cs@,
                '\n',
                i as int,
            )) by {
                lemma_char_pos_shift(cs@, '\n', i as int, 0);
            }
        }
        let ghost line = cs@.subrange(i as int, e as int);
        let (a, b) = trim_bounds(&cs, i, e);
        if a < b && cs[a] != '#' {
            let k = find_char(&cs, ':', a, b);
            proof {
                lemma_char_pos_bounds(cs@.subrange(a as int, b as int), ':', 0);
            }
            if k < b {
                let ghost t = cs@.subrange(a as int, b as int);
                proof {
                    assert(t == trim(line));
                    assert(t.take(k - a) =~= cs@.subrange(a as int, k as int));
                    assert(t.skip(k - a + 1) =~= cs@.subrange(k + 1, b as int));
                }
                let (ka, kb) = trim_bounds(&cs, a, k);
                let (va, vb) = trim_bounds(&cs, k + 1, b);
                let key = string_from_chars(vstd::slice::slice_subrange(cs.as_slice(), ka, kb));
                let value = string_from_chars(vstd::slice::slice_subrange(cs.as_slice(), va, vb));
                values.insert(key, value);
            } else {
                proof {
                    lemma_char_pos_bounds(cs@.subrange(a as int, b as int), ':', 0);
                }
            }
        }
        if e < n {
            i = e + 1;
        } else {
            i = n;
        }
    }
    values
}

/// Parses a `label: value` payload into a map of sensor values.
///
/// Invalid lines (no `:` separator) are skipped. The payload is read as
/// UTF-8 lossily.
pub fn parse_key_value(payload: &[u8]) -> (values: SensorValues)
    ensures
        values@ == key_value_map(utf8_lossy(payload@)),
        vstd::utf8::valid_utf8(payload@) ==> values@ == key_value_map(
            vstd::utf8::decode_utf8(payload@),
        ),
{
    let text = decode_utf8_lossy(payload);
    parse_key_value_text(text.as_str())
}

} // verus!
