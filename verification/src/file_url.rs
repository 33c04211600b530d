//! Turning a `file://` URL (as handed over by drag and drop or the desktop
//! portal) into the local path it names.

use vstd::prelude::*;
use vstd::utf8::*;
use vstd::string::StringSliceAdditionalSpecFns;
use crate::text_util::{chars_of, matches_at, matches_at_exec, string_from_chars, sub_chars};

verus! {

/// The value of an ASCII hexadecimal digit.
pub open spec fn hex_digit_value(b: u8) -> Option<u8> {
    if 0x30 <= b <= 0x39 {
        Some((b - 0x30) as u8)
    } else if 0x61 <= b <= 0x66 {
        Some((b - 0x61 + 10) as u8)
    } else if 0x41 <= b <= 0x46 {
        Some((b - 0x41 + 10) as u8)
    } else {
        None
    }
}

/// Percent-decoding: every `%` followed by two hexadecimal digits stands for
/// the byte they spell; every other byte stands for itself.
pub open spec fn percent_decode_bytes(s: Seq<u8>) -> Seq<u8>
    decreases s.len(),
{
    if s.len() == 0 {
        Seq::empty()
    } else if s[0] == 0x25 && s.len() >= 3 && hex_digit_value(s[1]) is Some && hex_digit_value(
        s[2],
    ) is Some {
        seq![(hex_digit_value(s[1])->0 * 16 + hex_digit_value(s[2])->0) as u8] + percent_decode_bytes(
            s.skip(3),
        )
    } else {
        seq![s[0]] + percent_decode_bytes(s.skip(1))
    }
}

/// `percent_encoding::percent_decode_str(..).decode_utf8()`: percent-decodes
/// the string and reads the bytes as UTF-8, failing when they are not valid
/// UTF-8.
#[verifier::external_body]
fn percent_decode_utf8(input: &str) -> (r: Option<String>)
    ensures
        match r {
            Some(s) => valid_utf8(percent_decode_bytes(input.spec_bytes())) && s@ == decode_utf8(
                percent_decode_bytes(input.spec_bytes()),
            ),
            None => !valid_utf8(percent_decode_bytes(input.spec_bytes())),
        },
{
    percent_encoding::percent_decode_str(input).decode_utf8().ok().map(|s| s.into_owned())
}

/// The characters of `file://`.
pub open spec fn file_scheme() -> Seq<char> {
    seq!['f', 'i', 'l', 'e', ':', '/', '/']
}

/// The local path a decoded URL names: what follows `file://`, when that is
/// an absolute path (a URL with a host name names no local path).
pub open spec fn path_of_decoded_url(url: Seq<char>) -> Option<Seq<char>> {
    if matches_at(url, file_scheme(), 0) && url.len() > 7 && url[7] == '/' {
        Some(url.skip(7))
    } else {
        None
    }
}

/// The local path a `file://` URL names, before it is resolved on disk.
pub open spec fn spec_file_url_path(url: Seq<u8>) -> Option<Seq<char>> {
    let decoded = percent_decode_bytes(url);
    if valid_utf8(decoded) {
        path_of_decoded_url(decode_utf8(decoded))
    } else {
        None
    }
}

/// The path a decoded URL names: what follows `file://` if that starts with
/// `/`; `None` for other schemes and for URLs with a host name.
pub fn path_from_decoded_url(url: &str) -> (path: Option<String>)
    ensures
        match path {
            Some(p) => path_of_decoded_url(url@) == Some(p@),
            None => path_of_decoded_url(url@) is None,
        },
{
    let chars = chars_of(url);
    let scheme = vec!['f', 'i', 'l', 'e', ':', '/', '/'];
    assert(scheme@ =~= file_scheme());
    if !matches_at_exec(&chars, &scheme, 0) {
        return None;
    }
    if chars.len() <= 7 || chars[7] != '/' {
        return None;
    }
    let rest = sub_chars(&chars, 7, chars.len());
    assert(rest@ =~= url@.skip(7));
    Some(string_from_chars(rest.as_slice()))
}

/// The local path a `file://` URL names: the URL is percent-decoded and read
/// as UTF-8, then what follows `file://` is the path, provided it starts
/// with `/`. The path still has to be resolved on disk.
pub fn file_url_path(url: &str) -> (path: Option<String>)
    ensures
        match path {
            Some(p) => spec_file_url_path(url.spec_bytes()) == Some(p@),
            None => spec_file_url_path(url.spec_bytes()) is None,
        },
{
    match percent_decode_utf8(url) {
        Some(decoded) => path_from_decoded_url(decoded.as_str()),
        None => None,
    }
}

/// Every path read from a file URL is absolute: it starts with `/`.
pub proof fn lemma_file_url_path_absolute(url: Seq<u8>)
    ensures
        spec_file_url_path(url) matches Some(p) ==> p.len() > 0 && p[0] == '/',
{
}

/// The path read from a file URL is exactly the percent-decoded URL with
/// its `file://` prefix taken off: every other character, `+` included, is
/// kept as it is. Conversely, a decoded URL made of `file://` and a path
/// starting with `/` names that path.
pub proof fn lemma_file_url_path_is_decoded_rest(url: Seq<u8>, p: Seq<char>)
    ensures
        spec_file_url_path(url) == Some(p) ==> valid_utf8(percent_decode_bytes(url))
            && seq!['f', 'i', 'l', 'e', ':', '/', '/'] + p == decode_utf8(percent_decode_bytes(url)),
        (valid_utf8(percent_decode_bytes(url)) && decode_utf8(percent_decode_bytes(url)) == seq![
            'f',
            'i',
            'l',
            'e',
            ':',
            '/',
            '/',
        ] + p && p.len() > 0 && p[0] == '/') ==> spec_file_url_path(url) == Some(p),
{
    let scheme = seq!['f', 'i', 'l', 'e', ':', '/', '/'];
    let d = percent_decode_bytes(url);
    if valid_utf8(d) {
        let u = decode_utf8(d);
        if spec_file_url_path(url) == Some(p) {
            assert(u.subrange(0, 7) =~= scheme);
            assert(u =~= scheme + p);
        }
        if u == scheme + p && p.len() > 0 && p[0] == '/' {
            assert(u.subrange(0, 7) =~= file_scheme());
            assert(matches_at(u, file_scheme(), 0));
            assert(u[7] == p[0]);
            assert(u.skip(7) =~= p);
        }
    }
}

/// Percent-decoding changes nothing in bytes that hold no `%`.
pub proof fn lemma_percent_decode_without_percent(s: Seq<u8>)
    requires
        forall|i: int| 0 <= i < s.len() ==> s[i] != 0x25,
    ensures
        percent_decode_bytes(s) == s,
    decreases s.len(),
{
    if s.len() > 0 {
        lemma_percent_decode_without_percent(s.skip(1));
        assert(seq![s[0]] + s.skip(1) =~= s);
    }
}

} // verus!
