//! HTTP protocol layer: request parsing, URL decoding, form fields,
//! HTML escaping and response framing.
//!
//! Reading from and writing to the connection is left to the caller; the
//! functions here work on the lines and bytes that were read.

use vstd::prelude::*;
use vstd::utf8::*;
use vstd::string::StringSliceAdditionalSpecFns;
use vstd::string::StringExecFns;
use crate::text::{decimal, find, trim_end, trim, trim_start, trim_end_chars, trim_chars, is_white_space, white_space, sub_chars, chars_eq, eq_ignore_ascii_case, eq_ignore_ascii_case_str, parse_unsigned, parse_usize, push_char, push_decimal, chars_of, split, split_chars, split_once, split_once_chars, string_of};

verus! {

// ------------------------------------------------------------------
// URL decoding
// ------------------------------------------------------------------

/// Value of a hexadecimal digit byte, or -1.
pub open spec fn hex_value(b: u8) -> int {
    if 48 <= b <= 57 {
        b - 48
    } else if 97 <= b <= 102 {
        b - 87
    } else if 65 <= b <= 70 {
        b - 55
    } else {
        -1
    }
}

/// The byte that the two bytes after a `%` stand for, when both are hex digits.
pub open spec fn escape_value(b1: u8, b2: u8) -> Option<u8> {
    if hex_value(b1) >= 0 && hex_value(b2) >= 0 {
        Some((16 * hex_value(b1) + hex_value(b2)) as u8)
    } else {
        None
    }
}

/// Percent-decoding of bytes: `+` becomes a space, `%XX` becomes the byte
/// `0xXX`, and a `%` that starts no valid escape stays as it is.
pub open spec fn percent_decode(s: Seq<u8>) -> Seq<u8>
    decreases s.len(),
{
    if s.len() == 0 {
        Seq::empty()
    } else if s[0] == 43 {
        seq![32u8] + percent_decode(s.drop_first())
    } else if s[0] == 37 && 2 < s.len() {
        match escape_value(s[1], s[2]) {
            Some(v) => seq![v] + percent_decode(s.skip(3)),
            None => seq![37u8] + percent_decode(s.drop_first()),
        }
    } else {
        seq![s[0]] + percent_decode(s.drop_first())
    }
}

/// What `String::from_utf8_lossy` gives for a byte sequence.
pub uninterp spec fn utf8_lossy(bytes: Seq<u8>) -> Seq<char>;

/// The text that `String::from_utf8_lossy` reads from bytes: valid UTF-8 is
/// decoded as it is; what other input gives is left unsaid.
pub open spec fn bytes_text(b: Seq<u8>) -> Seq<char> {
    if valid_utf8(b) {
        decode_utf8(b)
    } else {
        utf8_lossy(b)
    }
}

/// std `String::from_utf8_lossy`: valid UTF-8 is decoded as it is; other
/// input gets replacement characters, of which nothing is stated here.
#[verifier::external_body]
fn string_from_utf8_lossy(bytes: &[u8]) -> (res: String)
    ensures
        res@ == utf8_lossy(bytes@),
        valid_utf8(bytes@) ==> res@ == decode_utf8(bytes@),
{
    String::from_utf8_lossy(bytes).into_owned()
}

/// URL decoding of a text: its UTF-8 bytes are percent-decoded and read back
/// as UTF-8, with replacement characters where they are not valid.
pub open spec fn url_decoded(s: Seq<char>) -> Seq<char> {
    bytes_text(percent_decode(encode_utf8(s)))
}

fn hex_digit(b: u8) -> (res: i16)
    ensures
        res == hex_value(b),
{
    if 48 <= b && b <= 57 {
        (b - 48) as i16
    } else if 97 <= b && b <= 102 {
        (b - 87) as i16
    } else if 65 <= b && b <= 70 {
        (b - 55) as i16
    } else {
        -1
    }
}

/// Percent-decoding of a byte slice.
pub fn percent_decode_bytes(s: &[u8]) -> (res: Vec<u8>)
    ensures
        res@ == percent_decode(s@),
{
    let n = s.len();
    let mut out: Vec<u8> = Vec::new();
    let mut i: usize = 0;
    assert(s@.skip(0) =~= s@);
    assert(out@ + percent_decode(s@) =~= percent_decode(s@));
    while i < n
        invariant
            n == s@.len(),
            i <= n,
            out@ + percent_decode(s@.skip(i as int)) == percent_decode(s@),
        decreases n - i,
    {
        let ghost rest = s@.skip(i as int);
        let b = s[i];
        assert(rest[0] == b);
        assert(rest.drop_first() =~= s@.skip(i + 1));
        if b == 43 {
            out.push(32);
            i = i + 1;
            assert(out@ + percent_decode(s@.skip(i as int)) =~= percent_decode(s@));
        } else if b == 37 && n - i > 2 {
            let h1 = hex_digit(s[i + 1]);
            let h2 = hex_digit(s[i + 2]);
            assert(rest[1] == s@[i + 1] && rest[2] == s@[i + 2]);
            if h1 >= 0 && h2 >= 0 {
                out.push((16 * h1 + h2) as u8);
                assert(rest.skip(3) =~= s@.skip(i + 3));
                i = i + 3;
            } else {
                out.push(37);
                i = i + 1;
            }
            assert(out@ + percent_decode(s@.skip(i as int)) =~= percent_decode(s@));
        } else {
            out.push(b);
            i = i + 1;
            assert(out@ + percent_decode(s@.skip(i as int)) =~= percent_decode(s@));
        }
    }
    assert(out@ + percent_decode(s@.skip(n as int)) =~= out@);
    out
}

/// URL decoding: `%XX` escapes byte by byte, `+` to a space; the bytes are
/// then read as UTF-8, with replacement characters where they are not valid.
pub fn url_decode(s: &str) -> (res: String)
    ensures
        res@ == url_decoded(s@),
        plain_chars(s@) ==> res@ == s@,
{
    let bytes = s.as_bytes();
    let out = percent_decode_bytes(bytes);
    proof {
        if plain_chars(s@) {
            law_url_decode_plain(s@);
        }
    }
    string_from_utf8_lossy(out.as_slice())
}

/// A text with no `%` and no `+`.
pub open spec fn plain_chars(s: Seq<char>) -> bool {
    forall|i: int| 0 <= i < s.len() ==> #[trigger] s[i] != '%' && s[i] != '+'
}

/// No byte of the UTF-8 encoding of a text with no `%` and no `+` is one of them.
proof fn lemma_encode_plain(s: Seq<char>)
    requires
        plain_chars(s),
    ensures
        forall|i: int| 0 <= i < encode_utf8(s).len() ==> #[trigger] encode_utf8(s)[i] != 37 && encode_utf8(s)[i] != 43,
    decreases s.len(),
{
    if s.len() > 0 {
        let t = s.drop_first();
        assert forall|i: int| 0 <= i < t.len() implies #[trigger] t[i] != '%' && t[i] != '+' by {
            assert(t[i] == s[i + 1]);
        }
        lemma_encode_plain(t);
        let c = s[0] as u32;
        let e = encode_scalar(c);
        assert(s[0] != '%' && s[0] != '+');
        char_u32_cast(s[0], c);
        assert(c != 37 && c != 43) by {
            assert(37u32 as char == '%');
            assert(43u32 as char == '+');
        }
        assert forall|i: int| 0 <= i < e.len() implies #[trigger] e[i] != 37u8 && e[i] != 43u8 by {
            if has_width_1_encoding(c) {
                assert((c & 0x7F) as u8 == c) by (bit_vector)
                    requires
                        c <= 0x7F;
            } else if has_width_2_encoding(c) {
                assert(forall|x: u32| #![auto] (0xC0u8 | ((x >> 6) & 0x1F) as u8) >= 0x80u8) by (bit_vector);
                assert(forall|x: u32| #![auto] (0x80u8 | (x & 0x3F) as u8) >= 0x80u8) by (bit_vector);
            } else if has_width_3_encoding(c) {
                assert(forall|x: u32| #![auto] (0xE0u8 | ((x >> 12) & 0x0F) as u8) >= 0x80u8) by (bit_vector);
                assert(forall|x: u32| #![auto] (0x80u8 | ((x >> 6) & 0x3F) as u8) >= 0x80u8) by (bit_vector);
                assert(forall|x: u32| #![auto] (0x80u8 | (x & 0x3F) as u8) >= 0x80u8) by (bit_vector);
            } else {
                assert(forall|x: u32| #![auto] (0xF0u8 | ((x >> 18) & 0x7) as u8) >= 0x80u8) by (bit_vector);
                assert(forall|x: u32| #![auto] (0x80u8 | ((x >> 12) & 0x3F) as u8) >= 0x80u8) by (bit_vector);
                assert(forall|x: u32| #![auto] (0x80u8 | ((x >> 6) & 0x3F) as u8) >= 0x80u8) by (bit_vector);
                assert(forall|x: u32| #![auto] (0x80u8 | (x & 0x3F) as u8) >= 0x80u8) by (bit_vector);
            }
        }
        let all = encode_utf8(s);
        assert(all == e + encode_utf8(t));
        assert forall|i: int| 0 <= i < all.len() implies #[trigger] all[i] != 37 && all[i] != 43 by {
            if i < e.len() {
                assert(all[i] == e[i]);
            } else {
                assert(all[i] == encode_utf8(t)[i - e.len()]);
            }
        }
    }
}

// ------------------------------------------------------------------
// Form fields and query strings
// ------------------------------------------------------------------

/// One `key=value` piece of a form, before decoding.
pub open spec fn raw_field(piece: Seq<char>) -> (Seq<char>, Seq<char>) {
    match split_once(piece, '=') {
        Some((k, v)) => (k, v),
        None => (piece, Seq::empty()),
    }
}

/// The decoded `(key, value)` of one piece.
pub open spec fn form_field(piece: Seq<char>) -> (Seq<char>, Seq<char>) {
    match split_once(piece, '=') {
        Some((k, v)) => (url_decoded(k), url_decoded(v)),
        None => (url_decoded(piece), Seq::empty()),
    }
}

/// The decoded fields of the non-empty pieces, in order.
pub open spec fn form_fields_of(pieces: Seq<Seq<char>>) -> Seq<(Seq<char>, Seq<char>)>
    decreases pieces.len(),
{
    if pieces.len() == 0 {
        Seq::empty()
    } else if pieces[0].len() == 0 {
        form_fields_of(pieces.drop_first())
    } else {
        seq![form_field(pieces[0])] + form_fields_of(pieces.drop_first())
    }
}

/// The fields of a form body or query string `k1=v1&k2=v2&...`.
pub open spec fn form_fields(s: Seq<char>) -> Seq<(Seq<char>, Seq<char>)> {
    form_fields_of(split(s, '&'))
}

/// The undecoded `(key, value)` of the non-empty pieces, in order.
pub open spec fn raw_fields_of(pieces: Seq<Seq<char>>) -> Seq<(Seq<char>, Seq<char>)>
    decreases pieces.len(),
{
    if pieces.len() == 0 {
        Seq::empty()
    } else if pieces[0].len() == 0 {
        raw_fields_of(pieces.drop_first())
    } else {
        seq![raw_field(pieces[0])] + raw_fields_of(pieces.drop_first())
    }
}

/// The undecoded fields of a form: what its fields are when it holds no `%`
/// and no `+`.
pub open spec fn raw_fields(s: Seq<char>) -> Seq<(Seq<char>, Seq<char>)> {
    raw_fields_of(split(s, '&'))
}

/// The pieces of a text with no `%` and no `+` hold none either.
proof fn lemma_split_plain(s: Seq<char>, c: char)
    requires
        plain_chars(s),
    ensures
        forall|i: int| 0 <= i < split(s, c).len() ==> plain_chars(#[trigger] split(s, c)[i]),
    decreases s.len(),
{
    crate::text::lemma_find(s, c);
    let k = find(s, c);
    if k < s.len() {
        let a = s.take(k as int);
        let b = s.skip(k + 1 as int);
        assert forall|i: int| 0 <= i < b.len() implies #[trigger] b[i] != '%' && b[i] != '+' by {
            assert(b[i] == s[i + k + 1]);
        }
        assert forall|i: int| 0 <= i < a.len() implies #[trigger] a[i] != '%' && a[i] != '+' by {
            assert(a[i] == s[i]);
        }
        lemma_split_plain(b, c);
        let r = split(s, c);
        assert(r == seq![a] + split(b, c));
        assert forall|i: int| 0 <= i < r.len() implies plain_chars(#[trigger] r[i]) by {
            if i > 0 {
                assert(r[i] == split(b, c)[i - 1]);
            }
        }
    }
}

/// Pieces with no `%` and no `+` decode to themselves.
proof fn lemma_fields_plain(pieces: Seq<Seq<char>>)
    requires
        forall|i: int| 0 <= i < pieces.len() ==> plain_chars(#[trigger] pieces[i]),
    ensures
        form_fields_of(pieces) == raw_fields_of(pieces),
    decreases pieces.len(),
{
    if pieces.len() > 0 {
        let t = pieces.drop_first();
        assert forall|i: int| 0 <= i < t.len() implies plain_chars(#[trigger] t[i]) by {
            assert(t[i] == pieces[i + 1]);
        }
        lemma_fields_plain(t);
        let p = pieces[0];
        assert(plain_chars(p));
        match split_once(p, '=') {
            Some((k, v)) => {
                crate::text::lemma_find(p, '=');
                let n = find(p, '=');
                assert forall|i: int| 0 <= i < k.len() implies #[trigger] k[i] != '%' && k[i] != '+' by {
                    assert(k[i] == p[i]);
                }
                assert forall|i: int| 0 <= i < v.len() implies #[trigger] v[i] != '%' && v[i] != '+' by {
                    assert(v[i] == p[i + n + 1]);
                }
                law_url_decode_plain(k);
                law_url_decode_plain(v);
            },
            None => {
                law_url_decode_plain(p);
            },
        }
    }
}

/// A form with no `%` and no `+` has its undecoded fields.
pub proof fn law_plain_form_fields(s: Seq<char>)
    requires
        plain_chars(s),
    ensures
        form_fields(s) == raw_fields(s),
{
    lemma_split_plain(s, '&');
    lemma_fields_plain(split(s, '&'));
}

/// The view of a list of string pairs.
pub open spec fn pairs_view(v: Seq<(String, String)>) -> Seq<(Seq<char>, Seq<char>)> {
    v.map_values(|p: (String, String)| (p.0@, p.1@))
}

fn decode_chars(cs: &[char]) -> (res: String)
    ensures
        res@ == url_decoded(cs@),
{
    let s = string_of(cs);
    url_decode(s.as_str())
}

fn form_fields_from(s: &[char]) -> (res: Vec<(String, String)>)
    ensures
        pairs_view(res@) == form_fields(s@),
{
    let pieces = split_chars(s, '&');
    let ghost ps = split(s@, '&');
    let mut fields: Vec<(String, String)> = Vec::new();
    let mut i: usize = 0;
    assert(ps.skip(0) =~= ps);
    while i < pieces.len()
        invariant
            ps == split(s@, '&'),
            pieces@.len() == ps.len(),
            forall|j: int| 0 <= j < pieces@.len() ==> #[trigger] pieces@[j]@ == ps[j],
            i <= pieces@.len(),
            pairs_view(fields@) + form_fields_of(ps.skip(i as int)) == form_fields_of(ps),
        decreases pieces@.len() - i,
    {
        let piece = &pieces[i];
        let ghost rest = ps.skip(i as int);
        assert(piece@ == ps[i as int]);
        assert(rest[0] == ps[i as int]);
        assert(rest.drop_first() =~= ps.skip(i + 1));
        if piece.len() > 0 {
            let field = match split_once_chars(piece.as_slice(), '=') {
                Some((k, v)) => (decode_chars(k.as_slice()), decode_chars(v.as_slice())),
                None => {
                    let empty = String::new();
                    (decode_chars(piece.as_slice()), empty)
                },
            };
            assert((field.0@, field.1@) == form_field(piece@));
            fields.push(field);
            assert(pairs_view(fields@) =~= pairs_view(fields@.drop_last()).push(
                (field.0@, field.1@),
            ));
        }
        i = i + 1;
        assert(pairs_view(fields@) + form_fields_of(ps.skip(i as int)) =~= form_fields_of(ps));
    }
    assert(ps.skip(pieces@.len() as int) =~= Seq::<Seq<char>>::empty());
    assert(pairs_view(fields@) =~= form_fields_of(ps));
    fields
}

/// Parses a form body `key=value&...`: empty pieces are skipped, a piece
/// without `=` has an empty value, keys and values are URL-decoded.
pub fn parse_form(body: &str) -> (res: Vec<(String, String)>)
    ensures
        pairs_view(res@) == form_fields(body@),
        plain_chars(body@) ==> pairs_view(res@) == raw_fields(body@),
{
    proof {
        if plain_chars(body@) {
            law_plain_form_fields(body@);
        }
    }
    let cs = chars_of(body);
    form_fields_from(cs.as_slice())
}

// ------------------------------------------------------------------
// HTML escaping and responses
// ------------------------------------------------------------------

/// The HTML escape of one character.
pub open spec fn escape_char(c: char) -> Seq<char> {
    if c == '&' {
        "&amp;"@
    } else if c == '<' {
        "&lt;"@
    } else if c == '>' {
        "&gt;"@
    } else if c == '"' {
        "&quot;"@
    } else if c == '\'' {
        "&#39;"@
    } else {
        seq![c]
    }
}

/// HTML escaping of a text: `& < > " '` become entities, other characters stay.
pub open spec fn escape_html(s: Seq<char>) -> Seq<char>
    decreases s.len(),
{
    if s.len() == 0 {
        Seq::empty()
    } else {
        escape_html(s.drop_last()) + escape_char(s.last())
    }
}

/// Appends the HTML escape of `s` to `out`.
pub fn push_escaped(out: &mut String, s: &str)
    ensures
        final(out)@ == old(out)@ + escape_html(s@),
{
    let ghost start = out@;
    let cs = chars_of(s);
    let n = cs.len();
    let mut i: usize = 0;
    while i < n
        invariant
            n == cs@.len(),
            cs@ == s@,
            i <= n,
            out@ == start + escape_html(cs@.take(i as int)),
        decreases n - i,
    {
        let c = cs[i];
        if c == '&' {
            out.append("&amp;");
        } else if c == '<' {
            out.append("&lt;");
        } else if c == '>' {
            out.append("&gt;");
        } else if c == '"' {
            out.append("&quot;");
        } else if c == '\'' {
            out.append("&#39;");
        } else {
            push_char(out, c);
        }
        proof {
            let now = cs@.take(i + 1);
            assert(now.drop_last() =~= cs@.take(i as int));
            assert(now.last() == c);
            assert(out@ =~= start + escape_html(now));
        }
        i = i + 1;
    }
    assert(cs@.take(n as int) =~= s@);
}

/// HTML escaping (against XSS): `& < > " '` become `&amp; &lt; &gt; &quot; &#39;`.
pub fn html_escape(s: &str) -> (res: String)
    ensures
        res@ == escape_html(s@),
{
    let mut out = String::new();
    push_escaped(&mut out, s);
    assert(out@ =~= escape_html(s@));
    out
}

/// The reason phrase sent with a status code.
pub open spec fn reason_phrase(status: u16) -> Seq<char> {
    if status == 200 {
        "OK"@
    } else if status == 302 {
        "Found"@
    } else if status == 400 {
        "Bad Request"@
    } else if status == 403 {
        "Forbidden"@
    } else if status == 404 {
        "Not Found"@
    } else {
        "Internal Server Error"@
    }
}

/// A complete response: status line, content type, the body's length in
/// UTF-8 bytes, headers that forbid caching and close the connection, body.
pub open spec fn response_text(status: u16, content_type: Seq<char>, body: Seq<char>) -> Seq<
    char,
> {
    "HTTP/1.1 "@ + decimal(status as nat) + " "@ + reason_phrase(status) + "\r\nContent-Type: "@
        + content_type + "\r\nContent-Length: "@ + decimal(encode_utf8(body).len())
        + "\r\nCache-Control: no-store\r\nPragma: no-cache\r\nExpires: 0\r\nConnection: close\r\n\r\n"@
        + body
}

/// Builds an HTTP response (no caching; `Content-Length` counts UTF-8 bytes).
pub fn http_response(status: u16, content_type: &str, body: &str) -> (res: String)
    ensures
        res@ == response_text(status, content_type@, body@),
{
    let reason = if status == 200 {
        "OK"
    } else if status == 302 {
        "Found"
    } else if status == 400 {
        "Bad Request"
    } else if status == 403 {
        "Forbidden"
    } else if status == 404 {
        "Not Found"
    } else {
        "Internal Server Error"
    };
    let len = body.as_bytes().len();
    let mut out = String::new();
    out.append("HTTP/1.1 ");
    push_decimal(&mut out, status as u128);
    out.append(" ");
    out.append(reason);
    out.append("\r\nContent-Type: ");
    out.append(content_type);
    out.append("\r\nContent-Length: ");
    push_decimal(&mut out, len as u128);
    out.append(
        "\r\nCache-Control: no-store\r\nPragma: no-cache\r\nExpires: 0\r\nConnection: close\r\n\r\n",
    );
    out.append(body);
    assert(out@ =~= response_text(status, content_type@, body@));
    out
}

/// A `302 Found` redirect to `location`.
pub open spec fn redirect_text(location: Seq<char>) -> Seq<char> {
    "HTTP/1.1 302 Found\r\nLocation: "@ + location
        + "\r\nContent-Length: 0\r\nConnection: close\r\n\r\n"@
}

/// A `302 Found` redirect to `location` that sets `cookie` for the whole site.
pub open spec fn redirect_with_cookie_text(location: Seq<char>, cookie: Seq<char>) -> Seq<char> {
    "HTTP/1.1 302 Found\r\nLocation: "@ + location + "\r\nSet-Cookie: "@ + cookie
        + "; Path=/\r\nContent-Length: 0\r\nConnection: close\r\n\r\n"@
}

/// Builds a `302` redirect (after login and the like).
pub fn redirect(location: &str) -> (res: String)
    ensures
        res@ == redirect_text(location@),
{
    let mut out = String::new();
    out.append("HTTP/1.1 302 Found\r\nLocation: ");
    out.append(location);
    out.append("\r\nContent-Length: 0\r\nConnection: close\r\n\r\n");
    assert(out@ =~= redirect_text(location@));
    out
}

/// Builds a `302` redirect that hands out a cookie (the session after login).
pub fn redirect_with_cookie(location: &str, cookie: &str) -> (res: String)
    ensures
        res@ == redirect_with_cookie_text(location@, cookie@),
{
    let mut out = String::new();
    out.append("HTTP/1.1 302 Found\r\nLocation: ");
    out.append(location);
    out.append("\r\nSet-Cookie: ");
    out.append(cookie);
    out.append("; Path=/\r\nContent-Length: 0\r\nConnection: close\r\n\r\n");
    assert(out@ =~= redirect_with_cookie_text(location@, cookie@));
    out
}

// ------------------------------------------------------------------
// Requests
// ------------------------------------------------------------------

/// A parsed HTTP request.
#[derive(Debug, Clone)]
pub struct HttpRequest {
    /// `"GET"` / `"POST"`.
    pub method: String,
    /// Path without the query string, such as `"/login"`.
    pub path: String,
    /// Decoded query parameters.
    pub query: Vec<(String, String)>,
    /// Decoded form fields of a POST body.
    pub body: Vec<(String, String)>,
    /// Raw value of the `Cookie` header (empty when absent).
    pub cookie: String,
}

/// The value of the first pair whose key is `name`.
pub open spec fn lookup(pairs: Seq<(Seq<char>, Seq<char>)>, name: Seq<char>) -> Option<Seq<char>>
    decreases pairs.len(),
{
    if pairs.len() == 0 {
        None
    } else if pairs[0].0 == name {
        Some(pairs[0].1)
    } else {
        lookup(pairs.drop_first(), name)
    }
}

fn lookup_pairs(pairs: &Vec<(String, String)>, name: &[char]) -> (res: Option<String>)
    ensures
        match lookup(pairs_view(pairs@), name@) {
            Some(v) => res matches Some(r) && r@ == v,
            None => res is None,
        },
{
    let n = pairs.len();
    let ghost pv = pairs_view(pairs@);
    let mut i: usize = 0;
    assert(pv.skip(0) =~= pv);
    while i < n
        invariant
            n == pairs@.len(),
            pv == pairs_view(pairs@),
            i <= n,
            lookup(pv.skip(i as int), name@) == lookup(pv, name@),
        decreases n - i,
    {
        let key = chars_of(pairs[i].0.as_str());
        let ghost rest = pv.skip(i as int);
        assert(rest[0] == pv[i as int]);
        assert(rest.drop_first() =~= pv.skip(i + 1));
        if chars_eq(key.as_slice(), name) {
            return Some(pairs[i].1.clone());
        }
        i = i + 1;
    }
    None
}

impl HttpRequest {
    /// The value of a query parameter, or else of a form field.
    pub open spec fn param_value(&self, name: Seq<char>) -> Option<Seq<char>> {
        match lookup(pairs_view(self.query@), name) {
            Some(v) => Some(v),
            None => lookup(pairs_view(self.body@), name),
        }
    }

    /// Looks up a parameter: the query string first, then the form body.
    pub fn param(&self, name: &str) -> (res: Option<String>)
        ensures
            match self.param_value(name@) {
                Some(v) => res matches Some(r) && r@ == v,
                None => res is None,
            },
    {
        let key = chars_of(name);
        match lookup_pairs(&self.query, key.as_slice()) {
            Some(v) => Some(v),
            None => lookup_pairs(&self.body, key.as_slice()),
        }
    }
}

/// Index of the first white-space character of `s`, or `s.len()`.
pub open spec fn find_white_space(s: Seq<char>) -> nat
    decreases s.len(),
{
    if s.len() == 0 {
        0
    } else if is_white_space(s[0]) {
        0
    } else {
        1 + find_white_space(s.drop_first())
    }
}

/// The first white-space separated word of `s` and what follows it.
pub open spec fn next_word(s: Seq<char>) -> (Seq<char>, Seq<char>) {
    let t = trim_start(s);
    let k = find_white_space(t);
    (t.take(k as int), t.skip(k as int))
}

proof fn lemma_find_white_space(s: Seq<char>)
    ensures
        find_white_space(s) <= s.len(),
        forall|j: int| 0 <= j < find_white_space(s) ==> !is_white_space(#[trigger] s[j]),
        find_white_space(s) < s.len() ==> is_white_space(s[find_white_space(s) as int]),
    decreases s.len(),
{
    if s.len() > 0 && !is_white_space(s[0]) {
        lemma_find_white_space(s.drop_first());
        assert forall|j: int| 0 <= j < find_white_space(s) implies !is_white_space(
            #[trigger] s[j],
        ) by {
            if j > 0 {
                assert(s[j] == s.drop_first()[j - 1]);
            }
        }
    }
}

proof fn lemma_find_white_space_unique(s: Seq<char>, k: int)
    requires
        0 <= k <= s.len(),
        forall|j: int| 0 <= j < k ==> !is_white_space(#[trigger] s[j]),
        k == s.len() || is_white_space(s[k]),
    ensures
        find_white_space(s) == k,
{
    lemma_find_white_space(s);
    if (find_white_space(s) as int) < k {
        assert(is_white_space(s[find_white_space(s) as int]));
    }
    if (find_white_space(s) as int) > k {
        assert(!is_white_space(s[k]));
    }
}

/// Splits off the first white-space separated word (`str::split_whitespace`).
pub fn split_word(s: &[char]) -> (res: (Vec<char>, Vec<char>))
    ensures
        res.0@ == next_word(s@).0,
        res.1@ == next_word(s@).1,
{
    let n = s.len();
    let mut i: usize = 0;
    while i < n && white_space(s[i])
        invariant
            n == s@.len(),
            i <= n,
            forall|j: int| 0 <= j < i ==> is_white_space(#[trigger] s@[j]),
        decreases n - i,
    {
        i = i + 1;
    }
    proof {
        crate::text::lemma_trim_start_skip(s@, i as int);
    }
    let mut k: usize = i;
    while k < n && !white_space(s[k])
        invariant
            n == s@.len(),
            i <= k <= n,
            forall|j: int| i <= j < k ==> !is_white_space(#[trigger] s@[j]),
        decreases n - k,
    {
        k = k + 1;
    }
    let ghost t = s@.skip(i as int);
    proof {
        assert forall|j: int| 0 <= j < k - i implies !is_white_space(#[trigger] t[j]) by {
            assert(t[j] == s@[i + j]);
        }
        if k < n {
            assert(t[k - i] == s@[k as int]);
        }
        lemma_find_white_space_unique(t, k - i);
    }
    let word = sub_chars(s, i, k);
    let rest = sub_chars(s, k, n);
    assert(word@ =~= t.take(k - i));
    assert(rest@ =~= t.skip(k - i));
    (word, rest)
}

/// Method and target of a request line, when it has both.
pub open spec fn request_line_parts(line: Seq<char>) -> Option<(Seq<char>, Seq<char>)> {
    let t = trim_end(line);
    let (method, rest) = next_word(t);
    let (target, _) = next_word(rest);
    if t.len() == 0 || method.len() == 0 || target.len() == 0 {
        None
    } else {
        Some((method, target))
    }
}

/// Path and query string of a request target.
pub open spec fn target_parts(target: Seq<char>) -> (Seq<char>, Seq<char>) {
    match split_once(target, '?') {
        Some((p, q)) => (p, q),
        None => (target, Seq::empty()),
    }
}

/// The query string of a request line (empty when there is none).
pub open spec fn request_query(line: Seq<char>) -> Seq<char> {
    match request_line_parts(line) {
        Some((_, target)) => target_parts(target).1,
        None => Seq::empty(),
    }
}

/// Content length and cookie after one header line (trailing white space removed).
pub open spec fn apply_header(h: Seq<char>, content_length: nat, cookie: Seq<char>) -> (
    nat,
    Seq<char>,
) {
    match split_once(h, ':') {
        Some((name, value)) => {
            let n = trim(name);
            let v = trim(value);
            if eq_ignore_ascii_case(n, "content-length"@) {
                (
                    match parse_unsigned(v, usize::MAX as nat) {
                        Some(x) => x,
                        None => 0,
                    },
                    cookie,
                )
            } else if eq_ignore_ascii_case(n, "cookie"@) {
                (content_length, v)
            } else {
                (content_length, cookie)
            }
        },
        None => (content_length, cookie),
    }
}

/// Content length and cookie from the header lines, which end at the first
/// blank line; a later header of the same name wins.
pub open spec fn apply_headers(lines: Seq<Seq<char>>, content_length: nat, cookie: Seq<char>) -> (
    nat,
    Seq<char>,
)
    decreases lines.len(),
{
    if lines.len() == 0 {
        (content_length, cookie)
    } else {
        let h = trim_end(lines[0]);
        if h.len() == 0 {
            (content_length, cookie)
        } else {
            let (c2, k2) = apply_header(h, content_length, cookie);
            apply_headers(lines.drop_first(), c2, k2)
        }
    }
}

/// The views of a list of strings.
pub open spec fn strings_view(v: Seq<String>) -> Seq<Seq<char>> {
    v.map_values(|s: String| s@)
}

/// `(content length, cookie)` given by the header lines.
pub open spec fn headers_info(lines: Seq<String>) -> (nat, Seq<char>) {
    apply_headers(strings_view(lines), 0, Seq::empty())
}

/// The text of a body of the given bytes (no body when the length is 0).
pub open spec fn body_text(content_length: nat, body: Seq<u8>) -> Seq<char> {
    if content_length > 0 {
        bytes_text(body)
    } else {
        Seq::empty()
    }
}

/// Whether a line ends the head of a request (blank once trailing white space is removed).
pub fn is_head_end(line: &str) -> (res: bool)
    ensures
        res == (trim_end(line@).len() == 0),
{
    let cs = chars_of(line);
    let t = trim_end_chars(cs.as_slice());
    t.len() == 0
}

fn apply_header_exec(h: &[char], content_length: usize, cookie: Vec<char>) -> (res: (
    usize,
    Vec<char>,
))
    ensures
        res.0 as nat == apply_header(h@, content_length as nat, cookie@).0,
        res.1@ == apply_header(h@, content_length as nat, cookie@).1,
{
    match split_once_chars(h, ':') {
        Some((name, value)) => {
            let n = trim_chars(name.as_slice());
            let v = trim_chars(value.as_slice());
            if eq_ignore_ascii_case_str(n.as_slice(), "content-length") {
                let len = match parse_usize(v.as_slice()) {
                    Some(x) => x,
                    None => 0,
                };
                (len, cookie)
            } else if eq_ignore_ascii_case_str(n.as_slice(), "cookie") {
                (content_length, v)
            } else {
                (content_length, cookie)
            }
        },
        None => (content_length, cookie),
    }
}

/// Content length and cookie given by the header lines.
pub fn read_headers(lines: &Vec<String>) -> (res: (usize, String))
    ensures
        res.0 as nat == headers_info(lines@).0,
        res.1@ == headers_info(lines@).1,
{
    let ghost lv = strings_view(lines@);
    let n = lines.len();
    let mut cl: usize = 0;
    let mut ck: Vec<char> = Vec::new();
    let mut i: usize = 0;
    assert(lv.skip(0) =~= lv);
    while i < n
        invariant
            n == lines@.len(),
            lv == strings_view(lines@),
            i <= n,
            apply_headers(lv.skip(i as int), cl as nat, ck@) == headers_info(lines@),
        decreases n - i,
    {
        let line = chars_of(lines[i].as_str());
        let h = trim_end_chars(line.as_slice());
        let ghost rest = lv.skip(i as int);
        assert(rest[0] == lines@[i as int]@);
        assert(rest.drop_first() =~= lv.skip(i + 1));
        if h.len() == 0 {
            let c = string_of(ck.as_slice());
            return (cl, c);
        }
        let (c2, k2) = apply_header_exec(h.as_slice(), cl, ck);
        cl = c2;
        ck = k2;
        i = i + 1;
    }
    let c = string_of(ck.as_slice());
    (cl, c)
}

/// The request that a request line, header lines and body bytes make:
/// `(method, path, query string, body text, cookie)`, when the request line
/// has a method and a target.
pub open spec fn request_parts(line: Seq<char>, headers: Seq<String>, body: Seq<u8>) -> Option<
    (Seq<char>, Seq<char>, Seq<char>, Seq<char>, Seq<char>),
> {
    match request_line_parts(line) {
        Some((method, target)) => {
            let (path, q) = target_parts(target);
            let (cl, cookie) = headers_info(headers);
            Some((method, path, q, body_text(cl, body), cookie))
        },
        None => None,
    }
}

/// Parses a request from its request line (as read, line end included),
/// its header lines up to the blank line, and the body bytes, of which
/// there are as many as the `Content-Length` header gives.
///
/// `None` when the request line has no method or no target.
pub fn parse_request(request_line: &str, header_lines: &Vec<String>, body: &[u8]) -> (res: Option<
    HttpRequest,
>)
    requires
        body@.len() == headers_info(header_lines@).0,
    ensures
        match request_parts(request_line@, header_lines@, body@) {
            Some((method, path, q, b, cookie)) => res matches Some(r) && r.method@ == method
                && r.path@ == path && pairs_view(r.query@) == form_fields(q) && pairs_view(
                r.body@,
            ) == form_fields(b) && r.cookie@ == cookie,
            None => res is None,
        },
        match request_parts(request_line@, header_lines@, body@) {
            Some((_, _, q, b, _)) => (plain_chars(q) ==> form_fields(q) == raw_fields(q))
                && (plain_chars(b) ==> form_fields(b) == raw_fields(b)),
            None => true,
        },
{
    proof {
        match request_parts(request_line@, header_lines@, body@) {
            Some((_, _, q, b, _)) => {
                if plain_chars(q) {
                    law_plain_form_fields(q);
                }
                if plain_chars(b) {
                    law_plain_form_fields(b);
                }
            },
            None => {},
        }
    }
    let line = chars_of(request_line);
    let t = trim_end_chars(line.as_slice());
    if t.len() == 0 {
        return None;
    }
    let (method, rest) = split_word(t.as_slice());
    let (target, _) = split_word(rest.as_slice());
    if method.len() == 0 || target.len() == 0 {
        return None;
    }
    let (path, q) = match split_once_chars(target.as_slice(), '?') {
        Some((p, q)) => (p, q),
        None => (target, Vec::new()),
    };
    assert(q@ == request_query(request_line@));
    let query = form_fields_from(q.as_slice());
    let (cl, cookie) = read_headers(header_lines);
    let fields = if cl > 0 {
        let text = string_from_utf8_lossy(body);
        let bc = chars_of(text.as_str());
        form_fields_from(bc.as_slice())
    } else {
        let ghost e = Seq::<char>::empty();
        proof {
            crate::text::lemma_find(e, '&');
            assert(split(e, '&') =~= seq![e]);
            assert(seq![e].drop_first() =~= Seq::<Seq<char>>::empty());
            assert(form_fields_of(seq![e]) == form_fields_of(Seq::<Seq<char>>::empty()));
            assert(form_fields(e) =~= Seq::empty());
        }
        Vec::new()
    };
    Some(
        HttpRequest {
            method: string_of(method.as_slice()),
            path: string_of(path.as_slice()),
            query,
            body: fields,
            cookie,
        },
    )
}

// ------------------------------------------------------------------
// Laws
// ------------------------------------------------------------------

/// Bytes with no `%` and no `+` are left as they are by percent-decoding.
pub proof fn law_percent_decode_plain(b: Seq<u8>)
    requires
        forall|i: int| 0 <= i < b.len() ==> #[trigger] b[i] != 37 && b[i] != 43,
    ensures
        percent_decode(b) == b,
    decreases b.len(),
{
    if b.len() > 0 {
        let t = b.drop_first();
        assert forall|i: int| 0 <= i < t.len() implies #[trigger] t[i] != 37 && t[i] != 43 by {
            assert(t[i] == b[i + 1]);
        }
        law_percent_decode_plain(t);
        assert(seq![b[0]] + t =~= b);
    }
}

/// URL decoding gives back a text that holds no `%` and no `+`.
pub proof fn law_url_decode_plain(s: Seq<char>)
    requires
        plain_chars(s),
    ensures
        url_decoded(s) == s,
{
    lemma_encode_plain(s);
    law_percent_decode_plain(encode_utf8(s));
    encode_utf8_valid_utf8(s);
    encode_utf8_decode_utf8(s);
}

/// Escaped text holds none of `< > " '`, so it cannot open a tag or leave
/// an attribute.
pub proof fn law_escaped_has_no_markup(s: Seq<char>)
    ensures
        forall|i: int|
            0 <= i < escape_html(s).len() ==> {
                let c = #[trigger] escape_html(s)[i];
                c != '<' && c != '>' && c != '"' && c != '\''
            },
    decreases s.len(),
{
    reveal_strlit("&amp;");
    reveal_strlit("&lt;");
    reveal_strlit("&gt;");
    reveal_strlit("&quot;");
    reveal_strlit("&#39;");
    if s.len() > 0 {
        law_escaped_has_no_markup(s.drop_last());
        let prev = escape_html(s.drop_last());
        let e = escape_char(s.last());
        assert(escape_html(s) == prev + e);
        assert forall|i: int| 0 <= i < escape_html(s).len() implies {
            let c = #[trigger] escape_html(s)[i];
            c != '<' && c != '>' && c != '"' && c != '\''
        } by {
            if i < prev.len() {
                assert(escape_html(s)[i] == prev[i]);
            } else {
                assert(escape_html(s)[i] == e[i - prev.len()]);
            }
        }
    }
}

} // verus!
