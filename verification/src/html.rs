//! HTTP-shaped bodies: the HTML page that wraps an image as a base64
//! data-URI, the JSON bodies for upload receipts and errors, and the
//! `Accept`-header test that picks between HTML and JSON renderings.

use vstd::prelude::*;
use base64::Engine as _;
use crate::digits::{dec_str_of, hex_char, hex_lower_str, u64_to_string};
use crate::strutil::{contains_seq, str_contains};

verus! {

/// What base64-encoding some bytes yields under the standard alphabet
/// with padding: a pure function of the bytes.
pub uninterp spec fn b64_of(bytes: Seq<u8>) -> Seq<char>;

/// Relies on the encode method of base64's STANDARD engine: the encoding
/// depends on the input bytes alone, and with padding it writes four
/// characters for every started group of three bytes.  A vector occupies
/// at most `isize::MAX` bytes, so the engine's buffer-size computation
/// cannot overflow.
#[verifier::external_body]
fn base64_encode(bytes: &Vec<u8>) -> (r: String)
    ensures
        r@ == b64_of(bytes@),
        r@.len() == 4 * ((bytes@.len() + 2) / 3),
{
    base64::engine::general_purpose::STANDARD.encode(bytes.as_slice())
}

/// The HTML wrapper page: the image embedded as a data-URI, displayed at
/// the resolved width and height.
pub open spec fn html_of(mimetype: Seq<char>, b64: Seq<char>, w: u64, h: u64) -> Seq<char> {
    "<html><head><style>body { background: url(\"chrome://global/skin/media/imagedoc-darknoise.png\") fixed; display: flex; align-items: center; justify-content: center; height: 100vh; margin: 0; } img { max-width: 100%; max-height: 100%; }</style></head><body><img src=\"data:"@
        + mimetype + ";base64,"@ + b64 + "\" alt=\"Image\" width=\""@ + dec_str_of(w as int)
        + "\" height=\""@ + dec_str_of(h as int) + "\"/></body></html>"@
}

/// Build the HTML wrapper for an image.
pub fn build_html(mimetype: &str, image_bytes: &Vec<u8>, w: u64, h: u64) -> (r: String)
    ensures
        r@ == html_of(mimetype@, b64_of(image_bytes@), w, h),
{
    let b64: String = base64_encode(image_bytes);
    let ws: String = u64_to_string(w);
    let hs: String = u64_to_string(h);
    let r: String = String::from_str("<html><head><style>body { background: url(\"chrome://global/skin/media/imagedoc-darknoise.png\") fixed; display: flex; align-items: center; justify-content: center; height: 100vh; margin: 0; } img { max-width: 100%; max-height: 100%; }</style></head><body><img src=\"data:");
    let r: String = r.concat(mimetype);
    let r: String = r.concat(";base64,");
    let r: String = r.concat(b64.as_str());
    let r: String = r.concat("\" alt=\"Image\" width=\"");
    let r: String = r.concat(ws.as_str());
    let r: String = r.concat("\" height=\"");
    let r: String = r.concat(hs.as_str());
    let r: String = r.concat("\"/></body></html>");
    r
}

/// The canonical public URL of an image: the fixed base, the id, a dot
/// and the true extension.
pub open spec fn url_of(id: Seq<char>, ext: Seq<char>) -> Seq<char> {
    "https://cdn.klappstuhl.me/gallery/"@ + id + "."@ + ext
}

/// Build the canonical URL for an id and extension.
pub fn canonical_url(id: &str, ext: &str) -> (r: String)
    ensures
        r@ == url_of(id@, ext@),
{
    let r: String = String::from_str("https://cdn.klappstuhl.me/gallery/");
    let r: String = r.concat(id);
    let r: String = r.concat(".");
    let r: String = r.concat(ext);
    r
}

/// One character of a JSON string literal: quote, backslash and the
/// control characters are escaped (the common ones shortly, the rest as
/// `\u00..`); every other character stands as itself.
pub open spec fn json_escaped_char(c: char) -> Seq<char> {
    if c == '"' { seq!['\\', '"'] }
    else if c == '\\' { seq!['\\', '\\'] }
    else if c as u32 == 8 { seq!['\\', 'b'] }
    else if c as u32 == 9 { seq!['\\', 't'] }
    else if c as u32 == 10 { seq!['\\', 'n'] }
    else if c as u32 == 12 { seq!['\\', 'f'] }
    else if c as u32 == 13 { seq!['\\', 'r'] }
    else if (c as u32) < 32 {
        seq!['\\', 'u', '0', '0', hex_char((c as u32) as int / 16), hex_char((c as u32) as int % 16)]
    } else {
        seq![c]
    }
}

/// A string escaped for embedding between the quotes of a JSON string.
pub open spec fn json_escaped(s: Seq<char>) -> Seq<char>
    decreases s.len(),
{
    if s.len() == 0 {
        s
    } else {
        json_escaped_char(s[0]) + json_escaped(s.drop_first())
    }
}

proof fn lemma_json_escaped_push(s: Seq<char>, c: char)
    ensures
        json_escaped(s.push(c)) == json_escaped(s) + json_escaped_char(c),
    decreases s.len(),
{
    reveal_with_fuel(json_escaped, 3);
    if s.len() == 0 {
        assert(s.push(c)[0] == c);
        assert(s.push(c).drop_first() =~= Seq::<char>::empty());
        assert(json_escaped(s.push(c)) =~= json_escaped(s) + json_escaped_char(c));
    } else {
        assert(s.push(c)[0] == s[0]);
        assert(s.push(c).drop_first() =~= s.drop_first().push(c));
        lemma_json_escaped_push(s.drop_first(), c);
        assert(json_escaped_char(s[0]) + (json_escaped(s.drop_first()) + json_escaped_char(c))
            =~= (json_escaped_char(s[0]) + json_escaped(s.drop_first())) + json_escaped_char(c));
    }
}

/// Escape a string for embedding in a JSON string literal.
pub fn json_escape(s: &str) -> (r: String)
    ensures
        r@ == json_escaped(s@),
{
    let n: usize = s.unicode_len();
    let mut out: String = String::new();
    let mut i: usize = 0;
    while i < n
        invariant
            n == s@.len(),
            i <= n,
            out@ == json_escaped(s@.subrange(0, i as int)),
        decreases n - i,
    {
        let c: char = s.get_char(i);
        let code: u32 = c as u32;
        proof {
            assert(s@.subrange(0, i as int + 1)
                =~= s@.subrange(0, i as int).push(s@[i as int]));
            lemma_json_escaped_push(s@.subrange(0, i as int), s@[i as int]);
            reveal_strlit("\\\"");
            reveal_strlit("\\\\");
            reveal_strlit("\\b");
            reveal_strlit("\\t");
            reveal_strlit("\\n");
            reveal_strlit("\\f");
            reveal_strlit("\\r");
            reveal_strlit("\\u00");
        }
        if c == '"' {
            proof { assert("\\\""@ =~= json_escaped_char(c)); }
            out = out.concat("\\\"");
        } else if c == '\\' {
            proof { assert("\\\\"@ =~= json_escaped_char(c)); }
            out = out.concat("\\\\");
        } else if code == 8 {
            proof { assert("\\b"@ =~= json_escaped_char(c)); }
            out = out.concat("\\b");
        } else if code == 9 {
            proof { assert("\\t"@ =~= json_escaped_char(c)); }
            out = out.concat("\\t");
        } else if code == 10 {
            proof { assert("\\n"@ =~= json_escaped_char(c)); }
            out = out.concat("\\n");
        } else if code == 12 {
            proof { assert("\\f"@ =~= json_escaped_char(c)); }
            out = out.concat("\\f");
        } else if code == 13 {
            proof { assert("\\r"@ =~= json_escaped_char(c)); }
            out = out.concat("\\r");
        } else if code < 32 {
            out = out.concat("\\u00");
            out = out.concat(hex_lower_str(code / 16));
            out = out.concat(hex_lower_str(code % 16));
            proof {
                assert(out@ =~= json_escaped(s@.subrange(0, i as int)) + json_escaped_char(c));
            }
        } else {
            let piece: &str = s.substring_char(i, i + 1);
            proof { assert(piece@ =~= json_escaped_char(c)); }
            out = out.concat(piece);
        }
        i = i + 1;
    }
    proof {
        assert(s@.subrange(0, n as int) =~= s@);
    }
    out
}

/// The JSON body of a successful upload.
pub open spec fn upload_json_of(id: Seq<char>, url: Seq<char>) -> Seq<char> {
    "{\"id\": \""@ + json_escaped(id) + "\", \"url\": \""@ + json_escaped(url) + "\"}"@
}

/// Build the JSON body of a successful upload.
pub fn upload_json(id: &str, url: &str) -> (r: String)
    ensures
        r@ == upload_json_of(id@, url@),
{
    let id_esc: String = json_escape(id);
    let url_esc: String = json_escape(url);
    let r: String = String::from_str("{\"id\": \"");
    let r: String = r.concat(id_esc.as_str());
    let r: String = r.concat("\", \"url\": \"");
    let r: String = r.concat(url_esc.as_str());
    let r: String = r.concat("\"}");
    r
}

/// The JSON body of a deletion receipt.
pub open spec fn delete_json_of(id: Seq<char>) -> Seq<char> {
    "{\"id\": \""@ + json_escaped(id) + "\"}"@
}

/// Build the JSON body of a deletion receipt.
pub fn delete_json(id: &str) -> (r: String)
    ensures
        r@ == delete_json_of(id@),
{
    let id_esc: String = json_escape(id);
    let r: String = String::from_str("{\"id\": \"");
    let r: String = r.concat(id_esc.as_str());
    let r: String = r.concat("\"}");
    r
}

/// An error carried to the boundary: a status code and a message.
#[derive(Debug, Clone)]
pub struct CustomError(pub u16, pub String);

/// The generic JSON error shape for non-2xx responses, with the message
/// escaped as a JSON string.
pub open spec fn error_json_of(code: u16, message: Seq<char>) -> Seq<char> {
    "{\"error\":{\"code\":"@ + dec_str_of(code as int) + ",\"message\":\""@
        + json_escaped(message) + "\"}}"@
}

impl CustomError {
    /// Wrap a status code and message.
    pub fn new(status: u16, message: String) -> (r: CustomError)
        ensures
            r.0 == status,
            r.1@ == message@,
    {
        CustomError(status, message)
    }

    /// The JSON body this error renders to.
    pub fn body_json(&self) -> (r: String)
        ensures
            r@ == error_json_of(self.0, self.1@),
    {
        let code: String = u64_to_string(self.0 as u64);
        let msg: String = json_escape(self.1.as_str());
        let r: String = String::from_str("{\"error\":{\"code\":");
        let r: String = r.concat(code.as_str());
        let r: String = r.concat(",\"message\":\"");
        let r: String = r.concat(msg.as_str());
        let r: String = r.concat("\"}}");
        r
    }
}

/// Content negotiation: an `Accept` header asks for HTML when it names
/// `text/html` anywhere.
pub fn accepts_html(accept: &str) -> (r: bool)
    ensures
        r == contains_seq(accept@, "text/html"@),
{
    str_contains(accept, "text/html")
}

} // verus!
