//! Where the cache of a feed is stored.

use vstd::prelude::*;
use vstd::string::StringExecFns;
use vstd::utf8::encode_utf8;

verus! {

/// Whether the form encoding writes the byte as it is: `*`, `-`, `.`, `_`,
/// the digits and the letters of ASCII.
pub open spec fn form_keeps(byte: u8) -> bool {
    ||| byte == 0x2a
    ||| byte == 0x2d
    ||| byte == 0x2e
    ||| byte == 0x5f
    ||| 0x30 <= byte <= 0x39
    ||| 0x41 <= byte <= 0x5a
    ||| 0x61 <= byte <= 0x7a
}

/// The hexadecimal digit for a number below sixteen, with capital letters.
pub open spec fn hex_digit(n: u8) -> char {
    if n < 10 {
        (0x30 + n) as u8 as char
    } else {
        (0x37 + n) as u8 as char
    }
}

/// What the form encoding writes for one byte: the byte itself where it is
/// kept, `+` for a space, else `%` and the byte's two hexadecimal digits.
pub open spec fn form_encoded_byte(byte: u8) -> Seq<char> {
    if form_keeps(byte) {
        seq![byte as char]
    } else if byte == 0x20 {
        seq!['+']
    } else {
        seq!['%', hex_digit(byte / 16), hex_digit(byte % 16)]
    }
}

/// What the form encoding writes for the bytes, one after the other.
pub open spec fn form_encoded(bytes: Seq<u8>) -> Seq<char>
    decreases bytes.len(),
{
    if bytes.len() == 0 {
        Seq::empty()
    } else {
        form_encoded(bytes.drop_last()) + form_encoded_byte(bytes.last())
    }
}

/// `url::form_urlencoded::byte_serialize` on the UTF-8 bytes of `text`, its
/// pieces put together: each byte is written as `form_encoded_byte` says.
#[verifier::external_body]
fn form_encode(text: &str) -> (encoded: String)
    ensures
        encoded@ == form_encoded(encode_utf8(text@)),
{
    url::form_urlencoded::byte_serialize(text.as_bytes()).collect()
}

/// The name of the file that stores the cache of the feed at `feed_url` for
/// the chat `chat_id`: the chat, a hyphen, the form-encoded address of the
/// feed, and `.txt`. The same pair always gives the same name.
pub fn make_cache_filename(chat_id: &str, feed_url: &str) -> (name: String)
    ensures
        name@ == chat_id@ + seq!['-'] + form_encoded(encode_utf8(feed_url@)) + ".txt"@,
{
    let mut name = chat_id.to_owned();
    name.push('-');
    name.append(form_encode(feed_url).as_str());
    name.append(".txt");
    name
}

} // verus!
