//! Header fields, and which text may stand in one.

use vstd::prelude::*;
use vstd::string::*;
use vstd::utf8::*;

verus! {

/// A character that may stand in a header value: a horizontal tab, or a
/// printable ASCII character from the space to the tilde.
pub open spec fn is_header_safe_char(c: char) -> bool {
    c == '\t' || (' ' <= c && c <= '~')
}

/// Text that may stand in a header value: every character of it is
/// header-safe. No carriage return, line feed or other control character and
/// nothing outside ASCII passes.
pub open spec fn is_header_safe(text: Seq<char>) -> bool {
    forall|i: int| 0 <= i < text.len() ==> is_header_safe_char(#[trigger] text[i])
}

/// One header field of a request.
#[derive(Clone, Debug, PartialEq, Eq)]
pub struct Header {
    pub name: String,
    pub value: String,
}

impl View for Header {
    type V = (Seq<char>, Seq<char>);

    open spec fn view(&self) -> (Seq<char>, Seq<char>) {
        (self.name@, self.value@)
    }
}

/// The views of a list of headers, in the list's order.
pub open spec fn header_views(headers: Seq<Header>) -> Seq<(Seq<char>, Seq<char>)> {
    headers.map_values(|header: Header| header@)
}

/// Header-safe text cannot end a header line or begin another one: it holds
/// no carriage return and no line feed, and nothing outside ASCII.
pub proof fn lemma_header_safe_keeps_to_one_line(text: Seq<char>)
    requires
        is_header_safe(text),
    ensures
        !text.contains('\r'),
        !text.contains('\n'),
        is_ascii_chars(text),
{
    assert forall|i: int| 0 <= i < text.len() implies '\0' <= #[trigger] text[i] <= '\u{7f}' by {
        assert(is_header_safe_char(text[i]));
    }
    if text.contains('\r') {
        let i = choose|i: int| 0 <= i < text.len() && text[i] == '\r';
        assert(is_header_safe_char(text[i]));
    }
    if text.contains('\n') {
        let i = choose|i: int| 0 <= i < text.len() && text[i] == '\n';
        assert(is_header_safe_char(text[i]));
    }
}

/// Header fields whose values are all header-safe.
pub open spec fn header_values_safe(fields: Seq<(Seq<char>, Seq<char>)>) -> bool {
    forall|i: int| 0 <= i < fields.len() ==> is_header_safe((#[trigger] fields[i]).1)
}

/// A copy of a list of headers.
pub fn copy_headers(headers: &Vec<Header>) -> (copy: Vec<Header>)
    ensures
        header_views(copy@) == header_views(headers@),
{
    let mut copy: Vec<Header> = Vec::new();
    let mut i: usize = 0;
    while i < headers.len()
        invariant
            i <= headers.len(),
            copy@.len() == i,
            forall|j: int| 0 <= j < i ==> (#[trigger] copy@[j])@ == headers@[j]@,
        decreases headers.len() - i,
    {
        let name = headers[i].name.clone();
        let value = headers[i].value.clone();
        copy.push(Header { name, value });
        i += 1;
    }
    assert(header_views(copy@) =~= header_views(headers@));
    copy
}

/// Tells whether `text` may stand in a header value.
pub fn header_safe(text: &str) -> (safe: bool)
    ensures
        safe == is_header_safe(text@),
{
    if !text.is_ascii() {
        proof {
            let i = choose|i: int|
                0 <= i < text@.len() && !('\0' <= #[trigger] text@[i] <= '\u{7f}');
            assert(!is_header_safe_char(text@[i]));
        }
        return false;
    }
    let bytes = text.as_bytes();
    proof {
        is_ascii_chars_encode_utf8(text@);
    }
    let mut i: usize = 0;
    while i < bytes.len()
        invariant
            i <= bytes.len(),
            bytes@.len() == text@.len(),
            is_ascii_chars(text@),
            forall|j: int| 0 <= j < text@.len() ==> #[trigger] text@[j] as u8 == bytes@[j],
            forall|j: int| 0 <= j < i ==> is_header_safe_char(#[trigger] text@[j]),
        decreases bytes.len() - i,
    {
        let b = bytes[i];
        if !(b == 9 || (32 <= b && b <= 126)) {
            proof {
                let c = text@[i as int];
                assert(c as u8 == b);
                assert('\0' <= c <= '\u{7f}');
                assert(!is_header_safe_char(c));
            }
            return false;
        }
        proof {
            let c = text@[i as int];
            assert(c as u8 == b);
            assert('\0' <= c <= '\u{7f}');
            assert(is_header_safe_char(c));
        }
        i += 1;
    }
    true
}

} // verus!
