//! Responses as they go out on a connection.
use crate::json::Json;
use crate::{http, json, number, text};
use serde_json::Value;
use vstd::prelude::*;
use vstd::utf8::*;

verus! {

/// The status line and the headers of a response.
pub open spec fn response_head(status: Seq<char>, content_type: Seq<char>, body_len: nat) -> Seq<
    char,
> {
    "HTTP/1.1 "@ + status + "\r\nContent-Type: "@ + content_type + "\r\nContent-Length: "@
        + number::decimal(body_len)
        + "\r\nCache-Control: no-store\r\nConnection: close\r\n\r\n"@
}

/// The bytes of a response.
pub open spec fn response(status: Seq<char>, content_type: Seq<char>, body: Seq<u8>) -> Seq<u8> {
    encode_utf8(response_head(status, content_type, body.len())) + body
}

/// The bytes of a response whose body is a JSON value, or the message of the
/// error in writing it.
pub open spec fn json_response(status: Seq<char>, value: Json) -> Result<Seq<u8>, Seq<char>> {
    match json::json_bytes(value) {
        Ok(body) => Ok(response(status, "application/json"@, body)),
        Err(e) => Err(e),
    }
}

/// Writes a response.
pub fn write_response(status: &str, content_type: &str, body: &[u8]) -> (out: Vec<u8>)
    ensures
        out@ == response(status@, content_type@, body@),
{
    let mut head = String::new();
    head.append("HTTP/1.1 ");
    head.append(status);
    head.append("\r\nContent-Type: ");
    head.append(content_type);
    head.append("\r\nContent-Length: ");
    let len = number::format_u64(body.len() as u64);
    head.append(len.as_str());
    head.append("\r\nCache-Control: no-store\r\nConnection: close\r\n\r\n");
    assert(head@ =~= response_head(status@, content_type@, body@.len()));
    let mut out: Vec<u8> = vstd::slice::slice_to_vec(head.as_str().as_bytes());
    out.extend_from_slice(body);
    assert(out@ =~= response(status@, content_type@, body@));
    out
}

/// Writes a response whose body is a JSON value.
pub fn write_json(status: &str, value: &Value) -> (r: Result<Vec<u8>, String>)
    ensures
        match r {
            Ok(out) => json_response(status@, json::json(*value)) == Ok::<Seq<u8>, Seq<char>>(out@),
            Err(e) => json_response(status@, json::json(*value)) == Err::<Seq<u8>, Seq<char>>(e@),
        },
{
    match json::json_to_vec(value) {
        Ok(body) => Ok(write_response(status, "application/json", body.as_slice())),
        Err(e) => Err(e),
    }
}

/// The head of a response without the line ends that end it.
spec fn head_lines(status: Seq<char>, content_type: Seq<char>, body_len: nat) -> Seq<char> {
    "HTTP/1.1 "@ + status + "\r\nContent-Type: "@ + content_type + "\r\nContent-Length: "@
        + number::decimal(body_len) + "\r\nCache-Control: no-store\r\nConnection: close"@
}

proof fn lemma_head_lines(status: Seq<char>, content_type: Seq<char>, body_len: nat)
    requires
        http::printable(status),
        http::printable(content_type),
    ensures
        http::lines_follow(head_lines(status, content_type, body_len)),
        response_head(status, content_type, body_len) == head_lines(status, content_type, body_len)
            + seq!['\r', '\n', '\r', '\n'],
{
    reveal_strlit("HTTP/1.1 ");
    reveal_strlit("\r\nContent-Type: ");
    reveal_strlit("\r\nContent-Length: ");
    reveal_strlit("\r\nCache-Control: no-store\r\nConnection: close");
    reveal_strlit("\r\nCache-Control: no-store\r\nConnection: close\r\n\r\n");
    let digits = number::decimal(body_len);
    number::lemma_decimal_digits(body_len);
    assert forall|i: int| 0 <= i < digits.len() implies '\0' <= #[trigger] digits[i] <= '~'
        && digits[i] != '\r' by {
        assert(number::is_digit(digits[i]));
    }
    let a = "HTTP/1.1 "@;
    let b = "\r\nContent-Type: "@;
    let c = "\r\nContent-Length: "@;
    let d = "\r\nCache-Control: no-store\r\nConnection: close"@;
    http::lemma_lines_follow(a, status);
    http::lemma_lines_follow(a + status, b);
    http::lemma_lines_follow(a + status + b, content_type);
    http::lemma_lines_follow(a + status + b + content_type, c);
    http::lemma_lines_follow(a + status + b + content_type + c, digits);
    http::lemma_lines_follow(a + status + b + content_type + c + digits, d);
    assert("\r\nCache-Control: no-store\r\nConnection: close\r\n\r\n"@ =~= d + seq![
        '\r',
        '\n',
        '\r',
        '\n',
    ]);
    assert(response_head(status, content_type, body_len) =~= head_lines(
        status,
        content_type,
        body_len,
    ) + seq!['\r', '\n', '\r', '\n']);
}

/// The body of a response is what follows the first empty line.
pub proof fn law_body_follows_the_first_empty_line(
    status: Seq<char>,
    content_type: Seq<char>,
    body: Seq<u8>,
)
    requires
        http::printable(status),
        http::printable(content_type),
    ensures
        match text::find(response(status, content_type, body), http::terminator()) {
            Some(i) => response(status, content_type, body).skip(i + 4) == body,
            None => false,
        },
{
    let lines = head_lines(status, content_type, body.len());
    let head = response_head(status, content_type, body.len());
    let bytes = encode_utf8(head);
    let all = response(status, content_type, body);
    lemma_head_lines(status, content_type, body.len());
    assert forall|i: int| 0 <= i < head.len() implies '\0' <= #[trigger] head[i] <= '~' by {
        if i < lines.len() {
            assert(head[i] == lines[i]);
        }
    }
    is_ascii_chars_encode_utf8(head);
    let n = lines.len() as int;
    assert(all.subrange(n, n + 4) =~= http::terminator());
    assert forall|j: int| 0 <= j < n implies !#[trigger] text::occurs_at(
        all,
        http::terminator(),
        j,
    ) by {
        if text::occurs_at(all, http::terminator(), j) {
            let found = all.subrange(j, j + 4);
            assert(found[0] == 13u8 && found[2] == 13u8);
            assert(head[j] == lines[j]);
            assert(lines[j] == '\r');
            assert(head[j + 2] == lines[j + 2]);
        }
    }
    text::lemma_find_is(all, http::terminator(), n);
    assert(all.skip(n + 4) =~= body);
}

/// The length that a response announces is that of its body.
pub proof fn law_announced_length_is_that_of_the_body(
    status: Seq<char>,
    content_type: Seq<char>,
    body_len: nat,
)
    requires
        http::printable(status),
        http::printable(content_type),
        body_len <= usize::MAX,
    ensures
        http::announced_len(
            http::header_fields(
                text::split_on(
                    response_head(status, content_type, body_len),
                    http::crlf(),
                ).drop_first(),
            ),
        ) == body_len,
{
    reveal_strlit("HTTP/1.1 ");
    reveal_strlit("\r\nContent-Type: ");
    reveal_strlit("\r\nContent-Length: ");
    reveal_strlit("\r\nCache-Control: no-store\r\nConnection: close\r\n\r\n");
    reveal_strlit("Content-Type: ");
    reveal_strlit("Content-Length");
    reveal_strlit("content-length");
    reveal_strlit("Cache-Control");
    reveal_strlit("no-store");
    reveal_strlit("Connection");
    reveal_strlit("close");
    let crlf = http::crlf();
    let sep = seq![':', ' '];
    let digits = number::decimal(body_len);
    number::lemma_decimal_digits(body_len);
    number::law_decimal_reads_back(body_len);
    assert(number::is_digit(digits[0]) && number::is_digit(digits.last()));
    let l0 = "HTTP/1.1 "@ + status;
    let l1 = "Content-Type: "@ + content_type;
    let l2 = "Content-Length"@ + sep + digits;
    let l3 = "Cache-Control"@ + sep + "no-store"@;
    let l4 = "Connection"@ + sep + "close"@;
    let e = Seq::<char>::empty();
    let r5 = e + crlf + e;
    let r4 = l4 + crlf + r5;
    let r3 = l3 + crlf + r4;
    let r2 = l2 + crlf + r3;
    let r1 = l1 + crlf + r2;
    let head = l0 + crlf + r1;
    assert("\r\nContent-Type: "@ =~= crlf + "Content-Type: "@);
    assert("\r\nContent-Length: "@ =~= crlf + "Content-Length"@ + sep);
    assert("\r\nCache-Control: no-store\r\nConnection: close\r\n\r\n"@ =~= crlf + l3 + crlf + l4
        + crlf + crlf);
    assert(response_head(status, content_type, body_len) =~= head);
    assert(!l2.contains('\r')) by {
        assert forall|i: int| 0 <= i < l2.len() implies l2[i] != '\r' by {
            if i >= 16 {
                assert(number::is_digit(digits[i - 16]));
            }
        }
    }
    assert(!l0.contains('\r') && !l1.contains('\r') && !l3.contains('\r') && !l4.contains('\r'));
    http::lemma_split_line(l0, r1);
    http::lemma_split_line(l1, r2);
    http::lemma_split_line(l2, r3);
    http::lemma_split_line(l3, r4);
    http::lemma_split_line(l4, r5);
    http::lemma_split_line(e, e);
    text::lemma_find_from(e, crlf, 0);
    let lines = text::split_on(head, crlf);
    assert(lines =~= seq![l0, l1, l2, l3, l4, e, e]);
    let fields = lines.drop_first();
    assert(fields =~= seq![l1, l2, l3, l4, e, e]);
    http::lemma_header_field("Content-Length"@, digits);
    http::lemma_header_field("Cache-Control"@, "no-store"@);
    http::lemma_header_field("Connection"@, "close"@);
    text::lemma_find_from(e, seq![':'], 0);
    assert(text::lower("Content-Length"@) =~= "content-length"@);
    assert(text::lower("Cache-Control"@).len() == 13);
    assert(text::lower("Connection"@).len() == 10);
    let f5 = fields.drop_last();
    let f4 = f5.drop_last();
    let f3 = f4.drop_last();
    let f2 = f3.drop_last();
    assert(fields.last() == e && f5.last() == e && f4.last() == l4 && f3.last() == l3 && f2.last()
        == l2);
    assert(http::header_fields(f2)["content-length"@] == digits);
    assert(http::header_fields(f3)["content-length"@] == digits);
    assert(http::header_fields(f4)["content-length"@] == digits);
    assert(http::header_fields(f5)["content-length"@] == digits);
}

/// A response is a status line, four header lines and an empty line, and then
/// its body.
pub proof fn law_response_has_these_lines(
    status: Seq<char>,
    content_type: Seq<char>,
    body: Seq<u8>,
)
    requires
        http::printable(status),
        http::printable(content_type),
    ensures
        text::split_on(response_head(status, content_type, body.len()), seq!['\r', '\n']) == seq![
            "HTTP/1.1 "@ + status,
            "Content-Type: "@ + content_type,
            "Content-Length: "@ + number::decimal(body.len()),
            "Cache-Control: no-store"@,
            "Connection: close"@,
            Seq::<char>::empty(),
            Seq::<char>::empty(),
        ],
        response(status, content_type, body) == encode_utf8(
            response_head(status, content_type, body.len()),
        ) + body,
{
    reveal_strlit("HTTP/1.1 ");
    reveal_strlit("\r\nContent-Type: ");
    reveal_strlit("\r\nContent-Length: ");
    reveal_strlit("\r\nCache-Control: no-store\r\nConnection: close\r\n\r\n");
    reveal_strlit("Content-Type: ");
    reveal_strlit("Content-Length: ");
    reveal_strlit("Cache-Control: no-store");
    reveal_strlit("Connection: close");
    let crlf = http::crlf();
    let digits = number::decimal(body.len());
    number::lemma_decimal_digits(body.len());
    let l0 = "HTTP/1.1 "@ + status;
    let l1 = "Content-Type: "@ + content_type;
    let l2 = "Content-Length: "@ + digits;
    let l3 = "Cache-Control: no-store"@;
    let l4 = "Connection: close"@;
    let e = Seq::<char>::empty();
    let r5 = e + crlf + e;
    let r4 = l4 + crlf + r5;
    let r3 = l3 + crlf + r4;
    let r2 = l2 + crlf + r3;
    let r1 = l1 + crlf + r2;
    let head = l0 + crlf + r1;
    assert("\r\nContent-Type: "@ =~= crlf + "Content-Type: "@);
    assert("\r\nContent-Length: "@ =~= crlf + "Content-Length: "@);
    assert("\r\nCache-Control: no-store\r\nConnection: close\r\n\r\n"@ =~= crlf + l3 + crlf + l4
        + crlf + crlf);
    assert(response_head(status, content_type, body.len()) =~= head);
    assert(!l2.contains('\r')) by {
        assert forall|i: int| 0 <= i < l2.len() implies l2[i] != '\r' by {
            if i >= 16 {
                assert(number::is_digit(digits[i - 16]));
            }
        }
    }
    assert(!l0.contains('\r') && !l1.contains('\r') && !l3.contains('\r') && !l4.contains('\r'));
    http::lemma_split_line(l0, r1);
    http::lemma_split_line(l1, r2);
    http::lemma_split_line(l2, r3);
    http::lemma_split_line(l3, r4);
    http::lemma_split_line(l4, r5);
    http::lemma_split_line(e, e);
    text::lemma_find_from(e, crlf, 0);
    assert(seq!['\r', '\n'] =~= crlf);
    assert(text::split_on(head, crlf) =~= seq![l0, l1, l2, l3, l4, e, e]);
}

/// A JSON response carries the bytes of its value, as JSON; and where they cannot
/// be written, there is none.
pub proof fn law_json_response_carries_its_value(status: Seq<char>, value: Json, body: Seq<u8>)
    ensures
        json::json_bytes(value) == Ok::<Seq<u8>, Seq<char>>(body) ==> json_response(status, value)
            == Ok::<Seq<u8>, Seq<char>>(response(status, "application/json"@, body)),
        json::json_bytes(value) matches Err(e) ==> json_response(status, value) == Err::<
            Seq<u8>,
            Seq<char>,
        >(e),
{
}

} // verus!
