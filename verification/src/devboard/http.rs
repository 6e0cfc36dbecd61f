//! A tiny HTTP client for the devboard: it frames the board's messages as POST
//! requests and takes the body out of the server's answer.
use vstd::prelude::*;

use std::str::FromStr;
use vstd::string::StringSliceAdditionalSpecFns;
use vstd::utf8::{encode_utf8_valid_utf8, is_char_boundary, is_char_boundary_iff_is_leading_byte, length_of_first_scalar, valid_utf8};

use crate::devboard::BUFFER_SIZE;

verus! {

#[verifier::external_type_specification]
#[verifier::external_body]
pub struct ExBoundedString<const N: usize>(heapless::String<N>);

/// The bytes that a response string holds.
pub uninterp spec fn payload_text(s: heapless::String<BUFFER_SIZE>) -> Seq<u8>;

/// Calls `heapless::String::<N>::from_str` (its `FromStr` impl), which copies
/// the bytes of `s` when they fit in the capacity and fails otherwise.
#[verifier::external_body]
fn bounded_string_from_str(s: &str) -> (r: Result<heapless::String<BUFFER_SIZE>, ()>)
    ensures
        r is Ok <==> s.spec_bytes().len() <= BUFFER_SIZE,
        r matches Ok(text) ==> payload_text(text) == s.spec_bytes(),
{
    heapless::String::<BUFFER_SIZE>::from_str(s)
}

/// Calls `heapless::String::<N>::new`, which makes an empty string.
#[verifier::external_body]
fn empty_bounded_string() -> (text: heapless::String<BUFFER_SIZE>)
    ensures
        payload_text(text) == Seq::<u8>::empty(),
{
    heapless::String::<BUFFER_SIZE>::new()
}

/// `pat` occurs in `hay` at position `i`.
pub open spec fn occurs_at(hay: Seq<u8>, pat: Seq<u8>, i: int) -> bool {
    &&& 0 <= i
    &&& i + pat.len() <= hay.len()
    &&& hay.subrange(i, i + pat.len()) == pat
}

/// The first position at which `pat` occurs in `hay`, if any.
#[verifier::opaque]
pub open spec fn first_occurrence(hay: Seq<u8>, pat: Seq<u8>) -> Option<int> {
    if exists|i: int| occurs_at(hay, pat, i) {
        Some(choose|i: int| occurs_at(hay, pat, i) && forall|j: int| 0 <= j < i ==> !occurs_at(hay, pat, j))
    } else {
        None
    }
}

/// The blank line that ends the head of an HTTP message.
pub open spec fn head_end() -> Seq<u8> {
    seq![13u8, 10u8, 13u8, 10u8]
}

/// The byte that ends the data received so far (the buffer is zeroed before a read).
pub open spec fn data_end() -> Seq<u8> {
    seq![0u8]
}

/// Where the body of a response lies: from after the first blank line to the
/// first zero byte, when the response has both.
pub open spec fn payload_bounds(response: Seq<u8>) -> Option<(int, int)> {
    match (first_occurrence(response, head_end()), first_occurrence(response, data_end())) {
        (Some(head), Some(end)) => Some((head + 4, end)),
        _ => None,
    }
}

/// Whether the body of a response can be taken out: it does not end before it
/// starts, and it fits in a response string.
pub open spec fn payload_fits(response: Seq<u8>) -> bool {
    match payload_bounds(response) {
        Some((start, end)) => start <= end && end - start <= BUFFER_SIZE,
        None => true,
    }
}

/// In valid UTF-8, the position of an ASCII byte is a character boundary.
proof fn lemma_ascii_is_boundary(bytes: Seq<u8>, i: int)
    requires
        valid_utf8(bytes),
        0 <= i < bytes.len(),
        bytes[i] < 0x80,
    ensures
        is_char_boundary(bytes, i),
{
    is_char_boundary_iff_is_leading_byte(bytes, i);
}

/// In valid UTF-8 that starts with an ASCII byte, the next position is a
/// character boundary.
proof fn lemma_after_first_ascii_is_boundary(bytes: Seq<u8>)
    requires
        valid_utf8(bytes),
        bytes.len() >= 1,
        bytes[0] < 0x80,
    ensures
        is_char_boundary(bytes, 1),
{
    reveal_with_fuel(is_char_boundary, 2);
    assert(length_of_first_scalar(bytes) == 1);
}

/// The first position of `pat` in `hay`.
fn find_bytes(hay: &[u8], pat: &[u8]) -> (found: Option<usize>)
    requires
        pat@.len() > 0,
    ensures
        match found {
            Some(i) => first_occurrence(hay@, pat@) == Some(i as int) && occurs_at(hay@, pat@, i as int),
            None => first_occurrence(hay@, pat@) is None,
        },
{
    let n = hay.len();
    let m = pat.len();
    proof {
        reveal(first_occurrence);
    }
    if m > n {
        assert(forall|i: int| !occurs_at(hay@, pat@, i));
        return None;
    }
    let mut i: usize = 0;
    while i <= n - m
        invariant
            n == hay@.len(),
            m == pat@.len(),
            0 < m <= n,
            i <= n - m + 1,
            forall|j: int| 0 <= j < i ==> !occurs_at(hay@, pat@, j),
        decreases n - i,
    {
        let mut k: usize = 0;
        let mut same = true;
        while k < m
            invariant
                n == hay@.len(),
                m == pat@.len(),
                i + m <= n,
                k <= m,
                same <==> forall|l: int| 0 <= l < k ==> hay@[i + l] == pat@[l],
            decreases m - k,
        {
            if hay[i + k] != pat[k] {
                same = false;
            }
            k = k + 1;
        }
        if same {
            proof {
                reveal(first_occurrence);
            }
            assert(hay@.subrange(i as int, i + m) =~= pat@);
            assert(occurs_at(hay@, pat@, i as int));
            let ghost c = choose|c: int| occurs_at(hay@, pat@, c) && forall|j: int| 0 <= j < c ==> !occurs_at(hay@, pat@, j);
            assert(c == i) by {
                if c > i {
                    assert(!occurs_at(hay@, pat@, i as int));
                }
            }
            return Some(i);
        }
        assert(!occurs_at(hay@, pat@, i as int)) by {
            let l = choose|l: int| 0 <= l < m && hay@[i + l] != pat@[l];
            assert(hay@.subrange(i as int, i + m)[l] == hay@[i + l]);
        }
        i = i + 1;
    }
    assert(forall|j: int| !occurs_at(hay@, pat@, j));
    None
}

/// The text of `response` from just after position `head + 3` (a line feed)
/// up to position `end` (a zero byte).
fn text_between<'a>(response: &'a str, head: usize, end: usize) -> (body: &'a str)
    requires
        head + 4 <= end < response.spec_bytes().len(),
        response.spec_bytes()[head + 3] == 10u8,
        response.spec_bytes()[end as int] == 0u8,
    ensures
        body.spec_bytes() == response.spec_bytes().subrange(head + 4, end as int),
{
    let ghost all = response.spec_bytes();
    proof {
        encode_utf8_valid_utf8(response@);
        lemma_ascii_is_boundary(all, head + 3);
    }
    let (_, rest) = response.split_at(head + 3);
    let ghost rest_bytes = rest.spec_bytes();
    assert(rest_bytes[0] == all[head + 3]);
    proof {
        encode_utf8_valid_utf8(rest@);
        lemma_after_first_ascii_is_boundary(rest_bytes);
    }
    let (_, tail) = rest.split_at(1);
    let ghost tail_bytes = tail.spec_bytes();
    assert(tail_bytes =~= all.subrange(head + 4, all.len() as int));
    let cut = end - head - 4;
    assert(tail_bytes[cut as int] == all[end as int]);
    proof {
        encode_utf8_valid_utf8(tail@);
        lemma_ascii_is_boundary(tail_bytes, cut as int);
    }
    let (body, _) = tail.split_at(cut);
    assert(body.spec_bytes() =~= all.subrange(head + 4, end as int));
    body
}

/// Takes the body out of an HTTP response: the text after the first blank line,
/// up to the first zero byte.
pub fn extract_payload(response: &str) -> (payload: Option<heapless::String<BUFFER_SIZE>>)
    requires
        payload_fits(response.spec_bytes()),
    ensures
        match payload_bounds(response.spec_bytes()) {
            Some((start, end)) => payload matches Some(text) && payload_text(text)
                == response.spec_bytes().subrange(start, end),
            None => payload is None,
        },
{
    let bytes = response.as_bytes();
    let head_pattern: [u8; 4] = [13, 10, 13, 10];
    let end_pattern: [u8; 1] = [0];
    assert(head_pattern@ =~= head_end());
    assert(end_pattern@ =~= data_end());
    let head = find_bytes(bytes, &head_pattern);
    let end = find_bytes(bytes, &end_pattern);
    match (head, end) {
        (Some(h), Some(e)) => {
            let ghost all = response.spec_bytes();
            assert(occurs_at(all, head_end(), h as int));
            assert(occurs_at(all, data_end(), e as int));
            assert(all[h + 3] == all.subrange(h as int, h + 4)[3]);
            assert(all[e as int] == all.subrange(e as int, e + 1)[0]);
            let body = text_between(response, h, e);
            match bounded_string_from_str(body) {
                Ok(text) => Some(text),
                Err(_) => None,
            }
        },
        _ => None,
    }
}

/// The character of a decimal digit.
pub open spec fn digit_char(d: nat) -> char {
    if d == 0 {
        '0'
    } else if d == 1 {
        '1'
    } else if d == 2 {
        '2'
    } else if d == 3 {
        '3'
    } else if d == 4 {
        '4'
    } else if d == 5 {
        '5'
    } else if d == 6 {
        '6'
    } else if d == 7 {
        '7'
    } else if d == 8 {
        '8'
    } else {
        '9'
    }
}

/// The decimal notation of `n`, without leading zeros.
pub open spec fn decimal(n: nat) -> Seq<char>
    decreases n,
{
    if n < 10 {
        seq![digit_char(n)]
    } else {
        decimal(n / 10) + seq![digit_char(n % 10)]
    }
}

/// The value of a decimal digit character (its distance from `'0'`).
pub open spec fn digit_value(c: char) -> int {
    (c as int) - ('0' as int)
}

/// The number that a string of decimal digits reads as, most significant first.
pub open spec fn numeral_value(digits: Seq<char>) -> int
    decreases digits.len(),
{
    if digits.len() == 0 {
        0
    } else {
        numeral_value(digits.drop_last()) * 10 + digit_value(digits.last())
    }
}

/// Each digit character has its digit's value.
proof fn lemma_digit_char_value(d: nat)
    requires
        d < 10,
    ensures
        digit_value(digit_char(d)) == d,
        '0' <= digit_char(d) <= '9',
{
}

/// The decimal notation of `n` reads back as `n`: it is made of the digits
/// '0' to '9', it is not empty, and it starts with '0' only when `n` is zero.
pub proof fn lemma_decimal_reads_back(n: nat)
    ensures
        numeral_value(decimal(n)) == n,
        decimal(n).len() > 0,
        forall|i: int| 0 <= i < decimal(n).len() ==> '0' <= #[trigger] decimal(n)[i] <= '9',
        n > 0 ==> decimal(n)[0] != '0',
    decreases n,
{
    lemma_digit_char_value(n % 10);
    if n >= 10 {
        lemma_decimal_reads_back(n / 10);
        let d = decimal(n);
        assert(d.drop_last() =~= decimal(n / 10));
        assert(d.last() == digit_char(n % 10));
        assert(numeral_value(d) == numeral_value(decimal(n / 10)) * 10 + digit_value(digit_char(n % 10)));
        assert((n / 10) * 10 + n % 10 == n);
        assert(d[0] == decimal(n / 10)[0]);
        assert forall|i: int| 0 <= i < d.len() implies '0' <= #[trigger] d[i] <= '9' by {
            if i < d.len() - 1 {
                assert(d[i] == decimal(n / 10)[i]);
            }
        }
    } else {
        assert(decimal(n).drop_last() =~= Seq::<char>::empty());
        assert(n % 10 == n);
        assert(numeral_value(decimal(n)) == numeral_value(Seq::<char>::empty()) * 10 + digit_value(digit_char(n)));
    }
}

/// The request line and headers of a message to the server, up to the value
/// of the content length.
pub open spec fn request_head() -> Seq<char> {
    "POST /devboard HTTP/1.1\r\nContent-Type: application/json\r\nContent-Length: "@
}

/// The POST request that carries `payload`, whose length in bytes is `len`.
pub open spec fn request_text(payload: Seq<char>, len: nat) -> Seq<char> {
    request_head() + decimal(len) + "\r\n\r\n"@ + payload
}

/// The text of one decimal digit.
fn digit_text(d: usize) -> (text: &'static str)
    requires
        d < 10,
    ensures
        text@ == seq![digit_char(d as nat)],
{
    proof {
        reveal_strlit("0");
        reveal_strlit("1");
        reveal_strlit("2");
        reveal_strlit("3");
        reveal_strlit("4");
        reveal_strlit("5");
        reveal_strlit("6");
        reveal_strlit("7");
        reveal_strlit("8");
        reveal_strlit("9");
    }
    if d == 0 {
        "0"
    } else if d == 1 {
        "1"
    } else if d == 2 {
        "2"
    } else if d == 3 {
        "3"
    } else if d == 4 {
        "4"
    } else if d == 5 {
        "5"
    } else if d == 6 {
        "6"
    } else if d == 7 {
        "7"
    } else if d == 8 {
        "8"
    } else {
        "9"
    }
}

/// Appends the decimal notation of `n` to `text`.
fn push_decimal(text: &mut String, n: usize)
    ensures
        final(text)@ == old(text)@ + decimal(n as nat),
    decreases n,
{
    if n >= 10 {
        push_decimal(text, n / 10);
    }
    text.append(digit_text(n % 10));
    assert(final(text)@ =~= old(text)@ + decimal(n as nat));
}

/// Frames `payload` as the POST request that the devboard sends to the game
/// server. The request has to fit in the devboard's buffer.
pub fn devboard_request(payload: &str) -> (request: String)
    requires
        vstd::utf8::encode_utf8(request_text(payload@, payload.spec_bytes().len())).len() <= BUFFER_SIZE,
    ensures
        request@ == request_text(payload@, payload.spec_bytes().len()),
        exists|digits: Seq<char>| {
            &&& request@ == request_head() + digits + "\r\n\r\n"@ + payload@
            &&& numeral_value(digits) == payload.spec_bytes().len()
            &&& digits.len() > 0
            &&& (forall|i: int| 0 <= i < digits.len() ==> '0' <= #[trigger] digits[i] <= '9')
            &&& (digits.len() > 1 ==> digits[0] != '0')
        },
{
    let mut request = String::new();
    let length = payload.as_bytes().len();
    request.append("POST /devboard HTTP/1.1\r\nContent-Type: application/json\r\nContent-Length: ");
    assert(request@ =~= request_head());
    push_decimal(&mut request, length);
    assert(request@ =~= request_head() + decimal(length as nat));
    request.append("\r\n\r\n");
    assert(request@ =~= request_head() + decimal(length as nat) + "\r\n\r\n"@);
    request.append(payload);
    assert(length as nat == payload.spec_bytes().len());
    assert(request@ =~= request_text(payload@, payload.spec_bytes().len()));
    proof {
        lemma_decimal_reads_back(length as nat);
        let digits = decimal(length as nat);
        assert(digits.len() > 1 ==> length > 0);
        assert(request@ == request_head() + digits + "\r\n\r\n"@ + payload@);
    }
    request
}

/// Number of empty reads after which the devboard gives up on a response.
pub const MAX_READ_RETRIES: usize = 100;

/// What to do after a read of the response.
pub enum ReadStep {
    /// Read again, into the buffer from `ResponseReader::position` on.
    ReadMore,
    /// Stop reading; the body of the response, or an empty text when there is none.
    Done(heapless::String<BUFFER_SIZE>),
}

/// The progress of reading a response into the devboard's buffer.
pub struct ResponseReader {
    cursor: usize,
    retries: usize,
}

impl ResponseReader {
    /// Where the next read goes in the response buffer.
    pub closed spec fn cursor_at(&self) -> usize {
        self.cursor
    }

    /// The number of empty reads so far.
    pub closed spec fn empty_reads(&self) -> usize {
        self.retries
    }

    /// Nothing read yet.
    pub fn new() -> (reader: Self)
        ensures
            reader.cursor_at() == 0,
            reader.empty_reads() == 0,
    {
        ResponseReader { cursor: 0, retries: 0 }
    }

    /// Where the next read goes in the response buffer.
    pub fn position(&self) -> (position: usize)
        ensures
            position == self.cursor_at(),
    {
        self.cursor
    }

    /// Decides what follows a read into the buffer from `position()` on:
    /// `read` is the number of bytes read, or `None` when the read failed, and
    /// `response` is the whole buffer after the read. Reading goes on until a
    /// read returns no bytes; then the body in the buffer is the answer. A
    /// failed read, or a read after `MAX_READ_RETRIES` empty reads without a
    /// body, ends with an empty text; an empty read without a body is counted
    /// and tried again.
    pub fn after_read(&mut self, read: Option<usize>, response: &str) -> (step: ReadStep)
        requires
            read matches Some(n) ==> old(self).cursor_at() + n <= BUFFER_SIZE,
            (read == Some(0usize) && old(self).empty_reads() < MAX_READ_RETRIES)
                ==> payload_fits(response.spec_bytes()),
        ensures
            match read {
                Some(n) if old(self).empty_reads() < MAX_READ_RETRIES => if n > 0 {
                    &&& step is ReadMore
                    &&& final(self).cursor_at() == old(self).cursor_at() + n
                    &&& final(self).empty_reads() == old(self).empty_reads()
                } else {
                    &&& final(self).cursor_at() == old(self).cursor_at()
                    &&& match payload_bounds(response.spec_bytes()) {
                        Some((start, end)) => {
                            &&& step matches ReadStep::Done(text)
                                && payload_text(text) == response.spec_bytes().subrange(start, end)
                            &&& final(self).empty_reads() == old(self).empty_reads()
                        },
                        None => {
                            &&& step is ReadMore
                            &&& final(self).empty_reads() == old(self).empty_reads() + 1
                        },
                    }
                },
                _ => {
                    &&& step matches ReadStep::Done(text) && payload_text(text) == Seq::<u8>::empty()
                    &&& final(self).cursor_at() == old(self).cursor_at()
                    &&& final(self).empty_reads() == old(self).empty_reads()
                },
            },
    {
        match read {
            None => ReadStep::Done(empty_bounded_string()),
            Some(n) => {
                if self.retries >= MAX_READ_RETRIES {
                    return ReadStep::Done(empty_bounded_string());
                }
                if n > 0 {
                    self.cursor = self.cursor + n;
                    return ReadStep::ReadMore;
                }
                match extract_payload(response) {
                    Some(text) => ReadStep::Done(text),
                    None => {
                        self.retries = self.retries + 1;
                        ReadStep::ReadMore
                    },
                }
            },
        }
    }
}

} // verus!
