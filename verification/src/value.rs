//! Decoding of string values: decompression, and the text and hex views.
//!
//! Compressed values are recognised by their magic bytes. Symfony wraps cache
//! items in a binary header and a serialized tag envelope with the value
//! compressed inside, so a stream may also begin further in.

use crate::text::{chars_of, from_utf8_lossy, lossy, string_of};
use vstd::prelude::*;

verus! {

/// How a string value was compressed.
#[derive(Debug, Clone, Copy, PartialEq, Eq, Structural)]
pub enum Encoding {
    Plain,
    Gzip,
    Zlib,
    Zstd,
}

/// The name of an encoding.
pub open spec fn encoding_name(e: Encoding) -> Seq<char> {
    match e {
        Encoding::Plain => "plain"@,
        Encoding::Gzip => "gzip"@,
        Encoding::Zlib => "zlib/deflate"@,
        Encoding::Zstd => "zstd"@,
    }
}

impl Encoding {
    /// The name of the encoding.
    pub fn label(&self) -> (r: &'static str)
        ensures
            r@ == encoding_name(*self),
    {
        match self {
            Encoding::Plain => "plain",
            Encoding::Gzip => "gzip",
            Encoding::Zlib => "zlib/deflate",
            Encoding::Zstd => "zstd",
        }
    }
}

/// A decoded string value.
#[derive(Debug)]
pub struct Decoded {
    pub encoding: Encoding,
    /// Where the compressed stream begins, if there is one.
    pub stream_offset: Option<usize>,
    pub is_binary: bool,
    pub text: String,
    pub hex: String,
}

// ---------------------------------------------------------------------------
// Streams
// ---------------------------------------------------------------------------

/// What `flate2` reads from a gzip stream at the front of `bytes`, if it is one.
pub uninterp spec fn gunzipped(bytes: Seq<u8>) -> Option<Seq<u8>>;

/// What `flate2` reads from a zlib stream at the front of `bytes`, if it is one.
pub uninterp spec fn inflated(bytes: Seq<u8>) -> Option<Seq<u8>>;

/// What `zstd` reads from a frame at the front of `bytes`, if it is one.
pub uninterp spec fn unzstd(bytes: Seq<u8>) -> Option<Seq<u8>>;

/// The contents of optional bytes.
pub open spec fn contents(v: Option<Vec<u8>>) -> Option<Seq<u8>> {
    match v {
        Some(b) => Some(b@),
        None => None,
    }
}

/// `flate2::bufread::GzDecoder` over `bytes[from..]`, read to its end: the data
/// depend on those bytes alone. What follows the stream is left unread.
#[verifier::external_body]
fn read_gzip(bytes: &Vec<u8>, from: usize) -> (r: Option<Vec<u8>>)
    requires
        from <= bytes@.len(),
    ensures
        contents(r) == gunzipped(bytes@.skip(from as int)),
{
    let mut out: Vec<u8> = Vec::new();
    let mut d = flate2::bufread::GzDecoder::new(&bytes[from..]);
    std::io::Read::read_to_end(&mut d, &mut out).ok()?;
    Some(out)
}

/// `flate2::bufread::ZlibDecoder` over `bytes[from..]`, read to its end: the
/// data depend on those bytes alone. What follows the stream is left unread.
#[verifier::external_body]
fn read_zlib(bytes: &Vec<u8>, from: usize) -> (r: Option<Vec<u8>>)
    requires
        from <= bytes@.len(),
    ensures
        contents(r) == inflated(bytes@.skip(from as int)),
{
    let mut out: Vec<u8> = Vec::new();
    let mut d = flate2::bufread::ZlibDecoder::new(&bytes[from..]);
    std::io::Read::read_to_end(&mut d, &mut out).ok()?;
    Some(out)
}

/// `zstd::stream::read::Decoder` over one frame at the front of `bytes[from..]`:
/// the data depend on those bytes alone. What follows the frame is left unread.
#[verifier::external_body]
fn read_zstd(bytes: &Vec<u8>, from: usize) -> (r: Option<Vec<u8>>)
    requires
        from <= bytes@.len(),
    ensures
        contents(r) == unzstd(bytes@.skip(from as int)),
{
    let mut out: Vec<u8> = Vec::new();
    let mut d = zstd::stream::read::Decoder::with_buffer(&bytes[from..]).ok()?.single_frame();
    std::io::Read::read_to_end(&mut d, &mut out).ok()?;
    Some(out)
}

/// `b` has the byte `x` at `i`.
pub open spec fn byte_at(b: Seq<u8>, i: int, x: u8) -> bool {
    0 <= i < b.len() && b[i] == x
}

/// The encoding whose magic bytes stand at `i`.
pub open spec fn magic_at(b: Seq<u8>, i: int) -> Encoding {
    if byte_at(b, i, 0x1f) && byte_at(b, i + 1, 0x8b) {
        Encoding::Gzip
    } else if byte_at(b, i, 0x78) && (byte_at(b, i + 1, 0x01) || byte_at(b, i + 1, 0x5e) || byte_at(
        b,
        i + 1,
        0x9c,
    ) || byte_at(b, i + 1, 0xda)) {
        Encoding::Zlib
    } else if byte_at(b, i, 0x28) && byte_at(b, i + 1, 0xb5) && byte_at(b, i + 2, 0x2f) && byte_at(
        b,
        i + 3,
        0xfd,
    ) {
        Encoding::Zstd
    } else {
        Encoding::Plain
    }
}

/// What the stream at `i` holds, if one with some content begins there.
pub open spec fn stream_at(b: Seq<u8>, i: int) -> Option<Seq<u8>> {
    let data = match magic_at(b, i) {
        Encoding::Plain => None,
        Encoding::Gzip => gunzipped(b.skip(i)),
        Encoding::Zlib => inflated(b.skip(i)),
        Encoding::Zstd => unzstd(b.skip(i)),
    };
    if data is Some && data->0.len() > 0 {
        data
    } else {
        None
    }
}

/// The first position at or after `i` where a stream begins.
pub open spec fn first_stream(b: Seq<u8>, i: nat) -> Option<nat>
    decreases b.len() - i,
{
    if i >= b.len() {
        None
    } else if stream_at(b, i as int) is Some {
        Some(i)
    } else {
        first_stream(b, i + 1)
    }
}

/// The encoding whose magic bytes stand at `i`.
fn magic(b: &Vec<u8>, i: usize) -> (r: Encoding)
    requires
        i < b@.len(),
    ensures
        r == magic_at(b@, i as int),
{
    let left: usize = b.len() - i;
    if left < 2 {
        return Encoding::Plain;
    }
    if b[i] == 0x1f && b[i + 1] == 0x8b {
        Encoding::Gzip
    } else if b[i] == 0x78 && (b[i + 1] == 0x01 || b[i + 1] == 0x5e || b[i + 1] == 0x9c || b[i + 1]
        == 0xda) {
        Encoding::Zlib
    } else if b[i] == 0x28 && left >= 4 && b[i + 1] == 0xb5 && b[i + 2] == 0x2f && b[i + 3]
        == 0xfd {
        Encoding::Zstd
    } else {
        Encoding::Plain
    }
}

/// What the stream at `i` holds, if one with some content begins there.
fn read_stream(b: &Vec<u8>, i: usize) -> (r: Option<Vec<u8>>)
    requires
        i < b@.len(),
    ensures
        contents(r) == stream_at(b@, i as int),
{
    let data = match magic(b, i) {
        Encoding::Plain => None,
        Encoding::Gzip => read_gzip(b, i),
        Encoding::Zlib => read_zlib(b, i),
        Encoding::Zstd => read_zstd(b, i),
    };
    match data {
        Some(d) => if d.len() > 0 {
            Some(d)
        } else {
            None
        },
        None => None,
    }
}

// ---------------------------------------------------------------------------
// Views
// ---------------------------------------------------------------------------

/// `c` does not occur in readable text: a replacement character, or a control
/// character other than tab and line breaks.
pub open spec fn is_unreadable(c: char) -> bool {
    let n = c as u32;
    n == 0xFFFD || n == 0x7F || (n < 0x20 && n != 9 && n != 10 && n != 13)
}

/// `s` holds something that readable text does not.
pub open spec fn looks_binary(s: Seq<char>) -> bool {
    exists|i: int| 0 <= i < s.len() && is_unreadable(#[trigger] s[i])
}

/// At most `cap` characters of `s`, with a note if that cuts it.
pub open spec fn clipped(s: Seq<char>, cap: nat) -> Seq<char> {
    if s.len() > cap {
        s.take(cap as int) + "\n… (truncated)"@
    } else {
        s
    }
}

/// The hexadecimal digit of `n`, for `n` below sixteen.
pub open spec fn hex_digit(n: int) -> char {
    if n < 10 {
        (48 + n) as char
    } else {
        (87 + n) as char
    }
}

/// `n` in hexadecimal with `width` digits, the lowest ones.
pub open spec fn hex_of(n: nat, width: nat) -> Seq<char>
    decreases width,
{
    if width == 0 {
        Seq::empty()
    } else {
        hex_of(n / 16, (width - 1) as nat).push(hex_digit((n % 16) as int))
    }
}

/// The hex column of `b[from..to]`.
pub open spec fn hex_bytes(b: Seq<u8>, from: int, to: int) -> Seq<char>
    decreases to - from,
{
    if to <= from {
        Seq::empty()
    } else {
        hex_bytes(b, from, to - 1) + hex_of(b[to - 1] as nat, 2) + " "@
    }
}

/// A byte in the ASCII column: printable ones as they are, others as a dot.
pub open spec fn ascii_of(x: u8) -> char {
    if 0x20 <= x <= 0x7e {
        x as char
    } else {
        '.'
    }
}

/// The ASCII column of `b[from..to]`.
pub open spec fn ascii_bytes(b: Seq<u8>, from: int, to: int) -> Seq<char> {
    Seq::new((to - from) as nat, |i: int| ascii_of(b[from + i]))
}

/// Where the line that begins at `from` ends.
pub open spec fn line_end(from: int, len: int) -> int {
    if from + 16 < len {
        from + 16
    } else {
        len
    }
}

/// The lines of a hex dump from `from` on: the offset, sixteen bytes in hex,
/// and the same bytes in ASCII.
pub open spec fn hex_lines(b: Seq<u8>, from: int) -> Seq<char>
    decreases b.len() - from,
{
    if from < 0 || from >= b.len() {
        Seq::empty()
    } else {
        let to = line_end(from, b.len() as int);
        hex_of(from as nat, 8) + "  "@ + hex_bytes(b, from, to) + crate::text::blanks(
            ((16 - (to - from)) * 3) as nat,
        ) + "  "@ + ascii_bytes(b, from, to) + "\n"@ + hex_lines(b, to)
    }
}

fn nibble(n: u8) -> (r: char)
    requires
        n < 16,
    ensures
        r == hex_digit(n as int),
{
    if n < 10 {
        (48u8 + n) as char
    } else {
        (87u8 + n) as char
    }
}

/// `n` in hexadecimal with `width` digits.
pub(crate) fn hex_text(n: u64, width: usize) -> (r: String)
    ensures
        r@ == hex_of(n as nat, width as nat),
    decreases width,
{
    if width == 0 {
        String::new()
    } else {
        let mut r = hex_text(n / 16, width - 1);
        r.push(nibble((n % 16) as u8));
        r
    }
}

/// One line of a hex dump.
fn hex_line(b: &Vec<u8>, from: usize, to: usize) -> (r: String)
    requires
        from < to <= b@.len(),
        to - from <= 16,
    ensures
        r@ == hex_of(from as nat, 8) + "  "@ + hex_bytes(b@, from as int, to as int)
            + crate::text::blanks(((16 - (to - from)) * 3) as nat) + "  "@ + ascii_bytes(
            b@,
            from as int,
            to as int,
        ) + "\n"@,
{
    let mut r = hex_text(from as u64, 8);
    r.append("  ");
    let mut hex = String::new();
    let mut ascii = String::new();
    let mut i: usize = from;
    while i < to
        invariant
            from <= i <= to <= b@.len(),
            hex@ == hex_bytes(b@, from as int, i as int),
            ascii@ == ascii_bytes(b@, from as int, i as int),
        decreases to - i,
    {
        hex.append(hex_text(b[i] as u64, 2).as_str());
        hex.append(" ");
        let x: u8 = b[i];
        ascii.push(
            if 0x20 <= x && x <= 0x7e {
                x as char
            } else {
                '.'
            },
        );
        i = i + 1;
        assert(ascii@ =~= ascii_bytes(b@, from as int, i as int));
    }
    r.append(hex.as_str());
    r.append(crate::text::spaces((16 - (to - from)) * 3).as_str());
    r.append("  ");
    r.append(ascii.as_str());
    r.append("\n");
    r
}

/// A hex dump: the offset, sixteen bytes in hex, and the same bytes in ASCII.
pub fn hex_dump(b: &Vec<u8>) -> (r: String)
    ensures
        r@ == hex_lines(b@, 0),
{
    let mut r = String::new();
    let mut from: usize = 0;
    assert(r@ + hex_lines(b@, 0) =~= hex_lines(b@, 0));
    while from < b.len()
        invariant
            0 <= from <= b@.len(),
            r@ + hex_lines(b@, from as int) == hex_lines(b@, 0),
        decreases b@.len() - from,
    {
        let to: usize = if b.len() - from > 16 {
            from + 16
        } else {
            b.len()
        };
        let ghost before = r@;
        let line = hex_line(b, from, to);
        r.append(line.as_str());
        assert(before + hex_lines(b@, from as int) =~= r@ + hex_lines(b@, to as int));
        from = to;
    }
    assert(r@ + hex_lines(b@, from as int) =~= r@);
    r
}

/// At most `cap` characters of `s`, with a note if that cuts it.
fn clip(s: &String, cap: usize) -> (r: String)
    ensures
        r@ == clipped(s@, cap as nat),
{
    let v = chars_of(s.as_str());
    if v.len() > cap {
        let mut r = string_of(&v, 0, cap);
        r.append("\n… (truncated)");
        assert(v@.subrange(0, cap as int) =~= s@.take(cap as int));
        r
    } else {
        s.clone()
    }
}

fn is_text(s: &String) -> (r: bool)
    ensures
        r == !looks_binary(s@),
{
    let v = chars_of(s.as_str());
    let mut i: usize = 0;
    while i < v.len()
        invariant
            0 <= i <= v@.len(),
            v@ == s@,
            forall|j: int| 0 <= j < i ==> !is_unreadable(#[trigger] v@[j]),
        decreases v@.len() - i,
    {
        let n: u32 = v[i] as u32;
        if n == 0xFFFD || n == 0x7F || (n < 0x20 && n != 9 && n != 10 && n != 13) {
            assert(is_unreadable(s@[i as int]));
            return false;
        }
        i = i + 1;
    }
    true
}

/// The first `n` bytes.
fn front(b: &Vec<u8>, n: usize) -> (r: Vec<u8>)
    requires
        n <= b@.len(),
    ensures
        r@ == b@.take(n as int),
{
    let mut r: Vec<u8> = Vec::new();
    let mut i: usize = 0;
    while i < n
        invariant
            0 <= i <= n <= b@.len(),
            r@ == b@.take(i as int),
        decreases n - i,
    {
        r.push(b[i]);
        i = i + 1;
        assert(b@.take(i as int) =~= b@.take(i - 1).push(b@[i - 1]));
    }
    r
}

/// The two views of `data`, each up to `cap`.
pub open spec fn views(
    is_binary: bool,
    text: Seq<char>,
    hex: Seq<char>,
    data: Seq<u8>,
    cap: usize,
) -> bool {
    &&& is_binary == looks_binary(lossy(data))
    &&& text == clipped(lossy(data), cap as nat)
    &&& hex == hex_lines(
        if data.len() > cap {
            data.take(cap as int)
        } else {
            data
        },
        0,
    )
}

/// `d` shows `data`: as text and as hex, each up to `cap`.
pub open spec fn shows(d: Decoded, data: Seq<u8>, cap: usize) -> bool {
    views(d.is_binary, d.text@, d.hex@, data, cap)
}

/// What a string value holds: the contents of the first compressed stream in
/// it, or the value itself.
pub open spec fn payload(b: Seq<u8>) -> Seq<u8> {
    match first_stream(b, 0) {
        Some(at) => stream_at(b, at as int)->0,
        None => b,
    }
}

/// Show `data` as text and as hex, each up to `cap`.
pub fn render(
    data: &Vec<u8>,
    cap: usize,
    encoding: Encoding,
    stream_offset: Option<usize>,
) -> (r: Decoded)
    ensures
        shows(r, data@, cap),
        r.encoding == encoding,
        r.stream_offset == stream_offset,
{
    let text = from_utf8_lossy(data);
    let hex = if data.len() > cap {
        hex_dump(&front(data, cap))
    } else {
        hex_dump(data)
    };
    Decoded { encoding, stream_offset, is_binary: !is_text(&text), text: clip(&text, cap), hex }
}

/// Decode a string value: the first compressed stream in it if there is one,
/// else the value itself.
pub fn decode(bytes: &Vec<u8>, cap: usize) -> (r: Decoded)
    ensures
        match first_stream(bytes@, 0) {
            Some(at) => {
                &&& r.stream_offset is Some
                &&& r.stream_offset->0 == at
                &&& r.encoding == magic_at(bytes@, at as int)
                &&& r.encoding != Encoding::Plain
            },
            None => {
                &&& r.stream_offset is None
                &&& r.encoding == Encoding::Plain
            },
        },
        shows(r, payload(bytes@), cap),
        match r.stream_offset {
            Some(p) => {
                &&& p < bytes@.len()
                &&& stream_at(bytes@, p as int) is Some
                &&& forall|j: int| 0 <= j < p ==> #[trigger] stream_at(bytes@, j) is None
                &&& shows(r, stream_at(bytes@, p as int)->0, cap)
            },
            None => {
                &&& forall|j: int|
                    0 <= j < bytes@.len() ==> #[trigger] stream_at(bytes@, j) is None
                &&& shows(r, bytes@, cap)
            },
        },
{
    let mut i: usize = 0;
    while i < bytes.len()
        invariant
            0 <= i <= bytes@.len(),
            first_stream(bytes@, 0) == first_stream(bytes@, i as nat),
        decreases bytes@.len() - i,
    {
        match read_stream(bytes, i) {
            Some(data) => {
                proof {
                    first_stream_is_first(bytes@, 0);
                }
                return render(&data, cap, magic(bytes, i), Some(i));
            },
            None => {},
        }
        i = i + 1;
    }
    proof {
        first_stream_is_first(bytes@, 0);
    }
    render(bytes, cap, Encoding::Plain, None)
}

// ---------------------------------------------------------------------------
// Laws
// ---------------------------------------------------------------------------

/// The search for a stream stops at the first position at which one begins, and
/// finds none only if none begins anywhere.
pub proof fn first_stream_is_first(b: Seq<u8>, i: nat)
    ensures
        match first_stream(b, i) {
            Some(p) => {
                &&& i <= p < b.len()
                &&& stream_at(b, p as int) is Some
                &&& forall|j: int| i <= j < p ==> #[trigger] stream_at(b, j) is None
            },
            None => forall|j: int| i <= j < b.len() ==> #[trigger] stream_at(b, j) is None,
        },
    decreases b.len() - i,
{
    if i < b.len() && stream_at(b, i as int) is None {
        first_stream_is_first(b, i + 1);
    }
}

/// A stream that begins at some position, told by its first bytes, and yields
/// something is found there or before; what is found is what its decoder reads.
pub proof fn streams_are_told_by_their_first_bytes(b: Seq<u8>, i: int)
    requires
        0 <= i,
        i + 1 < b.len(),
    ensures
        b[i] == 0x1f && b[i + 1] == 0x8b ==> magic_at(b, i) == Encoding::Gzip,
        b[i] == 0x78 && (b[i + 1] == 0x01 || b[i + 1] == 0x5e || b[i + 1] == 0x9c || b[i + 1]
            == 0xda) ==> magic_at(b, i) == Encoding::Zlib,
        i + 3 < b.len() && b[i] == 0x28 && b[i + 1] == 0xb5 && b[i + 2] == 0x2f && b[i + 3] == 0xfd
            ==> magic_at(b, i) == Encoding::Zstd,
        magic_at(b, i) == Encoding::Gzip ==> b[i] == 0x1f && b[i + 1] == 0x8b,
        magic_at(b, i) == Encoding::Zlib ==> b[i] == 0x78 && (b[i + 1] == 0x01 || b[i + 1] == 0x5e
            || b[i + 1] == 0x9c || b[i + 1] == 0xda),
        magic_at(b, i) == Encoding::Zstd ==> i + 3 < b.len() && b[i] == 0x28 && b[i + 1] == 0xb5
            && b[i + 2] == 0x2f && b[i + 3] == 0xfd,
        magic_at(b, i) == Encoding::Gzip && gunzipped(b.skip(i)) is Some && gunzipped(
            b.skip(i),
        )->0.len() > 0 ==> stream_at(b, i) == gunzipped(b.skip(i)),
        magic_at(b, i) == Encoding::Zlib && inflated(b.skip(i)) is Some && inflated(
            b.skip(i),
        )->0.len() > 0 ==> stream_at(b, i) == inflated(b.skip(i)),
        magic_at(b, i) == Encoding::Zstd && unzstd(b.skip(i)) is Some && unzstd(
            b.skip(i),
        )->0.len() > 0 ==> stream_at(b, i) == unzstd(b.skip(i)),
        stream_at(b, i) is Some ==> {
            &&& stream_at(b, i)->0.len() > 0
            &&& magic_at(b, i) != Encoding::Plain
            &&& first_stream(b, 0) is Some
            &&& first_stream(b, 0)->0 <= i
        },
{
    first_stream_is_first(b, 0);
}

/// A value is binary exactly if its text has a replacement character or a
/// control character that is no tab and no line break.
pub proof fn binary_means_unreadable(
    is_binary: bool,
    text: Seq<char>,
    hex: Seq<char>,
    data: Seq<u8>,
    cap: usize,
)
    requires
        views(is_binary, text, hex, data, cap),
    ensures
        is_binary <==> exists|i: int|
            0 <= i < lossy(data).len() && ({
                let c = #[trigger] lossy(data)[i] as u32;
                c == 0xfffd || c == 0x7f || c <= 0x08 || c == 0x0b || c == 0x0c || 0x0e <= c <= 0x1f
            }),
{
    let s = lossy(data);
    if is_binary {
        let i = choose|i: int| 0 <= i < s.len() && is_unreadable(#[trigger] s[i]);
        let c = s[i] as u32;
        assert(c == 0xfffd || c == 0x7f || c <= 0x08 || c == 0x0b || c == 0x0c || 0x0e <= c
            <= 0x1f);
    } else {
        assert forall|i: int| 0 <= i < s.len() implies !({
            let c = #[trigger] s[i] as u32;
            c == 0xfffd || c == 0x7f || c <= 0x08 || c == 0x0b || c == 0x0c || 0x0e <= c <= 0x1f
        }) by {
            assert(!is_unreadable(s[i]));
        }
    }
}

/// The text view is the value's text as far as the cap reaches, and says so
/// where it cuts.
pub proof fn text_view_is_the_text(
    is_binary: bool,
    text: Seq<char>,
    hex: Seq<char>,
    data: Seq<u8>,
    cap: usize,
)
    requires
        views(is_binary, text, hex, data, cap),
    ensures
        lossy(data).len() <= cap ==> text == lossy(data),
        lossy(data).len() > cap ==> text.take(cap as int) == lossy(data).take(cap as int)
            && text.skip(cap as int) == "\n… (truncated)"@,
{
    if lossy(data).len() > cap {
        assert(text.take(cap as int) =~= lossy(data).take(cap as int));
        assert(text.skip(cap as int) =~= "\n… (truncated)"@);
    }
}

/// What a hexadecimal digit stands for.
pub open spec fn digit_value(c: char) -> int {
    if c <= '9' {
        c as u32 - '0' as u32
    } else {
        c as u32 - 'a' as u32 + 10
    }
}

/// What a row of hexadecimal digits stands for.
pub open spec fn hex_value(s: Seq<char>) -> int
    decreases s.len(),
{
    if s.len() == 0 {
        0
    } else {
        16 * hex_value(s.drop_last()) + digit_value(s.last())
    }
}

/// Sixteen to the power of `w`.
pub open spec fn sixteens(w: nat) -> nat
    decreases w,
{
    if w == 0 {
        1
    } else {
        16 * sixteens((w - 1) as nat)
    }
}

/// A number written in hexadecimal reads back as that number, if the digits
/// suffice, and has as many digits as asked for.
pub proof fn hex_reads_back(n: nat, width: nat)
    requires
        n < sixteens(width),
    ensures
        hex_of(n, width).len() == width,
        hex_value(hex_of(n, width)) == n,
        forall|i: int|
            0 <= i < width ==> ('0' <= #[trigger] hex_of(n, width)[i] && hex_of(n, width)[i] <= '9')
                || ('a' <= hex_of(n, width)[i] && hex_of(n, width)[i] <= 'f'),
    decreases width,
{
    if width > 0 {
        let front = hex_of(n / 16, (width - 1) as nat);
        let all = hex_of(n, width);
        hex_reads_back(n / 16, (width - 1) as nat);
        assert(all.drop_last() =~= front);
        assert(all.last() == hex_digit((n % 16) as int));
        assert forall|i: int| 0 <= i < width implies ('0' <= #[trigger] all[i] && all[i] <= '9') || (
        'a' <= all[i] && all[i] <= 'f') by {
            if i < width - 1 {
                assert(all[i] == front[i]);
            }
        }
    }
}

proof fn hex_columns(b: Seq<u8>, from: int, to: int)
    requires
        0 <= from <= to <= b.len(),
    ensures
        hex_bytes(b, from, to).len() == 3 * (to - from),
        forall|k: int|
            #![trigger b[k]]
            from <= k < to ==> {
                let s = hex_bytes(b, from, to);
                &&& s.subrange(3 * (k - from), 3 * (k - from) + 2) == hex_of(b[k] as nat, 2)
                &&& s[3 * (k - from) + 2] == ' '
            },
    decreases to - from,
{
    reveal_strlit(" ");
    if from < to {
        let front = hex_bytes(b, from, to - 1);
        let s = hex_bytes(b, from, to);
        hex_columns(b, from, to - 1);
        assert(sixteens(2) == 256) by {
            reveal_with_fuel(sixteens, 3);
        }
        hex_reads_back(b[to - 1] as nat, 2);
        let last = hex_of(b[to - 1] as nat, 2);
        assert(s =~= front + last + " "@);
        assert forall|k: int| #![trigger b[k]] from <= k < to implies {
            &&& s.subrange(3 * (k - from), 3 * (k - from) + 2) == hex_of(b[k] as nat, 2)
            &&& s[3 * (k - from) + 2] == ' '
        } by {
            let at = 3 * (k - from);
            if k < to - 1 {
                assert(front.subrange(at, at + 2) == hex_of(b[k] as nat, 2));
                assert(s.subrange(at, at + 2) =~= front.subrange(at, at + 2));
                assert(s[at + 2] == front[at + 2]);
            } else {
                assert(s.subrange(at, at + 2) =~= last);
            }
        }
    }
}

/// In the hex dump from `from` on, byte `k` stands where it belongs: its line
/// begins with the offset of the line's first byte, its two digits stand in the
/// column of its place, and its character in the column to the right.
pub proof fn dump_shows_every_byte(b: Seq<u8>, from: int, k: int)
    requires
        0 <= from <= k < b.len(),
        b.len() <= 0x1_0000_0000,
    ensures
        ({
            let s = hex_lines(b, from);
            let line = 77 * ((k - from) / 16);
            let place = (k - from) % 16;
            &&& line + 60 + place < s.len()
            &&& hex_value(s.subrange(line, line + 8)) == k - place
            &&& hex_value(s.subrange(line + 10 + 3 * place, line + 12 + 3 * place)) == b[k]
            &&& s[line + 60 + place] == (if 0x20 <= b[k] <= 0x7e {
                b[k] as char
            } else {
                '.'
            })
        }),
    decreases b.len() - from,
{
    reveal_strlit("  ");
    reveal_strlit("\n");
    let to = line_end(from, b.len() as int);
    let s = hex_lines(b, from);
    assert(sixteens(8) == 0x1_0000_0000 && sixteens(2) == 256) by {
        reveal_with_fuel(sixteens, 9);
    }
    hex_reads_back(from as nat, 8);
    hex_columns(b, from, to);
    let head = hex_of(from as nat, 8);
    let hex = hex_bytes(b, from, to);
    let gap = crate::text::blanks(((16 - (to - from)) * 3) as nat);
    let ascii = ascii_bytes(b, from, to);
    let rest = hex_lines(b, to);
    assert(s =~= head + "  "@ + hex + gap + "  "@ + ascii + "\n"@ + rest);
    if k < to {
        let place = k - from;
        assert((k - from) / 16 == 0 && (k - from) % 16 == place);
        assert(s.subrange(0, 8) =~= head);
        hex_reads_back(b[k] as nat, 2);
        assert(hex.subrange(3 * place, 3 * place + 2) == hex_of(b[k] as nat, 2));
        assert(s.subrange(10 + 3 * place, 12 + 3 * place) =~= hex.subrange(
            3 * place,
            3 * place + 2,
        ));
        assert(s[60 + place] == ascii[place]);
    } else {
        assert(to == from + 16);
        dump_shows_every_byte(b, to, k);
        let line = 77 * ((k - to) / 16);
        let place = (k - to) % 16;
        assert((k - from) / 16 == (k - to) / 16 + 1 && (k - from) % 16 == place);
        assert(rest.subrange(line, line + 8) =~= s.subrange(line + 77, line + 85));
        assert(rest.subrange(line + 10 + 3 * place, line + 12 + 3 * place) =~= s.subrange(
            line + 87 + 3 * place,
            line + 89 + 3 * place,
        ));
        assert(rest[line + 60 + place] == s[line + 137 + place]);
    }
}

} // verus!
